use schedule_sync::asset::{serve_file, NOT_FOUND_STATUS};

#[test]
fn found_html_gets_html_type() {
    let reply = serve_file("index.html", Some(vec![1, 2, 3])).unwrap();
    assert_eq!(reply.content_type, "text/html");
    assert_eq!(reply.body, vec![1, 2, 3]);
}

#[test]
fn found_css_gets_css_type() {
    let reply = serve_file("assets/site.css", Some(Vec::new())).unwrap();
    assert_eq!(reply.content_type, "text/css");
    assert!(reply.body.is_empty());
}

#[test]
fn unknown_extension_is_octet_stream() {
    let reply = serve_file("blob", Some(vec![0])).unwrap();
    assert_eq!(reply.content_type, "application/octet-stream");
}

#[test]
fn missing_file_is_not_found_with_path() {
    let err = serve_file("missing.js", None).unwrap_err();
    assert_eq!(err.status, NOT_FOUND_STATUS);
    assert_eq!(err.status, 404);
    assert_eq!(err.message, "Not Found: missing.js");
}
