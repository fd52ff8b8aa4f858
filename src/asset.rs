//! The reply to a request for an embedded static file, given what the asset
//! provider found under the path.

use vstd::prelude::*;

verus! {

/// The status of a reply for a path that names no asset.
pub const NOT_FOUND_STATUS: u16 = 404;

/// The MIME type that mime_guess gives for a path.
pub uninterp spec fn guessed_content_type(path: Seq<char>) -> Seq<char>;

/// Relies on `mime_guess::from_path(..).first_or_octet_stream()`: the first
/// MIME type known for the path's extension, or `application/octet-stream`;
/// it reads no file, so it depends on the path alone.
#[verifier::external_body]
fn content_type_of(path: &str) -> (r: String)
    ensures
        r@ == guessed_content_type(path@),
{
    mime_guess::from_path(path).first_or_octet_stream().to_string()
}

/// A found asset: its MIME type and its bytes.
#[derive(Debug)]
pub struct AssetReply {
    pub content_type: String,
    pub body: Vec<u8>,
}

/// A failed asset request: its status and a text naming the path.
#[derive(Debug)]
pub struct AssetError {
    pub status: u16,
    pub message: String,
}

/// The text of a not-found reply.
pub open spec fn not_found_text(path: Seq<char>) -> Seq<char> {
    seq!['N', 'o', 't', ' ', 'F', 'o', 'u', 'n', 'd', ':', ' '] + path
}

/// The reply for `path`, given the bytes stored under it, if any.
pub fn serve_file(path: &str, found: Option<Vec<u8>>) -> (r: Result<AssetReply, AssetError>)
    ensures
        match (found, r) {
            (Some(data), Ok(reply)) => reply.body == data && reply.content_type@
                == guessed_content_type(path@),
            (None, Err(e)) => e.status == NOT_FOUND_STATUS && e.message@ == not_found_text(path@),
            _ => false,
        },
{
    match found {
        Some(data) => Ok(AssetReply { content_type: content_type_of(path), body: data }),
        None => {
            let mut message = String::from_str("Not Found: ");
            proof {
                reveal_strlit("Not Found: ");
            }
            message.append(path);
            assert(message@ =~= not_found_text(path@));
            Err(AssetError { status: NOT_FOUND_STATUS, message })
        },
    }
}

} // verus!
