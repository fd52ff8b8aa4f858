use schedule_sync::render::render_store;
use schedule_sync::session::{SessionAction, SessionEvent, SessionPhase, StreamSession};
use schedule_sync::store::ScheduleStore;

fn s(x: &str) -> String {
    x.to_string()
}

fn ingest(store: &mut ScheduleStore, items: &[(&str, &str)]) {
    let batch: Vec<(String, String)> = items.iter().map(|(k, v)| (s(k), s(v))).collect();
    store.apply_batch(&batch);
}

fn sorted_pairs(text: &str) -> Vec<String> {
    if text.is_empty() {
        return Vec::new();
    }
    let mut parts: Vec<String> = text.split('|').map(|p| p.to_string()).collect();
    parts.sort();
    parts
}

fn emitted(action: SessionAction) -> String {
    match action {
        SessionAction::Emit(text) => text,
        other => panic!("expected an event, got {:?}", other),
    }
}

#[test]
fn render_empty_store_is_empty_text() {
    let store = ScheduleStore::new();
    assert_eq!(render_store(&store, None), s(""));
    assert_eq!(render_store(&store, Some(&s("A"))), s(""));
}

#[test]
fn render_joins_pairs_with_bar() {
    let mut store = ScheduleStore::new();
    ingest(&mut store, &[("A", "10"), ("B", "20")]);
    assert_eq!(render_store(&store, None), s("A:10|B:20"));
    assert_eq!(render_store(&store, Some(&s("A"))), s("B:20"));
    assert_eq!(render_store(&store, Some(&s("B"))), s("A:10"));
    assert_eq!(render_store(&store, Some(&s("Z"))), s("A:10|B:20"));
}

#[test]
fn render_leaves_out_middle_pair() {
    let mut store = ScheduleStore::new();
    ingest(&mut store, &[("A", "1"), ("B", "2"), ("C", "3")]);
    assert_eq!(render_store(&store, Some(&s("B"))), s("A:1|C:3"));
}

#[test]
fn snapshot_then_update_for_other_client() {
    let mut store = ScheduleStore::new();
    ingest(&mut store, &[("A", "10")]);
    ingest(&mut store, &[("B", "20")]);
    let mut session = StreamSession::new(s("C"));
    let first = emitted(session.step(SessionEvent::Connected, &store));
    assert_eq!(sorted_pairs(&first), vec![s("A:10"), s("B:20")]);
    assert_eq!(session.phase, SessionPhase::Streaming);
    ingest(&mut store, &[("A", "11")]);
    let next = emitted(session.step(SessionEvent::Update, &store));
    assert_eq!(sorted_pairs(&next), vec![s("A:11"), s("B:20")]);
}

#[test]
fn own_id_in_opening_but_not_in_streaming() {
    let mut store = ScheduleStore::new();
    ingest(&mut store, &[("X", "hello")]);
    let mut session = StreamSession::new(s("X"));
    let first = emitted(session.step(SessionEvent::Connected, &store));
    assert_eq!(first, s("X:hello"));
    ingest(&mut store, &[("X", "bye")]);
    let next = emitted(session.step(SessionEvent::Update, &store));
    assert_eq!(next, s(""));
    assert!(!next.contains("X"));
}

#[test]
fn streaming_omits_own_id_among_others() {
    let mut store = ScheduleStore::new();
    ingest(&mut store, &[("A", "1"), ("B", "2")]);
    let mut session = StreamSession::new(s("A"));
    let first = emitted(session.step(SessionEvent::Connected, &store));
    assert_eq!(sorted_pairs(&first), vec![s("A:1"), s("B:2")]);
    ingest(&mut store, &[("A", "3"), ("C", "4")]);
    let next = emitted(session.step(SessionEvent::Update, &store));
    assert_eq!(sorted_pairs(&next), vec![s("B:2"), s("C:4")]);
}

#[test]
fn lag_closes_the_session() {
    let store = ScheduleStore::new();
    let mut session = StreamSession::new(s("A"));
    session.step(SessionEvent::Connected, &store);
    assert_eq!(session.step(SessionEvent::Lagged, &store), SessionAction::Close);
    assert_eq!(session.phase, SessionPhase::Closed);
    assert_eq!(session.step(SessionEvent::Update, &store), SessionAction::Close);
    assert_eq!(session.phase, SessionPhase::Closed);
}

#[test]
fn channel_close_and_disconnect_close_the_session() {
    let store = ScheduleStore::new();
    let mut a = StreamSession::new(s("A"));
    a.step(SessionEvent::Connected, &store);
    assert_eq!(a.step(SessionEvent::ChannelClosed, &store), SessionAction::Close);
    let mut b = StreamSession::new(s("B"));
    assert_eq!(b.step(SessionEvent::Disconnected, &store), SessionAction::Close);
    assert_eq!(b.phase, SessionPhase::Closed);
    assert_eq!(b.step(SessionEvent::Connected, &store), SessionAction::Close);
}

#[test]
fn out_of_order_events_wait() {
    let mut store = ScheduleStore::new();
    ingest(&mut store, &[("A", "1")]);
    let mut session = StreamSession::new(s("B"));
    assert_eq!(session.step(SessionEvent::Update, &store), SessionAction::Wait);
    assert_eq!(session.phase, SessionPhase::Opening);
    session.step(SessionEvent::Connected, &store);
    assert_eq!(session.step(SessionEvent::Connected, &store), SessionAction::Wait);
    assert_eq!(session.phase, SessionPhase::Streaming);
    assert_eq!(session.client_id, s("B"));
}
