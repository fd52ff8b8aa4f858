use schedule_sync::broadcast::{Broadcaster, QUEUE_CAPACITY};
use schedule_sync::session::{SessionAction, SessionEvent, StreamSession};
use schedule_sync::store::ScheduleStore;
use tokio::sync::broadcast::error::TryRecvError;

fn batch(k: &str, v: &str) -> Vec<(String, String)> {
    vec![(k.to_string(), v.to_string())]
}

#[test]
fn capacity_is_kept() {
    let hub = Broadcaster::new(QUEUE_CAPACITY);
    assert_eq!(hub.capacity(), 256);
}

#[test]
fn empty_batch_is_not_published() {
    let mut hub = Broadcaster::new(4);
    let mut rx = hub.subscribe();
    assert!(!hub.publish(Vec::new()));
    assert!(matches!(rx.try_recv(), Err(TryRecvError::Empty)));
}

#[test]
fn batch_reaches_every_subscriber() {
    let mut hub = Broadcaster::new(4);
    let mut rx1 = hub.subscribe();
    let mut rx2 = hub.subscribe();
    assert!(hub.publish(batch("A", "1")));
    assert_eq!(rx1.try_recv().unwrap(), batch("A", "1"));
    assert_eq!(rx2.try_recv().unwrap(), batch("A", "1"));
}

#[test]
fn publish_without_subscribers_does_not_fail() {
    let mut hub = Broadcaster::new(4);
    assert!(hub.publish(batch("A", "1")));
}

#[test]
fn late_subscriber_sees_only_later_batches() {
    let mut hub = Broadcaster::new(4);
    let mut early = hub.subscribe();
    hub.publish(batch("A", "1"));
    let mut late = hub.subscribe();
    hub.publish(batch("B", "2"));
    assert_eq!(early.try_recv().unwrap(), batch("A", "1"));
    assert_eq!(late.try_recv().unwrap(), batch("B", "2"));
    assert!(matches!(late.try_recv(), Err(TryRecvError::Empty)));
}

#[test]
fn overflowing_subscriber_lags_and_its_session_closes() {
    let mut hub = Broadcaster::new(2);
    let mut rx = hub.subscribe();
    for i in 0..3 {
        hub.publish(batch("A", &i.to_string()));
    }
    let event = match rx.try_recv() {
        Ok(_) => SessionEvent::Update,
        Err(TryRecvError::Lagged(_)) => SessionEvent::Lagged,
        Err(_) => SessionEvent::ChannelClosed,
    };
    assert_eq!(event, SessionEvent::Lagged);
    let store = ScheduleStore::new();
    let mut session = StreamSession::new("B".to_string());
    session.step(SessionEvent::Connected, &store);
    assert_eq!(session.step(event, &store), SessionAction::Close);
}

#[test]
fn queue_holds_capacity_rounded_up_to_power_of_two() {
    let mut hub = Broadcaster::new(3);
    let mut rx = hub.subscribe();
    for i in 0..4 {
        hub.publish(batch("A", &i.to_string()));
    }
    for i in 0..4 {
        assert_eq!(rx.try_recv().unwrap(), batch("A", &i.to_string()));
    }
    for i in 0..5 {
        hub.publish(batch("B", &i.to_string()));
    }
    assert!(matches!(rx.try_recv(), Err(TryRecvError::Lagged(1))));
}
