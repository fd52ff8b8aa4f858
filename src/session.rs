//! The state machine of one client's event stream. It opens with a snapshot
//! of the whole store, then renders the store again without the client's own
//! id on each update, and closes for good on lag, shutdown or disconnect.

use vstd::prelude::*;
use crate::model::{has_key, keys_unique, lemma_map_of_domain, lemma_map_of_index, map_of};
use crate::render::{lemma_shown_keys, lemma_shown_map, render, render_store, shown};
use crate::store::ScheduleStore;

verus! {

/// Where a stream session stands.
#[derive(Clone, Copy, Debug, PartialEq, Eq, Structural)]
pub enum SessionPhase {
    /// Connected; the first snapshot is not sent yet.
    Opening,
    /// The first snapshot is sent; each update brings a new rendering.
    Streaming,
    /// Nothing more is sent.
    Closed,
}

/// What happens to a stream session.
#[derive(Clone, Copy, Debug, PartialEq, Eq, Structural)]
pub enum SessionEvent {
    /// The client's connection is open and the session is subscribed.
    Connected,
    /// An update was published.
    Update,
    /// Updates were dropped before the session read them.
    Lagged,
    /// The publisher has shut down.
    ChannelClosed,
    /// The client went away.
    Disconnected,
}

/// What the session asks its transport to do.
#[derive(Clone, Debug, PartialEq, Eq)]
pub enum SessionAction {
    /// Send this rendering as the next event.
    Emit(String),
    /// Send nothing now.
    Wait,
    /// End the stream and drop the subscription.
    Close,
}

/// An event after which the session cannot go on.
pub open spec fn is_terminal(event: SessionEvent) -> bool {
    event == SessionEvent::Lagged || event == SessionEvent::ChannelClosed || event
        == SessionEvent::Disconnected
}

/// `action` sends exactly the text `text`.
pub open spec fn emits(action: SessionAction, text: Seq<char>) -> bool {
    match action {
        SessionAction::Emit(s) => s@ == text,
        _ => false,
    }
}

/// One client's stream.
#[derive(Debug)]
pub struct StreamSession {
    /// The id of the client this stream serves.
    pub client_id: String,
    /// Where the stream stands.
    pub phase: SessionPhase,
}

impl StreamSession {
    /// A session for `client_id` that has sent nothing yet.
    pub fn new(client_id: String) -> (r: StreamSession)
        ensures
            r.client_id == client_id,
            r.phase == SessionPhase::Opening,
    {
        StreamSession { client_id, phase: SessionPhase::Opening }
    }

    /// Reacts to `event`, reading the store as it is now.
    ///
    /// On connecting, the whole store is sent, the client's own id included.
    /// While streaming, each update sends the store without the client's own
    /// id. Lag, shutdown and disconnect close the session, and a closed
    /// session sends nothing again.
    pub fn step(&mut self, event: SessionEvent, store: &ScheduleStore) -> (r: SessionAction)
        ensures
            final(self).client_id == old(self).client_id,
            old(self).phase == SessionPhase::Closed || is_terminal(event) ==> r
                == SessionAction::Close && final(self).phase == SessionPhase::Closed,
            old(self).phase == SessionPhase::Opening && event == SessionEvent::Connected ==> emits(
                r,
                render(shown(store.entries(), None)),
            ) && final(self).phase == SessionPhase::Streaming,
            old(self).phase == SessionPhase::Streaming && event == SessionEvent::Update ==> emits(
                r,
                render(shown(store.entries(), Some(old(self).client_id@))),
            ) && final(self).phase == SessionPhase::Streaming,
            old(self).phase == SessionPhase::Opening && event == SessionEvent::Update ==> r
                == SessionAction::Wait && final(self).phase == SessionPhase::Opening,
            old(self).phase == SessionPhase::Streaming && event == SessionEvent::Connected ==> r
                == SessionAction::Wait && final(self).phase == SessionPhase::Streaming,
    {
        match (self.phase, event) {
            (SessionPhase::Closed, _) |
            (_, SessionEvent::Lagged) |
            (_, SessionEvent::ChannelClosed) |
            (_, SessionEvent::Disconnected) => {
                self.phase = SessionPhase::Closed;
                SessionAction::Close
            },
            (SessionPhase::Opening, SessionEvent::Connected) => {
                self.phase = SessionPhase::Streaming;
                SessionAction::Emit(render_store(store, None))
            },
            (SessionPhase::Streaming, SessionEvent::Update) => {
                SessionAction::Emit(render_store(store, Some(&self.client_id)))
            },
            (_, _) => SessionAction::Wait,
        }
    }
}

/// While streaming, a client never sees its own id: the pairs rendered for it
/// are exactly the store's other pairs, each once. Its opening snapshot does
/// hold its own pair when the store has one.
pub proof fn lemma_own_id_only_in_opening(store: &ScheduleStore, id: Seq<char>)
    requires
        store.wf(),
    ensures
        forall|i: int|
            0 <= i < shown(store.entries(), Some(id)).len() ==> #[trigger] shown(
                store.entries(),
                Some(id),
            )[i].0 != id,
        keys_unique(shown(store.entries(), Some(id))),
        map_of(shown(store.entries(), Some(id))) == store@.remove(id),
        store@.contains_key(id) ==> shown(store.entries(), None).contains((id, store@[id])),
{
    let es = store.entries();
    lemma_shown_map(es, Some(id));
    lemma_shown_map(es, None);
    assert forall|i: int| 0 <= i < shown(es, Some(id)).len() implies #[trigger] shown(
        es,
        Some(id),
    )[i].0 != id by {
        assert(has_key(shown(es, Some(id)), shown(es, Some(id))[i].0));
        lemma_shown_keys(es, Some(id), shown(es, Some(id))[i].0);
    }
    if store@.contains_key(id) {
        let s = shown(es, None);
        lemma_map_of_domain(s, id);
        let j = choose|j: int| 0 <= j < s.len() && s[j].0 == id;
        lemma_map_of_index(s, j);
        assert(s[j] == (id, store@[id]));
    }
}

/// Every snapshot is the store itself: the pairs rendered, with or without a
/// left-out id, have distinct ids and stand for the store's map less that id.
pub proof fn lemma_snapshot_matches_store(store: &ScheduleStore, exclude: Option<Seq<char>>)
    requires
        store.wf(),
    ensures
        keys_unique(shown(store.entries(), exclude)),
        map_of(shown(store.entries(), exclude)) == match exclude {
            Some(id) => store@.remove(id),
            None => store@,
        },
{
    lemma_shown_map(store.entries(), exclude);
}

} // verus!
