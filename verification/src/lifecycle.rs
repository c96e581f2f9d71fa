//! The lifecycle controller: how a connection comes to be. Its end is
//! `Session::depart`.

use vstd::prelude::*;
use tokio::sync::mpsc::Receiver;
use crate::message::ServerMessage;
use crate::message::ServerMessageView;
use crate::outbox::open_outbox;
use crate::outbox::outbox_bound;
use crate::outbox::OUTBOX_CAPACITY;
use crate::registry::has_id;
use crate::registry::ConnectionRegistry;
use crate::registry::ConnectionView;
use crate::session::Session;
use crate::session::SessionView;
use crate::store::SharedState;
use crate::text::welcome_notice;
use crate::text::welcome_text;

verus! {

/// Hands out connection ids: each one once, in rising order from zero.
#[derive(Debug)]
pub struct IdSource {
    next: u64,
}

impl View for IdSource {
    type V = nat;

    /// The id that is handed out next.
    closed spec fn view(&self) -> nat {
        self.next as nat
    }
}

impl IdSource {
    /// A source that has handed out nothing yet.
    pub fn new() -> (source: IdSource)
        ensures
            source@ == 0,
    {
        IdSource { next: 0 }
    }

    /// A source that hands out `next` first: for a server that takes up
    /// where another left off.
    pub fn starting_at(next: u64) -> (source: IdSource)
        ensures
            source@ == next,
    {
        IdSource { next }
    }

    /// Hands out the next id. Every id is above all that came before it. A
    /// source that has reached `u64::MAX` hands out no more.
    pub fn issue(&mut self) -> (id: Option<u64>)
        ensures
            match id {
                Some(i) => i == old(self)@ && final(self)@ == old(self)@ + 1,
                None => old(self)@ == u64::MAX && final(self)@ == old(self)@,
            },
    {
        if self.next == u64::MAX {
            None
        } else {
            let id = self.next;
            self.next = id + 1;
            Some(id)
        }
    }
}

/// What a connection is sent first of all: the counters as they stand, then
/// a log line that tells it its id.
pub open spec fn greeting_for(counts: Map<Seq<char>, nat>, id: u64) -> Seq<ServerMessageView> {
    seq![
        ServerMessageView::UpdateState { new_state: counts },
        ServerMessageView::Log { message: welcome_text(id as nat) },
    ]
}

/// The messages as plain values, in the same order.
pub open spec fn message_views(messages: Seq<ServerMessage>) -> Seq<ServerMessageView> {
    Seq::new(messages.len(), |i: int| messages[i]@)
}

/// Builds the greeting of connection `id` from the store as it stands.
pub fn greeting(state: &SharedState, id: u64) -> (messages: Vec<ServerMessage>)
    ensures
        message_views(messages@) == greeting_for(state@, id),
{
    let mut messages: Vec<ServerMessage> = Vec::new();
    messages.push(ServerMessage::UpdateState { new_state: state.get_snapshot() });
    messages.push(ServerMessage::Log { message: welcome_notice(id) });
    assert(message_views(messages@) =~= greeting_for(state@, id));
    messages
}

/// A connection that was just accepted.
pub struct Admission {
    /// The dispatcher's state for the connection: anonymous and live.
    pub session: Session,
    /// The draining end of the connection's outbound queue.
    pub receiver: Receiver<ServerMessage>,
    /// What the connection is to be sent before anything else.
    pub greeting: Vec<ServerMessage>,
}

/// Accepts a connection as `id`: makes its outbound queue, enters it in the
/// registry without a name, and only then takes the greeting from the
/// store, so that no addition made from its registration on can pass it by.
/// An `id` that is live already is refused, and nothing changes.
pub fn accept(registry: &mut ConnectionRegistry, state: &SharedState, id: u64) -> (admission:
    Option<Admission>)
    ensures
        admission is Some <==> !has_id(old(registry).connections(), id),
        match admission {
            Some(a) => {
                &&& a.session@ == (SessionView { id, name: None, departed: false })
                &&& message_views(a.greeting@) == greeting_for(state@, id)
                &&& final(registry).connections().len() == old(registry).connections().len() + 1
                &&& final(registry).connections().drop_last() == old(registry).connections()
                &&& final(registry).connections().last()@ == (ConnectionView { id, user: None })
                &&& outbox_bound(final(registry).connections().last().sender)
                    == OUTBOX_CAPACITY
            },
            None => final(registry).connections() == old(registry).connections(),
        },
{
    let (sender, receiver) = open_outbox();
    if registry.register(id, sender) {
        assert(registry.connections().drop_last() =~= old(registry).connections());
        Some(Admission { session: Session::new(id), receiver, greeting: greeting(state, id) })
    } else {
        None
    }
}

} // verus!
