//! The inbound dispatcher: what the server does with each thing that one
//! connection sends, from the connection's accept to its departure.

use vstd::prelude::*;
use vstd::string::*;
use crate::message::ClientMessage;
use crate::message::ClientMessageView;
use crate::message::ServerMessage;
use crate::message::ServerMessageView;
use crate::registry::fan_out;
use crate::registry::ids;
use crate::registry::ids_distinct;
use crate::registry::law_others_are_all_but_one;
use crate::registry::lemma_others_of_absent;
use crate::registry::others;
use crate::registry::recipients;
use crate::registry::same_handles;
use crate::registry::with_name;
use crate::registry::Connection;
use crate::registry::ConnectionRegistry;
use crate::registry::ConnectionView;
use crate::registry::Delivery;
use crate::store::count_of;
use crate::store::saturated;
use crate::store::with_added;
use crate::store::SharedState;
use crate::text::login_notice;
use crate::text::login_text;
use crate::text::logoff_notice;
use crate::text::logoff_text;
use crate::text::parse_failure_notice;
use crate::text::parse_failure_text;

verus! {

/// One thing that arrived from a connection.
#[derive(Debug)]
pub enum Inbound {
    /// An envelope.
    Decoded { message: ClientMessage },
    /// Something that is no envelope: why the decoder refused it, and a
    /// rendering of what arrived.
    Undecodable { reason: String, payload: String },
}

/// An arrival as a plain value.
pub enum InboundView {
    Decoded { message: ClientMessageView },
    Undecodable { reason: Seq<char>, payload: Seq<char> },
}

impl View for Inbound {
    type V = InboundView;

    open spec fn view(&self) -> InboundView {
        match *self {
            Inbound::Decoded { message } => InboundView::Decoded { message: message@ },
            Inbound::Undecodable { reason, payload } => InboundView::Undecodable {
                reason: reason@,
                payload: payload@,
            },
        }
    }
}

/// The dispatcher's state for one connection. A session starts anonymous,
/// is named from its first name claim on, and ends departed.
#[derive(Debug)]
pub struct Session {
    id: u64,
    name: Option<String>,
    departed: bool,
}

/// A session as a plain value.
pub struct SessionView {
    /// The connection's identity.
    pub id: u64,
    /// The name that the connection has claimed, if any.
    pub name: Option<Seq<char>>,
    /// Whether the connection's departure has been announced.
    pub departed: bool,
}

/// What the server did about one arrival or one departure.
#[derive(Debug)]
pub struct Outcome {
    /// What goes back to the connection itself, and to nobody else.
    pub reply: Option<ServerMessage>,
    /// What was offered to the other connections.
    pub broadcast: Option<ServerMessage>,
    /// The connections that `broadcast` was offered to, in the registry's
    /// order, each with the answer of its queue.
    pub deliveries: Vec<Delivery>,
}

/// A message as a plain value, where there is one.
pub open spec fn message_view(message: Option<ServerMessage>) -> Option<ServerMessageView> {
    match message {
        Some(m) => Some(m@),
        None => None,
    }
}

/// What goes back to the sender alone: a log line about the failure where
/// the arrival did not decode, and nothing otherwise.
pub open spec fn reply_to(session: SessionView, inbound: InboundView) -> Option<
    ServerMessageView,
> {
    match inbound {
        InboundView::Undecodable { reason, payload } => if session.departed {
            None
        } else {
            Some(ServerMessageView::Log { message: parse_failure_text(reason, payload) })
        },
        InboundView::Decoded { message } => None,
    }
}

/// What the other connections are told: the login line for a name claim;
/// for a named connection the counters after its addition, or its chat text
/// under its name; nothing for an anonymous connection that counts or
/// chats, for an arrival that did not decode, and after the departure.
pub open spec fn notice_for(
    session: SessionView,
    counts: Map<Seq<char>, nat>,
    inbound: InboundView,
) -> Option<ServerMessageView> {
    if session.departed {
        None
    } else {
        match inbound {
            InboundView::Decoded { message: ClientMessageView::SetName { data } } => Some(
                ServerMessageView::Log { message: login_text(data) },
            ),
            InboundView::Decoded { message: ClientMessageView::AddCount { data } } => match session.name {
                Some(name) => Some(
                    ServerMessageView::UpdateState { new_state: with_added(counts, name, data) },
                ),
                None => None,
            },
            InboundView::Decoded {
                message: ClientMessageView::SendMessage { data },
            } => match session.name {
                Some(name) => Some(ServerMessageView::ChatMessage { message: data, username: name }),
                None => None,
            },
            InboundView::Undecodable { reason, payload } => None,
        }
    }
}

/// The session after the arrival: a name claim names it, or renames it;
/// nothing else changes it.
pub open spec fn session_after(session: SessionView, inbound: InboundView) -> SessionView {
    match inbound {
        InboundView::Decoded { message: ClientMessageView::SetName { data } } => if session.departed {
            session
        } else {
            SessionView { id: session.id, name: Some(data), departed: false }
        },
        _ => session,
    }
}

/// The counters after the arrival: an addition by a named connection is
/// made under its name; nothing else changes them.
pub open spec fn counts_after(
    session: SessionView,
    counts: Map<Seq<char>, nat>,
    inbound: InboundView,
) -> Map<Seq<char>, nat> {
    match inbound {
        InboundView::Decoded { message: ClientMessageView::AddCount { data } } => match session.name {
            Some(name) => if session.departed {
                counts
            } else {
                with_added(counts, name, data)
            },
            None => counts,
        },
        _ => counts,
    }
}

/// The registry after the arrival: a name claim is written into the entry
/// of the connection; nothing else changes it.
pub open spec fn registry_after(
    session: SessionView,
    connections: Seq<ConnectionView>,
    inbound: InboundView,
) -> Seq<ConnectionView> {
    match inbound {
        InboundView::Decoded { message: ClientMessageView::SetName { data } } => if session.departed {
            connections
        } else {
            with_name(connections, session.id, data)
        },
        _ => connections,
    }
}

/// The session once the connection's departure has been announced.
pub open spec fn departed(session: SessionView) -> SessionView {
    SessionView { id: session.id, name: session.name, departed: true }
}

/// What the connections that are left are told when the connection
/// departs: that it has logged off, by its name where it claimed one and by
/// its id otherwise. A session that has departed already says nothing more.
pub open spec fn farewell(session: SessionView) -> Option<ServerMessageView> {
    if session.departed {
        None
    } else {
        Some(ServerMessageView::Log { message: logoff_text(session.id as nat, session.name) })
    }
}

/// The registry after the departure: without the connection, where it has
/// not departed before.
pub open spec fn remaining(session: SessionView, connections: Seq<Connection>) -> Seq<
    Connection,
> {
    if session.departed {
        connections
    } else {
        others(connections, session.id)
    }
}

/// Whether the arrival is an addition or chat text.
pub open spec fn counts_or_chats(inbound: InboundView) -> bool {
    match inbound {
        InboundView::Decoded { message: ClientMessageView::AddCount { data } } => true,
        InboundView::Decoded { message: ClientMessageView::SendMessage { data } } => true,
        _ => false,
    }
}

/// An addition by a connection that has claimed `name` is made under that
/// name and leaves every other name as it was, and the counters that result
/// are what the other connections are told: every live connection but the
/// one that counted, each once.
pub proof fn law_addition_is_told_to_the_others(
    session: SessionView,
    counts: Map<Seq<char>, nat>,
    connections: Seq<Connection>,
    name: Seq<char>,
    delta: nat,
)
    requires
        !session.departed,
        session.name == Some(name),
        ids_distinct(connections),
    ensures
        ({
            let inbound = InboundView::Decoded {
                message: ClientMessageView::AddCount { data: delta },
            };
            let after = counts_after(session, counts, inbound);
            let told = ids(others(connections, session.id));
            &&& notice_for(session, counts, inbound) == Some(
                ServerMessageView::UpdateState { new_state: after },
            )
            &&& reply_to(session, inbound) is None
            &&& after.dom().contains(name)
            &&& after[name] == saturated(count_of(counts, name) + delta)
            &&& forall|other: Seq<char>|
                other != name ==> after.dom().contains(other) == counts.dom().contains(other)
                    && after[other] == counts[other]
            &&& !told.contains(session.id)
            &&& told.no_duplicates()
            &&& forall|i: int|
                0 <= i < connections.len() && connections[i].id != session.id ==> told.contains(
                    #[trigger] connections[i].id,
                )
        }),
{
    law_others_are_all_but_one(connections, session.id);
    let rest = others(connections, session.id);
    let told = ids(rest);
    assert forall|i: int|
        0 <= i < connections.len() && connections[i].id != session.id implies told.contains(
        #[trigger] connections[i].id,
    ) by {
        assert(rest.contains(connections[i]));
        let k = choose|k: int| 0 <= k < rest.len() && rest[k] == connections[i];
        assert(told[k] == connections[i].id);
    }
}

/// An arrival that did not decode is answered with one log line to its
/// sender, is told to nobody else and changes nothing: whatever arrives
/// next is handled as if it had arrived first.
pub proof fn law_undecodable_is_answered_and_forgotten(
    session: SessionView,
    counts: Map<Seq<char>, nat>,
    connections: Seq<ConnectionView>,
    reason: Seq<char>,
    payload: Seq<char>,
    next: InboundView,
)
    requires
        !session.departed,
    ensures
        ({
            let bad = InboundView::Undecodable { reason, payload };
            let session_then = session_after(session, bad);
            let counts_then = counts_after(session, counts, bad);
            let connections_then = registry_after(session, connections, bad);
            &&& reply_to(session, bad) == Some(
                ServerMessageView::Log { message: parse_failure_text(reason, payload) },
            )
            &&& notice_for(session, counts, bad) is None
            &&& session_then == session
            &&& counts_then == counts
            &&& connections_then == connections
            &&& reply_to(session_then, next) == reply_to(session, next)
            &&& notice_for(session_then, counts_then, next) == notice_for(session, counts, next)
            &&& session_after(session_then, next) == session_after(session, next)
            &&& counts_after(session_then, counts_then, next) == counts_after(
                session,
                counts,
                next,
            )
            &&& registry_after(session_then, connections_then, next) == registry_after(
                session,
                connections,
                next,
            )
        }),
{
}

/// An addition or chat text from a connection that has claimed no name is
/// ignored: nothing changes, nothing goes back and nobody is told.
pub proof fn law_anonymous_is_ignored(
    session: SessionView,
    counts: Map<Seq<char>, nat>,
    connections: Seq<ConnectionView>,
    inbound: InboundView,
)
    requires
        session.name is None,
        counts_or_chats(inbound),
    ensures
        session_after(session, inbound) == session,
        counts_after(session, counts, inbound) == counts,
        registry_after(session, connections, inbound) == connections,
        reply_to(session, inbound) is None,
        notice_for(session, counts, inbound) is None,
{
}

/// A departure is announced once: the first one tells every connection that
/// is left, each once and never the one that leaves, and a second one finds
/// the session departed, says nothing and leaves the registry alone.
pub proof fn law_departure_is_announced_once(session: SessionView, connections: Seq<Connection>)
    requires
        !session.departed,
        ids_distinct(connections),
    ensures
        ({
            let left = remaining(session, connections);
            &&& farewell(session) == Some(
                ServerMessageView::Log { message: logoff_text(session.id as nat, session.name) },
            )
            &&& !ids(left).contains(session.id)
            &&& ids(left).no_duplicates()
            &&& forall|i: int|
                0 <= i < connections.len() && connections[i].id != session.id ==> ids(
                    left,
                ).contains(#[trigger] connections[i].id)
            &&& farewell(departed(session)) is None
            &&& remaining(departed(session), left) == left
            &&& departed(departed(session)) == departed(session)
        }),
{
    law_others_are_all_but_one(connections, session.id);
    let left = others(connections, session.id);
    assert forall|i: int|
        0 <= i < connections.len() && connections[i].id != session.id implies ids(left).contains(
        #[trigger] connections[i].id,
    ) by {
        assert(left.contains(connections[i]));
        let k = choose|k: int| 0 <= k < left.len() && left[k] == connections[i];
        assert(ids(left)[k] == connections[i].id);
    }
}

impl Outcome {
    /// The outcome of doing nothing.
    pub fn silent() -> (outcome: Outcome)
        ensures
            outcome.reply is None,
            outcome.broadcast is None,
            outcome.deliveries@ == Seq::<Delivery>::empty(),
    {
        Outcome { reply: None, broadcast: None, deliveries: Vec::new() }
    }
}

impl View for Session {
    type V = SessionView;

    closed spec fn view(&self) -> SessionView {
        SessionView {
            id: self.id,
            name: match self.name {
                Some(name) => Some(name@),
                None => None,
            },
            departed: self.departed,
        }
    }
}

impl Session {
    /// The session of a connection that was just accepted as `id`:
    /// anonymous and live.
    pub fn new(id: u64) -> (session: Session)
        ensures
            session@ == (SessionView { id, name: None, departed: false }),
    {
        Session { id, name: None, departed: false }
    }

    /// The connection's identity.
    pub fn id(&self) -> (id: u64)
        ensures
            id == self@.id,
    {
        self.id
    }

    /// The name that the connection has claimed, if any.
    pub fn name(&self) -> (name: Option<&String>)
        ensures
            match name {
                Some(n) => self@.name == Some(n@),
                None => self@.name is None,
            },
    {
        self.name.as_ref()
    }

    /// Whether the connection has claimed a name.
    pub fn is_named(&self) -> (named: bool)
        ensures
            named == self@.name is Some,
    {
        self.name.is_some()
    }

    /// Whether the connection's departure has been announced.
    pub fn has_departed(&self) -> (departed: bool)
        ensures
            departed == self@.departed,
    {
        self.departed
    }

    /// Offers `notice` to every live connection but this one and accounts
    /// for it.
    fn tell_others(&self, registry: &ConnectionRegistry, notice: ServerMessage) -> (outcome:
        Outcome)
        ensures
            outcome.reply is None,
            outcome.broadcast == Some(notice),
            recipients(outcome.deliveries@) == ids(others(registry.connections(), self@.id)),
    {
        let targets = registry.snapshot_others(self.id);
        let deliveries = fan_out(&targets, &notice);
        Outcome { reply: None, broadcast: Some(notice), deliveries }
    }

    /// Handles one arrival from the connection.
    ///
    /// A name claim names the session, writes the name into the registry
    /// and tells every other connection that the name logged in, each time
    /// it is made. An addition by a named connection is made in the store
    /// under its name, and every other connection gets the counters as that
    /// addition left them. Chat text of a named connection goes to every
    /// other connection under its name. An anonymous connection that counts
    /// or chats is ignored. An arrival that did not decode is answered with
    /// a log line to the sender alone, and changes nothing. The sender is
    /// never among those who are told, and after its departure a session
    /// ignores everything.
    pub fn dispatch(
        &mut self,
        state: &mut SharedState,
        registry: &mut ConnectionRegistry,
        inbound: Inbound,
    ) -> (outcome: Outcome)
        ensures
            final(self)@ == session_after(old(self)@, inbound@),
            final(state)@ == counts_after(old(self)@, old(state)@, inbound@),
            final(registry)@ == registry_after(old(self)@, old(registry)@, inbound@),
            same_handles(old(registry).connections(), final(registry).connections()),
            message_view(outcome.reply) == reply_to(old(self)@, inbound@),
            message_view(outcome.broadcast) == notice_for(old(self)@, old(state)@, inbound@),
            outcome.broadcast is Some ==> recipients(outcome.deliveries@) == ids(
                others(final(registry).connections(), old(self)@.id),
            ),
            outcome.broadcast is None ==> outcome.deliveries@ == Seq::<Delivery>::empty(),
    {
        if self.departed {
            return Outcome::silent();
        }
        match inbound {
            Inbound::Undecodable { reason, payload } => {
                let message = parse_failure_notice(reason.as_str(), payload.as_str());
                Outcome {
                    reply: Some(ServerMessage::Log { message }),
                    broadcast: None,
                    deliveries: Vec::new(),
                }
            },
            Inbound::Decoded { message: ClientMessage::SetName { data } } => {
                registry.set_name(self.id, data.as_str());
                let notice = ServerMessage::Log { message: login_notice(data.as_str()) };
                self.name = Some(data);
                self.tell_others(registry, notice)
            },
            Inbound::Decoded { message: ClientMessage::AddCount { data } } => {
                match &self.name {
                    Some(name) => {
                        let snapshot = state.add(name.as_str(), data);
                        self.tell_others(registry, ServerMessage::UpdateState { new_state: snapshot })
                    },
                    None => Outcome::silent(),
                }
            },
            Inbound::Decoded { message: ClientMessage::SendMessage { data } } => {
                match &self.name {
                    Some(name) => {
                        let notice = ServerMessage::ChatMessage {
                            message: data,
                            username: name.clone(),
                        };
                        self.tell_others(registry, notice)
                    },
                    None => Outcome::silent(),
                }
            },
        }
    }

    /// Ends the connection: takes it out of the registry, if it is still
    /// there, and tells every connection that is left that it has logged
    /// off, by its name where it claimed one and by its id otherwise. Only
    /// the first call does so. A later one finds the session departed and
    /// does nothing.
    pub fn depart(&mut self, registry: &mut ConnectionRegistry) -> (outcome: Outcome)
        ensures
            final(self)@ == departed(old(self)@),
            final(registry).connections() == remaining(old(self)@, old(registry).connections()),
            outcome.reply is None,
            message_view(outcome.broadcast) == farewell(old(self)@),
            outcome.broadcast is Some ==> recipients(outcome.deliveries@) == ids(
                final(registry).connections(),
            ),
            outcome.broadcast is None ==> outcome.deliveries@ == Seq::<Delivery>::empty(),
    {
        if self.departed {
            return Outcome::silent();
        }
        registry.remove(self.id);
        self.departed = true;
        let notice = ServerMessage::Log { message: logoff_notice(self.id, self.name.as_ref()) };
        proof {
            lemma_others_of_absent(registry.connections(), self.id);
        }
        self.tell_others(registry, notice)
    }
}

} // verus!
