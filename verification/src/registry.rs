//! The connection registry: the live connections, each once, in the order in
//! which they were accepted.

use vstd::prelude::*;
use vstd::string::*;
use tokio::sync::mpsc::Sender;
use crate::message::ServerMessage;
use crate::outbox::try_send;
use crate::outbox::Offer;

verus! {

/// One live connection.
pub struct Connection {
    /// The identity that the connection was given when it was accepted.
    pub id: u64,
    /// The producing end of the connection's outbound queue.
    pub sender: Sender<ServerMessage>,
    /// The display name that the connection has claimed, if any.
    pub user: Option<String>,
}

/// A connection as a plain value: who it is and what it calls itself.
pub struct ConnectionView {
    pub id: u64,
    pub user: Option<Seq<char>>,
}

impl View for Connection {
    type V = ConnectionView;

    open spec fn view(&self) -> ConnectionView {
        ConnectionView {
            id: self.id,
            user: match self.user {
                Some(name) => Some(name@),
                None => None,
            },
        }
    }
}

/// What became of one message on its way to one connection.
#[derive(Clone, Copy, Debug, PartialEq, Eq, Structural)]
pub struct Delivery {
    /// The connection that the message was offered to.
    pub to: u64,
    /// What its queue answered.
    pub offer: Offer,
}

/// The connections as plain values, in the same order.
pub open spec fn views(connections: Seq<Connection>) -> Seq<ConnectionView> {
    Seq::new(connections.len(), |i: int| connections[i]@)
}

/// The ids of the connections, in the same order.
pub open spec fn ids(connections: Seq<Connection>) -> Seq<u64> {
    Seq::new(connections.len(), |i: int| connections[i].id)
}

/// The connections behind a sequence of borrows.
pub open spec fn borrowed(targets: Seq<&Connection>) -> Seq<Connection> {
    Seq::new(targets.len(), |i: int| *targets[i])
}

/// The connections that a report speaks of, in its order.
pub open spec fn recipients(report: Seq<Delivery>) -> Seq<u64> {
    Seq::new(report.len(), |i: int| report[i].to)
}

/// Whether no id occurs twice.
pub open spec fn ids_distinct(connections: Seq<Connection>) -> bool {
    forall|i: int, j: int|
        0 <= i < j < connections.len() ==> connections[i].id != connections[j].id
}

/// Whether some connection has the id.
pub open spec fn has_id(connections: Seq<Connection>, id: u64) -> bool {
    exists|i: int| 0 <= i < connections.len() && connections[i].id == id
}

/// The test that every connection but `id` passes.
pub open spec fn is_other(id: u64) -> spec_fn(Connection) -> bool {
    |c: Connection| c.id != id
}

/// The connections without the one called `id`, in the same order.
pub open spec fn others(connections: Seq<Connection>, id: u64) -> Seq<Connection> {
    connections.filter(is_other(id))
}

/// The connections once `id` has claimed `name`: the entry of `id` carries
/// the name, whatever it carried before, and every other entry is as it was.
pub open spec fn with_name(connections: Seq<ConnectionView>, id: u64, name: Seq<char>) -> Seq<
    ConnectionView,
> {
    Seq::new(
        connections.len(),
        |i: int|
            if connections[i].id == id {
                ConnectionView { id, user: Some(name) }
            } else {
                connections[i]
            },
    )
}

/// Whether two registries hold the same queues under the same ids, place by
/// place.
pub open spec fn same_handles(before: Seq<Connection>, after: Seq<Connection>) -> bool {
    &&& before.len() == after.len()
    &&& forall|i: int|
        0 <= i < before.len() ==> before[i].id == after[i].id && before[i].sender
            == after[i].sender
}

/// Without `id`, a registry in which `id` does not occur is what it was.
pub proof fn lemma_others_of_absent(connections: Seq<Connection>, id: u64)
    requires
        !has_id(connections, id),
    ensures
        others(connections, id) == connections,
    decreases connections.len(),
{
    reveal(Seq::filter);
    if connections.len() > 0 {
        let front = connections.drop_last();
        assert(!has_id(front, id)) by {
            if has_id(front, id) {
                let i = choose|i: int| 0 <= i < front.len() && front[i].id == id;
                assert(connections[i].id == id);
            }
        }
        lemma_others_of_absent(front, id);
        assert(connections.last().id != id) by {
            assert(connections[connections.len() - 1].id == connections.last().id);
        }
        assert(front.push(connections.last()) =~= connections);
    } else {
        assert(others(connections, id) =~= connections);
    }
}

/// Without `id`, a registry that holds `id` at place `at`, and nowhere else,
/// is what it was with that place taken out.
pub proof fn lemma_others_of_present(connections: Seq<Connection>, id: u64, at: int)
    requires
        ids_distinct(connections),
        0 <= at < connections.len(),
        connections[at].id == id,
    ensures
        others(connections, id) == connections.remove(at),
    decreases connections.len(),
{
    reveal(Seq::filter);
    let front = connections.drop_last();
    let last = connections.len() - 1;
    if at == last {
        assert(!has_id(front, id));
        lemma_others_of_absent(front, id);
        assert(connections.remove(at) =~= front);
    } else {
        lemma_others_of_present(front, id, at);
        assert(connections.last().id != id);
        assert(front.remove(at).push(connections.last()) =~= connections.remove(at));
    }
}

/// Leaving one id out never lets an id occur twice, and what is left does
/// not hold the id.
pub proof fn lemma_others_distinct(connections: Seq<Connection>, id: u64)
    requires
        ids_distinct(connections),
    ensures
        ids_distinct(others(connections, id)),
        !has_id(others(connections, id), id),
{
    if has_id(connections, id) {
        let at = choose|i: int| 0 <= i < connections.len() && connections[i].id == id;
        lemma_others_of_present(connections, id, at);
        let rest = connections.remove(at);
        assert forall|i: int| 0 <= i < rest.len() implies #[trigger] rest[i].id != id by {
            if i < at {
                assert(rest[i] == connections[i]);
            } else {
                assert(rest[i] == connections[i + 1]);
            }
        }
        assert forall|i: int, j: int| 0 <= i < j < rest.len() implies rest[i].id
            != rest[j].id by {
            let a = if i < at { i } else { i + 1 };
            let b = if j < at { j } else { j + 1 };
            assert(rest[i] == connections[a]);
            assert(rest[j] == connections[b]);
        }
    } else {
        lemma_others_of_absent(connections, id);
    }
}

/// The connections without `id` are every connection that is not `id`, in
/// the order they had, and never `id` itself. Where no id occurs twice
/// among the connections, none does among them.
pub proof fn law_others_are_all_but_one(connections: Seq<Connection>, id: u64)
    ensures
        forall|i: int|
            0 <= i < connections.len() && connections[i].id != id ==> others(
                connections,
                id,
            ).contains(#[trigger] connections[i]),
        forall|k: int|
            0 <= k < others(connections, id).len() ==> (#[trigger] others(connections, id)[k]).id
                != id && connections.contains(others(connections, id)[k]),
        !ids(others(connections, id)).contains(id),
        ids_distinct(connections) ==> ids(others(connections, id)).no_duplicates(),
{
    let rest = others(connections, id);
    assert forall|i: int| 0 <= i < connections.len() && connections[i].id != id implies rest.contains(
        #[trigger] connections[i],
    ) by {
        assert(is_other(id)(connections[i]));
        connections.lemma_filter_contains(is_other(id), i);
    }
    assert forall|k: int| 0 <= k < rest.len() implies (#[trigger] rest[k]).id != id
        && connections.contains(rest[k]) by {
        connections.lemma_filter_pred(is_other(id), k);
        assert(is_other(id)(rest[k]));
        assert(rest.contains(rest[k]));
        connections.lemma_filter_contains_rev(is_other(id), rest[k]);
    }
    if ids(rest).contains(id) {
        let k = choose|k: int| 0 <= k < ids(rest).len() && ids(rest)[k] == id;
        assert(rest[k].id == id);
    }
    if ids_distinct(connections) {
        lemma_others_distinct(connections, id);
    }
}

/// Taking a connection out twice is taking it out once.
pub proof fn law_remove_is_idempotent(connections: Seq<Connection>, id: u64)
    ensures
        others(others(connections, id), id) == others(connections, id),
{
    law_others_are_all_but_one(connections, id);
    let rest = others(connections, id);
    assert(!has_id(rest, id)) by {
        if has_id(rest, id) {
            let k = choose|k: int| 0 <= k < rest.len() && rest[k].id == id;
            assert(rest[k].id != id);
        }
    }
    lemma_others_of_absent(rest, id);
}

/// Claiming the same name twice is claiming it once, and of two claims by
/// one connection the later one stands.
pub proof fn law_set_name_overwrites(
    connections: Seq<ConnectionView>,
    id: u64,
    first: Seq<char>,
    second: Seq<char>,
)
    ensures
        with_name(with_name(connections, id, first), id, first) == with_name(
            connections,
            id,
            first,
        ),
        with_name(with_name(connections, id, first), id, second) == with_name(
            connections,
            id,
            second,
        ),
{
    assert(with_name(with_name(connections, id, first), id, first) =~= with_name(
        connections,
        id,
        first,
    ));
    assert(with_name(with_name(connections, id, first), id, second) =~= with_name(
        connections,
        id,
        second,
    ));
}

/// Where the connection called `id` stands, if it is there.
fn position(connections: &Vec<Connection>, id: u64) -> (at: Option<usize>)
    ensures
        match at {
            Some(i) => i < connections@.len() && connections@[i as int].id == id,
            None => !has_id(connections@, id),
        },
{
    let mut i: usize = 0;
    while i < connections.len()
        invariant
            i <= connections@.len(),
            forall|j: int| 0 <= j < i ==> connections@[j].id != id,
        decreases connections@.len() - i,
    {
        if connections[i].id == id {
            return Some(i);
        }
        i = i + 1;
    }
    None
}

/// Writes `name` into the entry at place `at`.
fn rename_at(connections: &mut Vec<Connection>, at: usize, name: String)
    requires
        at < old(connections)@.len(),
    ensures
        same_handles(old(connections)@, final(connections)@),
        final(connections)@[at as int].user == Some(name),
        forall|i: int|
            0 <= i < old(connections)@.len() && i != at ==> final(connections)@[i] == old(
                connections,
            )@[i],
{
    let entry = &mut connections[at];
    entry.user = Some(name);
}

/// The registry of live connections.
pub struct ConnectionRegistry {
    connections: Vec<Connection>,
}

impl View for ConnectionRegistry {
    type V = Seq<ConnectionView>;

    /// The live connections as plain values, in the order of their accepts.
    open spec fn view(&self) -> Seq<ConnectionView> {
        views(self.connections())
    }
}

impl ConnectionRegistry {
    #[verifier::type_invariant]
    spec fn each_id_once(self) -> bool {
        ids_distinct(self.connections@)
    }

    /// The live connections with their queues, in the order of their accepts.
    pub closed spec fn connections(&self) -> Seq<Connection> {
        self.connections@
    }

    /// The registry with no connection in it.
    pub fn new() -> (registry: ConnectionRegistry)
        ensures
            registry.connections() == Seq::<Connection>::empty(),
    {
        ConnectionRegistry { connections: Vec::new() }
    }

    /// How many connections are live.
    pub fn len(&self) -> (n: usize)
        ensures
            n == self.connections().len(),
    {
        self.connections.len()
    }

    /// The connection called `id`, if it is live.
    pub fn get(&self, id: u64) -> (found: Option<&Connection>)
        ensures
            ids_distinct(self.connections()),
            match found {
                Some(c) => c.id == id && self.connections().contains(*c),
                None => !has_id(self.connections(), id),
            },
    {
        proof {
            use_type_invariant(self);
        }
        match position(&self.connections, id) {
            Some(i) => Some(&self.connections[i]),
            None => None,
        }
    }

    /// Enters a new connection, with its queue and no claimed name, behind
    /// the ones that are there. An id that is live already is not entered a
    /// second time: the registry stays as it is and the answer is `false`.
    pub fn register(&mut self, id: u64, sender: Sender<ServerMessage>) -> (added: bool)
        ensures
            added == !has_id(old(self).connections(), id),
            added ==> final(self).connections() == old(self).connections().push(
                Connection { id, sender, user: None },
            ),
            !added ==> final(self).connections() == old(self).connections(),
    {
        proof {
            use_type_invariant(&*self);
        }
        match position(&self.connections, id) {
            Some(_) => false,
            None => {
                let mut connections: Vec<Connection> = Vec::new();
                core::mem::swap(&mut self.connections, &mut connections);
                connections.push(Connection { id, sender, user: None });
                self.connections = connections;
                true
            },
        }
    }

    /// Records that `id` has claimed `name`, in place of whatever it had
    /// claimed before. Nothing changes where `id` is not live.
    pub fn set_name(&mut self, id: u64, name: &str)
        ensures
            final(self)@ == with_name(old(self)@, id, name@),
            same_handles(old(self).connections(), final(self).connections()),
    {
        proof {
            use_type_invariant(&*self);
        }
        match position(&self.connections, id) {
            Some(at) => {
                let mut connections: Vec<Connection> = Vec::new();
                core::mem::swap(&mut self.connections, &mut connections);
                rename_at(&mut connections, at, String::from_str(name));
                self.connections = connections;
                assert(self@ =~= with_name(old(self)@, id, name@));
            },
            None => {
                assert(self@ =~= with_name(old(self)@, id, name@));
            },
        }
    }

    /// Takes the connection called `id` out, if it is there. The others keep
    /// their order.
    pub fn remove(&mut self, id: u64)
        ensures
            final(self).connections() == others(old(self).connections(), id),
            !has_id(final(self).connections(), id),
    {
        proof {
            use_type_invariant(&*self);
            lemma_others_distinct(self.connections@, id);
        }
        match position(&self.connections, id) {
            Some(at) => {
                proof {
                    lemma_others_of_present(self.connections@, id, at as int);
                }
                let mut connections: Vec<Connection> = Vec::new();
                core::mem::swap(&mut self.connections, &mut connections);
                let _ = connections.remove(at);
                self.connections = connections;
            },
            None => {
                proof {
                    lemma_others_of_absent(self.connections@, id);
                }
            },
        }
    }

    /// Every live connection but `excluding`, each once, in the order of
    /// their accepts: the ones that a notice from `excluding` goes to.
    pub fn snapshot_others(&self, excluding: u64) -> (targets: Vec<&Connection>)
        ensures
            borrowed(targets@) == others(self.connections(), excluding),
            ids_distinct(borrowed(targets@)),
            !has_id(borrowed(targets@), excluding),
    {
        proof {
            use_type_invariant(self);
            lemma_others_distinct(self.connections@, excluding);
        }
        let mut targets: Vec<&Connection> = Vec::new();
        let mut i: usize = 0;
        while i < self.connections.len()
            invariant
                i <= self.connections@.len(),
                borrowed(targets@) == others(self.connections@.take(i as int), excluding),
            decreases self.connections@.len() - i,
        {
            let connection = &self.connections[i];
            proof {
                let seen = self.connections@.take(i as int);
                seen.lemma_filter_push(*connection, is_other(excluding));
                assert(seen.push(*connection) =~= self.connections@.take(i + 1));
            }
            if connection.id != excluding {
                let ghost before = targets@;
                targets.push(connection);
                assert(borrowed(targets@) =~= borrowed(before).push(*connection));
            }
            i = i + 1;
        }
        assert(self.connections@.take(i as int) =~= self.connections@);
        targets
    }
}

/// Offers a copy of `message` to the queue of each of `targets`, in their
/// order, and reports what each queue answered. A queue that is full or
/// closed loses the message; the others still get theirs, and nobody waits.
pub fn fan_out(targets: &Vec<&Connection>, message: &ServerMessage) -> (report: Vec<Delivery>)
    ensures
        recipients(report@) == ids(borrowed(targets@)),
{
    let mut report: Vec<Delivery> = Vec::new();
    let mut i: usize = 0;
    while i < targets.len()
        invariant
            i <= targets@.len(),
            report@.len() == i,
            forall|k: int| 0 <= k < i ==> report@[k].to == targets@[k].id,
        decreases targets@.len() - i,
    {
        let target = targets[i];
        let offer = try_send(&target.sender, message.clone());
        report.push(Delivery { to: target.id, offer });
        i = i + 1;
    }
    assert(recipients(report@) =~= ids(borrowed(targets@)));
    report
}

} // verus!
