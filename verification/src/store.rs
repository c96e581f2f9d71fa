//! The shared state store: one counter for each name that has counted.

use vstd::prelude::*;
use vstd::string::*;

verus! {

/// The counter kept under `name`: what the map holds for it, and zero for a
/// name that is absent.
pub open spec fn count_of(counts: Map<Seq<char>, nat>, name: Seq<char>) -> nat {
    if counts.dom().contains(name) {
        counts[name]
    } else {
        0
    }
}

/// A counter value brought into range: counters stop at `u64::MAX`.
pub open spec fn saturated(n: nat) -> nat {
    if n <= u64::MAX {
        n
    } else {
        u64::MAX as nat
    }
}

/// The counters after `delta` was added for `name`: the counter of `name` has
/// grown by `delta` (up to the largest value a counter can hold) and no other
/// name is touched.
pub open spec fn with_added(counts: Map<Seq<char>, nat>, name: Seq<char>, delta: nat) -> Map<
    Seq<char>,
    nat,
> {
    counts.insert(name, saturated(count_of(counts, name) + delta))
}

/// Whether `pairs` lists `counts`: every pair is a name with its counter, no
/// name is listed twice and no name of `counts` is left out.
pub open spec fn lists(pairs: Seq<(String, u64)>, counts: Map<Seq<char>, nat>) -> bool {
    &&& forall|i: int|
        0 <= i < pairs.len() ==> counts.dom().contains(#[trigger] pairs[i].0@) && counts[pairs[i].0@]
            == pairs[i].1
    &&& forall|i: int, j: int| 0 <= i < j < pairs.len() ==> pairs[i].0@ != pairs[j].0@
    &&& forall|name: Seq<char>| #[trigger]
        counts.dom().contains(name) ==> exists|i: int| 0 <= i < pairs.len() && pairs[i].0@ == name
}

/// The counters after every addition of `additions` was made, in order.
/// An addition is a name with the amount that is added for it.
pub open spec fn with_all_added(
    counts: Map<Seq<char>, nat>,
    additions: Seq<(Seq<char>, nat)>,
) -> Map<Seq<char>, nat>
    decreases additions.len(),
{
    if additions.len() == 0 {
        counts
    } else {
        with_added(
            with_all_added(counts, additions.drop_last()),
            additions.last().0,
            additions.last().1,
        )
    }
}

/// The sum of the amounts that `additions` adds for `name`.
pub open spec fn total_for(additions: Seq<(Seq<char>, nat)>, name: Seq<char>) -> nat
    decreases additions.len(),
{
    if additions.len() == 0 {
        0
    } else {
        let before = total_for(additions.drop_last(), name);
        if additions.last().0 == name {
            before + additions.last().1
        } else {
            before
        }
    }
}

/// After any run of additions, the counter of a name has grown by the sum
/// of what was added for that name, however the additions for other names
/// were interleaved with them: it is that sum on top of what it was, as
/// long as this fits a counter, and `u64::MAX` from there on.
pub proof fn law_counter_is_sum_of_additions(
    counts: Map<Seq<char>, nat>,
    additions: Seq<(Seq<char>, nat)>,
    name: Seq<char>,
)
    requires
        count_of(counts, name) <= u64::MAX,
    ensures
        count_of(with_all_added(counts, additions), name) == saturated(
            count_of(counts, name) + total_for(additions, name),
        ),
        count_of(counts, name) + total_for(additions, name) <= u64::MAX ==> count_of(
            with_all_added(counts, additions),
            name,
        ) == count_of(counts, name) + total_for(additions, name),
    decreases additions.len(),
{
    if additions.len() > 0 {
        law_counter_is_sum_of_additions(counts, additions.drop_last(), name);
    }
}

/// An addition for one name leaves every other name as it was.
pub proof fn law_addition_keeps_other_names(
    counts: Map<Seq<char>, nat>,
    name: Seq<char>,
    delta: nat,
    other: Seq<char>,
)
    requires
        other != name,
    ensures
        with_added(counts, name, delta).dom().contains(other) == counts.dom().contains(other),
        with_added(counts, name, delta)[other] == counts[other],
        count_of(with_added(counts, name, delta), other) == count_of(counts, other),
        count_of(with_added(counts, name, delta), name) == saturated(
            count_of(counts, name) + delta,
        ),
{
}

#[derive(Debug)]
struct Entry {
    name: String,
    count: u64,
}

/// The shared counters, by name. A name that never counted has no entry and
/// counts as zero.
#[derive(Debug)]
pub struct SharedState {
    entries: Vec<Entry>,
}

spec fn names_distinct(entries: Seq<Entry>) -> bool {
    forall|i: int, j: int| 0 <= i < j < entries.len() ==> entries[i].name@ != entries[j].name@
}

spec fn holds(entries: Seq<Entry>, i: int, name: Seq<char>) -> bool {
    0 <= i < entries.len() && entries[i].name@ == name
}

spec fn index_of(entries: Seq<Entry>, name: Seq<char>) -> int {
    choose|i: int| holds(entries, i, name)
}

spec fn counts(entries: Seq<Entry>) -> Map<Seq<char>, nat> {
    Map::new(
        |name: Seq<char>| exists|i: int| holds(entries, i, name),
        |name: Seq<char>| entries[index_of(entries, name)].count as nat,
    )
}

spec fn names(entries: Seq<Entry>) -> Seq<Seq<char>> {
    Seq::new(entries.len(), |i: int| entries[i].name@)
}

proof fn lemma_lookup(entries: Seq<Entry>, i: int, name: Seq<char>)
    requires
        names_distinct(entries),
        holds(entries, i, name),
    ensures
        counts(entries).dom().contains(name),
        counts(entries)[name] == entries[i].count,
{
    let j = index_of(entries, name);
    assert(holds(entries, j, name));
    assert(i == j);
}

proof fn lemma_absent(entries: Seq<Entry>, name: Seq<char>)
    requires
        forall|j: int| 0 <= j < entries.len() ==> entries[j].name@ != name,
    ensures
        !counts(entries).dom().contains(name),
{
    assert forall|i: int| !holds(entries, i, name) by {}
}

proof fn lemma_update(entries: Seq<Entry>, i: int, e: Entry)
    requires
        names_distinct(entries),
        0 <= i < entries.len(),
        e.name@ == entries[i].name@,
    ensures
        names_distinct(entries.update(i, e)),
        counts(entries.update(i, e)) == counts(entries).insert(e.name@, e.count as nat),
{
    let after = entries.update(i, e);
    assert(names_distinct(after)) by {
        assert forall|a: int, b: int| 0 <= a < b < after.len() implies after[a].name@
            != after[b].name@ by {
            assert(after[a].name@ == entries[a].name@);
            assert(after[b].name@ == entries[b].name@);
        }
    }
    let want = counts(entries).insert(e.name@, e.count as nat);
    assert forall|name: Seq<char>| counts(after).dom().contains(name) <==> want.dom().contains(
        name,
    ) by {
        if counts(after).dom().contains(name) {
            let k = choose|k: int| holds(after, k, name);
            assert(holds(entries, k, name));
        }
        if counts(entries).dom().contains(name) {
            let k = choose|k: int| holds(entries, k, name);
            assert(holds(after, k, name));
        }
        if name == e.name@ {
            assert(holds(after, i, name));
        }
    }
    assert forall|name: Seq<char>| counts(after).dom().contains(name) implies counts(after)[name]
        == want[name] by {
        let k = choose|k: int| holds(after, k, name);
        lemma_lookup(after, k, name);
        if k != i {
            assert(holds(entries, k, name));
            lemma_lookup(entries, k, name);
        }
    }
    assert(counts(after) =~= want);
}

proof fn lemma_push(entries: Seq<Entry>, e: Entry)
    requires
        names_distinct(entries),
        forall|j: int| 0 <= j < entries.len() ==> entries[j].name@ != e.name@,
    ensures
        names_distinct(entries.push(e)),
        counts(entries.push(e)) == counts(entries).insert(e.name@, e.count as nat),
{
    let after = entries.push(e);
    let last = entries.len() as int;
    assert(names_distinct(after));
    let want = counts(entries).insert(e.name@, e.count as nat);
    assert forall|name: Seq<char>| counts(after).dom().contains(name) <==> want.dom().contains(
        name,
    ) by {
        if counts(after).dom().contains(name) {
            let k = choose|k: int| holds(after, k, name);
            if k != last {
                assert(holds(entries, k, name));
            }
        }
        if counts(entries).dom().contains(name) {
            let k = choose|k: int| holds(entries, k, name);
            assert(holds(after, k, name));
        }
        if name == e.name@ {
            assert(holds(after, last, name));
        }
    }
    assert forall|name: Seq<char>| counts(after).dom().contains(name) implies counts(after)[name]
        == want[name] by {
        let k = choose|k: int| holds(after, k, name);
        lemma_lookup(after, k, name);
        if k != last {
            assert(holds(entries, k, name));
            lemma_lookup(entries, k, name);
        }
    }
    assert(counts(after) =~= want);
}

proof fn lemma_same_names(a: Seq<Entry>, b: Seq<Entry>)
    requires
        names_distinct(a),
        a.len() == b.len(),
        forall|i: int| 0 <= i < a.len() ==> a[i].name@ == b[i].name@ && a[i].count == b[i].count,
    ensures
        names_distinct(b),
        counts(a) == counts(b),
{
    assert forall|name: Seq<char>| counts(a).dom().contains(name) <==> counts(b).dom().contains(
        name,
    ) by {
        if counts(a).dom().contains(name) {
            let k = choose|k: int| holds(a, k, name);
            assert(holds(b, k, name));
        }
        if counts(b).dom().contains(name) {
            let k = choose|k: int| holds(b, k, name);
            assert(holds(a, k, name));
        }
    }
    assert forall|name: Seq<char>| counts(a).dom().contains(name) implies counts(a)[name]
        == counts(b)[name] by {
        let k = choose|k: int| holds(a, k, name);
        assert(holds(b, k, name));
        lemma_lookup(a, k, name);
        lemma_lookup(b, k, name);
    }
    assert(counts(a) =~= counts(b));
}

proof fn lemma_domain(entries: Seq<Entry>)
    requires
        names_distinct(entries),
    ensures
        counts(entries).dom().finite(),
        counts(entries).dom().len() == entries.len(),
{
    let listed = names(entries);
    assert(listed.no_duplicates());
    listed.unique_seq_to_set();
    assert(counts(entries).dom() =~= listed.to_set()) by {
        assert forall|name: Seq<char>| counts(entries).dom().contains(name) implies listed.to_set().contains(
            name,
        ) by {
            let k = choose|k: int| holds(entries, k, name);
            assert(listed[k] == name);
        }
        assert forall|name: Seq<char>| listed.to_set().contains(name) implies counts(
            entries,
        ).dom().contains(name) by {
            let k = choose|k: int| 0 <= k < listed.len() && listed[k] == name;
            assert(holds(entries, k, name));
        }
    }
}

/// Where `key` stands among `entries`, if it does.
fn position(entries: &Vec<Entry>, key: &String) -> (at: Option<usize>)
    ensures
        match at {
            Some(i) => holds(entries@, i as int, key@),
            None => forall|j: int| 0 <= j < entries@.len() ==> entries@[j].name@ != key@,
        },
{
    let mut i: usize = 0;
    while i < entries.len()
        invariant
            i <= entries@.len(),
            forall|j: int| 0 <= j < i ==> entries@[j].name@ != key@,
        decreases entries@.len() - i,
    {
        if entries[i].name == *key {
            return Some(i);
        }
        i = i + 1;
    }
    None
}

/// A copy of `entries`, name by name and counter by counter.
fn copy_of(entries: &Vec<Entry>) -> (copy: Vec<Entry>)
    ensures
        copy@.len() == entries@.len(),
        forall|i: int|
            0 <= i < entries@.len() ==> copy@[i].name@ == entries@[i].name@ && copy@[i].count
                == entries@[i].count,
{
    let mut copy: Vec<Entry> = Vec::new();
    let mut i: usize = 0;
    while i < entries.len()
        invariant
            i <= entries@.len(),
            copy@.len() == i,
            forall|j: int|
                0 <= j < i ==> copy@[j].name@ == entries@[j].name@ && copy@[j].count
                    == entries@[j].count,
        decreases entries@.len() - i,
    {
        copy.push(Entry { name: entries[i].name.clone(), count: entries[i].count });
        i = i + 1;
    }
    copy
}

/// Adds `delta` to the counter that `entries` keeps under `key`, with a new
/// entry where there is none yet.
fn upsert(entries: &mut Vec<Entry>, key: String, delta: u64)
    requires
        names_distinct(old(entries)@),
    ensures
        names_distinct(final(entries)@),
        counts(final(entries)@) == with_added(counts(old(entries)@), key@, delta as nat),
{
    match position(entries, &key) {
        Some(i) => {
            let count = entries[i].count.saturating_add(delta);
            let entry = Entry { name: key, count };
            proof {
                lemma_lookup(entries@, i as int, key@);
                lemma_update(entries@, i as int, entry);
            }
            entries.set(i, entry);
        },
        None => {
            let entry = Entry { name: key, count: delta };
            proof {
                lemma_absent(entries@, key@);
                lemma_push(entries@, entry);
            }
            entries.push(entry);
        },
    }
}

impl View for SharedState {
    type V = Map<Seq<char>, nat>;

    /// The counters as a map from name to value.
    closed spec fn view(&self) -> Map<Seq<char>, nat> {
        counts(self.entries@)
    }
}

impl Clone for SharedState {
    fn clone(&self) -> (copy: SharedState)
        ensures
            copy@ == self@,
    {
        self.get_snapshot()
    }
}

impl SharedState {
    #[verifier::type_invariant]
    spec fn names_occur_once(self) -> bool {
        names_distinct(self.entries@)
    }

    /// The empty store: every name counts as zero.
    pub fn new() -> (state: SharedState)
        ensures
            state@ == Map::<Seq<char>, nat>::empty(),
    {
        let state = SharedState { entries: Vec::new() };
        assert(state@ =~= Map::<Seq<char>, nat>::empty()) by {
            assert forall|name: Seq<char>| !state@.dom().contains(name) by {
                lemma_absent(state.entries@, name);
            }
        }
        state
    }

    /// A copy of the store as it is now, which later additions do not reach.
    pub fn get_snapshot(&self) -> (snapshot: SharedState)
        ensures
            snapshot@ == self@,
    {
        proof {
            use_type_invariant(self);
        }
        let entries = copy_of(&self.entries);
        proof {
            lemma_same_names(self.entries@, entries@);
        }
        SharedState { entries }
    }

    /// Adds `delta` to the counter of `name`, which starts at zero, and
    /// returns a copy of the store as the addition left it. A counter that
    /// would pass `u64::MAX` stays there.
    pub fn add(&mut self, name: &str, delta: u64) -> (snapshot: SharedState)
        ensures
            final(self)@ == with_added(old(self)@, name@, delta as nat),
            snapshot@ == final(self)@,
    {
        proof {
            use_type_invariant(&*self);
        }
        let mut entries: Vec<Entry> = Vec::new();
        core::mem::swap(&mut self.entries, &mut entries);
        upsert(&mut entries, String::from_str(name), delta);
        self.entries = entries;
        self.get_snapshot()
    }

    /// The counter of `name`: zero where it never counted.
    pub fn get(&self, name: &str) -> (count: u64)
        ensures
            count == count_of(self@, name@),
    {
        proof {
            use_type_invariant(self);
        }
        let key = String::from_str(name);
        match position(&self.entries, &key) {
            Some(i) => {
                proof {
                    lemma_lookup(self.entries@, i as int, name@);
                }
                self.entries[i].count
            },
            None => {
                proof {
                    lemma_absent(self.entries@, name@);
                }
                0
            },
        }
    }

    /// How many names have an entry.
    pub fn len(&self) -> (n: usize)
        ensures
            self@.dom().finite(),
            n == self@.dom().len(),
    {
        proof {
            use_type_invariant(self);
            lemma_domain(self.entries@);
        }
        self.entries.len()
    }

    /// Whether no name has an entry.
    pub fn is_empty(&self) -> (empty: bool)
        ensures
            empty == (self@ == Map::<Seq<char>, nat>::empty()),
    {
        proof {
            use_type_invariant(self);
            if self.entries@.len() == 0 {
                assert forall|name: Seq<char>| !self@.dom().contains(name) by {
                    lemma_absent(self.entries@, name);
                }
                assert(self@ =~= Map::<Seq<char>, nat>::empty());
            } else {
                lemma_lookup(self.entries@, 0, self.entries@[0].name@);
            }
        }
        self.entries.len() == 0
    }

    /// Every name with its counter, each name once.
    pub fn to_pairs(&self) -> (pairs: Vec<(String, u64)>)
        ensures
            lists(pairs@, self@),
            pairs@.len() == self@.dom().len(),
    {
        proof {
            use_type_invariant(self);
            lemma_domain(self.entries@);
        }
        let mut pairs: Vec<(String, u64)> = Vec::new();
        let mut i: usize = 0;
        while i < self.entries.len()
            invariant
                i <= self.entries@.len(),
                pairs@.len() == i,
                forall|j: int|
                    0 <= j < i ==> (#[trigger] pairs@[j]).0@ == self.entries@[j].name@ && pairs@[j].1
                        == self.entries@[j].count,
            decreases self.entries@.len() - i,
        {
            pairs.push((self.entries[i].name.clone(), self.entries[i].count));
            i = i + 1;
        }
        proof {
            assert forall|j: int| 0 <= j < pairs@.len() implies self@.dom().contains(
                #[trigger] pairs@[j].0@,
            ) && self@[pairs@[j].0@] == pairs@[j].1 by {
                lemma_lookup(self.entries@, j, self.entries@[j].name@);
            }
            assert forall|name: Seq<char>| #[trigger]
                self@.dom().contains(name) implies exists|j: int|
                0 <= j < pairs@.len() && pairs@[j].0@ == name by {
                let k = choose|k: int| holds(self.entries@, k, name);
                assert(pairs@[k].0@ == name);
            }
        }
        pairs
    }
}

} // verus!
