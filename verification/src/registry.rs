//! The registry of collectors, keyed by the collectors' names.

use vstd::prelude::*;
use vstd::string::*;
use crate::mario_core::Collector;
use crate::text::{decimal, push_decimal};

verus! {

broadcast use vstd::seq_lib::group_seq_properties;

/// What registering `c` does to a registry that holds `m`: the first
/// collector registered under a name stays.
pub open spec fn registered<C: Collector>(m: Map<Seq<char>, C>, c: C) -> Map<Seq<char>, C> {
    if m.contains_key(c.collector_name()) {
        m
    } else {
        m.insert(c.collector_name(), c)
    }
}

/// What unregistering `c` does to a registry that holds `m`: whatever is
/// registered under `c`'s name leaves.
pub open spec fn unregistered<C: Collector>(m: Map<Seq<char>, C>, c: C) -> Map<Seq<char>, C> {
    m.remove(c.collector_name())
}

/// Registering under a name that is taken already changes nothing: the
/// collector registered first under a name stays.
pub proof fn law_first_registration_stays<C: Collector>(m: Map<Seq<char>, C>, c: C)
    requires
        m.contains_key(c.collector_name()),
    ensures
        registered(m, c) == m,
{
}

/// After registering, the collector's name is registered; after
/// unregistering, it is not; and no other name is touched by either.
pub proof fn law_register_unregister_name<C: Collector>(m: Map<Seq<char>, C>, c: C)
    ensures
        registered(m, c).contains_key(c.collector_name()),
        !unregistered(m, c).contains_key(c.collector_name()),
        forall|k: Seq<char>| k != c.collector_name() ==> (registered(m, c).contains_key(k)
            <==> m.contains_key(k)) && (unregistered(m, c).contains_key(k) <==> m.contains_key(k)),
{
}

/// Unregistering a collector undoes registering one of the same name that
/// was not registered before.
pub proof fn law_unregister_undoes_register<C: Collector>(m: Map<Seq<char>, C>, c: C, d: C)
    requires
        !m.contains_key(c.collector_name()),
        d.collector_name() == c.collector_name(),
    ensures
        unregistered(registered(m, c), d) == m,
{
    assert(unregistered(registered(m, c), d) =~= m);
}

/// One call on a registry: registering or unregistering a collector.
pub enum RegistryCall<C> {
    Register(C),
    Unregister(C),
}

/// The name of the collector that a call passes.
pub open spec fn call_name<C: Collector>(call: RegistryCall<C>) -> Seq<char> {
    match call {
        RegistryCall::Register(c) => c.collector_name(),
        RegistryCall::Unregister(c) => c.collector_name(),
    }
}

/// What a sequence of calls, made in order, does to a registry that holds `m`.
pub open spec fn after_calls<C: Collector>(m: Map<Seq<char>, C>, calls: Seq<RegistryCall<C>>) -> Map<Seq<char>, C>
    decreases calls.len(),
{
    if calls.len() == 0 {
        m
    } else {
        let before = after_calls(m, calls.drop_last());
        match calls.last() {
            RegistryCall::Register(c) => registered(before, c),
            RegistryCall::Unregister(c) => unregistered(before, c),
        }
    }
}

/// Whether the last of `calls` that passes a collector named `n` is a
/// register call (`false` where no call passes that name).
pub open spec fn last_call_registers<C: Collector>(calls: Seq<RegistryCall<C>>, n: Seq<char>) -> bool
    decreases calls.len(),
{
    if calls.len() == 0 {
        false
    } else if call_name(calls.last()) == n {
        calls.last() is Register
    } else {
        last_call_registers(calls.drop_last(), n)
    }
}

/// After any sequence of calls on an empty registry, a name is registered
/// exactly when the last call that passed that name was a register call.
/// (What `collectors` then lists is this set of names, each once.)
pub proof fn law_registered_after_calls<C: Collector>(calls: Seq<RegistryCall<C>>, n: Seq<char>)
    ensures
        after_calls(Map::<Seq<char>, C>::empty(), calls).contains_key(n) <==> last_call_registers(calls, n),
    decreases calls.len(),
{
    if calls.len() > 0 {
        law_registered_after_calls(calls.drop_last(), n);
    }
}

/// The registry: at most one collector per name.
///
/// The collectors are held as (name, collector) pairs in a `Vec`, with the
/// invariant that no name occurs twice, rather than in a `HashMap` keyed by
/// `String`: vstd's specification of `HashMap` proves nothing of lookups by a
/// `String` key, so the registry's contracts could not have been proved over
/// one. The order of the pairs is not part of the registry's meaning.
pub struct Registry<C> {
    entries: Vec<(String, C)>,
    contents: Ghost<Map<Seq<char>, C>>,
}

impl<C: Collector> View for Registry<C> {
    type V = Map<Seq<char>, C>;

    closed spec fn view(&self) -> Map<Seq<char>, C> {
        self.contents@
    }
}

impl<C: Collector> Default for Registry<C> {
    /// An empty registry.
    fn default() -> (r: Self)
        ensures
            r.wf(),
            r@ == Map::<Seq<char>, C>::empty(),
    {
        Registry { entries: Vec::new(), contents: Ghost(Map::empty()) }
    }
}

impl<C: Collector> Registry<C> {
    /// The registry's invariant: each name is held once, by an entry whose
    /// collector carries that name, and the entries are exactly the map.
    pub closed spec fn wf(&self) -> bool {
        let e = self.entries@;
        &&& forall|i: int, j: int|
            0 <= i < e.len() && 0 <= j < e.len() && i != j ==> #[trigger] e[i].0@ != #[trigger] e[j].0@
        &&& forall|i: int| 0 <= i < e.len() ==> #[trigger] e[i].0@ == e[i].1.collector_name()
        &&& forall|i: int| 0 <= i < e.len() ==> self.contents@.contains_key(#[trigger] e[i].0@)
            && self.contents@[e[i].0@] == e[i].1
        &&& forall|k: Seq<char>| #[trigger] self.contents@.contains_key(k) ==> exists|i: int|
            0 <= i < e.len() && #[trigger] e[i].0@ == k
    }

    proof fn lemma_names(&self)
        requires
            self.wf(),
        ensures
            self.entries@.map_values(|p: (String, C)| p.0@).to_set() == self@.dom(),
            self.entries@.map_values(|p: (String, C)| p.0@).no_duplicates(),
            self@.dom().finite(),
            self@.dom().len() == self.entries@.len(),
    {
        let names = self.entries@.map_values(|p: (String, C)| p.0@);
        assert(names.to_set() =~= self@.dom()) by {
            assert forall|k: Seq<char>| names.to_set().contains(k) implies self@.dom().contains(k) by {
                let i = choose|i: int| 0 <= i < names.len() && names[i] == k;
                assert(self.entries@[i].0@ == k);
            }
            assert forall|k: Seq<char>| self@.dom().contains(k) implies names.to_set().contains(k) by {
                let i = choose|i: int| 0 <= i < self.entries@.len() && #[trigger] self.entries@[i].0@ == k;
                assert(names[i] == k);
            }
        }
        assert(names.no_duplicates()) by {
            assert forall|i: int, j: int| 0 <= i < names.len() && 0 <= j < names.len() && i != j implies names[i] != names[j] by {
                assert(self.entries@[i].0@ != self.entries@[j].0@);
            }
        }
        names.unique_seq_to_set();
    }

    /// Every collector in the registry is registered under its own name.
    pub proof fn law_collectors_under_their_names(&self)
        requires
            self.wf(),
        ensures
            forall|k: Seq<char>| #[trigger] self@.contains_key(k) ==> self@[k].collector_name() == k,
    {
        assert forall|k: Seq<char>| #[trigger] self@.contains_key(k) implies self@[k].collector_name() == k by {
            let i = choose|i: int| 0 <= i < self.entries@.len() && #[trigger] self.entries@[i].0@ == k;
            assert(self.entries@[i].0@ == self.entries@[i].1.collector_name());
        }
    }

    /// An empty registry.
    pub fn new() -> (r: Self)
        ensures
            r.wf(),
            r@ == Map::<Seq<char>, C>::empty(),
    {
        Registry { entries: Vec::new(), contents: Ghost(Map::empty()) }
    }

    /// The index of the entry named `name`, if there is one.
    fn position(&self, name: &String) -> (r: Option<usize>)
        requires
            self.wf(),
        ensures
            match r {
                Some(i) => i < self.entries@.len() && self.entries@[i as int].0@ == name@,
                None => !self@.contains_key(name@),
            },
    {
        let mut i: usize = 0;
        while i < self.entries.len()
            invariant
                self.wf(),
                i <= self.entries@.len(),
                forall|j: int| 0 <= j < i ==> #[trigger] self.entries@[j].0@ != name@,
            decreases self.entries@.len() - i,
        {
            if self.entries[i].0 == *name {
                return Some(i);
            }
            i = i + 1;
        }
        None
    }

    /// Registers `c` under its name, unless that name is taken already: then
    /// the registry keeps the collector it had.
    pub fn register(&mut self, c: C)
        requires
            old(self).wf(),
        ensures
            final(self).wf(),
            final(self)@ == registered(old(self)@, c),
    {
        let name = c.get_name();
        match self.position(&name) {
            Some(_) => {},
            None => {
                let ghost old_entries = self.entries@;
                self.contents = Ghost(self.contents@.insert(name@, c));
                self.entries.push((name, c));
                assert forall|k: Seq<char>| #[trigger] self.contents@.contains_key(k) implies exists|i: int|
                    0 <= i < self.entries@.len() && #[trigger] self.entries@[i].0@ == k by {
                    if k != self.entries@[old_entries.len() as int].0@ {
                        let i = choose|i: int| 0 <= i < old_entries.len() && #[trigger] old_entries[i].0@ == k;
                        assert(self.entries@[i] == old_entries[i]);
                    }
                }
            },
        }
    }

    /// Removes whatever is registered under `c`'s name.
    pub fn unregister(&mut self, c: C)
        requires
            old(self).wf(),
        ensures
            final(self).wf(),
            final(self)@ == unregistered(old(self)@, c),
    {
        let name = c.get_name();
        match self.position(&name) {
            Some(i) => {
                let ghost old_entries = self.entries@;
                self.contents = Ghost(self.contents@.remove(name@));
                self.entries.remove(i);
                assert forall|j: int| 0 <= j < self.entries@.len() implies self.contents@.contains_key(#[trigger] self.entries@[j].0@)
                    && self.contents@[self.entries@[j].0@] == self.entries@[j].1 by {
                    if j < i {
                        assert(self.entries@[j] == old_entries[j]);
                        assert(j != i);
                    } else {
                        assert(self.entries@[j] == old_entries[j + 1]);
                    }
                }
                assert forall|k: Seq<char>| #[trigger] self.contents@.contains_key(k) implies exists|j: int|
                    0 <= j < self.entries@.len() && #[trigger] self.entries@[j].0@ == k by {
                    let m = choose|m: int| 0 <= m < old_entries.len() && #[trigger] old_entries[m].0@ == k;
                    assert(m != i);
                    if m < i {
                        assert(self.entries@[m] == old_entries[m]);
                    } else {
                        assert(self.entries@[m - 1] == old_entries[m]);
                    }
                }
                assert forall|a: int, b: int|
                    0 <= a < self.entries@.len() && 0 <= b < self.entries@.len() && a != b implies #[trigger] self.entries@[a].0@ != #[trigger] self.entries@[b].0@ by {
                    let oa = if a < i { a } else { a + 1 };
                    let ob = if b < i { b } else { b + 1 };
                    assert(self.entries@[a] == old_entries[oa]);
                    assert(self.entries@[b] == old_entries[ob]);
                }
                assert forall|j: int| 0 <= j < self.entries@.len() implies #[trigger] self.entries@[j].0@ == self.entries@[j].1.collector_name() by {
                    let oj = if j < i { j } else { j + 1 };
                    assert(self.entries@[j] == old_entries[oj]);
                }
            },
            None => {
                assert(self.contents@.remove(name@) =~= self.contents@);
            },
        }
    }

    /// The names of the registered collectors, each once, in no promised order.
    pub fn collectors(&self) -> (names: Vec<String>)
        requires
            self.wf(),
        ensures
            names@.map_values(|s: String| s@).to_set() == self@.dom(),
            names@.map_values(|s: String| s@).no_duplicates(),
            names@.len() == self@.dom().len(),
    {
        let mut names: Vec<String> = Vec::new();
        let mut i: usize = 0;
        while i < self.entries.len()
            invariant
                self.wf(),
                i <= self.entries@.len(),
                names@.len() == i,
                forall|k: int| 0 <= k < i ==> #[trigger] names@[k]@ == self.entries@[k].0@,
            decreases self.entries@.len() - i,
        {
            names.push(self.entries[i].0.clone());
            i = i + 1;
        }
        proof {
            assert(names@.map_values(|s: String| s@) =~= self.entries@.map_values(
                |p: (String, C)| p.0@,
            ));
            self.lemma_names();
        }
        names
    }

    /// The number of registered collectors.
    pub fn len(&self) -> (n: usize)
        requires
            self.wf(),
        ensures
            n == self@.dom().len(),
    {
        proof {
            self.lemma_names();
        }
        self.entries.len()
    }

    /// A one-line description: `Registry (N collectors)`.
    pub fn describe(&self) -> (s: String)
        requires
            self.wf(),
        ensures
            s@ == "Registry ("@ + decimal(self@.dom().len()) + " collectors)"@,
    {
        let n = self.len();
        let mut s = String::from_str("Registry (");
        push_decimal(&mut s, n as u64);
        s.append(" collectors)");
        s
    }
}

} // verus!
