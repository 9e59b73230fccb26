//! The backend registry: which instances are live, and how loaded each is.
//!
//! The counters live in a `DashMap`. The registry owns it, and every
//! operation that changes it takes the registry by exclusive borrow, although
//! the map itself would let its callers share it: only so is what the map
//! holds a plain function of the registry's value, and only so can no caller
//! hold a reference into the map while another call takes its locks.
//!
//! What is said of the map's own methods below is taken on trust from its
//! source; everything else in this module is proved from it.

use crate::error::Error;
use crate::model::{adjusted, first_minimum, least_loaded, lists, no_entries, removed, sound, upserted};
use dashmap::DashMap;
use vstd::prelude::*;

verus! {

/// `dashmap::DashMap`, as a type whose inside is not looked into.
#[verifier::external_type_specification]
#[verifier::external_body]
#[verifier::reject_recursive_types(K)]
#[verifier::reject_recursive_types(V)]
#[verifier::reject_recursive_types(S)]
pub struct ExDashMap<K, V, S>(DashMap<K, V, S>);

/// The identities a `DashMap` holds, each with its counter. Two strings with
/// the same characters are one key.
pub uninterp spec fn entries(map: DashMap<String, i16>) -> Map<Seq<char>, i16>;

/// `DashMap::new`: the new map holds nothing.
#[verifier::external_body]
fn map_new() -> (created: DashMap<String, i16>)
    ensures
        entries(created) == no_entries(),
{
    DashMap::new()
}

/// `DashMap::insert`: the key is bound to the value, whatever it was bound to
/// before, and the earlier value comes back. The other bindings stay. The
/// call does not unwind: hashing a string cannot panic, and the map's locks
/// are not poisoned by anything.
#[verifier::external_body]
fn map_insert(map: &mut DashMap<String, i16>, key: String, value: i16) -> (previous: Option<i16>)
    ensures
        entries(*final(map)) == entries(*old(map)).insert(key@, value),
        previous == entries(*old(map)).get(key@),
    no_unwind
{
    map.insert(key, value)
}

/// `DashMap::remove`: the key is bound no longer, and the value it had comes
/// back. The other bindings stay. The call does not unwind, for the same
/// reasons as an insertion.
#[verifier::external_body]
fn map_remove(map: &mut DashMap<String, i16>, key: &str) -> (previous: Option<i16>)
    ensures
        entries(*final(map)) == entries(*old(map)).remove(key@),
        previous == entries(*old(map)).get(key@),
    no_unwind
{
    map.remove(key).map(|pair| pair.1)
}

/// `DashMap::get`: the value the key is bound to, if it is bound.
#[verifier::external_body]
fn map_get(map: &DashMap<String, i16>, key: &str) -> (value: Option<i16>)
    ensures
        value == entries(*map).get(key@),
{
    map.get(key).map(|entry| *entry.value())
}

/// `DashMap::contains_key`: whether the key is bound.
#[verifier::external_body]
fn map_contains(map: &DashMap<String, i16>, key: &str) -> (bound: bool)
    ensures
        bound == entries(*map).contains_key(key@),
{
    map.contains_key(key)
}

/// `DashMap::len`: the number of keys that are bound. The claim is made of
/// maps with finitely many keys only, as every map of a registry is.
#[verifier::external_body]
fn map_len(map: &DashMap<String, i16>) -> (count: usize)
    requires
        entries(*map).dom().finite(),
    ensures
        count == entries(*map).dom().len(),
{
    map.len()
}

/// `DashMap::iter`: every binding comes out once. The order follows the
/// map's hasher, which each process seeds anew, so nothing is said of it.
#[verifier::external_body]
fn map_items(map: &DashMap<String, i16>) -> (items: Vec<(String, i16)>)
    ensures
        lists(items@, entries(*map)),
{
    map.iter().map(|entry| (entry.key().clone(), *entry.value())).collect()
}

/// The position of the first pair with the smallest counter, or `None` for an
/// empty list. Among equal counters the one met first wins.
pub fn least_loaded_index(items: &Vec<(String, i16)>) -> (found: Option<usize>)
    ensures
        items@.len() == 0 <==> found.is_none(),
        found matches Some(at) ==> first_minimum(items@, at as int),
{
    if items.len() == 0 {
        return None;
    }
    let mut best: usize = 0;
    let mut i: usize = 1;
    while i < items.len()
        invariant
            1 <= i <= items@.len(),
            best < i,
            forall|j: int| 0 <= j < i ==> items@[best as int].1 <= #[trigger] items@[j].1,
            forall|j: int| 0 <= j < best ==> items@[best as int].1 < #[trigger] items@[j].1,
        decreases items@.len() - i,
    {
        if items[i].1 < items[best].1 {
            best = i;
        }
        i += 1;
    }
    Some(best)
}

/// The live backends, each with the number of requests it is handling.
pub struct Registry {
    map: DashMap<String, i16>,
}

impl View for Registry {
    type V = Map<Seq<char>, i16>;

    closed spec fn view(&self) -> Map<Seq<char>, i16> {
        entries(self.map)
    }
}

impl Registry {
    #[verifier::type_invariant]
    closed spec fn inv(&self) -> bool {
        sound(entries(self.map))
    }

    /// The registry holds finitely many identities and no counter below
    /// zero. Every operation ends in such a registry.
    pub open spec fn wf(&self) -> bool {
        sound(self@)
    }

    /// Brings into a caller's proof that this registry, like every registry,
    /// is well formed. It does nothing when it runs.
    pub fn well_formed(&self)
        ensures
            self.wf(),
    {
        proof {
            use_type_invariant(self);
        }
    }

    /// A registry without backends.
    pub fn new() -> (registry: Registry)
        ensures
            registry@ == no_entries(),
            registry.wf(),
    {
        Registry { map: map_new() }
    }

    /// Records `identity` as live. A new identity starts with counter zero; a
    /// known one keeps the load it has. Returns whether it was new.
    pub fn upsert(&mut self, identity: &str) -> (added: bool)
        ensures
            final(self)@ == upserted(old(self)@, identity@),
            added == !old(self)@.contains_key(identity@),
            final(self).wf(),
    {
        proof {
            use_type_invariant(&*self);
        }
        if map_contains(&self.map, identity) {
            false
        } else {
            let _ = map_insert(&mut self.map, identity.to_owned(), 0);
            true
        }
    }

    /// Forgets `identity` and its counter. Returns whether it was known.
    pub fn remove(&mut self, identity: &str) -> (known: bool)
        ensures
            final(self)@ == removed(old(self)@, identity@),
            known == old(self)@.contains_key(identity@),
            final(self).wf(),
    {
        proof {
            use_type_invariant(&*self);
        }
        map_remove(&mut self.map, identity).is_some()
    }

    /// Adds `delta` to the counter of `identity`, holding the result between
    /// zero and `i16::MAX`. An identity that is not in the registry stays out
    /// of it, and no other counter changes.
    pub fn adjust(&mut self, identity: &str, delta: i16)
        ensures
            final(self)@ == adjusted(old(self)@, identity@, delta),
            final(self).wf(),
    {
        proof {
            use_type_invariant(&*self);
        }
        match map_get(&self.map, identity) {
            Some(counter) => {
                let _ = map_insert(&mut self.map, identity.to_owned(), shift(counter, delta));
            },
            None => {},
        }
    }

    /// An identity whose counter no other undercuts, or `NoBackendsAvailable`
    /// when the registry is empty.
    pub fn select_least_loaded(&self) -> (chosen: Result<String, Error>)
        ensures
            chosen is Err <==> self@ == no_entries(),
            chosen matches Ok(identity) ==> least_loaded(self@, identity@),
            chosen matches Err(e) ==> e == Error::NoBackendsAvailable,
    {
        let items = map_items(&self.map);
        match least_loaded_index(&items) {
            Some(at) => {
                proof {
                    lemma_minimum_of_listing(items@, self@, at as int);
                }
                Ok(items[at].0.clone())
            },
            None => {
                assert(self@ =~= no_entries());
                Err(Error::NoBackendsAvailable)
            },
        }
    }

    /// The counter of `identity`, if it is in the registry.
    pub fn counter(&self, identity: &str) -> (value: Option<i16>)
        ensures
            value == self@.get(identity@),
            value matches Some(c) ==> c >= 0,
    {
        proof {
            use_type_invariant(self);
        }
        map_get(&self.map, identity)
    }

    /// Whether `identity` is in the registry.
    pub fn contains(&self, identity: &str) -> (present: bool)
        ensures
            present == self@.contains_key(identity@),
    {
        map_contains(&self.map, identity)
    }

    /// The number of identities in the registry.
    pub fn len(&self) -> (count: usize)
        ensures
            self.wf(),
            count == self@.dom().len(),
    {
        proof {
            use_type_invariant(self);
        }
        map_len(&self.map)
    }

    /// Whether the registry holds no identity.
    pub fn is_empty(&self) -> (empty: bool)
        ensures
            empty <==> self@ == no_entries(),
    {
        proof {
            use_type_invariant(self);
        }
        let count = map_len(&self.map);
        proof {
            if count == 0 {
                assert(self@.dom() =~= Set::empty());
                assert(self@ =~= no_entries());
            }
        }
        count == 0
    }

    /// Every identity with its counter, in no particular order.
    pub fn snapshot(&self) -> (items: Vec<(String, i16)>)
        ensures
            lists(items@, self@),
            self.wf(),
    {
        proof {
            use_type_invariant(self);
        }
        map_items(&self.map)
    }
}

/// A counter after a signed adjustment, held between zero and `i16::MAX`.
pub fn shift(counter: i16, delta: i16) -> (moved: i16)
    ensures
        moved == crate::model::shifted(counter, delta),
{
    let sum: i32 = counter as i32 + delta as i32;
    if sum < 0 {
        0
    } else if sum > i16::MAX as i32 {
        i16::MAX
    } else {
        sum as i16
    }
}

/// The first minimum of a listing is a least-loaded identity of the map.
proof fn lemma_minimum_of_listing(items: Seq<(String, i16)>, m: Map<Seq<char>, i16>, at: int)
    requires
        lists(items, m),
        first_minimum(items, at),
    ensures
        least_loaded(m, items[at].0@),
        m != no_entries(),
{
    assert(m.contains_key(items[at].0@));
    assert forall|k: Seq<char>| #[trigger] m.contains_key(k) implies m[items[at].0@] <= m[k] by {
        let i = choose|i: int| 0 <= i < items.len() && #[trigger] items[i].0@ == k;
        assert(items[at].1 <= items[i].1);
    }
}

} // verus!
