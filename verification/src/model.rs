//! The mathematical model of the registry: a finite map from identities to
//! load counters, and what each operation makes of it.

use vstd::prelude::*;

verus! {

/// The map that binds no identity.
pub open spec fn no_entries() -> Map<Seq<char>, i16> {
    Map::empty()
}

/// A map the registry may hold: finitely many identities, no counter below
/// zero.
pub open spec fn sound(m: Map<Seq<char>, i16>) -> bool {
    &&& m.dom().finite()
    &&& forall|k: Seq<char>| #[trigger] m.contains_key(k) ==> m[k] >= 0
}

/// The map after `id` was reported as added: a new identity starts at zero,
/// a known one keeps its counter.
pub open spec fn upserted(m: Map<Seq<char>, i16>, id: Seq<char>) -> Map<Seq<char>, i16> {
    if m.contains_key(id) {
        m
    } else {
        m.insert(id, 0i16)
    }
}

/// The map after `id` was reported as removed.
pub open spec fn removed(m: Map<Seq<char>, i16>, id: Seq<char>) -> Map<Seq<char>, i16> {
    m.remove(id)
}

/// A counter after a signed adjustment. The sum is held between zero and the
/// largest value the counter can take.
pub open spec fn shifted(counter: i16, delta: i16) -> i16 {
    let sum = counter + delta;
    if sum < 0 {
        0i16
    } else if sum > i16::MAX {
        i16::MAX
    } else {
        sum as i16
    }
}

/// The map after the counter of `id` was adjusted by `delta`. An identity
/// that is not in the map stays out of it.
pub open spec fn adjusted(m: Map<Seq<char>, i16>, id: Seq<char>, delta: i16) -> Map<
    Seq<char>,
    i16,
> {
    if m.contains_key(id) {
        m.insert(id, shifted(m[id], delta))
    } else {
        m
    }
}

/// `id` is in the map and no identity in it has a smaller counter.
pub open spec fn least_loaded(m: Map<Seq<char>, i16>, id: Seq<char>) -> bool {
    &&& m.contains_key(id)
    &&& forall|k: Seq<char>| #[trigger] m.contains_key(k) ==> m[id] <= m[k]
}

/// `items` lists what `m` holds: every pair is a binding of `m`, every
/// identity of `m` occurs, and none occurs twice. The order is left open.
pub open spec fn lists(items: Seq<(String, i16)>, m: Map<Seq<char>, i16>) -> bool {
    &&& forall|i: int|
        0 <= i < items.len() ==> m.contains_key(#[trigger] items[i].0@) && m[items[i].0@]
            == items[i].1
    &&& forall|k: Seq<char>| #[trigger]
        m.contains_key(k) ==> exists|i: int| 0 <= i < items.len() && #[trigger] items[i].0@ == k
    &&& forall|i: int, j: int|
        0 <= i < j < items.len() ==> #[trigger] items[i].0@ != #[trigger] items[j].0@
}

/// `at` is the first position of `items` that holds the smallest counter.
pub open spec fn first_minimum(items: Seq<(String, i16)>, at: int) -> bool {
    &&& 0 <= at < items.len()
    &&& forall|j: int| 0 <= j < items.len() ==> items[at].1 <= #[trigger] items[j].1
    &&& forall|j: int| 0 <= j < at ==> items[at].1 < #[trigger] items[j].1
}

/// Each operation keeps a sound map sound.
pub proof fn lemma_operations_keep_sound(m: Map<Seq<char>, i16>, id: Seq<char>, delta: i16)
    requires
        sound(m),
    ensures
        sound(no_entries()),
        sound(upserted(m, id)),
        sound(removed(m, id)),
        sound(adjusted(m, id, delta)),
{
}

/// An adjustment for an identity that is not in the map changes nothing.
pub proof fn lemma_adjust_absent(m: Map<Seq<char>, i16>, id: Seq<char>, delta: i16)
    requires
        !m.contains_key(id),
    ensures
        adjusted(m, id, delta) == m,
{
}

/// Once an identity was removed, an adjustment that was still under way for
/// it changes nothing: the map is the one the removal left.
pub proof fn lemma_adjust_after_remove(m: Map<Seq<char>, i16>, id: Seq<char>, delta: i16)
    ensures
        adjusted(removed(m, id), id, delta) == removed(m, id),
{
}

/// An adjustment for one identity leaves every other identity as it was, in
/// the map or out of it, with the counter it had.
pub proof fn lemma_adjust_leaves_others(
    m: Map<Seq<char>, i16>,
    id: Seq<char>,
    delta: i16,
    other: Seq<char>,
)
    requires
        other != id,
    ensures
        adjusted(m, id, delta).contains_key(other) == m.contains_key(other),
        adjusted(m, id, delta)[other] == m[other],
        adjusted(m, id, delta).dom() == m.dom(),
{
    assert(adjusted(m, id, delta).dom() =~= m.dom());
}

/// One request more and then one request less leave the map as it was,
/// unless the counter already stood at `i16::MAX`.
pub proof fn lemma_start_then_end(m: Map<Seq<char>, i16>, id: Seq<char>)
    requires
        sound(m),
        m.contains_key(id) ==> m[id] < i16::MAX,
    ensures
        adjusted(adjusted(m, id, 1i16), id, -1i16) == m,
{
    assert(adjusted(adjusted(m, id, 1i16), id, -1i16) =~= m);
}

/// Adding an identity twice is the same as adding it once, and removing an
/// identity that is not there changes nothing.
pub proof fn lemma_upsert_idempotent_remove_absent(m: Map<Seq<char>, i16>, id: Seq<char>)
    ensures
        upserted(upserted(m, id), id) == upserted(m, id),
        !m.contains_key(id) ==> removed(m, id) == m,
        upserted(m, id).contains_key(id),
        !removed(m, id).contains_key(id),
{
    if !m.contains_key(id) {
        assert(removed(m, id) =~= m);
    }
}

} // verus!
