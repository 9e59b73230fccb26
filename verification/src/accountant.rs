//! Load accounting: the deltas that requests emit when they start and end,
//! and their application to the registry, one after the other, in the order
//! in which they were emitted.

use crate::model::{adjusted, sound};
use crate::registry::Registry;
use vstd::prelude::*;

verus! {

/// A load delta: the counter of `ip` is to move by `count`.
#[derive(Debug, Clone, PartialEq, Eq)]
pub struct Message {
    pub ip: String,
    pub count: i16,
}

impl View for Message {
    type V = (Seq<char>, i16);

    open spec fn view(&self) -> (Seq<char>, i16) {
        (self.ip@, self.count)
    }
}

impl Message {
    /// The delta that moves the counter of `ip` by `count`.
    pub fn new(ip: String, count: i16) -> (message: Message)
        ensures
            message@ == (ip@, count),
    {
        Message { ip, count }
    }

    /// The delta a request emits when it is handed to `ip`: one more in
    /// flight.
    pub fn start(ip: String) -> (message: Message)
        ensures
            message@ == (ip@, 1i16),
    {
        Message { ip, count: 1 }
    }

    /// The delta a request emits when it is done with `ip`: one less in
    /// flight.
    pub fn end(ip: String) -> (message: Message)
        ensures
            message@ == (ip@, -1i16),
    {
        Message { ip, count: -1 }
    }
}

/// The deltas that a list of messages stands for.
pub open spec fn deltas_of(messages: Seq<Message>) -> Seq<(Seq<char>, i16)> {
    messages.map_values(|message: Message| message@)
}

/// The map after the deltas were applied to it from first to last.
pub open spec fn applied_all(m: Map<Seq<char>, i16>, deltas: Seq<(Seq<char>, i16)>) -> Map<
    Seq<char>,
    i16,
>
    decreases deltas.len(),
{
    if deltas.len() == 0 {
        m
    } else {
        adjusted(applied_all(m, deltas.drop_last()), deltas.last().0, deltas.last().1)
    }
}

/// The sum of the deltas that are addressed to `id`.
pub open spec fn net(deltas: Seq<(Seq<char>, i16)>, id: Seq<char>) -> int
    decreases deltas.len(),
{
    if deltas.len() == 0 {
        0
    } else if deltas.last().0 == id {
        net(deltas.drop_last(), id) + deltas.last().1
    } else {
        net(deltas.drop_last(), id)
    }
}

/// The deltas addressed to `id` are the starts and ends of requests, each
/// request's start before its end, in any interleaving: each such delta is a
/// start or an end, at no point have more requests ended than started, and
/// at the end as many have ended as started.
pub open spec fn paired(deltas: Seq<(Seq<char>, i16)>, id: Seq<char>) -> bool {
    &&& forall|i: int|
        0 <= i < deltas.len() && (#[trigger] deltas[i]).0 == id ==> deltas[i].1 == 1 || deltas[i].1
            == -1
    &&& forall|n: int| 0 <= n <= deltas.len() ==> net(#[trigger] deltas.take(n), id) >= 0
    &&& net(deltas, id) == 0
}

/// While the deltas are applied, the counter of `id` never has to be held
/// back at `i16::MAX`.
pub open spec fn fits(m: Map<Seq<char>, i16>, deltas: Seq<(Seq<char>, i16)>, id: Seq<char>) -> bool {
    forall|n: int| 0 <= n <= deltas.len() ==> m[id] + net(#[trigger] deltas.take(n), id) <= i16::MAX
}

/// What one delta adds to the sum for `id`.
pub open spec fn share(delta: (Seq<char>, i16), id: Seq<char>) -> int {
    if delta.0 == id {
        delta.1 as int
    } else {
        0
    }
}

/// While the deltas are applied, the counter of `id` never has to be held
/// back, at zero or at `i16::MAX`.
pub open spec fn unheld(m: Map<Seq<char>, i16>, deltas: Seq<(Seq<char>, i16)>, id: Seq<char>) -> bool {
    forall|n: int|
        0 <= n <= deltas.len() ==> 0 <= m[id] + net(#[trigger] deltas.take(n), id) <= i16::MAX
}

/// Applies one delta to the registry. A delta for an identity that has left
/// the registry is dropped without a trace.
pub fn apply(registry: &mut Registry, message: &Message)
    ensures
        final(registry)@ == adjusted(old(registry)@, message@.0, message@.1),
        final(registry).wf(),
{
    registry.adjust(message.ip.as_str(), message.count);
}

/// Applies the deltas to the registry from first to last.
pub fn apply_all(registry: &mut Registry, messages: &Vec<Message>)
    ensures
        final(registry)@ == applied_all(old(registry)@, deltas_of(messages@)),
        final(registry).wf(),
{
    let ghost deltas = deltas_of(messages@);
    let ghost before = registry@;
    let mut i: usize = 0;
    registry.well_formed();
    proof {
        assert(deltas.take(0).len() == 0);
    }
    while i < messages.len()
        invariant
            i <= messages@.len(),
            deltas == deltas_of(messages@),
            registry@ == applied_all(before, deltas.take(i as int)),
            registry.wf(),
        decreases messages@.len() - i,
    {
        apply(registry, &messages[i]);
        proof {
            let next = deltas.take(i + 1);
            assert(next.drop_last() =~= deltas.take(i as int));
            assert(next.last() == messages@[i as int]@);
        }
        i += 1;
    }
    proof {
        assert(deltas.take(i as int) =~= deltas);
    }
}

/// Applying deltas neither adds an identity to the map nor takes one out.
pub proof fn lemma_applied_all_keeps_identities(
    m: Map<Seq<char>, i16>,
    deltas: Seq<(Seq<char>, i16)>,
)
    ensures
        applied_all(m, deltas).dom() == m.dom(),
    decreases deltas.len(),
{
    if deltas.len() > 0 {
        lemma_applied_all_keeps_identities(m, deltas.drop_last());
        let before = applied_all(m, deltas.drop_last());
        assert(adjusted(before, deltas.last().0, deltas.last().1).dom() =~= before.dom());
    }
}

/// As long as the counter of `id` never has to be held back at either end,
/// it ends at its first value plus the sum of the deltas addressed to it,
/// whatever deltas for other identities stand between them.
pub proof fn lemma_counter_follows_net(
    m: Map<Seq<char>, i16>,
    deltas: Seq<(Seq<char>, i16)>,
    id: Seq<char>,
)
    requires
        m.contains_key(id),
        unheld(m, deltas, id),
    ensures
        applied_all(m, deltas).contains_key(id),
        applied_all(m, deltas)[id] == m[id] + net(deltas, id),
    decreases deltas.len(),
{
    if deltas.len() > 0 {
        let front = deltas.drop_last();
        assert(unheld(m, front, id)) by {
            assert forall|n: int| 0 <= n <= front.len() implies 0 <= m[id] + net(
                #[trigger] front.take(n),
                id,
            ) <= i16::MAX by {
                assert(front.take(n) =~= deltas.take(n));
            }
        }
        lemma_counter_follows_net(m, front, id);
        assert(deltas.take(deltas.len() as int) =~= deltas);
        assert(front.take(front.len() as int) =~= front);
    }
}

/// The starts and ends of any number of requests to `id`, in any
/// interleaving, leave the counter of `id` where it was, provided that it
/// never had to be held back at `i16::MAX` on the way.
pub proof fn lemma_pairs_cancel(
    m: Map<Seq<char>, i16>,
    deltas: Seq<(Seq<char>, i16)>,
    id: Seq<char>,
)
    requires
        sound(m),
        m.contains_key(id),
        paired(deltas, id),
        fits(m, deltas, id),
    ensures
        applied_all(m, deltas).contains_key(id),
        applied_all(m, deltas)[id] == m[id],
        applied_all(m, deltas).dom() == m.dom(),
{
    lemma_counter_follows_net(m, deltas, id);
    lemma_applied_all_keeps_identities(m, deltas);
}

/// Taking one delta out of a list takes its share out of the sum.
pub proof fn lemma_net_without(deltas: Seq<(Seq<char>, i16)>, at: int, id: Seq<char>)
    requires
        0 <= at < deltas.len(),
    ensures
        net(deltas, id) == net(deltas.remove(at), id) + share(deltas[at], id),
    decreases deltas.len(),
{
    if at == deltas.len() - 1 {
        assert(deltas.remove(at) =~= deltas.drop_last());
    } else {
        lemma_net_without(deltas.drop_last(), at, id);
        assert(deltas.remove(at).drop_last() =~= deltas.drop_last().remove(at));
        assert(deltas.remove(at).last() == deltas.last());
    }
}

/// The sum for `id` is the same for two lists that hold the same deltas the
/// same number of times, in whatever order.
pub proof fn lemma_net_ignores_order(
    first: Seq<(Seq<char>, i16)>,
    second: Seq<(Seq<char>, i16)>,
    id: Seq<char>,
)
    requires
        first.to_multiset() == second.to_multiset(),
    ensures
        net(first, id) == net(second, id),
    decreases first.len(),
{
    vstd::seq_lib::to_multiset_len(first);
    vstd::seq_lib::to_multiset_len(second);
    if first.len() == 0 {
    } else {
        let last = first.last();
        let front = first.drop_last();
        assert(first =~= front.push(last));
        vstd::seq_lib::to_multiset_build(front, last);
        vstd::seq_lib::to_multiset_contains(second, last);
        assert(second.to_multiset().count(last) > 0);
        let at = choose|at: int| 0 <= at < second.len() && second[at] == last;
        vstd::seq_lib::to_multiset_remove(second, at);
        assert(second.remove(at).to_multiset() =~= front.to_multiset());
        lemma_net_ignores_order(front, second.remove(at), id);
        lemma_net_without(second, at, id);
    }
}

/// Two lists that hold the same deltas the same number of times, in whatever
/// order, leave the same map behind, provided that in neither order a
/// counter has to be held back on the way. Where one is held back the order
/// can show: from zero, an end and then a start leave one, a start and then
/// an end leave zero.
pub proof fn lemma_order_does_not_matter(
    m: Map<Seq<char>, i16>,
    first: Seq<(Seq<char>, i16)>,
    second: Seq<(Seq<char>, i16)>,
)
    requires
        first.to_multiset() == second.to_multiset(),
        forall|id: Seq<char>| #[trigger]
            m.contains_key(id) ==> unheld(m, first, id) && unheld(m, second, id),
    ensures
        applied_all(m, first) == applied_all(m, second),
{
    lemma_applied_all_keeps_identities(m, first);
    lemma_applied_all_keeps_identities(m, second);
    assert forall|id: Seq<char>| #[trigger] m.contains_key(id) implies applied_all(m, first)[id]
        == applied_all(m, second)[id] by {
        lemma_counter_follows_net(m, first, id);
        lemma_counter_follows_net(m, second, id);
        lemma_net_ignores_order(first, second, id);
    }
    assert(applied_all(m, first) =~= applied_all(m, second));
}

/// Applying deltas keeps a sound map sound.
pub proof fn lemma_applied_all_keeps_sound(m: Map<Seq<char>, i16>, deltas: Seq<(Seq<char>, i16)>)
    requires
        sound(m),
    ensures
        sound(applied_all(m, deltas)),
    decreases deltas.len(),
{
    if deltas.len() > 0 {
        lemma_applied_all_keeps_sound(m, deltas.drop_last());
    }
}

} // verus!
