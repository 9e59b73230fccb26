//! Membership: what the feed reports, how a report is read, and what it does
//! to the registry.

use crate::error::Error;
use crate::model::{no_entries, removed, upserted};
use crate::registry::Registry;
use vstd::prelude::*;

verus! {

/// The status block of a record of the feed.
#[derive(Debug, Clone, PartialEq, Eq)]
pub struct InstanceStatus {
    /// The network address of the instance, once it has one.
    pub address: Option<String>,
}

/// One record of the membership feed, as far as the core reads it.
#[derive(Debug, Clone, PartialEq, Eq)]
pub struct InstanceRecord {
    /// The status block, if the record has one.
    pub status: Option<InstanceStatus>,
    /// Whether the record carries a removal marker.
    pub deletion_marked: bool,
}

/// A change of membership.
#[derive(Debug, Clone, PartialEq, Eq)]
pub enum MembershipEvent {
    /// The instance with this identity has joined.
    Added(String),
    /// The instance with this identity has left.
    Removed(String),
}

/// A change of membership, over the identity as a sequence of characters.
pub enum Change {
    Added(Seq<char>),
    Removed(Seq<char>),
}

impl View for MembershipEvent {
    type V = Change;

    open spec fn view(&self) -> Change {
        match self {
            MembershipEvent::Added(identity) => Change::Added(identity@),
            MembershipEvent::Removed(identity) => Change::Removed(identity@),
        }
    }
}

/// The address a record carries, if it carries one.
pub open spec fn address_of(record: InstanceRecord) -> Option<Seq<char>> {
    match record.status {
        Some(status) => match status.address {
            Some(address) => Some(address@),
            None => None,
        },
        None => None,
    }
}

/// The change a record stands for, or `None` for a record without an
/// address.
pub open spec fn change_of(record: InstanceRecord) -> Option<Change> {
    match address_of(record) {
        Some(address) => if record.deletion_marked {
            Some(Change::Removed(address))
        } else {
            Some(Change::Added(address))
        },
        None => None,
    }
}

/// The map after one change.
pub open spec fn changed(m: Map<Seq<char>, i16>, change: Change) -> Map<Seq<char>, i16> {
    match change {
        Change::Added(id) => upserted(m, id),
        Change::Removed(id) => removed(m, id),
    }
}

/// The map after the changes were applied to it from first to last.
pub open spec fn reconciled(m: Map<Seq<char>, i16>, changes: Seq<Change>) -> Map<Seq<char>, i16>
    decreases changes.len(),
{
    if changes.len() == 0 {
        m
    } else {
        changed(reconciled(m, changes.drop_last()), changes.last())
    }
}

/// How often `id` stands added after the changes, where adding an identity
/// that is already there does not count again and removing one that is not
/// there does not count at all: one if the last change that names `id` added
/// it, zero if that change removed it or none names it.
pub open spec fn added_count(changes: Seq<Change>, id: Seq<char>) -> nat
    decreases changes.len(),
{
    if changes.len() == 0 {
        0
    } else if changes.last() == Change::Added(id) {
        1
    } else if changes.last() == Change::Removed(id) {
        0
    } else {
        added_count(changes.drop_last(), id)
    }
}

/// Reads a record of the feed. A record without a status block or without an
/// address is malformed; a removal marker makes the change a removal.
pub fn classify(record: &InstanceRecord) -> (read: Result<MembershipEvent, Error>)
    ensures
        read is Ok <==> change_of(*record).is_some(),
        read matches Ok(event) ==> Some(event@) == change_of(*record),
        read matches Err(e) ==> e == Error::MalformedMembershipEvent,
{
    match &record.status {
        Some(status) => match &status.address {
            Some(address) => if record.deletion_marked {
                Ok(MembershipEvent::Removed(address.clone()))
            } else {
                Ok(MembershipEvent::Added(address.clone()))
            },
            None => Err(Error::MalformedMembershipEvent),
        },
        None => Err(Error::MalformedMembershipEvent),
    }
}

/// Applies a change to the registry: an added identity is upserted, a
/// removed one is taken out.
pub fn apply_event(registry: &mut Registry, event: &MembershipEvent)
    ensures
        final(registry)@ == changed(old(registry)@, event@),
        final(registry).wf(),
{
    match event {
        MembershipEvent::Added(identity) => {
            let _ = registry.upsert(identity.as_str());
        },
        MembershipEvent::Removed(identity) => {
            let _ = registry.remove(identity.as_str());
        },
    }
}

/// Reads a record and applies it. A malformed record is reported and leaves
/// the registry as it was.
pub fn reconcile(registry: &mut Registry, record: &InstanceRecord) -> (read: Result<
    MembershipEvent,
    Error,
>)
    ensures
        read is Ok <==> change_of(*record).is_some(),
        read matches Ok(event) ==> Some(event@) == change_of(*record) && final(registry)@
            == changed(old(registry)@, event@),
        read matches Err(e) ==> e == Error::MalformedMembershipEvent && final(registry)@ == old(
            registry,
        )@,
        final(registry).wf(),
{
    registry.well_formed();
    let read = classify(record);
    match &read {
        Ok(event) => {
            apply_event(registry, event);
        },
        Err(_) => {},
    }
    read
}

/// The changes that a list of events stands for.
pub open spec fn changes_of(events: Seq<MembershipEvent>) -> Seq<Change> {
    events.map_values(|event: MembershipEvent| event@)
}

/// Applies the changes to the registry from first to last.
pub fn apply_events(registry: &mut Registry, events: &Vec<MembershipEvent>)
    ensures
        final(registry)@ == reconciled(old(registry)@, changes_of(events@)),
        final(registry).wf(),
{
    let ghost changes = changes_of(events@);
    let ghost before = registry@;
    registry.well_formed();
    proof {
        assert(changes.take(0).len() == 0);
    }
    let mut i: usize = 0;
    while i < events.len()
        invariant
            i <= events@.len(),
            changes == changes_of(events@),
            registry@ == reconciled(before, changes.take(i as int)),
            registry.wf(),
        decreases events@.len() - i,
    {
        apply_event(registry, &events[i]);
        proof {
            let next = changes.take(i + 1);
            assert(next.drop_last() =~= changes.take(i as int));
            assert(next.last() == events@[i as int]@);
        }
        i += 1;
    }
    proof {
        assert(changes.take(i as int) =~= changes);
    }
}

/// After any changes, an identity is in the map if and only if it stands
/// added, or no change names it and it was in the map before.
pub proof fn lemma_reconciled_identities(
    m: Map<Seq<char>, i16>,
    changes: Seq<Change>,
    id: Seq<char>,
)
    ensures
        reconciled(m, changes).contains_key(id) <==> added_count(changes, id) > 0 || (
        m.contains_key(id) && forall|i: int|
            0 <= i < changes.len() ==> #[trigger] changes[i] != Change::Added(id) && changes[i]
                != Change::Removed(id)),
    decreases changes.len(),
{
    if changes.len() > 0 {
        let front = changes.drop_last();
        lemma_reconciled_identities(m, front, id);
        assert(forall|i: int| 0 <= i < front.len() ==> front[i] == changes[i]);
        if changes.last() != Change::Added(id) && changes.last() != Change::Removed(id) {
            assert(changes[changes.len() - 1] == changes.last());
        }
    }
}

/// Starting from an empty registry, the identities in it after any sequence
/// of changes are exactly those that stand added.
pub proof fn lemma_identities_are_the_added(changes: Seq<Change>)
    ensures
        reconciled(no_entries(), changes).dom() == Set::new(
            |id: Seq<char>| added_count(changes, id) > 0,
        ),
{
    assert forall|id: Seq<char>|
        reconciled(no_entries(), changes).dom().contains(id) <==> added_count(changes, id)
            > 0 by {
        lemma_reconciled_identities(no_entries(), changes, id);
    }
    assert(reconciled(no_entries(), changes).dom() =~= Set::new(
        |id: Seq<char>| added_count(changes, id) > 0,
    ));
}

} // verus!
