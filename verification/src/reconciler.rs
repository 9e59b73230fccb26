//! The reconciler: the decisions of the task that follows the membership
//! feed. The task itself, which subscribes, reads and sleeps, belongs to the
//! caller; after each of these it reports what happened and is told what to
//! do next.

use crate::error::Error;
use crate::membership::{change_of, changed, reconcile, InstanceRecord, MembershipEvent};
use crate::registry::Registry;
use vstd::prelude::*;

verus! {

/// The shortest wait before a new subscription, in milliseconds.
pub const BACKOFF_BASE_MILLIS: u64 = 100;

/// The longest wait before a new subscription, in milliseconds.
pub const BACKOFF_CAP_MILLIS: u64 = 30_000;

/// Where the reconciler stands with the feed.
#[derive(Debug, Clone, Copy, PartialEq, Eq, Structural)]
pub enum Phase {
    /// No subscription; a wait may be under way.
    Disconnected,
    /// A subscription was asked for and is not yet confirmed.
    Subscribing,
    /// Records are being read.
    Streaming,
}

/// What the task reports.
#[derive(Debug, Clone, PartialEq, Eq)]
pub enum FeedInput {
    /// The task has started, or the wait it was told to make is over.
    Ready,
    /// The subscription stands.
    Subscribed,
    /// The feed delivered a record.
    Record(InstanceRecord),
    /// The subscription could not be made, or the feed ended or broke.
    Failed,
}

/// What the task is to do next.
#[derive(Debug, Clone, Copy, PartialEq, Eq, Structural)]
pub enum Action {
    /// Subscribe to the feed.
    Subscribe,
    /// Read the next record.
    Receive,
    /// Wait this many milliseconds, then report `Ready`.
    Wait(u64),
    /// The report did not fit the phase and was passed over: go on as
    /// before.
    Ignore,
}

/// The state of the reconciler.
#[derive(Debug, Clone, Copy, PartialEq, Eq, Structural)]
pub struct Reconciler {
    /// Where the reconciler stands with the feed.
    pub phase: Phase,
    /// How many times in a row the feed has failed since a record last
    /// arrived.
    pub failures: u32,
}

/// The wait ceiling after `failures` failures in a row: the base, doubled
/// with each failure until it reaches the cap.
pub open spec fn ceiling(failures: nat) -> int
    decreases failures,
{
    if failures == 0 {
        BACKOFF_BASE_MILLIS as int
    } else if 2 * ceiling((failures - 1) as nat) >= BACKOFF_CAP_MILLIS {
        BACKOFF_CAP_MILLIS as int
    } else {
        2 * ceiling((failures - 1) as nat)
    }
}

/// The wait after `failures` failures in a row: half the ceiling, plus a
/// share of the other half that `jitter` picks.
pub open spec fn backoff(failures: nat, jitter: u64) -> int {
    ceiling(failures) / 2 + jitter as int % (ceiling(failures) / 2 + 1)
}

/// The failure count after one more failure.
pub open spec fn one_more(failures: u32) -> u32 {
    if failures < u32::MAX {
        (failures + 1) as u32
    } else {
        failures
    }
}

/// The state after a report.
pub open spec fn next_state(state: Reconciler, input: FeedInput) -> Reconciler {
    match (state.phase, input) {
        (Phase::Disconnected, FeedInput::Ready) => Reconciler {
            phase: Phase::Subscribing,
            failures: state.failures,
        },
        (Phase::Subscribing, FeedInput::Subscribed) => Reconciler {
            phase: Phase::Streaming,
            failures: state.failures,
        },
        (Phase::Streaming, FeedInput::Record(_)) => Reconciler {
            phase: Phase::Streaming,
            failures: 0,
        },
        (Phase::Subscribing, FeedInput::Failed) | (Phase::Streaming, FeedInput::Failed) => Reconciler {
            phase: Phase::Disconnected,
            failures: one_more(state.failures),
        },
        _ => state,
    }
}

/// What the task is told after a report.
pub open spec fn next_action(state: Reconciler, input: FeedInput, jitter: u64) -> Action {
    match (state.phase, input) {
        (Phase::Disconnected, FeedInput::Ready) => Action::Subscribe,
        (Phase::Subscribing, FeedInput::Subscribed) => Action::Receive,
        (Phase::Streaming, FeedInput::Record(_)) => Action::Receive,
        (Phase::Subscribing, FeedInput::Failed) | (Phase::Streaming, FeedInput::Failed) => Action::Wait(
            backoff(state.failures as nat, jitter) as u64,
        ),
        _ => Action::Ignore,
    }
}

/// The registry's map after a report: a well-formed record that arrives
/// while streaming is applied, and nothing else touches the map.
pub open spec fn next_map(state: Reconciler, input: FeedInput, m: Map<Seq<char>, i16>) -> Map<
    Seq<char>,
    i16,
> {
    match (state.phase, input) {
        (Phase::Streaming, FeedInput::Record(record)) => match change_of(record) {
            Some(change) => changed(m, change),
            None => m,
        },
        _ => m,
    }
}

/// What a report amounted to: the change that was applied, the error that
/// was contained, or nothing to speak of.
pub open spec fn outcome_fits(
    state: Reconciler,
    input: FeedInput,
    outcome: Option<Result<MembershipEvent, Error>>,
) -> bool {
    match (state.phase, input) {
        (Phase::Streaming, FeedInput::Record(record)) => match change_of(record) {
            Some(change) => outcome matches Some(Ok(event)) && event@ == change,
            None => outcome == Some(
                Err::<MembershipEvent, Error>(Error::MalformedMembershipEvent),
            ),
        },
        (Phase::Subscribing, FeedInput::Failed) | (Phase::Streaming, FeedInput::Failed) => outcome
            == Some(Err::<MembershipEvent, Error>(Error::MembershipStreamError)),
        _ => outcome.is_none(),
    }
}

/// Once the ceiling has reached the cap it stays there.
pub proof fn lemma_ceiling_stays_at_cap(reached: nat, later: nat)
    requires
        reached <= later,
        ceiling(reached) == BACKOFF_CAP_MILLIS,
    ensures
        ceiling(later) == BACKOFF_CAP_MILLIS,
    decreases later - reached,
{
    if reached < later {
        lemma_ceiling_stays_at_cap(reached, (later - 1) as nat);
    }
}

/// The ceiling never falls as failures add up, and lies between the base
/// and the cap.
pub proof fn lemma_ceiling_grows(fewer: nat, more: nat)
    requires
        fewer <= more,
    ensures
        BACKOFF_BASE_MILLIS <= ceiling(fewer) <= ceiling(more) <= BACKOFF_CAP_MILLIS,
    decreases more,
{
    if more > 0 {
        if fewer < more {
            lemma_ceiling_grows(fewer, (more - 1) as nat);
        } else {
            lemma_ceiling_grows((fewer - 1) as nat, (more - 1) as nat);
        }
    }
}

/// Every wait lies between half the base and the cap, whatever the jitter.
pub proof fn lemma_backoff_bounds(failures: nat, jitter: u64)
    ensures
        BACKOFF_BASE_MILLIS / 2 <= backoff(failures, jitter) <= BACKOFF_CAP_MILLIS,
        ceiling(failures) / 2 <= backoff(failures, jitter) <= ceiling(failures),
{
    lemma_ceiling_grows(failures, failures);
}

/// The wait ceiling after `failures` failures in a row, in milliseconds.
pub fn backoff_ceiling(failures: u32) -> (millis: u64)
    ensures
        millis == ceiling(failures as nat),
{
    let mut millis: u64 = BACKOFF_BASE_MILLIS;
    let mut done: u32 = 0;
    while done < failures && millis < BACKOFF_CAP_MILLIS
        invariant
            done <= failures,
            millis == ceiling(done as nat),
            millis <= BACKOFF_CAP_MILLIS,
        decreases failures - done,
    {
        if 2 * millis >= BACKOFF_CAP_MILLIS {
            millis = BACKOFF_CAP_MILLIS;
        } else {
            millis = 2 * millis;
        }
        done += 1;
    }
    proof {
        if done < failures {
            lemma_ceiling_stays_at_cap(done as nat, failures as nat);
        }
    }
    millis
}

/// The wait after `failures` failures in a row, in milliseconds. `jitter` is
/// any number the caller draws; it spreads the waits of many processes over
/// the upper half of the ceiling.
pub fn backoff_millis(failures: u32, jitter: u64) -> (millis: u64)
    ensures
        millis == backoff(failures as nat, jitter),
        BACKOFF_BASE_MILLIS / 2 <= millis <= BACKOFF_CAP_MILLIS,
{
    proof {
        lemma_backoff_bounds(failures as nat, jitter);
    }
    let half: u64 = backoff_ceiling(failures) / 2;
    half + jitter % (half + 1)
}

impl Reconciler {
    /// A reconciler that has no subscription and has seen no failure.
    pub fn new() -> (state: Reconciler)
        ensures
            state == (Reconciler { phase: Phase::Disconnected, failures: 0 }),
    {
        Reconciler { phase: Phase::Disconnected, failures: 0 }
    }

    /// Takes a report, brings the registry up to date if the report is a
    /// record, and says what to do next. A malformed record and a failure of
    /// the feed are contained here: the first is passed over, the second is
    /// answered with a wait that grows with each failure in a row.
    pub fn step(&mut self, registry: &mut Registry, input: &FeedInput, jitter: u64) -> (told: (
        Action,
        Option<Result<MembershipEvent, Error>>,
    ))
        ensures
            *final(self) == next_state(*old(self), *input),
            told.0 == next_action(*old(self), *input, jitter),
            final(registry)@ == next_map(*old(self), *input, old(registry)@),
            outcome_fits(*old(self), *input, told.1),
            final(registry).wf(),
    {
        registry.well_formed();
        match (self.phase, input) {
            (Phase::Disconnected, FeedInput::Ready) => {
                self.phase = Phase::Subscribing;
                (Action::Subscribe, None)
            },
            (Phase::Subscribing, FeedInput::Subscribed) => {
                self.phase = Phase::Streaming;
                (Action::Receive, None)
            },
            (Phase::Streaming, FeedInput::Record(record)) => {
                self.failures = 0;
                let read = reconcile(registry, record);
                (Action::Receive, Some(read))
            },
            (Phase::Subscribing, FeedInput::Failed) | (Phase::Streaming, FeedInput::Failed) => {
                let millis = backoff_millis(self.failures, jitter);
                self.phase = Phase::Disconnected;
                if self.failures < u32::MAX {
                    self.failures = self.failures + 1;
                }
                (Action::Wait(millis), Some(Err(Error::MembershipStreamError)))
            },
            _ => (Action::Ignore, None),
        }
    }
}

} // verus!
