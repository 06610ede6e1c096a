//! The timing discipline of the fixed-interval scheduler.
//!
//! The scheduler keeps one number, the instant at which the next tick is due.
//! Before each run of the task that instant moves one interval ahead. After
//! the run the scheduler either sleeps until it, or, if it has already
//! passed, moves it to the present and goes on at once: a slow run costs the
//! ticks it overran and they are never made up.
//!
//! Instants are milliseconds on any clock that does not run backwards.

use vstd::prelude::*;

verus! {

/// What the scheduler does after a run of the task.
#[derive(Debug, Clone, Copy, PartialEq, Eq, Structural)]
pub enum TickAction {
    /// The run ended ahead of schedule: sleep this long, in milliseconds.
    Sleep { for_ms: u64 },
    /// The run ended on or behind schedule: a deadline was missed, go on at once.
    Continue,
}

/// The state of a scheduler.
#[derive(Debug, Clone, Copy, PartialEq, Eq, Structural)]
pub enum SchedulerState {
    /// Not started.
    Idle,
    /// Started; the next tick is due at `next_ms`.
    Running { next_ms: u64 },
}

/// A fixed-interval scheduler.
#[derive(Debug, Clone, Copy, PartialEq, Eq, Structural)]
pub struct Scheduler {
    interval_ms: u64,
}

/// The due instant after a run that ended at `now_ms`: unchanged when it
/// still lies ahead, the present when it does not.
pub open spec fn settled_instant(next_ms: u64, now_ms: u64) -> u64 {
    if next_ms > now_ms {
        next_ms
    } else {
        now_ms
    }
}

/// What follows a run that ended at `now_ms` with the tick due at `next_ms`.
pub open spec fn settled_action(next_ms: u64, now_ms: u64) -> TickAction {
    if next_ms > now_ms {
        TickAction::Sleep { for_ms: (next_ms - now_ms) as u64 }
    } else {
        TickAction::Continue
    }
}

/// The due instant after a series of rounds that began at `start_ms`: each
/// round moves the instant one interval ahead, runs the task until
/// `ends[k]`, and settles.
pub open spec fn due_after(interval_ms: int, start_ms: int, ends: Seq<int>) -> int
    decreases ends.len(),
{
    if ends.len() == 0 {
        start_ms
    } else {
        let due = due_after(interval_ms, start_ms, ends.drop_last()) + interval_ms;
        if due > ends.last() {
            due
        } else {
            ends.last()
        }
    }
}

/// One round, as `advance` and `settle` make it, is one step of `due_after`.
pub proof fn lemma_round_is_step(interval_ms: u64, next_ms: u64, now_ms: u64)
    requires
        next_ms + interval_ms <= u64::MAX,
    ensures
        settled_instant((next_ms + interval_ms) as u64, now_ms) == due_after(
            interval_ms as int,
            next_ms as int,
            seq![now_ms as int],
        ),
{
    let ends = seq![now_ms as int];
    assert(ends.drop_last() =~= Seq::<int>::empty());
    assert(ends.last() == now_ms);
    reveal_with_fuel(due_after, 2);
}

/// However long the runs of the task take, the scheduler never falls behind
/// and never makes up for lost ticks: after every round the due instant is
/// not before the end of that round's run, and it lies at least one interval
/// per round after the start. So `n` rounds take at least `n` intervals, and
/// the ticks made within a stretch of time are bounded by its length over the
/// interval, not by the delays within it.
pub proof fn lemma_no_catch_up(interval_ms: int, start_ms: int, ends: Seq<int>)
    requires
        interval_ms >= 0,
    ensures
        due_after(interval_ms, start_ms, ends) >= start_ms + ends.len() * interval_ms,
        ends.len() > 0 ==> due_after(interval_ms, start_ms, ends) >= ends.last(),
        ends.len() > 0 && ends.last() >= due_after(interval_ms, start_ms, ends.drop_last())
            + interval_ms ==> due_after(interval_ms, start_ms, ends) == ends.last(),
    decreases ends.len(),
{
    if ends.len() > 0 {
        lemma_no_catch_up(interval_ms, start_ms, ends.drop_last());
        assert(ends.len() * interval_ms == ends.drop_last().len() * interval_ms + interval_ms)
            by (nonlinear_arith)
            requires
                ends.len() == ends.drop_last().len() + 1,
        ;
    }
}

impl Scheduler {
    /// Time between two ticks, in milliseconds.
    pub closed spec fn interval(&self) -> u64 {
        self.interval_ms
    }

    /// A scheduler that ticks every `interval_ms` milliseconds.
    pub fn new(interval_ms: u64) -> (scheduler: Self)
        ensures
            scheduler.interval() == interval_ms,
    {
        Scheduler { interval_ms }
    }

    /// Time between two ticks, in milliseconds.
    pub fn interval_ms(&self) -> (interval_ms: u64)
        ensures
            interval_ms == self.interval(),
    {
        self.interval_ms
    }

    /// Starts the scheduler at `now_ms`: the first tick is counted from there.
    pub fn start(&self, now_ms: u64) -> (state: SchedulerState)
        ensures
            state == (SchedulerState::Running { next_ms: now_ms }),
    {
        SchedulerState::Running { next_ms: now_ms }
    }

    /// Moves the due instant one interval ahead, before a run of the task.
    /// Nothing comes back for a scheduler that was not started, or when the
    /// instant would no longer fit in 64 bits.
    pub fn advance(&self, state: SchedulerState) -> (due: Option<u64>)
        ensures
            due == match state {
                SchedulerState::Running { next_ms } if next_ms + self.interval() <= u64::MAX => Some(
                    (next_ms + self.interval()) as u64,
                ),
                _ => None::<u64>,
            },
    {
        match state {
            SchedulerState::Running { next_ms } => {
                if next_ms <= u64::MAX - self.interval_ms {
                    Some(next_ms + self.interval_ms)
                } else {
                    None
                }
            },
            SchedulerState::Idle => None,
        }
    }

    /// Decides what follows a run of the task that ended at `now_ms`, when
    /// the tick was due at `due_ms`: the action to take and the state to go on from.
    pub fn settle(&self, due_ms: u64, now_ms: u64) -> (step: (TickAction, SchedulerState))
        ensures
            step.0 == settled_action(due_ms, now_ms),
            step.1 == (SchedulerState::Running { next_ms: settled_instant(due_ms, now_ms) }),
    {
        if due_ms > now_ms {
            (TickAction::Sleep { for_ms: due_ms - now_ms }, SchedulerState::Running { next_ms: due_ms })
        } else {
            (TickAction::Continue, SchedulerState::Running { next_ms: now_ms })
        }
    }
}

} // verus!
