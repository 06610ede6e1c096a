use sensor_pipeline::scheduler::{Scheduler, SchedulerState, TickAction};

/// Runs the scheduler against a clock that the test moves by hand: each run
/// of the task takes `task_ms(round)`, and a sleep moves the clock by exactly
/// what was asked for. Returns the instants at which the task was started.
fn simulate(interval_ms: u64, until_ms: u64, task_ms: fn(usize) -> u64) -> Vec<u64> {
    let scheduler = Scheduler::new(interval_ms);
    let mut now: u64 = 0;
    let mut state = scheduler.start(now);
    let mut starts: Vec<u64> = Vec::new();
    while now < until_ms {
        let due = scheduler.advance(state).unwrap();
        starts.push(now);
        now += task_ms(starts.len() - 1);
        let (action, next) = scheduler.settle(due, now);
        if let TickAction::Sleep { for_ms } = action {
            now += for_ms;
        }
        state = next;
    }
    starts
}

fn quick(_round: usize) -> u64 {
    1
}

fn slow(_round: usize) -> u64 {
    20
}

fn one_stall(round: usize) -> u64 {
    if round == 3 {
        50
    } else {
        1
    }
}

#[test]
fn a_quick_task_ticks_once_per_interval() {
    let starts = simulate(5, 100, quick);
    assert_eq!(starts.len(), 20);
    for (round, start) in starts.iter().enumerate() {
        assert_eq!(*start, 5 * round as u64);
    }
}

#[test]
fn a_slow_task_ticks_once_per_run_and_never_catches_up() {
    let starts = simulate(5, 100, slow);
    assert_eq!(starts, vec![0, 20, 40, 60, 80]);
}

#[test]
fn a_single_stall_costs_its_ticks_and_no_burst_follows() {
    let starts = simulate(5, 100, one_stall);
    assert_eq!(&starts[..5], &[0, 5, 10, 15, 65]);
    for pair in starts[4..].windows(2) {
        assert_eq!(pair[1] - pair[0], 5);
    }
    // 100 ms hold 20 intervals; the stall of 50 ms cost ten of them.
    assert_eq!(starts.len(), 11);
}

#[test]
fn settle_sleeps_when_ahead() {
    let scheduler = Scheduler::new(5);
    assert_eq!(
        scheduler.settle(105, 101),
        (TickAction::Sleep { for_ms: 4 }, SchedulerState::Running { next_ms: 105 })
    );
}

#[test]
fn settle_resynchronises_when_behind() {
    let scheduler = Scheduler::new(5);
    assert_eq!(
        scheduler.settle(105, 400),
        (TickAction::Continue, SchedulerState::Running { next_ms: 400 })
    );
    assert_eq!(
        scheduler.settle(105, 105),
        (TickAction::Continue, SchedulerState::Running { next_ms: 105 })
    );
}

#[test]
fn advance_moves_the_due_instant_by_one_interval() {
    let scheduler = Scheduler::new(5);
    assert_eq!(scheduler.interval_ms(), 5);
    assert_eq!(scheduler.start(17), SchedulerState::Running { next_ms: 17 });
    assert_eq!(scheduler.advance(SchedulerState::Running { next_ms: 17 }), Some(22));
    assert_eq!(scheduler.advance(SchedulerState::Idle), None);
}

#[test]
fn advance_stops_at_the_end_of_time() {
    let scheduler = Scheduler::new(5);
    assert_eq!(scheduler.advance(SchedulerState::Running { next_ms: u64::MAX - 5 }), Some(u64::MAX));
    assert_eq!(scheduler.advance(SchedulerState::Running { next_ms: u64::MAX - 4 }), None);
    let still = Scheduler::new(0);
    assert_eq!(still.advance(SchedulerState::Running { next_ms: u64::MAX }), Some(u64::MAX));
}
