//! Collects timed samples per operation and aggregates each reporting window
//! into per-operation statistics.

use crate::channel::{poll, waiting, Polled};
use crate::clock::{duration_millis, instant_now, instant_span};
use crate::config::MetricsConfig;
use crate::data_types::PerformanceMetrics;
use crate::numeric::{
    as_ints, isqrt, largest, lemma_as_ints_step, seq_max, seq_min, seq_sum, seq_sum_sq, smallest,
    sqrt_floor, total, total_of_squares,
};
use crossbeam_channel::Receiver;
use std::time::Instant;
use vstd::prelude::*;
use vstd::string::StringExecFns;

verus! {

/// Longest duration a sample may carry: one hour, in thousandths of a millisecond.
pub const DURATION_LIMIT: u64 = 3_600_000_000;

/// Most samples one operation may gather within one reporting window.
pub const SAMPLE_LIMIT: usize = 1_000_000_000;

/// The samples gathered for one operation since the last report.
#[derive(Debug)]
pub struct OperationSamples {
    pub operation: String,
    pub samples: Vec<PerformanceMetrics>,
}

/// What one reporting window says about one operation. Durations and jitter
/// are in thousandths of a millisecond, the success rate in thousandths of a
/// percent.
#[derive(Debug, Clone)]
pub struct OperationStats {
    pub operation: String,
    pub total_operations: usize,
    pub success_rate: u64,
    pub avg_duration: u64,
    pub min_duration: u64,
    pub max_duration: u64,
    pub jitter: u64,
    pub missed_deadlines: usize,
}

/// Why a sample was not recorded.
#[derive(Debug, Clone, Copy, PartialEq, Eq, Structural)]
pub enum MetricsError {
    /// The sample's duration exceeds `DURATION_LIMIT`.
    DurationOutOfRange,
    /// The operation already holds `SAMPLE_LIMIT` samples in this window.
    WindowFull,
}

/// What one draining of the sample queue came to.
#[derive(Debug, Clone, Copy, PartialEq, Eq, Structural)]
pub struct Drained {
    /// Samples recorded.
    pub recorded: usize,
    /// Samples taken from the queue and refused by the collector.
    pub refused: usize,
    /// True when the queue was found empty with no sender left.
    pub disconnected: bool,
}

/// Gathers samples and reports on them at a fixed cadence.
pub struct MetricsCollector {
    metrics: Vec<OperationSamples>,
    last_report_time: Instant,
    report_interval_ms: u64,
    log_to_file: bool,
    log_file: String,
}

/// The durations of the samples that have one, in order.
pub open spec fn timed_durations(samples: Seq<PerformanceMetrics>) -> Seq<int>
    decreases samples.len(),
{
    if samples.len() == 0 {
        Seq::empty()
    } else {
        let front = timed_durations(samples.drop_last());
        match samples.last().duration_ms {
            Some(d) => front.push(d as int),
            None => front,
        }
    }
}

/// How many of the samples succeeded.
pub open spec fn success_count(samples: Seq<PerformanceMetrics>) -> nat
    decreases samples.len(),
{
    if samples.len() == 0 {
        0
    } else {
        success_count(samples.drop_last()) + if samples.last().success {
            1nat
        } else {
            0nat
        }
    }
}

/// How many of the durations exceed `budget`.
pub open spec fn over_budget_count(durations: Seq<int>, budget: int) -> nat
    decreases durations.len(),
{
    if durations.len() == 0 {
        0
    } else {
        over_budget_count(durations.drop_last(), budget) + if durations.last() > budget {
            1nat
        } else {
            0nat
        }
    }
}

/// The latency budget of an operation, in thousandths of a millisecond:
/// 2 ms for processing, 1 ms for transmission, none for anything else.
pub open spec fn deadline_budget_of(operation: Seq<char>) -> Option<u64> {
    if operation == "data_processing"@ {
        Some(2000u64)
    } else if operation == "data_transmission"@ {
        Some(1000u64)
    } else {
        None
    }
}

/// How many of the durations missed the operation's budget.
pub open spec fn missed_deadlines_of(operation: Seq<char>, durations: Seq<int>) -> nat {
    match deadline_budget_of(operation) {
        Some(budget) => over_budget_count(durations, budget as int),
        None => 0,
    }
}

/// Population variance of the durations, rounded down.
pub open spec fn variance_floor(durations: Seq<int>) -> int {
    let n = durations.len() as int;
    let spread = n * seq_sum_sq(durations) - seq_sum(durations) * seq_sum(durations);
    (if spread < 0 {
        0
    } else {
        spread
    }) / (n * n)
}

/// The statistics of one operation's samples.
pub open spec fn stats_of(bucket: OperationSamples) -> OperationStats {
    let samples = bucket.samples@;
    let durations = timed_durations(samples);
    let n = durations.len() as int;
    OperationStats {
        operation: bucket.operation,
        total_operations: samples.len() as usize,
        success_rate: ((success_count(samples) as int * 100_000) / (samples.len() as int)) as u64,
        avg_duration: if n > 0 {
            (seq_sum(durations) / n) as u64
        } else {
            0
        },
        min_duration: if n > 0 {
            seq_min(durations) as u64
        } else {
            0
        },
        max_duration: if n > 0 {
            seq_max(durations) as u64
        } else {
            0
        },
        jitter: if n > 1 {
            sqrt_floor(variance_floor(durations)) as u64
        } else {
            0
        },
        missed_deadlines: missed_deadlines_of(bucket.operation@, durations) as usize,
    }
}

/// The report over a sequence of operations: the statistics of each operation
/// that has samples, in the order of the operations.
pub open spec fn report_of(buckets: Seq<OperationSamples>) -> Seq<OperationStats>
    decreases buckets.len(),
{
    if buckets.len() == 0 {
        Seq::empty()
    } else {
        let front = report_of(buckets.drop_last());
        if buckets.last().samples@.len() == 0 {
            front
        } else {
            front.push(stats_of(buckets.last()))
        }
    }
}

/// How many samples the operations hold, all together.
pub open spec fn sample_count(buckets: Seq<OperationSamples>) -> nat
    decreases buckets.len(),
{
    if buckets.len() == 0 {
        0
    } else {
        sample_count(buckets.drop_last()) + buckets.last().samples@.len()
    }
}

/// Where one operation gains one sample and the others keep theirs, the
/// count grows by one.
proof fn lemma_count_grows(before: Seq<OperationSamples>, after: Seq<OperationSamples>, at: int)
    requires
        0 <= at < before.len(),
        after.len() == before.len(),
        forall|k: int|
            0 <= k < before.len() && k != at ==> (#[trigger] after[k]).samples@.len()
                == before[k].samples@.len(),
        after[at].samples@.len() == before[at].samples@.len() + 1,
    ensures
        sample_count(after) == sample_count(before) + 1,
    decreases before.len(),
{
    let last = before.len() - 1;
    if at == last {
        lemma_count_same(before.drop_last(), after.drop_last());
    } else {
        assert(after.drop_last()[at] == after[at]);
        assert(before.drop_last()[at] == before[at]);
        assert forall|k: int| 0 <= k < before.drop_last().len() && k != at implies (
        #[trigger] after.drop_last()[k]).samples@.len() == before.drop_last()[k].samples@.len() by {
            assert(after.drop_last()[k] == after[k]);
            assert(before.drop_last()[k] == before[k]);
        }
        lemma_count_grows(before.drop_last(), after.drop_last(), at);
        assert(after.last() == after[last]);
        assert(before.last() == before[last]);
    }
}

/// Operations that hold as many samples each hold as many together.
proof fn lemma_count_same(before: Seq<OperationSamples>, after: Seq<OperationSamples>)
    requires
        after.len() == before.len(),
        forall|k: int|
            0 <= k < before.len() ==> (#[trigger] after[k]).samples@.len()
                == before[k].samples@.len(),
    ensures
        sample_count(after) == sample_count(before),
    decreases before.len(),
{
    if before.len() > 0 {
        let last = before.len() - 1;
        assert forall|k: int| 0 <= k < before.drop_last().len() implies (
        #[trigger] after.drop_last()[k]).samples@.len() == before.drop_last()[k].samples@.len() by {
            assert(after.drop_last()[k] == after[k]);
            assert(before.drop_last()[k] == before[k]);
        }
        lemma_count_same(before.drop_last(), after.drop_last());
        assert(after.last() == after[last]);
        assert(before.last() == before[last]);
    }
}

/// True when the samples of one operation are within the limits that the
/// aggregation can carry.
pub open spec fn samples_within_limits(samples: Seq<PerformanceMetrics>) -> bool {
    &&& samples.len() <= SAMPLE_LIMIT
    &&& forall|j: int|
        0 <= j < samples.len() ==> (#[trigger] samples[j].duration_ms matches Some(d) ==> d
            <= DURATION_LIMIT)
}

/// Position of the operation among the buckets, or the number of buckets when
/// it has none.
pub open spec fn bucket_index(buckets: Seq<OperationSamples>, operation: Seq<char>) -> int
    decreases buckets.len(),
{
    if buckets.len() == 0 {
        0
    } else if bucket_index(buckets.drop_last(), operation) < buckets.len() - 1 {
        bucket_index(buckets.drop_last(), operation)
    } else if buckets.last().operation@ == operation {
        buckets.len() - 1
    } else {
        buckets.len() as int
    }
}

/// True when `after` holds everything `before` held, in place: the same
/// operations in the same positions, each with its samples of then followed
/// by those recorded since.
pub open spec fn grown(before: Seq<OperationSamples>, after: Seq<OperationSamples>) -> bool {
    &&& before.len() <= after.len()
    &&& forall|k: int|
        0 <= k < before.len() ==> {
            &&& (#[trigger] after[k]).operation@ == before[k].operation@
            &&& before[k].samples@.is_prefix_of(after[k].samples@)
        }
}

/// True when `after` is `before` with the window emptied: the same
/// operations in the same places, none with a sample left.
pub open spec fn emptied(before: Seq<OperationSamples>, after: Seq<OperationSamples>) -> bool {
    &&& after.len() == before.len()
    &&& forall|k: int|
        0 <= k < after.len() ==> {
            &&& (#[trigger] after[k]).operation == before[k].operation
            &&& after[k].samples@.len() == 0
        }
}

/// What recording one sample makes of the operations, and when it is
/// refused. An accepted sample joins the samples of its operation, which
/// gets a place after all others if it had none; nothing else changes. A
/// sample whose duration exceeds `DURATION_LIMIT` is refused, and so is one
/// for an operation that already holds `SAMPLE_LIMIT` samples; a refused
/// sample changes nothing.
pub open spec fn add_outcome(
    before: Seq<OperationSamples>,
    metrics: PerformanceMetrics,
    after: Seq<OperationSamples>,
    outcome: Result<(), MetricsError>,
) -> bool {
    let at = bucket_index(before, metrics.operation@);
    let too_long = metrics.duration_ms matches Some(d) && d > DURATION_LIMIT;
    let full = at < before.len() && before[at].samples@.len() >= SAMPLE_LIMIT;
    match outcome {
        Ok(()) => {
            &&& !too_long && !full
            &&& sample_count(after) == sample_count(before) + 1
            &&& 0 <= at <= before.len()
            &&& after.len() == if at < before.len() {
                before.len()
            } else {
                before.len() + 1
            }
            &&& forall|k: int| 0 <= k < before.len() && k != at ==> #[trigger] after[k] == before[k]
            &&& after[at].operation@ == metrics.operation@
            &&& after[at].samples@ == (if at < before.len() {
                before[at].samples@
            } else {
                Seq::empty()
            }).push(metrics)
        },
        Err(MetricsError::DurationOutOfRange) => too_long && after == before,
        Err(MetricsError::WindowFull) => !too_long && full && after == before,
    }
}

/// True when `after` is what `before` becomes by recording `samples` one
/// after the other, `recorded` of them being accepted and the others refused.
#[verifier::opaque]
pub open spec fn fed(
    before: Seq<OperationSamples>,
    samples: Seq<PerformanceMetrics>,
    after: Seq<OperationSamples>,
    recorded: nat,
) -> bool
    decreases samples.len(),
{
    if samples.len() == 0 {
        after == before && recorded == 0
    } else {
        exists|mid: Seq<OperationSamples>, outcome: Result<(), MetricsError>|
            {
                &&& #[trigger] add_outcome(mid, samples.last(), after, outcome)
                &&& outcome is Ok ==> recorded >= 1
                &&& fed(
                    before,
                    samples.drop_last(),
                    mid,
                    if outcome is Ok {
                        (recorded - 1) as nat
                    } else {
                        recorded
                    },
                )
            }
    }
}

/// True when one turn of the collector took `before` to `after`: the samples
/// `taken` from the queue were recorded one after the other, which made
/// `window` of the operations, with the tally counting those recorded and
/// those refused; and then either no report was made and the window stayed,
/// or the report is the one on the window and the window was emptied.
pub open spec fn collected(
    before: Seq<OperationSamples>,
    taken: Seq<PerformanceMetrics>,
    window: Seq<OperationSamples>,
    tally: Drained,
    report: Option<Vec<OperationStats>>,
    after: Seq<OperationSamples>,
) -> bool {
    &&& grown(before, window)
    &&& fed(before, taken, window, tally.recorded as nat)
    &&& taken.len() == tally.recorded + tally.refused
    &&& sample_count(window) == sample_count(before) + tally.recorded
    &&& match report {
        None => after == window,
        Some(made) => made@ == report_of(window) && emptied(window, after),
    }
}

/// Recording one more sample extends what was fed by that sample.
proof fn lemma_fed_step(
    before: Seq<OperationSamples>,
    samples: Seq<PerformanceMetrics>,
    mid: Seq<OperationSamples>,
    recorded: nat,
    sample: PerformanceMetrics,
    after: Seq<OperationSamples>,
    outcome: Result<(), MetricsError>,
)
    requires
        fed(before, samples, mid, recorded),
        add_outcome(mid, sample, after, outcome),
    ensures
        fed(
            before,
            samples.push(sample),
            after,
            if outcome is Ok {
                recorded + 1
            } else {
                recorded
            },
        ),
{
    reveal(fed);
    let longer = samples.push(sample);
    assert(longer.drop_last() =~= samples);
    assert(longer.last() == sample);
    assert(add_outcome(mid, longer.last(), after, outcome));
}

/// Recording nothing changes nothing.
proof fn lemma_fed_nothing(before: Seq<OperationSamples>)
    ensures
        fed(before, Seq::empty(), before, 0),
{
    reveal(fed);
}

/// The latency budget of an operation.
pub fn deadline_budget(operation: &String) -> (budget: Option<u64>)
    ensures
        budget == deadline_budget_of(operation@),
{
    let processing = String::from_str("data_processing");
    let transmission = String::from_str("data_transmission");
    if *operation == processing {
        Some(2000)
    } else if *operation == transmission {
        Some(1000)
    } else {
        None
    }
}

/// One more sample extends the durations by its duration, if it has one.
proof fn lemma_timed_step(samples: Seq<PerformanceMetrics>, i: int)
    requires
        0 <= i < samples.len(),
    ensures
        timed_durations(samples.take(i + 1)) == match samples[i].duration_ms {
            Some(d) => timed_durations(samples.take(i)).push(d as int),
            None => timed_durations(samples.take(i)),
        },
        success_count(samples.take(i + 1)) == success_count(samples.take(i)) + if samples[i].success {
            1nat
        } else {
            0nat
        },
{
    assert(samples.take(i + 1).drop_last() =~= samples.take(i));
    assert(samples.take(i + 1).last() == samples[i]);
}

/// The durations of the samples that have one.
fn collect_durations(samples: &Vec<PerformanceMetrics>) -> (durations: Vec<u64>)
    ensures
        as_ints(durations@) == timed_durations(samples@),
        durations.len() <= samples.len(),
        samples_within_limits(samples@) ==> forall|k: int|
            0 <= k < durations.len() ==> #[trigger] durations[k] <= DURATION_LIMIT,
{
    let mut durations: Vec<u64> = Vec::new();
    let mut i: usize = 0;
    while i < samples.len()
        invariant
            i <= samples.len(),
            durations.len() <= i,
            as_ints(durations@) == timed_durations(samples@.take(i as int)),
            samples_within_limits(samples@) ==> forall|k: int|
                0 <= k < durations.len() ==> #[trigger] durations[k] <= DURATION_LIMIT,
        decreases samples.len() - i,
    {
        proof {
            lemma_timed_step(samples@, i as int);
        }
        if let Some(d) = samples[i].duration_ms {
            let ghost before = durations@;
            durations.push(d);
            assert(as_ints(durations@) =~= as_ints(before).push(d as int));
        }
        i = i + 1;
    }
    proof {
        assert(samples@.take(samples.len() as int) =~= samples@);
    }
    durations
}

/// How many of the samples succeeded.
fn count_successes(samples: &Vec<PerformanceMetrics>) -> (count: usize)
    ensures
        count == success_count(samples@),
        count <= samples.len(),
{
    let mut count: usize = 0;
    let mut i: usize = 0;
    while i < samples.len()
        invariant
            i <= samples.len(),
            count <= i,
            count == success_count(samples@.take(i as int)),
        decreases samples.len() - i,
    {
        proof {
            lemma_timed_step(samples@, i as int);
        }
        if samples[i].success {
            count = count + 1;
        }
        i = i + 1;
    }
    proof {
        assert(samples@.take(samples.len() as int) =~= samples@);
    }
    count
}

/// How many of the durations exceed `budget`.
fn count_over_budget(durations: &Vec<u64>, budget: u64) -> (count: usize)
    ensures
        count == over_budget_count(as_ints(durations@), budget as int),
        count <= durations.len(),
{
    let mut count: usize = 0;
    let mut i: usize = 0;
    while i < durations.len()
        invariant
            i <= durations.len(),
            count <= i,
            count == over_budget_count(as_ints(durations@.take(i as int)), budget as int),
        decreases durations.len() - i,
    {
        proof {
            lemma_as_ints_step(durations@, i as int);
        }
        if durations[i] > budget {
            count = count + 1;
        }
        i = i + 1;
    }
    proof {
        assert(durations@.take(durations.len() as int) =~= durations@);
    }
    count
}

/// Aggregates the samples of one operation.
pub fn summarize(bucket: &OperationSamples) -> (stats: OperationStats)
    requires
        bucket.samples.len() > 0,
        samples_within_limits(bucket.samples@),
    ensures
        stats == stats_of(*bucket),
{
    let samples = &bucket.samples;
    let count: usize = samples.len();
    let successes: usize = count_successes(samples);
    let scaled: u128 = successes as u128 * 100_000;
    let success_rate: u128 = scaled / (count as u128);
    assert(success_rate <= scaled) by (nonlinear_arith)
        requires
            success_rate == scaled / (count as u128),
            count >= 1,
    ;

    let durations = collect_durations(samples);
    let n: usize = durations.len();
    let ghost ints = as_ints(durations@);
    let mut avg_duration: u64 = 0;
    let mut min_duration: u64 = 0;
    let mut max_duration: u64 = 0;
    let mut jitter: u64 = 0;
    if n > 0 {
        let sum: u128 = total(&durations);
        proof {
            crate::numeric::lemma_sum_bounds(ints, DURATION_LIMIT as int);
            assert(n * DURATION_LIMIT <= 3_600_000_000_000_000_000) by (nonlinear_arith)
                requires
                    n <= 1_000_000_000,
                    DURATION_LIMIT == 3_600_000_000,
            ;
            assert(n * (DURATION_LIMIT * DURATION_LIMIT)
                <= 12_960_000_000_000_000_000_000_000_000) by (nonlinear_arith)
                requires
                    n <= 1_000_000_000,
                    DURATION_LIMIT == 3_600_000_000,
            ;
        }
        let mean: u128 = sum / (n as u128);
        assert(mean <= sum) by (nonlinear_arith)
            requires
                mean == sum / (n as u128),
                n >= 1,
        ;
        avg_duration = mean as u64;
        min_duration = smallest(&durations);
        max_duration = largest(&durations);
        if n > 1 {
            let sum_sq: u128 = total_of_squares(&durations, DURATION_LIMIT);
            assert((n as u128) * sum_sq <= 12_960_000_000_000_000_000_000_000_000_000_000_000)
                by (nonlinear_arith)
                requires
                    n <= 1_000_000_000,
                    sum_sq <= 12_960_000_000_000_000_000_000_000_000,
            ;
            assert(sum * sum <= 12_960_000_000_000_000_000_000_000_000_000_000_000)
                by (nonlinear_arith)
                requires
                    sum <= 3_600_000_000_000_000_000,
            ;
            assert((n as u128) * (n as u128) <= 1_000_000_000_000_000_000) by (nonlinear_arith)
                requires
                    n <= 1_000_000_000,
            ;
            assert((n as u128) * (n as u128) >= 1) by (nonlinear_arith)
                requires
                    n >= 1,
            ;
            let weighted: u128 = (n as u128) * sum_sq;
            let squared: u128 = sum * sum;
            let spread: u128 = if weighted >= squared {
                weighted - squared
            } else {
                0
            };
            let variance: u128 = spread / ((n as u128) * (n as u128));
            assert(variance == variance_floor(ints));
            jitter = isqrt(variance);
        }
    }
    let missed_deadlines: usize = match deadline_budget(&bucket.operation) {
        Some(budget) => count_over_budget(&durations, budget),
        None => 0,
    };
    OperationStats {
        operation: bucket.operation.clone(),
        total_operations: count,
        success_rate: success_rate as u64,
        avg_duration,
        min_duration,
        max_duration,
        jitter,
        missed_deadlines,
    }
}

/// True when a run of the operation missed its latency budget.
pub fn missed_deadline(operation: &String, duration_ms: u64) -> (missed: bool)
    ensures
        missed == match deadline_budget_of(operation@) {
            Some(budget) => duration_ms > budget,
            None => false,
        },
{
    match deadline_budget(operation) {
        Some(budget) => duration_ms > budget,
        None => false,
    }
}

/// True when a report is due: at least `interval_ms` have passed.
pub open spec fn is_due(elapsed_ms: u128, interval_ms: u64) -> bool {
    elapsed_ms >= interval_ms
}

/// True when a report is due: at least `interval_ms` have passed.
pub fn report_due(elapsed_ms: u128, interval_ms: u64) -> (due: bool)
    ensures
        due == is_due(elapsed_ms, interval_ms),
        due == (elapsed_ms >= interval_ms),
{
    elapsed_ms >= interval_ms as u128
}

impl MetricsCollector {
    /// The operations seen so far, each with the samples of the current window.
    pub closed spec fn buckets(&self) -> Seq<OperationSamples> {
        self.metrics@
    }

    /// Time between two reports, in milliseconds.
    pub closed spec fn report_interval(&self) -> u64 {
        self.report_interval_ms
    }

    /// Whether reports also go to a file, and to which.
    pub closed spec fn log_target(&self) -> (bool, Seq<char>) {
        (self.log_to_file, self.log_file@)
    }

    /// The instant at which the current reporting period began.
    pub closed spec fn period_start(&self) -> Instant {
        self.last_report_time
    }

    /// No operation has two buckets, and every bucket is within the limits
    /// that the aggregation can carry.
    pub closed spec fn wf(&self) -> bool {
        &&& forall|a: int, b: int|
            0 <= a < b < self.metrics.len() ==> #[trigger] self.metrics[a].operation@
                != #[trigger] self.metrics[b].operation@
        &&& forall|k: int|
            0 <= k < self.metrics.len() ==> samples_within_limits(
                #[trigger] self.metrics[k].samples@,
            )
    }

    /// An empty collector whose reporting period starts now.
    pub fn new(config: &MetricsConfig) -> (collector: Self)
        ensures
            collector.wf(),
            collector.buckets().len() == 0,
            collector.report_interval() == config.report_interval_ms,
            collector.log_target() == (config.log_to_file, config.log_file@),
    {
        MetricsCollector {
            metrics: Vec::new(),
            last_report_time: instant_now(),
            report_interval_ms: config.report_interval_ms,
            log_to_file: config.log_to_file,
            log_file: config.log_file.clone(),
        }
    }

    /// Where reports go besides the console: the log file, if logging to a
    /// file is switched on.
    pub fn log_file(&self) -> (target: Option<&String>)
        ensures
            target is Some == self.log_target().0,
            target matches Some(path) ==> path@ == self.log_target().1,
    {
        if self.log_to_file {
            Some(&self.log_file)
        } else {
            None
        }
    }

    /// Position of the bucket of `operation`, if it has one.
    fn find(&self, operation: &String) -> (at: usize)
        requires
            self.wf(),
        ensures
            at == bucket_index(self.buckets(), operation@),
            at <= self.metrics.len(),
            at < self.metrics.len() ==> self.metrics[at as int].operation@ == operation@,
            at == self.metrics.len() ==> forall|k: int|
                0 <= k < self.metrics.len() ==> self.metrics[k].operation@ != operation@,
    {
        let mut i: usize = 0;
        while i < self.metrics.len()
            invariant
                i <= self.metrics.len(),
                bucket_index(self.metrics@.take(i as int), operation@) == i,
                forall|k: int| 0 <= k < i ==> self.metrics[k].operation@ != operation@,
            decreases self.metrics.len() - i,
        {
            proof {
                assert(self.metrics@.take(i + 1).drop_last() =~= self.metrics@.take(i as int));
                assert(self.metrics@.take(i + 1).last() == self.metrics[i as int]);
            }
            if self.metrics[i].operation == *operation {
                proof {
                    lemma_bucket_index_found(self.metrics@, i as int, operation@);
                }
                return i;
            }
            i = i + 1;
        }
        proof {
            assert(self.metrics@.take(self.metrics.len() as int) =~= self.metrics@);
        }
        i
    }

    /// Records a sample under its operation, after the samples already there.
    ///
    /// A sample whose duration exceeds `DURATION_LIMIT` is refused, and so is
    /// one for an operation that already holds `SAMPLE_LIMIT` samples; the
    /// collector is then left as it was.
    pub fn add_metrics(&mut self, metrics: PerformanceMetrics) -> (outcome: Result<
        (),
        MetricsError,
    >)
        requires
            old(self).wf(),
        ensures
            final(self).wf(),
            final(self).extends(old(self)),
            add_outcome(old(self).buckets(), metrics, final(self).buckets(), outcome),
    {
        if let Some(d) = metrics.duration_ms {
            if d > DURATION_LIMIT {
                return Err(MetricsError::DurationOutOfRange);
            }
        }
        let at = self.find(&metrics.operation);
        if at < self.metrics.len() {
            if self.metrics[at].samples.len() >= SAMPLE_LIMIT {
                return Err(MetricsError::WindowFull);
            }
            let ghost before = self.metrics@;
            self.metrics[at].samples.push(metrics);
            proof {
                assert forall|k: int| 0 <= k < self.metrics.len() implies samples_within_limits(
                    #[trigger] self.metrics[k].samples@,
                ) by {
                    if k != at {
                        assert(self.metrics[k] == before[k]);
                    } else {
                        assert(samples_within_limits(before[k].samples@));
                    }
                }
                assert forall|k: int| 0 <= k < before.len() implies {
                    &&& (#[trigger] self.metrics[k]).operation@ == before[k].operation@
                    &&& before[k].samples@.is_prefix_of(self.metrics[k].samples@)
                } by {
                    if k != at {
                        assert(self.metrics[k] == before[k]);
                    }
                    assert(before[k].samples@ =~= self.metrics[k].samples@.subrange(
                        0,
                        before[k].samples@.len() as int,
                    ));
                }
                assert forall|k: int| 0 <= k < before.len() && k != at implies (
                #[trigger] self.metrics@[k]).samples@.len() == before[k].samples@.len() by {
                    assert(self.metrics[k] == before[k]);
                }
                lemma_count_grows(before, self.metrics@, at as int);
            }
        } else {
            let mut samples: Vec<PerformanceMetrics> = Vec::new();
            let operation = metrics.operation.clone();
            samples.push(metrics);
            let ghost before = self.metrics@;
            self.metrics.push(OperationSamples { operation, samples });
            proof {
                assert(self.metrics@.drop_last() =~= before);
            }
        }
        Ok(())
    }

    /// The statistics of every operation that has samples in this window, in
    /// the order in which the operations were first seen.
    pub fn generate_report(&self) -> (report: Vec<OperationStats>)
        requires
            self.wf(),
        ensures
            report@ == report_of(self.buckets()),
    {
        let mut report: Vec<OperationStats> = Vec::new();
        let mut i: usize = 0;
        while i < self.metrics.len()
            invariant
                self.wf(),
                i <= self.metrics.len(),
                report@ == report_of(self.metrics@.take(i as int)),
            decreases self.metrics.len() - i,
        {
            proof {
                assert(self.metrics@.take(i + 1).drop_last() =~= self.metrics@.take(i as int));
                assert(self.metrics@.take(i + 1).last() == self.metrics[i as int]);
            }
            if self.metrics[i].samples.len() > 0 {
                let stats = summarize(&self.metrics[i]);
                report.push(stats);
            }
            i = i + 1;
        }
        proof {
            assert(self.metrics@.take(self.metrics.len() as int) =~= self.metrics@);
        }
        report
    }

    /// True when `self` holds everything `before` held, in place, in the
    /// same reporting period and with the same settings.
    pub open spec fn extends(&self, before: &Self) -> bool {
        &&& self.report_interval() == before.report_interval()
        &&& self.log_target() == before.log_target()
        &&& self.period_start() == before.period_start()
        &&& grown(before.buckets(), self.buckets())
    }

    /// What extends an extension extends what that one extended.
    pub proof fn lemma_extends_chain(first: Self, second: Self, third: Self)
        requires
            second.extends(&first),
            third.extends(&second),
        ensures
            third.extends(&first),
    {
        assert forall|k: int| 0 <= k < first.buckets().len() implies {
            &&& (#[trigger] third.buckets()[k]).operation@ == first.buckets()[k].operation@
            &&& first.buckets()[k].samples@.is_prefix_of(third.buckets()[k].samples@)
        } by {
            let a = first.buckets()[k].samples@;
            let b = second.buckets()[k].samples@;
            let c = third.buckets()[k].samples@;
            assert(second.buckets()[k].operation@ == first.buckets()[k].operation@);
            assert(a.is_prefix_of(b));
            assert(b.is_prefix_of(c));
            assert(a =~= b.subrange(0, a.len() as int));
            assert(b =~= c.subrange(0, b.len() as int));
            assert(a =~= c.subrange(0, a.len() as int));
        }
    }

    /// Takes the samples that wait in the queue, oldest first, and records
    /// them; a sample the collector refuses is dropped. The draining ends
    /// when the queue is found empty, or after one look more than there were
    /// samples waiting at the start, so that it ends even while the other
    /// stages go on sending.
    ///
    /// Which samples come out of the queue is for the other stages to
    /// decide. Whichever they are, the collector is afterwards what recording
    /// them one after the other makes of it, and the result counts those
    /// recorded and those refused.
    pub fn drain(&mut self, queue: &Receiver<PerformanceMetrics>) -> (drained: Drained)
        requires
            old(self).wf(),
        ensures
            final(self).wf(),
            final(self).extends(old(self)),
            sample_count(final(self).buckets()) == sample_count(old(self).buckets())
                + drained.recorded,
            exists|taken: Seq<PerformanceMetrics>|
                {
                    &&& #[trigger] fed(
                        old(self).buckets(),
                        taken,
                        final(self).buckets(),
                        drained.recorded as nat,
                    )
                    &&& taken.len() == drained.recorded + drained.refused
                },
    {
        let pending: usize = waiting(queue);
        let looks: usize = if pending < usize::MAX {
            pending + 1
        } else {
            pending
        };
        let mut drained = Drained { recorded: 0, refused: 0, disconnected: false };
        let ghost mut taken: Seq<PerformanceMetrics> = Seq::empty();
        proof {
            lemma_fed_nothing(self.buckets());
        }
        let mut i: usize = 0;
        while i < looks
            invariant
                self.wf(),
                self.extends(old(self)),
                drained.recorded + drained.refused <= i,
                sample_count(self.buckets()) == sample_count(old(self).buckets())
                    + drained.recorded,
                fed(old(self).buckets(), taken, self.buckets(), drained.recorded as nat),
                taken.len() == drained.recorded + drained.refused,
            decreases looks - i,
        {
            let ghost before = *self;
            match poll(queue) {
                Polled::Item(sample) => {
                    let ghost recorded_before = drained.recorded as nat;
                    let outcome = self.add_metrics(sample);
                    match outcome {
                        Ok(()) => {
                            drained.recorded = drained.recorded + 1;
                        },
                        Err(_) => {
                            drained.refused = drained.refused + 1;
                        },
                    }
                    proof {
                        Self::lemma_extends_chain(*old(self), before, *self);
                        lemma_fed_step(
                            old(self).buckets(),
                            taken,
                            before.buckets(),
                            recorded_before,
                            sample,
                            self.buckets(),
                            outcome,
                        );
                        taken = taken.push(sample);
                    }
                },
                Polled::Empty => {
                    return drained;
                },
                Polled::Disconnected => {
                    drained.disconnected = true;
                    assert(fed(old(self).buckets(), taken, self.buckets(), drained.recorded as nat));
                    return drained;
                },
            }
            i = i + 1;
        }
        drained
    }

    /// One turn of the collector: drains the sample queue and, unless the
    /// queue is disconnected, closes the reporting window if its period has
    /// run out on the monotonic clock. A disconnected queue ends the
    /// collector's work; no report is made then.
    ///
    /// The draining leaves the collector as `drain` says. Unless the queue is
    /// disconnected, a report is made exactly if one is due for the time that
    /// the clock says has passed. Where a report is made, it is the report on
    /// the window as the draining left it, and the window is empty
    /// afterwards. Where none is made, the collector stays as the draining
    /// left it.
    pub fn collect(&mut self, queue: &Receiver<PerformanceMetrics>) -> (turn: (
        Drained,
        Option<Vec<OperationStats>>,
    ))
        requires
            old(self).wf(),
        ensures
            final(self).wf(),
            final(self).report_interval() == old(self).report_interval(),
            final(self).log_target() == old(self).log_target(),
            turn.0.disconnected ==> turn.1 is None,
            !turn.0.disconnected ==> exists|elapsed_ms: u128|
                turn.1 is Some == #[trigger] is_due(elapsed_ms, old(self).report_interval()),
            turn.1 is None ==> final(self).extends(old(self)),
            exists|window: Seq<OperationSamples>, taken: Seq<PerformanceMetrics>|
                #[trigger] collected(
                    old(self).buckets(),
                    taken,
                    window,
                    turn.0,
                    turn.1,
                    final(self).buckets(),
                ),
    {
        let drained = self.drain(queue);
        let ghost filled = *self;
        let ghost taken = choose|taken: Seq<PerformanceMetrics>|
            {
                &&& #[trigger] fed(
                    old(self).buckets(),
                    taken,
                    filled.buckets(),
                    drained.recorded as nat,
                )
                &&& taken.len() == drained.recorded + drained.refused
            };
        let ghost window = filled.buckets();
        if drained.disconnected {
            let turn = (drained, None);
            assert(collected(old(self).buckets(), taken, window, turn.0, turn.1, self.buckets()));
            return turn;
        }
        let due = self.should_report();
        let ghost elapsed_ms = choose|elapsed_ms: u128|
            due == #[trigger] is_due(elapsed_ms, self.report_interval());
        let report = self.take_report(due);
        proof {
            assert(report is Some == is_due(elapsed_ms, old(self).report_interval()));
            if !due {
                assert(self.extends(old(self)));
            }
        }
        let turn = (drained, report);
        assert(collected(old(self).buckets(), taken, window, turn.0, turn.1, self.buckets()));
        turn
    }

    /// Closes the reporting window if a report is due: the report on the
    /// window comes back, the window is emptied and a new period starts.
    /// Nothing happens when no report is due.
    pub fn take_report(&mut self, due: bool) -> (report: Option<Vec<OperationStats>>)
        requires
            old(self).wf(),
        ensures
            final(self).wf(),
            final(self).report_interval() == old(self).report_interval(),
            final(self).log_target() == old(self).log_target(),
            report is Some == due,
            !due ==> final(self).buckets() == old(self).buckets() && final(self).period_start()
                == old(self).period_start(),
            due ==> {
                &&& report->Some_0@ == report_of(old(self).buckets())
                &&& final(self).buckets().len() == old(self).buckets().len()
                &&& forall|k: int|
                    0 <= k < final(self).buckets().len() ==> {
                        &&& (#[trigger] final(self).buckets()[k]).operation
                            == old(self).buckets()[k].operation
                        &&& final(self).buckets()[k].samples@.len() == 0
                    }
            },
    {
        if due {
            let report = self.generate_report();
            self.reset_report_timer();
            self.clear_metrics();
            Some(report)
        } else {
            None
        }
    }

    /// True when the reporting period has run out on the monotonic clock: a
    /// report is due for the time that the clock says has passed since the
    /// period began, whatever that time is. With an interval of zero a report
    /// is always due.
    pub fn should_report(&self) -> (due: bool)
        ensures
            exists|elapsed_ms: u128| due == #[trigger] is_due(elapsed_ms, self.report_interval()),
    {
        let now = instant_now();
        let elapsed = instant_span(&now, &self.last_report_time);
        let elapsed_ms = duration_millis(&elapsed);
        let due = report_due(elapsed_ms, self.report_interval_ms);
        assert(due == is_due(elapsed_ms, self.report_interval()));
        due
    }

    /// Starts a new reporting period at the given instant.
    pub fn restart_at(&mut self, now: Instant)
        ensures
            final(self).period_start() == now,
            final(self).buckets() == old(self).buckets(),
            final(self).report_interval() == old(self).report_interval(),
            final(self).log_target() == old(self).log_target(),
            old(self).wf() ==> final(self).wf(),
    {
        self.last_report_time = now;
    }

    /// Starts a new reporting period now: at whatever instant the monotonic
    /// clock reads.
    pub fn reset_report_timer(&mut self)
        ensures
            final(self).buckets() == old(self).buckets(),
            final(self).report_interval() == old(self).report_interval(),
            final(self).log_target() == old(self).log_target(),
            old(self).wf() ==> final(self).wf(),
    {
        self.restart_at(instant_now());
    }

    /// Empties the window: every operation stays known and loses its samples.
    pub fn clear_metrics(&mut self)
        requires
            old(self).wf(),
        ensures
            final(self).wf(),
            final(self).report_interval() == old(self).report_interval(),
            final(self).log_target() == old(self).log_target(),
            final(self).period_start() == old(self).period_start(),
            final(self).buckets().len() == old(self).buckets().len(),
            forall|k: int|
                0 <= k < final(self).buckets().len() ==> {
                    &&& (#[trigger] final(self).buckets()[k]).operation
                        == old(self).buckets()[k].operation
                    &&& final(self).buckets()[k].samples@.len() == 0
                },
    {
        let mut i: usize = 0;
        while i < self.metrics.len()
            invariant
                i <= self.metrics.len(),
                self.metrics.len() == old(self).metrics.len(),
                self.last_report_time == old(self).last_report_time,
                self.report_interval_ms == old(self).report_interval_ms,
                self.log_to_file == old(self).log_to_file,
                self.log_file == old(self).log_file,
                forall|k: int|
                    0 <= k < self.metrics.len() ==> (#[trigger] self.metrics[k]).operation
                        == old(self).metrics[k].operation,
                forall|k: int| 0 <= k < i ==> (#[trigger] self.metrics[k]).samples@.len() == 0,
                forall|k: int|
                    i <= k < self.metrics.len() ==> samples_within_limits(
                        (#[trigger] self.metrics[k]).samples@,
                    ),
            decreases self.metrics.len() - i,
        {
            self.metrics[i].samples.clear();
            i = i + 1;
        }
    }
}

/// Where the operation first occurs among the buckets is its index.
proof fn lemma_bucket_index_found(buckets: Seq<OperationSamples>, at: int, operation: Seq<char>)
    requires
        0 <= at < buckets.len(),
        buckets[at].operation@ == operation,
        bucket_index(buckets.take(at), operation) == at,
    ensures
        bucket_index(buckets, operation) == at,
    decreases buckets.len(),
{
    if buckets.len() == at + 1 {
        assert(buckets.drop_last() =~= buckets.take(at));
    } else {
        assert(buckets.drop_last().take(at) =~= buckets.take(at));
        lemma_bucket_index_found(buckets.drop_last(), at, operation);
    }
}

/// A window without samples yields an empty report.
pub proof fn lemma_empty_window_reports_nothing(buckets: Seq<OperationSamples>)
    requires
        forall|k: int| 0 <= k < buckets.len() ==> (#[trigger] buckets[k]).samples@.len() == 0,
    ensures
        report_of(buckets).len() == 0,
    decreases buckets.len(),
{
    if buckets.len() > 0 {
        assert forall|k: int| 0 <= k < buckets.drop_last().len() implies (
        #[trigger] buckets.drop_last()[k]).samples@.len() == 0 by {
            assert(buckets.drop_last()[k] == buckets[k]);
        }
        lemma_empty_window_reports_nothing(buckets.drop_last());
        assert(buckets.last() == buckets[buckets.len() - 1]);
    }
}

} // verus!
