//! Online mean and standard deviation, one accumulator per sensor.
//!
//! An accumulator keeps a count, a sum and a sum of squares, so memory does
//! not grow with the stream. What it reports is stated against the sequence
//! of all samples it has taken, which exists only in the proofs.

use crate::numeric::{
    div_floor, is_isqrt, isqrt, lemma_sqrt_floor, lemma_sum_bounds, seq_sum, seq_sum_sq,
    sqrt_floor, VALUE_LIMIT,
};
use vstd::prelude::*;

verus! {

/// Most samples one accumulator takes.
pub const SAMPLE_CAPACITY: u64 = 4_000_000_000;

/// Why a sample was not taken.
#[derive(Debug, Clone, Copy, PartialEq, Eq, Structural)]
pub enum StatsError {
    /// The sample lies further than `VALUE_LIMIT` from zero.
    OutOfRange,
    /// The accumulator already holds `SAMPLE_CAPACITY` samples.
    Saturated,
}

/// What an accumulator reports after a sample: all in thousandths, but the count.
#[derive(Debug, Clone, Copy, PartialEq, Eq, Structural)]
pub struct Summary {
    pub mean: i64,
    pub std_dev: i64,
    pub count: u64,
}

/// Arithmetic mean of the samples, rounded down; 0 for no samples.
pub open spec fn mean_of(samples: Seq<int>) -> int {
    if samples.len() == 0 {
        0
    } else {
        seq_sum(samples) / (samples.len() as int)
    }
}

/// Sample variance (divisor `n - 1`), rounded down; 0 for fewer than two samples.
pub open spec fn variance_of(samples: Seq<int>) -> int {
    let n = samples.len() as int;
    if n < 2 {
        0
    } else {
        let spread = n * seq_sum_sq(samples) - seq_sum(samples) * seq_sum(samples);
        (if spread < 0 {
            0
        } else {
            spread
        }) / (n * (n - 1))
    }
}

/// Sample standard deviation: the integer square root of the variance.
pub open spec fn std_dev_of(samples: Seq<int>) -> int {
    sqrt_floor(variance_of(samples))
}

impl Summary {
    /// True when this is what an accumulator reports once it has taken
    /// exactly `samples`.
    pub open spec fn describes(self, samples: Seq<int>) -> bool {
        &&& self.mean == mean_of(samples)
        &&& self.std_dev == std_dev_of(samples)
        &&& self.count == samples.len()
    }
}

/// True when every sample lies within `VALUE_LIMIT` of zero.
pub open spec fn within_limit(samples: Seq<int>) -> bool {
    forall|i: int| 0 <= i < samples.len() ==> -VALUE_LIMIT <= #[trigger] samples[i] <= VALUE_LIMIT
}

/// The variance is never negative, so the standard deviation is its integer
/// square root and not negative either, and both are 0 for a stream of one sample.
pub proof fn lemma_std_dev_nonnegative(samples: Seq<int>)
    ensures
        variance_of(samples) >= 0,
        std_dev_of(samples) >= 0,
        is_isqrt(variance_of(samples), std_dev_of(samples)),
        samples.len() <= 1 ==> std_dev_of(samples) == 0,
{
    let n = samples.len() as int;
    if n >= 2 {
        let spread = n * seq_sum_sq(samples) - seq_sum(samples) * seq_sum(samples);
        let clamped = if spread < 0 {
            0
        } else {
            spread
        };
        assert(clamped / (n * (n - 1)) >= 0) by (nonlinear_arith)
            requires
                clamped >= 0,
                n >= 2,
        ;
    }
    lemma_sqrt_floor(variance_of(samples));
    if n <= 1 {
        let root = std_dev_of(samples);
        assert(root == 0) by (nonlinear_arith)
            requires
                root >= 0,
                root * root <= 0,
        ;
    }
}

/// The mean of samples within the limit is within the limit, and multiplying
/// it back by the count misses the sum by less than the count.
pub proof fn lemma_mean_is_average(samples: Seq<int>)
    requires
        samples.len() > 0,
        within_limit(samples),
    ensures
        -VALUE_LIMIT <= mean_of(samples) <= VALUE_LIMIT,
        mean_of(samples) * samples.len() <= seq_sum(samples) < (mean_of(samples) + 1)
            * samples.len(),
{
    let n = samples.len() as int;
    let s = seq_sum(samples);
    let limit = VALUE_LIMIT as int;
    lemma_sum_bounds(samples, limit);
    vstd::arithmetic::div_mod::lemma_fundamental_div_mod(s, n);
    let q = s / n;
    let r = s % n;
    assert(0 <= r < n);
    assert(q * n == n * q) by (nonlinear_arith);
    assert((q + 1) * n == n * q + n) by (nonlinear_arith);
    assert(q <= limit) by (nonlinear_arith)
        requires
            n * q + r == s,
            0 <= r,
            s <= n * limit,
            n > 0,
    ;
    assert(q >= -limit) by (nonlinear_arith)
        requires
            n * q + r == s,
            r < n,
            s >= -(n * limit),
            n > 0,
    ;
}

/// The online accumulator of one stream.
pub struct RunningStats {
    count: u64,
    sum: i128,
    sum_sq: u128,
    seen: Ghost<Seq<int>>,
}

impl RunningStats {
    /// Every sample taken so far, oldest first.
    pub closed spec fn history(&self) -> Seq<int> {
        self.seen@
    }

    /// The counters agree with the history, and the history is within the limits.
    pub closed spec fn wf(&self) -> bool {
        &&& self.count == self.seen@.len()
        &&& self.count <= SAMPLE_CAPACITY
        &&& self.sum == seq_sum(self.seen@)
        &&& self.sum_sq == seq_sum_sq(self.seen@)
        &&& within_limit(self.seen@)
    }

    /// An accumulator that has taken no sample.
    pub fn new() -> (stats: Self)
        ensures
            stats.wf(),
            stats.history() == Seq::<int>::empty(),
    {
        RunningStats { count: 0, sum: 0, sum_sq: 0, seen: Ghost(Seq::empty()) }
    }

    /// How many samples were taken.
    pub fn count(&self) -> (count: u64)
        requires
            self.wf(),
        ensures
            count == self.history().len(),
    {
        self.count
    }

    /// Mean of the samples taken, rounded down.
    pub fn mean(&self) -> (mean: i64)
        requires
            self.wf(),
        ensures
            mean == mean_of(self.history()),
    {
        if self.count == 0 {
            0
        } else {
            proof {
                lemma_mean_is_average(self.seen@);
            }
            let mean: i128 = div_floor(self.sum, self.count as i128);
            mean as i64
        }
    }

    /// Sample standard deviation of the samples taken.
    pub fn std_dev(&self) -> (std_dev: i64)
        requires
            self.wf(),
        ensures
            std_dev == std_dev_of(self.history()),
            std_dev >= 0,
    {
        proof {
            lemma_std_dev_nonnegative(self.seen@);
        }
        if self.count < 2 {
            0
        } else {
            let n: u128 = self.count as u128;
            proof {
                lemma_sum_bounds(self.seen@, VALUE_LIMIT as int);
                assert(n * (VALUE_LIMIT * VALUE_LIMIT) <= 4_000_000_000_000_000_000_000_000_000)
                    by (nonlinear_arith)
                    requires
                        n <= 4_000_000_000,
                        VALUE_LIMIT == 1_000_000_000,
                ;
                assert(n * VALUE_LIMIT <= 4_000_000_000_000_000_000) by (nonlinear_arith)
                    requires
                        n <= 4_000_000_000,
                        VALUE_LIMIT == 1_000_000_000,
                ;
            }
            assert(n * self.sum_sq <= 16_000_000_000_000_000_000_000_000_000_000_000_000)
                by (nonlinear_arith)
                requires
                    n <= 4_000_000_000,
                    self.sum_sq <= 4_000_000_000_000_000_000_000_000_000,
            ;
            assert(0 <= self.sum * self.sum <= 16_000_000_000_000_000_000_000_000_000_000_000_000)
                by (nonlinear_arith)
                requires
                    -4_000_000_000_000_000_000 <= self.sum <= 4_000_000_000_000_000_000,
            ;
            assert(2 <= n * (n - 1) <= 16_000_000_000_000_000_000) by (nonlinear_arith)
                requires
                    2 <= n <= 4_000_000_000,
            ;
            let weighted: u128 = n * self.sum_sq;
            let squared: u128 = (self.sum * self.sum) as u128;
            let spread: u128 = if weighted >= squared {
                weighted - squared
            } else {
                0
            };
            let pairs: u128 = n * (n - 1);
            let variance: u128 = spread / pairs;
            assert(variance == variance_of(self.seen@));
            assert(variance <= spread) by (nonlinear_arith)
                requires
                    variance == spread / pairs,
                    pairs >= 2,
            ;
            let root: u64 = isqrt(variance);
            assert(root <= 4_000_000_000_000_000_000) by (nonlinear_arith)
                requires
                    root * root <= variance,
                    variance <= 16_000_000_000_000_000_000_000_000_000_000_000_000,
            ;
            root as i64
        }
    }

    /// Mean, standard deviation and count of the samples taken.
    pub fn summary(&self) -> (summary: Summary)
        requires
            self.wf(),
        ensures
            summary.describes(self.history()),
            summary.std_dev >= 0,
    {
        Summary { mean: self.mean(), std_dev: self.std_dev(), count: self.count }
    }

    /// Takes one more sample.
    ///
    /// A sample further than `VALUE_LIMIT` from zero is refused, and so is any
    /// sample once `SAMPLE_CAPACITY` samples were taken; the accumulator is
    /// then left as it was.
    pub fn update(&mut self, value: i64) -> (outcome: Result<(), StatsError>)
        requires
            old(self).wf(),
        ensures
            final(self).wf(),
            final(self).history().len() >= old(self).history().len(),
            match outcome {
                Ok(()) => {
                    &&& -VALUE_LIMIT <= value <= VALUE_LIMIT
                    &&& old(self).history().len() < SAMPLE_CAPACITY
                    &&& final(self).history() == old(self).history().push(value as int)
                },
                Err(StatsError::OutOfRange) => {
                    &&& !(-VALUE_LIMIT <= value <= VALUE_LIMIT)
                    &&& final(self).history() == old(self).history()
                },
                Err(StatsError::Saturated) => {
                    &&& -VALUE_LIMIT <= value <= VALUE_LIMIT
                    &&& old(self).history().len() == SAMPLE_CAPACITY
                    &&& final(self).history() == old(self).history()
                },
            },
    {
        if value < -VALUE_LIMIT || value > VALUE_LIMIT {
            return Err(StatsError::OutOfRange);
        }
        if self.count >= SAMPLE_CAPACITY {
            return Err(StatsError::Saturated);
        }
        let ghost before = self.seen@;
        let ghost after = before.push(value as int);
        proof {
            lemma_sum_bounds(before, VALUE_LIMIT as int);
            assert(after.drop_last() =~= before);
            assert(before.len() * VALUE_LIMIT <= 4_000_000_000_000_000_000) by (nonlinear_arith)
                requires
                    before.len() <= 4_000_000_000,
                    VALUE_LIMIT == 1_000_000_000,
            ;
            assert(before.len() * (VALUE_LIMIT * VALUE_LIMIT)
                <= 4_000_000_000_000_000_000_000_000_000) by (nonlinear_arith)
                requires
                    before.len() <= 4_000_000_000,
                    VALUE_LIMIT == 1_000_000_000,
            ;
            assert(0 <= value * value <= 1_000_000_000_000_000_000) by (nonlinear_arith)
                requires
                    -1_000_000_000 <= value <= 1_000_000_000,
            ;
            assert forall|i: int| 0 <= i < after.len() implies -VALUE_LIMIT <= #[trigger] after[i]
                <= VALUE_LIMIT by {
                if i < before.len() {
                    assert(after[i] == before[i]);
                }
            }
        }
        let wide: i128 = value as i128;
        self.count = self.count + 1;
        self.sum = self.sum + wide;
        self.sum_sq = self.sum_sq + (wide * wide) as u128;
        self.seen = Ghost(after);
        Ok(())
    }
}

/// The accumulator of one sensor.
pub struct SensorStats {
    sensor_id: String,
    stats: RunningStats,
}

/// The statistics engine: one accumulator per sensor, made on the sensor's
/// first sample.
pub struct StatisticsEngine {
    sensors: Vec<SensorStats>,
}

impl StatisticsEngine {
    /// True when the sensor has an accumulator.
    pub closed spec fn knows(&self, sensor_id: Seq<char>) -> bool {
        exists|k: int| 0 <= k < self.sensors.len() && self.sensors[k].sensor_id@ == sensor_id
    }

    /// Every sample taken for the sensor, oldest first; empty for a sensor
    /// that has no accumulator.
    pub closed spec fn history_of(&self, sensor_id: Seq<char>) -> Seq<int> {
        if self.knows(sensor_id) {
            let k = choose|k: int|
                0 <= k < self.sensors.len() && self.sensors[k].sensor_id@ == sensor_id;
            self.sensors[k].stats.history()
        } else {
            Seq::empty()
        }
    }

    /// No sensor has two accumulators, and every accumulator is well formed.
    pub closed spec fn wf(&self) -> bool {
        &&& forall|a: int, b: int|
            0 <= a < b < self.sensors.len() ==> #[trigger] self.sensors[a].sensor_id@
                != #[trigger] self.sensors[b].sensor_id@
        &&& forall|k: int| 0 <= k < self.sensors.len() ==> (#[trigger] self.sensors[k]).stats.wf()
    }

    /// In a well-formed engine every stream is within the limits of an
    /// accumulator: no sample lies further than `VALUE_LIMIT` from zero, and
    /// no stream is longer than `SAMPLE_CAPACITY`.
    pub proof fn lemma_history_within_limit(&self, sensor_id: Seq<char>)
        requires
            self.wf(),
        ensures
            within_limit(self.history_of(sensor_id)),
            self.history_of(sensor_id).len() <= SAMPLE_CAPACITY,
    {
    }

    /// An engine that knows no sensor.
    pub fn new() -> (engine: Self)
        ensures
            engine.wf(),
            forall|id: Seq<char>| engine.history_of(id) == Seq::<int>::empty(),
    {
        StatisticsEngine { sensors: Vec::new() }
    }

    /// In a well-formed engine the accumulator at `k` holds the history of its sensor.
    proof fn lemma_history_at(&self, k: int)
        requires
            self.wf(),
            0 <= k < self.sensors.len(),
        ensures
            self.knows(self.sensors[k].sensor_id@),
            self.history_of(self.sensors[k].sensor_id@) == self.sensors[k].stats.history(),
    {
        let id = self.sensors[k].sensor_id@;
        let chosen = choose|j: int| 0 <= j < self.sensors.len() && self.sensors[j].sensor_id@ == id;
        if chosen < k {
            assert(self.sensors[chosen].sensor_id@ != self.sensors[k].sensor_id@);
        } else if k < chosen {
            assert(self.sensors[k].sensor_id@ != self.sensors[chosen].sensor_id@);
        }
    }

    /// Position of the sensor's accumulator, or the number of accumulators
    /// when it has none.
    fn find(&self, sensor_id: &String) -> (at: usize)
        requires
            self.wf(),
        ensures
            at <= self.sensors.len(),
            at < self.sensors.len() ==> self.sensors[at as int].sensor_id@ == sensor_id@,
            at == self.sensors.len() ==> !self.knows(sensor_id@),
    {
        let mut i: usize = 0;
        while i < self.sensors.len()
            invariant
                i <= self.sensors.len(),
                forall|k: int| 0 <= k < i ==> self.sensors[k].sensor_id@ != sensor_id@,
            decreases self.sensors.len() - i,
        {
            if self.sensors[i].sensor_id == *sensor_id {
                return i;
            }
            i = i + 1;
        }
        i
    }

    /// What the engine reports about a sensor: the summary of its history.
    pub fn summary(&self, sensor_id: &String) -> (summary: Summary)
        requires
            self.wf(),
        ensures
            summary.describes(self.history_of(sensor_id@)),
    {
        let at = self.find(sensor_id);
        if at < self.sensors.len() {
            proof {
                self.lemma_history_at(at as int);
            }
            self.sensors[at].stats.summary()
        } else {
            proof {
                lemma_std_dev_nonnegative(Seq::<int>::empty());
            }
            Summary { mean: 0, std_dev: 0, count: 0 }
        }
    }

    /// Feeds one sample to the sensor's accumulator, making the accumulator
    /// if this is the sensor's first sample, and reports mean, standard
    /// deviation and count over everything the sensor has sent so far.
    ///
    /// A refused sample (see `RunningStats::update`) changes no history.
    pub fn update(&mut self, sensor_id: &String, value: i64) -> (outcome: Result<
        Summary,
        StatsError,
    >)
        requires
            old(self).wf(),
        ensures
            final(self).wf(),
            forall|other: Seq<char>|
                other != sensor_id@ ==> final(self).history_of(other) == old(self).history_of(
                    other,
                ),
            final(self).history_of(sensor_id@).len() >= old(self).history_of(sensor_id@).len(),
            match outcome {
                Ok(summary) => {
                    &&& -VALUE_LIMIT <= value <= VALUE_LIMIT
                    &&& old(self).history_of(sensor_id@).len() < SAMPLE_CAPACITY
                    &&& final(self).history_of(sensor_id@) == old(self).history_of(
                        sensor_id@,
                    ).push(value as int)
                    &&& summary.describes(final(self).history_of(sensor_id@))
                    &&& summary.std_dev >= 0
                },
                Err(StatsError::OutOfRange) => {
                    &&& !(-VALUE_LIMIT <= value <= VALUE_LIMIT)
                    &&& final(self).history_of(sensor_id@) == old(self).history_of(sensor_id@)
                },
                Err(StatsError::Saturated) => {
                    &&& -VALUE_LIMIT <= value <= VALUE_LIMIT
                    &&& old(self).history_of(sensor_id@).len() == SAMPLE_CAPACITY
                    &&& final(self).history_of(sensor_id@) == old(self).history_of(sensor_id@)
                },
            },
    {
        let at = self.find(sensor_id);
        let ghost before = *self;
        if at < self.sensors.len() {
            proof {
                before.lemma_history_at(at as int);
            }
            let outcome = self.sensors[at].stats.update(value);
            proof {
                assert(self.sensors.len() == before.sensors.len());
                assert forall|k: int| 0 <= k < self.sensors.len() implies (
                #[trigger] self.sensors[k]).sensor_id == before.sensors[k].sensor_id by {}
                assert(self.wf());
                self.lemma_history_at(at as int);
                assert forall|other: Seq<char>| other != sensor_id@ implies self.history_of(other)
                    == before.history_of(other) by {
                    Self::lemma_same_elsewhere(before, *self, at as int, other);
                }
            }
            match outcome {
                Ok(()) => Ok(self.sensors[at].stats.summary()),
                Err(e) => Err(e),
            }
        } else {
            let mut stats = RunningStats::new();
            let outcome = stats.update(value);
            match outcome {
                Ok(()) => {
                    let summary = stats.summary();
                    self.sensors.push(SensorStats { sensor_id: sensor_id.clone(), stats });
                    proof {
                        assert(Seq::<int>::empty().push(value as int) == stats.history());
                        assert(self.wf());
                        self.lemma_history_at(at as int);
                        assert forall|other: Seq<char>| other != sensor_id@ implies self.history_of(
                            other,
                        ) == before.history_of(other) by {
                            Self::lemma_same_after_push(before, *self, other);
                        }
                    }
                    Ok(summary)
                },
                Err(e) => Err(e),
            }
        }
    }

    /// Changing the accumulator at `at` leaves the history of every other sensor.
    proof fn lemma_same_elsewhere(before: Self, after: Self, at: int, other: Seq<char>)
        requires
            before.wf(),
            after.wf(),
            0 <= at < before.sensors.len(),
            after.sensors.len() == before.sensors.len(),
            forall|k: int|
                0 <= k < before.sensors.len() ==> (#[trigger] after.sensors[k]).sensor_id
                    == before.sensors[k].sensor_id,
            forall|k: int|
                0 <= k < before.sensors.len() && k != at ==> (
                #[trigger] after.sensors[k]).stats.history() == before.sensors[k].stats.history(),
            other != before.sensors[at].sensor_id@,
        ensures
            after.history_of(other) == before.history_of(other),
    {
        if before.knows(other) {
            let k = choose|k: int|
                0 <= k < before.sensors.len() && before.sensors[k].sensor_id@ == other;
            assert(after.sensors[k].sensor_id@ == other);
            before.lemma_history_at(k);
            after.lemma_history_at(k);
        } else {
            if after.knows(other) {
                let k = choose|k: int|
                    0 <= k < after.sensors.len() && after.sensors[k].sensor_id@ == other;
                assert(before.sensors[k].sensor_id@ == other);
            }
        }
    }

    /// A new accumulator at the end leaves the history of every other sensor.
    proof fn lemma_same_after_push(before: Self, after: Self, other: Seq<char>)
        requires
            before.wf(),
            after.wf(),
            after.sensors.len() == before.sensors.len() + 1,
            forall|k: int|
                0 <= k < before.sensors.len() ==> (#[trigger] after.sensors[k])
                    == before.sensors[k],
            other != after.sensors[before.sensors.len() as int].sensor_id@,
        ensures
            after.history_of(other) == before.history_of(other),
    {
        if before.knows(other) {
            let k = choose|k: int|
                0 <= k < before.sensors.len() && before.sensors[k].sensor_id@ == other;
            assert(after.sensors[k].sensor_id@ == other);
            before.lemma_history_at(k);
            after.lemma_history_at(k);
        } else {
            if after.knows(other) {
                let k = choose|k: int|
                    0 <= k < after.sensors.len() && after.sensors[k].sensor_id@ == other;
                if k < before.sensors.len() {
                    assert(before.sensors[k].sensor_id@ == other);
                }
            }
        }
    }
}

} // verus!
