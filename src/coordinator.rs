use vstd::prelude::*;
use vstd::seq_lib::{to_multiset_build, to_multiset_contains, to_multiset_len, to_multiset_remove};
use crate::point::Point;
use crate::sampler::{all_wf, hits, sample_in_circle};

verus! {

broadcast use vstd::multiset::group_multiset_axioms;

/// Why a configuration was refused.
#[derive(Clone, Copy, Debug, PartialEq, Eq, Structural)]
pub enum ConfigError {
    /// The thread count is zero.
    NoThreads,
    /// The number of samples per thread is zero.
    NoSamples,
    /// The total number of samples does not fit in a `u64`.
    TooManySamples,
}

/// The mathematical content of a [`SampleConfig`].
pub struct ConfigView {
    pub samples_per_thread: nat,
    pub thread_count: nat,
    pub use_fast_distance: bool,
}

impl ConfigView {
    /// Samples drawn in one iteration, over all threads.
    pub open spec fn total_samples(self) -> nat {
        self.thread_count * self.samples_per_thread
    }
}

/// What one iteration runs: how many threads, how many samples each, and
/// which in-circle test. Only valid configurations can be built.
pub struct SampleConfig {
    samples_per_thread: u64,
    thread_count: usize,
    use_fast_distance: bool,
}

/// Whether a configuration can run: at least one thread and one sample per
/// thread, and a total number of samples that fits in a `u64`.
pub open spec fn config_valid(c: ConfigView) -> bool {
    &&& c.thread_count >= 1
    &&& c.samples_per_thread >= 1
    &&& c.total_samples() <= u64::MAX
}

impl View for SampleConfig {
    type V = ConfigView;

    closed spec fn view(&self) -> ConfigView {
        ConfigView {
            samples_per_thread: self.samples_per_thread as nat,
            thread_count: self.thread_count as nat,
            use_fast_distance: self.use_fast_distance,
        }
    }
}

impl SampleConfig {
    #[verifier::type_invariant]
    spec fn valid(self) -> bool {
        config_valid(self@)
    }

    /// A configuration, or the reason it cannot run.
    pub fn new(samples_per_thread: u64, thread_count: usize, use_fast_distance: bool) -> (r: Result<
        SampleConfig,
        ConfigError,
    >)
        ensures
            thread_count == 0 <==> r == Err::<SampleConfig, ConfigError>(ConfigError::NoThreads),
            thread_count > 0 && samples_per_thread == 0 <==> r == Err::<SampleConfig, ConfigError>(
                ConfigError::NoSamples,
            ),
            thread_count > 0 && samples_per_thread > 0 && thread_count * samples_per_thread
                > u64::MAX <==> r == Err::<SampleConfig, ConfigError>(ConfigError::TooManySamples),
            r matches Ok(c) ==> c@ == (ConfigView {
                samples_per_thread: samples_per_thread as nat,
                thread_count: thread_count as nat,
                use_fast_distance,
            }),
    {
        if thread_count == 0 {
            return Err(ConfigError::NoThreads);
        }
        if samples_per_thread == 0 {
            return Err(ConfigError::NoSamples);
        }
        match (thread_count as u64).checked_mul(samples_per_thread) {
            None => Err(ConfigError::TooManySamples),
            Some(_) => Ok(SampleConfig { samples_per_thread, thread_count, use_fast_distance }),
        }
    }

    /// Every configuration that exists is valid.
    pub fn is_valid(&self) -> (r: bool)
        ensures
            r,
            config_valid(self@),
    {
        proof {
            use_type_invariant(self);
        }
        true
    }

    pub fn samples_per_thread(&self) -> (r: u64)
        ensures
            r == self@.samples_per_thread,
    {
        self.samples_per_thread
    }

    pub fn thread_count(&self) -> (r: usize)
        ensures
            r == self@.thread_count,
    {
        self.thread_count
    }

    pub fn use_fast_distance(&self) -> (r: bool)
        ensures
            r == self@.use_fast_distance,
    {
        self.use_fast_distance
    }

    /// Samples drawn in one iteration, over all threads.
    pub fn total_samples(&self) -> (r: u64)
        ensures
            r == self@.total_samples(),
    {
        proof {
            use_type_invariant(self);
        }
        (self.thread_count as u64) * self.samples_per_thread
    }
}

/// One thread's share of an iteration: draws the configured number of random
/// points and counts the hits under the configured test.
pub fn run_sampler(config: &SampleConfig) -> (count: u64)
    ensures
        count <= config@.samples_per_thread,
        exists|pts: Seq<Point>|
            pts.len() == config@.samples_per_thread && all_wf(pts) && count == #[trigger] hits(
                pts,
                config@.use_fast_distance,
            ),
{
    let count = sample_in_circle(config.samples_per_thread, config.use_fast_distance);
    let ghost pts = choose|pts: Seq<Point>|
        pts.len() == config.samples_per_thread && all_wf(pts) && count == #[trigger] hits(
            pts,
            config.use_fast_distance,
        );
    assert(count == hits(pts, config@.use_fast_distance));
    count
}

/// Sum of a sequence of counts.
pub open spec fn sum_counts(counts: Seq<u64>) -> nat
    decreases counts.len(),
{
    if counts.len() == 0 {
        0
    } else {
        sum_counts(counts.drop_last()) + counts.last() as nat
    }
}

/// Taking one count out of a sequence takes it out of the sum.
pub proof fn lemma_sum_remove(counts: Seq<u64>, j: int)
    requires
        0 <= j < counts.len(),
    ensures
        sum_counts(counts) == sum_counts(counts.remove(j)) + counts[j],
    decreases counts.len(),
{
    if j < counts.len() - 1 {
        lemma_sum_remove(counts.drop_last(), j);
        assert(counts.remove(j).drop_last() =~= counts.drop_last().remove(j));
    } else {
        assert(counts.remove(j) =~= counts.drop_last());
    }
}

/// The sum of partial counts does not depend on the order in which they were
/// joined: two sequences holding the same counts have the same sum.
pub proof fn lemma_sum_order_independent(a: Seq<u64>, b: Seq<u64>)
    requires
        a.to_multiset() == b.to_multiset(),
    ensures
        sum_counts(a) == sum_counts(b),
    decreases a.len(),
{
    to_multiset_len(a);
    to_multiset_len(b);
    if a.len() > 0 {
        let x = a.last();
        let rest = a.drop_last();
        assert(rest.push(x) =~= a);
        to_multiset_build(rest, x);
        to_multiset_contains(b, x);
        let j = choose|j: int| 0 <= j < b.len() && b[j] == x;
        to_multiset_remove(b, j);
        assert(b.remove(j).to_multiset() =~= rest.to_multiset());
        lemma_sum_order_independent(rest, b.remove(j));
        lemma_sum_remove(b, j);
    }
}

/// Adds up the partial counts of one iteration, one per thread.
pub fn total_in_circle(config: &SampleConfig, partials: &Vec<u64>) -> (total: u64)
    requires
        partials@.len() == config@.thread_count,
        forall|i: int| 0 <= i < partials@.len() ==> #[trigger] partials@[i] <= config@.samples_per_thread,
    ensures
        total == sum_counts(partials@),
        total <= config@.total_samples(),
{
    proof {
        use_type_invariant(config);
    }
    let ghost s = config@.samples_per_thread;
    let mut total: u64 = 0;
    let mut i: usize = 0;
    while i < partials.len()
        invariant
            i <= partials@.len(),
            partials@.len() == config@.thread_count,
            config_valid(config@),
            s == config@.samples_per_thread,
            forall|k: int| 0 <= k < partials@.len() ==> #[trigger] partials@[k] <= s,
            total == sum_counts(partials@.subrange(0, i as int)),
            total <= i * s,
        decreases partials@.len() - i,
    {
        assert(partials@.subrange(0, i + 1).drop_last() =~= partials@.subrange(0, i as int));
        assert((i + 1) * s <= config@.thread_count * s) by (nonlinear_arith)
            requires
                i + 1 <= config@.thread_count,
        ;
        assert((i + 1) * s == i * s + s) by (nonlinear_arith);
        total = total + partials[i];
        i = i + 1;
    }
    assert(partials@.subrange(0, i as int) =~= partials@);
    total
}

/// The mathematical content of a [`PiEstimate`].
pub struct EstimateView {
    pub in_circle: nat,
    pub total_samples: nat,
}

impl EstimateView {
    /// The estimate is `numerator / denominator`.
    pub open spec fn numerator(self) -> nat {
        4 * self.in_circle
    }

    pub open spec fn denominator(self) -> nat {
        self.total_samples
    }
}

/// The estimate of one iteration: `4 * in_circle / total_samples`, held as
/// the two counts so that it is exact.
pub struct PiEstimate {
    in_circle: u64,
    total_samples: u64,
}

impl View for PiEstimate {
    type V = EstimateView;

    closed spec fn view(&self) -> EstimateView {
        EstimateView { in_circle: self.in_circle as nat, total_samples: self.total_samples as nat }
    }
}

impl PiEstimate {
    #[verifier::type_invariant]
    spec fn valid(self) -> bool {
        0 < self.total_samples && self.in_circle <= self.total_samples
    }

    /// Reduces the partial counts of one iteration to its estimate.
    pub fn from_partials(config: &SampleConfig, partials: &Vec<u64>) -> (e: PiEstimate)
        requires
            partials@.len() == config@.thread_count,
            forall|i: int| 0 <= i < partials@.len() ==> #[trigger] partials@[i] <= config@.samples_per_thread,
        ensures
            e@.in_circle == sum_counts(partials@),
            e@.total_samples == config@.total_samples(),
            0 <= e@.numerator() <= 4 * e@.denominator(),
            e@.denominator() > 0,
    {
        proof {
            use_type_invariant(config);
        }
        let in_circle = total_in_circle(config, partials);
        let total_samples = config.total_samples();
        assert(total_samples > 0) by (nonlinear_arith)
            requires
                total_samples == config@.thread_count * config@.samples_per_thread,
                config@.thread_count >= 1,
                config@.samples_per_thread >= 1,
        ;
        PiEstimate { in_circle, total_samples }
    }

    /// Points counted inside the quarter circle, over all threads.
    pub fn in_circle(&self) -> (r: u64)
        ensures
            r == self@.in_circle,
            r <= self@.total_samples,
    {
        proof {
            use_type_invariant(self);
        }
        self.in_circle
    }

    /// Points drawn, over all threads; never zero.
    pub fn total_samples(&self) -> (r: u64)
        ensures
            r == self@.total_samples,
            r > 0,
    {
        proof {
            use_type_invariant(self);
        }
        self.total_samples
    }

    /// Numerator of the estimate: four times the points inside.
    pub fn numerator(&self) -> (r: u128)
        ensures
            r == self@.numerator(),
            r <= 4 * self@.denominator(),
    {
        proof {
            use_type_invariant(self);
        }
        4 * (self.in_circle as u128)
    }

    /// Denominator of the estimate: the points drawn; never zero.
    pub fn denominator(&self) -> (r: u64)
        ensures
            r == self@.denominator(),
            r > 0,
    {
        proof {
            use_type_invariant(self);
        }
        self.total_samples
    }
}

} // verus!
