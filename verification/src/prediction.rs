//! Online per-metric statistics and the ratio-based duration predictor.
//!
//! One [`PredictionValues`] accumulates the running sum, count, minimum and
//! maximum of the (metric value, elapsed time) observations for a single
//! metric kind.  A [`PredictionStructure`] holds one accumulator per
//! [`PredictionAttributes`] kind and combines their projections into a single
//! predicted duration.

use vstd::prelude::*;
use vstd::arithmetic::div_mod::{
    lemma_div_is_ordered, lemma_div_multiples_vanish, lemma_div_nonincreasing,
    lemma_div_pos_is_pos,
};
use vstd::math::abs;

use crate::aliases::Timestamp;

verus! {

/// Largest magnitude of an elapsed-time observation the model accepts
/// (a difference of two commit timestamps, in seconds).
pub const TIME_LIMIT: i64 = 0x800_0000_0000;

/// Largest number of observations the model accepts for one metric kind.
pub const COUNT_LIMIT: u64 = 0x8000_0000_0000;

/// Mathematical state of the running statistics for one metric kind.
pub struct StatsModel {
    pub sum_value: int,
    pub sum_time: int,
    pub count: nat,
    pub min_value: int,
    pub min_time: int,
    pub max_value: int,
    pub max_time: int,
}

impl StatsModel {
    /// The state before any observation: everything is seeded to zero.
    pub open spec fn empty() -> StatsModel {
        StatsModel {
            sum_value: 0,
            sum_time: 0,
            count: 0,
            min_value: 0,
            min_time: 0,
            max_value: 0,
            max_time: 0,
        }
    }

    /// Bounds that every reachable accumulator state satisfies; they keep all
    /// executable arithmetic on the accumulator free of overflow.
    pub open spec fn wf(self) -> bool {
        &&& self.count <= COUNT_LIMIT
        &&& -(self.count * TIME_LIMIT) <= self.sum_time <= self.count * TIME_LIMIT
        &&& -(self.count * 0x1_0000_0000) <= self.sum_value <= self.count * 0x1_0000_0000
        &&& -TIME_LIMIT <= self.min_time <= TIME_LIMIT
        &&& -TIME_LIMIT <= self.max_time <= TIME_LIMIT
    }
}

/// The accumulator state after recording one (value, time) observation.
pub open spec fn spec_insert(m: StatsModel, value: int, time: int) -> StatsModel {
    StatsModel {
        sum_value: m.sum_value + value,
        sum_time: m.sum_time + time,
        count: m.count + 1,
        min_value: if value < m.min_value { value } else { m.min_value },
        min_time: if value < m.min_value { time } else { m.min_time },
        max_value: if value > m.max_value { value } else { m.max_value },
        max_time: if value > m.max_value { time } else { m.max_time },
    }
}

/// Truncating (round-toward-zero) division, the semantics of `/` on the
/// executable signed integer types.
pub open spec fn trunc_div(a: int, b: int) -> int {
    if (a < 0) != (b < 0) {
        -((abs(a) / abs(b)) as int)
    } else {
        (abs(a) / abs(b)) as int
    }
}

/// The unclamped projection for one metric kind: the observed value scaled
/// by the ratio of total trained time to total trained magnitude.
pub open spec fn spec_projection(m: StatsModel, value: int) -> int {
    value * trunc_div(m.sum_time, m.sum_value)
}

/// The projection for one metric kind, clamped into the time range the
/// accumulator has observed.
pub open spec fn spec_predict_one(m: StatsModel, value: int) -> int {
    let p = spec_projection(m, value);
    if p < m.min_time {
        m.min_time
    } else if p > m.max_time {
        m.max_time
    } else {
        p
    }
}

/// The magnitude of a truncating quotient never exceeds the magnitude of the
/// dividend.
pub proof fn lemma_trunc_div_bound(a: int, b: int)
    requires
        b != 0,
    ensures
        -abs(a) <= trunc_div(a, b) <= abs(a),
{
    lemma_div_pos_is_pos(abs(a) as int, abs(b) as int);
    lemma_div_nonincreasing(abs(a) as int, abs(b) as int);
}

/// A truncating mean of values that all lie within `TIME_LIMIT` of zero lies
/// within `TIME_LIMIT` of zero as well.
pub proof fn lemma_trunc_mean_bound(s: int, n: int)
    requires
        1 <= n,
        -(n * TIME_LIMIT) <= s <= n * TIME_LIMIT,
    ensures
        -TIME_LIMIT <= trunc_div(s, n) <= TIME_LIMIT,
{
    lemma_div_pos_is_pos(abs(s) as int, n);
    lemma_div_is_ordered(abs(s) as int, n * TIME_LIMIT, n);
    lemma_div_multiples_vanish(TIME_LIMIT as int, n);
}

/// Truncating signed division, computed as the `/` operator of the
/// executable signed integer types computes it.
fn div_trunc(a: i128, b: i128) -> (r: i128)
    requires
        b != 0,
        i128::MIN < a,
        i128::MIN < b,
    ensures
        r == trunc_div(a as int, b as int),
        -abs(a as int) <= r <= abs(a as int),
{
    proof {
        lemma_trunc_div_bound(a as int, b as int);
    }
    let neg: bool = (a < 0) != (b < 0);
    let ua: u128 = if a < 0 { (-a) as u128 } else { a as u128 };
    let ub: u128 = if b < 0 { (-b) as u128 } else { b as u128 };
    let uq: u128 = ua / ub;
    proof {
        lemma_div_pos_is_pos(ua as int, ub as int);
        lemma_div_nonincreasing(ua as int, ub as int);
    }
    if neg {
        -(uq as i128)
    } else {
        uq as i128
    }
}

/// A struct representing the accumulated observations used for making a
/// prediction for one metric kind.
#[derive(Debug, Clone)]
pub struct PredictionValues {
    sum_value: i128,
    sum_time: i128,
    count: u64,
    min_value: i32,
    min_time: Timestamp,
    max_value: i32,
    max_time: Timestamp,
}

impl View for PredictionValues {
    type V = StatsModel;

    closed spec fn view(&self) -> StatsModel {
        StatsModel {
            sum_value: self.sum_value as int,
            sum_time: self.sum_time as int,
            count: self.count as nat,
            min_value: self.min_value as int,
            min_time: self.min_time as int,
            max_value: self.max_value as int,
            max_time: self.max_time as int,
        }
    }
}

impl Default for PredictionValues {
    /// The accumulator before any observation, seeded to zero throughout.
    fn default() -> (r: Self)
        ensures
            r@ == StatsModel::empty(),
    {
        PredictionValues {
            sum_value: 0,
            sum_time: 0,
            count: 0,
            min_value: 0,
            min_time: 0,
            max_value: 0,
            max_time: 0,
        }
    }
}

impl PredictionValues {
    /// Records one (value, time) observation.  Reports whether this was the
    /// first observation for this accumulator.
    fn observe(&mut self, value: i32, time: Timestamp) -> (r: bool)
        requires
            old(self)@.wf(),
            old(self)@.count < COUNT_LIMIT,
            -TIME_LIMIT <= time <= TIME_LIMIT,
        ensures
            final(self)@ == spec_insert(old(self)@, value as int, time as int),
            final(self)@.wf(),
            r == (old(self)@.count == 0),
    {
        let first: bool = self.count == 0;
        self.count = self.count + 1;
        self.sum_value = self.sum_value + (value as i128);
        self.sum_time = self.sum_time + (time as i128);
        if value < self.min_value {
            self.min_value = value;
            self.min_time = time;
        }
        if value > self.max_value {
            self.max_value = value;
            self.max_time = time;
        }
        first
    }

    /// Makes a prediction for one metric kind from its own accumulated
    /// values: the observed value times the trained time-per-magnitude
    /// ratio, clamped into the observed time range.
    pub fn predict(&self, value: i32) -> (r: Timestamp)
        requires
            self@.wf(),
            self@.sum_value != 0,
        ensures
            r == spec_predict_one(self@, value as int),
            -TIME_LIMIT <= r <= TIME_LIMIT,
    {
        let ratio: i128 = div_trunc(self.sum_time, self.sum_value);
        // The ratio's magnitude is at most the accumulated time, which wf
        // bounds by COUNT_LIMIT * TIME_LIMIT, so scaling it by an i32 stays
        // far inside the i128 range.
        assert(abs(self@.sum_time) <= COUNT_LIMIT * TIME_LIMIT);
        assert((value as int) * (ratio as int) == spec_projection(self@, value as int));
        assert(-0x8000000000000000000000000000000
            <= (value as int) * (ratio as int)
            <= 0x8000000000000000000000000000000) by (nonlinear_arith)
            requires
                -0x100000000 <= value as int <= 0x100000000,
                -0x40000000000000000000000 <= ratio as int <= 0x40000000000000000000000;
        let projection: i128 = (value as i128) * ratio;
        if projection < (self.min_time as i128) {
            self.min_time
        } else if projection > (self.max_time as i128) {
            self.max_time
        } else {
            projection as i64
        }
    }
}

/// Represents some of the values returned from git's diff stats.
#[derive(Eq, Hash, PartialEq, Debug, Clone, Copy, Structural)]
pub enum PredictionAttributes {
    /// The number of files changed in a commit.
    FilesChanged,
    /// The number of lines added in a commit.
    LinesAdded,
    /// The number of lines removed in a commit.
    LinesRemoved,
}

/// Mathematical state of a whole prediction structure: one accumulator state
/// per metric kind.
pub struct PredictionModel {
    pub files_changed: StatsModel,
    pub lines_added: StatsModel,
    pub lines_removed: StatsModel,
}

impl PredictionModel {
    /// The state before any observation.
    pub open spec fn empty() -> PredictionModel {
        PredictionModel {
            files_changed: StatsModel::empty(),
            lines_added: StatsModel::empty(),
            lines_removed: StatsModel::empty(),
        }
    }

    pub open spec fn wf(self) -> bool {
        &&& self.files_changed.wf()
        &&& self.lines_added.wf()
        &&& self.lines_removed.wf()
    }
}

/// The accumulator state a prediction structure keeps for one metric kind.
pub open spec fn stats_for(m: PredictionModel, key: PredictionAttributes) -> StatsModel {
    match key {
        PredictionAttributes::FilesChanged => m.files_changed,
        PredictionAttributes::LinesAdded => m.lines_added,
        PredictionAttributes::LinesRemoved => m.lines_removed,
    }
}

/// The prediction-structure state after recording one observation for `key`.
pub open spec fn model_insert(
    m: PredictionModel,
    key: PredictionAttributes,
    value: int,
    time: int,
) -> PredictionModel {
    match key {
        PredictionAttributes::FilesChanged => PredictionModel {
            files_changed: spec_insert(m.files_changed, value, time),
            lines_added: m.lines_added,
            lines_removed: m.lines_removed,
        },
        PredictionAttributes::LinesAdded => PredictionModel {
            files_changed: m.files_changed,
            lines_added: spec_insert(m.lines_added, value, time),
            lines_removed: m.lines_removed,
        },
        PredictionAttributes::LinesRemoved => PredictionModel {
            files_changed: m.files_changed,
            lines_added: m.lines_added,
            lines_removed: spec_insert(m.lines_removed, value, time),
        },
    }
}

/// Whether an observation for `key` takes part in a prediction: the kind must
/// have been trained, and its summed magnitude must not be zero (a zero sum
/// would make the ratio a division by zero, so such kinds are skipped).
pub open spec fn contributes(m: PredictionModel, key: PredictionAttributes) -> bool {
    stats_for(m, key).count > 0 && stats_for(m, key).sum_value != 0
}

/// The clamped per-kind projections, in order, of the observations in
/// `values` whose kind takes part in the prediction.
pub open spec fn contributions(
    m: PredictionModel,
    values: Seq<(PredictionAttributes, i32)>,
) -> Seq<int>
    decreases values.len(),
{
    if values.len() == 0 {
        Seq::empty()
    } else {
        let rest = contributions(m, values.drop_last());
        let pair = values.last();
        if contributes(m, pair.0) {
            rest.push(spec_predict_one(stats_for(m, pair.0), pair.1 as int))
        } else {
            rest
        }
    }
}

/// The sum of a sequence of integers.
pub open spec fn seq_sum(s: Seq<int>) -> int
    decreases s.len(),
{
    if s.len() == 0 {
        0
    } else {
        seq_sum(s.drop_last()) + s.last()
    }
}

/// What a whole prediction structure predicts for a list of observations:
/// the truncating mean of the contributing kinds' clamped projections, or
/// nothing when no kind contributes.
pub open spec fn spec_predict(
    m: PredictionModel,
    values: Seq<(PredictionAttributes, i32)>,
) -> Option<int> {
    let c = contributions(m, values);
    if c.len() == 0 {
        None
    } else {
        Some(trunc_div(seq_sum(c), c.len() as int))
    }
}

/// Every clamped projection of a well-formed accumulator lies within
/// `TIME_LIMIT` of zero.
pub proof fn lemma_predict_one_bound(m: StatsModel, value: int)
    requires
        m.wf(),
    ensures
        -TIME_LIMIT <= spec_predict_one(m, value) <= TIME_LIMIT,
{
}

/// Every contribution drawn from a well-formed prediction structure lies
/// within `TIME_LIMIT` of zero.
pub proof fn lemma_contributions_bounded(
    m: PredictionModel,
    values: Seq<(PredictionAttributes, i32)>,
)
    requires
        m.wf(),
    ensures
        contributions(m, values).len() <= values.len(),
        forall|j: int| 0 <= j < contributions(m, values).len()
            ==> -TIME_LIMIT <= #[trigger] contributions(m, values)[j] <= TIME_LIMIT,
    decreases values.len(),
{
    if values.len() > 0 {
        lemma_contributions_bounded(m, values.drop_last());
        let pair = values.last();
        if contributes(m, pair.0) {
            lemma_predict_one_bound(stats_for(m, pair.0), pair.1 as int);
        }
    }
}

/// A truncating quotient of `s` by a positive `n` lies between `lo` and `hi`
/// whenever `s` lies between `n * lo` and `n * hi`.
pub proof fn lemma_trunc_div_between(s: int, n: int, lo: int, hi: int)
    requires
        1 <= n,
        n * lo <= s <= n * hi,
    ensures
        lo <= trunc_div(s, n) <= hi,
{
    if s >= 0 {
        assert(trunc_div(s, n) == s / n);
        lemma_div_pos_is_pos(s, n);
        if lo > 0 {
            lemma_div_is_ordered(n * lo, s, n);
            lemma_div_multiples_vanish(lo, n);
        }
        assert(0 <= n * hi) by (nonlinear_arith)
            requires 1 <= n, n * lo <= s <= n * hi, s >= 0;
        assert(hi >= 0) by (nonlinear_arith)
            requires 1 <= n, 0 <= n * hi;
        lemma_div_is_ordered(s, n * hi, n);
        lemma_div_multiples_vanish(hi, n);
    } else {
        assert(trunc_div(s, n) == -((-s) / n));
        lemma_div_pos_is_pos(-s, n);
        assert(n * (-lo) == -(n * lo)) by (nonlinear_arith);
        assert(n * (-hi) == -(n * hi)) by (nonlinear_arith);
        lemma_div_is_ordered(-s, n * (-lo), n);
        lemma_div_multiples_vanish(-lo, n);
        if hi < 0 {
            lemma_div_is_ordered(n * (-hi), -s, n);
            lemma_div_multiples_vanish(-hi, n);
        }
    }
}

/// The sum of a sequence whose members all lie between `lo` and `hi` lies
/// between `len * lo` and `len * hi`.
pub proof fn lemma_seq_sum_between(s: Seq<int>, lo: int, hi: int)
    requires
        forall|j: int| 0 <= j < s.len() ==> lo <= #[trigger] s[j] <= hi,
    ensures
        s.len() * lo <= seq_sum(s) <= s.len() * hi,
    decreases s.len(),
{
    if s.len() == 0 {
        assert(s.len() * lo == 0) by (nonlinear_arith)
            requires s.len() == 0;
        assert(s.len() * hi == 0) by (nonlinear_arith)
            requires s.len() == 0;
    } else {
        lemma_seq_sum_between(s.drop_last(), lo, hi);
        assert(s.len() * lo == s.drop_last().len() * lo + lo) by (nonlinear_arith)
            requires s.len() >= 1, s.drop_last().len() == s.len() - 1;
        assert(s.len() * hi == s.drop_last().len() * hi + hi) by (nonlinear_arith)
            requires s.len() >= 1, s.drop_last().len() == s.len() - 1;
    }
}

/// Law: a projection produced for a metric kind whose observed time range is
/// ordered lies within that range, whatever the observed metric value is.
pub proof fn lemma_prediction_clamped(m: StatsModel, value: int)
    requires
        m.min_time <= m.max_time,
    ensures
        m.min_time <= spec_predict_one(m, value) <= m.max_time,
{
}

/// Law: when a prediction is produced at all, it lies between any common
/// lower and upper bound of the contributing kinds' clamped projections.
pub proof fn lemma_prediction_in_range(
    m: PredictionModel,
    values: Seq<(PredictionAttributes, i32)>,
    lo: int,
    hi: int,
)
    requires
        contributions(m, values).len() > 0,
        forall|j: int| 0 <= j < contributions(m, values).len()
            ==> lo <= #[trigger] contributions(m, values)[j] <= hi,
    ensures
        spec_predict(m, values) matches Some(p) && lo <= p <= hi,
{
    let c = contributions(m, values);
    lemma_seq_sum_between(c, lo, hi);
    lemma_trunc_div_between(seq_sum(c), c.len() as int, lo, hi);
}

/// Law: recording an observation leaves its kind with a nonzero count, so
/// the first insert for a kind reports a fresh entry and every later insert
/// for the same kind reports an existing one.
pub proof fn lemma_insert_polarity(
    m: PredictionModel,
    key: PredictionAttributes,
    value: int,
    time: int,
)
    ensures
        stats_for(model_insert(m, key, value, time), key).count != 0,
        forall|other: PredictionAttributes| other != key
            ==> stats_for(model_insert(m, key, value, time), other)
                == stats_for(m, other),
{
}

/// The struct holding data to be used in predictions: one accumulator per
/// metric kind, each seeded to zero and trained independently.
#[derive(Debug, Clone)]
pub struct PredictionStructure {
    files_changed: PredictionValues,
    lines_added: PredictionValues,
    lines_removed: PredictionValues,
}

impl View for PredictionStructure {
    type V = PredictionModel;

    closed spec fn view(&self) -> PredictionModel {
        PredictionModel {
            files_changed: self.files_changed@,
            lines_added: self.lines_added@,
            lines_removed: self.lines_removed@,
        }
    }
}

impl PredictionStructure {
    /// Creates a new `PredictionStructure` with no observations recorded.
    pub fn new() -> (r: Self)
        ensures
            r@ == PredictionModel::empty(),
            r@.wf(),
    {
        PredictionStructure {
            files_changed: PredictionValues::default(),
            lines_added: PredictionValues::default(),
            lines_removed: PredictionValues::default(),
        }
    }

    /// Records one observation for `key`: `value` is the magnitude of the
    /// metric and `time` the elapsed time of the transition it came from.
    /// Returns `true` if this was the first observation for `key`, and
    /// `false` if an existing accumulator was updated.
    pub fn insert_item(&mut self, key: PredictionAttributes, value: i32, time: Timestamp) -> (r: bool)
        requires
            old(self)@.wf(),
            stats_for(old(self)@, key).count < COUNT_LIMIT,
            -TIME_LIMIT <= time <= TIME_LIMIT,
        ensures
            final(self)@.wf(),
            final(self)@ == model_insert(old(self)@, key, value as int, time as int),
            r == (stats_for(old(self)@, key).count == 0),
    {
        match key {
            PredictionAttributes::FilesChanged => self.files_changed.observe(value, time),
            PredictionAttributes::LinesAdded => self.lines_added.observe(value, time),
            PredictionAttributes::LinesRemoved => self.lines_removed.observe(value, time),
        }
    }

    /// Makes a prediction from all the observations recorded so far: the
    /// truncating mean of the contributing kinds' clamped projections.
    /// Returns `None` when no listed kind has usable training data.
    pub fn predict(&self, values: &Vec<(PredictionAttributes, i32)>) -> (r: Option<Timestamp>)
        requires
            self@.wf(),
        ensures
            (r is Some) == (spec_predict(self@, values@) is Some),
            r matches Some(t) ==> spec_predict(self@, values@) == Some(t as int),
            r matches Some(t) ==> -TIME_LIMIT <= t <= TIME_LIMIT,
    {
        let ghost m = self@;
        let mut results: Vec<Timestamp> = Vec::new();
        let mut idx: usize = 0;
        while idx < values.len()
            invariant
                self@ == m,
                m.wf(),
                idx <= values@.len(),
                results@.len() == contributions(m, values@.take(idx as int)).len(),
                forall|j: int| 0 <= j < results@.len()
                    ==> results@[j] as int == contributions(m, values@.take(idx as int))[j],
            decreases values@.len() - idx,
        {
            let (key, value) = values[idx];
            proof {
                assert(values@.take(idx as int + 1).drop_last() =~= values@.take(idx as int));
                assert(values@.take(idx as int + 1).last() == values@[idx as int]);
            }
            let stats: &PredictionValues = match key {
                PredictionAttributes::FilesChanged => &self.files_changed,
                PredictionAttributes::LinesAdded => &self.lines_added,
                PredictionAttributes::LinesRemoved => &self.lines_removed,
            };
            assert(stats@ == stats_for(m, key));
            if stats.count > 0 && stats.sum_value != 0 {
                results.push(stats.predict(value));
            }
            idx = idx + 1;
        }
        proof {
            assert(values@.take(values@.len() as int) =~= values@);
        }
        let ghost c = contributions(m, values@);
        if results.len() == 0 {
            return None;
        }
        proof {
            lemma_contributions_bounded(m, values@);
        }
        let mut total: i128 = 0;
        let mut j: usize = 0;
        while j < results.len()
            invariant
                results@.len() == c.len(),
                forall|k: int| 0 <= k < c.len() ==> results@[k] as int == c[k],
                forall|k: int| 0 <= k < c.len() ==> -TIME_LIMIT <= #[trigger] c[k] <= TIME_LIMIT,
                j <= results@.len(),
                total as int == seq_sum(c.take(j as int)),
                -((j as int) * TIME_LIMIT) <= total as int <= (j as int) * TIME_LIMIT,
            decreases results@.len() - j,
        {
            proof {
                assert(c.take(j as int + 1).drop_last() =~= c.take(j as int));
                assert(c.take(j as int + 1).last() == c[j as int]);
            }
            total = total + (results[j] as i128);
            j = j + 1;
        }
        proof {
            assert(c.take(c.len() as int) =~= c);
            lemma_trunc_mean_bound(seq_sum(c), c.len() as int);
        }
        let mean: i128 = div_trunc(total, results.len() as i128);
        Some(mean as i64)
    }
}

} // verus!
