//! EWMA rate estimator: smoothed rate of free-space consumption with a
//! confidence and a predicted time to a danger threshold.
//!
//! Rates are bytes per second, positive while the disk fills; smoothing
//! factors and confidence are permille.

use vstd::prelude::*;
use crate::pid::{clamp, tdiv};

verus! {

/// Largest magnitude of a rate the estimator tracks (2^61 bytes/s).
pub const RATE_LIMIT: i64 = 0x2000_0000_0000_0000;

/// Samples needed before confidence can be non-zero.
pub const MIN_SAMPLES: u32 = 3;

/// A rate estimate.
#[derive(Debug, Clone, Copy, PartialEq, Eq, Structural)]
pub struct RateEstimate {
    pub bytes_per_sec: i64,
    pub confidence: u32,
    pub sample_count: u32,
    pub time_to_threshold_secs: Option<u64>,
}

/// Estimator state.
#[derive(Debug, Clone, Copy, PartialEq, Eq, Structural)]
pub struct DiskRateEstimator {
    /// Primary smoothing factor.
    pub alpha: u32,
    /// Slower smoothing factor of the deviation estimate (below `alpha`).
    pub beta: u32,
    /// Confidence needed before a time to threshold is predicted.
    pub min_confidence: u32,
    /// Danger level, basis points of capacity left free.
    pub threshold_free_bp: u32,
    pub last_free: u64,
    pub last_time_ms: u64,
    pub sample_count: u32,
    pub rate: i64,
    pub deviation: i64,
    pub last: RateEstimate,
}

pub open spec fn abs_int(x: int) -> int {
    if x < 0 { -x } else { x }
}

/// Confidence (permille): grows with the number of samples (full at ten)
/// and with the rate's stability (rate magnitude against its deviation);
/// zero below three samples.
pub open spec fn confidence_of(count: int, rate: int, deviation: int) -> int {
    if count < MIN_SAMPLES {
        0
    } else {
        let samples = if count >= 10 { 1000 } else { count * 100 };
        let stability = if abs_int(rate) + deviation == 0 {
            0
        } else {
            (abs_int(rate) * 1000) / (abs_int(rate) + deviation)
        };
        (samples * stability) / 1000
    }
}

/// Seconds until free space falls to the threshold, when filling at `rate`
/// with enough confidence.
pub open spec fn tte_of(
    rate: int,
    confidence: int,
    min_confidence: int,
    free: int,
    threshold_bytes: int,
) -> Option<u64> {
    if rate > 0 && confidence >= min_confidence {
        if free <= threshold_bytes {
            Some(0)
        } else {
            Some(((free - threshold_bytes) / rate) as u64)
        }
    } else {
        None
    }
}

impl DiskRateEstimator {
    pub open spec fn wf(&self) -> bool {
        &&& self.beta < self.alpha <= 1000
        &&& self.threshold_free_bp <= 10000
        &&& -RATE_LIMIT <= self.rate <= RATE_LIMIT
        &&& 0 <= self.deviation <= 2 * RATE_LIMIT
        &&& self.last.sample_count == self.sample_count
    }

    /// Instantaneous rate between the last sample and a new one, clamped.
    pub open spec fn instant_rate(&self, free: u64, now_ms: u64) -> int {
        clamp(
            tdiv((self.last_free as int - free as int) * 1000, now_ms - self.last_time_ms),
            -RATE_LIMIT as int,
            RATE_LIMIT as int,
        )
    }

    /// The state after a sample taken strictly after the previous one.
    pub open spec fn advance(&self, free: u64, now_ms: u64, total: u64) -> Self {
        let inst = self.instant_rate(free, now_ms);
        let count = if self.sample_count == u32::MAX { u32::MAX } else { (self.sample_count + 1) as u32 };
        let rate = if self.sample_count <= 1 {
            inst
        } else {
            self.rate + tdiv(self.alpha * (inst - self.rate), 1000)
        };
        let dev = self.deviation + tdiv(self.beta * (abs_int(inst - rate) - self.deviation), 1000);
        let conf = confidence_of(count as int, rate, dev);
        let threshold = (total as int * self.threshold_free_bp) / 10000;
        DiskRateEstimator {
            last_free: free,
            last_time_ms: now_ms,
            sample_count: count,
            rate: rate as i64,
            deviation: dev as i64,
            last: RateEstimate {
                bytes_per_sec: rate as i64,
                confidence: conf as u32,
                sample_count: count,
                time_to_threshold_secs: tte_of(rate, conf, self.min_confidence as int, free as int, threshold),
            },
            ..*self
        }
    }

    /// A fresh estimator.
    pub fn new(alpha: u32, beta: u32, min_confidence: u32, threshold_free_bp: u32) -> (r: Self)
        requires
            beta < alpha <= 1000,
            threshold_free_bp <= 10000,
        ensures
            r.wf(),
            r.sample_count == 0,
            r.alpha == alpha && r.beta == beta,
            r.min_confidence == min_confidence,
            r.threshold_free_bp == threshold_free_bp,
    {
        let zero = RateEstimate { bytes_per_sec: 0, confidence: 0, sample_count: 0, time_to_threshold_secs: None };
        DiskRateEstimator {
            alpha,
            beta,
            min_confidence,
            threshold_free_bp,
            last_free: 0,
            last_time_ms: 0,
            sample_count: 0,
            rate: 0,
            deviation: 0,
            last: zero,
        }
    }
}

fn tdiv128(a: i128, b: i128) -> (r: i128)
    requires
        b > 0,
        -0x1000_0000_0000_0000_0000_0000 < a < 0x1000_0000_0000_0000_0000_0000,
    ensures
        r as int == tdiv(a as int, b as int),
        a >= 0 ==> 0 <= r <= a,
        a < 0 ==> a <= r <= 0,
{
    if a >= 0 {
        proof {
            vstd::arithmetic::div_mod::lemma_div_is_ordered_by_denominator(a as int, 1, b as int);
        }
        a / b
    } else {
        proof {
            vstd::arithmetic::div_mod::lemma_div_is_ordered_by_denominator(-a as int, 1, b as int);
            vstd::arithmetic::div_mod::lemma_div_pos_is_pos(-a as int, b as int);
        }
        -((-a) / b)
    }
}

/// Moving `x` toward `target` by `w` permille stays between the two.
proof fn lemma_blend_between(x: int, target: int, w: int)
    requires
        0 <= w <= 1000,
    ensures
        x <= target ==> x <= x + tdiv(w * (target - x), 1000) <= target,
        target <= x ==> target <= x + tdiv(w * (target - x), 1000) <= x,
{
    let d = target - x;
    if d >= 0 {
        assert(w * d <= 1000 * d) by (nonlinear_arith) requires w <= 1000, d >= 0;
        assert(0 <= w * d) by (nonlinear_arith) requires w >= 0, d >= 0;
        vstd::arithmetic::div_mod::lemma_div_is_ordered(w * d, 1000 * d, 1000);
        vstd::arithmetic::div_mod::lemma_div_multiples_vanish(d, 1000);
        vstd::arithmetic::div_mod::lemma_div_pos_is_pos(w * d, 1000);
        assert(1000 * d == d * 1000) by (nonlinear_arith);
    } else {
        let e = -d;
        assert(w * d == -(w * e)) by (nonlinear_arith) requires e == -d;
        assert(w * e <= 1000 * e) by (nonlinear_arith) requires w <= 1000, e >= 0;
        assert(0 <= w * e) by (nonlinear_arith) requires w >= 0, e >= 0;
        vstd::arithmetic::div_mod::lemma_div_is_ordered(w * e, 1000 * e, 1000);
        vstd::arithmetic::div_mod::lemma_div_multiples_vanish(e, 1000);
        vstd::arithmetic::div_mod::lemma_div_pos_is_pos(w * e, 1000);
        assert(1000 * e == e * 1000) by (nonlinear_arith);
        if w * e == 0 {
            assert(tdiv(w * d, 1000) == 0);
        }
    }
}

fn confidence_exec(count: u32, rate: i64, deviation: i64) -> (r: u32)
    requires
        0 <= deviation,
        -RATE_LIMIT <= rate <= RATE_LIMIT,
        deviation <= 2 * RATE_LIMIT,
    ensures
        r as int == confidence_of(count as int, rate as int, deviation as int),
        r <= 1000,
{
    if count < MIN_SAMPLES {
        return 0;
    }
    let samples: u128 = if count >= 10 { 1000 } else { count as u128 * 100 };
    let a: u128 = if rate < 0 { (-(rate as i128)) as u128 } else { rate as u128 };
    let denom: u128 = a + deviation as u128;
    let stability: u128 = if denom == 0 {
        0
    } else {
        proof {
            assert(a * 1000 <= denom * 1000) by (nonlinear_arith) requires a <= denom;
            vstd::arithmetic::div_mod::lemma_div_is_ordered(a * 1000, denom * 1000, denom as int);
            vstd::arithmetic::div_mod::lemma_div_multiples_vanish(1000, denom as int);
            assert(1000 * denom == denom * 1000) by (nonlinear_arith);
        }
        (a * 1000) / denom
    };
    proof {
        assert(samples * stability <= 1000 * 1000) by (nonlinear_arith)
            requires samples <= 1000, stability <= 1000;
        vstd::arithmetic::div_mod::lemma_div_is_ordered(samples * stability, 1_000_000, 1000);
    }
    ((samples * stability) / 1000) as u32
}

impl DiskRateEstimator {
    /// Feeds a sample of free space at `observed_at_ms`. The first sample
    /// only records a baseline; a sample not later than the previous one
    /// leaves the state unchanged and returns the previous estimate.
    pub fn update(&mut self, free_bytes: u64, observed_at_ms: u64, total_bytes: u64) -> (r: RateEstimate)
        requires
            old(self).wf(),
        ensures
            final(self).wf(),
            r == final(self).last,
            old(self).sample_count == 0 ==> *final(self) == (DiskRateEstimator {
                last_free: free_bytes,
                last_time_ms: observed_at_ms,
                sample_count: 1,
                last: RateEstimate { bytes_per_sec: 0, confidence: 0, sample_count: 1, time_to_threshold_secs: None },
                ..*old(self)
            }),
            old(self).sample_count > 0 && observed_at_ms <= old(self).last_time_ms ==> *final(self) == *old(self),
            old(self).sample_count > 0 && observed_at_ms > old(self).last_time_ms
                ==> *final(self) == old(self).advance(free_bytes, observed_at_ms, total_bytes),
    {
        if self.sample_count == 0 {
            self.last_free = free_bytes;
            self.last_time_ms = observed_at_ms;
            self.sample_count = 1;
            self.last = RateEstimate { bytes_per_sec: 0, confidence: 0, sample_count: 1, time_to_threshold_secs: None };
            return self.last;
        }
        if observed_at_ms <= self.last_time_ms {
            return self.last;
        }
        let ghost s0 = *self;
        let dt: i128 = (observed_at_ms - self.last_time_ms) as i128;
        let delta: i128 = (self.last_free as i128 - free_bytes as i128) * 1000;
        let q = tdiv128(delta, dt);
        let lim = RATE_LIMIT as i128;
        let inst: i128 = if q < -lim { -lim } else if q > lim { lim } else { q };
        assert(inst as int == s0.instant_rate(free_bytes, observed_at_ms));
        let count: u32 = if self.sample_count == u32::MAX { u32::MAX } else { self.sample_count + 1 };
        let rate: i128 = if self.sample_count <= 1 {
            inst
        } else {
            proof {
                lemma_blend_between(self.rate as int, inst as int, self.alpha as int);
                assert(-(1000 * 0x4000_0000_0000_0000) <= self.alpha as int * (inst - self.rate) <= 1000 * 0x4000_0000_0000_0000)
                    by (nonlinear_arith)
                    requires self.alpha <= 1000, -0x4000_0000_0000_0000 <= inst - self.rate <= 0x4000_0000_0000_0000;
            }
            self.rate as i128 + tdiv128(self.alpha as i128 * (inst - self.rate as i128), 1000)
        };
        let diff: i128 = if inst >= rate { inst - rate } else { rate - inst };
        proof {
            lemma_blend_between(self.deviation as int, diff as int, self.beta as int);
            assert(-(1000 * 0x4000_0000_0000_0000) <= self.beta as int * (diff - self.deviation) <= 1000 * 0x4000_0000_0000_0000)
                by (nonlinear_arith)
                requires self.beta <= 1000, -0x4000_0000_0000_0000 <= diff - self.deviation <= 0x4000_0000_0000_0000;
        }
        let dev: i128 = self.deviation as i128 + tdiv128(self.beta as i128 * (diff - self.deviation as i128), 1000);
        let conf = confidence_exec(count, rate as i64, dev as i64);
        proof {
            assert(total_bytes as int * self.threshold_free_bp as int <= u64::MAX as int * 10000) by (nonlinear_arith)
                requires self.threshold_free_bp <= 10000;
        }
        let threshold: u128 = (total_bytes as u128 * self.threshold_free_bp as u128) / 10000;
        let tte: Option<u64> = if rate > 0 && conf >= self.min_confidence {
            if free_bytes as u128 <= threshold {
                Some(0)
            } else {
                proof {
                    vstd::arithmetic::div_mod::lemma_div_is_ordered_by_denominator((free_bytes - threshold) as int, 1, rate as int);
                }
                Some(((free_bytes as u128 - threshold) / rate as u128) as u64)
            }
        } else {
            None
        };
        self.last_free = free_bytes;
        self.last_time_ms = observed_at_ms;
        self.sample_count = count;
        self.rate = rate as i64;
        self.deviation = dev as i64;
        self.last = RateEstimate {
            bytes_per_sec: rate as i64,
            confidence: conf,
            sample_count: count,
            time_to_threshold_secs: tte,
        };
        self.last
    }
}

/// Time to threshold is predicted only while the disk fills and the
/// estimate is confident enough; below three samples confidence is zero.
pub proof fn lemma_tte_requires_filling_and_confidence(
    est: DiskRateEstimator,
    free: u64,
    now_ms: u64,
    total: u64,
)
    requires
        est.wf(),
    ensures
        ({
            let r = est.advance(free, now_ms, total).last;
            &&& r.time_to_threshold_secs is Some ==> r.bytes_per_sec > 0 && r.confidence >= est.min_confidence
            &&& r.sample_count < MIN_SAMPLES ==> r.confidence == 0
        }),
{
    let a = est.advance(free, now_ms, total);
    let inst = est.instant_rate(free, now_ms);
    let rate = if est.sample_count <= 1 { inst } else { est.rate + tdiv(est.alpha * (inst - est.rate), 1000) };
    if est.sample_count > 1 {
        lemma_blend_between(est.rate as int, inst, est.alpha as int);
    }
    let dev = est.deviation + tdiv(est.beta * (abs_int(inst - rate) - est.deviation), 1000);
    lemma_blend_between(est.deviation as int, abs_int(inst - rate), est.beta as int);
    let count = a.sample_count;
    if count >= MIN_SAMPLES {
        let ar = abs_int(rate);
        if ar + dev != 0 {
            assert(ar * 1000 <= (ar + dev) * 1000) by (nonlinear_arith) requires dev >= 0;
            vstd::arithmetic::div_mod::lemma_div_is_ordered(ar * 1000, (ar + dev) * 1000, ar + dev);
            vstd::arithmetic::div_mod::lemma_div_multiples_vanish(1000, ar + dev);
            assert(1000 * (ar + dev) == (ar + dev) * 1000) by (nonlinear_arith);
            vstd::arithmetic::div_mod::lemma_div_pos_is_pos(ar * 1000, ar + dev);
        }
        let samples = if count >= 10 { 1000 } else { count * 100 };
        let st = if ar + dev == 0 { 0 } else { (ar * 1000) / (ar + dev) };
        assert(0 <= samples * st <= 1000 * 1000) by (nonlinear_arith)
            requires 0 <= samples <= 1000, 0 <= st <= 1000;
        vstd::arithmetic::div_mod::lemma_div_is_ordered(samples * st, 1_000_000, 1000);
        vstd::arithmetic::div_mod::lemma_div_pos_is_pos(samples * st, 1000);
    }
}

} // verus!
