//! PID-style pressure controller: turns filesystem readings into a discrete
//! pressure level (with hysteresis on recovery) and a continuous urgency.
//!
//! Fractions are basis points (10000 = 100% free); urgency is in permille
//! (1000 = fully urgent); gains are in thousandths.

use vstd::prelude::*;

verus! {

/// Discrete pressure bands, from least to most severe.
#[derive(Debug, Clone, Copy, PartialEq, Eq, Structural, PartialOrd, Ord, Hash)]
pub enum PressureLevel {
    Green,
    Yellow,
    Orange,
    Red,
    Critical,
}

impl PressureLevel {
    /// Severity rank: Green is 0, Critical is 4.
    pub open spec fn rank(self) -> int {
        match self {
            PressureLevel::Green => 0,
            PressureLevel::Yellow => 1,
            PressureLevel::Orange => 2,
            PressureLevel::Red => 3,
            PressureLevel::Critical => 4,
        }
    }

    /// Executable severity rank.
    pub fn severity(self) -> (r: u8)
        ensures
            r as int == self.rank(),
    {
        match self {
            PressureLevel::Green => 0,
            PressureLevel::Yellow => 1,
            PressureLevel::Orange => 2,
            PressureLevel::Red => 3,
            PressureLevel::Critical => 4,
        }
    }
}

/// The most severe level of a sequence (Green when it is empty).
pub open spec fn worst_level(levels: Seq<PressureLevel>) -> PressureLevel
    decreases levels.len(),
{
    if levels.len() == 0 {
        PressureLevel::Green
    } else {
        let w = worst_level(levels.drop_last());
        if levels.last().rank() > w.rank() { levels.last() } else { w }
    }
}

/// Overall pressure across mounts: the most severe of their levels.
pub fn overall_level(levels: &Vec<PressureLevel>) -> (r: PressureLevel)
    ensures
        r == worst_level(levels@),
        forall|i: int| 0 <= i < levels@.len() ==> (#[trigger] levels@[i]).rank() <= r.rank(),
{
    let mut w = PressureLevel::Green;
    let mut i: usize = 0;
    while i < levels.len()
        invariant
            i <= levels@.len(),
            w == worst_level(levels@.subrange(0, i as int)),
            forall|k: int| 0 <= k < i ==> (#[trigger] levels@[k]).rank() <= w.rank(),
        decreases levels.len() - i,
    {
        proof {
            assert(levels@.subrange(0, i as int + 1).drop_last() =~= levels@.subrange(0, i as int));
        }
        if levels[i].severity() > w.severity() {
            w = levels[i];
        }
        i = i + 1;
    }
    proof {
        assert(levels@.subrange(0, levels@.len() as int) =~= levels@);
    }
    w
}

/// An immutable filesystem capacity snapshot.
#[derive(Debug, Clone, PartialEq, Eq)]
pub struct PressureReading {
    pub free_bytes: u64,
    pub total_bytes: u64,
    pub mount: String,
    /// Observation time in milliseconds of a monotonic clock.
    pub observed_at_ms: u64,
}

impl PressureReading {
    /// A reading describes a real filesystem: some capacity, no more free than total.
    pub open spec fn wf(&self) -> bool {
        0 < self.total_bytes && self.free_bytes <= self.total_bytes
    }

    /// Free fraction in basis points, rounded down.
    pub open spec fn free_bp_spec(&self) -> int {
        (self.free_bytes as int * 10000) / self.total_bytes as int
    }

    /// Free fraction in basis points, rounded down.
    pub fn free_bp(&self) -> (r: u32)
        requires
            self.wf(),
        ensures
            r as int == self.free_bp_spec(),
            r <= 10000,
    {
        let num: u128 = self.free_bytes as u128 * 10000;
        let q: u128 = num / self.total_bytes as u128;
        proof {
            assert(self.free_bytes as int * 10000 <= self.total_bytes as int * 10000)
                by (nonlinear_arith)
                requires self.free_bytes <= self.total_bytes;
            vstd::arithmetic::div_mod::lemma_div_is_ordered(
                self.free_bytes as int * 10000,
                self.total_bytes as int * 10000,
                self.total_bytes as int,
            );
            vstd::arithmetic::div_mod::lemma_div_multiples_vanish(10000, self.total_bytes as int);
            assert(self.total_bytes as int * 10000 == 10000 * self.total_bytes as int)
                by (nonlinear_arith);
        }
        q as u32
    }
}

/// Controller tuning and level thresholds.
#[derive(Debug, Clone, Copy, PartialEq, Eq)]
pub struct PidConfig {
    /// Proportional gain, thousandths.
    pub kp: u32,
    /// Integral gain, thousandths (per second of accumulated error).
    pub ki: u32,
    /// Derivative gain, thousandths (per basis point per second).
    pub kd: u32,
    /// Error (basis points) at which the weighted sum reaches full urgency.
    pub scale_bp: u32,
    pub target_free_bp: u32,
    pub hysteresis_bp: u32,
    pub green_min_bp: u32,
    pub yellow_min_bp: u32,
    pub orange_min_bp: u32,
    pub red_min_bp: u32,
    /// Elapsed time at or below which the derivative term is suppressed.
    pub min_dt_ms: u64,
    /// A time-to-threshold at or below this many seconds is imminent.
    pub imminent_tte_secs: u64,
    /// Lowest urgency (permille) reported while exhaustion is imminent.
    pub imminent_floor: u32,
}

/// Longest gap (one day) that a single reading integrates over.
pub const MAX_INTEGRATION_MS: u64 = 86_400_000;

pub open spec fn min_int(a: int, b: int) -> int {
    if a <= b { a } else { b }
}

/// Largest accepted gain (1000x).
pub const MAX_GAIN: u32 = 1_000_000;

impl PidConfig {
    pub open spec fn wf(&self) -> bool {
        &&& self.kp <= MAX_GAIN && self.ki <= MAX_GAIN && self.kd <= MAX_GAIN
        &&& 0 < self.scale_bp <= 10000
        &&& self.target_free_bp <= 10000
        &&& self.hysteresis_bp <= 10000
        &&& self.red_min_bp <= self.orange_min_bp
        &&& self.orange_min_bp <= self.yellow_min_bp
        &&& self.yellow_min_bp <= self.green_min_bp
        &&& self.green_min_bp <= 10000
        &&& self.imminent_floor <= 1000
    }

    /// Level of a free fraction against thresholds raised by `margin`.
    pub open spec fn level_with_margin(&self, free_bp: int, margin: int) -> PressureLevel {
        if free_bp >= self.green_min_bp + margin {
            PressureLevel::Green
        } else if free_bp >= self.yellow_min_bp + margin {
            PressureLevel::Yellow
        } else if free_bp >= self.orange_min_bp + margin {
            PressureLevel::Orange
        } else if free_bp >= self.red_min_bp + margin {
            PressureLevel::Red
        } else {
            PressureLevel::Critical
        }
    }

    /// Hysteresis rule: a more severe level takes effect at once; leaving
    /// the current level for a milder one requires clearing the threshold by
    /// the hysteresis band.
    pub open spec fn next_level(&self, current: PressureLevel, free_bp: int) -> PressureLevel {
        let raw = self.level_with_margin(free_bp, 0);
        if raw.rank() >= current.rank() {
            raw
        } else {
            let relaxed = self.level_with_margin(free_bp, self.hysteresis_bp as int);
            if relaxed.rank() < current.rank() {
                relaxed
            } else {
                current
            }
        }
    }

    /// Cap on the accumulated error so that the integral term alone stays
    /// within full scale (`scale / ki`).
    pub open spec fn integral_cap(&self) -> int {
        if self.ki == 0 {
            0
        } else {
            (self.scale_bp as int * 1000) / self.ki as int
        }
    }

    fn level_with_margin_exec(&self, free_bp: u32, margin: u32) -> (r: PressureLevel)
        ensures
            r == self.level_with_margin(free_bp as int, margin as int),
    {
        let f = free_bp as u64;
        let m = margin as u64;
        if f >= self.green_min_bp as u64 + m {
            PressureLevel::Green
        } else if f >= self.yellow_min_bp as u64 + m {
            PressureLevel::Yellow
        } else if f >= self.orange_min_bp as u64 + m {
            PressureLevel::Orange
        } else if f >= self.red_min_bp as u64 + m {
            PressureLevel::Red
        } else {
            PressureLevel::Critical
        }
    }

    /// Applies the hysteresis rule to a new free fraction.
    pub fn select_level(&self, current: PressureLevel, free_bp: u32) -> (r: PressureLevel)
        ensures
            r == self.next_level(current, free_bp as int),
    {
        let raw = self.level_with_margin_exec(free_bp, 0);
        if raw.severity() >= current.severity() {
            raw
        } else {
            let relaxed = self.level_with_margin_exec(free_bp, self.hysteresis_bp);
            if relaxed.severity() < current.severity() {
                relaxed
            } else {
                current
            }
        }
    }
}

/// Truncating signed division (rounds toward zero), as integer hardware does.
pub open spec fn tdiv(a: int, b: int) -> int {
    if a >= 0 {
        a / b
    } else {
        -((-a) / b)
    }
}

pub open spec fn clamp(x: int, lo: int, hi: int) -> int {
    if x < lo {
        lo
    } else if x > hi {
        hi
    } else {
        x
    }
}

/// Urgency (permille) of a weighted error sum: `sum / scale`, clipped to [0, 1000].
pub open spec fn urgency_of(sum: int, scale: int) -> int {
    if sum <= 0 {
        0
    } else {
        clamp(sum / scale, 0, 1000)
    }
}

fn tdiv_exec(a: i128, b: i128) -> (r: i128)
    requires
        b > 0,
        -0x1000_0000_0000_0000_0000_0000 < a < 0x1000_0000_0000_0000_0000_0000,
    ensures
        r as int == tdiv(a as int, b as int),
        a >= 0 ==> 0 <= r <= a,
        a < 0 ==> a <= r <= 0,
{
    if a >= 0 {
        proof {
            vstd::arithmetic::div_mod::lemma_div_is_ordered_by_denominator(a as int, 1, b as int);
        }
        a / b
    } else {
        proof {
            vstd::arithmetic::div_mod::lemma_div_is_ordered_by_denominator(-a as int, 1, b as int);
            vstd::arithmetic::div_mod::lemma_div_pos_is_pos(-a as int, b as int);
        }
        -((-a) / b)
    }
}

/// The controller's output for one reading.
#[derive(Debug, Clone, Copy, PartialEq, Eq)]
pub struct PidOutput {
    pub level: PressureLevel,
    /// Urgency in permille.
    pub urgency: u32,
    /// Integral contribution, permille of full scale (signed).
    pub integral_term: i64,
    /// Derivative contribution, permille of full scale (signed).
    pub derivative_term: i64,
}

/// Controller state carried from tick to tick.
#[derive(Debug, Clone, Copy, PartialEq, Eq)]
pub struct PidPressureController {
    pub config: PidConfig,
    /// Accumulated error, basis-point seconds.
    pub integral: i64,
    pub last_error: i64,
    pub last_time_ms: u64,
    pub has_previous: bool,
    /// Error slope of the previous tick, basis points per second.
    pub last_derivative: i64,
    pub level: PressureLevel,
}

/// Result of one controller step, as a value.
pub struct PidStep {
    pub integral: int,
    pub derivative: int,
    pub error: int,
    pub urgency: int,
    pub level: PressureLevel,
}

impl PidPressureController {
    pub open spec fn wf(&self) -> bool {
        &&& self.config.wf()
        &&& -self.config.integral_cap() <= self.integral <= self.config.integral_cap()
        &&& -10000 <= self.last_error <= 10000
        &&& -20_000_000 <= self.last_derivative <= 20_000_000
    }

    /// Milliseconds since the previous reading; zero on the first reading or
    /// when the clock did not advance.
    pub open spec fn elapsed_ms(&self, now_ms: u64) -> int {
        if self.has_previous && now_ms > self.last_time_ms {
            now_ms - self.last_time_ms
        } else {
            0
        }
    }

    /// What one update does, stated over integers.
    pub open spec fn step(&self, free_bp: int, tte_secs: Option<u64>, now_ms: u64) -> PidStep {
        let c = self.config;
        let e = c.target_free_bp as int - free_bp;
        let dt = self.elapsed_ms(now_ms);
        let integral = clamp(
            self.integral + tdiv(e * min_int(dt, MAX_INTEGRATION_MS as int), 1000),
            -c.integral_cap(),
            c.integral_cap(),
        );
        let derivative = if dt <= c.min_dt_ms as int || dt == 0 {
            0
        } else {
            tdiv((e - self.last_error) * 1000, dt)
        };
        let sum = c.kp * e + c.ki * integral + c.kd * derivative;
        let base = urgency_of(sum, c.scale_bp as int);
        let urgency = match tte_secs {
            Some(t) => if t <= c.imminent_tte_secs && base < c.imminent_floor {
                c.imminent_floor as int
            } else {
                base
            },
            None => base,
        };
        PidStep {
            integral,
            derivative,
            error: e,
            urgency,
            level: c.next_level(self.level, free_bp),
        }
    }

    /// The controller state after one update.
    pub open spec fn next_state(&self, free_bp: int, tte_secs: Option<u64>, now_ms: u64) -> Self {
        let st = self.step(free_bp, tte_secs, now_ms);
        PidPressureController {
            config: self.config,
            integral: st.integral as i64,
            last_error: st.error as i64,
            last_time_ms: if self.has_previous && now_ms < self.last_time_ms {
                self.last_time_ms
            } else {
                now_ms
            },
            has_previous: true,
            last_derivative: st.derivative as i64,
            level: st.level,
        }
    }

    /// A controller that has seen no reading yet, at level Green.
    pub fn new(config: PidConfig) -> (r: Self)
        requires
            config.wf(),
        ensures
            r.wf(),
            r.config == config,
            r.integral == 0,
            !r.has_previous,
            r.level == PressureLevel::Green,
    {
        PidPressureController {
            config,
            integral: 0,
            last_error: 0,
            last_time_ms: 0,
            has_previous: false,
            last_derivative: 0,
            level: PressureLevel::Green,
        }
    }

    /// Feeds one reading. `tte_secs` is the rate estimator's predicted time
    /// to threshold, if any; an imminent one raises urgency to the floor.
    pub fn update(&mut self, reading: &PressureReading, tte_secs: Option<u64>, now_ms: u64) -> (out: PidOutput)
        requires
            old(self).wf(),
            reading.wf(),
        ensures
            final(self).wf(),
            final(self).config == old(self).config,
            ({
                let s = old(self).step(reading.free_bp_spec(), tte_secs, now_ms);
                &&& out.level == s.level
                &&& out.urgency as int == s.urgency
                &&& final(self).level == s.level
                &&& final(self).integral as int == s.integral
                &&& final(self).last_error as int == s.error
                &&& final(self).last_derivative as int == s.derivative
                &&& out.integral_term as int == tdiv(old(self).config.ki * s.integral, old(self).config.scale_bp as int)
                &&& out.derivative_term as int == tdiv(old(self).config.kd * s.derivative, old(self).config.scale_bp as int)
            }),
            *final(self) == old(self).next_state(reading.free_bp_spec(), tte_secs, now_ms),
            out.urgency <= 1000,
    {
        let c = self.config;
        let free = reading.free_bp();
        let e: i64 = c.target_free_bp as i64 - free as i64;
        let dt: u64 = if self.has_previous && now_ms > self.last_time_ms {
            now_ms - self.last_time_ms
        } else {
            0
        };
        let cap: i128 = if c.ki == 0 { 0 } else { (c.scale_bp as i128 * 1000) / c.ki as i128 };
        proof {
            if c.ki > 0 {
                vstd::arithmetic::div_mod::lemma_div_is_ordered_by_denominator(c.scale_bp as int * 1000, 1, c.ki as int);
            }
        }
        let dt_c: u64 = if dt > MAX_INTEGRATION_MS { MAX_INTEGRATION_MS } else { dt };
        proof {
            assert(-10000 * 86_400_000 <= e as int * dt_c as int <= 10000 * 86_400_000)
                by (nonlinear_arith)
                requires -10000 <= e <= 10000, dt_c <= 86_400_000;
        }
        let inc: i128 = tdiv_exec(e as i128 * dt_c as i128, 1000);
        let acc: i128 = self.integral as i128 + inc;
        let integral: i128 = if acc < -cap { -cap } else if acc > cap { cap } else { acc };
        let derivative: i128 = if dt <= c.min_dt_ms || dt == 0 {
            0
        } else {
            let de: i128 = (e as i128 - self.last_error as i128) * 1000;
            tdiv_exec(de, dt as i128)
        };
        proof {
            assert(-20_000_000 <= (e as int - self.last_error as int) * 1000 <= 20_000_000);
        }
        proof {
            assert(-(MAX_GAIN as int) * 20000 <= c.kp as int * e as int <= MAX_GAIN as int * 20000)
                by (nonlinear_arith)
                requires c.kp <= MAX_GAIN, -20000 <= e <= 20000;
            assert(c.ki as int * cap as int <= c.scale_bp as int * 1000) by {
                if c.ki > 0 {
                    vstd::arithmetic::div_mod::lemma_fundamental_div_mod(c.scale_bp as int * 1000, c.ki as int);
                    vstd::arithmetic::mul::lemma_mul_is_commutative(c.ki as int, cap as int);
                }
            }
            assert(-(c.ki as int * cap as int) <= c.ki as int * integral as int <= c.ki as int * cap as int)
                by (nonlinear_arith)
                requires -cap <= integral <= cap, c.ki >= 0;
            assert(-(MAX_GAIN as int) * 20_000_000 <= c.kd as int * derivative as int <= MAX_GAIN as int * 20_000_000)
                by (nonlinear_arith)
                requires c.kd <= MAX_GAIN, -20_000_000 <= derivative <= 20_000_000;
        }
        let sum: i128 = c.kp as i128 * e as i128 + c.ki as i128 * integral + c.kd as i128 * derivative;
        let base: u32 = if sum <= 0 {
            0
        } else {
            let q: i128 = sum / c.scale_bp as i128;
            if q > 1000 { 1000 } else { q as u32 }
        };
        proof {
            if sum > 0 {
                vstd::arithmetic::div_mod::lemma_div_pos_is_pos(sum as int, c.scale_bp as int);
            }
        }
        let urgency: u32 = match tte_secs {
            Some(t) => if t <= c.imminent_tte_secs && base < c.imminent_floor {
                c.imminent_floor
            } else {
                base
            },
            None => base,
        };
        let level = c.select_level(self.level, free);
        let it: i128 = tdiv_exec(c.ki as i128 * integral, c.scale_bp as i128);
        let dterm: i128 = tdiv_exec(c.kd as i128 * derivative, c.scale_bp as i128);
        self.integral = integral as i64;
        self.last_error = e;
        self.last_derivative = derivative as i64;
        self.level = level;
        if !(self.has_previous && now_ms < self.last_time_ms) {
            self.last_time_ms = now_ms;
        }
        self.has_previous = true;
        PidOutput { level, urgency, integral_term: it as i64, derivative_term: dterm as i64 }
    }
}

/// Rounding slack of a quotient of a sum.
proof fn lemma_div_sum_slack(y: int, d: int, s: int)
    requires
        d >= 0,
        s > 0,
    ensures
        (y + d) / s <= y / s + d / s + 1,
{
    vstd::arithmetic::div_mod::lemma_fundamental_div_mod(y, s);
    vstd::arithmetic::div_mod::lemma_fundamental_div_mod(d, s);
    vstd::arithmetic::div_mod::lemma_fundamental_div_mod(y + d, s);
    let qy = y / s;
    let qd = d / s;
    let q = (y + d) / s;
    let ry = y % s;
    let rd = d % s;
    let r = (y + d) % s;
    assert(q <= qy + qd + 1) by (nonlinear_arith)
        requires
            y == s * qy + ry,
            d == s * qd + rd,
            y + d == s * q + r,
            0 <= ry < s,
            0 <= rd < s,
            0 <= r < s,
            s > 0,
    ;
}

/// Urgency grows by at most `d / scale` (plus rounding) when the weighted sum grows by `d`.
proof fn lemma_urgency_slack(x: int, y: int, d: int, s: int)
    requires
        x <= y + d,
        d >= 0,
        s > 0,
    ensures
        urgency_of(x, s) <= urgency_of(y, s) + d / s + 1,
{
    if x > 0 {
        vstd::arithmetic::div_mod::lemma_div_is_ordered(x, y + d, s);
        if y > 0 {
            lemma_div_sum_slack(y, d, s);
            vstd::arithmetic::div_mod::lemma_div_pos_is_pos(y, s);
        } else {
            vstd::arithmetic::div_mod::lemma_div_is_ordered(x, d, s);
        }
        vstd::arithmetic::div_mod::lemma_div_pos_is_pos(x, s);
    }
}

/// No derivative spike on clock skew: when a reading arrives with the same
/// timestamp as the previous one, the derivative term is suppressed and the
/// integral is left as it was, so urgency rises by at most the proportional
/// response to the drop in free space (`kp * drop / scale`, plus one for
/// rounding). This holds when the previous tick's own derivative
/// contribution was not negative and neither tick carried an imminent
/// exhaustion forecast.
pub proof fn lemma_no_spike_on_equal_timestamps(
    pid: PidPressureController,
    free1: int,
    free2: int,
    t: u64,
)
    requires
        pid.wf(),
        0 <= free1 <= 10000,
        0 <= free2 <= 10000,
        pid.step(free1, None, t).derivative >= 0,
    ensures
        ({
            let first = pid.step(free1, None, t);
            let after = pid.next_state(free1, None, t);
            let second = after.step(free2, None, t);
            &&& after.elapsed_ms(t) == 0
            &&& second.derivative == 0
            &&& second.integral == first.integral
            &&& second.urgency <= first.urgency + (pid.config.kp * (if free1 > free2 {
                free1 - free2
            } else {
                0
            })) / pid.config.scale_bp as int + 1
        }),
{
    let c = pid.config;
    let first = pid.step(free1, None, t);
    let after = pid.next_state(free1, None, t);
    let second = after.step(free2, None, t);
    let cap = c.integral_cap();
    assert(cap >= 0) by {
        if c.ki > 0 {
            vstd::arithmetic::div_mod::lemma_div_pos_is_pos(c.scale_bp as int * 1000, c.ki as int);
        }
    }
    let dt1 = pid.elapsed_ms(t);
    let e1 = c.target_free_bp as int - free1;
    let m1 = min_int(dt1, MAX_INTEGRATION_MS as int);
    assert(-10000 * 86_400_000 <= e1 * m1 <= 10000 * 86_400_000) by (nonlinear_arith)
        requires -10000 <= e1 <= 10000, 0 <= m1 <= 86_400_000;
    assert(-1_000_000_000_000_000 <= tdiv(e1 * m1, 1000) <= 1_000_000_000_000_000);
    assert(cap <= 10000 * 1000) by {
        if c.ki > 0 {
            vstd::arithmetic::div_mod::lemma_div_is_ordered_by_denominator(c.scale_bp as int * 1000, 1, c.ki as int);
        }
    }
    assert(after.elapsed_ms(t) == 0);
    assert(tdiv((c.target_free_bp as int - free2) * 0, 1000) == 0);
    assert(second.integral == first.integral);
    let e2 = c.target_free_bp as int - free2;
    let sum1 = c.kp * e1 + c.ki * first.integral + c.kd * first.derivative;
    let sum2 = c.kp * e2 + c.ki * second.integral + c.kd * second.derivative;
    let drop = if free1 > free2 { free1 - free2 } else { 0 };
    assert(c.kd * first.derivative >= 0) by (nonlinear_arith)
        requires first.derivative >= 0, c.kd >= 0;
    assert(c.kp * e2 <= c.kp * e1 + c.kp * drop) by (nonlinear_arith)
        requires e2 == e1 + (free1 - free2), drop >= 0, drop >= free1 - free2, c.kp >= 0;
    assert(c.kp * drop >= 0) by (nonlinear_arith)
        requires drop >= 0, c.kp >= 0;
    lemma_urgency_slack(sum2, sum1, c.kp * drop, c.scale_bp as int);
}

} // verus!
