//! Adaptive guardrail: tracks how well the rate model's predictions match
//! what happened, and reports Unknown / Pass / Fail.
//!
//! Rates are bytes per second, times are seconds, fractions permille.

use vstd::prelude::*;

verus! {

/// Calibration verdict.
#[derive(Debug, Clone, Copy, PartialEq, Eq, Structural, Hash)]
pub enum GuardStatus {
    Unknown,
    Pass,
    Fail,
}

impl GuardStatus {
    pub open spec fn label(self) -> Seq<char> {
        match self {
            GuardStatus::Unknown => "unknown"@,
            GuardStatus::Pass => "pass"@,
            GuardStatus::Fail => "fail"@,
        }
    }

    /// Serialized token.
    pub fn as_str(self) -> (r: &'static str)
        ensures
            r@ == self.label(),
    {
        match self {
            GuardStatus::Unknown => "unknown",
            GuardStatus::Pass => "pass",
            GuardStatus::Fail => "fail",
        }
    }
}

/// One predicted-versus-actual comparison.
#[derive(Debug, Clone, Copy, PartialEq, Eq, Structural)]
pub struct CalibrationObservation {
    pub predicted_rate: u64,
    pub actual_rate: u64,
    pub predicted_tte: u64,
    pub actual_tte: u64,
}

/// Guardrail thresholds.
#[derive(Debug, Clone, Copy, PartialEq, Eq, Structural)]
pub struct GuardrailConfig {
    /// In-tolerance observations needed before Pass.
    pub min_observations: u32,
    /// Largest relative rate error (permille) still in tolerance.
    pub max_rate_error: u32,
    /// Consecutive breaching observations that turn Pass into Fail.
    pub breach_windows: u32,
    /// Consecutive clean observations that lift a Fail.
    pub recovery_clean_windows: u32,
    /// E-process value (permille) at which the alarm is raised.
    pub e_alarm_threshold: u64,
}

impl GuardrailConfig {
    pub open spec fn default_spec() -> Self {
        GuardrailConfig {
            min_observations: 10,
            max_rate_error: 300,
            breach_windows: 3,
            recovery_clean_windows: 3,
            e_alarm_threshold: 20_000,
        }
    }
}

impl Default for GuardrailConfig {
    fn default() -> (r: Self)
        ensures
            r == GuardrailConfig::default_spec(),
    {
        GuardrailConfig {
            min_observations: 10,
            max_rate_error: 300,
            breach_windows: 3,
            recovery_clean_windows: 3,
            e_alarm_threshold: 20_000,
        }
    }
}

/// Relative rate error, permille of the actual rate (of 1 when it is 0).
pub open spec fn rate_error(o: CalibrationObservation) -> int {
    let diff = if o.predicted_rate >= o.actual_rate {
        o.predicted_rate - o.actual_rate
    } else {
        o.actual_rate - o.predicted_rate
    };
    let base = if o.actual_rate == 0 { 1 } else { o.actual_rate as int };
    (diff * 1000) / base
}

/// The prediction did not overstate the time left.
pub open spec fn is_conservative(o: CalibrationObservation) -> bool {
    o.predicted_tte <= o.actual_tte
}

/// In tolerance: small rate error and a conservative time-to-exhaustion.
pub open spec fn is_clean(cfg: GuardrailConfig, o: CalibrationObservation) -> bool {
    rate_error(o) <= cfg.max_rate_error && is_conservative(o)
}

/// Largest e-process value kept (permille).
pub const E_CAP: u64 = 1_000_000_000;

/// Snapshot of the guard for reporting and for the policy engine.
#[derive(Debug, Clone, PartialEq, Eq)]
pub struct GuardDiagnostics {
    pub status: GuardStatus,
    pub observation_count: u64,
    /// Median relative rate error over the recent window, permille.
    pub median_rate_error: u64,
    /// Share of conservative observations, permille.
    pub conservative_fraction: u32,
    /// E-process value, permille (1000 = neutral evidence).
    pub e_process_value: u64,
    pub e_process_alarm: bool,
    pub consecutive_clean: u32,
    pub reason: String,
}

/// The guard's counters and status.
#[derive(Debug, Clone, Copy, PartialEq, Eq, Structural)]
pub struct GuardState {
    pub config: GuardrailConfig,
    pub status: GuardStatus,
    pub observation_count: u64,
    pub conservative_count: u64,
    /// Clean observations ever seen.
    pub clean_total: u64,
    /// Clean observations since the guard last entered Unknown.
    pub clean_since_reset: u64,
    pub consecutive_clean: u32,
    pub consecutive_breach: u32,
    pub e_value: u64,
    pub last_rate_error: u64,
}

impl GuardState {
    pub open spec fn wf(&self) -> bool {
        &&& self.status is Pass ==> self.clean_since_reset >= self.config.min_observations
        &&& self.clean_since_reset <= self.clean_total
        &&& self.clean_total <= self.observation_count
        &&& self.conservative_count <= self.observation_count
        &&& 1000 <= self.e_value <= E_CAP
    }

    /// One observation's effect on the state.
    pub open spec fn observe_spec(self, o: CalibrationObservation) -> GuardState {
        let cfg = self.config;
        let clean = is_clean(cfg, o);
        let cc: u32 = if clean { sat_inc(self.consecutive_clean) } else { 0 };
        let cb: u32 = if clean { 0 } else { sat_inc(self.consecutive_breach) };
        let e: u64 = if clean {
            if self.e_value / 2 < 1000 { 1000 } else { (self.e_value / 2) as u64 }
        } else {
            if self.e_value * 2 > E_CAP { E_CAP } else { (self.e_value * 2) as u64 }
        };
        let csr: u64 = if clean { (self.clean_since_reset + 1) as u64 } else { self.clean_since_reset };
        let alarm = e >= cfg.e_alarm_threshold;
        let (status, csr2) = match self.status {
            GuardStatus::Unknown => if csr >= cfg.min_observations {
                (GuardStatus::Pass, csr)
            } else {
                (GuardStatus::Unknown, csr)
            },
            GuardStatus::Pass => if cb >= cfg.breach_windows || alarm {
                (GuardStatus::Fail, csr)
            } else {
                (GuardStatus::Pass, csr)
            },
            GuardStatus::Fail => if cc >= cfg.recovery_clean_windows {
                (GuardStatus::Unknown, 0u64)
            } else {
                (GuardStatus::Fail, csr)
            },
        };
        GuardState {
            config: cfg,
            status,
            observation_count: (self.observation_count + 1) as u64,
            conservative_count: if is_conservative(o) {
                (self.conservative_count + 1) as u64
            } else {
                self.conservative_count
            },
            clean_total: if clean { (self.clean_total + 1) as u64 } else { self.clean_total },
            clean_since_reset: csr2,
            consecutive_clean: cc,
            consecutive_breach: cb,
            e_value: e,
            last_rate_error: min_u64(rate_error(o)),
        }
    }

    pub open spec fn new_spec(config: GuardrailConfig) -> Self {
        GuardState {
            config,
            status: GuardStatus::Unknown,
            observation_count: 0,
            conservative_count: 0,
            clean_total: 0,
            clean_since_reset: 0,
            consecutive_clean: 0,
            consecutive_breach: 0,
            e_value: 1000,
            last_rate_error: 0,
        }
    }

    /// A fresh guard: Unknown, with no observations.
    pub fn new(config: GuardrailConfig) -> (r: Self)
        ensures
            r == GuardState::new_spec(config),
            r.wf(),
            r.status == GuardStatus::Unknown,
    {
        GuardState {
            config,
            status: GuardStatus::Unknown,
            observation_count: 0,
            conservative_count: 0,
            clean_total: 0,
            clean_since_reset: 0,
            consecutive_clean: 0,
            consecutive_breach: 0,
            e_value: 1000,
            last_rate_error: 0,
        }
    }
}

pub open spec fn sat_inc(x: u32) -> u32 {
    if x == u32::MAX { x } else { (x + 1) as u32 }
}

pub open spec fn sat_inc64(x: u64) -> u64 {
    if x == u64::MAX { x } else { (x + 1) as u64 }
}

pub open spec fn min_u64(x: int) -> u64 {
    if x > u64::MAX { u64::MAX } else { x as u64 }
}

fn rate_error_exec(o: &CalibrationObservation) -> (r: u64)
    ensures
        r == min_u64(rate_error(*o)),
{
    let diff: u64 = if o.predicted_rate >= o.actual_rate {
        o.predicted_rate - o.actual_rate
    } else {
        o.actual_rate - o.predicted_rate
    };
    let base: u64 = if o.actual_rate == 0 { 1 } else { o.actual_rate };
    let q: u128 = (diff as u128 * 1000) / base as u128;
    if q > u64::MAX as u128 { u64::MAX } else { q as u64 }
}

impl GuardState {
    /// Feeds one observation.
    pub fn observe(&mut self, o: CalibrationObservation)
        requires
            old(self).wf(),
            old(self).observation_count < u64::MAX,
        ensures
            final(self).wf(),
            *final(self) == old(self).observe_spec(o),
    {
        let cfg = self.config;
        let err = rate_error_exec(&o);
        let conservative = o.predicted_tte <= o.actual_tte;
        let clean = err <= cfg.max_rate_error as u64 && conservative;
        proof {
            if rate_error(o) > u64::MAX {
                assert(err == u64::MAX);
            }
        }
        let cc: u32 = if clean { if self.consecutive_clean == u32::MAX { u32::MAX } else { self.consecutive_clean + 1 } } else { 0 };
        let cb: u32 = if clean { 0 } else { if self.consecutive_breach == u32::MAX { u32::MAX } else { self.consecutive_breach + 1 } };
        let e: u64 = if clean {
            if self.e_value / 2 < 1000 { 1000 } else { self.e_value / 2 }
        } else {
            if self.e_value > E_CAP / 2 { E_CAP } else { self.e_value * 2 }
        };
        let csr: u64 = if clean { self.clean_since_reset + 1 } else { self.clean_since_reset };
        let alarm = e >= cfg.e_alarm_threshold;
        let (status, csr2) = match self.status {
            GuardStatus::Unknown => if csr >= cfg.min_observations as u64 {
                (GuardStatus::Pass, csr)
            } else {
                (GuardStatus::Unknown, csr)
            },
            GuardStatus::Pass => if cb >= cfg.breach_windows || alarm {
                (GuardStatus::Fail, csr)
            } else {
                (GuardStatus::Pass, csr)
            },
            GuardStatus::Fail => if cc >= cfg.recovery_clean_windows {
                (GuardStatus::Unknown, 0u64)
            } else {
                (GuardStatus::Fail, csr)
            },
        };
        self.status = status;
        self.observation_count = self.observation_count + 1;
        if conservative {
            self.conservative_count = self.conservative_count + 1;
        }
        if clean {
            self.clean_total = self.clean_total + 1;
        }
        self.clean_since_reset = csr2;
        self.consecutive_clean = cc;
        self.consecutive_breach = cb;
        self.e_value = e;
        self.last_rate_error = err;
    }

}

/// Number of recent rate errors kept for the median.
pub const ERROR_WINDOW: usize = 32;

/// Where `x` goes in an ascending sequence: after every element not above it.
pub open spec fn insert_pos_u64(s: Seq<u64>, x: u64) -> int
    decreases s.len(),
{
    if s.len() == 0 || x < s[0] { 0 } else { 1 + insert_pos_u64(s.drop_first(), x) }
}

/// Ascending (insertion-sorted) order of a sequence.
pub open spec fn sorted_u64(s: Seq<u64>) -> Seq<u64>
    decreases s.len(),
{
    if s.len() == 0 {
        s
    } else {
        let r = sorted_u64(s.drop_last());
        r.insert(insert_pos_u64(r, s.last()), s.last())
    }
}

/// Lower median: the middle element of the sorted sequence (0 when empty).
pub open spec fn median_u64(s: Seq<u64>) -> u64 {
    if s.len() == 0 { 0 } else { sorted_u64(s)[(s.len() - 1) / 2] }
}

proof fn lemma_sorted_len(s: Seq<u64>)
    ensures
        sorted_u64(s).len() == s.len(),
    decreases s.len(),
{
    if s.len() > 0 {
        lemma_sorted_len(s.drop_last());
        lemma_insert_pos_u64_bounds(sorted_u64(s.drop_last()), s.last());
    }
}

proof fn lemma_insert_pos_u64_bounds(s: Seq<u64>, x: u64)
    ensures
        0 <= insert_pos_u64(s, x) <= s.len(),
    decreases s.len(),
{
    if s.len() > 0 && !(x < s[0]) {
        lemma_insert_pos_u64_bounds(s.drop_first(), x);
    }
}

proof fn lemma_insert_pos_u64_unique(s: Seq<u64>, x: u64, j: int)
    requires
        0 <= j <= s.len(),
        forall|k: int| 0 <= k < j ==> !(x < #[trigger] s[k]),
        j < s.len() ==> x < s[j],
    ensures
        insert_pos_u64(s, x) == j,
    decreases s.len(),
{
    if s.len() > 0 && j > 0 {
        assert(!(x < s[0]));
        assert forall|k: int| 0 <= k < j - 1 implies !(x < #[trigger] s.drop_first()[k]) by {
            assert(s.drop_first()[k] == s[k + 1]);
        }
        lemma_insert_pos_u64_unique(s.drop_first(), x, j - 1);
    }
}

/// Median of a window of rate errors.
pub fn median_of(window: &Vec<u64>) -> (r: u64)
    ensures
        r == median_u64(window@),
{
    let mut sorted: Vec<u64> = Vec::new();
    let mut i: usize = 0;
    while i < window.len()
        invariant
            i <= window@.len(),
            sorted@ == sorted_u64(window@.subrange(0, i as int)),
        decreases window.len() - i,
    {
        let x = window[i];
        let mut j: usize = 0;
        while j < sorted.len() && !(x < sorted[j])
            invariant
                j <= sorted@.len(),
                forall|k: int| 0 <= k < j ==> !(x < #[trigger] sorted@[k]),
            decreases sorted.len() - j,
        {
            j = j + 1;
        }
        proof {
            lemma_insert_pos_u64_unique(sorted@, x, j as int);
            let pre = window@.subrange(0, i as int + 1);
            assert(pre.drop_last() =~= window@.subrange(0, i as int));
        }
        sorted.insert(j, x);
        i = i + 1;
    }
    proof {
        assert(window@.subrange(0, window@.len() as int) =~= window@);
        lemma_sorted_len(window@);
    }
    if sorted.len() == 0 {
        0
    } else {
        sorted[(sorted.len() - 1) / 2]
    }
}

/// The recent window after adding one error: appended, oldest dropped past
/// `ERROR_WINDOW`.
pub open spec fn push_window(w: Seq<u64>, e: u64) -> Seq<u64> {
    let p = w.push(e);
    if p.len() > ERROR_WINDOW { p.drop_first() } else { p }
}

/// The guard: counters, status and the recent rate errors.
#[derive(Debug, Clone, PartialEq, Eq)]
pub struct AdaptiveGuard {
    pub state: GuardState,
    pub recent_errors: Vec<u64>,
}

impl AdaptiveGuard {
    pub open spec fn wf(&self) -> bool {
        self.state.wf() && self.recent_errors@.len() <= ERROR_WINDOW
    }

    /// A fresh guard: Unknown, with no observations.
    pub fn new(config: GuardrailConfig) -> (r: Self)
        ensures
            r.wf(),
            r.state == GuardState::new_spec(config),
            r.recent_errors@.len() == 0,
    {
        AdaptiveGuard { state: GuardState::new(config), recent_errors: Vec::new() }
    }

    /// Feeds one observation.
    pub fn observe(&mut self, o: CalibrationObservation)
        requires
            old(self).wf(),
            old(self).state.observation_count < u64::MAX,
        ensures
            final(self).wf(),
            final(self).state == old(self).state.observe_spec(o),
            final(self).recent_errors@ == push_window(old(self).recent_errors@, min_u64(rate_error(o))),
    {
        self.state.observe(o);
        let ghost before = self.recent_errors@;
        self.recent_errors.push(self.state.last_rate_error);
        if self.recent_errors.len() > ERROR_WINDOW {
            self.recent_errors.remove(0);
            proof {
                assert(self.recent_errors@ =~= before.push(min_u64(rate_error(o))).drop_first());
            }
        }
    }

    /// Current status and evidence.
    pub fn diagnostics(&self) -> (r: GuardDiagnostics)
        requires
            self.wf(),
        ensures
            r.status == self.state.status,
            r.observation_count == self.state.observation_count,
            r.consecutive_clean == self.state.consecutive_clean,
            r.e_process_value == self.state.e_value,
            r.e_process_alarm == (self.state.e_value >= self.state.config.e_alarm_threshold),
            r.median_rate_error == median_u64(self.recent_errors@),
            r.conservative_fraction as int == if self.state.observation_count == 0 {
                0
            } else {
                (self.state.conservative_count * 1000) / self.state.observation_count as int
            },
    {
        let frac: u32 = if self.state.observation_count == 0 {
            0
        } else {
            proof {
                assert(self.state.conservative_count * 1000 <= self.state.observation_count * 1000) by (nonlinear_arith)
                    requires self.state.conservative_count <= self.state.observation_count;
                vstd::arithmetic::div_mod::lemma_div_is_ordered(
                    self.state.conservative_count * 1000, self.state.observation_count * 1000, self.state.observation_count as int);
                vstd::arithmetic::div_mod::lemma_div_multiples_vanish(1000, self.state.observation_count as int);
                assert(1000 * self.state.observation_count as int == self.state.observation_count * 1000) by (nonlinear_arith);
            }
            ((self.state.conservative_count as u128 * 1000) / self.state.observation_count as u128) as u32
        };
        let reason = match self.state.status {
            GuardStatus::Unknown => String::from_str("insufficient clean observations"),
            GuardStatus::Pass => String::from_str("calibration within tolerance"),
            GuardStatus::Fail => String::from_str("calibration breach"),
        };
        GuardDiagnostics {
            status: self.state.status,
            observation_count: self.state.observation_count,
            median_rate_error: median_of(&self.recent_errors),
            conservative_fraction: frac,
            e_process_value: self.state.e_value,
            e_process_alarm: self.state.e_value >= self.state.config.e_alarm_threshold,
            consecutive_clean: self.state.consecutive_clean,
            reason,
        }
    }
}


/// Number of in-tolerance observations in a sequence.
pub open spec fn count_clean(cfg: GuardrailConfig, obs: Seq<CalibrationObservation>) -> int
    decreases obs.len(),
{
    if obs.len() == 0 {
        0
    } else {
        count_clean(cfg, obs.drop_last()) + if is_clean(cfg, obs.last()) { 1int } else { 0 }
    }
}

/// The guard after a sequence of observations.
pub open spec fn run_guard(g: GuardState, obs: Seq<CalibrationObservation>) -> GuardState
    decreases obs.len(),
{
    if obs.len() == 0 {
        g
    } else {
        run_guard(g, obs.drop_last()).observe_spec(obs.last())
    }
}

proof fn lemma_observe_wf(g: GuardState, o: CalibrationObservation)
    requires
        g.wf(),
        g.observation_count < u64::MAX,
    ensures
        g.observe_spec(o).wf(),
        g.observe_spec(o).config == g.config,
        g.observe_spec(o).observation_count == g.observation_count + 1,
        g.observe_spec(o).clean_total == g.clean_total + if is_clean(g.config, o) { 1int } else { 0 },
{
}

/// The guard after `obs` from a fresh start has counted exactly the clean ones.
pub proof fn lemma_run_counts(cfg: GuardrailConfig, obs: Seq<CalibrationObservation>)
    requires
        obs.len() < u64::MAX,
    ensures
        run_guard(GuardState::new_spec(cfg), obs).wf(),
        run_guard(GuardState::new_spec(cfg), obs).config == cfg,
        run_guard(GuardState::new_spec(cfg), obs).observation_count == obs.len(),
        run_guard(GuardState::new_spec(cfg), obs).clean_total == count_clean(cfg, obs),
    decreases obs.len(),
{
    if obs.len() > 0 {
        lemma_run_counts(cfg, obs.drop_last());
        lemma_observe_wf(run_guard(GuardState::new_spec(cfg), obs.drop_last()), obs.last());
    }
}

/// Pass needs evidence: a fresh guard reports Unknown, and after any sequence
/// of observations it reports Pass only if at least `min_observations` of
/// them were in tolerance.
pub proof fn lemma_pass_needs_min_observations(cfg: GuardrailConfig, obs: Seq<CalibrationObservation>)
    requires
        obs.len() < u64::MAX,
    ensures
        GuardState::new_spec(cfg).status == GuardStatus::Unknown,
        run_guard(GuardState::new_spec(cfg), obs).status == GuardStatus::Pass
            ==> count_clean(cfg, obs) >= cfg.min_observations,
{
    lemma_run_counts(cfg, obs);
}

/// Recovery from Fail needs `recovery_clean_windows` consecutive clean
/// observations: an observation that moves the guard out of Fail leaves a
/// run of at least that many clean observations, and the guard then
/// stands at Unknown (never directly at Pass).
pub proof fn lemma_fail_recovery_needs_clean_run(g: GuardState, o: CalibrationObservation)
    requires
        g.wf(),
        g.status == GuardStatus::Fail,
        g.observation_count < u64::MAX,
        g.observe_spec(o).status != GuardStatus::Fail,
    ensures
        g.observe_spec(o).status == GuardStatus::Unknown,
        g.observe_spec(o).consecutive_clean >= g.config.recovery_clean_windows,
        g.observe_spec(o).clean_since_reset == 0,
{
}

/// The consecutive-clean counter counts the trailing run of clean
/// observations (it resets on every breach).
pub proof fn lemma_consecutive_clean_counts_run(g: GuardState, o: CalibrationObservation)
    requires
        g.wf(),
        g.observation_count < u64::MAX,
    ensures
        !is_clean(g.config, o) ==> g.observe_spec(o).consecutive_clean == 0,
        is_clean(g.config, o) && g.consecutive_clean < u32::MAX
            ==> g.observe_spec(o).consecutive_clean == g.consecutive_clean + 1,
{
}

} // verus!
