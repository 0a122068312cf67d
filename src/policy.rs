//! Policy engine: the active-mode state machine that decides which scored
//! candidates are approved for deletion.

use vstd::prelude::*;
use crate::decision_record::{ActionRecord, DecisionRecord, DecisionRecordBuilder, PolicyMode};
use crate::guardrails::{GuardDiagnostics, GuardStatus};
use crate::scoring::{CandidacyScore, DecisionAction};

verus! {

/// Operating mode.
#[derive(Debug, Clone, Copy, PartialEq, Eq, Structural, Hash)]
pub enum ActiveMode {
    Observe,
    Canary,
    Enforce,
    FallbackSafe,
}

impl ActiveMode {
    pub open spec fn allows_deletion_spec(self) -> bool {
        self is Canary || self is Enforce
    }

    /// Whether the mode may approve deletions at all.
    pub fn allows_deletion(self) -> (r: bool)
        ensures
            r == self.allows_deletion_spec(),
    {
        match self {
            ActiveMode::Canary | ActiveMode::Enforce => true,
            _ => false,
        }
    }

    pub open spec fn policy_mode_spec(self) -> PolicyMode {
        match self {
            ActiveMode::Observe => PolicyMode::Shadow,
            ActiveMode::Canary => PolicyMode::Canary,
            ActiveMode::Enforce => PolicyMode::Live,
            ActiveMode::FallbackSafe => PolicyMode::Shadow,
        }
    }

    /// The mode under which decision records are written.
    pub fn policy_mode(self) -> (r: PolicyMode)
        ensures
            r == self.policy_mode_spec(),
    {
        match self {
            ActiveMode::Observe => PolicyMode::Shadow,
            ActiveMode::Canary => PolicyMode::Canary,
            ActiveMode::Enforce => PolicyMode::Live,
            ActiveMode::FallbackSafe => PolicyMode::Shadow,
        }
    }
}

/// Why the engine entered safe mode.
#[derive(Debug, Clone, PartialEq, Eq)]
pub enum FallbackReason {
    GuardrailDrift,
    KillSwitch,
    PolicyError { details: String },
    SerializationFailure,
}

/// Policy settings.
#[derive(Debug, Clone, Copy, PartialEq, Eq, Structural)]
pub struct PolicyConfig {
    pub initial_mode: ActiveMode,
    pub max_canary_deletes_per_hour: u32,
    /// Consecutive passing guard windows that end safe mode.
    pub recovery_clean_windows: u32,
    /// Consecutive failing guard windows that force safe mode.
    pub calibration_breach_windows: u32,
}

impl PolicyConfig {
    pub open spec fn default_spec() -> Self {
        PolicyConfig {
            initial_mode: ActiveMode::Observe,
            max_canary_deletes_per_hour: 10,
            recovery_clean_windows: 3,
            calibration_breach_windows: 3,
        }
    }
}

impl Default for PolicyConfig {
    fn default() -> (r: Self)
        ensures
            r == PolicyConfig::default_spec(),
    {
        PolicyConfig {
            initial_mode: ActiveMode::Observe,
            max_canary_deletes_per_hour: 10,
            recovery_clean_windows: 3,
            calibration_breach_windows: 3,
        }
    }
}

/// The outcome of evaluating a batch.
#[derive(Debug, Clone, PartialEq, Eq)]
pub struct PolicyDecision {
    /// Mode under which the batch was evaluated.
    pub mode: ActiveMode,
    pub records: Vec<DecisionRecord>,
    pub approved_for_deletion: Vec<CandidacyScore>,
}

/// A candidate the scorer recommends deleting and no veto holds back.
pub open spec fn eligible(c: CandidacyScore) -> bool {
    !c.vetoed && c.decision.action == DecisionAction::Delete
}

/// The first `k` eligible candidates, in batch order.
pub open spec fn take_eligible(s: Seq<CandidacyScore>, k: int) -> Seq<CandidacyScore>
    decreases s.len(),
{
    if s.len() == 0 {
        s
    } else {
        let t = take_eligible(s.drop_last(), k);
        if t.len() < k && eligible(s.last()) {
            t.push(s.last())
        } else {
            t
        }
    }
}

/// A guard report that forbids approving deletions.
pub open spec fn guard_blocks(g: Option<&GuardDiagnostics>) -> bool {
    match g {
        Some(d) => d.status == GuardStatus::Fail || d.e_process_alarm,
        None => false,
    }
}

proof fn lemma_take_eligible_len(s: Seq<CandidacyScore>, k: int)
    ensures
        take_eligible(s, k).len() <= s.len(),
        k >= 0 ==> take_eligible(s, k).len() <= k,
        k <= 0 ==> take_eligible(s, k).len() == 0,
    decreases s.len(),
{
    if s.len() > 0 {
        lemma_take_eligible_len(s.drop_last(), k);
    }
}

/// Everything taken is eligible: unvetoed, with action Delete.
pub proof fn lemma_take_eligible_only_eligible(s: Seq<CandidacyScore>, k: int)
    ensures
        forall|i: int| 0 <= i < take_eligible(s, k).len() ==> eligible(#[trigger] take_eligible(s, k)[i]),
    decreases s.len(),
{
    if s.len() > 0 {
        lemma_take_eligible_only_eligible(s.drop_last(), k);
        let t = take_eligible(s.drop_last(), k);
        if t.len() < k && eligible(s.last()) {
            assert forall|i: int| 0 <= i < t.push(s.last()).len() implies eligible(#[trigger] t.push(s.last())[i]) by {
                if i < t.len() {
                    assert(t.push(s.last())[i] == t[i]);
                }
            }
        }
    }
}

/// The policy engine's state.
#[derive(Debug, Clone, PartialEq, Eq)]
pub struct PolicyEngine {
    pub config: PolicyConfig,
    pub mode: ActiveMode,
    /// Mode to restore when safe mode ends.
    pub pre_fallback_mode: ActiveMode,
    pub fallback_entries: u64,
    pub last_fallback_reason: Option<FallbackReason>,
    /// Canary approvals in the current hour.
    pub canary_used: u32,
    /// Hour (seconds / 3600) the canary budget belongs to.
    pub budget_hour: u64,
    /// Observe was entered because the canary budget ran out.
    pub budget_demoted: bool,
    pub clean_windows: u32,
    pub breach_windows: u32,
    pub builder: DecisionRecordBuilder,
}

impl PolicyEngine {
    pub open spec fn wf(&self) -> bool {
        &&& self.canary_used <= self.config.max_canary_deletes_per_hour
        &&& !(self.pre_fallback_mode is FallbackSafe)
    }

    /// How many approvals the current mode grants on a batch of `n`.
    pub open spec fn approval_limit(&self, n: int, blocked: bool) -> int {
        if blocked {
            0
        } else {
            match self.mode {
                ActiveMode::Enforce => n,
                ActiveMode::Canary => self.config.max_canary_deletes_per_hour - self.canary_used,
                _ => 0,
            }
        }
    }

    /// The engine as it stands once the hour of `now_secs` has begun: a new
    /// hour refills the canary budget and ends a budget demotion.
    pub open spec fn at_hour(&self, now_secs: u64) -> PolicyEngine {
        if now_secs / 3600 == self.budget_hour {
            *self
        } else {
            PolicyEngine {
                canary_used: 0,
                budget_hour: (now_secs / 3600) as u64,
                budget_demoted: false,
                mode: if self.budget_demoted && self.mode is Observe {
                    ActiveMode::Canary
                } else {
                    self.mode
                },
                ..*self
            }
        }
    }

    /// A new engine in the configured initial mode.
    pub fn new(config: PolicyConfig) -> (r: Self)
        ensures
            r.wf(),
            r.config == config,
            r.mode == config.initial_mode,
            r.pre_fallback_mode == ActiveMode::Observe,
            r.fallback_entries == 0,
            r.last_fallback_reason is None,
            r.canary_used == 0,
            r.budget_hour == 0,
            !r.budget_demoted,
            r.clean_windows == 0,
            r.breach_windows == 0,
            r.builder.next_id == 1,
    {
        PolicyEngine {
            config,
            mode: config.initial_mode,
            pre_fallback_mode: ActiveMode::Observe,
            fallback_entries: 0,
            last_fallback_reason: None,
            canary_used: 0,
            budget_hour: 0,
            budget_demoted: false,
            clean_windows: 0,
            breach_windows: 0,
            builder: DecisionRecordBuilder::new(),
        }
    }

    /// Current mode.
    pub fn mode(&self) -> (r: ActiveMode)
        ensures
            r == self.mode,
    {
        self.mode
    }

    /// How many times safe mode was entered.
    pub fn total_fallback_entries(&self) -> (r: u64)
        ensures
            r == self.fallback_entries,
    {
        self.fallback_entries
    }

    /// Moves one step up `Observe -> Canary -> Enforce`; false (and no
    /// change) from Enforce or safe mode.
    pub fn promote(&mut self) -> (r: bool)
        requires
            old(self).wf(),
        ensures
            final(self).wf(),
            r == (old(self).mode is Observe || old(self).mode is Canary),
            final(self).mode == match old(self).mode {
                ActiveMode::Observe => ActiveMode::Canary,
                ActiveMode::Canary => ActiveMode::Enforce,
                m => m,
            },
            final(self).fallback_entries == old(self).fallback_entries,
            final(self).canary_used == old(self).canary_used,
            final(self).config == old(self).config,
    {
        match self.mode {
            ActiveMode::Observe => {
                self.mode = ActiveMode::Canary;
                self.budget_demoted = false;
                true
            },
            ActiveMode::Canary => {
                self.mode = ActiveMode::Enforce;
                self.budget_demoted = false;
                true
            },
            _ => false,
        }
    }

    /// Moves one step down `Enforce -> Canary -> Observe`; false (and no
    /// change) from Observe or safe mode.
    pub fn demote(&mut self) -> (r: bool)
        requires
            old(self).wf(),
        ensures
            final(self).wf(),
            r == (old(self).mode is Enforce || old(self).mode is Canary),
            final(self).mode == match old(self).mode {
                ActiveMode::Enforce => ActiveMode::Canary,
                ActiveMode::Canary => ActiveMode::Observe,
                m => m,
            },
            final(self).fallback_entries == old(self).fallback_entries,
            final(self).canary_used == old(self).canary_used,
            final(self).config == old(self).config,
    {
        match self.mode {
            ActiveMode::Enforce => {
                self.mode = ActiveMode::Canary;
                self.budget_demoted = false;
                true
            },
            ActiveMode::Canary => {
                self.mode = ActiveMode::Observe;
                self.budget_demoted = false;
                true
            },
            _ => false,
        }
    }

    /// Enters safe mode, remembering the mode to restore. Entering it while
    /// already in it changes nothing but the recorded reason.
    pub fn enter_fallback(&mut self, reason: FallbackReason)
        requires
            old(self).wf(),
        ensures
            final(self).wf(),
            final(self).mode == ActiveMode::FallbackSafe,
            final(self).config == old(self).config,
            final(self).canary_used == old(self).canary_used,
            final(self).breach_windows == old(self).breach_windows,
            old(self).mode is FallbackSafe ==> {
                &&& final(self).fallback_entries == old(self).fallback_entries
                &&& final(self).pre_fallback_mode == old(self).pre_fallback_mode
            },
            !(old(self).mode is FallbackSafe) ==> {
                &&& final(self).fallback_entries == if old(self).fallback_entries == u64::MAX {
                    u64::MAX
                } else {
                    (old(self).fallback_entries + 1) as u64
                }
                &&& final(self).pre_fallback_mode == old(self).mode
                &&& final(self).clean_windows == 0
            },
    {
        if self.mode != ActiveMode::FallbackSafe {
            self.pre_fallback_mode = self.mode;
            self.mode = ActiveMode::FallbackSafe;
            if self.fallback_entries < u64::MAX {
                self.fallback_entries = self.fallback_entries + 1;
            }
            self.clean_windows = 0;
            self.budget_demoted = false;
        }
        self.last_fallback_reason = Some(reason);
    }

    /// Feeds one guard window. Enough consecutive passing windows end safe
    /// mode and restore the mode held before it; enough consecutive failing
    /// ones force safe mode.
    pub fn observe_window(&mut self, g: &GuardDiagnostics)
        requires
            old(self).wf(),
        ensures
            final(self).wf(),
            final(self).config == old(self).config,
            final(self).canary_used == old(self).canary_used,
            (g.status == GuardStatus::Pass && !g.e_process_alarm && old(self).mode is FallbackSafe
                && old(self).clean_windows as int + 1 >= old(self).config.recovery_clean_windows)
                ==> final(self).mode == old(self).pre_fallback_mode,
            old(self).mode is FallbackSafe && final(self).mode != ActiveMode::FallbackSafe ==> {
                &&& g.status == GuardStatus::Pass
                &&& !g.e_process_alarm
                &&& old(self).clean_windows as int + 1 >= old(self).config.recovery_clean_windows
                &&& final(self).mode == old(self).pre_fallback_mode
            },
            (g.status == GuardStatus::Fail || g.e_process_alarm) && !(old(self).mode is FallbackSafe)
                && (if old(self).breach_windows == u32::MAX { u32::MAX as int } else { old(self).breach_windows + 1 })
                >= old(self).config.calibration_breach_windows
                ==> final(self).mode == ActiveMode::FallbackSafe && final(self).pre_fallback_mode == old(self).mode,
            !(old(self).mode is FallbackSafe) && final(self).mode != old(self).mode
                ==> final(self).mode == ActiveMode::FallbackSafe,
            g.status == GuardStatus::Pass && !g.e_process_alarm ==> final(self).breach_windows == 0,
            g.status == GuardStatus::Fail || g.e_process_alarm ==> final(self).clean_windows == 0
                && final(self).breach_windows == if old(self).breach_windows == u32::MAX {
                    u32::MAX
                } else {
                    (old(self).breach_windows + 1) as u32
                },
            g.status == GuardStatus::Unknown && !g.e_process_alarm ==> final(self).clean_windows == 0
                && final(self).breach_windows == old(self).breach_windows && final(self).mode == old(self).mode,
    {
        if g.status == GuardStatus::Pass && !g.e_process_alarm {
            self.breach_windows = 0;
            if self.clean_windows < u32::MAX {
                self.clean_windows = self.clean_windows + 1;
            }
            if self.mode == ActiveMode::FallbackSafe
                && self.clean_windows >= self.config.recovery_clean_windows {
                self.mode = self.pre_fallback_mode;
                self.clean_windows = 0;
            }
        } else if g.status == GuardStatus::Fail || g.e_process_alarm {
            self.clean_windows = 0;
            if self.breach_windows < u32::MAX {
                self.breach_windows = self.breach_windows + 1;
            }
            if self.breach_windows >= self.config.calibration_breach_windows
                && self.mode != ActiveMode::FallbackSafe {
                self.enter_fallback(FallbackReason::GuardrailDrift);
            }
        } else {
            self.clean_windows = 0;
        }
    }

    /// Starts the hour of `now_secs` if it is a new one.
    pub fn roll_hour(&mut self, now_secs: u64)
        requires
            old(self).wf(),
        ensures
            final(self).wf(),
            *final(self) == old(self).at_hour(now_secs),
    {
        let hour = now_secs / 3600;
        if hour != self.budget_hour {
            self.canary_used = 0;
            self.budget_hour = hour;
            if self.budget_demoted && self.mode == ActiveMode::Observe {
                self.mode = ActiveMode::Canary;
            }
            self.budget_demoted = false;
        }
    }
}

impl PolicyEngine {
    /// Evaluates a scored batch (in batch order) at time `now_secs`.
    ///
    /// Observe and safe mode approve nothing; Enforce approves every
    /// unvetoed Delete; Canary approves them in order until the hourly budget
    /// is spent, and spending it demotes the engine to Observe until the next
    /// hour. A failing or alarming guard report blocks all approvals. One
    /// decision record is written per candidate.
    pub fn evaluate(
        &mut self,
        candidates: &Vec<CandidacyScore>,
        guard: Option<&GuardDiagnostics>,
        now_secs: u64,
    ) -> (r: PolicyDecision)
        requires
            old(self).wf(),
        ensures
            final(self).wf(),
            ({
                let e = old(self).at_hour(now_secs);
                let k = e.approval_limit(candidates@.len() as int, guard_blocks(guard));
                &&& r.mode == e.mode
                &&& r.approved_for_deletion@ == take_eligible(candidates@, k)
                &&& !e.mode.allows_deletion_spec() ==> r.approved_for_deletion@.len() == 0
                &&& r.records@.len() == candidates@.len()
                &&& forall|i: int| 0 <= i < r.records@.len() ==> {
                    &&& (#[trigger] r.records@[i]).policy_mode == e.mode.policy_mode_spec()
                    &&& r.records@[i].path == candidates@[i].path
                    &&& r.records@[i].effective_action == ActionRecord::Delete ==> e.mode.allows_deletion_spec()
                }
                &&& final(self).fallback_entries == e.fallback_entries
                &&& if e.mode is Canary && !guard_blocks(guard) {
                    &&& final(self).canary_used == e.canary_used + r.approved_for_deletion@.len()
                    &&& final(self).mode == if final(self).canary_used == e.config.max_canary_deletes_per_hour {
                        ActiveMode::Observe
                    } else {
                        ActiveMode::Canary
                    }
                } else {
                    &&& final(self).canary_used == e.canary_used
                    &&& final(self).mode == e.mode
                }
            }),
    {
        self.roll_hour(now_secs);
        let mode = self.mode;
        let blocked = match guard {
            Some(d) => d.status == GuardStatus::Fail || d.e_process_alarm,
            None => false,
        };
        let guard_status = match guard {
            Some(d) => Some(d.status),
            None => None,
        };
        let k: usize = if blocked {
            0
        } else {
            match mode {
                ActiveMode::Enforce => candidates.len(),
                ActiveMode::Canary => (self.config.max_canary_deletes_per_hour - self.canary_used) as usize,
                _ => 0,
            }
        };
        let ghost e = *self;
        let pm = mode.policy_mode();
        let mut approved: Vec<CandidacyScore> = Vec::new();
        let mut records: Vec<DecisionRecord> = Vec::new();
        let mut i: usize = 0;
        while i < candidates.len()
            invariant
                e == self.with_builder(e.builder),
                i <= candidates@.len(),
                k as int == e.approval_limit(candidates@.len() as int, blocked),
                approved@ == take_eligible(candidates@.subrange(0, i as int), k as int),
                records@.len() == i,
                pm == mode.policy_mode_spec(),
                mode == e.mode,
                blocked ==> k == 0,
                !mode.allows_deletion_spec() ==> k == 0,
                forall|j: int| 0 <= j < i ==> {
                    &&& (#[trigger] records@[j]).policy_mode == pm
                    &&& records@[j].path == candidates@[j].path
                    &&& records@[j].effective_action == ActionRecord::Delete ==> mode.allows_deletion_spec()
                },
            decreases candidates.len() - i,
        {
            let c = &candidates[i];
            let approve = approved.len() < k && !c.vetoed && c.decision.action == DecisionAction::Delete;
            proof {
                let pre = candidates@.subrange(0, i as int + 1);
                assert(pre.drop_last() =~= candidates@.subrange(0, i as int));
                assert(pre.last() == *c);
                lemma_take_eligible_len(candidates@.subrange(0, i as int), k as int);
            }
            let mut rec = self.builder.build(c, pm, guard_status, Some(now_secs));
            if approve {
                approved.push(c.duplicate());
                rec.effective_action = ActionRecord::Delete;
            } else if rec.action == ActionRecord::Delete {
                rec.effective_action = ActionRecord::Keep;
            }
            records.push(rec);
            i = i + 1;
        }
        proof {
            assert(candidates@.subrange(0, candidates@.len() as int) =~= candidates@);
            lemma_take_eligible_len(candidates@, k as int);
        }
        if mode == ActiveMode::Canary && !blocked {
            self.canary_used = self.canary_used + approved.len() as u32;
            if self.canary_used == self.config.max_canary_deletes_per_hour {
                self.mode = ActiveMode::Observe;
                self.budget_demoted = true;
            }
        }
        PolicyDecision { mode, records, approved_for_deletion: approved }
    }

    /// The same engine with another record builder.
    pub open spec fn with_builder(&self, b: DecisionRecordBuilder) -> PolicyEngine {
        PolicyEngine { builder: b, ..*self }
    }
}

/// Observe and safe mode never approve: whatever the batch and the guard
/// report, the approval limit there is zero and nothing is taken.
pub proof fn lemma_observe_and_fallback_approve_nothing(
    e: PolicyEngine,
    s: Seq<CandidacyScore>,
    blocked: bool,
)
    requires
        e.mode is Observe || e.mode is FallbackSafe,
    ensures
        take_eligible(s, e.approval_limit(s.len() as int, blocked)).len() == 0,
{
    lemma_take_eligible_len(s, 0);
}

/// The canary budget holds: within an hour a Canary engine approves at most
/// what is left of `max_canary_deletes_per_hour`, so its hourly total never
/// exceeds the cap.
pub proof fn lemma_canary_within_budget(e: PolicyEngine, s: Seq<CandidacyScore>, blocked: bool)
    requires
        e.wf(),
        e.mode is Canary,
    ensures
        e.canary_used + take_eligible(s, e.approval_limit(s.len() as int, blocked)).len()
            <= e.config.max_canary_deletes_per_hour,
{
    lemma_take_eligible_len(s, e.approval_limit(s.len() as int, blocked));
}

} // verus!
