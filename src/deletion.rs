//! Deletion planning and the decisions of a deletion run: batch limits,
//! dry-run, circuit breaker and the pressure short-circuit. The caller
//! performs each unlink and reports what happened.

use vstd::prelude::*;
use crate::scoring::CandidacyScore;

verus! {

/// Deletion settings.
#[derive(Debug, Clone, Copy, PartialEq, Eq, Structural)]
pub struct DeletionConfig {
    pub max_batch_size: usize,
    /// Lowest total score worth deleting, permille (of 3000).
    pub min_score: u32,
    /// Consecutive failures that trip the breaker.
    pub circuit_breaker_threshold: u32,
    pub dry_run: bool,
    /// Re-check for open handles right before each unlink.
    pub check_open_files: bool,
}

impl DeletionConfig {
    pub open spec fn default_spec() -> Self {
        DeletionConfig {
            max_batch_size: 10,
            min_score: 700,
            circuit_breaker_threshold: 3,
            dry_run: false,
            check_open_files: true,
        }
    }
}

impl Default for DeletionConfig {
    fn default() -> (r: Self)
        ensures
            r == DeletionConfig::default_spec(),
    {
        DeletionConfig {
            max_batch_size: 10,
            min_score: 700,
            circuit_breaker_threshold: 3,
            dry_run: false,
            check_open_files: true,
        }
    }
}

/// A candidate worth planning: not vetoed, scoring at least the floor.
pub open spec fn plannable(cfg: DeletionConfig, c: CandidacyScore) -> bool {
    !c.vetoed && c.total_score >= cfg.min_score * crate::scoring::SCORE_PER_MILLE
}

/// The first `max_batch_size` plannable candidates, in batch order.
pub open spec fn plan_spec(cfg: DeletionConfig, s: Seq<CandidacyScore>) -> Seq<CandidacyScore>
    decreases s.len(),
{
    if s.len() == 0 {
        s
    } else {
        let t = plan_spec(cfg, s.drop_last());
        if t.len() < cfg.max_batch_size && plannable(cfg, s.last()) {
            t.push(s.last())
        } else {
            t
        }
    }
}

proof fn lemma_plan_len(cfg: DeletionConfig, s: Seq<CandidacyScore>)
    ensures
        plan_spec(cfg, s).len() <= cfg.max_batch_size,
        plan_spec(cfg, s).len() <= s.len(),
        forall|i: int| 0 <= i < plan_spec(cfg, s).len() ==> plannable(cfg, #[trigger] plan_spec(cfg, s)[i]),
    decreases s.len(),
{
    if s.len() > 0 {
        lemma_plan_len(cfg, s.drop_last());
        let t = plan_spec(cfg, s.drop_last());
        if t.len() < cfg.max_batch_size && plannable(cfg, s.last()) {
            assert forall|i: int| 0 <= i < t.push(s.last()).len() implies plannable(cfg, #[trigger] t.push(s.last())[i]) by {
                if i < t.len() {
                    assert(t.push(s.last())[i] == t[i]);
                }
            }
        }
    }
}

/// What will be deleted, in order.
#[derive(Debug, Clone, PartialEq, Eq)]
pub struct DeletionPlan {
    pub candidates: Vec<CandidacyScore>,
    pub total_reclaimable_bytes: u64,
}

/// Sum of sizes, saturating.
pub open spec fn sum_sizes(s: Seq<CandidacyScore>) -> nat
    decreases s.len(),
{
    if s.len() == 0 { 0 } else { sum_sizes(s.drop_last()) + s.last().size_bytes as nat }
}

/// Plans a deletion batch: drops vetoed and low-scoring candidates and
/// keeps at most `max_batch_size`, in batch order.
pub fn plan(cfg: &DeletionConfig, scored: &Vec<CandidacyScore>) -> (r: DeletionPlan)
    ensures
        r.candidates@ == plan_spec(*cfg, scored@),
        r.candidates@.len() <= cfg.max_batch_size,
        forall|i: int| 0 <= i < r.candidates@.len() ==> plannable(*cfg, #[trigger] r.candidates@[i]),
        r.total_reclaimable_bytes as nat == if sum_sizes(r.candidates@) > u64::MAX {
            u64::MAX as nat
        } else {
            sum_sizes(r.candidates@)
        },
{
    let mut out: Vec<CandidacyScore> = Vec::new();
    let mut total: u64 = 0;
    let mut i: usize = 0;
    while i < scored.len()
        invariant
            i <= scored@.len(),
            out@ == plan_spec(*cfg, scored@.subrange(0, i as int)),
            total as nat == if sum_sizes(out@) > u64::MAX { u64::MAX as nat } else { sum_sizes(out@) },
        decreases scored.len() - i,
    {
        let c = &scored[i];
        proof {
            let pre = scored@.subrange(0, i as int + 1);
            assert(pre.drop_last() =~= scored@.subrange(0, i as int));
        }
        if out.len() < cfg.max_batch_size && !c.vetoed && c.total_score as u64 >= cfg.min_score as u64 * crate::scoring::SCORE_PER_MILLE {
            let ghost before = out@;
            out.push(c.duplicate());
            proof {
                assert(out@.drop_last() =~= before);
            }
            total = if total > u64::MAX - c.size_bytes { u64::MAX } else { total + c.size_bytes };
        }
        i = i + 1;
    }
    proof {
        assert(scored@.subrange(0, scored@.len() as int) =~= scored@);
        lemma_plan_len(*cfg, scored@);
    }
    DeletionPlan { candidates: out, total_reclaimable_bytes: total }
}

/// What the caller should do next.
#[derive(Debug, Clone, Copy, PartialEq, Eq, Structural)]
pub enum DeletionStep {
    /// Unlink plan item `index` (re-checking open handles first if configured).
    Delete { index: usize, recheck_open: bool },
    /// Dry run: report item `index` as would-delete; touch nothing.
    WouldDelete { index: usize },
    /// Stop: the plan is done, the breaker tripped, or pressure recovered.
    Finish,
}

/// What happened to one item.
#[derive(Debug, Clone, PartialEq, Eq)]
pub enum ItemOutcome {
    Deleted { bytes: u64 },
    /// An open handle was found at the last moment; the item was kept.
    SkippedOpen,
    Failed { error: String, error_code: String, recoverable: bool },
}

/// A per-item failure.
#[derive(Debug, Clone, PartialEq, Eq)]
pub struct DeletionFailure {
    pub path: String,
    pub error: String,
    pub error_code: String,
    pub recoverable: bool,
}

/// The run's decisions so far.
#[derive(Debug, Clone, PartialEq, Eq)]
pub struct DeletionRun {
    pub config: DeletionConfig,
    pub plan_len: usize,
    pub next: usize,
    pub consecutive_failures: u32,
    pub items_deleted: u64,
    pub items_skipped: u64,
    pub bytes_freed: u64,
    pub failures: Vec<DeletionFailure>,
    pub circuit_breaker_tripped: bool,
    pub pressure_recovered: bool,
}

impl DeletionRun {
    pub open spec fn wf(&self) -> bool {
        &&& self.next <= self.plan_len
        &&& self.items_deleted + self.items_skipped + self.failures@.len() == self.next
    }

    /// Finished: all items handled, breaker tripped, or pressure recovered.
    pub open spec fn done(&self) -> bool {
        self.next >= self.plan_len || self.circuit_breaker_tripped || self.pressure_recovered
    }

    pub open spec fn step_spec(&self) -> DeletionStep {
        if self.done() {
            DeletionStep::Finish
        } else if self.config.dry_run {
            DeletionStep::WouldDelete { index: self.next }
        } else {
            DeletionStep::Delete { index: self.next, recheck_open: self.config.check_open_files }
        }
    }

    /// A run over a plan.
    pub fn start(config: DeletionConfig, plan: &DeletionPlan) -> (r: Self)
        ensures
            r.wf(),
            r.config == config,
            r.plan_len == plan.candidates@.len(),
            r.next == 0,
            !r.circuit_breaker_tripped && !r.pressure_recovered,
    {
        DeletionRun {
            config,
            plan_len: plan.candidates.len(),
            next: 0,
            consecutive_failures: 0,
            items_deleted: 0,
            items_skipped: 0,
            bytes_freed: 0,
            failures: Vec::new(),
            circuit_breaker_tripped: false,
            pressure_recovered: false,
        }
    }

    /// The next step. A dry run never asks for an unlink.
    pub fn next_step(&self) -> (r: DeletionStep)
        ensures
            r == self.step_spec(),
            self.config.dry_run ==> !(r is Delete),
    {
        if self.next >= self.plan_len || self.circuit_breaker_tripped || self.pressure_recovered {
            DeletionStep::Finish
        } else if self.config.dry_run {
            DeletionStep::WouldDelete { index: self.next }
        } else {
            DeletionStep::Delete { index: self.next, recheck_open: self.config.check_open_files }
        }
    }

    /// Records the outcome of the current item. A would-delete in a dry run
    /// is recorded as `Deleted` with the item's size. Enough consecutive
    /// failures trip the breaker, which ends the run.
    pub fn record(&mut self, path: String, outcome: ItemOutcome)
        requires
            old(self).wf(),
            !old(self).done(),
            old(self).next < usize::MAX,
        ensures
            final(self).wf(),
            final(self).next == old(self).next + 1,
            final(self).config == old(self).config,
            final(self).plan_len == old(self).plan_len,
            final(self).pressure_recovered == old(self).pressure_recovered,
            outcome is Failed ==> final(self).consecutive_failures as int == if old(self).consecutive_failures == u32::MAX {
                u32::MAX as int
            } else {
                old(self).consecutive_failures + 1
            },
            !(outcome is Failed) ==> final(self).consecutive_failures == 0,
            final(self).circuit_breaker_tripped == (old(self).circuit_breaker_tripped
                || (outcome is Failed && final(self).consecutive_failures >= old(self).config.circuit_breaker_threshold)),
            outcome is Deleted ==> final(self).items_deleted == old(self).items_deleted + 1
                && final(self).items_skipped == old(self).items_skipped && final(self).failures@ == old(self).failures@,
            outcome is SkippedOpen ==> final(self).items_skipped == old(self).items_skipped + 1
                && final(self).items_deleted == old(self).items_deleted && final(self).failures@ == old(self).failures@
                && final(self).bytes_freed == old(self).bytes_freed,
            outcome matches ItemOutcome::Failed { error, error_code, recoverable } ==> {
                &&& final(self).failures@ == old(self).failures@.push(DeletionFailure { path, error, error_code, recoverable })
                &&& final(self).items_deleted == old(self).items_deleted
                &&& final(self).items_skipped == old(self).items_skipped
                &&& final(self).bytes_freed == old(self).bytes_freed
            },
            outcome matches ItemOutcome::Deleted { bytes } ==> final(self).bytes_freed as int == if old(self).bytes_freed as int + bytes > u64::MAX {
                u64::MAX as int
            } else {
                old(self).bytes_freed + bytes
            },
    {
        match outcome {
            ItemOutcome::Deleted { bytes } => {
                self.items_deleted = self.items_deleted + 1;
                self.bytes_freed = if self.bytes_freed > u64::MAX - bytes { u64::MAX } else { self.bytes_freed + bytes };
                self.consecutive_failures = 0;
            },
            ItemOutcome::SkippedOpen => {
                self.items_skipped = self.items_skipped + 1;
                self.consecutive_failures = 0;
            },
            ItemOutcome::Failed { error, error_code, recoverable } => {
                self.failures.push(DeletionFailure { path, error, error_code, recoverable });
                if self.consecutive_failures < u32::MAX {
                    self.consecutive_failures = self.consecutive_failures + 1;
                }
                if self.consecutive_failures >= self.config.circuit_breaker_threshold {
                    self.circuit_breaker_tripped = true;
                }
            },
        }
        self.next = self.next + 1;
    }

    /// The caller's pressure check reports the target recovered: stop.
    pub fn mark_pressure_recovered(&mut self)
        ensures
            final(self).pressure_recovered,
            final(self).done(),
            final(self).next == old(self).next,
            final(self).plan_len == old(self).plan_len,
            final(self).failures@ == old(self).failures@,
            final(self).items_deleted == old(self).items_deleted,
            final(self).items_skipped == old(self).items_skipped,
            final(self).config == old(self).config,
    {
        self.pressure_recovered = true;
    }
}

/// A tripped breaker or a recovered pressure target ends the run: no
/// further deletion is asked for.
pub proof fn lemma_stop_conditions_end_run(run: DeletionRun)
    requires
        run.circuit_breaker_tripped || run.pressure_recovered,
    ensures
        run.step_spec() == DeletionStep::Finish,
{
}

} // verus!
