//! Multi-factor candidate scoring with safety vetoes, a posterior estimate
//! of abandonment, expected losses, and a deterministic batch order.
//!
//! Evidence fractions are permille (1000 = 1.0). The pressure multiplier is
//! in millionths and `total_score` in billionths (3.0 = 3_000_000_000), so
//! that the product of the two loses nothing.

use vstd::prelude::*;
use crate::pid::{clamp, min_int};
use crate::protection::{ProtectionRegistry, ProtectionSource};
use crate::text::{contains_parent_ref, has_parent_ref, has_prefix, seq_lt, starts_with, str_eq, str_lt};

verus! {

/// Artifact families recognised by the pattern registry.
#[derive(Debug, Clone, Copy, PartialEq, Eq, Structural, Hash)]
pub enum ArtifactCategory {
    RustTarget,
    NodeModules,
    PythonCache,
    BuildOutput,
    CacheDir,
    TempDir,
    Unknown,
}

/// The pattern registry's verdict on a path.
#[derive(Debug, Clone, PartialEq, Eq)]
pub struct ArtifactClassification {
    pub pattern_name: String,
    pub category: ArtifactCategory,
    pub name_confidence: u32,
    pub structural_confidence: u32,
    pub combined_confidence: u32,
}

impl ArtifactClassification {
    /// A verified copy.
    pub fn duplicate(&self) -> (r: Self)
        ensures
            r == *self,
    {
        ArtifactClassification {
            pattern_name: self.pattern_name.clone(),
            category: self.category,
            name_confidence: self.name_confidence,
            structural_confidence: self.structural_confidence,
            combined_confidence: self.combined_confidence,
        }
    }
}

/// Child-directory evidence gathered by the walker.
#[derive(Debug, Clone, Copy, PartialEq, Eq, Structural, Default)]
pub struct StructuralSignals {
    pub has_incremental: bool,
    pub has_deps: bool,
    pub has_build: bool,
    pub has_fingerprint: bool,
    pub has_git: bool,
    pub has_cargo_toml: bool,
    pub mostly_object_files: bool,
}

/// One path under evaluation.
#[derive(Debug, Clone, PartialEq, Eq)]
pub struct CandidateInput {
    pub path: String,
    pub size_bytes: u64,
    pub age_secs: u64,
    pub classification: ArtifactClassification,
    pub signals: StructuralSignals,
    pub is_open: bool,
    pub excluded: bool,
}

/// Why a candidate may not be deleted, whatever its score.
#[derive(Debug, Clone, Copy, PartialEq, Eq, Structural, Hash)]
pub enum VetoReason {
    /// The path has an open handle.
    OpenFile,
    /// The path is in the user's excluded set.
    Excluded,
    /// The path is a system temporary root itself.
    ProtectedRoot,
    /// The path is not resolved: it has a `..` component, so where it points
    /// cannot be told from its text.
    UnresolvedPath,
    /// The path is the system root or a top-level directory (a mount boundary).
    SystemAncestor,
    /// Too young, and not confidently classified.
    TooYoung,
    /// A protection marker file covers the path.
    Marker,
    /// A configured protection pattern covers the path.
    ConfigPattern,
}

impl VetoReason {
    pub open spec fn label(self) -> Seq<char> {
        match self {
            VetoReason::OpenFile => "open_file"@,
            VetoReason::Excluded => "excluded"@,
            VetoReason::ProtectedRoot => "protected_root"@,
            VetoReason::UnresolvedPath => "unresolved_path"@,
            VetoReason::SystemAncestor => "system_ancestor"@,
            VetoReason::TooYoung => "too_young"@,
            VetoReason::Marker => "marker"@,
            VetoReason::ConfigPattern => "config_pattern"@,
        }
    }

    /// Stable label of the reason.
    pub fn as_str(self) -> (r: &'static str)
        ensures
            r@ == self.label(),
    {
        match self {
            VetoReason::OpenFile => "open_file",
            VetoReason::Excluded => "excluded",
            VetoReason::ProtectedRoot => "protected_root",
            VetoReason::UnresolvedPath => "unresolved_path",
            VetoReason::SystemAncestor => "system_ancestor",
            VetoReason::TooYoung => "too_young",
            VetoReason::Marker => "marker",
            VetoReason::ConfigPattern => "config_pattern",
        }
    }
}

/// What the scorer recommends.
#[derive(Debug, Clone, Copy, PartialEq, Eq, Structural, Hash)]
pub enum DecisionAction {
    Keep,
    Delete,
    Defer,
}

/// The six score dimensions, permille; `pressure_multiplier` is in millionths,
/// in [1_000_000, 3_000_000].
#[derive(Debug, Clone, Copy, PartialEq, Eq, Structural, Default)]
pub struct ScoreFactors {
    pub location: u32,
    pub name: u32,
    pub age: u32,
    pub size: u32,
    pub structure: u32,
    pub pressure_multiplier: u32,
}

/// Posterior, expected losses and the resulting action.
#[derive(Debug, Clone, Copy, PartialEq, Eq, Structural)]
pub struct DecisionOutcome {
    pub action: DecisionAction,
    /// Probability (permille) that the path is abandoned.
    pub posterior_abandoned: u32,
    pub expected_loss_keep: u64,
    pub expected_loss_delete: u64,
    pub calibration_score: u32,
    pub fallback_active: bool,
}

/// A scored candidate.
#[derive(Debug, Clone, PartialEq, Eq)]
pub struct CandidacyScore {
    pub path: String,
    pub size_bytes: u64,
    pub age_secs: u64,
    pub total_score: u32,
    pub factors: ScoreFactors,
    pub vetoed: bool,
    pub veto_reason: Option<VetoReason>,
    pub classification: ArtifactClassification,
    pub decision: DecisionOutcome,
}

impl CandidacyScore {
    /// A verified copy.
    pub fn duplicate(&self) -> (r: Self)
        ensures
            r == *self,
    {
        CandidacyScore {
            path: self.path.clone(),
            size_bytes: self.size_bytes,
            age_secs: self.age_secs,
            total_score: self.total_score,
            factors: self.factors,
            vetoed: self.vetoed,
            veto_reason: self.veto_reason,
            classification: self.classification.duplicate(),
            decision: self.decision,
        }
    }
}

/// Scoring weights and thresholds.
#[derive(Debug, Clone, Copy, PartialEq, Eq)]
pub struct ScoringConfig {
    pub location_weight: u32,
    pub name_weight: u32,
    pub age_weight: u32,
    pub size_weight: u32,
    pub structure_weight: u32,
    /// `k` of the pressure multiplier `1 + k * urgency`, permille; at most 2000.
    pub pressure_gain: u32,
    /// Lowest total score, permille (of 3000), at which deletion may be recommended.
    pub min_score: u32,
    /// Confidence below which a young candidate is vetoed.
    pub confidence_floor: u32,
    /// Age (hours) at which the age factor saturates.
    pub age_plateau_hours: u64,
    /// Posterior logit: `bias + slope * score - confidence_penalty * (1 - confidence)`.
    pub posterior_bias: i32,
    pub posterior_slope: u32,
    pub confidence_penalty: u32,
    pub false_positive_loss: u32,
    pub false_negative_loss: u32,
}

impl ScoringConfig {
    pub open spec fn wf(&self) -> bool {
        &&& self.location_weight + self.name_weight + self.age_weight + self.size_weight
            + self.structure_weight == 1000
        &&& self.pressure_gain <= 2000
        &&& self.min_score <= 3000
        &&& self.confidence_floor <= 1000
        &&& 0 < self.age_plateau_hours <= 1_000_000
        &&& -100_000 <= self.posterior_bias <= 100_000
        &&& self.posterior_slope <= 100_000
        &&& self.confidence_penalty <= 100_000
    }

    pub open spec fn default_spec() -> Self {
        ScoringConfig {
            location_weight: 250,
            name_weight: 250,
            age_weight: 200,
            size_weight: 150,
            structure_weight: 150,
            pressure_gain: 1000,
            min_score: 700,
            confidence_floor: 800,
            age_plateau_hours: 24,
            posterior_bias: -1000i32,
            posterior_slope: 1500,
            confidence_penalty: 2000,
            false_positive_loss: 50,
            false_negative_loss: 10,
        }
    }
}

impl Default for ScoringConfig {
    fn default() -> (r: Self)
        ensures
            r == ScoringConfig::default_spec(),
    {
        ScoringConfig {
            location_weight: 250,
            name_weight: 250,
            age_weight: 200,
            size_weight: 150,
            structure_weight: 150,
            pressure_gain: 1000,
            min_score: 700,
            confidence_floor: 800,
            age_plateau_hours: 24,
            posterior_bias: -1000,
            posterior_slope: 1500,
            confidence_penalty: 2000,
            false_positive_loss: 50,
            false_negative_loss: 10,
        }
    }
}

/// Number of binary digits of `n` (0 for 0).
pub open spec fn bit_len(n: nat) -> nat
    decreases n,
{
    if n == 0 { 0 } else { 1 + bit_len(n / 2) }
}

/// A system temporary root itself (not its descendants).
pub open spec fn is_protected_root(p: Seq<char>) -> bool {
    p == "/tmp"@ || p == "/tmp/"@ || p == "/var/tmp"@ || p == "/var/tmp/"@
        || p == "/dev/shm"@ || p == "/dev/shm/"@
}

/// The system root or a top-level directory: no separator after the first
/// character, a trailing one aside. An empty path counts too.
pub open spec fn is_top_level(p: Seq<char>) -> bool {
    p.len() == 0 || (p[0] == '/' && forall|i: int| 1 <= i < p.len() - 1 ==> p[i] != '/')
}

/// Well-known scratch locations score highest.
pub open spec fn location_factor(p: Seq<char>) -> int {
    if has_prefix(p, "/tmp/"@) || has_prefix(p, "/var/tmp/"@) || has_prefix(p, "/dev/shm/"@) {
        900
    } else if has_prefix(p, "/data/"@) {
        700
    } else if has_prefix(p, "/home/"@) {
        600
    } else {
        400
    }
}

pub open spec fn age_factor(cfg: ScoringConfig, age_secs: int) -> int {
    min_int(1000, ((age_secs / 3600) * 1000) / cfg.age_plateau_hours as int)
}

/// Saturating logarithmic size factor: 25 permille per binary digit.
pub open spec fn size_factor(size_bytes: int) -> int {
    min_int(1000, bit_len(size_bytes as nat) as int * 25)
}

pub open spec fn signal_count(s: StructuralSignals) -> int {
    (if s.has_incremental { 1int } else { 0 }) + (if s.has_deps { 1int } else { 0 })
        + (if s.has_build { 1int } else { 0 }) + (if s.has_fingerprint { 1int } else { 0 })
        + (if s.mostly_object_files { 1int } else { 0 })
}

/// Structural confidence blended with build-output signals; source-tree
/// markers (VCS, manifest) halve it.
pub open spec fn structure_factor(c: ArtifactClassification, s: StructuralSignals) -> int {
    let blended = (7 * min_int(c.structural_confidence as int, 1000) + 3 * (200 * signal_count(s))) / 10;
    if s.has_git || s.has_cargo_toml { blended / 2 } else { blended }
}

/// Pressure multiplier `1 + k * urgency`, in millionths (exact).
pub open spec fn multiplier(cfg: ScoringConfig, urgency: int) -> int {
    1_000_000 + cfg.pressure_gain * urgency
}

/// Largest total score: 3.0 in billionths.
pub const MAX_SCORE: u32 = 3_000_000_000;

/// Billionths of score in one permille.
pub const SCORE_PER_MILLE: u64 = 1_000_000;

pub open spec fn veto_of(cfg: ScoringConfig, min_age_secs: int, c: CandidateInput) -> Option<VetoReason> {
    if c.is_open {
        Some(VetoReason::OpenFile)
    } else if c.excluded {
        Some(VetoReason::Excluded)
    } else if has_parent_ref(c.path@) {
        Some(VetoReason::UnresolvedPath)
    } else if is_protected_root(c.path@) {
        Some(VetoReason::ProtectedRoot)
    } else if is_top_level(c.path@) {
        Some(VetoReason::SystemAncestor)
    } else if c.age_secs < min_age_secs && c.classification.combined_confidence < cfg.confidence_floor {
        Some(VetoReason::TooYoung)
    } else {
        None
    }
}

pub open spec fn factors_of(cfg: ScoringConfig, c: CandidateInput, urgency: int) -> ScoreFactors {
    ScoreFactors {
        location: location_factor(c.path@) as u32,
        name: min_int(c.classification.name_confidence as int, 1000) as u32,
        age: age_factor(cfg, c.age_secs as int) as u32,
        size: size_factor(c.size_bytes as int) as u32,
        structure: structure_factor(c.classification, c.signals) as u32,
        pressure_multiplier: multiplier(cfg, urgency) as u32,
    }
}

/// Weighted sum of the five evidence factors, permille.
pub open spec fn weighted_base(cfg: ScoringConfig, f: ScoreFactors) -> int {
    (cfg.location_weight * f.location + cfg.name_weight * f.name + cfg.age_weight * f.age
        + cfg.size_weight * f.size + cfg.structure_weight * f.structure) / 1000
}

/// Unvetoed total score in billionths: weighted base (permille) times
/// pressure multiplier (millionths), capped at 3.0.
pub open spec fn raw_total(cfg: ScoringConfig, c: CandidateInput, urgency: int) -> int {
    let f = factors_of(cfg, c, urgency);
    min_int(MAX_SCORE as int, weighted_base(cfg, f) * f.pressure_multiplier)
}

/// Piecewise-linear logistic: `0.5 + z / 4` clipped to [0, 1], permille.
pub open spec fn posterior_of(cfg: ScoringConfig, total: int, confidence: int) -> int {
    let z = cfg.posterior_bias + (cfg.posterior_slope * total) / 1_000_000_000
        - (cfg.confidence_penalty * (1000 - min_int(confidence, 1000))) / 1000;
    clamp((2000 + z) / 4, 0, 1000)
}

pub open spec fn outcome_of(cfg: ScoringConfig, total: int, confidence: int) -> DecisionOutcome {
    let p = posterior_of(cfg, total, confidence);
    let keep = p * cfg.false_negative_loss;
    let del = (1000 - p) * cfg.false_positive_loss;
    DecisionOutcome {
        action: if del < keep && total >= cfg.min_score * SCORE_PER_MILLE { DecisionAction::Delete } else { DecisionAction::Keep },
        posterior_abandoned: p as u32,
        expected_loss_keep: keep as u64,
        expected_loss_delete: del as u64,
        calibration_score: min_int(confidence, 1000) as u32,
        fallback_active: false,
    }
}

pub open spec fn vetoed_outcome() -> DecisionOutcome {
    DecisionOutcome {
        action: DecisionAction::Keep,
        posterior_abandoned: 0,
        expected_loss_keep: 0,
        expected_loss_delete: 0,
        calibration_score: 0,
        fallback_active: false,
    }
}

/// The score of a candidate with a given veto verdict.
pub open spec fn score_with_veto(
    cfg: ScoringConfig,
    c: CandidateInput,
    urgency: int,
    veto: Option<VetoReason>,
) -> CandidacyScore {
    match veto {
        Some(v) => CandidacyScore {
            path: c.path,
            size_bytes: c.size_bytes,
            age_secs: c.age_secs,
            total_score: 0,
            factors: ScoreFactors {
                location: 0,
                name: 0,
                age: 0,
                size: 0,
                structure: 0,
                pressure_multiplier: 1_000_000,
            },
            vetoed: true,
            veto_reason: Some(v),
            classification: c.classification,
            decision: vetoed_outcome(),
        },
        None => {
            let total = raw_total(cfg, c, urgency);
            CandidacyScore {
                path: c.path,
                size_bytes: c.size_bytes,
                age_secs: c.age_secs,
                total_score: total as u32,
                factors: factors_of(cfg, c, urgency),
                vetoed: false,
                veto_reason: None,
                classification: c.classification,
                decision: outcome_of(cfg, total, c.classification.combined_confidence as int),
            }
        },
    }
}


proof fn lemma_bit_len_le(n: nat)
    ensures
        bit_len(n) <= n,
    decreases n,
{
    if n > 0 {
        lemma_bit_len_le(n / 2);
    }
}

fn bit_len_exec(n: u64) -> (r: u64)
    ensures
        r as nat == bit_len(n as nat),
{
    let mut x: u64 = n;
    let mut count: u64 = 0;
    proof {
        lemma_bit_len_le(n as nat);
    }
    while x > 0
        invariant
            count as nat + bit_len(x as nat) == bit_len(n as nat),
            bit_len(n as nat) <= n,
        decreases x,
    {
        assert(bit_len(x as nat) == 1 + bit_len((x / 2) as nat));
        x = x / 2;
        count = count + 1;
    }
    count
}

fn is_protected_root_exec(p: &str) -> (r: bool)
    ensures
        r == is_protected_root(p@),
{
    str_eq(p, "/tmp") || str_eq(p, "/tmp/") || str_eq(p, "/var/tmp") || str_eq(p, "/var/tmp/")
        || str_eq(p, "/dev/shm") || str_eq(p, "/dev/shm/")
}

fn is_top_level_exec(p: &str) -> (r: bool)
    ensures
        r == is_top_level(p@),
{
    let n = p.unicode_len();
    if n == 0 {
        return true;
    }
    if p.get_char(0) != '/' {
        return false;
    }
    let mut i: usize = 1;
    while i < n - 1
        invariant
            n == p@.len(),
            n >= 1,
            1 <= i <= n,
            p@[0] == '/',
            forall|k: int| 1 <= k < i && k < n - 1 ==> p@[k] != '/',
        decreases n - i,
    {
        if p.get_char(i) == '/' {
            return false;
        }
        i = i + 1;
    }
    true
}

fn location_factor_exec(p: &str) -> (r: u32)
    ensures
        r as int == location_factor(p@),
{
    if starts_with(p, "/tmp/") || starts_with(p, "/var/tmp/") || starts_with(p, "/dev/shm/") {
        900
    } else if starts_with(p, "/data/") {
        700
    } else if starts_with(p, "/home/") {
        600
    } else {
        400
    }
}

/// The scoring engine: a configuration and the minimum file age.
#[derive(Debug, Clone, Copy, PartialEq, Eq)]
pub struct ScoringEngine {
    pub config: ScoringConfig,
    pub min_file_age_secs: u64,
}

impl ScoringEngine {
    pub open spec fn wf(&self) -> bool {
        self.config.wf()
    }

    /// Score of one candidate at a given urgency (permille).
    pub open spec fn score_spec(&self, c: CandidateInput, urgency: int) -> CandidacyScore {
        score_with_veto(
            self.config,
            c,
            urgency,
            veto_of(self.config, self.min_file_age_secs as int, c),
        )
    }

    /// Engine from a configuration and a minimum file age in minutes.
    pub fn from_config(config: &ScoringConfig, min_file_age_minutes: u64) -> (r: Self)
        ensures
            r.config == *config,
            r.min_file_age_secs == if min_file_age_minutes <= u64::MAX / 60 {
                min_file_age_minutes * 60
            } else {
                u64::MAX as int
            },
    {
        let secs = if min_file_age_minutes <= u64::MAX / 60 {
            min_file_age_minutes * 60
        } else {
            u64::MAX
        };
        ScoringEngine { config: *config, min_file_age_secs: secs }
    }

    /// The veto that applies to a candidate, if any.
    pub fn veto(&self, c: &CandidateInput) -> (r: Option<VetoReason>)
        ensures
            r == veto_of(self.config, self.min_file_age_secs as int, *c),
    {
        if c.is_open {
            Some(VetoReason::OpenFile)
        } else if c.excluded {
            Some(VetoReason::Excluded)
        } else if contains_parent_ref(c.path.as_str()) {
            Some(VetoReason::UnresolvedPath)
        } else if is_protected_root_exec(c.path.as_str()) {
            Some(VetoReason::ProtectedRoot)
        } else if is_top_level_exec(c.path.as_str()) {
            Some(VetoReason::SystemAncestor)
        } else if c.age_secs < self.min_file_age_secs
            && c.classification.combined_confidence < self.config.confidence_floor {
            Some(VetoReason::TooYoung)
        } else {
            None
        }
    }

    /// The six factors of an unvetoed candidate.
    pub fn factors(&self, c: &CandidateInput, urgency: u32) -> (r: ScoreFactors)
        requires
            self.wf(),
            urgency <= 1000,
        ensures
            r == factors_of(self.config, *c, urgency as int),
            r.location <= 1000 && r.name <= 1000 && r.age <= 1000 && r.size <= 1000
                && r.structure <= 1000,
            1_000_000 <= r.pressure_multiplier <= 3_000_000,
    {
        let location = location_factor_exec(c.path.as_str());
        let name = if c.classification.name_confidence > 1000 { 1000 } else { c.classification.name_confidence };
        let age = age_factor_exec(&self.config, c.age_secs);
        let size = size_factor_exec(c.size_bytes);
        let structure = structure_factor_exec(&c.classification, &c.signals);
        let mult = multiplier_exec(&self.config, urgency);
        ScoreFactors { location, name, age, size, structure, pressure_multiplier: mult }
    }
}

fn age_factor_exec(cfg: &ScoringConfig, age_secs: u64) -> (r: u32)
    requires
        cfg.wf(),
    ensures
        r as int == age_factor(*cfg, age_secs as int),
        r <= 1000,
{
    let hours: u64 = age_secs / 3600;
    let p = cfg.age_plateau_hours;
    proof {
        vstd::arithmetic::div_mod::lemma_div_multiples_vanish(1000, p as int);
        assert(1000 * p as int == p as int * 1000) by (nonlinear_arith);
    }
    if hours >= p {
        proof {
            assert(hours * 1000 >= p * 1000) by (nonlinear_arith)
                requires hours >= p;
            vstd::arithmetic::div_mod::lemma_div_is_ordered(p * 1000, hours * 1000, p as int);
        }
        1000
    } else {
        proof {
            assert(hours * 1000 < p * 1000) by (nonlinear_arith)
                requires hours < p;
            vstd::arithmetic::div_mod::lemma_div_is_ordered(hours * 1000, p * 1000, p as int);
        }
        ((hours * 1000) / p) as u32
    }
}

fn size_factor_exec(size_bytes: u64) -> (r: u32)
    ensures
        r as int == size_factor(size_bytes as int),
        r <= 1000,
{
    let bits = bit_len_exec(size_bytes);
    if bits >= 40 { 1000 } else { (bits * 25) as u32 }
}

fn structure_factor_exec(c: &ArtifactClassification, sig: &StructuralSignals) -> (r: u32)
    ensures
        r as int == structure_factor(*c, *sig),
        r <= 1000,
{
    let sc: u32 = if c.structural_confidence > 1000 { 1000 } else { c.structural_confidence };
    let count: u32 = (if sig.has_incremental { 1u32 } else { 0 }) + (if sig.has_deps { 1u32 } else { 0 })
        + (if sig.has_build { 1u32 } else { 0 }) + (if sig.has_fingerprint { 1u32 } else { 0 })
        + (if sig.mostly_object_files { 1u32 } else { 0 });
    let blended: u32 = (7 * sc + 3 * (200 * count)) / 10;
    if sig.has_git || sig.has_cargo_toml { blended / 2 } else { blended }
}

fn multiplier_exec(cfg: &ScoringConfig, urgency: u32) -> (r: u32)
    requires
        cfg.wf(),
        urgency <= 1000,
    ensures
        r as int == multiplier(*cfg, urgency as int),
        1_000_000 <= r <= 3_000_000,
{
    proof {
        assert(cfg.pressure_gain as int * urgency as int <= 2000 * 1000) by (nonlinear_arith)
            requires cfg.pressure_gain <= 2000, urgency <= 1000;
    }
    1_000_000 + cfg.pressure_gain * urgency
}

fn weighted_base_exec(cfg: &ScoringConfig, f: &ScoreFactors) -> (r: u32)
    requires
        cfg.wf(),
        f.location <= 1000 && f.name <= 1000 && f.age <= 1000 && f.size <= 1000 && f.structure <= 1000,
    ensures
        r as int == weighted_base(*cfg, *f),
        r <= 1000,
{
    proof {
        assert(cfg.location_weight * f.location <= cfg.location_weight * 1000) by (nonlinear_arith)
            requires f.location <= 1000;
        assert(cfg.name_weight * f.name <= cfg.name_weight * 1000) by (nonlinear_arith)
            requires f.name <= 1000;
        assert(cfg.age_weight * f.age <= cfg.age_weight * 1000) by (nonlinear_arith)
            requires f.age <= 1000;
        assert(cfg.size_weight * f.size <= cfg.size_weight * 1000) by (nonlinear_arith)
            requires f.size <= 1000;
        assert(cfg.structure_weight * f.structure <= cfg.structure_weight * 1000) by (nonlinear_arith)
            requires f.structure <= 1000;
    }
    let sum: u64 = cfg.location_weight as u64 * f.location as u64 + cfg.name_weight as u64 * f.name as u64
        + cfg.age_weight as u64 * f.age as u64 + cfg.size_weight as u64 * f.size as u64
        + cfg.structure_weight as u64 * f.structure as u64;
    proof {
        vstd::arithmetic::div_mod::lemma_div_is_ordered(sum as int, 1_000_000, 1000);
    }
    (sum / 1000) as u32
}

fn posterior_exec(cfg: &ScoringConfig, total: u32, confidence: u32) -> (r: u32)
    requires
        cfg.wf(),
        total <= MAX_SCORE,
    ensures
        r as int == posterior_of(*cfg, total as int, confidence as int),
        r <= 1000,
{
    let conf: u32 = if confidence > 1000 { 1000 } else { confidence };
    proof {
        assert(cfg.posterior_slope as int * total as int <= 100_000 * 3_000_000_000) by (nonlinear_arith)
            requires cfg.posterior_slope <= 100_000, total <= MAX_SCORE;
        assert(cfg.confidence_penalty as int * (1000 - conf) as int <= 100_000 * 1000) by (nonlinear_arith)
            requires cfg.confidence_penalty <= 100_000, conf <= 1000;
        vstd::arithmetic::div_mod::lemma_div_is_ordered(cfg.posterior_slope as int * total as int, 300_000_000_000_000, 1_000_000_000);
        vstd::arithmetic::div_mod::lemma_div_is_ordered(cfg.confidence_penalty as int * (1000 - conf) as int, 100_000_000, 1000);
    }
    let up: i64 = ((cfg.posterior_slope as u64 * total as u64) / 1_000_000_000) as i64;
    let down: i64 = ((cfg.confidence_penalty as u64 * (1000 - conf) as u64) / 1000) as i64;
    let w: i64 = 2000 + cfg.posterior_bias as i64 + up - down;
    if w <= 0 {
        proof {
            if w < 0 {
                vstd::arithmetic::div_mod::lemma_div_is_ordered(w as int, 0, 4);
            }
        }
        0
    } else {
        let q: i64 = w / 4;
        if q > 1000 { 1000 } else { q as u32 }
    }
}

fn outcome_exec(cfg: &ScoringConfig, total: u32, confidence: u32) -> (r: DecisionOutcome)
    requires
        cfg.wf(),
        total <= MAX_SCORE,
    ensures
        r == outcome_of(*cfg, total as int, confidence as int),
{
    let p = posterior_exec(cfg, total, confidence);
    proof {
        assert(p as int * cfg.false_negative_loss as int <= 1000 * 0xffff_ffff) by (nonlinear_arith)
            requires p <= 1000, cfg.false_negative_loss <= 0xffff_ffff;
        assert((1000 - p) as int * cfg.false_positive_loss as int <= 1000 * 0xffff_ffff) by (nonlinear_arith)
            requires p <= 1000, cfg.false_positive_loss <= 0xffff_ffff;
    }
    let keep: u64 = p as u64 * cfg.false_negative_loss as u64;
    let del: u64 = (1000 - p) as u64 * cfg.false_positive_loss as u64;
    let action = if del < keep && total as u64 >= cfg.min_score as u64 * SCORE_PER_MILLE { DecisionAction::Delete } else { DecisionAction::Keep };
    let conf: u32 = if confidence > 1000 { 1000 } else { confidence };
    DecisionOutcome {
        action,
        posterior_abandoned: p,
        expected_loss_keep: keep,
        expected_loss_delete: del,
        calibration_score: conf,
        fallback_active: false,
    }
}

impl ScoringEngine {
    /// Scores one candidate at urgency `urgency` (permille).
    pub fn score_candidate(&self, c: &CandidateInput, urgency: u32) -> (r: CandidacyScore)
        requires
            self.wf(),
            urgency <= 1000,
        ensures
            r == self.score_spec(*c, urgency as int),
            r.total_score <= MAX_SCORE,
            r.vetoed ==> r.total_score == 0 && r.decision.action == DecisionAction::Keep,
            r.vetoed == veto_of(self.config, self.min_file_age_secs as int, *c).is_some(),
    {
        let veto = self.veto(c);
        self.score_given_veto(c, urgency, veto)
    }

    /// Scores a candidate whose veto verdict is already known.
    pub fn score_given_veto(&self, c: &CandidateInput, urgency: u32, veto: Option<VetoReason>) -> (r: CandidacyScore)
        requires
            self.wf(),
            urgency <= 1000,
        ensures
            r == score_with_veto(self.config, *c, urgency as int, veto),
            r.total_score <= MAX_SCORE,
            r.vetoed == veto.is_some(),
    {
        match veto {
            Some(v) => CandidacyScore {
                path: c.path.clone(),
                size_bytes: c.size_bytes,
                age_secs: c.age_secs,
                total_score: 0,
                factors: ScoreFactors {
                    location: 0,
                    name: 0,
                    age: 0,
                    size: 0,
                    structure: 0,
                    pressure_multiplier: 1_000_000,
                },
                vetoed: true,
                veto_reason: Some(v),
                classification: c.classification.duplicate(),
                decision: DecisionOutcome {
                    action: DecisionAction::Keep,
                    posterior_abandoned: 0,
                    expected_loss_keep: 0,
                    expected_loss_delete: 0,
                    calibration_score: 0,
                    fallback_active: false,
                },
            },
            None => {
                let f = self.factors(c, urgency);
                let base = weighted_base_exec(&self.config, &f);
                proof {
                    assert(base as int * f.pressure_multiplier as int <= 1000 * 3_000_000) by (nonlinear_arith)
                        requires base <= 1000, f.pressure_multiplier <= 3_000_000;
                }
                let scaled: u64 = base as u64 * f.pressure_multiplier as u64;
                let total: u32 = if scaled > MAX_SCORE as u64 { MAX_SCORE } else { scaled as u32 };
                let decision = outcome_exec(&self.config, total, c.classification.combined_confidence);
                CandidacyScore {
                    path: c.path.clone(),
                    size_bytes: c.size_bytes,
                    age_secs: c.age_secs,
                    total_score: total,
                    factors: f,
                    vetoed: false,
                    veto_reason: None,
                    classification: c.classification.duplicate(),
                    decision,
                }
            },
        }
    }
}

/// Urgency monotonicity: for a fixed candidate, raising urgency never lowers
/// its total score; when no veto fires, the pressure gain is positive, the
/// evidence base is positive and the cap is not reached, it strictly raises it.
pub proof fn lemma_score_monotone_in_urgency(engine: ScoringEngine, c: CandidateInput, u1: int, u2: int)
    requires
        engine.wf(),
        0 <= u1 <= u2 <= 1000,
    ensures
        engine.score_spec(c, u1).total_score <= engine.score_spec(c, u2).total_score,
        veto_of(engine.config, engine.min_file_age_secs as int, c) is None && engine.config.pressure_gain > 0
            && weighted_base(engine.config, factors_of(engine.config, c, u1)) > 0 && u1 < u2
            && engine.score_spec(c, u2).total_score < MAX_SCORE
            ==> engine.score_spec(c, u1).total_score < engine.score_spec(c, u2).total_score,
{
    let cfg = engine.config;
    if veto_of(cfg, engine.min_file_age_secs as int, c).is_none() {
        let f1 = factors_of(cfg, c, u1);
        let f2 = factors_of(cfg, c, u2);
        assert(cfg.pressure_gain * u1 <= cfg.pressure_gain * u2) by (nonlinear_arith)
            requires u1 <= u2, cfg.pressure_gain >= 0;
        assert(cfg.pressure_gain * u2 <= 2000 * 1000) by (nonlinear_arith)
            requires u2 <= 1000, cfg.pressure_gain <= 2000;
        assert(0 <= cfg.pressure_gain * u1) by (nonlinear_arith)
            requires u1 >= 0, cfg.pressure_gain >= 0;
        assert(weighted_base(cfg, f1) == weighted_base(cfg, f2));
        let b = weighted_base(cfg, f1);
        vstd::arithmetic::div_mod::lemma_div_pos_is_pos(
            cfg.location_weight * f1.location + cfg.name_weight * f1.name + cfg.age_weight * f1.age
                + cfg.size_weight * f1.size + cfg.structure_weight * f1.structure, 1000);
        assert(b * f1.pressure_multiplier <= b * f2.pressure_multiplier) by (nonlinear_arith)
            requires b >= 0, f1.pressure_multiplier <= f2.pressure_multiplier;
        if cfg.pressure_gain > 0 && b > 0 && u1 < u2 {
            assert(cfg.pressure_gain * u1 < cfg.pressure_gain * u2) by (nonlinear_arith)
                requires u1 < u2, cfg.pressure_gain > 0;
            assert(b * f1.pressure_multiplier < b * f2.pressure_multiplier) by (nonlinear_arith)
                requires b > 0, f1.pressure_multiplier < f2.pressure_multiplier;
        }
    }
}

/// Score bounds: every score lies in [0, 3.0] (billionths), and a
/// vetoed candidate scores 0 with action Keep.
pub proof fn lemma_score_bounds(engine: ScoringEngine, c: CandidateInput, u: int)
    requires
        engine.wf(),
        0 <= u <= 1000,
    ensures
        0 <= engine.score_spec(c, u).total_score <= MAX_SCORE,
        engine.score_spec(c, u).vetoed ==> engine.score_spec(c, u).total_score == 0
            && engine.score_spec(c, u).decision.action == DecisionAction::Keep,
{
}

/// For equal confidence, a higher total score never gives a lower posterior.
pub proof fn lemma_posterior_monotone_in_score(cfg: ScoringConfig, t1: int, t2: int, confidence: int)
    requires
        cfg.wf(),
        0 <= t1 <= t2,
    ensures
        posterior_of(cfg, t1, confidence) <= posterior_of(cfg, t2, confidence),
{
    assert(cfg.posterior_slope * t1 <= cfg.posterior_slope * t2) by (nonlinear_arith)
        requires t1 <= t2, cfg.posterior_slope >= 0;
    vstd::arithmetic::div_mod::lemma_div_is_ordered(cfg.posterior_slope * t1, cfg.posterior_slope * t2, 1_000_000_000);
    let pen = (cfg.confidence_penalty * (1000 - min_int(confidence, 1000))) / 1000;
    let z1 = cfg.posterior_bias + (cfg.posterior_slope * t1) / 1_000_000_000 - pen;
    let z2 = cfg.posterior_bias + (cfg.posterior_slope * t2) / 1_000_000_000 - pen;
    vstd::arithmetic::div_mod::lemma_div_is_ordered(2000 + z1, 2000 + z2, 4);
}

/// Expected loss of keeping grows with the posterior, that of deleting shrinks.
pub proof fn lemma_expected_losses_track_posterior(cfg: ScoringConfig, t1: int, t2: int, confidence: int)
    requires
        cfg.wf(),
        0 <= t1 <= t2 <= MAX_SCORE,
    ensures
        outcome_of(cfg, t1, confidence).expected_loss_keep <= outcome_of(cfg, t2, confidence).expected_loss_keep,
        outcome_of(cfg, t1, confidence).expected_loss_delete >= outcome_of(cfg, t2, confidence).expected_loss_delete,
{
    lemma_posterior_monotone_in_score(cfg, t1, t2, confidence);
    let p1 = posterior_of(cfg, t1, confidence);
    let p2 = posterior_of(cfg, t2, confidence);
    assert(p1 * cfg.false_negative_loss <= p2 * cfg.false_negative_loss) by (nonlinear_arith)
        requires p1 <= p2, cfg.false_negative_loss >= 0;
    assert((1000 - p2) * cfg.false_positive_loss <= (1000 - p1) * cfg.false_positive_loss) by (nonlinear_arith)
        requires p1 <= p2, cfg.false_positive_loss >= 0;
    assert(p2 * cfg.false_negative_loss <= 1000 * 0xffff_ffff) by (nonlinear_arith)
        requires 0 <= p2 <= 1000, cfg.false_negative_loss <= 0xffff_ffff;
    assert((1000 - p1) * cfg.false_positive_loss <= 1000 * 0xffff_ffff) by (nonlinear_arith)
        requires 0 <= p1 <= 1000, cfg.false_positive_loss <= 0xffff_ffff;
    assert(0 <= p1 * cfg.false_negative_loss) by (nonlinear_arith)
        requires 0 <= p1, cfg.false_negative_loss >= 0;
    assert(0 <= (1000 - p2) * cfg.false_positive_loss) by (nonlinear_arith)
        requires p2 <= 1000, cfg.false_positive_loss >= 0;
}

/// Batch order: higher total score first; equal scores by ascending path.
pub open spec fn precedes(a: CandidacyScore, b: CandidacyScore) -> bool {
    a.total_score > b.total_score || (a.total_score == b.total_score && seq_lt(a.path@, b.path@))
}

/// No element is preceded by a later one.
pub open spec fn is_ranked(s: Seq<CandidacyScore>) -> bool {
    forall|i: int, j: int| 0 <= i < j < s.len() ==> !precedes(#[trigger] s[j], #[trigger] s[i])
}

/// Where `x` goes in a ranked sequence: before the first element it precedes.
pub open spec fn insert_pos(s: Seq<CandidacyScore>, x: CandidacyScore) -> int
    decreases s.len(),
{
    if s.len() == 0 {
        0
    } else if precedes(x, s[0]) {
        0
    } else {
        1 + insert_pos(s.drop_first(), x)
    }
}

/// Stable insertion-sort order of a sequence of scores.
pub open spec fn rank_all(s: Seq<CandidacyScore>) -> Seq<CandidacyScore>
    decreases s.len(),
{
    if s.len() == 0 {
        s
    } else {
        let r = rank_all(s.drop_last());
        r.insert(insert_pos(r, s.last()), s.last())
    }
}

impl ScoringEngine {
    /// Scores of a batch in input order.
    pub open spec fn scores_spec(&self, inputs: Seq<CandidateInput>, urgency: int) -> Seq<CandidacyScore> {
        inputs.map_values(|c: CandidateInput| self.score_spec(c, urgency))
    }

    /// A scored batch in batch order.
    pub open spec fn batch_spec(&self, inputs: Seq<CandidateInput>, urgency: int) -> Seq<CandidacyScore> {
        rank_all(self.scores_spec(inputs, urgency))
    }
}

proof fn lemma_precedes_transitive(a: CandidacyScore, b: CandidacyScore, c: CandidacyScore)
    requires
        precedes(a, b),
        precedes(b, c),
    ensures
        precedes(a, c),
{
    if a.total_score == b.total_score && b.total_score == c.total_score {
        crate::text::lemma_seq_lt_transitive(a.path@, b.path@, c.path@);
    }
}

proof fn lemma_precedes_asymmetric(a: CandidacyScore, b: CandidacyScore)
    requires
        precedes(a, b),
    ensures
        !precedes(b, a),
{
    if precedes(b, a) {
        lemma_precedes_transitive(a, b, a);
        crate::text::lemma_seq_lt_irreflexive(a.path@);
    }
}

proof fn lemma_insert_pos_props(s: Seq<CandidacyScore>, x: CandidacyScore)
    ensures
        0 <= insert_pos(s, x) <= s.len(),
        forall|k: int| 0 <= k < insert_pos(s, x) ==> !precedes(x, #[trigger] s[k]),
        insert_pos(s, x) < s.len() ==> precedes(x, s[insert_pos(s, x)]),
    decreases s.len(),
{
    if s.len() > 0 && !precedes(x, s[0]) {
        lemma_insert_pos_props(s.drop_first(), x);
        assert forall|k: int| 0 <= k < insert_pos(s, x) implies !precedes(x, #[trigger] s[k]) by {
            if k > 0 {
                assert(s[k] == s.drop_first()[k - 1]);
            }
        }
    }
}

proof fn lemma_insert_pos_unique(s: Seq<CandidacyScore>, x: CandidacyScore, j: int)
    requires
        0 <= j <= s.len(),
        forall|k: int| 0 <= k < j ==> !precedes(x, #[trigger] s[k]),
        j < s.len() ==> precedes(x, s[j]),
    ensures
        insert_pos(s, x) == j,
    decreases s.len(),
{
    if s.len() > 0 && j > 0 {
        assert(!precedes(x, s[0]));
        assert forall|k: int| 0 <= k < j - 1 implies !precedes(x, #[trigger] s.drop_first()[k]) by {
            assert(s.drop_first()[k] == s[k + 1]);
        }
        lemma_insert_pos_unique(s.drop_first(), x, j - 1);
    }
}

proof fn lemma_insert_keeps_ranked(s: Seq<CandidacyScore>, x: CandidacyScore)
    requires
        is_ranked(s),
    ensures
        is_ranked(s.insert(insert_pos(s, x), x)),
{
    lemma_insert_pos_props(s, x);
    let p = insert_pos(s, x);
    let t = s.insert(p, x);
    assert forall|i: int, j: int| 0 <= i < j < t.len() implies !precedes(#[trigger] t[j], #[trigger] t[i]) by {
        if i < p && j < p {
            assert(t[i] == s[i] && t[j] == s[j]);
        } else if i < p && j == p {
            assert(t[i] == s[i]);
        } else if i < p {
            assert(t[i] == s[i] && t[j] == s[j - 1]);
        } else if i == p {
            assert(t[j] == s[j - 1]);
            assert(precedes(x, s[p]));
            if j - 1 == p {
                lemma_precedes_asymmetric(x, s[p]);
            } else {
                assert(!precedes(s[j - 1], s[p]));
                if precedes(s[j - 1], x) {
                    lemma_precedes_transitive(s[j - 1], x, s[p]);
                }
            }
        } else {
            assert(t[i] == s[i - 1] && t[j] == s[j - 1]);
        }
    }
}

/// The batch order is a total ranking: no element is preceded by a later one.
pub proof fn lemma_rank_all_ranked(s: Seq<CandidacyScore>)
    ensures
        is_ranked(rank_all(s)),
        rank_all(s).to_multiset() == s.to_multiset(),
        rank_all(s).len() == s.len(),
    decreases s.len(),
{
    if s.len() > 0 {
        let r = rank_all(s.drop_last());
        lemma_rank_all_ranked(s.drop_last());
        lemma_insert_keeps_ranked(r, s.last());
        lemma_insert_pos_props(r, s.last());
        vstd::seq_lib::to_multiset_insert(r, insert_pos(r, s.last()), s.last());
        vstd::seq_lib::to_multiset_build(s.drop_last(), s.last());
        assert(s.drop_last().push(s.last()) =~= s);
    }
}

/// Deterministic ranking: the scored batch holds exactly the scores of the
/// inputs, sorted by descending total score, and candidates with equal
/// scores (in particular, equal features) stand in ascending path order.
pub proof fn lemma_batch_ranked(engine: ScoringEngine, inputs: Seq<CandidateInput>, u: int)
    ensures
        engine.batch_spec(inputs, u).to_multiset() == engine.scores_spec(inputs, u).to_multiset(),
        forall|i: int, j: int|
            0 <= i < j < engine.batch_spec(inputs, u).len() ==> {
                let a = #[trigger] engine.batch_spec(inputs, u)[i];
                let b = #[trigger] engine.batch_spec(inputs, u)[j];
                &&& a.total_score >= b.total_score
                &&& a.total_score == b.total_score ==> !seq_lt(b.path@, a.path@)
            },
{
    lemma_rank_all_ranked(engine.scores_spec(inputs, u));
}

fn precedes_exec(a: &CandidacyScore, b: &CandidacyScore) -> (r: bool)
    ensures
        r == precedes(*a, *b),
{
    a.total_score > b.total_score
        || (a.total_score == b.total_score && str_lt(a.path.as_str(), b.path.as_str()))
}

fn find_insert_pos(s: &Vec<CandidacyScore>, x: &CandidacyScore) -> (r: usize)
    ensures
        r as int == insert_pos(s@, *x),
{
    let mut j: usize = 0;
    while j < s.len()
        invariant
            j <= s@.len(),
            forall|k: int| 0 <= k < j ==> !precedes(*x, #[trigger] s@[k]),
        decreases s.len() - j,
    {
        if precedes_exec(x, &s[j]) {
            proof {
                lemma_insert_pos_unique(s@, *x, j as int);
            }
            return j;
        }
        j = j + 1;
    }
    proof {
        lemma_insert_pos_unique(s@, *x, j as int);
    }
    j
}

impl ScoringEngine {
    /// Scores a batch and returns it in batch order: descending total score,
    /// ties broken by ascending path.
    pub fn score_batch(&self, inputs: &Vec<CandidateInput>, urgency: u32) -> (r: Vec<CandidacyScore>)
        requires
            self.wf(),
            urgency <= 1000,
        ensures
            r@ == self.batch_spec(inputs@, urgency as int),
            r@.len() == inputs@.len(),
    {
        let mut out: Vec<CandidacyScore> = Vec::new();
        let mut i: usize = 0;
        while i < inputs.len()
            invariant
                self.wf(),
                urgency <= 1000,
                i <= inputs@.len(),
                out@ == rank_all(self.scores_spec(inputs@.subrange(0, i as int), urgency as int)),
            decreases inputs.len() - i,
        {
            let sc = self.score_candidate(&inputs[i], urgency);
            let pos = find_insert_pos(&out, &sc);
            proof {
                let pre = self.scores_spec(inputs@.subrange(0, i as int + 1), urgency as int);
                assert(pre.drop_last() =~= self.scores_spec(inputs@.subrange(0, i as int), urgency as int));
                assert(pre.last() == sc);
                lemma_insert_pos_props(out@, sc);
            }
            out.insert(pos, sc);
            i = i + 1;
        }
        proof {
            assert(inputs@.subrange(0, inputs@.len() as int) =~= inputs@);
            lemma_rank_all_ranked(self.scores_spec(inputs@, urgency as int));
        }
        out
    }
}

/// The veto of a candidate once protections are consulted; a protection
/// outranks every other reason.
pub open spec fn protected_veto(
    engine: ScoringEngine,
    reg: ProtectionRegistry,
    c: CandidateInput,
) -> Option<VetoReason> {
    match reg.protection_of(c.path@) {
        Some(ProtectionSource::MarkerFile) => Some(VetoReason::Marker),
        Some(ProtectionSource::ConfigPattern) => Some(VetoReason::ConfigPattern),
        None => veto_of(engine.config, engine.min_file_age_secs as int, c),
    }
}

impl ScoringEngine {
    /// Scores a candidate after consulting the protection registry: a
    /// protected path is vetoed whatever its evidence.
    pub fn score_protected(&self, c: &CandidateInput, urgency: u32, reg: &ProtectionRegistry) -> (r: CandidacyScore)
        requires
            self.wf(),
            urgency <= 1000,
        ensures
            r == score_with_veto(self.config, *c, urgency as int, protected_veto(*self, *reg, *c)),
            reg.protection_of(c.path@) == Some(ProtectionSource::MarkerFile) ==> {
                &&& r.vetoed
                &&& r.total_score == 0
                &&& r.decision.action == DecisionAction::Keep
                &&& r.veto_reason == Some(VetoReason::Marker)
            },
            reg.protection_of(c.path@) is None ==> r == self.score_spec(*c, urgency as int),
    {
        let veto = match reg.is_protected(c.path.as_str()) {
            Some(ProtectionSource::MarkerFile) => Some(VetoReason::Marker),
            Some(ProtectionSource::ConfigPattern) => Some(VetoReason::ConfigPattern),
            None => self.veto(c),
        };
        self.score_given_veto(c, urgency, veto)
    }
}

/// Determinism: scoring is a function of the engine, the inputs and the
/// urgency alone, so two runs on the same inputs give identical batches.
pub proof fn lemma_scoring_deterministic(
    engine: ScoringEngine,
    inputs: Seq<CandidateInput>,
    u: int,
    first: Seq<CandidacyScore>,
    second: Seq<CandidacyScore>,
)
    requires
        first == engine.batch_spec(inputs, u),
        second == engine.batch_spec(inputs, u),
    ensures
        first == second,
{
}

} // verus!
