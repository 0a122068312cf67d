use sbh::decision_record::{format_explain, ActionRecord, DecisionRecordBuilder, ExplainLevel, PolicyMode};
use sbh::guardrails::{AdaptiveGuard, CalibrationObservation, GuardDiagnostics, GuardStatus, GuardrailConfig};
use sbh::policy::{ActiveMode, FallbackReason, PolicyConfig, PolicyEngine};
use sbh::rng::SeededRng;
use sbh::scoring::{
    ArtifactCategory, ArtifactClassification, CandidacyScore, CandidateInput, DecisionAction,
    DecisionOutcome, ScoreFactors, ScoringConfig, ScoringEngine, StructuralSignals,
};

fn next_f64(rng: &mut SeededRng) -> f64 {
    (rng.next_u64() >> 11) as f64 / (1u64 << 53) as f64
}

fn permille(x: f64) -> u32 {
    (x * 1000.0).round() as u32
}

fn make_candidate(rng: &mut SeededRng, path: &str, age_hours: u64, size_gib: u64, confidence: f64) -> CandidateInput {
    CandidateInput {
        path: path.to_string(),
        size_bytes: size_gib * 1_073_741_824,
        age_secs: age_hours * 3600,
        classification: ArtifactClassification {
            pattern_name: ".target*".to_string(),
            category: ArtifactCategory::RustTarget,
            name_confidence: permille(confidence),
            structural_confidence: permille(confidence * 0.9),
            combined_confidence: permille(confidence),
        },
        signals: StructuralSignals {
            has_incremental: next_f64(rng) > 0.3,
            has_deps: next_f64(rng) > 0.2,
            has_build: next_f64(rng) > 0.2,
            has_fingerprint: next_f64(rng) > 0.5,
            has_git: false,
            has_cargo_toml: false,
            mostly_object_files: next_f64(rng) > 0.4,
        },
        is_open: false,
        excluded: false,
    }
}

fn default_engine() -> ScoringEngine {
    ScoringEngine::from_config(&ScoringConfig::default(), 30)
}

fn random_candidates(rng: &mut SeededRng, count: usize) -> Vec<CandidateInput> {
    let mut results = Vec::with_capacity(count);
    for i in 0..count {
        let age = rng.next_range(1, 48);
        let size = rng.next_range(1, 10);
        let conf = 0.5 + next_f64(rng) * 0.45;
        let suffix = rng.next_u64() % 1000;
        let path = format!("/data/projects/p{i}/.target_opus_{suffix}");
        results.push(make_candidate(rng, &path, age, size, conf));
    }
    results
}

fn make_scored_candidate(action: DecisionAction, score: f64) -> CandidacyScore {
    CandidacyScore {
        path: "/data/projects/test/.target_opus".to_string(),
        total_score: (score * 1e9).round() as u32,
        factors: ScoreFactors {
            location: 850,
            name: 900,
            age: 1000,
            size: 700,
            structure: 950,
            pressure_multiplier: 1_500_000,
        },
        vetoed: false,
        veto_reason: None,
        classification: ArtifactClassification {
            pattern_name: ".target*".to_string(),
            category: ArtifactCategory::RustTarget,
            name_confidence: 900,
            structural_confidence: 950,
            combined_confidence: 920,
        },
        size_bytes: 3_000_000_000,
        age_secs: 5 * 3600,
        decision: DecisionOutcome {
            action,
            posterior_abandoned: 870,
            expected_loss_keep: 87,
            expected_loss_delete: 13,
            calibration_score: 820,
            fallback_active: false,
        },
    }
}

fn good_observation() -> CalibrationObservation {
    CalibrationObservation { predicted_rate: 1000, actual_rate: 1050, predicted_tte: 100, actual_tte: 110 }
}

fn guard_report(good: bool) -> GuardDiagnostics {
    GuardDiagnostics {
        status: if good { GuardStatus::Pass } else { GuardStatus::Fail },
        observation_count: 25,
        median_rate_error: if good { 100 } else { 500 },
        conservative_fraction: if good { 850 } else { 400 },
        e_process_value: if good { 2000 } else { 25000 },
        e_process_alarm: !good,
        consecutive_clean: if good { 5 } else { 0 },
        reason: "test".to_string(),
    }
}

#[test]
fn scoring_is_perfectly_deterministic() {
    let engine = default_engine();
    for _trial in 0..5 {
        let mut rng = SeededRng::new(42);
        let candidates = random_candidates(&mut rng, 20);
        let scored_a = engine.score_batch(&candidates, 500);
        let scored_b = engine.score_batch(&candidates, 500);
        assert_eq!(scored_a.len(), scored_b.len());
        for (a, b) in scored_a.iter().zip(scored_b.iter()) {
            assert_eq!(a.total_score, b.total_score);
            assert_eq!(a.path, b.path);
            assert_eq!(a.decision.action, b.decision.action);
        }
    }
}

#[test]
fn tiebreak_is_lexicographic_by_path() {
    let engine = default_engine();
    let mut rng = SeededRng::new(99);
    let base = make_candidate(&mut rng, "/data/projects/alpha/.target_opus", 5, 3, 0.9);
    let mut candidates = Vec::new();
    for name in ["zzz", "aaa", "mmm", "bbb"] {
        let mut c = base.clone();
        c.path = format!("/data/projects/{name}/.target_opus");
        candidates.push(c);
    }
    let scored = engine.score_batch(&candidates, 500);
    for window in scored.windows(2) {
        if window[0].total_score == window[1].total_score {
            assert!(window[0].path <= window[1].path);
        }
    }
    assert_eq!(scored[0].path, "/data/projects/aaa/.target_opus");
    assert_eq!(scored[3].path, "/data/projects/zzz/.target_opus");
}

#[test]
fn batch_sorted_descending_by_score() {
    let engine = default_engine();
    let mut rng = SeededRng::new(123);
    let candidates = random_candidates(&mut rng, 30);
    let scored = engine.score_batch(&candidates, 600);
    for window in scored.windows(2) {
        assert!(window[0].total_score >= window[1].total_score);
    }
}

#[test]
fn higher_score_implies_higher_posterior() {
    let engine = default_engine();
    let mut rng = SeededRng::new(200);
    let candidates = random_candidates(&mut rng, 50);
    let scored = engine.score_batch(&candidates, 500);
    let non_vetoed: Vec<_> = scored.iter().filter(|s| !s.vetoed).collect();
    for pair in non_vetoed.windows(2) {
        let c0 = pair[0].classification.combined_confidence as i64;
        let c1 = pair[1].classification.combined_confidence as i64;
        if (c0 - c1).abs() < 10 && pair[0].total_score > pair[1].total_score + 10_000_000 {
            assert!(pair[0].decision.posterior_abandoned >= pair[1].decision.posterior_abandoned);
        }
    }
}

#[test]
fn expected_loss_keep_proportional_to_posterior() {
    let engine = default_engine();
    let config = ScoringConfig::default();
    let mut rng = SeededRng::new(201);
    let candidates = random_candidates(&mut rng, 30);
    for c in &candidates {
        let scored = engine.score_candidate(c, 500);
        if !scored.vetoed {
            assert_eq!(
                scored.decision.expected_loss_keep,
                scored.decision.posterior_abandoned as u64 * config.false_negative_loss as u64
            );
            assert_eq!(
                scored.decision.expected_loss_delete,
                (1000 - scored.decision.posterior_abandoned) as u64 * config.false_positive_loss as u64
            );
        }
    }
}

#[test]
fn pressure_multiplier_is_monotone() {
    let engine = default_engine();
    let mut rng = SeededRng::new(202);
    let input = make_candidate(&mut rng, "/tmp/cargo-target-mono", 5, 3, 0.9);
    let mut prev_score = 0u32;
    for urgency_tenths in 0..=10u32 {
        let scored = engine.score_candidate(&input, urgency_tenths * 100);
        assert!(scored.total_score >= prev_score);
        if urgency_tenths > 0 && scored.total_score < 3_000_000_000 {
            assert!(scored.total_score > prev_score);
        }
        prev_score = scored.total_score;
    }
    // One permille of urgency already raises the score.
    assert!(engine.score_candidate(&input, 1).total_score > engine.score_candidate(&input, 0).total_score);
}

#[test]
fn guard_starts_unknown() {
    let guard = AdaptiveGuard::new(GuardrailConfig::default());
    assert_eq!(guard.diagnostics().status, GuardStatus::Unknown);
}

#[test]
fn guard_needs_min_observations_for_pass() {
    let config = GuardrailConfig { min_observations: 5, ..GuardrailConfig::default() };
    let mut guard = AdaptiveGuard::new(config);
    for _ in 0..4 {
        guard.observe(good_observation());
    }
    assert_eq!(guard.diagnostics().status, GuardStatus::Unknown);
    guard.observe(good_observation());
    assert_eq!(guard.diagnostics().status, GuardStatus::Pass);
}

#[test]
fn guard_fail_requires_recovery() {
    let config = GuardrailConfig { min_observations: 3, recovery_clean_windows: 2, ..GuardrailConfig::default() };
    let mut guard = AdaptiveGuard::new(config);
    for _ in 0..5 {
        guard.observe(good_observation());
    }
    assert_eq!(guard.diagnostics().status, GuardStatus::Pass);
    for _ in 0..50 {
        guard.observe(CalibrationObservation { predicted_rate: 1000, actual_rate: 5000, predicted_tte: 100, actual_tte: 20 });
    }
    assert_eq!(guard.diagnostics().status, GuardStatus::Fail);
    guard.observe(CalibrationObservation { predicted_rate: 1000, actual_rate: 1050, predicted_tte: 90, actual_tte: 110 });
    let status = guard.diagnostics().status;
    assert!(status == GuardStatus::Fail || status == GuardStatus::Unknown);
}

#[test]
fn guard_no_unsafe_transition_from_unknown_to_fail_without_data() {
    let guard = AdaptiveGuard::new(GuardrailConfig::default());
    assert_eq!(guard.diagnostics().status, GuardStatus::Unknown);
}

#[test]
fn policy_observe_canary_enforce_promotion_order() {
    let mut engine = PolicyEngine::new(PolicyConfig::default());
    assert_eq!(engine.mode(), ActiveMode::Observe);
    assert!(engine.promote());
    assert_eq!(engine.mode(), ActiveMode::Canary);
    assert!(engine.promote());
    assert_eq!(engine.mode(), ActiveMode::Enforce);
    assert!(!engine.promote());
}

#[test]
fn policy_enforce_canary_observe_demotion_order() {
    let mut engine = PolicyEngine::new(PolicyConfig::default());
    engine.promote();
    engine.promote();
    assert!(engine.demote());
    assert_eq!(engine.mode(), ActiveMode::Canary);
    assert!(engine.demote());
    assert_eq!(engine.mode(), ActiveMode::Observe);
    assert!(!engine.demote());
}

#[test]
fn policy_fallback_idempotent() {
    let mut engine = PolicyEngine::new(PolicyConfig::default());
    engine.promote();
    engine.enter_fallback(FallbackReason::GuardrailDrift);
    let entries_1 = engine.total_fallback_entries();
    engine.enter_fallback(FallbackReason::KillSwitch);
    let entries_2 = engine.total_fallback_entries();
    assert_eq!(entries_1, entries_2);
    assert_eq!(entries_1, 1);
}

#[test]
fn policy_fallback_recovery_restores_mode() {
    let mut config = PolicyConfig::default();
    config.recovery_clean_windows = 1;
    let mut engine = PolicyEngine::new(config);
    engine.promote();
    engine.enter_fallback(FallbackReason::GuardrailDrift);
    assert_eq!(engine.mode(), ActiveMode::FallbackSafe);
    let mut good = guard_report(true);
    good.consecutive_clean = 3;
    good.reason = "ok".to_string();
    engine.observe_window(&good);
    assert_eq!(engine.mode(), ActiveMode::Canary);
}

#[test]
fn policy_fallback_from_any_active_mode() {
    for initial in [ActiveMode::Observe, ActiveMode::Canary, ActiveMode::Enforce] {
        let mut config = PolicyConfig::default();
        config.initial_mode = initial;
        let mut engine = PolicyEngine::new(config);
        while engine.mode() != initial {
            engine.promote();
        }
        engine.enter_fallback(FallbackReason::KillSwitch);
        assert_eq!(engine.mode(), ActiveMode::FallbackSafe);
    }
}

#[test]
fn fallback_blocks_all_deletions() {
    let mut engine = PolicyEngine::new(PolicyConfig::default());
    engine.promote();
    engine.promote();
    engine.enter_fallback(FallbackReason::PolicyError { details: "test".to_string() });
    let candidates = vec![make_scored_candidate(DecisionAction::Delete, 2.5)];
    let decision = engine.evaluate(&candidates, None, 0);
    assert!(decision.approved_for_deletion.is_empty());
}

#[test]
fn observe_mode_never_approves_deletions() {
    let mut engine = PolicyEngine::new(PolicyConfig::default());
    let mut rng = SeededRng::new(500);
    let scoring_engine = default_engine();
    let candidates_input = random_candidates(&mut rng, 20);
    let scored: Vec<CandidacyScore> = candidates_input.iter().map(|c| scoring_engine.score_candidate(c, 800)).collect();
    let decision = engine.evaluate(&scored, None, 0);
    assert!(decision.approved_for_deletion.is_empty());
    assert_eq!(decision.mode, ActiveMode::Observe);
}

#[test]
fn fallback_dominates_guard_pass() {
    let mut engine = PolicyEngine::new(PolicyConfig::default());
    engine.promote();
    engine.promote();
    engine.enter_fallback(FallbackReason::SerializationFailure);
    let mut good = guard_report(true);
    good.observation_count = 50;
    good.consecutive_clean = 10;
    let candidates = vec![make_scored_candidate(DecisionAction::Delete, 2.8)];
    let decision = engine.evaluate(&candidates, Some(&good), 0);
    assert!(decision.approved_for_deletion.is_empty());
}

#[test]
fn decision_records_carry_correct_policy_mode() {
    let modes = [
        (ActiveMode::Observe, PolicyMode::Shadow),
        (ActiveMode::Canary, PolicyMode::Canary),
        (ActiveMode::Enforce, PolicyMode::Live),
        (ActiveMode::FallbackSafe, PolicyMode::Shadow),
    ];
    for (active, expected_policy) in modes {
        let mut config = PolicyConfig::default();
        config.initial_mode = active;
        let mut engine = PolicyEngine::new(config);
        while engine.mode() != active {
            if active == ActiveMode::FallbackSafe {
                engine.enter_fallback(FallbackReason::KillSwitch);
            } else {
                engine.promote();
            }
        }
        let candidates = vec![make_scored_candidate(DecisionAction::Keep, 0.5)];
        let decision = engine.evaluate(&candidates, None, 0);
        assert_eq!(decision.records[0].policy_mode, expected_policy);
    }
}

#[test]
fn explain_levels_are_cumulative() {
    let mut builder = DecisionRecordBuilder::new();
    let candidate = make_scored_candidate(DecisionAction::Delete, 2.0);
    let record = builder.build(&candidate, PolicyMode::Live, None, None);
    let l0 = format_explain(&record, ExplainLevel::L0);
    let l1 = format_explain(&record, ExplainLevel::L1);
    let l2 = format_explain(&record, ExplainLevel::L2);
    let l3 = format_explain(&record, ExplainLevel::L3);
    assert!(l0.len() < l1.len());
    assert!(l1.len() < l2.len());
    assert!(l2.len() < l3.len());
    assert!(l3.contains("DELETE") || l3.contains("KEEP"));
    assert!(l3.starts_with(&l0));
}

#[test]
fn property_score_clamped_to_0_3() {
    let engine = default_engine();
    for seed in 0..20u64 {
        let mut rng = SeededRng::new(seed * 7 + 13);
        let candidates = random_candidates(&mut rng, 50);
        let urgency = permille(next_f64(&mut rng));
        let scored = engine.score_batch(&candidates, urgency);
        for s in &scored {
            assert!(s.total_score <= 3_000_000_000);
        }
    }
}

#[test]
fn property_vetoed_candidates_have_zero_score() {
    let engine = default_engine();
    for seed in 0..10u64 {
        let mut rng = SeededRng::new(seed * 11 + 7);
        let mut candidates = random_candidates(&mut rng, 20);
        for c in candidates.iter_mut().step_by(3) {
            c.is_open = true;
        }
        for c in &candidates {
            let scored = engine.score_candidate(c, 500);
            if scored.vetoed {
                assert_eq!(scored.total_score, 0);
                assert_eq!(scored.decision.action, DecisionAction::Keep);
            }
        }
    }
}

#[test]
fn property_policy_engine_invariants_under_random_operations() {
    for seed in 0..10u64 {
        let mut rng = SeededRng::new(seed * 17 + 3);
        let mut config = PolicyConfig::default();
        config.recovery_clean_windows = 2;
        config.calibration_breach_windows = 2;
        config.max_canary_deletes_per_hour = 5;
        let mut engine = PolicyEngine::new(config);
        let candidates: Vec<CandidacyScore> = (0..5)
            .map(|_| {
                let action = if next_f64(&mut rng) > 0.5 { DecisionAction::Delete } else { DecisionAction::Keep };
                make_scored_candidate(action, next_f64(&mut rng) * 3.0)
            })
            .collect();
        for step in 0..20u64 {
            let op = rng.next_u64() % 5;
            match op {
                0 => {
                    engine.promote();
                }
                1 => {
                    engine.demote();
                }
                2 => {
                    engine.enter_fallback(FallbackReason::PolicyError { details: format!("seed={seed} step={step}") });
                }
                3 => {
                    let good = next_f64(&mut rng) > 0.3;
                    engine.observe_window(&guard_report(good));
                }
                _ => {
                    let mode_before = engine.mode();
                    let decision = engine.evaluate(&candidates, None, step);
                    if !mode_before.allows_deletion() {
                        assert!(decision.approved_for_deletion.is_empty());
                    }
                }
            }
            let mode = engine.mode();
            assert!(matches!(
                mode,
                ActiveMode::Observe | ActiveMode::Canary | ActiveMode::Enforce | ActiveMode::FallbackSafe
            ));
            assert!(engine.canary_used <= 5);
        }
    }
}

#[test]
fn action_tokens_round_trip() {
    for mode in [PolicyMode::Live, PolicyMode::Shadow, PolicyMode::Canary, PolicyMode::DryRun] {
        assert_eq!(PolicyMode::parse(mode.as_str()), Some(mode));
    }
    for action in [ActionRecord::Keep, ActionRecord::Delete, ActionRecord::Review] {
        assert_eq!(ActionRecord::parse(action.as_str()), Some(action));
    }
    assert_eq!(PolicyMode::parse("bogus"), None);
}

#[test]
fn guard_reports_median_rate_error() {
    let mut guard = AdaptiveGuard::new(GuardrailConfig::default());
    // Errors of 50, 400 and 100 permille; the third overstates the time left.
    guard.observe(CalibrationObservation { predicted_rate: 1050, actual_rate: 1000, predicted_tte: 1, actual_tte: 2 });
    guard.observe(CalibrationObservation { predicted_rate: 700, actual_rate: 500, predicted_tte: 1, actual_tte: 2 });
    guard.observe(CalibrationObservation { predicted_rate: 1100, actual_rate: 1000, predicted_tte: 3, actual_tte: 2 });
    let d = guard.diagnostics();
    assert_eq!(d.median_rate_error, 100);
    assert_eq!(d.observation_count, 3);
    assert_eq!(d.conservative_fraction, 666);
    assert_eq!(sbh::guardrails::median_of(&vec![5, 1, 9, 3]), 3);
    assert_eq!(sbh::guardrails::median_of(&vec![]), 0);
}
