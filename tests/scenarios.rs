use sbh::guardrails::{GuardDiagnostics, GuardStatus};
use sbh::patterns::object_file_permille;
use sbh::special_locations::SpecialLocation;
use sbh::walker::{is_path_open, WalkDecision, WalkerConfig};
use sbh::patterns::signals_from_children;
use sbh::ballast::{pattern_words, words_checksum};
use sbh::special_locations::is_ram_backed;
use sbh::rng::SeededRng;
use sbh::ballast::{ballast_checksum, BallastConfig, BallastManager};
use sbh::deletion::{plan, DeletionConfig, DeletionRun, DeletionStep, ItemOutcome};
use sbh::errors::SbhError;
use sbh::patterns::{file_name, ArtifactPatternRegistry};
use sbh::pid::{PidConfig, PidPressureController, PressureLevel, PressureReading};
use sbh::policy::{PolicyConfig, PolicyEngine, ActiveMode};
use sbh::protection::{ProtectionRegistry, ProtectionSource};
use sbh::scoring::{
    ArtifactCategory, ArtifactClassification, CandidacyScore, CandidateInput, DecisionAction,
    DecisionOutcome, ScoreFactors, ScoringConfig, ScoringEngine, StructuralSignals, VetoReason,
};
use sbh::special_locations::{MountPoint, SpecialKind, SpecialLocationRegistry};

fn engine() -> ScoringEngine {
    ScoringEngine::from_config(&ScoringConfig::default(), 30)
}

fn classification(confidence: u32, category: ArtifactCategory) -> ArtifactClassification {
    ArtifactClassification {
        pattern_name: "test".to_string(),
        category,
        name_confidence: confidence,
        structural_confidence: confidence,
        combined_confidence: confidence,
    }
}

fn candidate(path: &str, size: u64, age_secs: u64, confidence: u32, category: ArtifactCategory) -> CandidateInput {
    CandidateInput {
        path: path.to_string(),
        size_bytes: size,
        age_secs,
        classification: classification(confidence, category),
        signals: StructuralSignals::default(),
        is_open: false,
        excluded: false,
    }
}

fn pid_config() -> PidConfig {
    PidConfig {
        kp: 1000,
        ki: 80,
        kd: 20,
        scale_bp: 1000,
        target_free_bp: 2000,
        hysteresis_bp: 100,
        green_min_bp: 2000,
        yellow_min_bp: 1400,
        orange_min_bp: 1000,
        red_min_bp: 600,
        min_dt_ms: 1000,
        imminent_tte_secs: 300,
        imminent_floor: 800,
    }
}

fn reading(free: u64, total: u64, at_ms: u64) -> PressureReading {
    PressureReading { free_bytes: free, total_bytes: total, mount: "/".to_string(), observed_at_ms: at_ms }
}

fn delete_candidate(path: &str, score: u32) -> CandidacyScore {
    CandidacyScore {
        path: path.to_string(),
        size_bytes: 1_000_000,
        age_secs: 86_400,
        total_score: score * 1_000_000,
        factors: ScoreFactors::default(),
        vetoed: false,
        veto_reason: None,
        classification: classification(900, ArtifactCategory::RustTarget),
        decision: DecisionOutcome {
            action: DecisionAction::Delete,
            posterior_abandoned: 900,
            expected_loss_keep: 9000,
            expected_loss_delete: 5000,
            calibration_score: 900,
            fallback_active: false,
        },
    }
}

#[test]
fn green_steady_state_keeps_unknown_source_file() {
    let mut pid = PidPressureController::new(pid_config());
    pid.update(&reading(500, 1000, 0), None, 0);
    let out = pid.update(&reading(500, 1000, 5000), None, 5000);
    assert_eq!(out.level, PressureLevel::Green);
    assert_eq!(out.urgency, 0);
    let registry = ArtifactPatternRegistry::default_registry();
    let class = registry.classify("/tmp/project/src/main.rs", &StructuralSignals::default());
    assert_eq!(class.category, ArtifactCategory::Unknown);
    let c = CandidateInput {
        path: "/tmp/project/src/main.rs".to_string(),
        size_bytes: 4096,
        age_secs: 86_400,
        classification: class,
        signals: StructuralSignals::default(),
        is_open: false,
        excluded: false,
    };
    let scored = engine().score_candidate(&c, out.urgency);
    assert_eq!(scored.decision.action, DecisionAction::Keep);
}

#[test]
fn sudden_drop_to_critical() {
    let mut pid = PidPressureController::new(pid_config());
    pid.update(&reading(500, 1000, 0), None, 0);
    let out = pid.update(&reading(10, 1000, 1000), None, 1000);
    assert_eq!(out.level, PressureLevel::Critical);
    assert!(out.urgency >= 950);
    // Enforce approves the top-scoring artifacts.
    let mut policy = PolicyEngine::new(PolicyConfig { initial_mode: ActiveMode::Enforce, ..PolicyConfig::default() });
    let batch = vec![delete_candidate("/data/a/target", 2500), delete_candidate("/data/b/target", 2000)];
    let decision = policy.evaluate(&batch, None, 0);
    assert_eq!(decision.approved_for_deletion.len(), 2);
    // The executor stops once the pressure target is back.
    let p = plan(&DeletionConfig::default(), &decision.approved_for_deletion);
    let mut run = DeletionRun::start(DeletionConfig::default(), &p);
    assert_eq!(run.next_step(), DeletionStep::Delete { index: 0, recheck_open: true });
    run.record("/data/a/target".to_string(), ItemOutcome::Deleted { bytes: 1_000_000 });
    run.mark_pressure_recovered();
    assert_eq!(run.next_step(), DeletionStep::Finish);
    assert_eq!(run.items_deleted, 1);
}

#[test]
fn slow_attack_with_clock_skew_stays_calm() {
    let mut pid = PidPressureController::new(pid_config());
    let r1 = pid.update(&reading(2000, 10000, 7000), None, 7000);
    let r2 = pid.update(&reading(1990, 10000, 7000), None, 7000);
    assert!(r2.urgency < 500);
    assert!(r2.urgency <= r1.urgency + 1000 * 10 / 1000 + 1);
}

#[test]
fn ballast_lifecycle() {
    let config = BallastConfig { file_count: 3, file_size_bytes: 4096, replenish_cooldown_secs: 60 };
    let mut mgr = BallastManager::new(config);
    let created = mgr.provision(None, 0);
    assert_eq!(created, vec![0, 1, 2]);
    let readback: Vec<Option<u64>> = mgr.files.iter().map(|f| Some(ballast_checksum(f.id, 4096))).collect();
    let report = mgr.verify(&readback);
    assert_eq!(report.files_ok, 3);
    assert_eq!(report.files_corrupted, 0);
    assert_eq!(mgr.release(2), 8192);
    assert_eq!(mgr.available_count(), 1);
    let ids = mgr.replenish(100);
    assert_eq!(ids.len(), 2);
    assert_eq!(mgr.available_count(), 3);
    assert_eq!(mgr.releasable_bytes(), 3 * 4096);
}

#[test]
fn ballast_replenish_honors_cooldown() {
    let config = BallastConfig { file_count: 2, file_size_bytes: 64, replenish_cooldown_secs: 60 };
    let mut mgr = BallastManager::new(config);
    mgr.provision(None, 0);
    mgr.release(2);
    assert_eq!(mgr.replenish(10).len(), 2);
    mgr.release(1);
    assert!(mgr.replenish(30).is_empty());
    assert_eq!(mgr.available_count(), 1);
    assert_eq!(mgr.replenish(70).len(), 1);
    assert_eq!(mgr.available_count(), 2);
}

#[test]
fn ballast_verify_reports_corruption_and_missing() {
    let config = BallastConfig { file_count: 3, file_size_bytes: 800, replenish_cooldown_secs: 0 };
    let mut mgr = BallastManager::new(config);
    mgr.provision(None, 0);
    let good = ballast_checksum(0, 800);
    let report = mgr.verify(&vec![Some(good), Some(good ^ 1), None]);
    assert_eq!(report.files_ok, 1);
    assert_eq!(report.files_corrupted, 1);
    assert_eq!(report.files_missing, 1);
    assert_ne!(ballast_checksum(0, 800), ballast_checksum(1, 800));
    assert_eq!(ballast_checksum(5, 7), 0);
}

#[test]
fn protection_wins_over_score() {
    let mut reg = ProtectionRegistry::new();
    reg.add_marker("/data/projects/keep".to_string());
    let c = candidate(
        "/data/projects/keep/target",
        10 * 1_073_741_824,
        7 * 86_400,
        950,
        ArtifactCategory::RustTarget,
    );
    let scored = engine().score_protected(&c, 1000, &reg);
    assert!(scored.vetoed);
    assert_eq!(scored.total_score, 0);
    assert_eq!(scored.decision.action, DecisionAction::Keep);
    assert_eq!(scored.veto_reason.map(|v| v.as_str()), Some("marker"));
    // Without the marker the same candidate scores.
    let free = engine().score_protected(&c, 1000, &ProtectionRegistry::new());
    assert!(!free.vetoed);
    assert!(free.total_score > 0);
}

#[test]
fn protection_covers_descendants_not_ancestors() {
    let mut reg = ProtectionRegistry::new();
    reg.add_marker("/srv/app".to_string());
    reg.add_pattern("/opt/cache*".to_string());
    assert_eq!(reg.is_protected("/srv/app"), Some(ProtectionSource::MarkerFile));
    assert_eq!(reg.is_protected("/srv/app/build/x"), Some(ProtectionSource::MarkerFile));
    assert_eq!(reg.is_protected("/srv"), None);
    assert_eq!(reg.is_protected("/srv/application"), None);
    assert_eq!(reg.is_protected("/opt/cache-2"), Some(ProtectionSource::ConfigPattern));
}

#[test]
fn canary_budget_exhaustion_demotes_to_observe() {
    let mut policy = PolicyEngine::new(PolicyConfig {
        initial_mode: ActiveMode::Canary,
        max_canary_deletes_per_hour: 5,
        ..PolicyConfig::default()
    });
    let batch: Vec<CandidacyScore> = (0..10).map(|i| delete_candidate(&format!("/data/p{i}/target"), 2000)).collect();
    let decision = policy.evaluate(&batch, None, 100);
    assert_eq!(decision.approved_for_deletion.len(), 5);
    assert_eq!(decision.records.len(), 10);
    assert_eq!(policy.mode(), ActiveMode::Observe);
    // Still Observe for the rest of the hour.
    let again = policy.evaluate(&batch, None, 200);
    assert!(again.approved_for_deletion.is_empty());
    // The next hour restores Canary with a fresh budget.
    let next = policy.evaluate(&batch, None, 3700);
    assert_eq!(next.mode, ActiveMode::Canary);
    assert_eq!(next.approved_for_deletion.len(), 5);
}

#[test]
fn var_tmp_root_should_be_vetoed() {
    let score = engine().score_candidate(&candidate("/var/tmp", 4096, 24 * 3600 * 30, 0, ArtifactCategory::Unknown), 500);
    assert!(score.vetoed);
}

#[test]
fn dev_shm_root_should_be_vetoed() {
    let score = engine().score_candidate(&candidate("/dev/shm", 4096, 24 * 3600 * 30, 0, ArtifactCategory::Unknown), 500);
    assert!(score.vetoed);
}

#[test]
fn var_tmp_subdir_should_allowed() {
    let score = engine().score_candidate(
        &candidate("/var/tmp/my-build-artifact", 1024 * 1024 * 100, 3600 * 5, 900, ArtifactCategory::BuildOutput),
        500,
    );
    assert!(!score.vetoed);
}

#[test]
fn veto_reasons_for_each_rule() {
    let e = engine();
    let mut c = candidate("/data/p/target", 1 << 30, 86_400, 900, ArtifactCategory::RustTarget);
    c.is_open = true;
    assert_eq!(e.veto(&c), Some(VetoReason::OpenFile));
    c.is_open = false;
    c.excluded = true;
    assert_eq!(e.veto(&c), Some(VetoReason::Excluded));
    c.excluded = false;
    assert_eq!(e.veto(&candidate("/", 1, 86_400, 900, ArtifactCategory::Unknown)), Some(VetoReason::SystemAncestor));
    assert_eq!(e.veto(&candidate("/data", 1, 86_400, 900, ArtifactCategory::Unknown)), Some(VetoReason::SystemAncestor));
    assert_eq!(e.veto(&candidate("/tmp", 1, 86_400, 900, ArtifactCategory::Unknown)), Some(VetoReason::ProtectedRoot));
    assert_eq!(e.veto(&candidate("/data/p/new", 1, 60, 500, ArtifactCategory::Unknown)), Some(VetoReason::TooYoung));
    assert_eq!(e.veto(&candidate("/data/p/new", 1, 60, 900, ArtifactCategory::Unknown)), None);
    assert_eq!(e.veto(&c), None);
}

#[test]
fn score_of_a_known_candidate() {
    // location 700 (/data/), name 900, age 1000 (48 h), size 31 bits -> 775,
    // structure (7*900 + 0) / 10 = 630; base = (250*700 + 250*900 + 200*1000
    // + 150*775 + 150*630) / 1000 = 810; urgency 500 -> multiplier 1500;
    // total 1.215; posterior (2000 - 1000 + 1822 - 200) / 4 = 655.
    let c = candidate("/data/p/target", 1 << 30, 48 * 3600, 900, ArtifactCategory::RustTarget);
    let s = engine().score_candidate(&c, 500);
    assert_eq!(s.factors.location, 700);
    assert_eq!(s.factors.size, 775);
    assert_eq!(s.factors.structure, 630);
    assert_eq!(s.factors.pressure_multiplier, 1_500_000);
    assert_eq!(s.total_score, 1_215_000_000);
    assert_eq!(s.decision.posterior_abandoned, 655);
    assert_eq!(s.decision.expected_loss_keep, 6550);
    assert_eq!(s.decision.expected_loss_delete, 17250);
    assert_eq!(s.decision.action, DecisionAction::Keep);
}

#[test]
fn pattern_registry_classifies_rust_target() {
    let reg = ArtifactPatternRegistry::default_registry();
    let signals = StructuralSignals { has_deps: true, has_fingerprint: true, ..StructuralSignals::default() };
    let c = reg.classify("/data/projects/app/target", &signals);
    assert_eq!(c.category, ArtifactCategory::RustTarget);
    assert_eq!(c.structural_confidence, 950);
    assert_eq!(c.combined_confidence, (6 * 800 + 4 * 950) / 10);
    let weak = reg.classify("/data/projects/app/target", &StructuralSignals::default());
    assert_eq!(weak.structural_confidence, 950 / 4);
}

#[test]
fn pattern_registry_classifies_node_modules() {
    let reg = ArtifactPatternRegistry::default_registry();
    let c = reg.classify("/home/u/web/node_modules", &StructuralSignals::default());
    assert_eq!(c.category, ArtifactCategory::NodeModules);
    assert_eq!(file_name("/home/u/web/node_modules"), "node_modules");
    assert_eq!(file_name("/a/b/"), "");
}

#[test]
fn deletion_plan_and_circuit_breaker() {
    let mut batch = vec![delete_candidate("/a", 2000), delete_candidate("/b", 500), delete_candidate("/c", 1500)];
    batch[2].vetoed = true;
    batch.push(delete_candidate("/d", 900));
    let cfg = DeletionConfig { max_batch_size: 5, min_score: 700, circuit_breaker_threshold: 2, dry_run: false, check_open_files: false };
    let p = plan(&cfg, &batch);
    let paths: Vec<&str> = p.candidates.iter().map(|c| c.path.as_str()).collect();
    assert_eq!(paths, vec!["/a", "/d"]);
    assert_eq!(p.total_reclaimable_bytes, 2_000_000);
    let mut run = DeletionRun::start(cfg, &p);
    let fail = || ItemOutcome::Failed { error: "busy".to_string(), error_code: "SBH-3002".to_string(), recoverable: true };
    run.record("/a".to_string(), fail());
    assert!(!run.circuit_breaker_tripped);
    run.record("/d".to_string(), fail());
    assert!(run.circuit_breaker_tripped);
    assert_eq!(run.next_step(), DeletionStep::Finish);
    assert_eq!(run.failures.len(), 2);
}

#[test]
fn dry_run_deletes_nothing() {
    let cfg = DeletionConfig { dry_run: true, ..DeletionConfig::default() };
    let p = plan(&cfg, &vec![delete_candidate("/a", 2000)]);
    let run = DeletionRun::start(cfg, &p);
    assert_eq!(run.next_step(), DeletionStep::WouldDelete { index: 0 });
}

#[test]
fn error_codes_and_retryability() {
    let io = SbhError::io("/x".to_string(), "denied".to_string());
    assert_eq!(io.code(), "SBH-3002");
    assert!(io.is_retryable());
    let cfg = SbhError::InvalidConfig { details: "bad".to_string() };
    assert_eq!(cfg.code(), "SBH-1001");
    assert!(!cfg.is_retryable());
    assert_eq!(SbhError::SafetyVeto { path: "/".to_string(), reason: "root".to_string() }.code(), "SBH-2003");
    assert_eq!(SbhError::Runtime { details: String::new() }.code(), "SBH-3900");
}

#[test]
fn discover_includes_tmpfs_and_custom_locations() {
    let mounts = vec![MountPoint { path: "/dev/shm".to_string(), fs_type: "tmpfs".to_string(), is_ram_backed: true }];
    let registry = SpecialLocationRegistry::discover(&mounts, &vec!["/data/tmp/custom".to_string()]);
    assert!(registry.all().iter().any(|l| l.path == "/dev/shm"));
    assert!(registry.all().iter().any(|l| matches!(l.kind, SpecialKind::Custom(_))));
    assert!(registry.all().iter().any(|l| l.path == "/tmp"));
    let prios: Vec<u8> = registry.all().iter().map(|l| l.priority).collect();
    assert_eq!(prios, vec![255, 160, 140]);
}

#[test]
fn special_location_attention_and_schedule() {
    let mounts = vec![MountPoint { path: "/dev/shm".to_string(), fs_type: "tmpfs".to_string(), is_ram_backed: true }];
    let registry = SpecialLocationRegistry::discover(&mounts, &vec![]);
    let shm = &registry.all()[0];
    assert!(shm.needs_attention(1999));
    assert!(!shm.needs_attention(2000));
    assert!(shm.scan_due(None, 0));
    assert!(!shm.scan_due(Some(10), 12));
    assert!(shm.scan_due(Some(10), 13));
}

#[test]
fn walker_skips_protected_directories() {
    let cfg = WalkerConfig {
        max_depth: 2,
        follow_symlinks: false,
        cross_devices: false,
        excluded_paths: vec!["/data/skip".to_string()],
    };
    let mut reg = ProtectionRegistry::new();
    reg.add_marker("/data/keep".to_string());
    assert_eq!(cfg.decide("/data/keep/x", 1, false, true, &reg), WalkDecision::Protected { source: ProtectionSource::MarkerFile });
    assert_eq!(cfg.decide("/data/skip/y", 1, false, true, &reg), WalkDecision::Excluded);
    assert_eq!(cfg.decide("/data/a", 1, true, true, &reg), WalkDecision::Skip);
    assert_eq!(cfg.decide("/data/a", 1, false, false, &reg), WalkDecision::Skip);
    assert_eq!(cfg.decide("/data/a", 1, false, true, &reg), WalkDecision::Emit { descend: true });
    assert_eq!(cfg.decide("/data/a/b", 2, false, true, &reg), WalkDecision::Emit { descend: false });
    let open = vec!["/data/a/b/file.lock".to_string()];
    assert!(is_path_open(&open, "/data/a"));
    assert!(!is_path_open(&open, "/data/ab"));
}

#[test]
fn structural_signals_from_child_names() {
    let children = vec!["deps".to_string(), ".fingerprint".to_string(), "incremental".to_string()];
    let s = signals_from_children(&children, 600);
    assert!(s.has_deps && s.has_fingerprint && s.has_incremental && s.mostly_object_files);
    assert!(!s.has_build && !s.has_git && !s.has_cargo_toml);
    assert!(!signals_from_children(&children, 500).mostly_object_files);
}

#[test]
fn ballast_pattern_words_match_checksum() {
    let words = pattern_words(3, 512);
    assert_eq!(words.len(), 512);
    assert_eq!(words_checksum(&words), ballast_checksum(3, 4096));
    let mut corrupted = words.clone();
    corrupted[7] ^= 0x10;
    assert_ne!(words_checksum(&corrupted), ballast_checksum(3, 4096));
    // The generator: seed id + 1, then state * 6364136223846793005 + 1.
    assert_eq!(words[0], 4u64.wrapping_mul(6_364_136_223_846_793_005).wrapping_add(1));
}

#[test]
fn ram_backed_detection() {
    assert!(is_ram_backed("tmpfs", "/run"));
    assert!(is_ram_backed("ext4", "/dev/shm"));
    assert!(!is_ram_backed("ext4", "/home"));
}

#[test]
fn seeded_rng_is_reproducible() {
    let mut a = SeededRng::new(42);
    let mut b = SeededRng::new(42);
    for _ in 0..10 {
        assert_eq!(a.next_u64(), b.next_u64());
    }
    let mut r = SeededRng::new(1);
    for _ in 0..100 {
        let v = r.next_range(5, 9);
        assert!((5..=9).contains(&v));
    }
    assert_eq!(SeededRng::new(0).next_u64(), 1);
}

#[test]
fn unresolved_paths_are_vetoed_and_skipped() {
    let e = engine();
    let c = candidate("/data/p/../../etc", 1 << 30, 86_400, 900, ArtifactCategory::Unknown);
    assert_eq!(e.veto(&c), Some(VetoReason::UnresolvedPath));
    assert_eq!(VetoReason::UnresolvedPath.as_str(), "unresolved_path");
    let ok = candidate("/data/p/..cache", 1 << 30, 86_400, 900, ArtifactCategory::Unknown);
    assert_eq!(e.veto(&ok), None);
    let cfg = WalkerConfig { max_depth: 3, follow_symlinks: false, cross_devices: false, excluded_paths: vec![] };
    assert_eq!(cfg.decide("/data/a/..", 1, false, true, &ProtectionRegistry::new()), WalkDecision::Skip);
}

#[test]
fn object_file_share_counts_suffixes() {
    let names = vec!["a.o".to_string(), "lib.rlib".to_string(), "x.rmeta".to_string(), "main.rs".to_string()];
    assert_eq!(object_file_permille(&names), 750);
    assert_eq!(object_file_permille(&vec![]), 0);
    assert_eq!(object_file_permille(&vec![".o".to_string(), "o".to_string()]), 500);
}

fn loc(path: &str, priority: u8, buffer: u8) -> SpecialLocation {
    SpecialLocation { path: path.to_string(), kind: SpecialKind::UserTmp, buffer_pct: buffer, scan_interval_secs: 5, priority }
}

#[test]
fn registry_keeps_first_location_and_stable_order() {
    let r = SpecialLocationRegistry::new(vec![
        loc("/a", 100, 1),
        loc("/b", 200, 2),
        loc("/a", 250, 3),
        loc("/c", 100, 4),
        loc("/d", 200, 5),
    ]);
    let got: Vec<(&str, u8)> = r.all().iter().map(|l| (l.path.as_str(), l.buffer_pct)).collect();
    assert_eq!(got, vec![("/b", 2), ("/d", 5), ("/a", 1), ("/c", 4)]);
}

#[test]
fn discover_registers_only_ram_mounts_with_their_settings() {
    let mounts = vec![
        MountPoint { path: "/dev/shm".to_string(), fs_type: "tmpfs".to_string(), is_ram_backed: true },
        MountPoint { path: "/ram".to_string(), fs_type: "ramfs".to_string(), is_ram_backed: true },
        MountPoint { path: "/run".to_string(), fs_type: "tmpfs".to_string(), is_ram_backed: true },
        MountPoint { path: "/home".to_string(), fs_type: "ext4".to_string(), is_ram_backed: false },
    ];
    let r = SpecialLocationRegistry::discover(&mounts, &vec!["/scratch".to_string()]);
    let got: Vec<(&str, u8, u64, u8)> =
        r.all().iter().map(|l| (l.path.as_str(), l.buffer_pct, l.scan_interval_secs, l.priority)).collect();
    assert_eq!(
        got,
        vec![("/dev/shm", 20, 3, 255), ("/ram", 18, 4, 220), ("/run", 15, 5, 200), ("/tmp", 15, 5, 160), ("/scratch", 15, 5, 140)]
    );
    assert!(!r.all().iter().any(|l| l.path == "/home"));
}

#[test]
fn new_policy_engine_starts_clean() {
    let e = PolicyEngine::new(PolicyConfig::default());
    assert_eq!(e.mode(), ActiveMode::Observe);
    assert!(!e.budget_demoted);
    assert_eq!(e.canary_used, 0);
    assert_eq!(e.total_fallback_entries(), 0);
}

#[test]
fn breach_windows_force_safe_mode() {
    let mut e = PolicyEngine::new(PolicyConfig {
        initial_mode: ActiveMode::Enforce,
        calibration_breach_windows: 2,
        recovery_clean_windows: 2,
        ..PolicyConfig::default()
    });
    let report = |status| GuardDiagnostics {
        status,
        observation_count: 10,
        median_rate_error: 0,
        conservative_fraction: 1000,
        e_process_value: 1000,
        e_process_alarm: false,
        consecutive_clean: 0,
        reason: String::new(),
    };
    e.observe_window(&report(GuardStatus::Fail));
    assert_eq!(e.mode(), ActiveMode::Enforce);
    e.observe_window(&report(GuardStatus::Fail));
    assert_eq!(e.mode(), ActiveMode::FallbackSafe);
    e.observe_window(&report(GuardStatus::Pass));
    assert_eq!(e.mode(), ActiveMode::FallbackSafe);
    e.observe_window(&report(GuardStatus::Pass));
    assert_eq!(e.mode(), ActiveMode::Enforce);
}

#[test]
fn error_exit_codes() {
    assert_eq!(SbhError::InvalidConfig { details: String::new() }.exit_code(), 1);
    assert_eq!(SbhError::SafetyVeto { path: String::new(), reason: String::new() }.exit_code(), 1);
    assert_eq!(SbhError::io(String::new(), String::new()).exit_code(), 2);
}
