use sbh::decision_record::{ActionRecord, DecisionRecord, DecisionRecordBuilder, PolicyMode};
use sbh::guardrails::GuardStatus;
use sbh::rng::SeededRng;
use sbh::scoring::{
    ArtifactCategory, ArtifactClassification, CandidacyScore, CandidateInput, DecisionAction,
    DecisionOutcome, ScoreFactors, ScoringConfig, ScoringEngine, StructuralSignals, VetoReason,
};

fn scored(action: DecisionAction, score: u32) -> CandidacyScore {
    CandidacyScore {
        path: "/data/projects/test/.target_opus".to_string(),
        total_score: score * 1_000_000,
        factors: ScoreFactors { location: 850, name: 900, age: 1000, size: 700, structure: 950, pressure_multiplier: 1_500_000 },
        vetoed: false,
        veto_reason: None,
        classification: ArtifactClassification {
            pattern_name: ".target*".to_string(),
            category: ArtifactCategory::RustTarget,
            name_confidence: 900,
            structural_confidence: 950,
            combined_confidence: 920,
        },
        size_bytes: 3_000_000_000,
        age_secs: 5 * 3600,
        decision: DecisionOutcome {
            action,
            posterior_abandoned: 870,
            expected_loss_keep: 87,
            expected_loss_delete: 13,
            calibration_score: 820,
            fallback_active: false,
        },
    }
}

#[test]
fn decision_record_json_roundtrip_across_modes() {
    let mut builder = DecisionRecordBuilder::new();
    let candidate = scored(DecisionAction::Delete, 2000);
    for mode in [PolicyMode::Live, PolicyMode::Shadow, PolicyMode::Canary, PolicyMode::DryRun] {
        let record = builder.build(&candidate, mode, None, None);
        let json = record.to_json_compact();
        let parsed = DecisionRecord::from_json(&json).unwrap();
        assert_eq!(parsed.policy_mode, mode);
        assert_eq!(parsed.action, ActionRecord::Delete);
        assert_eq!(parsed, record);
        let value: serde_json::Value = serde_json::from_str(&json).unwrap();
        assert_eq!(value["policy_mode"].as_str(), Some(mode.as_str()));
        assert_eq!(value["action"].as_str(), Some("delete"));
    }
}

#[test]
fn property_decision_record_never_panics_on_serialize() {
    let mut builder = DecisionRecordBuilder::new();
    let engine = ScoringEngine::from_config(&ScoringConfig::default(), 30);
    for seed in 0..20u64 {
        let mut rng = SeededRng::new(seed * 3 + 1);
        for i in 0..10u64 {
            let c = CandidateInput {
                path: format!("/data/p{i}/dir \"quoted\"\\tab\t{}", rng.next_u64() % 1000),
                size_bytes: rng.next_range(1, 1 << 40),
                age_secs: rng.next_range(0, 10 * 86_400),
                classification: ArtifactClassification {
                    pattern_name: "x".to_string(),
                    category: ArtifactCategory::BuildOutput,
                    name_confidence: rng.next_range(0, 1000) as u32,
                    structural_confidence: rng.next_range(0, 1000) as u32,
                    combined_confidence: rng.next_range(0, 1000) as u32,
                },
                signals: StructuralSignals::default(),
                is_open: i % 4 == 0,
                excluded: false,
            };
            let urgency = rng.next_range(0, 1000) as u32;
            let s = engine.score_candidate(&c, urgency);
            let record = builder.build(&s, PolicyMode::Live, Some(GuardStatus::Pass), Some(seed));
            let json = record.to_json_compact();
            let parsed = DecisionRecord::from_json(&json).unwrap();
            assert_eq!(parsed.decision_id, record.decision_id);
            assert_eq!(parsed, record);
            let value: serde_json::Value = serde_json::from_str(&json).unwrap();
            assert_eq!(value["path"].as_str(), Some(record.path.as_str()));
            assert_eq!(value["total_score"].as_u64(), Some(record.total_score as u64));
        }
    }
}

#[test]
fn record_json_escapes_control_characters() {
    let mut builder = DecisionRecordBuilder::new();
    let mut c = scored(DecisionAction::Keep, 10);
    c.path = "/tmp/a\u{1}b\nc".to_string();
    c.vetoed = true;
    c.veto_reason = Some(VetoReason::Marker);
    let record = builder.build(&c, PolicyMode::Shadow, Some(GuardStatus::Fail), Some(7));
    let json = record.to_json_compact();
    assert!(json.contains("\\u0001"));
    assert!(json.contains("\\n"));
    assert!(json.contains("\"veto_reason\":\"marker\""));
    assert!(json.contains("\"guard_status\":\"fail\""));
    let value: serde_json::Value = serde_json::from_str(&json).unwrap();
    assert_eq!(value["path"].as_str(), Some("/tmp/a\u{1}b\nc"));
    assert_eq!(DecisionRecord::from_json(&json).unwrap(), record);
    assert!(DecisionRecord::from_json("{}").is_none());
    assert!(DecisionRecord::from_json(&json[1..]).is_none());
}
