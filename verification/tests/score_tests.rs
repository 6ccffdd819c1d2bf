use llm_tool_test::eval_helpers::{compute_efficiency_or_default, no_transcript_errors};
use llm_tool_test::gates::{
    evaluate_gates, EvaluationContext, GateEvaluator, Observation,
};
use llm_tool_test::scenario::{CompositeConfig, Gate};
use llm_tool_test::score::{
    build_metrics, compute_composite_score, determine_outcome, ScoreTier,
};
use llm_tool_test::transcript::{CommandEvent, TranscriptAnalyzer};

fn metrics_from(events: Vec<(&str, i32)>) -> llm_tool_test::transcript::EfficiencyMetrics {
    let events: Vec<CommandEvent> = events
        .into_iter()
        .map(|(c, code)| CommandEvent { command: c.to_string(), exit_code: Some(code) })
        .collect();
    TranscriptAnalyzer::analyze_with_events("", Some(events))
}

#[test]
fn composite_score_weighs_judge_gates_and_efficiency() {
    // 0.55 * 0.8 + 0.35 * 0.5 + 0.10 * 0.5 = 0.665
    let eff = metrics_from(vec![("a", 0), ("b", 1)]);
    assert_eq!(eff.first_try_success_rate_ppm(), 500000);
    let score = compute_composite_score(Some(800000), 1, 2, &eff, None);
    assert_eq!(score, 665000);
}

#[test]
fn composite_score_defaults_missing_judge_to_zero() {
    let eff = metrics_from(vec![]);
    // 0.35 * 1.0 with no judge and no commands.
    let score = compute_composite_score(None, 2, 2, &eff, None);
    assert_eq!(score, 350000);
}

#[test]
fn composite_score_zero_gates_total_counts_as_zero() {
    let eff = metrics_from(vec![]);
    let score = compute_composite_score(Some(1000000), 0, 0, &eff, None);
    assert_eq!(score, 550000);
}

#[test]
fn composite_score_is_clamped_to_one() {
    let eff = metrics_from(vec![("a", 0)]);
    // An out-of-range judge score cannot push the result above 1.0.
    let score = compute_composite_score(Some(5000000), 1, 1, &eff, None);
    assert_eq!(score, 1000000);
}

#[test]
fn composite_score_honors_custom_weights() {
    let eff = metrics_from(vec![("a", 0)]);
    let weights = CompositeConfig { judge_weight: 0, gate_weight: 1000000, interaction_weight: 0 };
    let score = compute_composite_score(Some(900000), 1, 2, &eff, Some(&weights));
    assert_eq!(score, 500000);
}

#[test]
fn score_tiers_cut_at_the_documented_thresholds() {
    assert_eq!(ScoreTier::from_score(950000), ScoreTier::Excellent);
    assert_eq!(ScoreTier::from_score(900000), ScoreTier::Excellent);
    assert_eq!(ScoreTier::from_score(899999), ScoreTier::Good);
    assert_eq!(ScoreTier::from_score(700000), ScoreTier::Good);
    assert_eq!(ScoreTier::from_score(500000), ScoreTier::Acceptable);
    assert_eq!(ScoreTier::from_score(499999), ScoreTier::Poor);
    assert_eq!(ScoreTier::from_score(0), ScoreTier::Poor);
    assert_eq!(ScoreTier::Excellent.label(), "Excellent");
    assert_eq!(ScoreTier::Poor.label(), "Poor");
}

#[test]
fn determine_outcome_reports_failing_tally() {
    let eff = metrics_from(vec![]);
    let metrics = build_metrics(Vec::new(), 1, 3, None, None, eff, None);
    assert_eq!(determine_outcome(&metrics), "Fail: 1/3 gates passed");

    let eff2 = metrics_from(vec![]);
    let metrics2 = build_metrics(Vec::new(), 2, 2, None, None, eff2, None);
    assert_eq!(determine_outcome(&metrics2), "Pass");
}

#[test]
fn evaluate_gates_keeps_declaration_order_and_counts_passes() {
    let gates = vec![
        Gate::FileExists { path: "a.txt".to_string() },
        Gate::FileContains { path: "b.txt".to_string(), substring: "x".to_string() },
        Gate::FileExists { path: "c.txt".to_string() },
    ];
    let contexts = vec![
        ctx(Observation::FileExists(true)),
        ctx(Observation::FileContent(Ok("no match here".to_string()))),
        ctx(Observation::FileExists(false)),
    ];
    let (details, passed) = evaluate_gates(&gates, &contexts);
    assert_eq!(details.len(), 3);
    assert_eq!(passed, 1);
    assert_eq!(details[0].gate_type, "FileExists");
    assert!(details[0].passed);
    assert_eq!(details[1].gate_type, "FileContains");
    assert!(!details[1].passed);
    assert!(!details[2].passed);
}

fn ctx(observation: Observation) -> EvaluationContext {
    EvaluationContext {
        env_root: "/tmp/env".to_string(),
        target_binary: "mytool".to_string(),
        command_pattern: None,
        observation,
    }
}

#[test]
fn gate_evaluate_dispatches_by_kind() {
    let gate = Gate::CommandOutputMatches {
        command: "printf 'abc-123'".to_string(),
        pattern: r"abc-\d+".to_string(),
    };
    let context = ctx(Observation::Command(Some(
        llm_tool_test::gates::CommandOutcome::Ran(llm_tool_test::gates::CmdOutput {
            success: true,
            exit_code: Some(0),
            stdout: "abc-123".to_string(),
            stderr: String::new(),
        }),
    )));
    let result = gate.evaluate(&context);
    assert!(result.passed, "{}", result.message);
}

#[test]
fn efficiency_defaults_to_zero_when_transcript_unreadable() {
    let m = compute_efficiency_or_default(&Err("gone".to_string()), "mytool", None);
    assert_eq!(m.total_commands, 0);
    assert_eq!(m.first_try_success_rate_ppm(), 0);
}

#[test]
fn no_transcript_errors_helper_reports_read_failure() {
    let err = no_transcript_errors(&Err("gone".to_string()), "mytool", None).unwrap_err();
    assert!(err.contains("Failed to read transcript file"));
    let ok = no_transcript_errors(&Ok("mytool build\nfine\n".to_string()), "mytool", None);
    assert_eq!(ok.unwrap(), true);
}
