use llm_tool_test::mock::MockAdapter;
use llm_tool_test::scenario::{Evaluation, Scenario, TargetConfig, Task};
use llm_tool_test::script::{ScriptResult, ScriptRunner};

fn plain_scenario() -> Scenario {
    Scenario {
        name: "test".to_string(),
        description: "Test scenario".to_string(),
        template_folder: "mock_template".to_string(),
        target: TargetConfig {
            binary: "mock".to_string(),
            command_pattern: None,
            health_check: None,
            env: None,
        },
        task: Task { prompt: "Test prompt".to_string() },
        evaluation: Evaluation { gates: Vec::new(), judge: None, composite: None },
        tier: 0,
        tool_matrix: None,
        setup: None,
        tags: Vec::new(),
        run: None,
        scripts: None,
    }
}

#[test]
fn test_mock_adapter_is_available() {
    let adapter = MockAdapter;
    assert!(adapter.check_availability().is_ok());
}

#[test]
fn mock_adapter_reports_available_status() {
    let adapter = MockAdapter;
    let status = adapter.is_available();
    assert!(status.available);
    assert!(status.authenticated);
}

#[test]
fn mock_adapter_generates_nonempty_transcript() {
    let adapter = MockAdapter;
    let transcript = adapter.generate_transcript(&plain_scenario());
    assert!(!transcript.is_empty());
}

#[test]
fn script_runner_env_holds_framework_variables() {
    let runner = ScriptRunner::new(
        "/tmp/fixture".to_string(),
        "/tmp/results".to_string(),
        "test_scenario".to_string(),
        "test_agent".to_string(),
        "test_model".to_string(),
        None,
        None,
        Vec::new(),
    );
    let env = runner.build_env();
    assert_eq!(env.len(), 5);
    assert!(env.contains(&(
        "LLM_TOOL_TEST_SCENARIO".to_string(),
        "test_scenario".to_string()
    )));
    assert!(env.contains(&(
        "LLM_TOOL_TEST_FIXTURE_DIR".to_string(),
        "/tmp/fixture".to_string()
    )));
    assert!(env.contains(&("LLM_TOOL_TEST_MODEL".to_string(), "test_model".to_string())));
}

#[test]
fn script_runner_target_env_comes_last_and_wins() {
    let runner = ScriptRunner::new(
        "/tmp/fixture".to_string(),
        "/tmp/results".to_string(),
        "test_scenario".to_string(),
        "test_agent".to_string(),
        "test_model".to_string(),
        Some("/tmp/t.txt".to_string()),
        Some("/tmp/e.jsonl".to_string()),
        vec![("LLM_TOOL_TEST_SCENARIO".to_string(), "overridden".to_string())],
    );
    let env = runner.build_env();
    // Applying the pairs in order, the caller's entry overrides the
    // framework's.
    let mut last = None;
    for (k, v) in &env {
        if k == "LLM_TOOL_TEST_SCENARIO" {
            last = Some(v.clone());
        }
    }
    assert_eq!(last.as_deref(), Some("overridden"));
    assert!(env.contains(&("LLM_TOOL_TEST_TRANSCRIPT".to_string(), "/tmp/t.txt".to_string())));
    assert!(env.contains(&("LLM_TOOL_TEST_EVENTS".to_string(), "/tmp/e.jsonl".to_string())));
}

#[test]
fn script_result_succeeded_requires_zero_exit_and_no_timeout() {
    let ok = ScriptResult {
        exit_code: 0,
        stdout: String::new(),
        stderr: String::new(),
        timed_out: false,
    };
    assert!(ok.succeeded());
    let failed = ScriptResult { exit_code: 1, ..ok.clone() };
    assert!(!failed.succeeded());
    let timed = ScriptResult { timed_out: true, ..ok };
    assert!(!timed.succeeded());
}
