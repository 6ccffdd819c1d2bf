use llm_tool_test::gates::{
    eval_command_json_path, eval_command_output_contains, eval_command_output_matches,
    eval_command_succeeds, eval_file_contains, eval_file_exists, eval_file_matches,
    eval_no_transcript_errors, eval_script, CmdOutput, CommandOutcome, ScriptOutcome,
};
use llm_tool_test::script::ScriptResult;

fn ran(success: bool, stdout: &str, stderr: &str) -> CommandOutcome {
    CommandOutcome::Ran(CmdOutput {
        success,
        exit_code: Some(if success { 0 } else { 1 }),
        stdout: stdout.to_string(),
        stderr: stderr.to_string(),
    })
}

fn completed(exit_code: i32, stdout: &str, timed_out: bool) -> ScriptOutcome {
    ScriptOutcome::Completed(ScriptResult {
        exit_code,
        stdout: stdout.to_string(),
        stderr: String::new(),
        timed_out,
    })
}

#[test]
fn command_succeeds_gate_passes_for_successful_command() {
    let outcome = ran(true, "", "");
    let result = eval_command_succeeds("true", Some(&outcome));
    assert!(result.passed);
}

#[test]
fn command_succeeds_gate_fails_for_failing_command() {
    let outcome = ran(false, "", "");
    let result = eval_command_succeeds("false", Some(&outcome));
    assert!(!result.passed);
}

#[test]
fn command_succeeds_gate_rejects_blank_command() {
    let result = eval_command_succeeds("   ", None);
    assert!(!result.passed);
    assert_eq!(result.message, "Empty command");
}

#[test]
fn command_succeeds_gate_reports_spawn_failure() {
    let outcome = CommandOutcome::SpawnFailed("No such file or directory".to_string());
    let result = eval_command_succeeds("doesnotexist", Some(&outcome));
    assert!(!result.passed);
    assert!(result.message.contains("Failed to execute command 'doesnotexist'"));
}

#[test]
fn command_output_contains_gate_checks_stdout_substring() {
    let outcome = ran(true, "hello world", "");
    let result = eval_command_output_contains("printf 'hello world'", "hello", &outcome);
    assert!(result.passed);
}

#[test]
fn command_output_contains_gate_needs_success() {
    let outcome = ran(false, "hello world", "");
    let result = eval_command_output_contains("printf 'hello world'; false", "hello", &outcome);
    assert!(!result.passed);
}

#[test]
fn command_output_matches_gate_checks_stdout_regex() {
    let outcome = ran(true, "abc-123", "");
    let result = eval_command_output_matches("printf 'abc-123'", r"abc-\d+", Some(&outcome));
    assert!(result.passed);
}

#[test]
fn command_output_matches_gate_rejects_bad_pattern() {
    let result = eval_command_output_matches("printf x", "[", None);
    assert!(!result.passed);
    assert!(result.message.contains("Invalid regex pattern '['"));
}

#[test]
fn command_output_matches_gate_reports_missing_execution() {
    let result = eval_command_output_matches("printf 'abc'", "abc", None);
    assert!(!result.passed);
    assert_eq!(result.message, "Command 'printf 'abc'' was not executed");
}

#[test]
fn command_json_path_gate_supports_exists_assertion() {
    let outcome = ran(true, "{\"meta\":{\"ok\":true}}", "");
    let result = eval_command_json_path(
        "printf '{\"meta\":{\"ok\":true}}'",
        "$.meta.ok",
        "exists",
        &outcome,
    );
    assert!(result.passed, "{}", result.message);
}

#[test]
fn command_json_path_gate_supports_equals_assertion() {
    let outcome = ran(true, "{\"count\":3}", "");
    let result = eval_command_json_path("printf '{\"count\":3}'", "$.count", "equals 3", &outcome);
    assert!(result.passed, "{}", result.message);
}

#[test]
fn command_json_path_gate_equals_rejects_wrong_value() {
    let outcome = ran(true, "{\"count\":3}", "");
    let result = eval_command_json_path("printf '{\"count\":3}'", "$.count", "equals 4", &outcome);
    assert!(!result.passed, "{}", result.message);
}

#[test]
fn command_json_path_gate_supports_contains_assertion() {
    let outcome = ran(true, "{\"msg\":\"build succeeded\"}", "");
    let result = eval_command_json_path(
        "printf '{\"msg\":\"build succeeded\"}'",
        "$.msg",
        "contains succeeded",
        &outcome,
    );
    assert!(result.passed, "{}", result.message);
}

#[test]
fn command_json_path_gate_supports_len_assertion() {
    let outcome = ran(true, "{\"items\":[1,2,3]}", "");
    let result = eval_command_json_path(
        "printf '{\"items\":[1,2,3]}'",
        "$.items",
        "len >= 3",
        &outcome,
    );
    assert!(result.passed, "{}", result.message);
}

#[test]
fn command_json_path_gate_reports_invalid_json() {
    let outcome = ran(true, "not json", "");
    let result = eval_command_json_path("printf 'not json'", "$.x", "exists", &outcome);
    assert!(!result.passed);
    assert!(result.message.contains("Command output is not valid JSON"));
}

#[test]
fn command_json_path_gate_reports_command_failure() {
    let outcome = CommandOutcome::Ran(CmdOutput {
        success: false,
        exit_code: Some(2),
        stdout: String::new(),
        stderr: "  boom  ".to_string(),
    });
    let result = eval_command_json_path("failingcmd", "$.x", "exists", &outcome);
    assert!(!result.passed);
    assert_eq!(
        result.message,
        "Command 'failingcmd' failed with exit code Some(2): boom"
    );
}

#[test]
fn file_exists_gate_checks_relative_path() {
    let result = eval_file_exists("result.txt", "/tmp/env", true);
    assert!(result.passed);
    assert!(result.message.contains("/tmp/env/result.txt"));
}

#[test]
fn file_contains_gate_checks_file_contents() {
    let result = eval_file_contains(
        "notes.md",
        "complete",
        "/tmp/env",
        &Ok("status: complete".to_string()),
    );
    assert!(result.passed);
}

#[test]
fn file_matches_gate_checks_file_regex() {
    let result = eval_file_matches(
        "logs.txt",
        r"run-\d+",
        "/tmp/env",
        &Ok("run-42 done".to_string()),
    );
    assert!(result.passed);
}

#[test]
fn file_contains_gate_reports_read_failure() {
    let result = eval_file_contains(
        "missing.md",
        "x",
        "/tmp/env",
        &Err("No such file or directory (os error 2)".to_string()),
    );
    assert!(!result.passed);
    assert!(result.message.contains("Failed to read file '/tmp/env/missing.md'"));
}

#[test]
fn script_gate_with_exit_code_success() {
    let result = eval_script("true", "should pass", &completed(0, "", false));
    assert!(result.passed, "Exit code 0 should pass: {}", result.message);
}

#[test]
fn script_gate_with_exit_code_failure() {
    let result = eval_script("false", "should fail", &completed(1, "", false));
    assert!(!result.passed, "Exit code 1 should fail: {}", result.message);
    assert!(result.message.contains("exit code: 1"));
}

#[test]
fn script_gate_with_json_output() {
    let result = eval_script(
        "echo '{\"passed\": true, \"message\": \"Custom check passed\"}'",
        "json gate",
        &completed(0, "{\"passed\": true, \"message\": \"Custom check passed\"}", false),
    );
    assert!(result.passed, "JSON passed=true should pass: {}", result.message);
    assert!(result.message.contains("Custom check passed"));
}

#[test]
fn script_gate_with_json_output_failure() {
    let result = eval_script(
        "echo '{\"passed\": false, \"message\": \"Custom check failed\"}'",
        "json gate",
        &completed(0, "{\"passed\": false, \"message\": \"Custom check failed\"}", false),
    );
    assert!(!result.passed, "JSON passed=false should fail: {}", result.message);
    assert!(result.message.contains("Custom check failed"));
}

#[test]
fn script_gate_without_runner_fails() {
    let result = eval_script("true", "no runner", &ScriptOutcome::NoRunner);
    assert!(!result.passed);
    assert!(result.message.contains("Script runner not available"));
}

#[test]
fn script_gate_timeout_fails() {
    let result = eval_script("sleep 2", "slow", &completed(-1, "", true));
    assert!(!result.passed);
    assert!(result.message.contains("timed out"));
}

#[test]
fn script_gate_json_without_message_uses_description() {
    let result = eval_script("check", "the description", &completed(0, "{\"passed\": true}", false));
    assert!(result.passed);
    assert_eq!(result.message, "the description");
}

#[test]
fn no_transcript_errors_gate_passes_on_clean_transcript() {
    let transcript = "mytool build\nall good\n".to_string();
    let result = eval_no_transcript_errors("mytool", None, &Ok(transcript));
    assert!(result.passed, "{}", result.message);
}

#[test]
fn no_transcript_errors_gate_fails_on_erroring_transcript() {
    let transcript = "mytool build\nError: something failed\n".to_string();
    let result = eval_no_transcript_errors("mytool", None, &Ok(transcript));
    assert!(!result.passed, "{}", result.message);
}

#[test]
fn no_transcript_errors_gate_fails_on_unreadable_transcript() {
    let result = eval_no_transcript_errors("mytool", None, &Err("no such file".to_string()));
    assert!(!result.passed);
    assert!(result.message.contains("Failed to read transcript file"));
}
