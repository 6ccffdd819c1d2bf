use llm_tool_test::transcript::{CommandEvent, TranscriptAnalyzer};

fn event(command: &str, exit_code: Option<i32>) -> CommandEvent {
    CommandEvent { command: command.to_string(), exit_code }
}

#[test]
fn analyze_with_events_counts_totals_and_retries() {
    let events = vec![
        event("build", Some(0)),
        event("build", Some(0)),
        event("deploy", Some(1)),
    ];
    let m = TranscriptAnalyzer::analyze_with_events("", Some(events));
    assert_eq!(m.total_commands, 3);
    assert_eq!(m.unique_commands, 2);
    assert_eq!(m.error_count, 1);
    assert_eq!(m.retry_count, 1);
    assert_eq!(m.help_invocations, 0);
}

#[test]
fn analyze_with_events_iteration_ratio_is_total_over_unique() {
    let events = vec![
        event("a", Some(0)),
        event("a", Some(0)),
        event("b", Some(0)),
    ];
    let m = TranscriptAnalyzer::analyze_with_events("", Some(events));
    assert_eq!(m.retry_count, m.total_commands - m.unique_commands);
    // 3 / 2 = 1.5, in parts per million.
    assert_eq!(m.iteration_ratio_ppm(), 1500000);
}

#[test]
fn analyze_with_events_zero_when_empty() {
    let m = TranscriptAnalyzer::analyze_with_events("", Some(Vec::new()));
    assert_eq!(m.total_commands, 0);
    assert_eq!(m.unique_commands, 0);
    assert_eq!(m.retry_count, 0);
    assert_eq!(m.iteration_ratio_ppm(), 0);
    assert_eq!(m.first_try_success_rate_ppm(), 0);

    let none = TranscriptAnalyzer::analyze_with_events("whatever", None);
    assert_eq!(none.total_commands, 0);
}

#[test]
fn first_try_rate_counts_error_free_first_occurrences() {
    // Both `build` events count (their first occurrence is error-free and
    // nothing errored before it); `deploy` errors on its first occurrence.
    let events = vec![
        event("build", Some(0)),
        event("build", Some(0)),
        event("deploy", Some(1)),
    ];
    let m = TranscriptAnalyzer::analyze_with_events("", Some(events));
    assert_eq!(m.first_try_successes, 2);
    // 2 / 3 in parts per million, rounded down.
    assert_eq!(m.first_try_success_rate_ppm(), 666666);
}

#[test]
fn unknown_exit_codes_are_not_errors() {
    let events = vec![event("run", None), event("run", Some(0))];
    let m = TranscriptAnalyzer::analyze_with_events("", Some(events));
    assert_eq!(m.error_count, 0);
}

#[test]
fn transcript_extraction_end_to_end() {
    // Two identical successful invocations of the target binary, then one
    // erroring invocation. The quiet stretches keep the error line out of
    // the twenty-line lookahead window of the successful invocations.
    let mut transcript = String::new();
    for _ in 0..2 {
        transcript.push_str("mytool build\n");
        for _ in 0..20 {
            transcript.push_str("all good\n");
        }
    }
    transcript.push_str("mytool deploy\nError: deploy failed\n");
    let m = TranscriptAnalyzer::analyze_with_exit_codes_for_target(&transcript, "mytool", None);
    assert_eq!(m.total_commands, 3);
    assert!(m.unique_commands <= 2);
    assert_eq!(m.error_count, 1);
}

#[test]
fn extraction_reads_explicit_exit_codes() {
    let transcript = "\
mytool build\n\
exit code: 3\n";
    let events = TranscriptAnalyzer::extract_commands_with_pattern(
        transcript,
        r"^\s*(mytool)\s+(--help|\S+)\b",
    );
    assert_eq!(events.len(), 1);
    assert_eq!(events[0].command, "build");
    assert_eq!(events[0].exit_code, Some(3));
}

#[test]
fn extraction_records_help_invocations() {
    let transcript = "mytool --help\nusage: mytool ...\n";
    let m = TranscriptAnalyzer::analyze_with_exit_codes_for_target(transcript, "mytool", None);
    assert_eq!(m.help_invocations, 1);
    assert_eq!(m.error_count, 0);
}

#[test]
fn extraction_skips_log_prose_binaries() {
    // "error something" would match a generic pattern, but "error" is
    // recognized as log prose, not a binary.
    let transcript = "error something\nmytool build\nok\n";
    let events = TranscriptAnalyzer::extract_commands_with_pattern(
        transcript,
        r"^\s*(\S+)\s+(--help|\S+)\b",
    );
    assert_eq!(events.len(), 1);
    assert_eq!(events[0].command, "build");
}

#[test]
fn extraction_with_invalid_pattern_yields_nothing() {
    let events = TranscriptAnalyzer::extract_commands_with_pattern("mytool build\n", "[");
    assert!(events.is_empty());
}

#[test]
fn resolve_command_pattern_escapes_binary_name() {
    let pattern = TranscriptAnalyzer::resolve_command_pattern("a.b", None);
    assert_eq!(pattern, r"^\s*(a\.b)\s+(--help|\S+)\b");
}

#[test]
fn resolve_command_pattern_prefers_non_blank_override() {
    let pattern = TranscriptAnalyzer::resolve_command_pattern("tool", Some("^custom$"));
    assert_eq!(pattern, "^custom$");
    let blank = TranscriptAnalyzer::resolve_command_pattern("tool", Some("   "));
    assert_eq!(blank, r"^\s*(tool)\s+(--help|\S+)\b");
}

#[test]
fn is_error_line_is_case_insensitive() {
    assert!(TranscriptAnalyzer::is_error_line("ERROR: boom"));
    assert!(TranscriptAnalyzer::is_error_line("the build Failed"));
    assert!(TranscriptAnalyzer::is_error_line("exit code 1 reported"));
    assert!(TranscriptAnalyzer::is_error_line("non-zero status"));
    assert!(!TranscriptAnalyzer::is_error_line("all fine here"));
}
