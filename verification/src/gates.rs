//! Verdict logic for every `Gate` variant, as a function of the variant's
//! own fields and of what was observed outside (a command's output, a
//! file's contents, a script's result). Every failure mode collapses into
//! a failed `GateResult` with a diagnostic message; nothing escapes.

use vstd::prelude::*;

use crate::assertion::{
    assertion_error_text, evaluate_json_assertion, spec_apply_assertion, spec_parse_assertion,
};
use crate::json::{parse_json, parsed_json, JsonSpec};
use crate::json_path::{path_error_text, resolve_json_path, spec_parse_path, spec_resolve};
use crate::regex_ops::{regex_compile_error, regex_is_match, regex_matches, regex_new};
use crate::scenario::Gate;
use crate::script::{ScriptResult, ScriptResultSpec};
use crate::text::{
    all_space, bool_text, contains_chars, contains_seq, dec_str_signed, dec_string_signed,
    to_chars, trim_chars, trim_seq,
};
use crate::transcript::{
    count_errors, spec_extract, spec_resolved_pattern, TranscriptAnalyzer,
};

verus! {

/// The verdict on one evaluated gate.
#[derive(Debug, Clone)]
pub struct GateResult {
    /// The variant name, as a tag.
    pub gate_type: String,
    /// Whether the check came out true.
    pub passed: bool,
    /// A human-readable explanation of the verdict.
    pub message: String,
}

/// The mathematical shape of a gate verdict.
pub struct GateResultSpec {
    pub gate_type: Seq<char>,
    pub passed: bool,
    pub message: Seq<char>,
}

impl View for GateResult {
    type V = GateResultSpec;

    open spec fn view(&self) -> GateResultSpec {
        GateResultSpec {
            gate_type: self.gate_type@,
            passed: self.passed,
            message: self.message@,
        }
    }
}

/// What one shell command produced.
#[derive(Debug, Clone)]
pub struct CmdOutput {
    /// The process exited successfully.
    pub success: bool,
    /// The exit code the system reported, if any.
    pub exit_code: Option<i32>,
    /// Standard output, lossily decoded.
    pub stdout: String,
    /// Standard error, lossily decoded.
    pub stderr: String,
}

/// The mathematical shape of a command's output.
pub struct CmdOutputSpec {
    pub success: bool,
    pub exit_code: Option<int>,
    pub stdout: Seq<char>,
    pub stderr: Seq<char>,
}

impl View for CmdOutput {
    type V = CmdOutputSpec;

    open spec fn view(&self) -> CmdOutputSpec {
        CmdOutputSpec {
            success: self.success,
            exit_code: match self.exit_code {
                Some(c) => Some(c as int),
                None => None,
            },
            stdout: self.stdout@,
            stderr: self.stderr@,
        }
    }
}

/// How running a shell command went: it could not be spawned, or it ran.
#[derive(Debug, Clone)]
pub enum CommandOutcome {
    /// The process could not be started; the system's error text.
    SpawnFailed(String),
    /// The process ran to completion.
    Ran(CmdOutput),
}

/// The mathematical shape of a command outcome.
pub enum CommandOutcomeSpec {
    SpawnFailed(Seq<char>),
    Ran(CmdOutputSpec),
}

impl View for CommandOutcome {
    type V = CommandOutcomeSpec;

    open spec fn view(&self) -> CommandOutcomeSpec {
        match self {
            CommandOutcome::SpawnFailed(e) => CommandOutcomeSpec::SpawnFailed(e@),
            CommandOutcome::Ran(o) => CommandOutcomeSpec::Ran(o@),
        }
    }
}

/// How running a script gate went.
#[derive(Debug, Clone)]
pub enum ScriptOutcome {
    /// No script runner was available.
    NoRunner,
    /// The script could not be started; the system's error text.
    SpawnFailed(String),
    /// The script ran (possibly into its timeout).
    Completed(ScriptResult),
}

/// The mathematical shape of a script outcome.
pub enum ScriptOutcomeSpec {
    NoRunner,
    SpawnFailed(Seq<char>),
    Completed(ScriptResultSpec),
}

impl View for ScriptOutcome {
    type V = ScriptOutcomeSpec;

    open spec fn view(&self) -> ScriptOutcomeSpec {
        match self {
            ScriptOutcome::NoRunner => ScriptOutcomeSpec::NoRunner,
            ScriptOutcome::SpawnFailed(e) => ScriptOutcomeSpec::SpawnFailed(e@),
            ScriptOutcome::Completed(r) => ScriptOutcomeSpec::Completed(r@),
        }
    }
}

/// The observed command outcome behind an optional reference.
pub open spec fn opt_outcome_view(o: Option<&CommandOutcome>) -> Option<CommandOutcomeSpec> {
    match o {
        Some(c) => Some(c@),
        None => None,
    }
}

/// A gate verdict from its parts.
pub open spec fn gr(gate_type: Seq<char>, passed: bool, message: Seq<char>) -> GateResultSpec {
    GateResultSpec { gate_type, passed, message }
}

/// The message for a command that could not be started.
pub open spec fn spawn_failed_text(command: Seq<char>, e: Seq<char>) -> Seq<char> {
    "Failed to execute command '"@ + command + "': "@ + e
}

/// The textual join of a root directory and a relative path, as paths
/// combine on the platforms the crate targets: an absolute path replaces
/// the root, and a separator is inserted only where needed.
pub open spec fn spec_path_join(root: Seq<char>, rel: Seq<char>) -> Seq<char> {
    if rel.len() > 0 && rel[0] == '/' {
        rel
    } else if root.len() == 0 {
        rel
    } else if root.last() == '/' {
        root + rel
    } else {
        root + seq!['/'] + rel
    }
}

/// The textual join of a root directory and a relative path.
pub fn join_path(root: &str, rel: &str) -> (r: String)
    ensures
        r@ == spec_path_join(root@, rel@),
{
    let rel_chars = to_chars(rel);
    let root_chars = to_chars(root);
    if rel_chars.len() > 0 && rel_chars[0] == '/' {
        return rel.to_owned();
    }
    if root_chars.len() == 0 {
        return rel.to_owned();
    }
    let mut out = root.to_owned();
    if root_chars[root_chars.len() - 1] != '/' {
        out.append("/");
        proof {
            reveal_strlit("/");
            assert("/"@ =~= seq!['/']);
        }
    }
    out.append(rel);
    out
}

/// The verdict of a `CommandSucceeds` gate: a blank command fails
/// outright; otherwise the verdict is positive exactly when the process
/// exited successfully.
pub open spec fn spec_eval_command_succeeds(
    command: Seq<char>,
    outcome: Option<CommandOutcomeSpec>,
) -> GateResultSpec {
    if all_space(command) {
        gr("CommandSucceeds"@, false, "Empty command"@)
    } else {
        match outcome {
            Some(CommandOutcomeSpec::SpawnFailed(e)) => gr(
                "CommandSucceeds"@,
                false,
                spawn_failed_text(command, e),
            ),
            Some(CommandOutcomeSpec::Ran(o)) => gr(
                "CommandSucceeds"@,
                o.success,
                "Command '"@ + command + "' succeeded: "@ + bool_text(o.success),
            ),
            None => gr(
                "CommandSucceeds"@,
                false,
                "Command '"@ + command + "' was not executed"@,
            ),
        }
    }
}

/// Evaluates a `CommandSucceeds` gate against its observed outcome; a
/// blank command is never run, so it needs none.
pub fn eval_command_succeeds(command: &str, outcome: Option<&CommandOutcome>) -> (r: GateResult)
    requires
        all_space(command@) || outcome is Some,
    ensures
        r@ == spec_eval_command_succeeds(command@, opt_outcome_view(outcome)),
{
    let command_chars = to_chars(command);
    if crate::text::chars_all_space(&command_chars) {
        return GateResult {
            gate_type: String::from_str("CommandSucceeds"),
            passed: false,
            message: String::from_str("Empty command"),
        };
    }
    match outcome {
        Some(CommandOutcome::SpawnFailed(e)) => {
            let mut m = String::from_str("Failed to execute command '");
            m.append(command);
            m.append("': ");
            m.append(e.as_str());
            GateResult {
                gate_type: String::from_str("CommandSucceeds"),
                passed: false,
                message: m,
            }
        },
        Some(CommandOutcome::Ran(o)) => {
            let mut m = String::from_str("Command '");
            m.append(command);
            m.append("' succeeded: ");
            m.append(if o.success {
                "true"
            } else {
                "false"
            });
            GateResult {
                gate_type: String::from_str("CommandSucceeds"),
                passed: o.success,
                message: m,
            }
        },
        None => {
            let mut m = String::from_str("Command '");
            m.append(command);
            m.append("' was not executed");
            GateResult {
                gate_type: String::from_str("CommandSucceeds"),
                passed: false,
                message: m,
            }
        },
    }
}

/// The verdict of a `CommandOutputContains` gate: the process exited
/// successfully and its stdout holds the substring.
pub open spec fn spec_eval_command_output_contains(
    command: Seq<char>,
    substring: Seq<char>,
    outcome: CommandOutcomeSpec,
) -> GateResultSpec {
    match outcome {
        CommandOutcomeSpec::SpawnFailed(e) => gr(
            "CommandOutputContains"@,
            false,
            spawn_failed_text(command, e),
        ),
        CommandOutcomeSpec::Ran(o) => {
            let passed = o.success && contains_seq(o.stdout, substring);
            gr(
                "CommandOutputContains"@,
                passed,
                "Command '"@ + command + "' contains substring '"@ + substring + "': "@
                    + bool_text(passed),
            )
        },
    }
}

/// Evaluates a `CommandOutputContains` gate against its observed outcome.
pub fn eval_command_output_contains(command: &str, substring: &str, outcome: &CommandOutcome) -> (r:
    GateResult)
    ensures
        r@ == spec_eval_command_output_contains(command@, substring@, outcome@),
{
    match outcome {
        CommandOutcome::SpawnFailed(e) => {
            let mut m = String::from_str("Failed to execute command '");
            m.append(command);
            m.append("': ");
            m.append(e.as_str());
            GateResult {
                gate_type: String::from_str("CommandOutputContains"),
                passed: false,
                message: m,
            }
        },
        CommandOutcome::Ran(o) => {
            let stdout_chars = to_chars(o.stdout.as_str());
            let needle_chars = to_chars(substring);
            let passed = o.success && contains_chars(&stdout_chars, &needle_chars);
            let mut m = String::from_str("Command '");
            m.append(command);
            m.append("' contains substring '");
            m.append(substring);
            m.append("': ");
            m.append(if passed {
                "true"
            } else {
                "false"
            });
            GateResult {
                gate_type: String::from_str("CommandOutputContains"),
                passed,
                message: m,
            }
        },
    }
}

/// The verdict of a `CommandOutputMatches` gate: an invalid pattern fails
/// with its diagnostic; otherwise the process exited successfully and the
/// pattern matches somewhere in stdout.
pub open spec fn spec_eval_command_output_matches(
    command: Seq<char>,
    pattern: Seq<char>,
    outcome: Option<CommandOutcomeSpec>,
) -> GateResultSpec {
    match regex_compile_error(pattern) {
        Some(e) => gr(
            "CommandOutputMatches"@,
            false,
            "Invalid regex pattern '"@ + pattern + "': "@ + e,
        ),
        None => match outcome {
            Some(CommandOutcomeSpec::SpawnFailed(e)) => gr(
                "CommandOutputMatches"@,
                false,
                spawn_failed_text(command, e),
            ),
            Some(CommandOutcomeSpec::Ran(o)) => {
                let passed = o.success && regex_matches(pattern, o.stdout);
                gr(
                    "CommandOutputMatches"@,
                    passed,
                    "Command '"@ + command + "' matches pattern '"@ + pattern + "': "@
                        + bool_text(passed),
                )
            },
            None => gr(
                "CommandOutputMatches"@,
                false,
                "Command '"@ + command + "' was not executed"@,
            ),
        },
    }
}

/// Evaluates a `CommandOutputMatches` gate; the command is not run when
/// the pattern does not compile, so the outcome may be absent.
pub fn eval_command_output_matches(command: &str, pattern: &str, outcome: Option<&CommandOutcome>) -> (r:
    GateResult)
    ensures
        r@ == spec_eval_command_output_matches(command@, pattern@, opt_outcome_view(outcome)),
{
    let re = match regex_new(pattern) {
        Ok(re) => re,
        Err(e) => {
            let mut m = String::from_str("Invalid regex pattern '");
            m.append(pattern);
            m.append("': ");
            m.append(e.as_str());
            return GateResult {
                gate_type: String::from_str("CommandOutputMatches"),
                passed: false,
                message: m,
            };
        },
    };
    match outcome {
        Some(CommandOutcome::SpawnFailed(e)) => {
            let mut m = String::from_str("Failed to execute command '");
            m.append(command);
            m.append("': ");
            m.append(e.as_str());
            GateResult {
                gate_type: String::from_str("CommandOutputMatches"),
                passed: false,
                message: m,
            }
        },
        Some(CommandOutcome::Ran(o)) => {
            let passed = o.success && regex_is_match(&re, o.stdout.as_str());
            let mut m = String::from_str("Command '");
            m.append(command);
            m.append("' matches pattern '");
            m.append(pattern);
            m.append("': ");
            m.append(if passed {
                "true"
            } else {
                "false"
            });
            GateResult {
                gate_type: String::from_str("CommandOutputMatches"),
                passed,
                message: m,
            }
        },
        None => {
            let mut m = String::from_str("Command '");
            m.append(command);
            m.append("' was not executed");
            GateResult {
                gate_type: String::from_str("CommandOutputMatches"),
                passed: false,
                message: m,
            }
        },
    }
}

/// The verdict of a `FileExists` gate.
pub open spec fn spec_eval_file_exists(path: Seq<char>, env_root: Seq<char>, exists: bool) -> GateResultSpec {
    gr(
        "FileExists"@,
        exists,
        "File '"@ + spec_path_join(env_root, path) + "' exists: "@ + bool_text(exists),
    )
}

/// Evaluates a `FileExists` gate against the observed existence of the
/// path under the environment root.
pub fn eval_file_exists(path: &str, env_root: &str, exists: bool) -> (r: GateResult)
    ensures
        r@ == spec_eval_file_exists(path@, env_root@, exists),
{
    let full = join_path(env_root, path);
    let mut m = String::from_str("File '");
    m.append(full.as_str());
    m.append("' exists: ");
    m.append(if exists {
        "true"
    } else {
        "false"
    });
    GateResult { gate_type: String::from_str("FileExists"), passed: exists, message: m }
}

/// The verdict of a `FileContains` gate: the file could be read and its
/// contents hold the substring.
pub open spec fn spec_eval_file_contains(
    path: Seq<char>,
    substring: Seq<char>,
    env_root: Seq<char>,
    content: Result<Seq<char>, Seq<char>>,
) -> GateResultSpec {
    let full = spec_path_join(env_root, path);
    match content {
        Ok(text) => {
            let passed = contains_seq(text, substring);
            gr(
                "FileContains"@,
                passed,
                "File '"@ + full + "' contains substring '"@ + substring + "': "@ + bool_text(
                    passed,
                ),
            )
        },
        Err(e) => gr("FileContains"@, false, "Failed to read file '"@ + full + "': "@ + e),
    }
}

/// The observed file content behind references.
pub open spec fn content_view(content: &Result<String, String>) -> Result<Seq<char>, Seq<char>> {
    match content {
        Ok(text) => Ok(text@),
        Err(e) => Err(e@),
    }
}

/// Evaluates a `FileContains` gate against the observed read of the file.
pub fn eval_file_contains(
    path: &str,
    substring: &str,
    env_root: &str,
    content: &Result<String, String>,
) -> (r: GateResult)
    ensures
        r@ == spec_eval_file_contains(path@, substring@, env_root@, content_view(content)),
{
    let full = join_path(env_root, path);
    match content {
        Ok(text) => {
            let text_chars = to_chars(text.as_str());
            let needle_chars = to_chars(substring);
            let passed = contains_chars(&text_chars, &needle_chars);
            let mut m = String::from_str("File '");
            m.append(full.as_str());
            m.append("' contains substring '");
            m.append(substring);
            m.append("': ");
            m.append(if passed {
                "true"
            } else {
                "false"
            });
            GateResult { gate_type: String::from_str("FileContains"), passed, message: m }
        },
        Err(e) => {
            let mut m = String::from_str("Failed to read file '");
            m.append(full.as_str());
            m.append("': ");
            m.append(e.as_str());
            GateResult {
                gate_type: String::from_str("FileContains"),
                passed: false,
                message: m,
            }
        },
    }
}

/// The verdict of a `FileMatches` gate: an invalid pattern fails with its
/// diagnostic; otherwise the file could be read and the pattern matches
/// somewhere in it.
pub open spec fn spec_eval_file_matches(
    path: Seq<char>,
    pattern: Seq<char>,
    env_root: Seq<char>,
    content: Result<Seq<char>, Seq<char>>,
) -> GateResultSpec {
    let full = spec_path_join(env_root, path);
    match regex_compile_error(pattern) {
        Some(e) => gr(
            "FileMatches"@,
            false,
            "Invalid regex pattern '"@ + pattern + "': "@ + e,
        ),
        None => match content {
            Ok(text) => {
                let passed = regex_matches(pattern, text);
                gr(
                    "FileMatches"@,
                    passed,
                    "File '"@ + full + "' matches pattern '"@ + pattern + "': "@ + bool_text(
                        passed,
                    ),
                )
            },
            Err(e) => gr("FileMatches"@, false, "Failed to read file '"@ + full + "': "@ + e),
        },
    }
}

/// Evaluates a `FileMatches` gate against the observed read of the file.
pub fn eval_file_matches(
    path: &str,
    pattern: &str,
    env_root: &str,
    content: &Result<String, String>,
) -> (r: GateResult)
    ensures
        r@ == spec_eval_file_matches(path@, pattern@, env_root@, content_view(content)),
{
    let re = match regex_new(pattern) {
        Ok(re) => re,
        Err(e) => {
            let mut m = String::from_str("Invalid regex pattern '");
            m.append(pattern);
            m.append("': ");
            m.append(e.as_str());
            return GateResult {
                gate_type: String::from_str("FileMatches"),
                passed: false,
                message: m,
            };
        },
    };
    let full = join_path(env_root, path);
    match content {
        Ok(text) => {
            let passed = regex_is_match(&re, text.as_str());
            let mut m = String::from_str("File '");
            m.append(full.as_str());
            m.append("' matches pattern '");
            m.append(pattern);
            m.append("': ");
            m.append(if passed {
                "true"
            } else {
                "false"
            });
            GateResult { gate_type: String::from_str("FileMatches"), passed, message: m }
        },
        Err(e) => {
            let mut m = String::from_str("Failed to read file '");
            m.append(full.as_str());
            m.append("': ");
            m.append(e.as_str());
            GateResult {
                gate_type: String::from_str("FileMatches"),
                passed: false,
                message: m,
            }
        },
    }
}

/// The debug rendering of an optional exit code.
pub open spec fn opt_code_text(c: Option<int>) -> Seq<char> {
    match c {
        Some(v) => "Some("@ + dec_str_signed(v) + ")"@,
        None => "None"@,
    }
}

/// The verdict of a `CommandJsonPath` gate: the command must run and exit
/// successfully, its stdout must parse as JSON, the path must be
/// well-formed, and the assertion must be recognized; then the assertion's
/// own verdict decides.
pub open spec fn spec_eval_command_json_path(
    command: Seq<char>,
    path: Seq<char>,
    assertion: Seq<char>,
    outcome: CommandOutcomeSpec,
) -> GateResultSpec {
    match outcome {
        CommandOutcomeSpec::SpawnFailed(e) => gr(
            "CommandJsonPath"@,
            false,
            spawn_failed_text(command, e),
        ),
        CommandOutcomeSpec::Ran(o) => {
            if !o.success {
                gr(
                    "CommandJsonPath"@,
                    false,
                    "Command '"@ + command + "' failed with exit code "@ + opt_code_text(
                        o.exit_code,
                    ) + ": "@ + trim_seq(o.stderr),
                )
            } else {
                match parsed_json(o.stdout) {
                    Err(e) => gr(
                        "CommandJsonPath"@,
                        false,
                        "Command output is not valid JSON: "@ + e,
                    ),
                    Ok(doc) => match spec_parse_path(path) {
                        Err(pe) => gr(
                            "CommandJsonPath"@,
                            false,
                            "Invalid JSON path '"@ + path + "': "@ + path_error_text(pe),
                        ),
                        Ok(segs) => match spec_parse_assertion(assertion) {
                            Err(ae) => gr(
                                "CommandJsonPath"@,
                                false,
                                "Invalid assertion '"@ + assertion + "': "@
                                    + assertion_error_text(ae),
                            ),
                            Ok(a) => {
                                let verdict = spec_apply_assertion(
                                    spec_resolve(doc, segs),
                                    a,
                                );
                                gr(
                                    "CommandJsonPath"@,
                                    verdict.0,
                                    "Path '"@ + path + "' with assertion '"@ + assertion
                                        + "' => "@ + bool_text(verdict.0) + " ("@ + verdict.1
                                        + ")"@,
                                )
                            },
                        },
                    },
                }
            }
        },
    }
}

/// Evaluates a `CommandJsonPath` gate against its observed outcome.
pub fn eval_command_json_path(
    command: &str,
    path: &str,
    assertion: &str,
    outcome: &CommandOutcome,
) -> (r: GateResult)
    ensures
        r@ == spec_eval_command_json_path(command@, path@, assertion@, outcome@),
{
    match outcome {
        CommandOutcome::SpawnFailed(e) => {
            let mut m = String::from_str("Failed to execute command '");
            m.append(command);
            m.append("': ");
            m.append(e.as_str());
            GateResult {
                gate_type: String::from_str("CommandJsonPath"),
                passed: false,
                message: m,
            }
        },
        CommandOutcome::Ran(o) => {
            if !o.success {
                let mut m = String::from_str("Command '");
                m.append(command);
                m.append("' failed with exit code ");
                match o.exit_code {
                    Some(c) => {
                        m.append("Some(");
                        let code_text = dec_string_signed(c as i64);
                        m.append(code_text.as_str());
                        m.append(")");
                    },
                    None => {
                        m.append("None");
                    },
                }
                m.append(": ");
                let stderr_chars = to_chars(o.stderr.as_str());
                let trimmed = trim_chars(&stderr_chars);
                let trimmed_text = crate::text::chars_to_string(&trimmed);
                m.append(trimmed_text.as_str());
                proof {
                    assert(m@ =~= "Command '"@ + command@ + "' failed with exit code "@
                        + opt_code_text(o@.exit_code) + ": "@ + trim_seq(o.stderr@));
                }
                return GateResult {
                    gate_type: String::from_str("CommandJsonPath"),
                    passed: false,
                    message: m,
                };
            }
            let doc = match parse_json(o.stdout.as_str()) {
                Ok(doc) => doc,
                Err(e) => {
                    let mut m = String::from_str("Command output is not valid JSON: ");
                    m.append(e.as_str());
                    return GateResult {
                        gate_type: String::from_str("CommandJsonPath"),
                        passed: false,
                        message: m,
                    };
                },
            };
            let resolved = match resolve_json_path(&doc, path) {
                Ok(resolved) => resolved,
                Err(e) => {
                    let mut m = String::from_str("Invalid JSON path '");
                    m.append(path);
                    m.append("': ");
                    m.append(e.as_str());
                    return GateResult {
                        gate_type: String::from_str("CommandJsonPath"),
                        passed: false,
                        message: m,
                    };
                },
            };
            match evaluate_json_assertion(resolved, assertion) {
                Ok((passed, detail)) => {
                    let mut m = String::from_str("Path '");
                    m.append(path);
                    m.append("' with assertion '");
                    m.append(assertion);
                    m.append("' => ");
                    m.append(if passed {
                        "true"
                    } else {
                        "false"
                    });
                    m.append(" (");
                    m.append(detail.as_str());
                    m.append(")");
                    GateResult {
                        gate_type: String::from_str("CommandJsonPath"),
                        passed,
                        message: m,
                    }
                },
                Err(e) => {
                    let mut m = String::from_str("Invalid assertion '");
                    m.append(assertion);
                    m.append("': ");
                    m.append(e.as_str());
                    GateResult {
                        gate_type: String::from_str("CommandJsonPath"),
                        passed: false,
                        message: m,
                    }
                },
            }
        },
    }
}

/// The authoritative payload a script gate may print: its trimmed stdout
/// parsed as a JSON object with a boolean `passed` and an optional string
/// `message` (absent or `null` meaning none). Any other shape defers to
/// the exit code.
pub open spec fn script_payload(stdout: Seq<char>) -> Option<(bool, Option<Seq<char>>)> {
    match parsed_json(trim_seq(stdout)) {
        Ok(doc) => match doc {
            JsonSpec::Object(entries) => match crate::json::lookup_entries(entries, "passed"@) {
                Some(JsonSpec::Bool(b)) => match crate::json::lookup_entries(
                    entries,
                    "message"@,
                ) {
                    Some(JsonSpec::Str(msg)) => Some((b, Some(msg))),
                    Some(JsonSpec::Null) => Some((b, None)),
                    Some(_) => None,
                    None => Some((b, None)),
                },
                _ => None,
            },
            _ => None,
        },
        Err(_) => None,
    }
}

/// The verdict of a `Script` gate: no runner or a failed spawn fails; a
/// timeout fails; a JSON payload on stdout is authoritative; otherwise the
/// exit code decides.
pub open spec fn spec_eval_script(
    command: Seq<char>,
    description: Seq<char>,
    outcome: ScriptOutcomeSpec,
) -> GateResultSpec {
    match outcome {
        ScriptOutcomeSpec::NoRunner => gr(
            "Script"@,
            false,
            "Script runner not available for script gate evaluation"@,
        ),
        ScriptOutcomeSpec::SpawnFailed(e) => gr(
            "Script"@,
            false,
            "Failed to execute script '"@ + command + "': "@ + e,
        ),
        ScriptOutcomeSpec::Completed(res) => {
            if res.timed_out {
                gr(
                    "Script"@,
                    false,
                    "Script '"@ + command + "' timed out after 30 seconds"@,
                )
            } else {
                match script_payload(res.stdout) {
                    Some((passed, msg)) => gr(
                        "Script"@,
                        passed,
                        match msg {
                            Some(t) => t,
                            None => description,
                        },
                    ),
                    None => {
                        let passed = res.exit_code == 0;
                        gr(
                            "Script"@,
                            passed,
                            "Script '"@ + command + "' "@ + (if passed {
                                "passed"@
                            } else {
                                "failed"@
                            }) + " (exit code: "@ + dec_str_signed(res.exit_code)
                                + ", description: "@ + description + ")"@,
                        )
                    },
                }
            }
        },
    }
}

/// Evaluates a `Script` gate against its observed outcome.
pub fn eval_script(command: &str, description: &str, outcome: &ScriptOutcome) -> (r: GateResult)
    ensures
        r@ == spec_eval_script(command@, description@, outcome@),
{
    match outcome {
        ScriptOutcome::NoRunner => GateResult {
            gate_type: String::from_str("Script"),
            passed: false,
            message: String::from_str("Script runner not available for script gate evaluation"),
        },
        ScriptOutcome::SpawnFailed(e) => {
            let mut m = String::from_str("Failed to execute script '");
            m.append(command);
            m.append("': ");
            m.append(e.as_str());
            GateResult { gate_type: String::from_str("Script"), passed: false, message: m }
        },
        ScriptOutcome::Completed(res) => {
            if res.timed_out {
                let mut m = String::from_str("Script '");
                m.append(command);
                m.append("' timed out after 30 seconds");
                return GateResult {
                    gate_type: String::from_str("Script"),
                    passed: false,
                    message: m,
                };
            }
            let stdout_chars = to_chars(res.stdout.as_str());
            let trimmed_chars = trim_chars(&stdout_chars);
            let trimmed = crate::text::chars_to_string(&trimmed_chars);
            let payload: Option<(bool, Option<String>)> = match parse_json(trimmed.as_str()) {
                Ok(doc) => {
                    let passed_key = String::from_str("passed");
                    match doc.get_key(&passed_key) {
                        Some(pv) => match pv.as_bool() {
                            Some(b) => {
                                let message_key = String::from_str("message");
                                match doc.get_key(&message_key) {
                                    Some(mv) => match mv.as_str() {
                                        Some(s) => Some((b, Some(s.clone()))),
                                        None => {
                                            if mv.is_null() {
                                                Some((b, None))
                                            } else {
                                                None
                                            }
                                        },
                                    },
                                    None => Some((b, None)),
                                }
                            },
                            None => None,
                        },
                        None => None,
                    }
                },
                Err(_) => None,
            };
            proof {
                assert(trimmed@ == trim_seq(res.stdout@));
            }
            match payload {
                Some((passed, msg)) => {
                    let message = match msg {
                        Some(t) => t,
                        None => description.to_owned(),
                    };
                    GateResult { gate_type: String::from_str("Script"), passed, message }
                },
                None => {
                    let passed = res.exit_code == 0;
                    let mut m = String::from_str("Script '");
                    m.append(command);
                    m.append("' ");
                    m.append(if passed {
                        "passed"
                    } else {
                        "failed"
                    });
                    m.append(" (exit code: ");
                    let code_text = dec_string_signed(res.exit_code as i64);
                    m.append(code_text.as_str());
                    m.append(", description: ");
                    m.append(description);
                    m.append(")");
                    GateResult { gate_type: String::from_str("Script"), passed, message: m }
                },
            }
        },
    }
}

/// The verdict of a `NoTranscriptErrors` gate: the transcript could be
/// read and records no erroring invocation of the target binary.
pub open spec fn spec_eval_no_transcript_errors(
    target_binary: Seq<char>,
    command_pattern: Option<Seq<char>>,
    transcript: Result<Seq<char>, Seq<char>>,
) -> GateResultSpec {
    match transcript {
        Ok(content) => {
            let errs = count_errors(
                spec_extract(content, spec_resolved_pattern(target_binary, command_pattern)),
            );
            let passed = errs == 0;
            gr(
                "NoTranscriptErrors"@,
                passed,
                "Transcript has no command errors: "@ + bool_text(passed),
            )
        },
        Err(e) => gr(
            "NoTranscriptErrors"@,
            false,
            "Evaluation error: Failed to read transcript file (missing or unreadable): "@ + e,
        ),
    }
}

/// Evaluates a `NoTranscriptErrors` gate against the observed read of the
/// transcript file.
pub fn eval_no_transcript_errors(
    target_binary: &str,
    command_pattern: Option<&str>,
    transcript: &Result<String, String>,
) -> (r: GateResult)
    ensures
        r@ == spec_eval_no_transcript_errors(
            target_binary@,
            match command_pattern {
                Some(p) => Some(p@),
                None => None,
            },
            content_view(transcript),
        ),
{
    match transcript {
        Ok(content) => {
            let metrics = TranscriptAnalyzer::analyze_with_exit_codes_for_target(
                content.as_str(),
                target_binary,
                command_pattern,
            );
            let passed = metrics.error_count == 0;
            let mut m = String::from_str("Transcript has no command errors: ");
            m.append(if passed {
                "true"
            } else {
                "false"
            });
            GateResult {
                gate_type: String::from_str("NoTranscriptErrors"),
                passed,
                message: m,
            }
        },
        Err(e) => {
            let mut m = String::from_str(
                "Evaluation error: Failed to read transcript file (missing or unreadable): ",
            );
            m.append(e.as_str());
            GateResult {
                gate_type: String::from_str("NoTranscriptErrors"),
                passed: false,
                message: m,
            }
        },
    }
}

/// What was observed outside for one gate: exactly the kind of evidence
/// its gate needs.
#[derive(Debug)]
pub enum Observation {
    /// The outcome of running the configured command, absent when it is
    /// never run (a blank command, a pattern that does not compile).
    Command(Option<CommandOutcome>),
    /// Whether the configured path exists under the environment root.
    FileExists(bool),
    /// The configured file read as text, or the read error.
    FileContent(Result<String, String>),
    /// The transcript file read as text, or the read error.
    Transcript(Result<String, String>),
    /// The outcome of running the configured script.
    Script(ScriptOutcome),
}

/// Everything a gate's evaluation sees: the environment root and target
/// identification, and the observation collected for this gate.
#[derive(Debug)]
pub struct EvaluationContext {
    /// The environment root, for messages about file paths.
    pub env_root: String,
    /// The binary whose invocations the transcript analyzer counts.
    pub target_binary: String,
    /// An optional override for the transcript invocation pattern.
    pub command_pattern: Option<String>,
    /// What was observed for the check at hand.
    pub observation: Observation,
}

/// The command pattern override as an optional sequence.
pub open spec fn pattern_view(cp: Option<String>) -> Option<Seq<char>> {
    match cp {
        Some(p) => Some(p@),
        None => None,
    }
}

/// Evaluates gates against contexts.
pub trait GateEvaluator {
    /// The observation in `ctx` fits this gate.
    spec fn obs_ok(&self, ctx: &EvaluationContext) -> bool;

    /// The verdict this gate reaches in `ctx`.
    spec fn spec_result(&self, ctx: &EvaluationContext) -> GateResultSpec;

    /// Reaches a verdict; nothing escapes, every verdict carries a message.
    fn evaluate(&self, ctx: &EvaluationContext) -> (r: GateResult)
        requires
            self.obs_ok(ctx),
        ensures
            r@ == self.spec_result(ctx),
    ;
}

impl GateEvaluator for Gate {
    open spec fn obs_ok(&self, ctx: &EvaluationContext) -> bool {
        match self {
            Gate::CommandSucceeds { command } => ctx.observation matches Observation::Command(o)
                && (all_space(command@) || o is Some),
            Gate::CommandOutputContains { .. } => ctx.observation matches Observation::Command(
                Some(_),
            ),
            Gate::CommandOutputMatches { .. } => ctx.observation matches Observation::Command(_),
            Gate::CommandJsonPath { .. } => ctx.observation matches Observation::Command(
                Some(_),
            ),
            Gate::FileExists { .. } => ctx.observation matches Observation::FileExists(_),
            Gate::FileContains { .. } => ctx.observation matches Observation::FileContent(_),
            Gate::FileMatches { .. } => ctx.observation matches Observation::FileContent(_),
            Gate::NoTranscriptErrors => ctx.observation matches Observation::Transcript(_),
            Gate::Script { .. } => ctx.observation matches Observation::Script(_),
        }
    }

    open spec fn spec_result(&self, ctx: &EvaluationContext) -> GateResultSpec {
        match self {
            Gate::CommandSucceeds { command } => (match ctx.observation {
                Observation::Command(o) => spec_eval_command_succeeds(
                    command@,
                    match o {
                        Some(oc) => Some(oc@),
                        None => None,
                    },
                ),
                _ => gr(Seq::empty(), false, Seq::empty()),
            }),
            Gate::CommandOutputContains { command, substring } => (match ctx.observation {
                Observation::Command(Some(oc)) => spec_eval_command_output_contains(
                    command@,
                    substring@,
                    oc@,
                ),
                _ => gr(Seq::empty(), false, Seq::empty()),
            }),
            Gate::CommandOutputMatches { command, pattern } => (match ctx.observation {
                Observation::Command(o) => spec_eval_command_output_matches(
                    command@,
                    pattern@,
                    match o {
                        Some(oc) => Some(oc@),
                        None => None,
                    },
                ),
                _ => gr(Seq::empty(), false, Seq::empty()),
            }),
            Gate::CommandJsonPath { command, path, assertion } => (match ctx.observation {
                Observation::Command(Some(oc)) => spec_eval_command_json_path(
                    command@,
                    path@,
                    assertion@,
                    oc@,
                ),
                _ => gr(Seq::empty(), false, Seq::empty()),
            }),
            Gate::FileExists { path } => (match ctx.observation {
                Observation::FileExists(ex) => spec_eval_file_exists(
                    path@,
                    ctx.env_root@,
                    ex,
                ),
                _ => gr(Seq::empty(), false, Seq::empty()),
            }),
            Gate::FileContains { path, substring } => (match ctx.observation {
                Observation::FileContent(content) => spec_eval_file_contains(
                    path@,
                    substring@,
                    ctx.env_root@,
                    content_view(&content),
                ),
                _ => gr(Seq::empty(), false, Seq::empty()),
            }),
            Gate::FileMatches { path, pattern } => (match ctx.observation {
                Observation::FileContent(content) => spec_eval_file_matches(
                    path@,
                    pattern@,
                    ctx.env_root@,
                    content_view(&content),
                ),
                _ => gr(Seq::empty(), false, Seq::empty()),
            }),
            Gate::NoTranscriptErrors => (match ctx.observation {
                Observation::Transcript(content) => spec_eval_no_transcript_errors(
                    ctx.target_binary@,
                    pattern_view(ctx.command_pattern),
                    content_view(&content),
                ),
                _ => gr(Seq::empty(), false, Seq::empty()),
            }),
            Gate::Script { command, description } => (match ctx.observation {
                Observation::Script(outcome) => spec_eval_script(
                    command@,
                    description@,
                    outcome@,
                ),
                _ => gr(Seq::empty(), false, Seq::empty()),
            }),
        }
    }

    fn evaluate(&self, ctx: &EvaluationContext) -> (r: GateResult) {
        match self {
            Gate::CommandSucceeds { command } => {
                match &ctx.observation {
                    Observation::Command(o) => eval_command_succeeds(
                        command.as_str(),
                        o.as_ref(),
                    ),
                    _ => vstd::pervasive::unreached(),
                }
            },
            Gate::CommandOutputContains { command, substring } => {
                match &ctx.observation {
                    Observation::Command(Some(oc)) => eval_command_output_contains(
                        command.as_str(),
                        substring.as_str(),
                        oc,
                    ),
                    _ => vstd::pervasive::unreached(),
                }
            },
            Gate::CommandOutputMatches { command, pattern } => {
                match &ctx.observation {
                    Observation::Command(o) => eval_command_output_matches(
                        command.as_str(),
                        pattern.as_str(),
                        o.as_ref(),
                    ),
                    _ => vstd::pervasive::unreached(),
                }
            },
            Gate::CommandJsonPath { command, path, assertion } => {
                match &ctx.observation {
                    Observation::Command(Some(oc)) => eval_command_json_path(
                        command.as_str(),
                        path.as_str(),
                        assertion.as_str(),
                        oc,
                    ),
                    _ => vstd::pervasive::unreached(),
                }
            },
            Gate::FileExists { path } => {
                match &ctx.observation {
                    Observation::FileExists(ex) => eval_file_exists(
                        path.as_str(),
                        ctx.env_root.as_str(),
                        *ex,
                    ),
                    _ => vstd::pervasive::unreached(),
                }
            },
            Gate::FileContains { path, substring } => {
                match &ctx.observation {
                    Observation::FileContent(content) => eval_file_contains(
                        path.as_str(),
                        substring.as_str(),
                        ctx.env_root.as_str(),
                        content,
                    ),
                    _ => vstd::pervasive::unreached(),
                }
            },
            Gate::FileMatches { path, pattern } => {
                match &ctx.observation {
                    Observation::FileContent(content) => eval_file_matches(
                        path.as_str(),
                        pattern.as_str(),
                        ctx.env_root.as_str(),
                        content,
                    ),
                    _ => vstd::pervasive::unreached(),
                }
            },
            Gate::NoTranscriptErrors => {
                match &ctx.observation {
                    Observation::Transcript(content) => {
                        let cp: Option<&str> = match &ctx.command_pattern {
                            Some(p) => Some(p.as_str()),
                            None => None,
                        };
                        eval_no_transcript_errors(ctx.target_binary.as_str(), cp, content)
                    },
                    _ => vstd::pervasive::unreached(),
                }
            },
            Gate::Script { command, description } => {
                match &ctx.observation {
                    Observation::Script(outcome) => eval_script(
                        command.as_str(),
                        description.as_str(),
                        outcome,
                    ),
                    _ => vstd::pervasive::unreached(),
                }
            },
        }
    }
}

/// The views of a list of gate results.
pub open spec fn results_view(rs: Seq<GateResult>) -> Seq<GateResultSpec> {
    rs.map_values(|g: GateResult| g@)
}

/// How many of the results passed.
pub open spec fn count_passed(rs: Seq<GateResultSpec>) -> int
    decreases rs.len(),
{
    if rs.len() == 0 {
        0
    } else {
        count_passed(rs.drop_last()) + if rs.last().passed {
            1int
        } else {
            0int
        }
    }
}

/// Evaluates a list of gates, one observation context per gate, in
/// declaration order: every gate yields a verdict, and the count of
/// passing gates comes with the verdicts.
pub fn evaluate_gates(gates: &Vec<Gate>, contexts: &Vec<EvaluationContext>) -> (r: (
    Vec<GateResult>,
    usize,
))
    requires
        gates@.len() == contexts@.len(),
        forall|i: int|
            0 <= i < gates@.len() ==> (#[trigger] gates@[i]).obs_ok(&contexts@[i]),
    ensures
        r.0@.len() == gates@.len(),
        forall|i: int|
            0 <= i < gates@.len() ==> (#[trigger] r.0@[i])@ == gates@[i].spec_result(
                &contexts@[i],
            ),
        r.1 == count_passed(results_view(r.0@)),
{
    let mut details: Vec<GateResult> = Vec::new();
    let mut passed: usize = 0;
    let mut i: usize = 0;
    proof {
        assert(results_view(details@) =~= Seq::<GateResultSpec>::empty());
    }
    while i < gates.len()
        invariant
            i <= gates@.len(),
            gates@.len() == contexts@.len(),
            forall|k: int|
                0 <= k < gates@.len() ==> (#[trigger] gates@[k]).obs_ok(&contexts@[k]),
            details@.len() == i,
            forall|k: int|
                0 <= k < i ==> (#[trigger] details@[k])@ == gates@[k].spec_result(
                    &contexts@[k],
                ),
            passed == count_passed(results_view(details@)),
            passed <= i,
        decreases gates@.len() - i,
    {
        let ghost pre = results_view(details@);
        let result = gates[i].evaluate(&contexts[i]);
        if result.passed {
            passed += 1;
        }
        details.push(result);
        i += 1;
        proof {
            assert(results_view(details@) =~= pre.push(details@.last()@));
            assert(results_view(details@).drop_last() =~= pre);
        }
    }
    (details, passed)
}

} // verus!
