//! Scenario configuration: the task, the tool under test, and the
//! evaluation gates. These types are plain data; loading them from
//! configuration files is a caller's concern. Scores and weights are
//! carried as parts per million, the crate's fixed-point convention.

use vstd::prelude::*;

verus! {

/// A complete evaluation case: a task for a tool, and the gates that
/// decide whether the tool completed it.
#[derive(Debug, Clone)]
pub struct Scenario {
    /// Human-readable name for this scenario.
    pub name: String,
    /// Detailed description of what this scenario tests.
    pub description: String,
    /// Name of the template folder holding the initial fixture state.
    pub template_folder: String,
    /// Configuration for the tool being evaluated.
    pub target: TargetConfig,
    /// The task definition with its prompt.
    pub task: Task,
    /// Evaluation configuration with gates.
    pub evaluation: Evaluation,
    /// Test tier level.
    pub tier: usize,
    /// Optional tool/model matrix configuration.
    pub tool_matrix: Option<Vec<ToolConfig>>,
    /// Optional setup commands to run before the task.
    pub setup: Option<Setup>,
    /// Tags for categorizing scenarios.
    pub tags: Vec<String>,
    /// Optional runtime configuration.
    pub run: Option<RunConfig>,
    /// Optional scripts configuration for hooks and evaluators.
    pub scripts: Option<ScriptsConfig>,
}

/// Target tool configuration for a scenario.
#[derive(Debug, Clone)]
pub struct TargetConfig {
    /// Binary name of the tool under test.
    pub binary: String,
    /// Optional pattern overriding how transcript command lines are
    /// recognized.
    pub command_pattern: Option<String>,
    /// Optional command used to check tool availability.
    pub health_check: Option<String>,
    /// Optional environment variables to set when running the target.
    pub env: Option<Vec<(String, String)>>,
}

/// Runtime configuration for scenario execution.
#[derive(Debug, Clone)]
pub struct RunConfig {
    /// Optional timeout in seconds.
    pub timeout_secs: Option<u64>,
    /// Optional maximum number of turns.
    pub max_turns: Option<usize>,
}

/// Setup commands that prepare the test environment.
#[derive(Debug, Clone)]
pub struct Setup {
    /// Shell commands to execute before running the task.
    pub commands: Vec<String>,
}

/// A tool with the models it supports.
#[derive(Debug, Clone)]
pub struct ToolConfig {
    /// Tool name.
    pub tool: String,
    /// Supported model names.
    pub models: Vec<String>,
}

/// The task definition: the prompt sent to the tool.
#[derive(Debug, Clone)]
pub struct Task {
    /// The prompt text.
    pub prompt: String,
}

/// Evaluation configuration: the gates that must pass, and the optional
/// judge and weighting configuration.
#[derive(Debug, Clone)]
pub struct Evaluation {
    /// The checks to run, in this order.
    pub gates: Vec<Gate>,
    /// Optional judge configuration.
    pub judge: Option<JudgeConfig>,
    /// Optional composite scoring weights.
    pub composite: Option<CompositeConfig>,
}

/// Configuration for judge-based evaluation.
#[derive(Debug, Clone)]
pub struct JudgeConfig {
    /// Whether judge evaluation is enabled.
    pub enabled: bool,
    /// Path to the rubric file.
    pub rubric: String,
    /// Minimum passing score, in parts per million of 1.0.
    pub pass_threshold: u64,
}

/// Composite scoring weights, each in parts per million of 1.0.
#[derive(Debug, Clone)]
pub struct CompositeConfig {
    /// Weight of the judge score.
    pub judge_weight: u64,
    /// Weight of the share of passing checks.
    pub gate_weight: u64,
    /// Weight of the interaction efficiency.
    pub interaction_weight: u64,
}

/// The default scenario tier.
pub fn default_tier() -> (r: usize)
    ensures
        r == 0,
{
    0
}

/// The default judge weight, in parts per million.
pub fn default_judge_weight() -> (r: u64)
    ensures
        r == 550000,
{
    550000
}

/// The default gate weight, in parts per million.
pub fn default_gate_weight() -> (r: u64)
    ensures
        r == 350000,
{
    350000
}

/// The default interaction weight, in parts per million.
pub fn default_interaction_weight() -> (r: u64)
    ensures
        r == 100000,
{
    100000
}

/// The fixed timeout for script gates and post-execution scripts, in
/// seconds.
pub fn default_script_timeout() -> (r: u64)
    ensures
        r == 30,
{
    30
}

/// The default timeout for custom evaluator scripts, in seconds.
pub fn default_evaluator_timeout() -> (r: u64)
    ensures
        r == 60,
{
    60
}

/// One declarative pass/fail assertion about the state after the tool ran.
#[derive(Debug, Clone)]
pub enum Gate {
    /// A shell command exits successfully.
    CommandSucceeds {
        /// Shell command to execute.
        command: String,
    },
    /// A shell command's stdout contains a substring.
    CommandOutputContains {
        /// Shell command to execute.
        command: String,
        /// Substring that must be present in stdout.
        substring: String,
    },
    /// A shell command's stdout matches a regular expression.
    CommandOutputMatches {
        /// Shell command to execute.
        command: String,
        /// Pattern that must match somewhere in stdout.
        pattern: String,
    },
    /// A shell command prints JSON satisfying a path assertion.
    CommandJsonPath {
        /// Shell command to execute.
        command: String,
        /// JSON path to resolve in the output.
        path: String,
        /// Assertion applied to the resolved value.
        assertion: String,
    },
    /// A file exists under the environment root.
    FileExists {
        /// Relative path to the file.
        path: String,
    },
    /// A file's contents contain a substring.
    FileContains {
        /// Relative path to the file.
        path: String,
        /// Substring to search for.
        substring: String,
    },
    /// A file's contents match a regular expression.
    FileMatches {
        /// Relative path to the file.
        path: String,
        /// Pattern that must match the contents.
        pattern: String,
    },
    /// The transcript records no erroring invocations.
    NoTranscriptErrors,
    /// A script decides the verdict itself.
    Script {
        /// Shell command to execute.
        command: String,
        /// Human-readable gate description.
        description: String,
    },
}

/// Scripts configuration for scenario execution hooks.
#[derive(Debug, Clone)]
pub struct ScriptsConfig {
    /// Post-execution scripts, run after the tool completes.
    pub post: Vec<ScriptEntry>,
    /// Custom evaluator scripts.
    pub evaluators: Vec<EvaluatorEntry>,
}

/// A post-execution script.
#[derive(Debug, Clone)]
pub struct ScriptEntry {
    /// Shell command to execute.
    pub command: String,
    /// Timeout in seconds.
    pub timeout_secs: u64,
}

/// A custom evaluator script.
#[derive(Debug, Clone)]
pub struct EvaluatorEntry {
    /// Shell command to execute.
    pub command: String,
    /// Name of the evaluator for reporting.
    pub name: String,
    /// Timeout in seconds.
    pub timeout_secs: u64,
}

} // verus!
