//! The bounded-subprocess primitive's data model: what one script
//! invocation reports, and the runner configuration whose environment every
//! invocation carries. Spawning and waiting are operating-system work and
//! live outside the library; the environment construction and the verdict
//! on a result are verified here.

use vstd::prelude::*;

verus! {

/// The outcome of one bounded script invocation.
#[derive(Debug, Clone, PartialEq)]
pub struct ScriptResult {
    /// Exit code of the script; `-1` stands in when the process timed out
    /// or the system reported no code.
    pub exit_code: i32,
    /// Captured standard output.
    pub stdout: String,
    /// Captured standard error.
    pub stderr: String,
    /// The script was cut off at its timeout.
    pub timed_out: bool,
}

/// The mathematical shape of a script result.
pub struct ScriptResultSpec {
    pub exit_code: int,
    pub stdout: Seq<char>,
    pub stderr: Seq<char>,
    pub timed_out: bool,
}

impl View for ScriptResult {
    type V = ScriptResultSpec;

    open spec fn view(&self) -> ScriptResultSpec {
        ScriptResultSpec {
            exit_code: self.exit_code as int,
            stdout: self.stdout@,
            stderr: self.stderr@,
            timed_out: self.timed_out,
        }
    }
}

impl ScriptResult {
    /// The script succeeded: exit code zero and no timeout.
    pub fn succeeded(&self) -> (r: bool)
        ensures
            r == (self.exit_code == 0 && !self.timed_out),
    {
        self.exit_code == 0 && !self.timed_out
    }
}

/// Configuration for running scripts in a fixture directory: the
/// directories, names and paths that become the script's environment,
/// and the caller's own variables, which win on collision.
#[derive(Debug, Clone)]
pub struct ScriptRunner {
    pub fixture_dir: String,
    pub results_dir: String,
    pub scenario_name: String,
    pub agent: String,
    pub model: String,
    pub transcript_path: Option<String>,
    pub events_path: Option<String>,
    pub target_env: Vec<(String, String)>,
}

/// The environment a runner hands to its scripts, as an ordered list of
/// pairs in which a later entry overrides an earlier one with the same
/// key: the framework-injected variables first, the caller's variables
/// after them.
pub open spec fn spec_env_pairs(r: ScriptRunner) -> Seq<(Seq<char>, Seq<char>)> {
    let base = seq![
        ("LLM_TOOL_TEST_FIXTURE_DIR"@, r.fixture_dir@),
        ("LLM_TOOL_TEST_RESULTS_DIR"@, r.results_dir@),
        ("LLM_TOOL_TEST_SCENARIO"@, r.scenario_name@),
        ("LLM_TOOL_TEST_AGENT"@, r.agent@),
        ("LLM_TOOL_TEST_MODEL"@, r.model@),
    ];
    let with_transcript = match r.transcript_path {
        Some(p) => base.push(("LLM_TOOL_TEST_TRANSCRIPT"@, p@)),
        None => base,
    };
    let with_events = match r.events_path {
        Some(p) => with_transcript.push(("LLM_TOOL_TEST_EVENTS"@, p@)),
        None => with_transcript,
    };
    with_events + r.target_env.deep_view()
}

impl ScriptRunner {
    /// A runner over the given directories, names, paths and caller
    /// environment.
    pub fn new(
        fixture_dir: String,
        results_dir: String,
        scenario_name: String,
        agent: String,
        model: String,
        transcript_path: Option<String>,
        events_path: Option<String>,
        target_env: Vec<(String, String)>,
    ) -> (r: ScriptRunner)
        ensures
            r.fixture_dir == fixture_dir,
            r.results_dir == results_dir,
            r.scenario_name == scenario_name,
            r.agent == agent,
            r.model == model,
            r.transcript_path == transcript_path,
            r.events_path == events_path,
            r.target_env == target_env,
    {
        ScriptRunner {
            fixture_dir,
            results_dir,
            scenario_name,
            agent,
            model,
            transcript_path,
            events_path,
            target_env,
        }
    }

    /// The environment for script execution, as ordered pairs: the
    /// framework variables, then the caller's variables, which override on
    /// key collision when applied in order.
    pub fn build_env(&self) -> (r: Vec<(String, String)>)
        ensures
            r.deep_view() == spec_env_pairs(*self),
    {
        let mut env: Vec<(String, String)> = Vec::new();
        env.push((String::from_str("LLM_TOOL_TEST_FIXTURE_DIR"), self.fixture_dir.clone()));
        env.push((String::from_str("LLM_TOOL_TEST_RESULTS_DIR"), self.results_dir.clone()));
        env.push((String::from_str("LLM_TOOL_TEST_SCENARIO"), self.scenario_name.clone()));
        env.push((String::from_str("LLM_TOOL_TEST_AGENT"), self.agent.clone()));
        env.push((String::from_str("LLM_TOOL_TEST_MODEL"), self.model.clone()));
        match &self.transcript_path {
            Some(p) => env.push((String::from_str("LLM_TOOL_TEST_TRANSCRIPT"), p.clone())),
            None => (),
        }
        match &self.events_path {
            Some(p) => env.push((String::from_str("LLM_TOOL_TEST_EVENTS"), p.clone())),
            None => (),
        }
        let mut i: usize = 0;
        let ghost prefix = env.deep_view();
        while i < self.target_env.len()
            invariant
                i <= self.target_env@.len(),
                env.deep_view() == prefix + self.target_env.deep_view().take(i as int),
            decreases self.target_env@.len() - i,
        {
            let ghost pre = env.deep_view();
            let pair = (self.target_env[i].0.clone(), self.target_env[i].1.clone());
            proof {
                assert(pair.deep_view() == self.target_env.deep_view()[i as int]);
            }
            env.push(pair);
            proof {
                assert(env.deep_view() =~= pre.push(self.target_env.deep_view()[i as int]));
                assert(pre.push(self.target_env.deep_view()[i as int]) =~= prefix
                    + self.target_env.deep_view().take(i + 1));
            }
            i += 1;
        }
        proof {
            assert(self.target_env.deep_view().take(i as int) =~= self.target_env.deep_view());
            assert(env.deep_view() =~= spec_env_pairs(*self));
        }
        env
    }
}

} // verus!
