//! The transcript analyzer: recognizing tool invocations in a raw
//! interaction log and deriving efficiency metrics from them.
//!
//! Rates are carried as exact counts; the fixed-point accessors render
//! them in parts per million.

use vstd::prelude::*;

use crate::regex_ops::{
    regex_captures_pair, regex_captures_two, regex_compile_error, regex_escape, regex_escaped,
    regex_new, regex_pattern,
};
use crate::text::{
    all_digits, all_space, chars_all_digits, chars_to_string, contains_chars, contains_seq,
    contains_seq_ci, digits_val, first_non_space, is_space, matches_at_ci, parse_uint_chars,
    to_chars,
};

verus! {

/// One recognized tool invocation in a transcript.
#[derive(Debug, Clone)]
pub struct CommandEvent {
    /// The inferred subcommand token.
    pub command: String,
    /// The inferred exit code, when one could be inferred.
    pub exit_code: Option<i32>,
}

/// The mathematical shape of a command event.
pub struct CommandEventSpec {
    pub command: Seq<char>,
    pub exit_code: Option<int>,
}

impl View for CommandEvent {
    type V = CommandEventSpec;

    open spec fn view(&self) -> CommandEventSpec {
        CommandEventSpec {
            command: self.command@,
            exit_code: match self.exit_code {
                Some(c) => Some(c as int),
                None => None,
            },
        }
    }
}

impl DeepView for CommandEvent {
    type V = CommandEventSpec;

    open spec fn deep_view(&self) -> CommandEventSpec {
        self.view()
    }
}

/// The event counts as an error: a known, nonzero exit code.
pub open spec fn ev_is_error(e: CommandEventSpec) -> bool {
    e.exit_code matches Some(c) && c != 0
}

/// How many events report an error.
pub open spec fn count_errors(evs: Seq<CommandEventSpec>) -> int
    decreases evs.len(),
{
    if evs.len() == 0 {
        0
    } else {
        count_errors(evs.drop_last()) + if ev_is_error(evs.last()) {
            1int
        } else {
            0int
        }
    }
}

/// How many events are help invocations.
pub open spec fn count_help(evs: Seq<CommandEventSpec>) -> int
    decreases evs.len(),
{
    if evs.len() == 0 {
        0
    } else {
        count_help(evs.drop_last()) + if evs.last().command == "help"@ {
            1int
        } else {
            0int
        }
    }
}

/// How many distinct command tokens occur: an event counts when no earlier
/// event carries the same token.
pub open spec fn distinct_count(evs: Seq<CommandEventSpec>) -> int
    decreases evs.len(),
{
    if evs.len() == 0 {
        0
    } else {
        distinct_count(evs.drop_last()) + if seen_before(evs, evs.len() - 1) {
            0int
        } else {
            1int
        }
    }
}

/// Some earlier event carries the same command token as the one at `i`.
pub open spec fn seen_before(evs: Seq<CommandEventSpec>, i: int) -> bool {
    exists|k: int| 0 <= k < i && (#[trigger] evs[k]).command == evs[i].command
}

/// The index of the first event carrying the same command as the one at
/// `i`.
pub open spec fn first_occurrence(evs: Seq<CommandEventSpec>, i: int) -> int {
    if seen_before(evs, i) {
        choose|k: int|
            0 <= k < i && (#[trigger] evs[k]).command == evs[i].command && !seen_before(evs, k)
    } else {
        i
    }
}

/// The event at `i` counts as a first-try success: neither the first
/// occurrence of its command nor anything before that occurrence errored.
pub open spec fn first_try_ok(evs: Seq<CommandEventSpec>, i: int) -> bool {
    forall|k: int| 0 <= k <= first_occurrence(evs, i) ==> !ev_is_error(#[trigger] evs[k])
}

/// How many of the first `n` events count as first-try successes.
pub open spec fn first_try_count(evs: Seq<CommandEventSpec>, n: int) -> int
    decreases n,
{
    if n <= 0 {
        0
    } else {
        first_try_count(evs, n - 1) + if first_try_ok(evs, n - 1) {
            1int
        } else {
            0int
        }
    }
}

/// A rate in parts per million, zero when the denominator is zero.
pub open spec fn rate_ppm(num: int, den: int) -> int {
    if den == 0 {
        0
    } else {
        num * 1000000 / den
    }
}

/// Efficiency metrics derived from a transcript's command events. The two
/// rates of interest are exact quotients of these counts:
/// `first_try_successes / total_commands` and
/// `total_commands / unique_commands`.
#[derive(Debug, Clone, PartialEq)]
pub struct EfficiencyMetrics {
    /// How many invocations were recognized.
    pub total_commands: usize,
    /// How many distinct command tokens occurred.
    pub unique_commands: usize,
    /// How many invocations reported an error.
    pub error_count: usize,
    /// Invocations beyond the first of their token: `total - unique`.
    pub retry_count: usize,
    /// How many invocations were help calls.
    pub help_invocations: usize,
    /// Numerator of the first-try success rate.
    pub first_try_successes: usize,
}

impl EfficiencyMetrics {
    /// The counts are mutually consistent.
    pub open spec fn wf(&self) -> bool {
        &&& self.unique_commands <= self.total_commands
        &&& self.error_count <= self.total_commands
        &&& self.help_invocations <= self.total_commands
        &&& self.first_try_successes <= self.total_commands
        &&& self.retry_count == self.total_commands - self.unique_commands
    }

    /// Metrics with every count zero: the sane default when no transcript
    /// could be analyzed.
    pub fn zero() -> (r: EfficiencyMetrics)
        ensures
            r.total_commands == 0,
            r.unique_commands == 0,
            r.error_count == 0,
            r.retry_count == 0,
            r.help_invocations == 0,
            r.first_try_successes == 0,
            r.wf(),
    {
        EfficiencyMetrics {
            total_commands: 0,
            unique_commands: 0,
            error_count: 0,
            retry_count: 0,
            help_invocations: 0,
            first_try_successes: 0,
        }
    }

    /// The share of commands that succeeded on first try, in parts per
    /// million; zero when there were no commands.
    pub fn first_try_success_rate_ppm(&self) -> (r: u64)
        requires
            self.wf(),
        ensures
            r == rate_ppm(self.first_try_successes as int, self.total_commands as int),
            r <= 1000000,
    {
        if self.total_commands == 0 {
            0
        } else {
            let num = self.first_try_successes as u128;
            let den = self.total_commands as u128;
            let q = num * 1000000 / den;
            proof {
                let ni = num as int;
                let di = den as int;
                assert(ni * 1000000 <= di * 1000000) by (nonlinear_arith)
                    requires
                        ni <= di,
                ;
                assert(di * 1000000 / di == 1000000) by (nonlinear_arith)
                    requires
                        di > 0,
                ;
                assert(ni * 1000000 / di <= di * 1000000 / di) by (nonlinear_arith)
                    requires
                        ni * 1000000 <= di * 1000000 && di > 0,
                ;
            }
            q as u64
        }
    }

    /// The ratio of total to unique commands, in parts per million; zero
    /// when there were no unique commands.
    pub fn iteration_ratio_ppm(&self) -> (r: u64)
        requires
            self.wf(),
            self.total_commands as int * 1000000 <= u64::MAX as int,
        ensures
            r == rate_ppm(self.total_commands as int, self.unique_commands as int),
    {
        if self.unique_commands == 0 {
            0
        } else {
            let num = self.total_commands as u128;
            let den = self.unique_commands as u128;
            let q = num * 1000000 / den;
            proof {
                let ni = num as int;
                let di = den as int;
                assert(ni * 1000000 / di <= ni * 1000000) by (nonlinear_arith)
                    requires
                        di >= 1 && ni >= 0,
                ;
            }
            q as u64
        }
    }
}

proof fn lemma_distinct_le_len(evs: Seq<CommandEventSpec>)
    ensures
        0 <= distinct_count(evs) <= evs.len(),
    decreases evs.len(),
{
    if evs.len() > 0 {
        lemma_distinct_le_len(evs.drop_last());
    }
}

proof fn lemma_count_errors_le_len(evs: Seq<CommandEventSpec>)
    ensures
        0 <= count_errors(evs) <= evs.len(),
    decreases evs.len(),
{
    if evs.len() > 0 {
        lemma_count_errors_le_len(evs.drop_last());
    }
}

proof fn lemma_count_help_le_len(evs: Seq<CommandEventSpec>)
    ensures
        0 <= count_help(evs) <= evs.len(),
    decreases evs.len(),
{
    if evs.len() > 0 {
        lemma_count_help_le_len(evs.drop_last());
    }
}

proof fn lemma_first_try_le(evs: Seq<CommandEventSpec>, n: int)
    requires
        n >= 0,
    ensures
        0 <= first_try_count(evs, n) <= n,
    decreases n,
{
    if n > 0 {
        lemma_first_try_le(evs, n - 1);
    }
}

/// Length of the run at the head of `s` up to the first line feed, or the
/// whole length if there is none.
pub open spec fn newline_run_len(s: Seq<char>) -> int
    decreases s.len(),
{
    if s.len() == 0 {
        0
    } else if s[0] == '\n' {
        0
    } else {
        1 + newline_run_len(s.drop_first())
    }
}

proof fn lemma_newline_run(s: Seq<char>)
    ensures
        0 <= newline_run_len(s) <= s.len(),
        forall|j: int| 0 <= j < newline_run_len(s) ==> #[trigger] s[j] != '\n',
        newline_run_len(s) < s.len() ==> s[newline_run_len(s)] == '\n',
    decreases s.len(),
{
    if s.len() > 0 && s[0] != '\n' {
        let t = s.drop_first();
        lemma_newline_run(t);
        assert forall|j: int| 0 <= j < newline_run_len(s) implies #[trigger] s[j] != '\n' by {
            if j > 0 {
                assert(t[j - 1] == s[j]);
            }
        }
    }
}

/// The lines of a text, as `str::lines` splits them: at each line feed,
/// with a carriage return directly before it stripped, and the final line
/// ending optional.
pub open spec fn split_lines(s: Seq<char>) -> Seq<Seq<char>>
    decreases s.len(),
    via split_lines_decreases
{
    if s.len() == 0 {
        Seq::empty()
    } else {
        let k = newline_run_len(s);
        if k == s.len() {
            seq![s]
        } else {
            let line = if k > 0 && s[k - 1] == '\r' {
                s.take(k - 1)
            } else {
                s.take(k)
            };
            seq![line] + split_lines(s.skip(k + 1))
        }
    }
}

#[via_fn]
proof fn split_lines_decreases(s: Seq<char>) {
    lemma_newline_run(s);
}

/// Lines joined back together with line feeds, no trailing one.
pub open spec fn join_lines(ls: Seq<Seq<char>>) -> Seq<char>
    decreases ls.len(),
{
    if ls.len() == 0 {
        Seq::empty()
    } else if ls.len() == 1 {
        ls[0]
    } else {
        join_lines(ls.drop_last()) + seq!['\n'] + ls.last()
    }
}

/// The two sequences are equal up to ASCII case.
pub open spec fn eq_ci(a: Seq<char>, b: Seq<char>) -> bool {
    a.len() == b.len() && matches_at_ci(a, b, 0)
}

/// The recognized binary name is log prose rather than an invocation:
/// `exit`, `error` or `failed`, compared case-insensitively.
pub open spec fn is_skipped_binary(g1: Option<Seq<char>>) -> bool {
    g1 matches Some(b) && (eq_ci(b, "exit"@) || eq_ci(b, "error"@) || eq_ci(b, "failed"@))
}

/// Length of the run of non-whitespace characters at the head of `s`.
pub open spec fn token_run_len(s: Seq<char>) -> int
    decreases s.len(),
{
    if s.len() == 0 {
        0
    } else if is_space(s[0]) {
        0
    } else {
        1 + token_run_len(s.drop_first())
    }
}

proof fn lemma_token_run(s: Seq<char>)
    ensures
        0 <= token_run_len(s) <= s.len(),
        forall|j: int| 0 <= j < token_run_len(s) ==> !is_space(#[trigger] s[j]),
        token_run_len(s) < s.len() ==> is_space(s[token_run_len(s)]),
    decreases s.len(),
{
    if s.len() > 0 && !is_space(s[0]) {
        let t = s.drop_first();
        lemma_token_run(t);
        assert forall|j: int| 0 <= j < token_run_len(s) implies !is_space(#[trigger] s[j]) by {
            if j > 0 {
                assert(t[j - 1] == s[j]);
            }
        }
    }
}

/// The second whitespace-delimited token of a line, or the word `command`
/// when the line has none.
pub open spec fn second_token(line: Seq<char>) -> Seq<char> {
    let r1 = line.skip(first_non_space(line));
    let r2 = r1.skip(token_run_len(r1));
    let r3 = r2.skip(first_non_space(r2));
    let t2 = token_run_len(r3);
    if t2 == 0 {
        "command"@
    } else {
        r3.take(t2)
    }
}

/// The subcommand token taken from a line's captures: group two, then
/// group one, then the line's second token.
pub open spec fn spec_subcommand(
    g: (Option<Seq<char>>, Option<Seq<char>>),
    line: Seq<char>,
) -> Seq<char> {
    match g.1 {
        Some(sc) => sc,
        None => match g.0 {
            Some(b) => b,
            None => second_token(line),
        },
    }
}

/// The pattern recognizing explicit exit-code reports in log lines.
pub open spec fn exit_code_pattern() -> Seq<char> {
    "(?i)exit\\s+(?:code|status):?\\s*(\\d+)"@
}

/// The exit code denoted by a captured digit run, as `str::parse::<i32>`
/// reads it, with `-1` for anything unparsable.
pub open spec fn spec_exit_value(d: Seq<char>) -> int {
    if d.len() > 0 && all_digits(d) && digits_val(d) <= i32::MAX {
        digits_val(d)
    } else {
        -1
    }
}

/// The line smells of failure: one of the error markers occurs in it,
/// compared ASCII-case-insensitively.
pub open spec fn is_error_text(j: Seq<char>) -> bool {
    contains_seq_ci(j, "error"@) || contains_seq_ci(j, "failed"@) || contains_seq_ci(
        j,
        "exit code"@,
    ) || contains_seq_ci(j, "non-zero"@)
}

/// Up to twenty lines after line `i`, joined with line feeds: the window
/// in which an invocation's outcome is looked for.
pub open spec fn lookahead_window(ls: Seq<Seq<char>>, i: int) -> Seq<char> {
    let hi = if i + 21 <= ls.len() {
        i + 21
    } else {
        ls.len() as int
    };
    join_lines(ls.subrange(i + 1, hi))
}

/// The exit code inferred for the invocation on line `i`: an explicit
/// report in the lookahead window wins; otherwise error markers mean 1 and
/// silence means 0.
pub open spec fn spec_inferred_exit(ls: Seq<Seq<char>>, i: int) -> int {
    let joined = lookahead_window(ls, i);
    match regex_captures_pair(exit_code_pattern(), joined) {
        Some(g) => match g.0 {
            Some(d) => spec_exit_value(d),
            None => -1,
        },
        None => if is_error_text(joined) {
            1
        } else {
            0
        },
    }
}

/// The event (at most one) contributed by line `i`: nothing when the
/// pattern does not match or the binary is log prose; a `help` event for
/// help invocations; otherwise the subcommand with its inferred exit code.
pub open spec fn spec_line_events(ls: Seq<Seq<char>>, pattern: Seq<char>, i: int) -> Seq<
    CommandEventSpec,
> {
    match regex_captures_pair(pattern, ls[i]) {
        None => Seq::empty(),
        Some(g) => {
            if is_skipped_binary(g.0) {
                Seq::empty()
            } else {
                let sub = spec_subcommand(g, ls[i]);
                if sub == "--help"@ || contains_seq(ls[i], "--help"@) {
                    seq![CommandEventSpec { command: "help"@, exit_code: Some(0) }]
                } else {
                    seq![
                        CommandEventSpec {
                            command: sub,
                            exit_code: Some(spec_inferred_exit(ls, i)),
                        },
                    ]
                }
            }
        },
    }
}

/// The events contributed by the first `n` lines, in order.
pub open spec fn spec_events_upto(ls: Seq<Seq<char>>, pattern: Seq<char>, n: int) -> Seq<
    CommandEventSpec,
>
    decreases n,
{
    if n <= 0 {
        Seq::empty()
    } else {
        spec_events_upto(ls, pattern, n - 1) + spec_line_events(ls, pattern, n - 1)
    }
}

/// The events extracted from a transcript with a command pattern: nothing
/// when the pattern does not compile, else the per-line events in order.
pub open spec fn spec_extract(text: Seq<char>, pattern: Seq<char>) -> Seq<CommandEventSpec> {
    if regex_compile_error(pattern) is Some {
        Seq::empty()
    } else {
        let ls = split_lines(text);
        spec_events_upto(ls, pattern, ls.len() as int)
    }
}

/// The pattern used to recognize invocation lines: a caller-supplied,
/// non-blank override verbatim, else one synthesized around the escaped
/// binary name.
pub open spec fn spec_resolved_pattern(binary: Seq<char>, cp: Option<Seq<char>>) -> Seq<char> {
    match cp {
        Some(p) => if !all_space(p) {
            p
        } else {
            "^\\s*("@ + regex_escaped(binary) + ")\\s+(--help|\\S+)\\b"@
        },
        None => "^\\s*("@ + regex_escaped(binary) + ")\\s+(--help|\\S+)\\b"@,
    }
}

/// The pattern recognizing invocations of typical lower-case binaries,
/// used when no target binary is named.
pub open spec fn default_command_pattern() -> Seq<char> {
    "^\\s*([a-z][a-z0-9_.-]*)\\s+(--help|[a-z][a-z0-9_-]*)\\b"@
}

/// The index of the first event carrying the same command as the one at
/// `i`, computed by scanning from the front.
fn first_occurrence_at(events: &Vec<CommandEvent>, i: usize) -> (f: usize)
    requires
        i < events@.len(),
    ensures
        f <= i,
        f == first_occurrence(events.deep_view(), i as int),
{
    let ghost evs = events.deep_view();
    let mut k: usize = 0;
    while k < i
        invariant
            k <= i < evs.len(),
            evs == events.deep_view(),
            evs.len() == events@.len(),
            forall|j: int| 0 <= j < evs.len() ==> #[trigger] evs[j] == events@[j].deep_view(),
            forall|j: int| 0 <= j < k ==> (#[trigger] evs[j]).command != evs[i as int].command,
        decreases i - k,
    {
        if crate::json::string_eq(&events[k].command, &events[i].command) {
            proof {
                assert(evs[k as int] == events@[k as int].deep_view());
                assert(evs[i as int] == events@[i as int].deep_view());
                assert((evs[k as int]).command == evs[i as int].command);
                assert(seen_before(evs, i as int));
                let c = first_occurrence(evs, i as int);
                assert(0 <= c < i && evs[c].command == evs[i as int].command && !seen_before(
                    evs,
                    c,
                ));
                if c < k {
                    assert(evs[c].command != evs[i as int].command);
                }
                if c > k {
                    assert(seen_before(evs, c));
                }
            }
            return k;
        }
        k += 1;
    }
    proof {
        if seen_before(evs, i as int) {
            let w = choose|j: int|
                0 <= j < i && (#[trigger] evs[j]).command == evs[i as int].command;
            assert(evs[w].command != evs[i as int].command);
        }
    }
    i
}

/// Whether the event at `i` counts as a first-try success.
fn first_try_ok_at(events: &Vec<CommandEvent>, i: usize) -> (r: bool)
    requires
        i < events@.len(),
    ensures
        r == first_try_ok(events.deep_view(), i as int),
{
    let ghost evs = events.deep_view();
    let f = first_occurrence_at(events, i);
    let mut k: usize = 0;
    loop
        invariant
            k <= f,
            f <= i < evs.len(),
            evs == events.deep_view(),
            evs.len() == events@.len(),
            f == first_occurrence(evs, i as int),
            forall|j: int| 0 <= j < evs.len() ==> #[trigger] evs[j] == events@[j].deep_view(),
            forall|j: int| 0 <= j < k ==> !ev_is_error(#[trigger] evs[j]),
        decreases f - k,
    {
        let is_err = match events[k].exit_code {
            Some(c) => c != 0,
            None => false,
        };
        if is_err {
            proof {
                assert(ev_is_error(evs[k as int]));
            }
            return false;
        }
        if k == f {
            return true;
        }
        k += 1;
    }
}

proof fn lemma_min_witness(evs: Seq<CommandEventSpec>, c: int)
    requires
        0 <= c < evs.len(),
    ensures
        exists|k: int|
            0 <= k <= c && (#[trigger] evs[k]).command == evs[c].command && !seen_before(evs, k),
    decreases c,
{
    if seen_before(evs, c) {
        let k = choose|k: int| 0 <= k < c && (#[trigger] evs[k]).command == evs[c].command;
        lemma_min_witness(evs, k);
        let w = choose|w: int|
            0 <= w <= k && (#[trigger] evs[w]).command == evs[k].command && !seen_before(evs, w);
        assert(evs[w].command == evs[c].command);
    } else {
        assert(evs[c].command == evs[c].command);
    }
}

proof fn lemma_first_occ_self(evs: Seq<CommandEventSpec>, i: int)
    requires
        0 <= i < evs.len(),
    ensures
        (first_occurrence(evs, i) == i) == !seen_before(evs, i),
{
    if seen_before(evs, i) {
        let k0 = choose|k: int| 0 <= k < i && (#[trigger] evs[k]).command == evs[i].command;
        lemma_min_witness(evs, k0);
        let w = choose|w: int|
            0 <= w <= k0 && (#[trigger] evs[w]).command == evs[k0].command && !seen_before(
                evs,
                w,
            );
        assert(evs[w].command == evs[i].command);
        let c = first_occurrence(evs, i);
        assert(0 <= c < i && evs[c].command == evs[i].command && !seen_before(evs, c));
    }
}

proof fn lemma_distinct_step(evs: Seq<CommandEventSpec>, i: int)
    requires
        0 <= i < evs.len(),
    ensures
        distinct_count(evs.take(i + 1)) == distinct_count(evs.take(i)) + if seen_before(
            evs,
            i,
        ) {
            0int
        } else {
            1int
        },
{
    let t = evs.take(i + 1);
    assert(t.drop_last() =~= evs.take(i));
    assert(t.last() == evs[i]);
    if seen_before(evs, i) {
        let k = choose|k: int| 0 <= k < i && (#[trigger] evs[k]).command == evs[i].command;
        assert(t[k] == evs[k]);
        assert(t[i] == evs[i]);
        assert(seen_before(t, i));
    }
    if seen_before(t, i) {
        let k = choose|k: int| 0 <= k < i && (#[trigger] t[k]).command == t[i].command;
        assert(evs[k].command == evs[i].command);
        assert(seen_before(evs, i));
    }
}

/// How many events report an error, scanned front to back.
fn count_errors_exec(events: &Vec<CommandEvent>) -> (r: usize)
    ensures
        r == count_errors(events.deep_view()),
        r <= events@.len(),
{
    let ghost evs = events.deep_view();
    proof {
        lemma_count_errors_le_len(evs);
    }
    let mut r: usize = 0;
    let mut i: usize = 0;
    while i < events.len()
        invariant
            i <= events@.len(),
            evs == events.deep_view(),
            evs.len() == events@.len(),
            forall|j: int| 0 <= j < evs.len() ==> #[trigger] evs[j] == events@[j].deep_view(),
            r == count_errors(evs.take(i as int)),
            r <= i,
        decreases events@.len() - i,
    {
        proof {
            assert(evs.take(i + 1).drop_last() =~= evs.take(i as int));
            assert(evs.take(i + 1).last() == evs[i as int]);
        }
        let is_err = match events[i].exit_code {
            Some(c) => c != 0,
            None => false,
        };
        if is_err {
            r += 1;
        }
        i += 1;
    }
    proof {
        assert(evs.take(i as int) =~= evs);
    }
    r
}

/// How many events are help invocations, scanned front to back.
fn count_help_exec(events: &Vec<CommandEvent>) -> (r: usize)
    ensures
        r == count_help(events.deep_view()),
        r <= events@.len(),
{
    let ghost evs = events.deep_view();
    let help_literal = String::from_str("help");
    let mut r: usize = 0;
    let mut i: usize = 0;
    while i < events.len()
        invariant
            i <= events@.len(),
            evs == events.deep_view(),
            evs.len() == events@.len(),
            help_literal@ == "help"@,
            forall|j: int| 0 <= j < evs.len() ==> #[trigger] evs[j] == events@[j].deep_view(),
            r == count_help(evs.take(i as int)),
            r <= i,
        decreases events@.len() - i,
    {
        proof {
            assert(evs.take(i + 1).drop_last() =~= evs.take(i as int));
            assert(evs.take(i + 1).last() == evs[i as int]);
        }
        if crate::json::string_eq(&events[i].command, &help_literal) {
            r += 1;
        }
        i += 1;
    }
    proof {
        assert(evs.take(i as int) =~= evs);
    }
    r
}

/// How many distinct command tokens occur, scanned front to back.
fn distinct_count_exec(events: &Vec<CommandEvent>) -> (r: usize)
    ensures
        r == distinct_count(events.deep_view()),
        r <= events@.len(),
{
    let ghost evs = events.deep_view();
    let mut r: usize = 0;
    let mut i: usize = 0;
    while i < events.len()
        invariant
            i <= events@.len(),
            evs == events.deep_view(),
            evs.len() == events@.len(),
            forall|j: int| 0 <= j < evs.len() ==> #[trigger] evs[j] == events@[j].deep_view(),
            r == distinct_count(evs.take(i as int)),
            r <= i,
        decreases events@.len() - i,
    {
        proof {
            lemma_distinct_step(evs, i as int);
            lemma_first_occ_self(evs, i as int);
        }
        let f = first_occurrence_at(events, i);
        if f == i {
            r += 1;
        }
        i += 1;
    }
    proof {
        assert(evs.take(i as int) =~= evs);
    }
    r
}

/// How many events count as first-try successes, scanned front to back.
#[verifier::rlimit(50)]
fn first_try_count_exec(events: &Vec<CommandEvent>) -> (r: usize)
    ensures
        r == first_try_count(events.deep_view(), events@.len() as int),
        r <= events@.len(),
{
    let ghost evs = events.deep_view();
    let mut r: usize = 0;
    let mut i: usize = 0;
    while i < events.len()
        invariant
            i <= events@.len(),
            evs == events.deep_view(),
            evs.len() == events@.len(),
            r == first_try_count(evs, i as int),
            r <= i,
        decreases events@.len() - i,
    {
        if first_try_ok_at(events, i) {
            r += 1;
        }
        i += 1;
    }
    r
}

/// Relies on `regex::Regex::new`: the exit-code pattern is a fixed, valid
/// expression, so compilation cannot fail, and the compiled regex carries
/// its pattern.
#[verifier::external_body]
fn exit_code_regex() -> (r: regex::Regex)
    ensures
        regex_pattern(r) == exit_code_pattern(),
{
    regex::Regex::new("(?i)exit\\s+(?:code|status):?\\s*(\\d+)").unwrap()
}

/// The lines of a text, as `str::lines` splits them.
fn split_lines_exec(text: &str) -> (r: Vec<String>)
    ensures
        r.deep_view() == split_lines(text@),
{
    let chars = to_chars(text);
    let n = chars.len();
    let mut lines: Vec<String> = Vec::new();
    let mut pos: usize = 0;
    proof {
        assert(chars@.skip(0) =~= chars@);
        assert(lines.deep_view() =~= Seq::<Seq<char>>::empty());
    }
    while pos < n
        invariant
            pos <= n,
            n == chars@.len(),
            chars@ == text@,
            split_lines(text@) == lines.deep_view() + split_lines(chars@.skip(pos as int)),
        decreases n - pos,
    {
        let ghost rem = chars@.skip(pos as int);
        let mut j: usize = pos;
        while j < n && chars[j] != '\n'
            invariant
                pos <= j <= n,
                n == chars@.len(),
                forall|k: int| pos <= k < j ==> #[trigger] chars@[k] != '\n',
            decreases n - j,
        {
            j += 1;
        }
        proof {
            lemma_newline_run(rem);
            assert(forall|k: int| 0 <= k < rem.len() ==> #[trigger] rem[k] == chars@[k + pos]);
            if newline_run_len(rem) < j - pos {
                assert(chars@[newline_run_len(rem) + pos] != '\n');
                assert(false);
            }
            if newline_run_len(rem) > j - pos {
                assert(j < n);
                assert(rem[j - pos] != '\n');
                assert(false);
            }
        }
        let ghost pre = lines.deep_view();
        if j == n {
            let line_chars = crate::text::copy_range(&chars, pos, n);
            proof {
                assert(line_chars@ =~= rem);
            }
            lines.push(chars_to_string(&line_chars));
            proof {
                assert(lines.deep_view() =~= pre.push(rem));
                assert(pre.push(rem) =~= pre + seq![rem]);
                assert(chars@.skip(n as int) =~= Seq::<char>::empty());
            }
            pos = n;
        } else {
            let endpoint: usize = if j > pos && chars[j - 1] == '\r' {
                j - 1
            } else {
                j
            };
            let line_chars = crate::text::copy_range(&chars, pos, endpoint);
            let ghost k = j - pos;
            proof {
                if k > 0 && rem[k - 1] == '\r' {
                    assert(line_chars@ =~= rem.take(k - 1));
                } else {
                    assert(line_chars@ =~= rem.take(k));
                }
                assert(rem.skip(k + 1) =~= chars@.skip(j + 1));
            }
            lines.push(chars_to_string(&line_chars));
            proof {
                let line = if k > 0 && rem[k - 1] == '\r' {
                    rem.take(k - 1)
                } else {
                    rem.take(k)
                };
                assert(lines.deep_view() =~= pre.push(line));
                assert(pre + (seq![line] + split_lines(chars@.skip(j + 1))) =~= pre.push(line)
                    + split_lines(chars@.skip(j + 1)));
            }
            pos = j + 1;
        }
    }
    proof {
        assert(chars@.skip(pos as int) =~= Seq::<char>::empty());
        assert(lines.deep_view() + Seq::<Seq<char>>::empty() =~= lines.deep_view());
    }
    lines
}

/// The index of the first whitespace character at or after `from` (the
/// length if there is none).
fn skip_token(s: &Vec<char>, from: usize) -> (r: usize)
    requires
        from <= s@.len(),
    ensures
        from <= r <= s@.len(),
        r - from == token_run_len(s@.skip(from as int)),
{
    proof {
        lemma_token_run(s@.skip(from as int));
    }
    let n = s.len();
    let mut i: usize = from;
    while i < n && !crate::text::is_space_char(s[i])
        invariant
            from <= i <= n,
            n == s@.len(),
            forall|k: int| from <= k < i ==> !is_space(#[trigger] s@[k]),
        decreases n - i,
    {
        i += 1;
    }
    proof {
        let t = s@.skip(from as int);
        let trl = token_run_len(t);
        assert(forall|k: int| 0 <= k < t.len() ==> #[trigger] t[k] == s@[k + from]);
        if trl < i - from {
            assert(is_space(t[trl]));
            assert(!is_space(t[trl]));
        }
        if trl > i - from {
            assert(i < n);
            assert(is_space(t[i - from]));
            assert(!is_space(t[i - from]));
        }
    }
    i
}

/// The second whitespace-delimited token of a line, or `command`.
fn second_token_exec(line_chars: &Vec<char>) -> (r: String)
    ensures
        r@ == second_token(line_chars@),
{
    let a = crate::text::skip_spaces(line_chars, 0);
    let b = skip_token(line_chars, a);
    let c = crate::text::skip_spaces(line_chars, b);
    let d = skip_token(line_chars, c);
    proof {
        let s = line_chars@;
        assert(s.skip(0) =~= s);
        let r1 = s.skip(first_non_space(s));
        assert(r1 =~= s.skip(a as int));
        let r2 = r1.skip(token_run_len(r1));
        assert(r1.skip(b - a) =~= s.skip(b as int));
        assert(r2 =~= s.skip(b as int));
        let r3 = r2.skip(first_non_space(r2));
        assert(r2.skip(c - b) =~= s.skip(c as int));
        assert(r3 =~= s.skip(c as int));
        assert(token_run_len(r3) == d - c);
    }
    if d == c {
        String::from_str("command")
    } else {
        let token = crate::text::copy_range(line_chars, c, d);
        proof {
            assert(token@ =~= line_chars@.skip(c as int).take(d - c));
        }
        chars_to_string(&token)
    }
}

/// Up to twenty lines after line `i`, joined with line feeds.
fn join_window(lines: &Vec<String>, i: usize) -> (r: String)
    requires
        i < lines@.len(),
    ensures
        r@ == lookahead_window(lines.deep_view(), i as int),
{
    let ghost ls = lines.deep_view();
    let n = lines.len();
    let hi: usize = if n - i - 1 > 20 {
        i + 21
    } else {
        n
    };
    let mut out: Vec<char> = Vec::new();
    let mut k: usize = i + 1;
    proof {
        assert(forall|j: int| 0 <= j < ls.len() ==> #[trigger] ls[j] == lines@[j]@);
        assert(ls.subrange(i + 1, i + 1) =~= Seq::<Seq<char>>::empty());
    }
    while k < hi
        invariant
            i + 1 <= k <= hi <= n,
            n == lines@.len(),
            ls == lines.deep_view(),
            ls.len() == n,
            forall|j: int| 0 <= j < ls.len() ==> #[trigger] ls[j] == lines@[j]@,
            hi == if i + 21 <= n {
                (i + 21) as int
            } else {
                n as int
            },
            out@ == join_lines(ls.subrange(i + 1, k as int)),
        decreases hi - k,
    {
        proof {
            let sub = ls.subrange(i + 1, k + 1);
            assert(sub.drop_last() =~= ls.subrange(i + 1, k as int));
            assert(sub.last() == ls[k as int]);
        }
        if k > i + 1 {
            out.push('\n');
        }
        crate::text::append_str(&mut out, lines[k].as_str());
        proof {
            if k == i + 1 {
                assert(out@ =~= join_lines(ls.subrange(i + 1, k + 1)));
            } else {
                assert(out@ =~= join_lines(ls.subrange(i + 1, k + 1)));
            }
        }
        k += 1;
    }
    chars_to_string(&out)
}

/// The exit code a captured digit run denotes, `-1` when it does not fit.
fn exit_value_exec(d: &String) -> (r: i32)
    ensures
        r as int == spec_exit_value(d@),
{
    let chars = to_chars(d.as_str());
    if chars.len() == 0 || !chars_all_digits(&chars) {
        return -1;
    }
    proof {
        assert(crate::text::is_digit(chars@[0]));
        assert(chars@[0] != '+');
        crate::text::lemma_digits_val_nonneg(chars@);
    }
    match parse_uint_chars(&chars) {
        Some(v) => {
            if v <= 2147483647 {
                v as i32
            } else {
                -1
            }
        },
        None => -1,
    }
}

/// The transcript analyzer: command extraction and efficiency metrics.
pub struct TranscriptAnalyzer;

/// The metrics `r` are exactly those derived from the event list `evs`.
pub open spec fn metrics_for(evs: Seq<CommandEventSpec>, r: EfficiencyMetrics) -> bool {
    &&& r.total_commands == evs.len()
    &&& r.error_count == count_errors(evs)
    &&& r.help_invocations == count_help(evs)
    &&& r.unique_commands == distinct_count(evs)
    &&& r.retry_count == r.total_commands - r.unique_commands
    &&& r.first_try_successes == first_try_count(evs, evs.len() as int)
    &&& r.wf()
}

impl TranscriptAnalyzer {
    /// Recognizes lines that smell of failure: an error marker occurs in
    /// them, compared ASCII-case-insensitively.
    pub fn is_error_line(line: &str) -> (r: bool)
        ensures
            r == is_error_text(line@),
    {
        let hay = to_chars(line);
        let n1 = to_chars("error");
        let n2 = to_chars("failed");
        let n3 = to_chars("exit code");
        let n4 = to_chars("non-zero");
        crate::text::contains_chars_ci(&hay, &n1) || crate::text::contains_chars_ci(&hay, &n2)
            || crate::text::contains_chars_ci(&hay, &n3) || crate::text::contains_chars_ci(
            &hay,
            &n4,
        )
    }

    /// The pattern used to recognize invocation lines: a non-blank
    /// caller-supplied override verbatim, else one synthesized around the
    /// escaped binary name.
    pub fn resolve_command_pattern(target_binary: &str, command_pattern: Option<&str>) -> (r:
        String)
        ensures
            r@ == spec_resolved_pattern(
                target_binary@,
                match command_pattern {
                    Some(p) => Some(p@),
                    None => None,
                },
            ),
    {
        match command_pattern {
            Some(p) => {
                let pc = to_chars(p);
                if !crate::text::chars_all_space(&pc) {
                    return p.to_owned();
                }
            },
            None => (),
        }
        let mut s = String::from_str("^\\s*(");
        let escaped = regex_escape(target_binary);
        s.append(escaped.as_str());
        s.append(")\\s+(--help|\\S+)\\b");
        s
    }

    /// Extracts the command events a transcript records, using the given
    /// pattern to recognize invocation lines: group one is the binary,
    /// group two the subcommand. A pattern that does not compile yields no
    /// events.
    pub fn extract_commands_with_pattern(transcript: &str, command_pattern: &str) -> (r: Vec<
        CommandEvent,
    >)
        ensures
            r.deep_view() == spec_extract(transcript@, command_pattern@),
    {
        let re = match regex_new(command_pattern) {
            Ok(re) => re,
            Err(_) => {
                let r: Vec<CommandEvent> = Vec::new();
                proof {
                    assert(r.deep_view() =~= spec_extract(transcript@, command_pattern@));
                }
                return r;
            },
        };
        let exit_re = exit_code_regex();
        let lines = split_lines_exec(transcript);
        let ghost ls = lines.deep_view();
        let help_flag = String::from_str("--help");
        let exit_word = to_chars("exit");
        let error_word = to_chars("error");
        let failed_word = to_chars("failed");
        let mut events: Vec<CommandEvent> = Vec::new();
        let mut i: usize = 0;
        proof {
            assert(events.deep_view() =~= spec_events_upto(ls, command_pattern@, 0));
        }
        while i < lines.len()
            invariant
                i <= lines@.len(),
                ls == lines.deep_view(),
                ls.len() == lines@.len(),
                forall|j: int| 0 <= j < ls.len() ==> #[trigger] ls[j] == lines@[j]@,
                regex_pattern(re) == command_pattern@,
                regex_compile_error(command_pattern@) is None,
                regex_pattern(exit_re) == exit_code_pattern(),
                help_flag@ == "--help"@,
                exit_word@ == "exit"@,
                error_word@ == "error"@,
                failed_word@ == "failed"@,
                events.deep_view() == spec_events_upto(ls, command_pattern@, i as int),
            decreases lines@.len() - i,
        {
            let ghost pre = events.deep_view();
            let caps = regex_captures_two(&re, lines[i].as_str());
            match caps {
                None => (),
                Some((g1, g2)) => {
                    let skipped: bool = match &g1 {
                        Some(b) => {
                            let bc = to_chars(b.as_str());
                            crate::text::eq_ignore_case(&bc, &exit_word)
                                || crate::text::eq_ignore_case(&bc, &error_word)
                                || crate::text::eq_ignore_case(&bc, &failed_word)
                        },
                        None => false,
                    };
                    if !skipped {
                        let line_chars = to_chars(lines[i].as_str());
                        let sub: String = match g2 {
                            Some(sc) => sc,
                            None => match g1 {
                                Some(b) => b,
                                None => second_token_exec(&line_chars),
                            },
                        };
                        let help_needle = to_chars("--help");
                        let is_help = crate::json::string_eq(&sub, &help_flag)
                            || crate::text::contains_chars(&line_chars, &help_needle);
                        if is_help {
                            events.push(
                                CommandEvent {
                                    command: String::from_str("help"),
                                    exit_code: Some(0),
                                },
                            );
                        } else {
                            let joined = join_window(&lines, i);
                            let code: i32 = match regex_captures_two(
                                &exit_re,
                                joined.as_str(),
                            ) {
                                Some((d1, _)) => match d1 {
                                    Some(d) => exit_value_exec(&d),
                                    None => -1,
                                },
                                None => {
                                    if Self::is_error_line(joined.as_str()) {
                                        1
                                    } else {
                                        0
                                    }
                                },
                            };
                            events.push(CommandEvent { command: sub, exit_code: Some(code) });
                        }
                    }
                },
            }
            i += 1;
            proof {
                assert(events.deep_view() =~= pre + spec_line_events(
                    ls,
                    command_pattern@,
                    i - 1,
                ));
            }
        }
        proof {
            assert(ls.len() == lines@.len());
        }
        events
    }

    /// Extracts command events using the default invocation pattern.
    pub fn extract_commands_with_exit_codes(transcript: &str) -> (r: Vec<CommandEvent>)
        ensures
            r.deep_view() == spec_extract(transcript@, default_command_pattern()),
    {
        Self::extract_commands_with_pattern(
            transcript,
            "^\\s*([a-z][a-z0-9_.-]*)\\s+(--help|[a-z][a-z0-9_-]*)\\b",
        )
    }

    /// Analyzes a transcript with the default invocation pattern.
    pub fn analyze(transcript: &str) -> (r: EfficiencyMetrics)
        ensures
            metrics_for(spec_extract(transcript@, default_command_pattern()), r),
    {
        Self::analyze_with_pattern(
            transcript,
            "^\\s*([a-z][a-z0-9_.-]*)\\s+(--help|[a-z][a-z0-9_-]*)\\b",
        )
    }

    /// Analyzes a transcript, recognizing invocations of the named target
    /// binary (or with the caller's pattern override).
    pub fn analyze_for_target(
        transcript: &str,
        target_binary: &str,
        command_pattern: Option<&str>,
    ) -> (r: EfficiencyMetrics)
        ensures
            metrics_for(
                spec_extract(
                    transcript@,
                    spec_resolved_pattern(
                        target_binary@,
                        match command_pattern {
                            Some(p) => Some(p@),
                            None => None,
                        },
                    ),
                ),
                r,
            ),
    {
        let pattern = Self::resolve_command_pattern(target_binary, command_pattern);
        Self::analyze_with_pattern(transcript, pattern.as_str())
    }

    /// Analyzes a transcript with the default invocation pattern,
    /// inferring exit codes from the lookahead window.
    pub fn analyze_with_exit_codes(transcript: &str) -> (r: EfficiencyMetrics)
        ensures
            metrics_for(spec_extract(transcript@, default_command_pattern()), r),
    {
        let commands = Self::extract_commands_with_exit_codes(transcript);
        Self::analyze_with_events(transcript, Some(commands))
    }

    /// Analyzes a transcript scoped to the named target binary, inferring
    /// exit codes from the lookahead window.
    pub fn analyze_with_exit_codes_for_target(
        transcript: &str,
        target_binary: &str,
        command_pattern: Option<&str>,
    ) -> (r: EfficiencyMetrics)
        ensures
            metrics_for(
                spec_extract(
                    transcript@,
                    spec_resolved_pattern(
                        target_binary@,
                        match command_pattern {
                            Some(p) => Some(p@),
                            None => None,
                        },
                    ),
                ),
                r,
            ),
    {
        let pattern = Self::resolve_command_pattern(target_binary, command_pattern);
        let commands = Self::extract_commands_with_pattern(transcript, pattern.as_str());
        Self::analyze_with_events(transcript, Some(commands))
    }

    /// Analyzes a transcript with an explicit invocation pattern.
    pub fn analyze_with_pattern(transcript: &str, command_pattern: &str) -> (r:
        EfficiencyMetrics)
        ensures
            metrics_for(spec_extract(transcript@, command_pattern@), r),
    {
        let commands = Self::extract_commands_with_pattern(transcript, command_pattern);
        Self::analyze_with_events(transcript, Some(commands))
    }

    /// Derives efficiency metrics from a list of command events; the raw
    /// transcript itself plays no further part. `None` and an empty list
    /// alike yield all-zero metrics.
    pub fn analyze_with_events(_transcript: &str, events: Option<Vec<CommandEvent>>) -> (r:
        EfficiencyMetrics)
        ensures
            ({
                let evs = match events {
                    Some(v) => v.deep_view(),
                    None => Seq::<CommandEventSpec>::empty(),
                };
                &&& r.total_commands == evs.len()
                &&& r.error_count == count_errors(evs)
                &&& r.help_invocations == count_help(evs)
                &&& r.unique_commands == distinct_count(evs)
                &&& r.retry_count == r.total_commands - r.unique_commands
                &&& r.first_try_successes == first_try_count(evs, evs.len() as int)
                &&& r.wf()
            }),
    {
        let event_vec = match events {
            Some(v) => v,
            None => {
                return EfficiencyMetrics::zero();
            },
        };
        let ghost evs = event_vec.deep_view();
        let n = event_vec.len();
        proof {
            lemma_distinct_le_len(evs);
            lemma_count_errors_le_len(evs);
            lemma_count_help_le_len(evs);
            lemma_first_try_le(evs, evs.len() as int);
        }
        let error_count = count_errors_exec(&event_vec);
        let help_count = count_help_exec(&event_vec);
        let unique_count = distinct_count_exec(&event_vec);
        let first_try = first_try_count_exec(&event_vec);
        EfficiencyMetrics {
            total_commands: n,
            unique_commands: unique_count,
            error_count,
            retry_count: n - unique_count,
            help_invocations: help_count,
            first_try_successes: first_try,
        }
    }
}

} // verus!
