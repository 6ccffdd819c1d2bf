//! Helpers tying the transcript analyzer to the evaluator: the
//! no-errors check behind the transcript gate, and efficiency metrics
//! with a sane all-zero fallback. Each takes the transcript file's read
//! result; reading the file itself is a caller's concern.

use vstd::prelude::*;

use crate::gates::content_view;
use crate::transcript::{
    count_errors, metrics_for, spec_extract, spec_resolved_pattern, EfficiencyMetrics,
    TranscriptAnalyzer,
};

verus! {

/// The transcript pattern override as an optional sequence.
pub open spec fn opt_pattern_view(cp: Option<&str>) -> Option<Seq<char>> {
    match cp {
        Some(p) => Some(p@),
        None => None,
    }
}

/// Whether the transcript records no erroring invocation of the target
/// binary; an unreadable transcript is an error, with its diagnostic.
pub fn no_transcript_errors(
    transcript: &Result<String, String>,
    target_binary: &str,
    command_pattern: Option<&str>,
) -> (r: Result<bool, String>)
    ensures
        match r {
            Ok(no_errors) => content_view(transcript) matches Ok(content) && no_errors == (
            count_errors(
                spec_extract(
                    content,
                    spec_resolved_pattern(target_binary@, opt_pattern_view(command_pattern)),
                ),
            ) == 0),
            Err(e) => content_view(transcript) matches Err(io) && e@
                == "Failed to read transcript file (missing or unreadable): "@ + io,
        },
{
    match transcript {
        Ok(content) => {
            let metrics = TranscriptAnalyzer::analyze_with_exit_codes_for_target(
                content.as_str(),
                target_binary,
                command_pattern,
            );
            Ok(metrics.error_count == 0)
        },
        Err(io) => {
            let mut m = String::from_str(
                "Failed to read transcript file (missing or unreadable): ",
            );
            m.append(io.as_str());
            Err(m)
        },
    }
}

/// The efficiency metrics of the transcript, scoped to the target binary;
/// an unreadable transcript is an error, with its diagnostic.
pub fn compute_efficiency_metrics(
    transcript: &Result<String, String>,
    target_binary: &str,
    command_pattern: Option<&str>,
) -> (r: Result<EfficiencyMetrics, String>)
    ensures
        match r {
            Ok(metrics) => content_view(transcript) matches Ok(content) && metrics_for(
                spec_extract(
                    content,
                    spec_resolved_pattern(target_binary@, opt_pattern_view(command_pattern)),
                ),
                metrics,
            ),
            Err(e) => content_view(transcript) matches Err(io) && e@
                == "Failed to read transcript file for efficiency metrics: "@ + io,
        },
{
    match transcript {
        Ok(content) => Ok(
            TranscriptAnalyzer::analyze_with_exit_codes_for_target(
                content.as_str(),
                target_binary,
                command_pattern,
            ),
        ),
        Err(io) => {
            let mut m = String::from_str(
                "Failed to read transcript file for efficiency metrics: ",
            );
            m.append(io.as_str());
            Err(m)
        },
    }
}

/// The efficiency metrics of the transcript, or all-zero metrics when the
/// transcript could not be read, so scoring never runs on missing data.
pub fn compute_efficiency_or_default(
    transcript: &Result<String, String>,
    target_binary: &str,
    command_pattern: Option<&str>,
) -> (r: EfficiencyMetrics)
    ensures
        content_view(transcript) matches Ok(content) ==> metrics_for(
            spec_extract(
                content,
                spec_resolved_pattern(target_binary@, opt_pattern_view(command_pattern)),
            ),
            r,
        ),
        content_view(transcript) is Err ==> r == (EfficiencyMetrics {
            total_commands: 0,
            unique_commands: 0,
            error_count: 0,
            retry_count: 0,
            help_invocations: 0,
            first_try_successes: 0,
        }),
        r.wf(),
{
    match compute_efficiency_metrics(transcript, target_binary, command_pattern) {
        Ok(metrics) => metrics,
        Err(_) => EfficiencyMetrics::zero(),
    }
}

} // verus!
