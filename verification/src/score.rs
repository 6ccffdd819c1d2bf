//! The composite scorer and its surroundings: the weighted combination of
//! judge score, gate pass ratio and interaction efficiency, the tier a
//! score falls into, and the aggregated evaluation metrics. Scores are
//! fixed-point values in parts per million of 1.0.

use vstd::prelude::*;

use crate::gates::GateResult;
use crate::scenario::CompositeConfig;
use crate::text::{dec_str, dec_string};
use crate::transcript::{rate_ppm, EfficiencyMetrics};

verus! {

/// One million: the fixed-point denominator standing for 1.0.
pub const SCORE_SCALE: u64 = 1000000;

/// The weights in force: the caller's configuration, or the default
/// split of 550000, 350000 and 100000 parts per million.
pub open spec fn spec_weights(weights: Option<CompositeConfig>) -> (int, int, int) {
    match weights {
        Some(w) => (w.judge_weight as int, w.gate_weight as int, w.interaction_weight as int),
        None => (550000int, 350000int, 100000int),
    }
}

/// The composite score in parts per million: the weighted sum of the
/// judge score (zero when absent), the share of passing checks, and the first-try
/// success rate, clamped into `[0, 1]`.
pub open spec fn spec_composite(
    judge_ppm: Option<int>,
    gates_passed: int,
    gates_total: int,
    efficiency_ppm: int,
    w: (int, int, int),
) -> int {
    let j = match judge_ppm {
        Some(v) => v,
        None => 0,
    };
    let g = rate_ppm(gates_passed, gates_total);
    let sum = (w.0 * j + w.1 * g + w.2 * efficiency_ppm) / (SCORE_SCALE as int);
    if sum > SCORE_SCALE as int {
        SCORE_SCALE as int
    } else if sum < 0 {
        0
    } else {
        sum
    }
}

/// The weights view of an optional borrowed configuration.
pub open spec fn opt_weights_view(weights: Option<&CompositeConfig>) -> Option<CompositeConfig> {
    match weights {
        Some(w) => Some(*w),
        None => None,
    }
}

/// Computes the composite score from the judge score, the check counts and
/// the efficiency metrics, under the given weights (or the defaults).
/// The result always lies in `[0, 1]`, whatever the inputs.
pub fn compute_composite_score(
    judge_score: Option<u64>,
    gates_passed: usize,
    gates_total: usize,
    efficiency: &EfficiencyMetrics,
    weights: Option<&CompositeConfig>,
) -> (r: u64)
    requires
        weights matches Some(w) ==> w.judge_weight <= 1000000 && w.gate_weight <= 1000000
            && w.interaction_weight <= 1000000,
        gates_passed <= gates_total,
        efficiency.wf(),
    ensures
        r == spec_composite(
            match judge_score {
                Some(v) => Some(v as int),
                None => None,
            },
            gates_passed as int,
            gates_total as int,
            rate_ppm(efficiency.first_try_successes as int, efficiency.total_commands as int),
            spec_weights(opt_weights_view(weights)),
        ),
        r <= SCORE_SCALE,
{
    let (jw, gw, ew): (u64, u64, u64) = match weights {
        Some(w) => (w.judge_weight, w.gate_weight, w.interaction_weight),
        None => (550000, 350000, 100000),
    };
    let j: u64 = match judge_score {
        Some(v) => v,
        None => 0,
    };
    let g: u64 = if gates_total > 0 {
        let num = gates_passed as u128;
        let den = gates_total as u128;
        let q = num * 1000000 / den;
        proof {
            let ni = num as int;
            let di = den as int;
            assert(ni * 1000000 <= di * 1000000) by (nonlinear_arith)
                requires
                    ni <= di,
            ;
            assert(di * 1000000 / di == 1000000) by (nonlinear_arith)
                requires
                    di > 0,
            ;
            assert(ni * 1000000 / di <= di * 1000000 / di) by (nonlinear_arith)
                requires
                    ni * 1000000 <= di * 1000000 && di > 0,
            ;
        }
        q as u64
    } else {
        0
    };
    let e: u64 = efficiency.first_try_success_rate_ppm();
    proof {
        let ji = j as int;
        let gi = g as int;
        let ei = e as int;
        let jwi = jw as int;
        let gwi = gw as int;
        let ewi = ew as int;
        assert(jwi * ji <= 1000000 * 0xffffffffffffffff) by (nonlinear_arith)
            requires
                0 <= jwi <= 1000000 && 0 <= ji <= 0xffffffffffffffff,
        ;
        assert(gwi * gi <= 1000000 * 0xffffffffffffffff) by (nonlinear_arith)
            requires
                0 <= gwi <= 1000000 && 0 <= gi <= 0xffffffffffffffff,
        ;
        assert(ewi * ei <= 1000000 * 0xffffffffffffffff) by (nonlinear_arith)
            requires
                0 <= ewi <= 1000000 && 0 <= ei <= 0xffffffffffffffff,
        ;
    }
    let sum: u128 = ((jw as u128) * (j as u128) + (gw as u128) * (g as u128) + (ew as u128) * (
    e as u128)) / 1000000;
    if sum > 1000000 {
        1000000
    } else {
        sum as u64
    }
}

/// The tier a composite score falls into.
#[derive(Debug, Clone, Copy, PartialEq, Eq, Structural)]
pub enum ScoreTier {
    Excellent,
    Good,
    Acceptable,
    Poor,
}

impl ScoreTier {
    /// The tier for a score in parts per million: at least 0.9 is
    /// excellent, 0.7 good, 0.5 acceptable, anything below poor.
    pub fn from_score(score_ppm: u64) -> (r: ScoreTier)
        ensures
            r == (if score_ppm >= 900000 {
                ScoreTier::Excellent
            } else if score_ppm >= 700000 {
                ScoreTier::Good
            } else if score_ppm >= 500000 {
                ScoreTier::Acceptable
            } else {
                ScoreTier::Poor
            }),
    {
        if score_ppm >= 900000 {
            ScoreTier::Excellent
        } else if score_ppm >= 700000 {
            ScoreTier::Good
        } else if score_ppm >= 500000 {
            ScoreTier::Acceptable
        } else {
            ScoreTier::Poor
        }
    }

    /// The tier's name.
    pub fn label(&self) -> (r: String)
        ensures
            r@ == (match self {
                ScoreTier::Excellent => "Excellent"@,
                ScoreTier::Good => "Good"@,
                ScoreTier::Acceptable => "Acceptable"@,
                ScoreTier::Poor => "Poor"@,
            }),
    {
        match self {
            ScoreTier::Excellent => String::from_str("Excellent"),
            ScoreTier::Good => String::from_str("Good"),
            ScoreTier::Acceptable => String::from_str("Acceptable"),
            ScoreTier::Poor => String::from_str("Poor"),
        }
    }
}

/// The aggregated result of one evaluation run: the check counts and
/// verdicts, the optional judge score with its raw response, the
/// efficiency metrics, and the composite score in parts per million.
#[derive(Debug)]
pub struct EvaluationMetrics {
    /// How many gates passed.
    pub gates_passed: usize,
    /// How many gates were evaluated.
    pub gates_total: usize,
    /// One verdict per gate, in declaration order.
    pub details: Vec<GateResult>,
    /// The judge's score in parts per million, when a judge ran.
    pub judge_score: Option<u64>,
    /// The judge's raw response text, when a judge ran.
    pub judge_response: Option<String>,
    /// Efficiency metrics from the transcript.
    pub efficiency: EfficiencyMetrics,
    /// The composite score in parts per million.
    pub composite_score: u64,
}

/// Builds the aggregated metrics for a run, computing the composite score
/// from its parts.
pub fn build_metrics(
    details: Vec<GateResult>,
    gates_passed: usize,
    gates_total: usize,
    judge_score: Option<u64>,
    judge_response: Option<String>,
    efficiency: EfficiencyMetrics,
    weights: Option<&CompositeConfig>,
) -> (r: EvaluationMetrics)
    requires
        weights matches Some(w) ==> w.judge_weight <= 1000000 && w.gate_weight <= 1000000
            && w.interaction_weight <= 1000000,
        gates_passed <= gates_total,
        efficiency.wf(),
    ensures
        r.gates_passed == gates_passed,
        r.gates_total == gates_total,
        r.details == details,
        r.judge_score == judge_score,
        r.judge_response == judge_response,
        r.efficiency == efficiency,
        r.composite_score == spec_composite(
            match judge_score {
                Some(v) => Some(v as int),
                None => None,
            },
            gates_passed as int,
            gates_total as int,
            rate_ppm(efficiency.first_try_successes as int, efficiency.total_commands as int),
            spec_weights(opt_weights_view(weights)),
        ),
        r.composite_score <= SCORE_SCALE,
{
    let composite_score = compute_composite_score(
        judge_score,
        gates_passed,
        gates_total,
        &efficiency,
        weights,
    );
    EvaluationMetrics {
        gates_passed,
        gates_total,
        details,
        judge_score,
        judge_response,
        efficiency,
        composite_score,
    }
}

/// The run's outcome line: `Pass` when every gate passed, otherwise the
/// failing tally.
pub fn determine_outcome(metrics: &EvaluationMetrics) -> (r: String)
    ensures
        metrics.gates_passed < metrics.gates_total ==> r@ == "Fail: "@ + dec_str(
            metrics.gates_passed as nat,
        ) + "/"@ + dec_str(metrics.gates_total as nat) + " gates passed"@,
        metrics.gates_passed >= metrics.gates_total ==> r@ == "Pass"@,
{
    if metrics.gates_passed < metrics.gates_total {
        let mut m = String::from_str("Fail: ");
        let p = dec_string(metrics.gates_passed as u64);
        m.append(p.as_str());
        m.append("/");
        let t = dec_string(metrics.gates_total as u64);
        m.append(t.as_str());
        m.append(" gates passed");
        m
    } else {
        String::from_str("Pass")
    }
}

} // verus!
