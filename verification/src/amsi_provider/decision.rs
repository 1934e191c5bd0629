//! Verdict mapping and the fail-open policy.
use vstd::prelude::*;

verus! {

/// `AMSI_RESULT_DETECTED`: the host must block execution.
pub const AMSI_RESULT_DETECTED_I32: i32 = 32768;

/// `AMSI_RESULT_NOT_DETECTED`: allow. Also the fail-open value.
pub const AMSI_RESULT_NOT_DETECTED_I32: i32 = 1;

/// The only two outcomes the provider ever returns.
#[derive(Debug, Clone, Copy, PartialEq, Eq, Structural)]
pub enum ProviderDecision {
    /// Malicious: block.
    Detected,
    /// Clean, unknown, or any failure: allow (fail open).
    NotDetected,
}

impl ProviderDecision {
    /// The raw `AMSI_RESULT` value of a decision.
    pub open spec fn raw(self) -> i32 {
        match self {
            ProviderDecision::Detected => AMSI_RESULT_DETECTED_I32,
            ProviderDecision::NotDetected => AMSI_RESULT_NOT_DETECTED_I32,
        }
    }

    /// The raw `AMSI_RESULT` value this maps to.
    pub fn amsi_result_i32(self) -> (r: i32)
        ensures
            r == self.raw(),
    {
        match self {
            ProviderDecision::Detected => AMSI_RESULT_DETECTED_I32,
            ProviderDecision::NotDetected => AMSI_RESULT_NOT_DETECTED_I32,
        }
    }
}

/// A verdict as returned by the daemon's `runtime.scan_buffer`.
#[derive(Debug, Clone, Copy, PartialEq, Eq, Structural)]
pub struct DaemonVerdict {
    pub score: u32,
    pub should_block: bool,
}

/// An outcome that explicitly asks for a block.
pub open spec fn blocks(outcome: Option<DaemonVerdict>) -> bool {
    match outcome {
        Some(v) => v.should_block,
        None => false,
    }
}

/// The decision for an outcome.
pub open spec fn decision_for(outcome: Option<DaemonVerdict>) -> ProviderDecision {
    if blocks(outcome) {
        ProviderDecision::Detected
    } else {
        ProviderDecision::NotDetected
    }
}

/// Maps a verdict of the daemon. Only an explicit block blocks.
pub fn decision_from_verdict(v: DaemonVerdict) -> (r: ProviderDecision)
    ensures
        r == decision_for(Some(v)),
{
    if v.should_block {
        ProviderDecision::Detected
    } else {
        ProviderDecision::NotDetected
    }
}

/// Maps the full outcome, failure included. `None` means that no usable
/// verdict came back in time, and fails open.
pub fn decision_from_outcome(outcome: Option<DaemonVerdict>) -> (r: ProviderDecision)
    ensures
        r == decision_for(outcome),
{
    match outcome {
        Some(v) => decision_from_verdict(v),
        None => ProviderDecision::NotDetected,
    }
}

/// The host is told to block exactly when the daemon said `should_block`.
pub proof fn only_an_explicit_block_is_detected(outcome: Option<DaemonVerdict>)
    ensures
        decision_for(outcome).raw() == AMSI_RESULT_DETECTED_I32 <==> (outcome is Some
            && outcome->0.should_block),
        decision_for(outcome).raw() == AMSI_RESULT_DETECTED_I32 || decision_for(outcome).raw()
            == AMSI_RESULT_NOT_DETECTED_I32,
{
}

/// The score alone never changes the decision.
pub proof fn the_score_never_decides(a: DaemonVerdict, b: DaemonVerdict)
    requires
        a.should_block == b.should_block,
    ensures
        decision_for(Some(a)) == decision_for(Some(b)),
{
}

/// The host is told 32768 for a verdict that says to block, and 1 for everything
/// else.
pub proof fn the_host_is_told_one_of_two_numbers(outcome: Option<DaemonVerdict>)
    ensures
        outcome matches Some(v) ==> decision_for(outcome).raw() == if v.should_block {
            32768i32
        } else {
            1i32
        },
        outcome is None ==> decision_for(outcome).raw() == 1,
{
}

} // verus!
