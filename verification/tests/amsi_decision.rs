use sentinella::amsi_provider::decision::{
    decision_from_outcome, decision_from_verdict, DaemonVerdict, ProviderDecision,
    AMSI_RESULT_DETECTED_I32, AMSI_RESULT_NOT_DETECTED_I32,
};

#[test]
fn block_verdict_detects() {
    let d = decision_from_verdict(DaemonVerdict { score: 95, should_block: true });
    assert_eq!(d, ProviderDecision::Detected);
    assert_eq!(d.amsi_result_i32(), AMSI_RESULT_DETECTED_I32);
}

#[test]
fn clean_verdict_allows() {
    let d = decision_from_verdict(DaemonVerdict { score: 10, should_block: false });
    assert_eq!(d, ProviderDecision::NotDetected);
    assert_eq!(d.amsi_result_i32(), AMSI_RESULT_NOT_DETECTED_I32);
}

#[test]
fn high_score_without_block_flag_still_allows() {
    let d = decision_from_verdict(DaemonVerdict { score: 79, should_block: false });
    assert_eq!(d, ProviderDecision::NotDetected);
}

#[test]
fn no_verdict_fails_open() {
    assert_eq!(decision_from_outcome(None), ProviderDecision::NotDetected);
    assert_eq!(
        decision_from_outcome(None).amsi_result_i32(),
        AMSI_RESULT_NOT_DETECTED_I32
    );
}

#[test]
fn present_block_outcome_detects() {
    let d = decision_from_outcome(Some(DaemonVerdict { score: 88, should_block: true }));
    assert_eq!(d, ProviderDecision::Detected);
}

#[test]
fn raw_results_are_those_of_amsi() {
    assert_eq!(ProviderDecision::Detected.amsi_result_i32(), 32768);
    assert_eq!(ProviderDecision::NotDetected.amsi_result_i32(), 1);
}

#[test]
fn a_zero_score_with_a_block_still_blocks() {
    let d = decision_from_verdict(DaemonVerdict { score: 0, should_block: true });
    assert_eq!(d, ProviderDecision::Detected);
}
