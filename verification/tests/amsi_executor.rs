use sentinella::amsi_provider::decision::DaemonVerdict;
use sentinella::amsi_provider::executor::{
    run_scan, Breaker, Executor, ScanRun, BREAKER_COOLDOWN_MS, BREAKER_THRESHOLD, POOL_SIZE,
};

#[test]
fn breaker_opens_after_threshold_and_resets_on_success() {
    let mut b = Breaker::new();
    assert!(!b.is_open(0));
    b.record_timeout(0, 3, 5_000);
    assert!(!b.is_open(0));
    b.record_timeout(0, 3, 5_000);
    assert!(!b.is_open(0));
    b.record_timeout(0, 3, 5_000); // third -> open
    assert!(b.is_open(0));
    assert!(b.is_open(4_999));
    assert!(!b.is_open(5_000)); // cooldown elapsed
    // A success fully closes and resets the counter.
    b.record_success();
    assert!(!b.is_open(0));
    b.record_timeout(0, 3, 5_000);
    assert!(!b.is_open(0)); // counter was reset, so one timeout != open
}

/// Runs a job on the first worker that takes it.
fn run_on(ex: &mut Executor, busy: &[bool], now_ms: u64, job: fn() -> Option<DaemonVerdict>) -> Option<DaemonVerdict> {
    let mut run = run_scan(ex, now_ms);
    loop {
        match run {
            ScanRun::Offer { start, tried } => {
                let worker = ex.worker_for(start, tried);
                run = ex.offer_answered(start, tried, !busy[worker], now_ms);
            }
            ScanRun::Await => run = ex.reply_received(Some(job()), now_ms),
            ScanRun::Done(v) => return v,
        }
    }
}

#[test]
fn fast_job_returns_value() {
    let mut ex = Executor::new(POOL_SIZE);
    let r = run_on(&mut ex, &[false; POOL_SIZE], 0, || {
        Some(DaemonVerdict { score: 42, should_block: true })
    });
    assert_eq!(r, Some(DaemonVerdict { score: 42, should_block: true }));
}

#[test]
fn overruns_open_the_breaker_and_no_worker_is_touched() {
    let mut ex = Executor::new(POOL_SIZE);
    for now in [10u64, 300, 600] {
        assert!(matches!(run_scan(&mut ex, now), ScanRun::Offer { .. }));
        assert_eq!(ex.reply_received(None, now), ScanRun::Done(None));
    }
    assert_eq!(ex.breaker.consecutive, BREAKER_THRESHOLD);
    let before = ex;
    assert_eq!(run_scan(&mut ex, 601), ScanRun::Done(None));
    assert_eq!(run_scan(&mut ex, 599 + BREAKER_COOLDOWN_MS), ScanRun::Done(None));
    assert_eq!(ex, before);
    assert!(matches!(run_scan(&mut ex, 600 + BREAKER_COOLDOWN_MS), ScanRun::Offer { .. }));
}

#[test]
fn a_reply_closes_the_breaker() {
    let mut ex = Executor::new(POOL_SIZE);
    ex.reply_received(None, 0);
    ex.reply_received(None, 0);
    let v = DaemonVerdict { score: 1, should_block: false };
    assert_eq!(ex.reply_received(Some(Some(v)), 0), ScanRun::Done(Some(v)));
    assert_eq!(ex.breaker, Breaker::new());
}

#[test]
fn scans_go_round_the_workers() {
    let mut ex = Executor::new(3);
    for expected in [0usize, 1, 2, 0] {
        match run_scan(&mut ex, 0) {
            ScanRun::Offer { start, tried } => assert_eq!(ex.worker_for(start, tried), expected),
            other => panic!("{other:?}"),
        }
    }
    let wrapped = Executor { next: usize::MAX, ..ex };
    let mut ex = wrapped;
    assert_eq!(run_scan(&mut ex, 0), ScanRun::Offer { start: usize::MAX, tried: 0 });
    assert_eq!(ex.next, 0);
}

#[test]
fn a_busy_worker_is_passed_over() {
    let mut ex = Executor::new(2);
    let r = run_on(&mut ex, &[true, false], 0, || Some(DaemonVerdict { score: 3, should_block: false }));
    assert_eq!(r, Some(DaemonVerdict { score: 3, should_block: false }));
}

#[test]
fn a_scan_that_no_worker_takes_is_shed() {
    let mut ex = Executor::new(2);
    assert_eq!(run_on(&mut ex, &[true, true], 0, || None), None);
    assert_eq!(ex.breaker.consecutive, 1);
}

#[test]
fn without_workers_scans_fail_open() {
    let mut ex = Executor::new(0);
    assert_eq!(run_scan(&mut ex, 0), ScanRun::Done(None));
    assert_eq!(ex.next, 0);
}

#[test]
fn every_worker_is_offered_a_scan_once() {
    let ex = Executor::new(5);
    for start in [0usize, 3, 7, usize::MAX - 1] {
        let mut seen: Vec<usize> = (0..5).map(|k| ex.worker_for(start, k)).collect();
        seen.sort();
        assert_eq!(seen, vec![0, 1, 2, 3, 4]);
    }
}
