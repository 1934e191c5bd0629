use std::time::Duration;

use sentinella::web_protection::watchdog::{
    fired_reason, judge_resolution, judge_serving, same_texts, CounterSnapshot, FireCause,
    ProbeRound, RoundNews, Strikes, TickFacts, TickOutcome, TickReadings, Watchdog, RECONCILER_CHECK_EVERY,
    WATCHDOG_INTERVAL_SECS, WATCHDOG_STRIKES,
};

const WATCHDOG_INTERVAL: Duration = Duration::from_secs(WATCHDOG_INTERVAL_SECS);

#[test]
fn watchdog_threshold_is_about_a_minute() {
    let total = WATCHDOG_INTERVAL * WATCHDOG_STRIKES;
    assert!(total >= Duration::from_secs(45), "too twitchy: {total:?}");
    assert!(total <= Duration::from_secs(120), "too slow: {total:?}");
}

#[test]
fn reconciler_recheck_cadence_is_a_few_minutes() {
    let total = WATCHDOG_INTERVAL * RECONCILER_CHECK_EVERY as u32;
    assert!(total >= Duration::from_secs(60), "too twitchy: {total:?}");
    assert!(total <= Duration::from_secs(15 * 60), "too slow: {total:?}");
}

#[test]
fn a_skipped_resolve_tick_is_not_evidence_of_health() {
    let mut s = Strikes::default();
    s.record_resolve(Some(false));
    s.record_resolve(None);
    s.record_resolve(None);
    assert_eq!(s.resolve, 1, "skipped ticks must not clear the strike");
    s.record_resolve(Some(false));
    s.record_resolve(Some(false));
    assert!(s.worst() >= WATCHDOG_STRIKES, "persistent failure must trip");
    s.record_resolve(Some(true));
    assert_eq!(s.worst(), 0, "a real success resets");
}

#[test]
fn a_gone_reconciler_counts_toward_rule_removal() {
    let mut s = Strikes::default();
    s.record_reconciler(None);
    assert_eq!(s.worst(), 0, "no re-check this tick, no opinion");
    for _ in 0..WATCHDOG_STRIKES {
        s.record_reconciler(Some(false));
    }
    assert!(s.worst() >= WATCHDOG_STRIKES);
    s.record_reconciler(Some(true));
    assert_eq!(s.worst(), 0, "the backstop is back — strikes clear");
}

#[test]
fn strike_counters_are_independent() {
    let mut s = Strikes::default();
    s.record_serving(false);
    s.record_reconciler(Some(false));
    s.record_serving(true); // rescued/recovered serving...
    assert_eq!(s.serve, 0);
    assert_eq!(s.reconciler, 1, "...must not clear the reconciler strike");
}

/// Runs ticks that find the given facts, each asked for only when due, until
/// the watchdog fires.
fn ticks_until_fired(serving: bool, resolving: bool, reconciler: bool) -> (u64, FireCause) {
    let mut w = Watchdog::new();
    for _ in 0..100 {
        let plan = w.begin_tick();
        let facts = TickFacts {
            serving,
            resolving: plan.probe_resolution.then_some(resolving),
            reconciler: plan.check_reconciler.then_some(reconciler),
        };
        if let TickOutcome::Fire(cause) = w.end_tick(facts) {
            return (w.tick, cause);
        }
    }
    panic!("never fired");
}

#[test]
fn each_failure_alone_removes_the_rule_in_its_time() {
    assert_eq!(ticks_until_fired(false, true, true), (3, FireCause::StoppedAnswering));
    assert_eq!(ticks_until_fired(true, false, true), (9, FireCause::ResolvesNothing));
    assert_eq!(ticks_until_fired(true, true, false), (45, FireCause::ReconcilerGone));
}

#[test]
fn health_is_never_counted() {
    let mut w = Watchdog::new();
    for _ in 0..60 {
        let plan = w.begin_tick();
        let facts = TickFacts {
            serving: true,
            resolving: plan.probe_resolution.then_some(true),
            reconciler: plan.check_reconciler.then_some(true),
        };
        assert_eq!(w.end_tick(facts), TickOutcome::Healthy);
    }
}

#[test]
fn a_gone_reconciler_is_named_first() {
    let mut w = Watchdog::new();
    w.strikes = Strikes { serve: 2, resolve: 2, reconciler: 2 };
    let facts = TickFacts { serving: false, resolving: Some(false), reconciler: Some(false) };
    assert_eq!(w.end_tick(facts), TickOutcome::Fire(FireCause::ReconcilerGone));
    let mut w = Watchdog::new();
    assert_eq!(
        w.end_tick(TickFacts { serving: false, resolving: None, reconciler: None }),
        TickOutcome::Struck(1)
    );
}

fn snapshot(queries: u64, canary_probes: u64, shed: u64) -> CounterSnapshot {
    CounterSnapshot { queries, blocked: 0, cache_hits: 0, upstream_errors: 0, canary_probes, shed }
}

#[test]
fn busy_counts_as_serving_and_silence_does_not() {
    let before = snapshot(10, 5, 2);
    assert!(judge_serving(true, &before, &snapshot(10, 6, 2)));
    assert!(!judge_serving(true, &before, &before), "a forged signature moves no counter");
    assert!(!judge_serving(false, &before, &snapshot(10, 6, 2)));
    assert!(judge_serving(false, &before, &snapshot(11, 5, 2)));
    assert!(judge_serving(false, &before, &snapshot(10, 5, 3)));
    assert!(!judge_serving(false, &before, &before));
}

#[test]
fn a_blocked_name_cannot_be_probed() {
    assert_eq!(judge_resolution(false, false), None);
    assert_eq!(judge_resolution(false, true), None);
    assert_eq!(judge_resolution(true, true), Some(true));
    assert_eq!(judge_resolution(true, false), Some(false));
}

#[test]
fn rounds_report_what_changed() {
    let ups: Vec<String> = ["192.0.2.1:53", "192.0.2.2:53"].iter().map(|s| s.to_string()).collect();
    let mut w = Watchdog::new();
    assert_eq!(w.record_round(&ups, &vec![true, true]), RoundNews::Unchanged);
    assert_eq!(w.record_round(&ups, &vec![true, false]), RoundNews::Degraded);
    assert_eq!(w.state.degraded_upstreams, vec!["192.0.2.2:53"]);
    assert_eq!(w.record_round(&ups, &vec![true, false]), RoundNews::Unchanged);
    assert_eq!(w.record_round(&ups, &vec![false, false]), RoundNews::Degraded);
    assert_eq!(w.state.degraded_upstreams, ups);
    assert_eq!(w.record_round(&ups, &vec![true, true]), RoundNews::AllAnswering);
    assert!(w.state.degraded_upstreams.is_empty());
}

#[test]
fn a_fired_watchdog_says_why() {
    assert_eq!(
        fired_reason(FireCause::StoppedAnswering, &Ok(())),
        "watchdog fired (the proxy stopped answering): the NRPT rule was removed and DNS is back on system defaults — filtering is OFF"
    );
    let mut w = Watchdog::new();
    w.fire(FireCause::ReconcilerGone, &Err("denied".to_string()));
    assert!(w.state.fired);
    assert_eq!(
        w.state.fired_reason,
        "watchdog fired (the boot reconciler task is gone) but the NRPT rule could NOT be removed: denied — the boot reconciler is the backstop at next startup"
    );
    assert_eq!(FireCause::ResolvesNothing.text(), "the proxy resolves nothing");
}

#[test]
fn lists_are_the_same_in_the_same_order() {
    let a = vec!["x".to_string(), "y".to_string()];
    let b = vec!["y".to_string(), "x".to_string()];
    assert!(same_texts(&a, &vec!["x".to_string(), "y".to_string()]));
    assert!(!same_texts(&a, &b));
    assert!(!same_texts(&a, &vec!["x".to_string()]));
}

fn readings(resolved: bool, answered: &[bool]) -> TickReadings {
    TickReadings {
        answered: true,
        before: snapshot(1, 1, 0),
        after: snapshot(2, 2, 0),
        round: Some(ProbeRound {
            name_is_allowed: true,
            resolved,
            upstreams: answered.iter().enumerate().map(|(i, _)| format!("up{i}")).collect(),
            answered: answered.to_vec(),
        }),
        reconciler: None,
    }
}

#[test]
fn a_tick_takes_in_everything_it_read() {
    let mut w = Watchdog::new();
    let r = w.observe(readings(true, &[true, false]));
    assert_eq!((r.news, r.outcome), (RoundNews::Degraded, TickOutcome::Healthy));
    assert_eq!(w.state.degraded_upstreams, vec!["up1"]);
    let r = w.observe(readings(false, &[true, true]));
    assert_eq!((r.news, r.outcome), (RoundNews::AllAnswering, TickOutcome::Struck(1)));
    let quiet = TickReadings {
        answered: false,
        before: snapshot(2, 2, 0),
        after: snapshot(2, 2, 0),
        round: None,
        reconciler: Some(false),
    };
    let r = w.observe(quiet);
    assert_eq!((r.news, r.outcome), (RoundNews::Unchanged, TickOutcome::Struck(1)));
    assert_eq!(w.strikes, Strikes { serve: 1, resolve: 1, reconciler: 1 });
    assert_eq!(w.tick, 0);
}

#[test]
fn dead_upstreams_alone_never_remove_the_rule() {
    let mut w = Watchdog::new();
    for _ in 0..20 {
        assert_eq!(w.observe(readings(true, &[false, false])).outcome, TickOutcome::Healthy);
    }
}

#[test]
fn a_round_that_cannot_be_probed_does_not_clear_the_strikes() {
    let blocked = || {
        let mut r = readings(false, &[]);
        if let Some(round) = &mut r.round {
            round.name_is_allowed = false;
        }
        r
    };
    let mut w = Watchdog::new();
    assert_eq!(w.observe(readings(false, &[])).outcome, TickOutcome::Struck(1));
    assert_eq!(w.observe(readings(false, &[])).outcome, TickOutcome::Struck(2));
    assert_eq!(w.observe(blocked()).outcome, TickOutcome::Struck(2));
    assert_eq!(
        w.observe(readings(false, &[])).outcome,
        TickOutcome::Fire(FireCause::ResolvesNothing)
    );
    let mut w = Watchdog::new();
    assert_eq!(w.observe(blocked()).outcome, TickOutcome::Healthy);
}

#[test]
fn a_success_in_between_starts_the_count_again() {
    let mut w = Watchdog::new();
    for resolved in [false, false, true, false, false] {
        assert!(!matches!(w.observe(readings(resolved, &[])).outcome, TickOutcome::Fire(_)));
    }
    assert_eq!(
        w.observe(readings(false, &[])).outcome,
        TickOutcome::Fire(FireCause::ResolvesNothing)
    );
}
