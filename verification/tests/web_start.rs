use sentinella::web_protection::retry::{
    arms_retry, base_backoff, jitter, jittered, retry_delay, RetryLoop, RetryStep,
};
use sentinella::web_protection::rule::Endpoint;
use sentinella::web_protection::service::{
    BlockResponse, DiscoveryError, RefusalKind, SelfTestReport, WebProtectionConfig,
};
use sentinella::web_protection::start::{
    BoundProxy, DiscoveryFailure, StartEvent, StartRun, StopStep, WebProtection,
};
use sentinella::web_protection::status::ProxyState;

fn cfg_with(listen: &str, upstreams: &[&str]) -> WebProtectionConfig {
    WebProtectionConfig {
        enabled: true,
        listen: listen.to_string(),
        upstreams: upstreams.iter().map(|s| s.to_string()).collect(),
        allowlist: vec![],
        blocklists: vec![],
        block_response: "zero_ip".to_string(),
        health_check_name: "example.com".to_string(),
    }
}

fn endpoint(port: u16) -> Endpoint {
    Endpoint::v4(127, 0, 0, 1, port)
}

fn outcome(run: StartRun) -> WebProtection {
    match run {
        StartRun::Done { outcome } => outcome,
        other => panic!("{other:?}"),
    }
}

/// The outcome of a start that looks for an orphaned rule first.
fn refused(run: StartRun) -> (String, WebProtection) {
    match run {
        StartRun::ReconcileOrphan { reason, outcome: o } => {
            let run = StartRun::ReconcileOrphan { reason: reason.clone(), outcome: o };
            (reason, outcome(run.step(StartEvent::OrphanReconciled)))
        }
        other => panic!("{other:?}"),
    }
}

fn resolving() -> StartRun {
    WebProtection::start(cfg_with("127.0.0.1:53", &["192.0.2.1:53"]))
        .step(StartEvent::ListenParsed(Ok(endpoint(53))))
}

fn binding() -> StartRun {
    resolving().step(StartEvent::UpstreamsResolved(Ok(vec!["192.0.2.1:53".to_string()])))
}

fn testing() -> StartRun {
    binding().step(StartEvent::Bound(Ok(BoundProxy { bound: endpoint(53), rules_loaded: 12 })))
}

fn report(ok: bool, engine_ok: bool) -> SelfTestReport {
    SelfTestReport {
        ok,
        engine_ok,
        upstreams_healthy: 1,
        upstreams_total: 2,
        detail: "upstream dead".to_string(),
    }
}

fn installing() -> StartRun {
    testing()
        .step(StartEvent::SelfTested(report(true, true)))
        .step(StartEvent::ServingStarted)
        .step(StartEvent::PolicyChecked(Ok(true)))
}

fn with_rule() -> WebProtection {
    outcome(
        installing()
            .step(StartEvent::RuleInstalled(Ok("{G}".to_string())))
            .step(StartEvent::WatchdogStarted),
    )
}

#[test]
fn backoff_doubles_to_the_cap() {
    let seq: Vec<u64> = (0..7).map(|a| base_backoff(a)).collect();
    assert_eq!(seq, vec![30, 60, 120, 240, 300, 300, 300]);
}

#[test]
fn jitter_stays_within_twenty_percent() {
    let base = 300 * 1000;
    for salt in 0..50 {
        let j = jittered(base, salt);
        assert!(j >= 240 * 1000, "too low: {j:?}");
        assert!(j <= 360 * 1000, "too high: {j:?}");
    }
}

#[test]
fn a_hash_places_the_delay() {
    assert_eq!(jitter(300_000, 0), 240_000);
    assert_eq!(jitter(300_000, 60_000), 300_000);
    assert_eq!(jitter(300_000, 120_000), 360_000);
    assert_eq!(jitter(300_000, 120_001), 240_000);
    assert_eq!(jitter(3, 99), 3);
    assert_eq!(retry_delay(0, 0), 24_000);
    assert_eq!(retry_delay(u32::MAX, 120_000), 360_000);
}

#[test]
fn a_config_shaped_refusal_is_not_retried() {
    let run = WebProtection::start(cfg_with("not-an-address", &["192.0.2.1:53"]));
    let (reason, wp) = refused(run.step(StartEvent::ListenParsed(Err("bad".to_string()))));
    assert_eq!(reason, "listen: bad");
    assert_eq!(wp.handle.state, ProxyState::Disabled);
    assert_eq!(wp.refusal, Some(RefusalKind::Config));
    assert!(!arms_retry(&wp), "config-shaped failure must not arm a retry");
    // And a plain disabled subsystem must not either.
    assert!(!arms_retry(&WebProtection::disabled()));
}

#[test]
fn a_transient_refusal_arms_a_retry() {
    let (reason, wp) = refused(binding().step(StartEvent::Bound(Err("in use".to_string()))));
    assert_eq!(reason, "bind 127.0.0.1:53: in use");
    assert_eq!(wp.handle.state, ProxyState::BindFailed);
    assert_eq!(wp.handle.detail, "bind 127.0.0.1:53: in use");
    assert_eq!(wp.refusal, Some(RefusalKind::Transient));
    assert!(wp.handle.enabled);
    assert!(arms_retry(&wp), "a transient refusal must arm a retry");
}

#[test]
fn no_upstreams_is_a_transient_refusal() {
    let failure = DiscoveryFailure {
        error: DiscoveryError::NoneConfigured,
        text: "no upstreams".to_string(),
    };
    let (reason, wp) = refused(resolving().step(StartEvent::UpstreamsResolved(Err(failure))));
    assert_eq!(reason, "no upstreams");
    assert_eq!(wp.handle.state, ProxyState::Disabled);
    assert_eq!(wp.refusal, Some(RefusalKind::Transient));
}

#[test]
fn a_disabled_start_still_reconciles() {
    let cfg = WebProtectionConfig { enabled: false, ..cfg_with("127.0.0.1:53", &[]) };
    let (reason, wp) = refused(WebProtection::start(cfg));
    assert_eq!(reason, "web protection disabled");
    assert_eq!(wp.refusal, None);
    assert!(!wp.handle.enabled);
    assert_eq!(wp.handle.detail, "web protection disabled");
}

#[test]
fn a_failed_self_test_does_not_serve_but_keeps_what_it_knows() {
    let (reason, wp) = refused(testing().step(StartEvent::SelfTested(report(false, true))));
    assert_eq!(reason, "self-test failed");
    assert_eq!(wp.handle.state, ProxyState::SelfTestFailed);
    assert_eq!(wp.handle.detail, "upstream dead");
    assert_eq!((wp.handle.upstreams_healthy, wp.handle.upstreams_total), (1, 2));
    assert_eq!(wp.handle.rules_loaded, 12);
    assert_eq!(wp.handle.listen.as_deref(), Some("127.0.0.1:53"));
    assert!(wp.handle.engine && wp.handle.boot_config().is_some());
    assert!(wp.handle.rule_guid.is_none() && !wp.task);
    assert_eq!(wp.refusal, Some(RefusalKind::Transient));
    let (_, wp) = refused(testing().step(StartEvent::SelfTested(report(false, false))));
    assert_eq!(wp.refusal, Some(RefusalKind::Config));
}

#[test]
fn block_responses_follow_the_setting() {
    assert!(matches!(binding(), StartRun::Bind { block_response: BlockResponse::ZeroIp, .. }));
    let cfg = WebProtectionConfig {
        block_response: "nxdomain".to_string(),
        ..cfg_with("127.0.0.1:53", &[])
    };
    let run = WebProtection::start(cfg)
        .step(StartEvent::ListenParsed(Ok(endpoint(53))))
        .step(StartEvent::UpstreamsResolved(Ok(vec![])));
    assert!(matches!(run, StartRun::Bind { block_response: BlockResponse::Nxdomain, .. }));
}

#[test]
fn a_start_that_passes_serves_with_its_rule() {
    let wp = with_rule();
    assert_eq!(wp.handle().state, ProxyState::Serving);
    assert_eq!(wp.handle.rule_guid.as_deref(), Some("{G}"));
    assert_eq!(wp.handle.detail, "");
    assert!(wp.watchdog && wp.refresher && wp.shutdown && wp.task);
    assert_eq!(wp.refusal, None);
}

#[test]
fn a_start_serves_without_a_rule_where_none_can_be_installed() {
    let wp = outcome(installing().step(StartEvent::RuleInstalled(Err("no task".to_string()))));
    assert_eq!(wp.handle.state, ProxyState::Serving);
    assert!(wp.handle.rule_guid.is_none() && !wp.watchdog);
    assert!(wp.task && wp.shutdown);
}

#[test]
fn an_answer_out_of_turn_changes_nothing() {
    assert!(matches!(
        testing().step(StartEvent::RuleInstalled(Ok("{G}".to_string()))),
        StartRun::SelfTest { .. }
    ));
}

#[test]
fn stopping_removes_the_rule_first() {
    let mut wp = with_rule();
    let steps: Vec<String> = wp
        .stop()
        .into_iter()
        .map(|s| match s {
            StopStep::RemoveRule(g) => format!("remove {g}"),
            other => format!("{other:?}"),
        })
        .collect();
    assert_eq!(
        steps,
        ["remove {G}", "SignalShutdown", "AbortWatchdog", "AbortRefresher", "JoinServing"]
    );
    assert!(!wp.watchdog && !wp.refresher && !wp.shutdown && !wp.task);
    assert!(WebProtection::disabled().stop().is_empty());
}

fn transient() -> WebProtection {
    WebProtection::refused(ProxyState::BindFailed, "busy".to_string(), RefusalKind::Transient)
}

#[test]
fn retries_go_on_while_the_refusal_is_transient() {
    let mut retry = RetryLoop::new();
    let mut next = transient();
    let step = retry.after_attempt_with(&mut next, false, 0);
    assert_eq!(step, RetryStep::Wait { delay_ms: 48_000 });
    assert_eq!(next.handle.detail, "busy — retrying (attempt 1; next in ~48s)");
    let mut next = transient();
    match retry.after_attempt(&mut next, false) {
        RetryStep::Wait { delay_ms } => assert!((96_000..=144_000).contains(&delay_ms)),
        other => panic!("{other:?}"),
    }
    assert_eq!(retry.attempt, 2);
    assert!((24_000..=36_000).contains(&retry.first_delay()));
}

#[test]
fn retries_end_when_served_refused_for_good_or_going_down() {
    let mut retry = RetryLoop::new();
    assert_eq!(retry.after_attempt(&mut with_rule(), false), RetryStep::Served);
    let mut config =
        WebProtection::refused(ProxyState::Disabled, "bad".to_string(), RefusalKind::Config);
    assert_eq!(retry.after_attempt(&mut config, false), RetryStep::GiveUp);
    assert_eq!(config.handle.detail, "bad");
    assert_eq!(retry.after_attempt(&mut with_rule(), true), RetryStep::StandDown);
    assert_eq!(retry.after_attempt(&mut transient(), true), RetryStep::StandDown);
}

#[test]
fn what_does_not_serve_always_says_why() {
    assert_eq!(WebProtection::disabled().handle.detail, "web protection disabled");
    let failure = DiscoveryFailure { error: DiscoveryError::NoneConfigured, text: String::new() };
    let (_, wp) = refused(resolving().step(StartEvent::UpstreamsResolved(Err(failure))));
    assert_eq!(wp.handle.detail, "web protection refused to start");
    let silent = SelfTestReport { detail: String::new(), ..report(false, true) };
    let (_, wp) = refused(testing().step(StartEvent::SelfTested(silent)));
    assert_eq!(wp.handle.detail, "self-test failed");
}
