use sentinella::web_protection::lists::{
    apply_refresh_report, list_source, load_lists, ListLoad, ListPolicy, RefreshReport,
};
use sentinella::web_protection::service::{
    classify_discovery, classify_self_test, reconcile_orphan_rule, DiscoveryError, LiveFacts,
    OrphanRun, RefusalKind, SelfTestReport, WebProtectionConfig, WebProtectionHandle,
};
use sentinella::web_protection::status::{ProxyState, WebProtectionStatus};
use sentinella::web_protection::watchdog::{CounterSnapshot, WatchdogState};

fn strings(list: &[&str]) -> Vec<String> {
    list.iter().map(|s| s.to_string()).collect()
}

fn config() -> WebProtectionConfig {
    WebProtectionConfig {
        enabled: true,
        listen: "127.0.0.1:53".to_string(),
        upstreams: vec![],
        allowlist: vec![],
        blocklists: vec![],
        block_response: "zero_ip".to_string(),
        health_check_name: "example.com".to_string(),
    }
}

fn report(engine_ok: bool) -> SelfTestReport {
    SelfTestReport {
        ok: false,
        engine_ok,
        upstreams_healthy: 0,
        upstreams_total: 1,
        detail: String::new(),
    }
}

fn handle(state: ProxyState, detail: &str) -> WebProtectionHandle {
    WebProtectionHandle {
        enabled: true,
        state,
        detail: detail.to_string(),
        listen: None,
        resolved_upstreams: vec![],
        upstreams_healthy: 0,
        upstreams_total: 0,
        rules_loaded: 0,
        engine: false,
        rule_guid: None,
        boot_config: None,
    }
}

fn live(upstreams: &[&str], watchdog: Option<WatchdogState>) -> LiveFacts {
    LiveFacts {
        counters: None,
        upstreams: Some(strings(upstreams)),
        watchdog,
        rule_count: None,
        nrpt_installed: None,
        gpo_nrpt_present: None,
    }
}

fn nothing_live() -> LiveFacts {
    LiveFacts { upstreams: None, ..live(&[], None) }
}

#[test]
fn self_test_classification_splits_code_from_network() {
    assert_eq!(classify_self_test(&report(true)), RefusalKind::Transient);
    assert_eq!(classify_self_test(&report(false)), RefusalKind::Config);
}

#[test]
fn discovery_failures_are_all_retryable() {
    for e in [
        DiscoveryError::QueryFailed("x".into()),
        DiscoveryError::NoneConfigured,
        DiscoveryError::OnlyLoopback { dropped: 1 },
    ] {
        assert_eq!(classify_discovery(&e), RefusalKind::Transient);
    }
}

#[test]
fn status_reads_the_live_upstream_list() {
    let h = handle(ProxyState::Serving, "");
    let s = h.status(live(&["192.0.2.1:53"], Some(WatchdogState::default())));
    assert_eq!(s.upstreams, vec!["192.0.2.1:53"]);
    let s = h.status(live(&["192.0.2.2:53", "192.0.2.3:53"], Some(WatchdogState::default())));
    assert_eq!(
        s.upstreams,
        vec!["192.0.2.2:53".to_string(), "192.0.2.3:53".to_string()],
        "status must follow the live list, not the start-time copy"
    );
    assert_eq!(s.upstreams_total, 2);
    assert_eq!(s.upstreams_healthy, 2, "nothing probed-degraded yet");
}

#[test]
fn status_falls_back_to_the_start_time_copy_when_not_serving() {
    let h = WebProtectionHandle {
        resolved_upstreams: strings(&["192.0.2.9:53"]),
        upstreams_healthy: 1,
        upstreams_total: 2,
        ..handle(ProxyState::SelfTestFailed, "x")
    };
    let s = h.status(nothing_live());
    assert_eq!(s.upstreams, vec!["192.0.2.9:53"]);
    assert_eq!(s.upstreams_total, 2);
    assert_eq!(s.upstreams_healthy, 1);
    assert!(!s.watchdog_fired);
    assert!(s.upstreams_degraded.is_empty());
}

#[test]
fn degraded_upstreams_are_surfaced_in_status() {
    let wd = WatchdogState {
        degraded_upstreams: strings(&["192.0.2.2:53"]),
        fired: false,
        fired_reason: String::new(),
    };
    let s = handle(ProxyState::Serving, "").status(live(&["192.0.2.1:53", "192.0.2.2:53"], Some(wd)));
    assert_eq!(s.upstreams_degraded, vec!["192.0.2.2:53"]);
    assert_eq!(s.upstreams_healthy, 1);
    assert_eq!(s.upstreams_total, 2);
    assert!(!s.watchdog_fired);
    assert!(s.detail.contains("192.0.2.2:53"), "detail must name the dead upstream: {}", s.detail);
    assert_eq!(s.state, ProxyState::Serving, "degraded is not a new state");
}

#[test]
fn a_fired_watchdog_is_surfaced_without_a_state_change() {
    let wd = WatchdogState {
        degraded_upstreams: Vec::new(),
        fired: true,
        fired_reason: "watchdog fired (the proxy stopped answering): rule removed".into(),
    };
    let s = handle(ProxyState::Serving, "").status(live(&["192.0.2.1:53"], Some(wd)));
    assert!(s.watchdog_fired);
    assert!(s.detail.contains("watchdog fired"), "{}", s.detail);
    assert_eq!(s.state, ProxyState::Serving);
}

#[test]
fn degraded_upstreams_read_exactly_like_this() {
    let wd = || WatchdogState {
        degraded_upstreams: strings(&["a", "b"]),
        fired: false,
        fired_reason: String::new(),
    };
    let s = handle(ProxyState::Serving, "").status(live(&["a", "b", "c"], Some(wd())));
    assert_eq!(
        s.detail,
        "2 of 3 upstreams not answering: a, b — their round-robin share of queries is failing; the active list is left unchanged"
    );
    let s = handle(ProxyState::Serving, "refused").status(live(&["a", "b", "c"], Some(wd())));
    assert_eq!(s.detail, "refused", "a refusal is shown first");
    let s = handle(ProxyState::Serving, "").status(live(&["a"], Some(wd())));
    assert_eq!(s.upstreams_healthy, 0, "a list that shrank meanwhile");
    let s = handle(ProxyState::Serving, "").status(live(&["a"], None));
    assert_eq!(s.detail, "", "nothing to report");
}

#[test]
fn live_numbers_are_shown_where_there_are_any() {
    let h = WebProtectionHandle {
        rules_loaded: 7,
        listen: Some("127.0.0.1:53".to_string()),
        ..handle(ProxyState::Serving, "")
    };
    let counters = CounterSnapshot {
        queries: 1,
        blocked: 2,
        cache_hits: 3,
        upstream_errors: 4,
        canary_probes: 5,
        shed: 6,
    };
    let s = h.status(LiveFacts {
        counters: Some(counters),
        rule_count: Some(9),
        nrpt_installed: Some(true),
        gpo_nrpt_present: Some(false),
        ..nothing_live()
    });
    assert_eq!((s.queries, s.blocked, s.cache_hits, s.upstream_errors), (1, 2, 3, 4));
    assert_eq!(s.rules_loaded, 9);
    assert_eq!(s.nrpt_installed, Some(true));
    assert_eq!(s.gpo_nrpt_present, Some(false));
    assert_eq!(s.listen.as_deref(), Some("127.0.0.1:53"));
    let s = h.status(nothing_live());
    assert_eq!((s.queries, s.rules_loaded, s.nrpt_installed), (0, 7, None));
}

#[test]
fn disabled_status_does_not_claim_to_know_about_nrpt() {
    let s = WebProtectionStatus::disabled();
    assert!(!s.enabled);
    assert_eq!(s.state, ProxyState::Disabled);
    assert_eq!(
        s.nrpt_installed, None,
        "unknown must not be reported as not-installed"
    );
    assert_eq!(s.detail, "web protection disabled");
}

#[test]
fn only_a_rule_that_exists_is_an_orphan() {
    assert!(matches!(reconcile_orphan_rule(None), OrphanRun::Settled));
    let query = || reconcile_orphan_rule(Some("{G}".to_string()));
    assert!(matches!(query(), OrphanRun::QueryRule { guid } if guid == "{G}"));
    assert!(matches!(query().answered(Ok(true)), OrphanRun::RemoveRule { guid } if guid == "{G}"));
    assert!(matches!(query().answered(Ok(false)), OrphanRun::Settled));
    assert!(matches!(query().answered(Err("denied".to_string())), OrphanRun::Settled));
}

#[test]
fn list_settings_are_read_at_the_first_bar() {
    let s = list_source("ads.txt");
    assert_eq!((s.path.as_str(), s.policy, s.hosts), ("ads.txt", ListPolicy::Exact, false));
    assert_eq!(s.unknown_policy, None);
    let s = list_source("ads.txt|suffix");
    assert_eq!((s.path.as_str(), s.policy), ("ads.txt", ListPolicy::Suffix));
    let s = list_source("ads.hosts|exact");
    assert_eq!((s.path.as_str(), s.policy, s.hosts), ("ads.hosts", ListPolicy::Exact, true));
    assert_eq!(s.unknown_policy, None);
    let s = list_source("/etc/hosts|a|b");
    assert_eq!((s.path.as_str(), s.policy, s.hosts), ("/etc/hosts", ListPolicy::Exact, true));
    assert_eq!(s.unknown_policy.as_deref(), Some("a|b"));
    let s = list_source("|suffix");
    assert_eq!((s.path.as_str(), s.policy), ("", ListPolicy::Suffix));
}

#[test]
fn allow_rules_are_loaded_before_blocklists() {
    let cfg = WebProtectionConfig {
        allowlist: strings(&["good.example", ".fine.example"]),
        blocklists: strings(&["a.hosts", "b.txt|suffix"]),
        ..config()
    };
    let plan: Vec<String> = load_lists(&cfg)
        .into_iter()
        .map(|l| match l {
            ListLoad::Allow(a) => format!("allow {a}"),
            ListLoad::Block(s) => format!("block {} {:?} {}", s.path, s.policy, s.hosts),
        })
        .collect();
    assert_eq!(
        plan,
        [
            "allow good.example",
            "allow .fine.example",
            "block a.hosts Exact true",
            "block b.txt Suffix false"
        ]
    );
}

fn serving_handle(cfg: WebProtectionConfig) -> WebProtectionHandle {
    WebProtectionHandle { engine: true, boot_config: Some(cfg), ..handle(ProxyState::Serving, "") }
}

#[test]
fn an_unchanged_report_performs_no_swap() {
    let h = serving_handle(config());
    assert!(apply_refresh_report(&h, RefreshReport { changed: false }).is_none());
}

#[test]
fn the_swap_rebuilds_from_the_boot_config() {
    let h = serving_handle(WebProtectionConfig {
        allowlist: strings(&["good.example"]),
        ..config()
    });
    let plan = apply_refresh_report(&h, RefreshReport { changed: true })
        .expect("a changed report on a serving handle must swap");
    assert!(matches!(&plan[..], [ListLoad::Allow(a)] if a == "good.example"));
    assert!(h.boot_config().is_some());
}

#[test]
fn without_an_engine_there_is_nothing_to_swap() {
    let h = WebProtectionHandle { engine: false, ..serving_handle(config()) };
    assert!(apply_refresh_report(&h, RefreshReport { changed: true }).is_none());
    let h = WebProtectionHandle { boot_config: None, ..serving_handle(config()) };
    assert!(apply_refresh_report(&h, RefreshReport { changed: true }).is_none());
}

#[test]
fn counts_are_live_while_serving_with_and_without_a_watchdog() {
    let h = WebProtectionHandle {
        resolved_upstreams: strings(&["old"]),
        upstreams_healthy: 1,
        upstreams_total: 1,
        ..handle(ProxyState::Serving, "")
    };
    let s = h.status(live(&["a", "b", "c"], None));
    assert_eq!((s.upstreams_total, s.upstreams_healthy), (3, 3));
    assert_eq!(s.upstreams, ["a", "b", "c"]);
    let s = h.status(live(&["a", "b"], Some(WatchdogState::default())));
    assert_eq!((s.upstreams_total, s.upstreams_healthy), (2, 2));
}

#[test]
fn leaving_out_an_entry_leaves_out_its_step() {
    let plan = |allow: &[&str], block: &[&str]| -> Vec<String> {
        let cfg = WebProtectionConfig {
            allowlist: strings(allow),
            blocklists: strings(block),
            ..config()
        };
        load_lists(&cfg).iter().map(|l| format!("{l:?}")).collect()
    };
    let mut whole = plan(&["a", "bad", "c"], &["x", "gone|suffix", "z"]);
    whole.remove(4);
    whole.remove(1);
    assert_eq!(whole, plan(&["a", "c"], &["x", "z"]));
}

#[test]
fn a_watchdog_without_a_live_list_counts_the_list_shown() {
    let h = WebProtectionHandle {
        resolved_upstreams: strings(&["a"]),
        upstreams_healthy: 4,
        upstreams_total: 5,
        ..handle(ProxyState::Serving, "")
    };
    let s = h.status(LiveFacts { watchdog: Some(WatchdogState::default()), ..nothing_live() });
    assert_eq!((s.upstreams_total, s.upstreams_healthy), (1, 1));
    let s = h.status(nothing_live());
    assert_eq!((s.upstreams_total, s.upstreams_healthy), (5, 4));
}
