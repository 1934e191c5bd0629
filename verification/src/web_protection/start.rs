//! One attempt at bringing web protection up, and taking it down again.
//!
//! A start either ends with a proxy that serves, or with a refusal that says
//! why. A rule is only ever asked for once the self-test passed, and a start
//! that does not serve first asks for a rule of an earlier run to be taken
//! away: a rule that points at a port where nothing answers leaves the
//! machine without DNS.
use vstd::prelude::*;

use crate::text::{same_text, texts};
use crate::web_protection::rule::Endpoint;
use crate::web_protection::service::{
    classify_discovery, classify_self_test, BlockResponse, DiscoveryError, LiveFacts, RefusalKind,
    SelfTestReport, WebProtectionConfig, WebProtectionHandle, BLOCK_RESPONSE_ZERO_IP,
};
use crate::web_protection::status::{ProxyState, WebProtectionStatus, DISABLED_DETAIL};

verus! {

/// The detail line of a refusal that came without a reason.
pub const REFUSED_DETAIL: &'static str = "web protection refused to start";

/// The detail line of a failed self-test that came without a reason.
pub const SELF_TEST_DETAIL: &'static str = "self-test failed";

/// A reason, or another text where there is none.
pub open spec fn told(reason: Seq<char>, otherwise: Seq<char>) -> Seq<char> {
    if reason.len() == 0 {
        otherwise
    } else {
        reason
    }
}

/// A reason, or another text where there is none.
fn tell(reason: String, otherwise: &str) -> (r: String)
    ensures
        r@ == told(reason@, otherwise@),
{
    if reason.as_str().is_empty() {
        otherwise.to_owned()
    } else {
        reason
    }
}

/// A running, refused or disabled web-protection subsystem.
#[derive(Debug)]
pub struct WebProtection {
    pub handle: WebProtectionHandle,
    /// `Some` exactly for a refused start.
    pub refusal: Option<RefusalKind>,
    /// A watchdog task runs.
    pub watchdog: bool,
    /// An upstream refresher task runs.
    pub refresher: bool,
    /// The serving loops can be told to stop.
    pub shutdown: bool,
    /// A serving task runs.
    pub task: bool,
}

/// Where the live data of a start has come to.
#[derive(Debug)]
pub struct Candidate {
    pub cfg: WebProtectionConfig,
    pub upstreams: Vec<String>,
    pub bound: Endpoint,
    pub rules_loaded: u64,
}

/// Where a start stands. All but the last ask for something to be done and
/// answered.
#[derive(Debug)]
pub enum StartRun {
    /// Parse the configured listen address.
    ParseListen { cfg: WebProtectionConfig },
    /// Find the upstreams to forward to.
    ResolveUpstreams { cfg: WebProtectionConfig, listen: Endpoint },
    /// Load the lists and bind the proxy.
    Bind {
        cfg: WebProtectionConfig,
        listen: Endpoint,
        upstreams: Vec<String>,
        block_response: BlockResponse,
    },
    /// Run the self-test.
    SelfTest { proxy: Candidate },
    /// Start the refresher and the serving loops.
    Serve { proxy: Candidate, healthy: usize, total: usize },
    /// Look for group policy rules.
    CheckPolicy { proxy: Candidate, healthy: usize, total: usize },
    /// Install the rule for the bound address.
    InstallRule { proxy: Candidate, healthy: usize, total: usize },
    /// Start the watchdog of the installed rule.
    Watch { proxy: Candidate, healthy: usize, total: usize, guid: String },
    /// Take away a rule of an earlier run, and then end with `outcome`.
    ReconcileOrphan { reason: String, outcome: WebProtection },
    /// The start is over.
    Done { outcome: WebProtection },
}

/// The answer to what a [`StartRun`] asked for.
#[derive(Debug)]
pub enum StartEvent {
    ListenParsed(Result<Endpoint, String>),
    UpstreamsResolved(Result<Vec<String>, DiscoveryFailure>),
    Bound(Result<BoundProxy, String>),
    SelfTested(SelfTestReport),
    ServingStarted,
    PolicyChecked(Result<bool, String>),
    RuleInstalled(Result<String, String>),
    WatchdogStarted,
    OrphanReconciled,
}

/// A bound proxy: its address and how many rules its engine holds.
#[derive(Debug)]
pub struct BoundProxy {
    pub bound: Endpoint,
    pub rules_loaded: u64,
}

/// A discovery error and how it reads.
#[derive(Debug)]
pub struct DiscoveryFailure {
    pub error: DiscoveryError,
    pub text: String,
}

impl WebProtection {
    /// Nothing runs and nothing was ever bound.
    pub open spec fn is_inert(
        self,
        enabled: bool,
        state: ProxyState,
        detail: Seq<char>,
        refusal: Option<RefusalKind>,
    ) -> bool {
        &&& self.handle.enabled == enabled
        &&& self.handle.state == state
        &&& self.handle.detail@ == detail
        &&& self.handle.listen is None
        &&& self.handle.resolved_upstreams@.len() == 0
        &&& self.handle.upstreams_healthy == 0
        &&& self.handle.upstreams_total == 0
        &&& self.handle.rules_loaded == 0
        &&& !self.handle.engine
        &&& self.handle.rule_guid is None
        &&& self.handle.boot_config is None
        &&& self.refusal == refusal
        &&& !self.watchdog
        &&& !self.refresher
        &&& !self.shutdown
        &&& !self.task
    }

    /// A start whose proxy failed its self-test.
    pub open spec fn is_untested(self, proxy: Candidate, report: SelfTestReport) -> bool {
        &&& self.handle.enabled
        &&& self.handle.state == ProxyState::SelfTestFailed
        &&& self.handle.detail@ == told(report.detail@, SELF_TEST_DETAIL@)
        &&& self.handle.listen == Some(proxy.bound.text)
        &&& self.handle.resolved_upstreams == proxy.upstreams
        &&& self.handle.upstreams_healthy == report.upstreams_healthy
        &&& self.handle.upstreams_total == report.upstreams_total
        &&& self.handle.rules_loaded == proxy.rules_loaded
        &&& self.handle.engine
        &&& self.handle.rule_guid is None
        &&& self.handle.boot_config == Some(proxy.cfg)
        &&& self.refusal == Some(
            if report.engine_ok {
                RefusalKind::Transient
            } else {
                RefusalKind::Config
            },
        )
        &&& !self.watchdog
        &&& !self.refresher
        &&& !self.shutdown
        &&& !self.task
    }

    /// A proxy that serves, with the rule `guid` where one was installed.
    pub open spec fn is_serving(
        self,
        proxy: Candidate,
        healthy: usize,
        total: usize,
        guid: Option<String>,
    ) -> bool {
        &&& self.handle.enabled
        &&& self.handle.state == ProxyState::Serving
        &&& self.handle.detail@.len() == 0
        &&& self.handle.listen == Some(proxy.bound.text)
        &&& self.handle.resolved_upstreams == proxy.upstreams
        &&& self.handle.upstreams_healthy == healthy
        &&& self.handle.upstreams_total == total
        &&& self.handle.rules_loaded == proxy.rules_loaded
        &&& self.handle.engine
        &&& self.handle.rule_guid == guid
        &&& self.handle.boot_config == Some(proxy.cfg)
        &&& self.refusal is None
        &&& self.watchdog == guid is Some
        &&& self.refresher
        &&& self.shutdown
        &&& self.task
    }

    /// What holds of every subsystem that a start ends with: it serves, or it
    /// was refused, or it was never asked for; only one that serves has a
    /// rule, and a rule always has a watchdog.
    pub open spec fn well_formed(self) -> bool {
        &&& self.refusal is Some <==> self.handle.enabled && self.handle.state
            != ProxyState::Serving
        &&& !self.handle.enabled ==> self.handle.state == ProxyState::Disabled
        &&& self.handle.rule_guid is Some ==> self.handle.state == ProxyState::Serving
            && self.watchdog
        &&& self.watchdog ==> self.handle.rule_guid is Some
        &&& self.shutdown == (self.handle.state == ProxyState::Serving)
        &&& self.task == (self.handle.state == ProxyState::Serving)
        &&& self.refresher == (self.handle.state == ProxyState::Serving)
        &&& self.handle.engine <==> self.handle.boot_config is Some
        &&& self.handle.state == ProxyState::Serving ==> self.handle.engine
        &&& self.handle.well_formed()
    }

    fn inert(
        enabled: bool,
        state: ProxyState,
        detail: String,
        refusal: Option<RefusalKind>,
    ) -> (r: WebProtection)
        ensures
            r.is_inert(enabled, state, detail@, refusal),
    {
        WebProtection {
            handle: WebProtectionHandle {
                enabled,
                state,
                detail,
                listen: None,
                resolved_upstreams: Vec::new(),
                upstreams_healthy: 0,
                upstreams_total: 0,
                rules_loaded: 0,
                engine: false,
                rule_guid: None,
                boot_config: None,
            },
            refusal,
            watchdog: false,
            refresher: false,
            shutdown: false,
            task: false,
        }
    }

    /// Not enabled, nothing running.
    pub fn disabled() -> (r: WebProtection)
        ensures
            r.is_inert(false, ProxyState::Disabled, DISABLED_DETAIL@, None),
            r.well_formed(),
    {
        proof {
            reveal_strlit("web protection disabled");
        }
        WebProtection::inert(false, ProxyState::Disabled, DISABLED_DETAIL.to_owned(), None)
    }

    /// Enabled but refused, with the reason. `enabled` stays true: the user
    /// did ask for this.
    pub fn refused(state: ProxyState, detail: String, kind: RefusalKind) -> (r: WebProtection)
        ensures
            r.is_inert(true, state, told(detail@, REFUSED_DETAIL@), Some(kind)),
            state != ProxyState::Serving ==> r.well_formed(),
    {
        proof {
            reveal_strlit("web protection refused to start");
        }
        WebProtection::inert(true, state, tell(detail, REFUSED_DETAIL), Some(kind))
    }

    /// The read-only half of the subsystem.
    pub fn handle(&self) -> (r: &WebProtectionHandle)
        ensures
            *r == self.handle,
    {
        &self.handle
    }

    /// Starts bringing web protection up.
    pub fn start(cfg: WebProtectionConfig) -> (r: StartRun)
        ensures
            start_begins(cfg, r),
    {
        if !cfg.enabled {
            return StartRun::ReconcileOrphan {
                reason: DISABLED_DETAIL.to_owned(),
                outcome: WebProtection::disabled(),
            };
        }
        StartRun::ParseListen { cfg }
    }

    /// Stops serving: what has to be done, in order. The rule goes first, so
    /// that it never points at a socket that is already closed.
    pub fn stop(&mut self) -> (r: Vec<StopStep>)
        ensures
            r@ == stop_plan(*old(self)),
            final(self).handle == old(self).handle,
            final(self).refusal == old(self).refusal,
            !final(self).shutdown,
            final(self).watchdog == (old(self).watchdog && !old(self).shutdown),
            final(self).refresher == (old(self).refresher && !old(self).shutdown),
            final(self).task == (old(self).task && !old(self).shutdown),
            is_stopped(*old(self), *final(self)),
    {
        let mut plan: Vec<StopStep> = Vec::new();
        match &self.handle.rule_guid {
            Some(guid) => plan.push(StopStep::RemoveRule(guid.clone())),
            None => {},
        }
        if self.shutdown {
            self.shutdown = false;
            plan.push(StopStep::SignalShutdown);
            if self.watchdog {
                self.watchdog = false;
                plan.push(StopStep::AbortWatchdog);
            }
            if self.refresher {
                self.refresher = false;
                plan.push(StopStep::AbortRefresher);
            }
            if self.task {
                self.task = false;
                plan.push(StopStep::JoinServing);
            }
        }
        proof {
            assert(plan@ =~= stop_plan(*old(self)));
        }
        plan
    }
}

/// A subsystem after it was taken down.
pub open spec fn is_stopped(before: WebProtection, after: WebProtection) -> bool {
    after == (WebProtection {
        shutdown: false,
        watchdog: before.watchdog && !before.shutdown,
        refresher: before.refresher && !before.shutdown,
        task: before.task && !before.shutdown,
        ..before
    })
}

/// A step of taking web protection down.
#[derive(Debug)]
pub enum StopStep {
    /// Remove the rule; a failure is left to the boot reconciler.
    RemoveRule(String),
    /// Tell the serving loops to stop.
    SignalShutdown,
    AbortWatchdog,
    AbortRefresher,
    /// Wait, for a bounded time, until the serving loops ended.
    JoinServing,
}

/// A step, if it is due.
pub open spec fn step_if(due: bool, step: StopStep) -> Seq<StopStep> {
    if due {
        seq![step]
    } else {
        Seq::empty()
    }
}

/// How a subsystem is taken down.
pub open spec fn stop_plan(wp: WebProtection) -> Seq<StopStep> {
    (match wp.handle.rule_guid {
        Some(guid) => seq![StopStep::RemoveRule(guid)],
        None => Seq::empty(),
    }) + if wp.shutdown {
        seq![StopStep::SignalShutdown] + step_if(wp.watchdog, StopStep::AbortWatchdog) + step_if(
            wp.refresher,
            StopStep::AbortRefresher,
        ) + step_if(wp.task, StopStep::JoinServing)
    } else {
        Seq::empty()
    }
}

/// Where a start begins.
pub open spec fn start_begins(cfg: WebProtectionConfig, run: StartRun) -> bool {
    if cfg.enabled {
        run == (StartRun::ParseListen { cfg })
    } else {
        &&& run matches StartRun::ReconcileOrphan { reason, outcome }
        &&& reason@ == DISABLED_DETAIL@
        &&& outcome.is_inert(false, ProxyState::Disabled, DISABLED_DETAIL@, None)
    }
}

/// A refused start: an orphaned rule is looked for first.
pub open spec fn refuses(
    run: StartRun,
    state: ProxyState,
    detail: Seq<char>,
    kind: RefusalKind,
) -> bool {
    &&& run matches StartRun::ReconcileOrphan { reason, outcome }
    &&& reason@ == detail
    &&& outcome.is_inert(true, state, told(detail, REFUSED_DETAIL@), Some(kind))
}

/// How the configuration wants a blocked name answered.
pub open spec fn block_response_of(setting: Seq<char>) -> BlockResponse {
    if setting == BLOCK_RESPONSE_ZERO_IP@ {
        BlockResponse::ZeroIp
    } else {
        BlockResponse::Nxdomain
    }
}

/// One step of a start. An answer to something that was not asked for changes
/// nothing.
pub open spec fn start_steps(before: StartRun, event: StartEvent, after: StartRun) -> bool {
    match (before, event) {
        (StartRun::ParseListen { cfg }, StartEvent::ListenParsed(result)) => match result {
            Ok(listen) => after == (StartRun::ResolveUpstreams { cfg, listen }),
            Err(e) => refuses(
                after,
                ProxyState::Disabled,
                "listen: "@ + e@,
                RefusalKind::Config,
            ),
        },
        (
            StartRun::ResolveUpstreams { cfg, listen },
            StartEvent::UpstreamsResolved(result),
        ) => match result {
            Ok(upstreams) => after == (StartRun::Bind {
                cfg,
                listen,
                upstreams,
                block_response: block_response_of(cfg.block_response@),
            }),
            Err(failure) => refuses(
                after,
                ProxyState::Disabled,
                failure.text@,
                RefusalKind::Transient,
            ),
        },
        (StartRun::Bind { cfg, listen, upstreams, .. }, StartEvent::Bound(result)) => match result {
            Ok(p) => after == (StartRun::SelfTest {
                proxy: Candidate {
                    cfg,
                    upstreams,
                    bound: p.bound,
                    rules_loaded: p.rules_loaded,
                },
            }),
            Err(e) => refuses(
                after,
                ProxyState::BindFailed,
                "bind "@ + listen.text@ + ": "@ + e@,
                RefusalKind::Transient,
            ),
        },
        (StartRun::SelfTest { proxy }, StartEvent::SelfTested(report)) => if report.ok {
            after == (StartRun::Serve {
                proxy,
                healthy: report.upstreams_healthy,
                total: report.upstreams_total,
            })
        } else {
            &&& after matches StartRun::ReconcileOrphan { reason, outcome }
            &&& reason@ == SELF_TEST_DETAIL@
            &&& outcome.is_untested(proxy, report)
        },
        (StartRun::Serve { proxy, healthy, total }, StartEvent::ServingStarted) => after == (
        StartRun::CheckPolicy { proxy, healthy, total }),
        (StartRun::CheckPolicy { proxy, healthy, total }, StartEvent::PolicyChecked(_)) => after
            == (StartRun::InstallRule { proxy, healthy, total }),
        (
            StartRun::InstallRule { proxy, healthy, total },
            StartEvent::RuleInstalled(result),
        ) => match result {
            Ok(guid) => after == (StartRun::Watch { proxy, healthy, total, guid }),
            Err(_) => after matches StartRun::Done { outcome } && outcome.is_serving(
                proxy,
                healthy,
                total,
                None,
            ),
        },
        (StartRun::Watch { proxy, healthy, total, guid }, StartEvent::WatchdogStarted) => after
            matches StartRun::Done { outcome } && outcome.is_serving(
            proxy,
            healthy,
            total,
            Some(guid),
        ),
        (StartRun::ReconcileOrphan { outcome, .. }, StartEvent::OrphanReconciled) => after == (
        StartRun::Done { outcome }),
        _ => after == before,
    }
}

/// A refusal, behind the search for an orphaned rule.
fn refusal(state: ProxyState, detail: String, kind: RefusalKind) -> (r: StartRun)
    ensures
        refuses(r, state, detail@, kind),
{
    let reason: String = detail.clone();
    StartRun::ReconcileOrphan { reason, outcome: WebProtection::refused(state, detail, kind) }
}

/// A subsystem that serves.
fn serving(proxy: Candidate, healthy: usize, total: usize, guid: Option<String>) -> (r:
    WebProtection)
    ensures
        r.is_serving(proxy, healthy, total, guid),
{
    let watchdog: bool = guid.is_some();
    WebProtection {
        handle: WebProtectionHandle {
            enabled: true,
            state: ProxyState::Serving,
            detail: String::new(),
            listen: Some(proxy.bound.text),
            resolved_upstreams: proxy.upstreams,
            upstreams_healthy: healthy,
            upstreams_total: total,
            rules_loaded: proxy.rules_loaded,
            engine: true,
            rule_guid: guid,
            boot_config: Some(proxy.cfg),
        },
        refusal: None,
        watchdog,
        refresher: true,
        shutdown: true,
        task: true,
    }
}

/// A start whose proxy failed its self-test. The engine stays, so that the
/// status can tell a list that did not load from an upstream that is dead.
fn untested(proxy: Candidate, report: SelfTestReport) -> (r: StartRun)
    ensures
        r matches StartRun::ReconcileOrphan { reason, outcome } && reason@ == SELF_TEST_DETAIL@
            && outcome.is_untested(proxy, report),
{
    let kind: RefusalKind = classify_self_test(&report);
    StartRun::ReconcileOrphan {
        reason: SELF_TEST_DETAIL.to_owned(),
        outcome: WebProtection {
            handle: WebProtectionHandle {
                enabled: true,
                state: ProxyState::SelfTestFailed,
                detail: tell(report.detail, SELF_TEST_DETAIL),
                listen: Some(proxy.bound.text),
                resolved_upstreams: proxy.upstreams,
                upstreams_healthy: report.upstreams_healthy,
                upstreams_total: report.upstreams_total,
                rules_loaded: proxy.rules_loaded,
                engine: true,
                rule_guid: None,
                boot_config: Some(proxy.cfg),
            },
            refusal: Some(kind),
            watchdog: false,
            refresher: false,
            shutdown: false,
            task: false,
        },
    }
}

impl StartRun {
    /// Takes the answer to what was asked for.
    pub fn step(self, event: StartEvent) -> (r: StartRun)
        ensures
            start_steps(self, event, r),
    {
        match (self, event) {
            (StartRun::ParseListen { cfg }, StartEvent::ListenParsed(result)) => match result {
                Ok(listen) => StartRun::ResolveUpstreams { cfg, listen },
                Err(e) => {
                    let mut detail: String = "listen: ".to_owned();
                    detail.append(e.as_str());
                    refusal(ProxyState::Disabled, detail, RefusalKind::Config)
                },
            },
            (
                StartRun::ResolveUpstreams { cfg, listen },
                StartEvent::UpstreamsResolved(result),
            ) => match result {
                Ok(upstreams) => {
                    let block_response: BlockResponse = if same_text(
                        cfg.block_response.as_str(),
                        BLOCK_RESPONSE_ZERO_IP,
                    ) {
                        BlockResponse::ZeroIp
                    } else {
                        BlockResponse::Nxdomain
                    };
                    StartRun::Bind { cfg, listen, upstreams, block_response }
                },
                Err(failure) => {
                    let kind: RefusalKind = classify_discovery(&failure.error);
                    refusal(ProxyState::Disabled, failure.text, kind)
                },
            },
            (
                StartRun::Bind { cfg, listen, upstreams, block_response },
                StartEvent::Bound(result),
            ) => match result {
                Ok(p) => StartRun::SelfTest {
                    proxy: Candidate {
                        cfg,
                        upstreams,
                        bound: p.bound,
                        rules_loaded: p.rules_loaded,
                    },
                },
                Err(e) => {
                    let mut detail: String = "bind ".to_owned();
                    detail.append(listen.text.as_str());
                    detail.append(": ");
                    detail.append(e.as_str());
                    refusal(ProxyState::BindFailed, detail, RefusalKind::Transient)
                },
            },
            (StartRun::SelfTest { proxy }, StartEvent::SelfTested(report)) => {
                if report.ok {
                    StartRun::Serve {
                        proxy,
                        healthy: report.upstreams_healthy,
                        total: report.upstreams_total,
                    }
                } else {
                    untested(proxy, report)
                }
            },
            (StartRun::Serve { proxy, healthy, total }, StartEvent::ServingStarted) => {
                StartRun::CheckPolicy { proxy, healthy, total }
            },
            (StartRun::CheckPolicy { proxy, healthy, total }, StartEvent::PolicyChecked(_)) => {
                StartRun::InstallRule { proxy, healthy, total }
            },
            (
                StartRun::InstallRule { proxy, healthy, total },
                StartEvent::RuleInstalled(result),
            ) => match result {
                Ok(guid) => StartRun::Watch { proxy, healthy, total, guid },
                Err(_) => StartRun::Done { outcome: serving(proxy, healthy, total, None) },
            },
            (StartRun::Watch { proxy, healthy, total, guid }, StartEvent::WatchdogStarted) => {
                StartRun::Done { outcome: serving(proxy, healthy, total, Some(guid)) }
            },
            (StartRun::ReconcileOrphan { reason, outcome }, StartEvent::OrphanReconciled) => {
                StartRun::Done { outcome }
            },
            (run, _) => run,
        }
    }
}

/// A history of a start: what it asked for at each point, and the answers in
/// between.
pub open spec fn is_start_history(
    cfg: WebProtectionConfig,
    runs: Seq<StartRun>,
    events: Seq<StartEvent>,
) -> bool {
    &&& runs.len() == events.len() + 1
    &&& start_begins(cfg, runs[0])
    &&& forall|i: int|
        #![trigger events[i]]
        0 <= i < events.len() ==> start_steps(runs[i], events[i], runs[i + 1])
}

/// The self-test passed.
pub open spec fn self_test_passed(event: StartEvent) -> bool {
    event matches StartEvent::SelfTested(report) && report.ok
}

/// The self-test passed before point `k` of a history.
pub open spec fn tested_before(events: Seq<StartEvent>, k: int) -> bool {
    exists|i: int| 0 <= i < k && self_test_passed(#[trigger] events[i])
}

/// The start has got past its self-test.
pub open spec fn past_self_test(run: StartRun) -> bool {
    match run {
        StartRun::Serve { .. } => true,
        StartRun::CheckPolicy { .. } => true,
        StartRun::InstallRule { .. } => true,
        StartRun::Watch { .. } => true,
        StartRun::Done { outcome } => outcome.handle.state == ProxyState::Serving,
        _ => false,
    }
}

/// Nothing is served and no rule is asked for unless the self-test passed in
/// this very attempt.
pub proof fn a_rule_needs_a_passing_self_test(
    cfg: WebProtectionConfig,
    runs: Seq<StartRun>,
    events: Seq<StartEvent>,
    k: int,
)
    requires
        is_start_history(cfg, runs, events),
        0 <= k < runs.len(),
    ensures
        past_self_test(runs[k]) ==> tested_before(events, k),
        runs[k] matches StartRun::ReconcileOrphan { outcome, .. } ==> outcome.handle.state
            != ProxyState::Serving,
    decreases k,
{
    if k > 0 {
        a_rule_needs_a_passing_self_test(cfg, runs, events, k - 1);
        assert(start_steps(runs[k - 1], events[k - 1], runs[k]));
        if past_self_test(runs[k]) {
            if past_self_test(runs[k - 1]) {
                let i = choose|i: int| 0 <= i < k - 1 && self_test_passed(#[trigger] events[i]);
                assert(self_test_passed(events[i]));
            } else {
                assert(self_test_passed(events[k - 1]));
            }
        }
    }
}

/// Whatever comes back, a start ends well-formed: it serves, was refused with
/// `enabled` kept, or was never asked for.
pub proof fn a_start_ends_well_formed(
    cfg: WebProtectionConfig,
    runs: Seq<StartRun>,
    events: Seq<StartEvent>,
    k: int,
)
    requires
        is_start_history(cfg, runs, events),
        0 <= k < runs.len(),
    ensures
        runs[k] matches StartRun::Done { outcome } ==> outcome.well_formed()
            && outcome.handle.enabled == cfg.enabled,
        runs[k] matches StartRun::ReconcileOrphan { outcome, .. } ==> outcome.well_formed()
            && outcome.handle.enabled == cfg.enabled,
        !(runs[k] is Done) && !(runs[k] is ReconcileOrphan) ==> cfg.enabled,
    decreases k,
{
    reveal_strlit("web protection disabled");
    reveal_strlit("web protection refused to start");
    reveal_strlit("self-test failed");
    if k > 0 {
        a_start_ends_well_formed(cfg, runs, events, k - 1);
        assert(start_steps(runs[k - 1], events[k - 1], runs[k]));
    }
}

/// A start that does not serve has asked for an orphaned rule to be taken
/// away, and been answered, before it ends.
pub proof fn a_start_that_does_not_serve_reconciles(
    cfg: WebProtectionConfig,
    runs: Seq<StartRun>,
    events: Seq<StartEvent>,
    k: int,
)
    requires
        is_start_history(cfg, runs, events),
        0 <= k < runs.len(),
    ensures
        runs[k] matches StartRun::Done { outcome } ==> outcome.handle.state == ProxyState::Serving
            || exists|i: int|
            0 <= i < k && runs[i] is ReconcileOrphan && #[trigger] events[i]
                == StartEvent::OrphanReconciled,
    decreases k,
{
    if k > 0 {
        a_start_that_does_not_serve_reconciles(cfg, runs, events, k - 1);
        assert(start_steps(runs[k - 1], events[k - 1], runs[k]));
        if let StartRun::Done { outcome } = runs[k] {
            if outcome.handle.state != ProxyState::Serving {
                if runs[k - 1] is ReconcileOrphan {
                    assert(events[k - 1] == StartEvent::OrphanReconciled);
                } else {
                    let i = choose|i: int|
                        0 <= i < k - 1 && runs[i] is ReconcileOrphan && #[trigger] events[i]
                            == StartEvent::OrphanReconciled;
                    assert(events[i] == StartEvent::OrphanReconciled);
                }
            }
        }
    }
}

/// A listen address that does not parse, and an engine that cannot decide its
/// canary, are refusals for good; every other refusal is retried.
pub proof fn only_configuration_refuses_for_good(
    before: StartRun,
    event: StartEvent,
    after: StartRun,
)
    requires
        start_steps(before, event, after),
        !(before is ReconcileOrphan),
        after is ReconcileOrphan,
    ensures
        after->ReconcileOrphan_outcome.refusal == Some(RefusalKind::Config) || after->ReconcileOrphan_outcome.refusal == Some(
            RefusalKind::Transient,
        ),
        after->ReconcileOrphan_outcome.refusal == Some(RefusalKind::Config) <==> {
            ||| event is ListenParsed
            ||| (event matches StartEvent::SelfTested(report) && !report.engine_ok)
        },
{
}

/// Group policy rules are reported, never a reason to stop: what was found
/// about them changes nothing in what follows.
pub proof fn policy_rules_do_not_stop_a_start(
    before: StartRun,
    a: StartRun,
    b: StartRun,
    found: Result<bool, String>,
    other: Result<bool, String>,
)
    requires
        before is CheckPolicy,
        start_steps(before, StartEvent::PolicyChecked(found), a),
        start_steps(before, StartEvent::PolicyChecked(other), b),
    ensures
        a == b,
        a is InstallRule,
{
}

/// On the way down the rule is removed before the serving loops are told to
/// stop, and nothing comes before it.
pub proof fn the_rule_goes_before_the_sockets(wp: WebProtection, i: int, j: int)
    requires
        0 <= i < stop_plan(wp).len(),
        0 <= j < stop_plan(wp).len(),
        stop_plan(wp)[i] is RemoveRule,
        stop_plan(wp)[j] !is RemoveRule,
    ensures
        i == 0,
        i < j,
        Some(stop_plan(wp)[i]->0) == wp.handle.rule_guid,
{
}

/// Every rule in force is removed on the way down, and every task that runs
/// is dealt with.
pub proof fn stopping_leaves_nothing_running(wp: WebProtection)
    requires
        wp.well_formed(),
    ensures
        wp.handle.rule_guid is Some ==> stop_plan(wp).len() > 0 && stop_plan(wp)[0]
            == StopStep::RemoveRule(wp.handle.rule_guid->0),
        wp.handle.state == ProxyState::Serving ==> stop_plan(wp).contains(StopStep::SignalShutdown)
            && stop_plan(wp).contains(StopStep::JoinServing) && stop_plan(wp).contains(
            StopStep::AbortRefresher,
        ) && (wp.watchdog ==> stop_plan(wp).contains(StopStep::AbortWatchdog)),
        wp.handle.state != ProxyState::Serving ==> stop_plan(wp).len() == 0,
{
    let plan = stop_plan(wp);
    if wp.handle.state == ProxyState::Serving {
        let n = plan.len() as int;
        assert(plan[n - 1] == StopStep::JoinServing);
        assert(plan[n - 2] == StopStep::AbortRefresher);
        if wp.watchdog {
            assert(plan[n - 3] == StopStep::AbortWatchdog);
            assert(plan[n - 4] == StopStep::SignalShutdown);
        } else {
            assert(plan[n - 3] == StopStep::SignalShutdown);
        }
    }
}

/// The answer is one to what the start asked for.
pub open spec fn answers(run: StartRun, event: StartEvent) -> bool {
    match run {
        StartRun::ParseListen { .. } => event is ListenParsed,
        StartRun::ResolveUpstreams { .. } => event is UpstreamsResolved,
        StartRun::Bind { .. } => event is Bound,
        StartRun::SelfTest { .. } => event is SelfTested,
        StartRun::Serve { .. } => event is ServingStarted,
        StartRun::CheckPolicy { .. } => event is PolicyChecked,
        StartRun::InstallRule { .. } => event is RuleInstalled,
        StartRun::Watch { .. } => event is WatchdogStarted,
        StartRun::ReconcileOrphan { .. } => event is OrphanReconciled,
        StartRun::Done { .. } => false,
    }
}

/// The start was given this answer, to the question that it asked, before point
/// `k` of its history.
pub open spec fn was_told(
    runs: Seq<StartRun>,
    events: Seq<StartEvent>,
    k: int,
    event: StartEvent,
) -> bool {
    exists|i: int| 0 <= i < k && #[trigger] events[i] == event && answers(runs[i], event)
}

proof fn lemma_told(runs: Seq<StartRun>, events: Seq<StartEvent>, k: int, event: StartEvent)
    requires
        was_told(runs, events, k, event),
    ensures
        was_told(runs, events, k + 1, event),
{
    let i = choose|i: int|
        0 <= i < k && #[trigger] events[i] == event && answers(runs[i], event);
    assert(events[i] == event);
}

proof fn lemma_just_told(runs: Seq<StartRun>, events: Seq<StartEvent>, k: int)
    requires
        0 <= k < events.len(),
        answers(runs[k], events[k]),
    ensures
        was_told(runs, events, k + 1, events[k]),
{
}

/// The candidate of a start, where it has one.
pub open spec fn candidate_of(run: StartRun) -> Option<Candidate> {
    match run {
        StartRun::SelfTest { proxy } => Some(proxy),
        StartRun::Serve { proxy, .. } => Some(proxy),
        StartRun::CheckPolicy { proxy, .. } => Some(proxy),
        StartRun::InstallRule { proxy, .. } => Some(proxy),
        StartRun::Watch { proxy, .. } => Some(proxy),
        _ => None,
    }
}

/// The outcome of a start, where it has come to one.
pub open spec fn outcome_in(run: StartRun) -> Option<WebProtection> {
    match run {
        StartRun::ReconcileOrphan { outcome, .. } => Some(outcome),
        StartRun::Done { outcome } => Some(outcome),
        _ => None,
    }
}

/// A start forwards to the upstreams that it was told, and to no others: they are
/// what it binds with, what its candidate has in every later stage, and what is
/// reported of a proxy that was bound. One that was never bound reports none.
pub proof fn the_upstreams_are_those_that_were_found(
    cfg: WebProtectionConfig,
    runs: Seq<StartRun>,
    events: Seq<StartEvent>,
    k: int,
)
    requires
        is_start_history(cfg, runs, events),
        0 <= k < runs.len(),
    ensures
        runs[k] matches StartRun::Bind { upstreams, .. } ==> was_told(
            runs,
            events,
            k,
            StartEvent::UpstreamsResolved(Ok(upstreams)),
        ),
        candidate_of(runs[k]) matches Some(proxy) ==> was_told(
            runs,
            events,
            k,
            StartEvent::UpstreamsResolved(Ok(proxy.upstreams)),
        ),
        outcome_in(runs[k]) matches Some(outcome) ==> if outcome.handle.listen is Some {
            was_told(
                runs,
                events,
                k,
                StartEvent::UpstreamsResolved(Ok(outcome.handle.resolved_upstreams)),
            )
        } else {
            outcome.handle.resolved_upstreams@.len() == 0
        },
    decreases k,
{
    if k > 0 {
        let before = k - 1;
        the_upstreams_are_those_that_were_found(cfg, runs, events, before);
        assert(start_steps(runs[before], events[before], runs[k]));
        if answers(runs[before], events[before]) {
            lemma_just_told(runs, events, before);
        }
        if let StartRun::Bind { upstreams, .. } = runs[before] {
            lemma_told(runs, events, before, StartEvent::UpstreamsResolved(Ok(upstreams)));
        }
        if let Some(proxy) = candidate_of(runs[before]) {
            lemma_told(runs, events, before, StartEvent::UpstreamsResolved(Ok(proxy.upstreams)));
        }
        if let Some(outcome) = outcome_in(runs[before]) {
            if outcome.handle.listen is Some {
                lemma_told(
                    runs,
                    events,
                    before,
                    StartEvent::UpstreamsResolved(Ok(outcome.handle.resolved_upstreams)),
                );
            }
        }
    }
}

/// A start keeps to its configuration, binds the address that it was told, and
/// answers a blocked name with the zero address exactly where it is configured so.
pub proof fn a_start_binds_what_it_was_told(
    cfg: WebProtectionConfig,
    runs: Seq<StartRun>,
    events: Seq<StartEvent>,
    k: int,
)
    requires
        is_start_history(cfg, runs, events),
        0 <= k < runs.len(),
    ensures
        runs[k] matches StartRun::ParseListen { cfg: c } ==> c == cfg,
        runs[k] matches StartRun::ResolveUpstreams { cfg: c, listen } ==> c == cfg && was_told(
            runs,
            events,
            k,
            StartEvent::ListenParsed(Ok(listen)),
        ),
        runs[k] matches StartRun::Bind { cfg: c, listen, block_response, .. } ==> {
            &&& c == cfg
            &&& was_told(runs, events, k, StartEvent::ListenParsed(Ok(listen)))
            &&& block_response == BlockResponse::ZeroIp <==> cfg.block_response@ == "zero_ip"@
        },
    decreases k,
{
    if k > 0 {
        let before = k - 1;
        a_start_binds_what_it_was_told(cfg, runs, events, before);
        assert(start_steps(runs[before], events[before], runs[k]));
        if answers(runs[before], events[before]) {
            lemma_just_told(runs, events, before);
        }
        match runs[before] {
            StartRun::ResolveUpstreams { listen, .. } => {
                lemma_told(runs, events, before, StartEvent::ListenParsed(Ok(listen)));
            },
            StartRun::Bind { listen, .. } => {
                lemma_told(runs, events, before, StartEvent::ListenParsed(Ok(listen)));
            },
            _ => {},
        }
    }
}

/// The candidate of a start has the configuration of the start and what binding
/// gave: the address and the number of rules. An outcome that was bound reports
/// the same, and one that was not reports neither.
pub proof fn what_was_bound_is_what_is_reported(
    cfg: WebProtectionConfig,
    runs: Seq<StartRun>,
    events: Seq<StartEvent>,
    k: int,
)
    requires
        is_start_history(cfg, runs, events),
        0 <= k < runs.len(),
    ensures
        candidate_of(runs[k]) matches Some(proxy) ==> proxy.cfg == cfg && was_told(
            runs,
            events,
            k,
            StartEvent::Bound(
                Ok(BoundProxy { bound: proxy.bound, rules_loaded: proxy.rules_loaded }),
            ),
        ),
        outcome_in(runs[k]) matches Some(outcome) ==> if outcome.handle.listen is Some {
            &&& outcome.handle.boot_config == Some(cfg)
            &&& outcome.handle.engine
            &&& exists|p: BoundProxy| #[trigger]
                was_told(runs, events, k, StartEvent::Bound(Ok(p))) && outcome.handle.listen
                    == Some(p.bound.text) && outcome.handle.rules_loaded == p.rules_loaded
        } else {
            &&& outcome.handle.boot_config is None
            &&& !outcome.handle.engine
            &&& outcome.handle.rules_loaded == 0
        },
    decreases k,
{
    if k > 0 {
        let before = k - 1;
        what_was_bound_is_what_is_reported(cfg, runs, events, before);
        a_start_binds_what_it_was_told(cfg, runs, events, before);
        assert(start_steps(runs[before], events[before], runs[k]));
        if answers(runs[before], events[before]) {
            lemma_just_told(runs, events, before);
        }
        if let Some(proxy) = candidate_of(runs[before]) {
            let p = BoundProxy { bound: proxy.bound, rules_loaded: proxy.rules_loaded };
            lemma_told(runs, events, before, StartEvent::Bound(Ok(p)));
        }
        if let Some(outcome) = outcome_in(runs[before]) {
            if outcome.handle.listen is Some {
                let p = choose|p: BoundProxy| #[trigger]
                    was_told(runs, events, before, StartEvent::Bound(Ok(p)))
                        && outcome.handle.listen == Some(p.bound.text)
                        && outcome.handle.rules_loaded == p.rules_loaded;
                lemma_told(runs, events, before, StartEvent::Bound(Ok(p)));
            }
        }
        if let StartRun::Bind { .. } = runs[before] {
            if let StartEvent::Bound(Ok(p)) = events[before] {
                assert(p == (BoundProxy { bound: p.bound, rules_loaded: p.rules_loaded }));
            }
        }
    }
}

/// The numbers of upstreams that a start reports once it is past its self-test are
/// those of that self-test.
pub open spec fn counted_by_the_self_test(
    runs: Seq<StartRun>,
    events: Seq<StartEvent>,
    k: int,
    healthy: usize,
    total: usize,
    passed: bool,
) -> bool {
    exists|report: SelfTestReport| #[trigger]
        was_told(runs, events, k, StartEvent::SelfTested(report)) && report.ok == passed
            && report.upstreams_healthy == healthy && report.upstreams_total == total
}

proof fn lemma_counted(
    runs: Seq<StartRun>,
    events: Seq<StartEvent>,
    k: int,
    healthy: usize,
    total: usize,
    passed: bool,
)
    requires
        counted_by_the_self_test(runs, events, k, healthy, total, passed),
    ensures
        counted_by_the_self_test(runs, events, k + 1, healthy, total, passed),
{
    let report = choose|report: SelfTestReport| #[trigger]
        was_told(runs, events, k, StartEvent::SelfTested(report)) && report.ok == passed
            && report.upstreams_healthy == healthy && report.upstreams_total == total;
    lemma_told(runs, events, k, StartEvent::SelfTested(report));
}

/// What a start says of its upstreams' health is what its self-test found; it
/// serves only after one that passed, and a failed one is reported as that.
pub proof fn the_self_test_is_what_is_reported(
    cfg: WebProtectionConfig,
    runs: Seq<StartRun>,
    events: Seq<StartEvent>,
    k: int,
)
    requires
        is_start_history(cfg, runs, events),
        0 <= k < runs.len(),
    ensures
        runs[k] matches StartRun::Serve { healthy, total, .. } ==> counted_by_the_self_test(
            runs,
            events,
            k,
            healthy,
            total,
            true,
        ),
        runs[k] matches StartRun::CheckPolicy { healthy, total, .. } ==> counted_by_the_self_test(
            runs,
            events,
            k,
            healthy,
            total,
            true,
        ),
        runs[k] matches StartRun::InstallRule { healthy, total, .. } ==> counted_by_the_self_test(
            runs,
            events,
            k,
            healthy,
            total,
            true,
        ),
        runs[k] matches StartRun::Watch { healthy, total, .. } ==> counted_by_the_self_test(
            runs,
            events,
            k,
            healthy,
            total,
            true,
        ),
        outcome_in(runs[k]) matches Some(outcome) ==> {
            &&& outcome.handle.listen is Some <==> outcome.handle.state == ProxyState::Serving
                || outcome.handle.state == ProxyState::SelfTestFailed
            &&& outcome.handle.listen is Some ==> counted_by_the_self_test(
                runs,
                events,
                k,
                outcome.handle.upstreams_healthy,
                outcome.handle.upstreams_total,
                outcome.handle.state == ProxyState::Serving,
            )
            &&& outcome.handle.listen is None ==> outcome.handle.upstreams_healthy == 0
                && outcome.handle.upstreams_total == 0
        },
    decreases k,
{
    if k > 0 {
        let before = k - 1;
        the_self_test_is_what_is_reported(cfg, runs, events, before);
        assert(start_steps(runs[before], events[before], runs[k]));
        if answers(runs[before], events[before]) {
            lemma_just_told(runs, events, before);
        }
        match runs[before] {
            StartRun::SelfTest { .. } => {
                if let StartEvent::SelfTested(report) = events[before] {
                    assert(was_told(runs, events, k, StartEvent::SelfTested(report)));
                }
            },
            StartRun::Serve { healthy, total, .. } => {
                lemma_counted(runs, events, before, healthy, total, true);
            },
            StartRun::CheckPolicy { healthy, total, .. } => {
                lemma_counted(runs, events, before, healthy, total, true);
            },
            StartRun::InstallRule { healthy, total, .. } => {
                lemma_counted(runs, events, before, healthy, total, true);
            },
            StartRun::Watch { healthy, total, .. } => {
                lemma_counted(runs, events, before, healthy, total, true);
            },
            _ => {},
        }
        if let Some(outcome) = outcome_in(runs[before]) {
            if outcome.handle.listen is Some {
                lemma_counted(
                    runs,
                    events,
                    before,
                    outcome.handle.upstreams_healthy,
                    outcome.handle.upstreams_total,
                    outcome.handle.state == ProxyState::Serving,
                );
            }
        }
    }
}

/// A start reports a rule exactly when installing one succeeded, and under the
/// name that it was told; a watchdog runs exactly then.
pub proof fn the_rule_reported_is_the_rule_installed(
    cfg: WebProtectionConfig,
    runs: Seq<StartRun>,
    events: Seq<StartEvent>,
    k: int,
)
    requires
        is_start_history(cfg, runs, events),
        0 <= k < runs.len(),
    ensures
        runs[k] matches StartRun::Watch { guid, .. } ==> was_told(
            runs,
            events,
            k,
            StartEvent::RuleInstalled(Ok(guid)),
        ),
        outcome_in(runs[k]) matches Some(outcome) ==> {
            &&& outcome.handle.rule_guid matches Some(guid) ==> was_told(
                runs,
                events,
                k,
                StartEvent::RuleInstalled(Ok(guid)),
            )
            &&& outcome.watchdog <==> outcome.handle.rule_guid is Some
            &&& outcome.handle.rule_guid is None ==> forall|guid: String|
                !#[trigger] was_told(runs, events, k, StartEvent::RuleInstalled(Ok(guid)))
        },
        outcome_in(runs[k]) is None && runs[k] !is Watch ==> forall|guid: String|
            !#[trigger] was_told(runs, events, k, StartEvent::RuleInstalled(Ok(guid))),
    decreases k,
{
    if k > 0 {
        let before = k - 1;
        the_rule_reported_is_the_rule_installed(cfg, runs, events, before);
        assert(start_steps(runs[before], events[before], runs[k]));
        if answers(runs[before], events[before]) {
            lemma_just_told(runs, events, before);
        }
        if let StartRun::Watch { guid, .. } = runs[before] {
            lemma_told(runs, events, before, StartEvent::RuleInstalled(Ok(guid)));
        }
        if let Some(outcome) = outcome_in(runs[before]) {
            if let Some(guid) = outcome.handle.rule_guid {
                lemma_told(runs, events, before, StartEvent::RuleInstalled(Ok(guid)));
            }
        }
        assert forall|guid: String|
            !was_told(runs, events, before, StartEvent::RuleInstalled(Ok(guid))) && !(events[before]
                == StartEvent::RuleInstalled(Ok(guid)) && runs[before]
                is InstallRule) implies !#[trigger] was_told(
            runs,
            events,
            k,
            StartEvent::RuleInstalled(Ok(guid)),
        ) by {
            let event = StartEvent::RuleInstalled(Ok(guid));
            if was_told(runs, events, k, event) {
                let i = choose|i: int|
                    0 <= i < k && #[trigger] events[i] == event && answers(runs[i], event);
                assert(i < before);
                assert(was_told(runs, events, before, event));
            }
        }
    }
}

/// A start of which everything succeeds serves, with the rule that was installed,
/// all its tasks running and nothing to report.
pub proof fn a_start_of_which_everything_succeeds_serves(
    cfg: WebProtectionConfig,
    runs: Seq<StartRun>,
    events: Seq<StartEvent>,
    report: SelfTestReport,
    guid: String,
)
    requires
        is_start_history(cfg, runs, events),
        cfg.enabled,
        events.len() == 8,
        events[0] is ListenParsed && events[0]->ListenParsed_0 is Ok,
        events[1] is UpstreamsResolved && events[1]->UpstreamsResolved_0 is Ok,
        events[2] is Bound && events[2]->Bound_0 is Ok,
        events[3] == StartEvent::SelfTested(report),
        report.ok,
        events[4] == StartEvent::ServingStarted,
        events[5] is PolicyChecked,
        events[6] == StartEvent::RuleInstalled(Ok(guid)),
        events[7] == StartEvent::WatchdogStarted,
    ensures
        runs[0] is ParseListen,
        runs[1] is ResolveUpstreams,
        runs[2] is Bind,
        runs[3] is SelfTest,
        runs[4] is Serve,
        runs[5] is CheckPolicy,
        runs[6] is InstallRule,
        runs[7] is Watch,
        runs[8] matches StartRun::Done { outcome } && {
            &&& outcome.handle.state == ProxyState::Serving
            &&& outcome.handle.enabled
            &&& outcome.handle.detail@.len() == 0
            &&& outcome.handle.rule_guid == Some(guid)
            &&& outcome.handle.upstreams_healthy == report.upstreams_healthy
            &&& outcome.handle.upstreams_total == report.upstreams_total
            &&& outcome.refusal is None
            &&& outcome.watchdog && outcome.refresher && outcome.shutdown && outcome.task
        },
{
    assert(start_steps(runs[0], events[0], runs[1]));
    assert(start_steps(runs[1], events[1], runs[2]));
    assert(start_steps(runs[2], events[2], runs[3]));
    assert(start_steps(runs[3], events[3], runs[4]));
    assert(start_steps(runs[4], events[4], runs[5]));
    assert(start_steps(runs[5], events[5], runs[6]));
    assert(start_steps(runs[6], events[6], runs[7]));
    assert(start_steps(runs[7], events[7], runs[8]));
}

/// A rule that could not be installed does not stop the serving: the proxy goes on
/// without one, and without a watchdog.
pub proof fn a_proxy_without_a_rule_still_serves(before: StartRun, e: String, after: StartRun)
    requires
        before is InstallRule,
        start_steps(before, StartEvent::RuleInstalled(Err(e)), after),
    ensures
        after matches StartRun::Done { outcome } && {
            &&& outcome.handle.state == ProxyState::Serving
            &&& outcome.handle.rule_guid is None
            &&& !outcome.watchdog
            &&& outcome.refresher && outcome.shutdown && outcome.task
        },
{
}

/// A start that fails says what failed, in its detail line and in the reason for
/// which an orphaned rule is looked for. Nothing runs after it, and it keeps
/// `enabled`.
pub proof fn a_refusal_says_what_failed(before: StartRun, event: StartEvent, after: StartRun)
    requires
        start_steps(before, event, after),
        before !is ReconcileOrphan,
        after is ReconcileOrphan,
    ensures
        ({
            let outcome = after->ReconcileOrphan_outcome;
            let detail = outcome.handle.detail@;
            &&& outcome.handle.enabled
            &&& outcome.handle.rule_guid is None
            &&& !outcome.watchdog && !outcome.refresher && !outcome.shutdown && !outcome.task
            &&& detail.len() > 0
            &&& before is ParseListen ==> (event matches StartEvent::ListenParsed(Err(e)) && detail
                == "listen: "@ + e@) && outcome.handle.state == ProxyState::Disabled && after->reason@ == detail
            &&& before is ResolveUpstreams ==> (event matches StartEvent::UpstreamsResolved(
                Err(failure),
            ) && after->reason@ == failure.text@ && (failure.text@.len() > 0 ==> detail
                == failure.text@) && (failure.text@.len() == 0 ==> detail
                == "web protection refused to start"@)) && outcome.handle.state
                == ProxyState::Disabled
            &&& before matches StartRun::Bind { listen, .. } ==> (event matches StartEvent::Bound(
                Err(e),
            ) && detail == "bind "@ + listen.text@ + ": "@ + e@) && outcome.handle.state
                == ProxyState::BindFailed && after->reason@ == detail
            &&& before is SelfTest ==> (event matches StartEvent::SelfTested(report) && !report.ok
                && (report.detail@.len() > 0 ==> detail == report.detail@) && (
            report.detail@.len() == 0 ==> detail == "self-test failed"@))
                && outcome.handle.state == ProxyState::SelfTestFailed && after->reason@
                == "self-test failed"@
            &&& before is ParseListen || before is ResolveUpstreams || before is Bind || before
                is SelfTest
        }),
{
    reveal_strlit("web protection refused to start");
    reveal_strlit("self-test failed");
    reveal_strlit("listen: ");
    reveal_strlit("bind ");
}

/// Only an answer to what was asked moves a start, and it always does; a start
/// that is over stays as it is.
pub proof fn only_an_answer_moves_a_start(before: StartRun, event: StartEvent, after: StartRun)
    requires
        start_steps(before, event, after),
    ensures
        !answers(before, event) ==> after == before,
        answers(before, event) ==> after != before,
        before is Done ==> after == before,
        before matches StartRun::ReconcileOrphan { outcome, .. } ==> event is OrphanReconciled
            ==> after == (StartRun::Done { outcome }),
{
}

/// Where web protection was not asked for, a start looks for an orphaned rule and
/// runs nothing; where it was, it begins with the listen address.
pub proof fn a_start_that_was_not_asked_for_runs_nothing(cfg: WebProtectionConfig, run: StartRun)
    requires
        start_begins(cfg, run),
    ensures
        cfg.enabled ==> run == (StartRun::ParseListen { cfg }),
        !cfg.enabled ==> (run matches StartRun::ReconcileOrphan { reason, outcome } && {
            &&& reason@ == "web protection disabled"@
            &&& outcome.handle.detail@ == "web protection disabled"@
            &&& outcome.handle.state == ProxyState::Disabled
            &&& !outcome.handle.enabled
            &&& outcome.handle.listen is None && outcome.handle.rule_guid is None
            &&& outcome.refusal is None
            &&& !outcome.watchdog && !outcome.refresher && !outcome.shutdown && !outcome.task
        }),
{
}

/// On the way down only what runs is dealt with, each once: the loops are told to
/// stop before anything is aborted, and waited for last.
pub proof fn stopping_deals_with_what_runs(wp: WebProtection, i: int)
    requires
        0 <= i < stop_plan(wp).len(),
    ensures
        stop_plan(wp)[i] matches StopStep::RemoveRule(guid) ==> i == 0 && wp.handle.rule_guid
            == Some(guid),
        stop_plan(wp)[i] is SignalShutdown ==> wp.shutdown && i == (
        if wp.handle.rule_guid is Some {
            1int
        } else {
            0int
        }),
        stop_plan(wp)[i] is AbortWatchdog ==> wp.shutdown && wp.watchdog && i > 0 && stop_plan(
            wp,
        )[i - 1] is SignalShutdown,
        stop_plan(wp)[i] is AbortRefresher ==> wp.shutdown && wp.refresher && i > 0 && (if wp.watchdog {
            stop_plan(wp)[i - 1] is AbortWatchdog
        } else {
            stop_plan(wp)[i - 1] is SignalShutdown
        }),
        stop_plan(wp)[i] is JoinServing ==> wp.shutdown && wp.task && i == stop_plan(wp).len() - 1,
{
}

/// A start that was not asked for reads as a daemon on which web protection is
/// off: where nothing is live, its status is that of such a daemon.
pub proof fn what_was_not_asked_for_reads_as_off(
    cfg: WebProtectionConfig,
    runs: Seq<StartRun>,
    events: Seq<StartEvent>,
    live: LiveFacts,
    s: WebProtectionStatus,
)
    requires
        is_start_history(cfg, runs, events),
        !cfg.enabled,
        events.len() == 1,
        events[0] is OrphanReconciled,
        runs[1] is Done,
        runs[1]->Done_outcome.handle.is_status(live, s),
        live.counters is None,
        live.upstreams is None,
        live.watchdog is None,
        live.rule_count is None,
        live.nrpt_installed is None,
        live.gpo_nrpt_present is None,
    ensures
        s.is_off(),
{
    reveal_strlit("web protection disabled");
    assert(start_steps(runs[0], events[0], runs[1]));
    assert(texts(s.upstreams@).len() == s.upstreams@.len());
    assert(texts(s.upstreams_degraded@).len() == s.upstreams_degraded@.len());
}

/// Once taken down, nothing of a subsystem runs any more, and what it reports stays
/// as it was; taking it down again asks for nothing but, once more, the removal of
/// its rule.
pub proof fn stopping_twice_stops_once(before: WebProtection, after: WebProtection)
    requires
        before.well_formed(),
        is_stopped(before, after),
    ensures
        !after.shutdown && !after.watchdog && !after.refresher && !after.task,
        after.handle == before.handle,
        after.refusal == before.refusal,
        stop_plan(after).len() == if before.handle.rule_guid is Some {
            1int
        } else {
            0int
        },
        forall|i: int|
            0 <= i < stop_plan(after).len() ==> (#[trigger] stop_plan(after)[i]) is RemoveRule,
{
}

} // verus!
