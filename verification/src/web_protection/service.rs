//! What web protection is asked for, what it holds while it runs, and what it
//! reports about itself.
use vstd::prelude::*;

use crate::text::{
    copy_texts, decimal, every_part_stands_in_the_whole, join, joined, occurs,
    pieces_of_pieces_are_pieces, push_decimal, text_of, texts,
};
use crate::web_protection::status::{ProxyState, WebProtectionStatus};
use crate::web_protection::watchdog::{CounterSnapshot, WatchdogState};

verus! {

/// The `block_response` setting that answers a blocked name with a null
/// address.
pub const BLOCK_RESPONSE_ZERO_IP: &'static str = "zero_ip";

/// What the user asked for.
#[derive(Debug)]
pub struct WebProtectionConfig {
    pub enabled: bool,
    pub listen: String,
    pub upstreams: Vec<String>,
    pub allowlist: Vec<String>,
    pub blocklists: Vec<String>,
    pub block_response: String,
    pub health_check_name: String,
}

/// How a blocked name is answered.
#[derive(Debug, Clone, Copy, PartialEq, Eq, Structural)]
pub enum BlockResponse {
    ZeroIp,
    Nxdomain,
}

/// Why no usable upstream was found.
#[derive(Debug)]
pub enum DiscoveryError {
    QueryFailed(String),
    NoneConfigured,
    OnlyLoopback { dropped: usize },
}

/// What the proxy's self-test found.
#[derive(Debug)]
pub struct SelfTestReport {
    /// Every step passed.
    pub ok: bool,
    /// The filter engine decided its own canary.
    pub engine_ok: bool,
    pub upstreams_healthy: usize,
    pub upstreams_total: usize,
    pub detail: String,
}

/// Whether a refused start is worth retrying.
#[derive(Debug, Clone, Copy, PartialEq, Eq, Structural)]
pub enum RefusalKind {
    /// A property of the configuration or the build: waiting cannot help.
    Config,
    /// A property of the moment: retried with a growing delay.
    Transient,
}

/// Upstream discovery reads the live system, so every failure can clear by
/// itself.
pub fn classify_discovery(_e: &DiscoveryError) -> (r: RefusalKind)
    ensures
        r == RefusalKind::Transient,
{
    RefusalKind::Transient
}

/// An engine that cannot decide its own canary stays that way; everything
/// else a self-test can fail on is reachability.
pub fn classify_self_test(report: &SelfTestReport) -> (r: RefusalKind)
    ensures
        r == (if report.engine_ok {
            RefusalKind::Transient
        } else {
            RefusalKind::Config
        }),
{
    if report.engine_ok {
        RefusalKind::Transient
    } else {
        RefusalKind::Config
    }
}

/// The read-only half of the subsystem: what was fixed at start.
#[derive(Debug)]
pub struct WebProtectionHandle {
    /// `enabled` as of start.
    pub enabled: bool,
    pub state: ProxyState,
    /// Why nothing is served; empty while serving.
    pub detail: String,
    pub listen: Option<String>,
    /// The upstream list of start, reported where there is no live one.
    pub resolved_upstreams: Vec<String>,
    pub upstreams_healthy: usize,
    pub upstreams_total: usize,
    pub rules_loaded: u64,
    /// There is an engine to ask for its rules and to swap a new one into.
    pub engine: bool,
    /// The GUID of the rule in force, if one was installed.
    pub rule_guid: Option<String>,
    /// The configuration the engine was built from.
    pub boot_config: Option<WebProtectionConfig>,
}

/// What can be read live, where there is a live source.
#[derive(Debug)]
pub struct LiveFacts {
    pub counters: Option<CounterSnapshot>,
    pub upstreams: Option<Vec<String>>,
    pub watchdog: Option<WatchdogState>,
    pub rule_count: Option<u64>,
    pub nrpt_installed: Option<bool>,
    pub gpo_nrpt_present: Option<bool>,
}

impl LiveFacts {
    /// A watchdog that fired says why.
    pub open spec fn well_formed(self) -> bool {
        self.watchdog matches Some(w) ==> w.well_formed()
    }

    /// The upstreams the watchdog cannot reach.
    pub open spec fn degraded(self) -> Seq<Seq<char>> {
        match self.watchdog {
            Some(w) => texts(w.degraded_upstreams@),
            None => Seq::empty(),
        }
    }

    /// The watchdog fired.
    pub open spec fn fired(self) -> bool {
        match self.watchdog {
            Some(w) => w.fired,
            None => false,
        }
    }
}

impl WebProtectionHandle {
    /// What does not serve says why, and what serves has nothing to say of its
    /// start.
    pub open spec fn well_formed(self) -> bool {
        self.state == ProxyState::Serving <==> self.detail@.len() == 0
    }

    /// The upstreams in force: the live list where there is one.
    pub open spec fn shown_upstreams(self, live: LiveFacts) -> Seq<Seq<char>> {
        match live.upstreams {
            Some(u) => texts(u@),
            None => texts(self.resolved_upstreams@),
        }
    }

    /// How many upstreams there are: while there is a live list or a watchdog,
    /// those that are shown, and otherwise the count of start.
    pub open spec fn shown_total(self, live: LiveFacts) -> int {
        if live.upstreams is Some || live.watchdog is Some {
            self.shown_upstreams(live).len() as int
        } else {
            self.upstreams_total as int
        }
    }

    /// How many upstreams answer: while there is a live list or a watchdog, those
    /// that are shown but the degraded ones, and otherwise the count of start.
    pub open spec fn shown_healthy(self, live: LiveFacts) -> int {
        if live.upstreams is Some || live.watchdog is Some {
            let left = self.shown_upstreams(live).len() - live.degraded().len();
            if left < 0 {
                0
            } else {
                left
            }
        } else {
            self.upstreams_healthy as int
        }
    }

    /// The detail line: a refusal first, then a fired watchdog, then degraded
    /// upstreams, else nothing.
    pub open spec fn shown_detail(self, live: LiveFacts) -> Seq<char> {
        if self.detail@.len() > 0 {
            self.detail@
        } else if live.fired() {
            live.watchdog->0.fired_reason@
        } else if live.degraded().len() > 0 {
            decimal(live.degraded().len()) + " of "@ + decimal(self.shown_total(live) as nat)
                + " upstreams not answering: "@ + joined(live.degraded(), ", "@)
                + " — their round-robin share of queries is failing; the active list is left unchanged"@
        } else {
            Seq::empty()
        }
    }

    /// The status that a handle and its live facts amount to.
    pub open spec fn is_status(self, live: LiveFacts, s: WebProtectionStatus) -> bool {
        &&& s.enabled == self.enabled
        &&& s.nrpt_installed == live.nrpt_installed
        &&& s.gpo_nrpt_present == live.gpo_nrpt_present
        &&& s.state == self.state
        &&& text_of(s.listen) == text_of(self.listen)
        &&& texts(s.upstreams@) == self.shown_upstreams(live)
        &&& s.upstreams_healthy == self.shown_healthy(live)
        &&& s.upstreams_total == self.shown_total(live)
        &&& texts(s.upstreams_degraded@) == live.degraded()
        &&& s.watchdog_fired == live.fired()
        &&& s.rules_loaded == (match live.rule_count {
            Some(n) => n,
            None => self.rules_loaded,
        })
        &&& s.detail@ == self.shown_detail(live)
        &&& match live.counters {
            Some(c) => s.queries == c.queries && s.blocked == c.blocked && s.cache_hits
                == c.cache_hits && s.upstream_errors == c.upstream_errors,
            None => s.queries == 0 && s.blocked == 0 && s.cache_hits == 0 && s.upstream_errors == 0,
        }
    }

    /// The configuration the running engine was built from. A reload rebuilds
    /// from this copy, never from disk.
    pub fn boot_config(&self) -> (r: Option<&WebProtectionConfig>)
        ensures
            match r {
                Some(c) => self.boot_config == Some(*c),
                None => self.boot_config is None,
            },
    {
        match &self.boot_config {
            Some(c) => Some(c),
            None => None,
        }
    }

    /// A point-in-time status.
    pub fn status(&self, live: LiveFacts) -> (r: WebProtectionStatus)
        ensures
            self.is_status(live, r),
    {
        let upstreams: Vec<String> = match &live.upstreams {
            Some(u) => copy_texts(u),
            None => copy_texts(&self.resolved_upstreams),
        };
        let degraded: Vec<String> = match &live.watchdog {
            Some(w) => copy_texts(&w.degraded_upstreams),
            None => Vec::new(),
        };
        proof {
            assert(texts(degraded@) =~= live.degraded());
        }
        let watchdog_fired: bool = match &live.watchdog {
            Some(w) => w.fired,
            None => false,
        };
        let is_live: bool = live.upstreams.is_some() || live.watchdog.is_some();
        let total: usize = if is_live {
            upstreams.len()
        } else {
            self.upstreams_total
        };
        let healthy: usize = if is_live {
            upstreams.len().saturating_sub(degraded.len())
        } else {
            self.upstreams_healthy
        };
        let mut detail: String = String::new();
        if !self.detail.as_str().is_empty() {
            detail = self.detail.clone();
        } else if watchdog_fired {
            match &live.watchdog {
                Some(w) => detail = w.fired_reason.clone(),
                None => {},
            }
        } else if degraded.len() > 0 {
            push_decimal(&mut detail, degraded.len() as u128);
            detail.append(" of ");
            push_decimal(&mut detail, total as u128);
            detail.append(" upstreams not answering: ");
            let names: String = join(&degraded, ", ");
            detail.append(names.as_str());
            detail.append(
                " — their round-robin share of queries is failing; the active list is left unchanged",
            );
            proof {
                assert(detail@ =~= self.shown_detail(live));
            }
        } else {
            proof {
                assert(detail@ =~= self.shown_detail(live));
            }
        }
        let listen: Option<String> = match &self.listen {
            Some(a) => Some(a.clone()),
            None => None,
        };
        let counters: CounterSnapshot = match live.counters {
            Some(c) => c,
            None => CounterSnapshot {
                queries: 0,
                blocked: 0,
                cache_hits: 0,
                upstream_errors: 0,
                canary_probes: 0,
                shed: 0,
            },
        };
        WebProtectionStatus {
            enabled: self.enabled,
            nrpt_installed: live.nrpt_installed,
            gpo_nrpt_present: live.gpo_nrpt_present,
            state: self.state,
            listen,
            upstreams,
            upstreams_healthy: healthy,
            upstreams_total: total,
            upstreams_degraded: degraded,
            watchdog_fired,
            rules_loaded: match live.rule_count {
                Some(n) => n,
                None => self.rules_loaded,
            },
            detail,
            queries: counters.queries,
            blocked: counters.blocked,
            cache_hits: counters.cache_hits,
            upstream_errors: counters.upstream_errors,
        }
    }
}

/// Where the search for a rule of an earlier run stands.
#[derive(Debug)]
pub enum OrphanRun {
    /// There is nothing to do.
    Settled,
    /// Find out whether the recorded rule is still there.
    QueryRule { guid: String },
    /// Remove it: this run is not serving, and it points at nothing.
    RemoveRule { guid: String },
}

/// Where the search for a rule of an earlier run begins.
pub open spec fn search_begins(recorded: Option<String>) -> OrphanRun {
    match recorded {
        Some(guid) => OrphanRun::QueryRule { guid },
        None => OrphanRun::Settled,
    }
}

/// Starts looking for a rule that an earlier run left behind, given the GUID
/// on record.
pub fn reconcile_orphan_rule(recorded: Option<String>) -> (r: OrphanRun)
    ensures
        r == (match recorded {
            Some(guid) => OrphanRun::QueryRule { guid },
            None => OrphanRun::Settled,
        }),
        r == search_begins(recorded),
{
    match recorded {
        Some(guid) => OrphanRun::QueryRule { guid },
        None => OrphanRun::Settled,
    }
}

impl OrphanRun {
    /// What follows from whether the rule is there. A rule is removed only
    /// where the system said that it exists.
    pub open spec fn next(self, exists: Result<bool, String>) -> OrphanRun {
        match self {
            OrphanRun::QueryRule { guid } => if exists matches Ok(present) && present {
                OrphanRun::RemoveRule { guid }
            } else {
                OrphanRun::Settled
            },
            _ => self,
        }
    }

    /// Takes in whether the recorded rule is still there.
    pub fn answered(self, exists: Result<bool, String>) -> (r: OrphanRun)
        ensures
            r == self.next(exists),
    {
        match self {
            OrphanRun::QueryRule { guid } => match exists {
                Ok(true) => OrphanRun::RemoveRule { guid },
                _ => OrphanRun::Settled,
            },
            run => run,
        }
    }
}

/// The detail line is empty only while serving with nothing to report: the
/// watchdog has not fired, and no upstream is degraded.
pub proof fn an_empty_detail_is_an_all_clear(
    handle: WebProtectionHandle,
    live: LiveFacts,
    s: WebProtectionStatus,
)
    requires
        handle.well_formed(),
        live.well_formed(),
        handle.is_status(live, s),
        s.detail@.len() == 0,
    ensures
        s.state == ProxyState::Serving,
        !s.watchdog_fired,
        s.upstreams_degraded@.len() == 0,
{
    if !live.fired() && live.degraded().len() > 0 {
        reveal_strlit(" of ");
        assert(handle.shown_detail(live).len() > 0);
    }
    assert(texts(s.upstreams_degraded@).len() == s.upstreams_degraded@.len());
}

/// A refusal reason is shown as it is, whatever the live facts say.
pub proof fn a_refusal_is_shown_first(
    handle: WebProtectionHandle,
    live: LiveFacts,
    s: WebProtectionStatus,
)
    requires
        handle.is_status(live, s),
        handle.detail@.len() > 0,
    ensures
        s.detail@ == handle.detail@,
{
}

/// Neither degraded upstreams nor a fired watchdog is a state of its own: the
/// state, and what the user asked for, are those of the start.
pub proof fn live_facts_do_not_change_the_state(
    handle: WebProtectionHandle,
    a: LiveFacts,
    b: LiveFacts,
    s: WebProtectionStatus,
    t: WebProtectionStatus,
)
    requires
        handle.is_status(a, s),
        handle.is_status(b, t),
    ensures
        s.state == t.state,
        s.enabled == t.enabled,
{
}

/// While there is a live list or a watchdog, the healthy and the degraded
/// upstreams make up the total, which is the length of the list shown, as long as
/// no more upstreams are counted as degraded than there are.
pub proof fn healthy_and_degraded_make_up_the_total(
    handle: WebProtectionHandle,
    live: LiveFacts,
    s: WebProtectionStatus,
)
    requires
        handle.is_status(live, s),
        live.upstreams is Some || live.watchdog is Some,
        live.degraded().len() <= handle.shown_upstreams(live).len(),
    ensures
        s.upstreams_healthy + s.upstreams_degraded@.len() == s.upstreams_total,
        s.upstreams_total == s.upstreams@.len(),
{
    assert(texts(s.upstreams_degraded@).len() == s.upstreams_degraded@.len());
    assert(texts(s.upstreams@).len() == s.upstreams@.len());
}

/// A status shows the live counters and the live number of rules where there are
/// any, and otherwise nothing counted and the number of start; what the system
/// says of the rules is passed on as it is.
pub proof fn a_status_shows_what_is_live(
    handle: WebProtectionHandle,
    live: LiveFacts,
    s: WebProtectionStatus,
)
    requires
        handle.is_status(live, s),
    ensures
        s.enabled == handle.enabled,
        s.state == handle.state,
        handle.listen is None <==> s.listen is None,
        handle.listen matches Some(a) ==> s.listen->0@ == a@,
        s.nrpt_installed == live.nrpt_installed,
        s.gpo_nrpt_present == live.gpo_nrpt_present,
        live.counters matches Some(c) ==> s.queries == c.queries && s.blocked == c.blocked
            && s.cache_hits == c.cache_hits && s.upstream_errors == c.upstream_errors,
        live.counters is None ==> s.queries == 0 && s.blocked == 0 && s.cache_hits == 0
            && s.upstream_errors == 0,
        live.rule_count matches Some(n) ==> s.rules_loaded == n,
        live.rule_count is None ==> s.rules_loaded == handle.rules_loaded,
{
}

/// The upstreams shown are those in force, one for one: the live list, or that of
/// the start where there is none. Where nothing is live their numbers are those of
/// the start.
pub proof fn a_status_shows_the_upstreams_in_force(
    handle: WebProtectionHandle,
    live: LiveFacts,
    s: WebProtectionStatus,
    i: int,
)
    requires
        handle.is_status(live, s),
    ensures
        live.upstreams matches Some(u) ==> s.upstreams@.len() == u@.len() && (0 <= i < u@.len()
            ==> s.upstreams@[i]@ == u@[i]@),
        live.upstreams is None ==> s.upstreams@.len() == handle.resolved_upstreams@.len() && (0 <= i
            < handle.resolved_upstreams@.len() ==> s.upstreams@[i]@
            == handle.resolved_upstreams@[i]@),
        live.upstreams is None && live.watchdog is None ==> s.upstreams_total
            == handle.upstreams_total && s.upstreams_healthy == handle.upstreams_healthy,
        live.upstreams is Some || live.watchdog is Some ==> s.upstreams_total == s.upstreams@.len()
            && (s.upstreams_healthy == s.upstreams@.len() - s.upstreams_degraded@.len() || (
        s.upstreams_healthy == 0 && s.upstreams@.len() < s.upstreams_degraded@.len())),
{
    assert(texts(s.upstreams@).len() == s.upstreams@.len());
    assert(texts(s.upstreams_degraded@).len() == s.upstreams_degraded@.len());
    let shown = handle.shown_upstreams(live);
    if 0 <= i < shown.len() {
        assert(texts(s.upstreams@)[i] == shown[i]);
    }
}

/// What the watchdog found is shown: that it fired and, unless the start already
/// had something to say, why; and otherwise every upstream that does not answer,
/// in the list and by name in the detail line.
pub proof fn a_status_shows_what_the_watchdog_found(
    handle: WebProtectionHandle,
    live: LiveFacts,
    s: WebProtectionStatus,
    i: int,
)
    requires
        handle.is_status(live, s),
    ensures
        live.watchdog is None ==> !s.watchdog_fired && s.upstreams_degraded@.len() == 0 && s.detail@
            == handle.detail@,
        live.watchdog matches Some(w) ==> {
            &&& s.watchdog_fired == w.fired
            &&& s.upstreams_degraded@.len() == w.degraded_upstreams@.len()
            &&& 0 <= i < w.degraded_upstreams@.len() ==> s.upstreams_degraded@[i]@
                == w.degraded_upstreams@[i]@
            &&& handle.detail@.len() == 0 && w.fired ==> s.detail@ == w.fired_reason@
            &&& handle.detail@.len() == 0 && !w.fired && 0 <= i < w.degraded_upstreams@.len()
                ==> occurs(w.degraded_upstreams@[i]@, s.detail@)
            &&& handle.detail@.len() == 0 && !w.fired && w.degraded_upstreams@.len() > 0 ==> (
            decimal(w.degraded_upstreams@.len()) + " of "@ + decimal(s.upstreams_total as nat)
                + " upstreams not answering: "@).is_prefix_of(s.detail@)
            &&& handle.detail@.len() == 0 && !w.fired && w.degraded_upstreams@.len() == 0
                ==> s.detail@.len() == 0
        },
{
    assert(texts(s.upstreams_degraded@).len() == s.upstreams_degraded@.len());
    if live.watchdog is None {
        if handle.detail@.len() == 0 {
            assert(s.detail@ =~= handle.detail@);
        }
    }
    if let Some(w) = live.watchdog {
        let degraded = live.degraded();
        let opening = decimal(degraded.len()) + " of "@ + decimal(s.upstreams_total as nat)
            + " upstreams not answering: "@;
        if handle.detail@.len() == 0 && !w.fired && degraded.len() > 0 {
            assert(opening =~= s.detail@.take(opening.len() as int));
        }
        if 0 <= i < w.degraded_upstreams@.len() {
            assert(degraded[i] == w.degraded_upstreams@[i]@);
            assert(texts(s.upstreams_degraded@)[i] == degraded[i]);
            every_part_stands_in_the_whole(degraded, ", "@, i);
            let head = decimal(degraded.len()) + " of "@ + decimal(handle.shown_total(live) as nat)
                + " upstreams not answering: "@;
            let tail =
                " — their round-robin share of queries is failing; the active list is left unchanged"@;
            pieces_of_pieces_are_pieces(degraded[i], head, joined(degraded, ", "@), tail);
        }
    }
}

/// A recorded rule of an earlier run is asked about, and removed exactly when the
/// system said that it is there: one that could not be found, or could not be told
/// about, is left alone.
pub proof fn a_rule_is_removed_only_where_it_exists(
    recorded: Option<String>,
    exists: Result<bool, String>,
)
    ensures
        recorded is None ==> search_begins(recorded).next(exists) is Settled,
        recorded matches Some(guid) ==> {
            &&& search_begins(recorded) == (OrphanRun::QueryRule { guid })
            &&& exists == Ok::<bool, String>(true) ==> search_begins(recorded).next(exists) == (
            OrphanRun::RemoveRule { guid })
            &&& exists != Ok::<bool, String>(true) ==> search_begins(recorded).next(
                exists,
            ) is Settled
        },
{
}

} // verus!
