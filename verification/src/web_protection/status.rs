//! The status surface: what web protection actually is right now, as opposed
//! to what the user asked for.
use vstd::prelude::*;

verus! {

/// The detail line where web protection is off.
pub const DISABLED_DETAIL: &'static str = "web protection disabled";

/// Why the proxy is not serving, when it is not.
#[derive(Debug, Clone, Copy, PartialEq, Eq, Structural)]
pub enum ProxyState {
    /// Nothing is running and nothing is meant to be.
    Disabled,
    /// Enabled, but the listener could not bind.
    BindFailed,
    /// Bound, but the self-test did not pass. The proxy is not serving.
    SelfTestFailed,
    /// Bound, self-tested, serving.
    Serving,
}

/// A point-in-time answer to "what is web protection doing?".
///
/// Intent (`enabled`) and fact (`nrpt_installed`) are separate fields on
/// purpose.
#[derive(Debug)]
pub struct WebProtectionStatus {
    /// User intent, straight from the configuration.
    pub enabled: bool,
    /// Whether a rule of ours is present on the system. `None` means that it
    /// could not be told, which is not the same as `Some(false)`.
    pub nrpt_installed: Option<bool>,
    /// Whether group policy rules are present, which make local rules inert.
    /// `None` means that it could not be told.
    pub gpo_nrpt_present: Option<bool>,
    /// What the listener is doing.
    pub state: ProxyState,
    /// Address actually bound.
    pub listen: Option<String>,
    /// Upstreams currently in force.
    pub upstreams: Vec<String>,
    pub upstreams_healthy: usize,
    pub upstreams_total: usize,
    /// Upstreams that the watchdog's direct probes currently cannot reach.
    pub upstreams_degraded: Vec<String>,
    /// The watchdog judged the proxy unhealthy and removed the rule, or tried
    /// to. `state` stays `Serving`: the listener is still up.
    pub watchdog_fired: bool,
    /// Rules loaded into the filter engine.
    pub rules_loaded: u64,
    /// Human-readable detail. Empty only while serving with nothing to report.
    pub detail: String,
    pub queries: u64,
    pub blocked: u64,
    pub cache_hits: u64,
    pub upstream_errors: u64,
}

impl WebProtectionStatus {
    /// Nothing runs, nothing was counted and nothing is claimed of the rule.
    pub open spec fn is_off(self) -> bool {
        &&& !self.enabled
        &&& self.nrpt_installed is None
        &&& self.gpo_nrpt_present is None
        &&& self.state == ProxyState::Disabled
        &&& self.listen is None
        &&& self.upstreams@.len() == 0
        &&& self.upstreams_healthy == 0
        &&& self.upstreams_total == 0
        &&& self.upstreams_degraded@.len() == 0
        &&& !self.watchdog_fired
        &&& self.rules_loaded == 0
        &&& self.detail@ == DISABLED_DETAIL@
        &&& self.queries == 0
        &&& self.blocked == 0
        &&& self.cache_hits == 0
        &&& self.upstream_errors == 0
    }

    /// The status of a daemon where web protection is off. Nothing is claimed
    /// about the rule: without a GUID there is nothing to ask the system for.
    pub fn disabled() -> (r: Self)
        ensures
            !r.enabled,
            r.nrpt_installed is None,
            r.gpo_nrpt_present is None,
            r.state == ProxyState::Disabled,
            r.listen is None,
            r.upstreams@.len() == 0,
            r.upstreams_healthy == 0,
            r.upstreams_total == 0,
            r.upstreams_degraded@.len() == 0,
            !r.watchdog_fired,
            r.rules_loaded == 0,
            r.detail@ == DISABLED_DETAIL@,
            r.detail@.len() > 0,
            r.queries == 0,
            r.blocked == 0,
            r.cache_hits == 0,
            r.upstream_errors == 0,
            r.is_off(),
    {
        proof {
            reveal_strlit("web protection disabled");
        }
        WebProtectionStatus {
            enabled: false,
            nrpt_installed: None,
            gpo_nrpt_present: None,
            state: ProxyState::Disabled,
            listen: None,
            upstreams: Vec::new(),
            upstreams_healthy: 0,
            upstreams_total: 0,
            upstreams_degraded: Vec::new(),
            watchdog_fired: false,
            rules_loaded: 0,
            detail: DISABLED_DETAIL.to_owned(),
            queries: 0,
            blocked: 0,
            cache_hits: 0,
            upstream_errors: 0,
        }
    }
}

/// A status of what is off claims nothing: no rule either there or absent, no
/// upstream, no rule loaded, nothing counted; and it says that web protection is
/// off.
pub proof fn what_is_off_claims_nothing(s: WebProtectionStatus)
    requires
        s.is_off(),
    ensures
        !s.enabled && !s.watchdog_fired,
        s.nrpt_installed is None && s.gpo_nrpt_present is None && s.listen is None,
        s.state == ProxyState::Disabled,
        s.upstreams@.len() + s.upstreams_degraded@.len() == 0,
        s.upstreams_healthy + s.upstreams_total + s.rules_loaded == 0,
        s.queries + s.blocked + s.cache_hits + s.upstream_errors == 0,
        s.detail@ == "web protection disabled"@,
{
}

} // verus!
