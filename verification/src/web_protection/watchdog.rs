//! Watching a live rule: when to keep it and when to take it away.
//!
//! While a rule is installed every name on the machine resolves through the
//! local proxy, and the rule has no second server to fall back on. The
//! watchdog asks three separate questions (is the proxy serving, does it
//! resolve, is the boot reconciler still registered) and counts the failures
//! of each by itself.
use vstd::prelude::*;

use crate::text::{occurs, occurs_at, same_text, texts};

verus! {

/// Seconds between two checks.
pub const WATCHDOG_INTERVAL_SECS: u64 = 20;

/// Consecutive failures of one kind before the rule is removed.
pub const WATCHDOG_STRIKES: u32 = 3;

/// The resolution probe runs on every tick that is a multiple of this.
pub const RESOLVE_EVERY: u64 = 3;

/// The boot reconciler is looked for on every tick that is a multiple of
/// this.
pub const RECONCILER_CHECK_EVERY: u64 = 15;

/// A point-in-time reading of the proxy's counters.
#[derive(Debug, Clone, Copy, PartialEq, Eq, Structural)]
pub struct CounterSnapshot {
    pub queries: u64,
    pub blocked: u64,
    pub cache_hits: u64,
    pub upstream_errors: u64,
    pub canary_probes: u64,
    pub shed: u64,
}

/// Live health facts, kept by the watchdog and read by the status surface.
#[derive(Debug)]
pub struct WatchdogState {
    /// Upstreams that failed the most recent direct probe round.
    pub degraded_upstreams: Vec<String>,
    /// The watchdog judged the proxy unhealthy. Never cleared.
    pub fired: bool,
    /// Why it fired.
    pub fired_reason: String,
}

impl WatchdogState {
    /// A watchdog that fired says why.
    pub open spec fn well_formed(self) -> bool {
        self.fired ==> self.fired_reason@.len() > 0
    }
}

impl Default for WatchdogState {
    fn default() -> (r: Self)
        ensures
            r.well_formed(),
            r.degraded_upstreams@.len() == 0,
            !r.fired,
            r.fired_reason@.len() == 0,
    {
        WatchdogState {
            degraded_upstreams: Vec::new(),
            fired: false,
            fired_reason: String::new(),
        }
    }
}

/// What one tick found out. `None` means that the question was not asked on
/// this tick, which is not evidence of health.
#[derive(Debug, Clone, Copy, PartialEq, Eq, Structural)]
pub struct TickFacts {
    pub serving: bool,
    pub resolving: Option<bool>,
    pub reconciler: Option<bool>,
}

/// Three independent strike counters.
#[derive(Debug, Clone, Copy, PartialEq, Eq, Structural)]
pub struct Strikes {
    /// The proxy did not answer its canary and did no other work either.
    pub serve: u32,
    /// The proxy could not resolve the health-check name.
    pub resolve: u32,
    /// The boot reconciler's scheduled task was gone.
    pub reconciler: u32,
}

impl Default for Strikes {
    fn default() -> (r: Self)
        ensures
            r == Strikes::none(),
    {
        Strikes { serve: 0, resolve: 0, reconciler: 0 }
    }
}

/// A strike counter after one observation: a failure adds one, a success
/// clears it, and a question that was not asked leaves it alone.
pub open spec fn counted(strikes: u32, passed: Option<bool>) -> int {
    match passed {
        Some(true) => 0,
        Some(false) => strikes + 1,
        None => strikes as int,
    }
}

impl Strikes {
    /// No strikes at all.
    pub open spec fn none() -> Strikes {
        Strikes { serve: 0, resolve: 0, reconciler: 0 }
    }

    /// The largest of the three counters.
    pub open spec fn largest(self) -> u32 {
        if self.serve >= self.resolve && self.serve >= self.reconciler {
            self.serve
        } else if self.resolve >= self.reconciler {
            self.resolve
        } else {
            self.reconciler
        }
    }

    /// No counter has reached the threshold.
    pub open spec fn below_threshold(self) -> bool {
        self.serve < WATCHDOG_STRIKES && self.resolve < WATCHDOG_STRIKES && self.reconciler
            < WATCHDOG_STRIKES
    }

    /// The counters after one tick.
    pub open spec fn after(self, facts: TickFacts) -> Strikes {
        Strikes {
            serve: counted(self.serve, Some(facts.serving)) as u32,
            resolve: counted(self.resolve, facts.resolving) as u32,
            reconciler: counted(self.reconciler, facts.reconciler) as u32,
        }
    }

    pub fn record_serving(&mut self, serving: bool)
        requires
            !serving ==> old(self).serve < u32::MAX,
        ensures
            final(self).serve == counted(old(self).serve, Some(serving)),
            final(self).resolve == old(self).resolve,
            final(self).reconciler == old(self).reconciler,
    {
        if serving {
            self.serve = 0;
        } else {
            self.serve = self.serve + 1;
        }
    }

    /// `None` means the probe did not run this tick, not that it passed.
    pub fn record_resolve(&mut self, resolving: Option<bool>)
        requires
            resolving == Some(false) ==> old(self).resolve < u32::MAX,
        ensures
            final(self).resolve == counted(old(self).resolve, resolving),
            final(self).serve == old(self).serve,
            final(self).reconciler == old(self).reconciler,
    {
        match resolving {
            Some(true) => self.resolve = 0,
            Some(false) => self.resolve = self.resolve + 1,
            None => {},
        }
    }

    /// `None` means the re-check did not run this tick. A task that came back
    /// clears the strikes.
    pub fn record_reconciler(&mut self, present: Option<bool>)
        requires
            present == Some(false) ==> old(self).reconciler < u32::MAX,
        ensures
            final(self).reconciler == counted(old(self).reconciler, present),
            final(self).serve == old(self).serve,
            final(self).resolve == old(self).resolve,
    {
        match present {
            Some(true) => self.reconciler = 0,
            Some(false) => self.reconciler = self.reconciler + 1,
            None => {},
        }
    }

    pub fn worst(&self) -> (r: u32)
        ensures
            r == self.largest(),
    {
        if self.serve >= self.resolve && self.serve >= self.reconciler {
            self.serve
        } else if self.resolve >= self.reconciler {
            self.resolve
        } else {
            self.reconciler
        }
    }
}

/// Why the watchdog takes the rule away.
#[derive(Debug, Clone, Copy, PartialEq, Eq, Structural)]
pub enum FireCause {
    ReconcilerGone,
    StoppedAnswering,
    ResolvesNothing,
}

impl FireCause {
    pub open spec fn phrase(self) -> Seq<char> {
        match self {
            FireCause::ReconcilerGone => "the boot reconciler task is gone"@,
            FireCause::StoppedAnswering => "the proxy stopped answering"@,
            FireCause::ResolvesNothing => "the proxy resolves nothing"@,
        }
    }

    pub fn text(&self) -> (r: &'static str)
        ensures
            r@ == self.phrase(),
    {
        match self {
            FireCause::ReconcilerGone => "the boot reconciler task is gone",
            FireCause::StoppedAnswering => "the proxy stopped answering",
            FireCause::ResolvesNothing => "the proxy resolves nothing",
        }
    }
}

/// What a finished tick asks for.
#[derive(Debug, Clone, Copy, PartialEq, Eq, Structural)]
pub enum TickOutcome {
    /// Nothing failed that is still counted.
    Healthy,
    /// Something failed, but not often enough to act.
    Struck(u32),
    /// Remove the rule.
    Fire(FireCause),
}

/// What the tick of the given number has to look at besides the canary.
pub open spec fn plan_for(tick: u64) -> TickPlan {
    TickPlan {
        probe_resolution: tick % RESOLVE_EVERY == 0,
        check_reconciler: tick % RECONCILER_CHECK_EVERY == 0,
    }
}

/// What changed from one list of degraded upstreams to the next.
pub open spec fn news_of(before: Seq<Seq<char>>, after: Seq<Seq<char>>) -> RoundNews {
    if before == after {
        RoundNews::Unchanged
    } else if after.len() == 0 {
        RoundNews::AllAnswering
    } else {
        RoundNews::Degraded
    }
}

/// What a tick has to look at besides the canary.
#[derive(Debug, Clone, Copy, PartialEq, Eq, Structural)]
pub struct TickPlan {
    pub probe_resolution: bool,
    pub check_reconciler: bool,
}

/// What the probes of a tick found out about resolving.
#[derive(Debug)]
pub struct ProbeRound {
    /// The filter lets the health-check name through.
    pub name_is_allowed: bool,
    /// The proxy resolved it. Not looked at where the filter blocks the name.
    pub resolved: bool,
    /// The upstreams in force.
    pub upstreams: Vec<String>,
    /// Whether each of them answered when asked directly.
    pub answered: Vec<bool>,
}

/// Everything that a tick read.
#[derive(Debug)]
pub struct TickReadings {
    /// The proxy answered its canary with the right signature.
    pub answered: bool,
    /// The counters before and after the canary probe.
    pub before: CounterSnapshot,
    pub after: CounterSnapshot,
    /// The probes of resolving, on a tick that runs them.
    pub round: Option<ProbeRound>,
    /// Whether the boot reconciler is registered, on a tick that looks.
    pub reconciler: Option<bool>,
}

impl TickReadings {
    /// What the readings amount to.
    pub open spec fn facts(self) -> TickFacts {
        TickFacts {
            serving: counts_as_serving(self.answered, self.before, self.after),
            resolving: match self.round {
                Some(round) => if round.name_is_allowed {
                    Some(round.resolved)
                } else {
                    None
                },
                None => None,
            },
            reconciler: self.reconciler,
        }
    }
}

/// What a tick came to.
#[derive(Debug, Clone, Copy, PartialEq, Eq, Structural)]
pub struct TickReport {
    pub news: RoundNews,
    pub outcome: TickOutcome,
}

/// What a round of direct upstream probes changed.
#[derive(Debug, Clone, Copy, PartialEq, Eq, Structural)]
pub enum RoundNews {
    Unchanged,
    AllAnswering,
    Degraded,
}

/// The proxy counts as serving: it answered its canary and counted the probe,
/// or it visibly did other work meanwhile. A proxy under overload sheds the
/// canary too; busy is not dead.
pub open spec fn counts_as_serving(
    answered: bool,
    before: CounterSnapshot,
    after: CounterSnapshot,
) -> bool {
    ||| answered && after.canary_probes > before.canary_probes
    ||| after.queries > before.queries
    ||| after.shed > before.shed
}

pub fn judge_serving(answered: bool, before: &CounterSnapshot, after: &CounterSnapshot) -> (r: bool)
    ensures
        r == counts_as_serving(answered, *before, *after),
{
    let moved = after.canary_probes > before.canary_probes;
    let mut serving = answered && moved;
    if !serving && (after.queries > before.queries || after.shed > before.shed) {
        serving = true;
    }
    serving
}

/// The verdict of a resolution probe. An answer for a name that the filter
/// blocks cannot be told from a resolution, so such a probe is not run: it is
/// skipped, and `resolved` is not looked at.
pub fn judge_resolution(name_is_allowed: bool, resolved: bool) -> (r: Option<bool>)
    ensures
        r == (if name_is_allowed {
            Some(resolved)
        } else {
            None
        }),
{
    if name_is_allowed {
        Some(resolved)
    } else {
        None
    }
}

/// The upstreams that did not answer, in the order of the list.
pub open spec fn unanswered(upstreams: Seq<Seq<char>>, answered: Seq<bool>) -> Seq<Seq<char>>
    decreases upstreams.len(),
{
    if upstreams.len() == 0 {
        Seq::empty()
    } else {
        let rest = unanswered(upstreams.drop_last(), answered.drop_last());
        if answered.last() {
            rest
        } else {
            rest.push(upstreams.last())
        }
    }
}

/// The cause that is named when the threshold is reached.
pub open spec fn cause_of(s: Strikes) -> FireCause {
    if s.reconciler >= WATCHDOG_STRIKES {
        FireCause::ReconcilerGone
    } else if s.serve >= WATCHDOG_STRIKES {
        FireCause::StoppedAnswering
    } else {
        FireCause::ResolvesNothing
    }
}

/// What the counters ask for.
pub open spec fn outcome_of(s: Strikes) -> TickOutcome {
    if s.largest() == 0 {
        TickOutcome::Healthy
    } else if s.below_threshold() {
        TickOutcome::Struck(s.largest())
    } else {
        TickOutcome::Fire(cause_of(s))
    }
}

/// What is reported once the watchdog fired and the rule was removed, or
/// could not be.
pub open spec fn fired_text(cause: FireCause, removal: Result<(), String>) -> Seq<char> {
    match removal {
        Ok(_) => "watchdog fired ("@ + cause.phrase()
            + "): the NRPT rule was removed and DNS is back on system defaults — filtering is OFF"@,
        Err(e) => "watchdog fired ("@ + cause.phrase()
            + ") but the NRPT rule could NOT be removed: "@ + e@
            + " — the boot reconciler is the backstop at next startup"@,
    }
}

pub fn fired_reason(cause: FireCause, removal: &Result<(), String>) -> (r: String)
    ensures
        r@ == fired_text(cause, *removal),
        r@.len() > 0,
{
    proof {
        reveal_strlit("watchdog fired (");
    }
    let mut out: String = "watchdog fired (".to_owned();
    out.append(cause.text());
    match removal {
        Ok(_) => {
            out.append(
                "): the NRPT rule was removed and DNS is back on system defaults — filtering is OFF",
            );
        },
        Err(e) => {
            out.append(") but the NRPT rule could NOT be removed: ");
            out.append(e.as_str());
            out.append(" — the boot reconciler is the backstop at next startup");
        },
    }
    out
}

/// The watchdog of one installed rule.
#[derive(Debug)]
pub struct Watchdog {
    pub tick: u64,
    pub strikes: Strikes,
    pub state: WatchdogState,
}

impl Watchdog {
    /// The watchdog is still watching: it has not fired and no counter has
    /// reached the threshold.
    pub open spec fn watching(self) -> bool {
        !self.state.fired && self.strikes.below_threshold()
    }

    pub fn new() -> (r: Watchdog)
        ensures
            r.tick == 0,
            r.strikes == Strikes::none(),
            r.state.degraded_upstreams@.len() == 0,
            r.state.fired_reason@.len() == 0,
            r.state.well_formed(),
            r.watching(),
    {
        Watchdog { tick: 0, strikes: Strikes::default(), state: WatchdogState::default() }
    }

    /// Starts the next tick and says what it has to look at.
    pub fn begin_tick(&mut self) -> (r: TickPlan)
        requires
            old(self).tick < u64::MAX,
        ensures
            final(self).tick == old(self).tick + 1,
            final(self).strikes == old(self).strikes,
            final(self).state == old(self).state,
            r.probe_resolution == (final(self).tick % RESOLVE_EVERY == 0),
            r.check_reconciler == (final(self).tick % RECONCILER_CHECK_EVERY == 0),
            r == plan_for(final(self).tick),
    {
        self.tick = self.tick + 1;
        TickPlan {
            probe_resolution: self.tick.is_multiple_of(RESOLVE_EVERY),
            check_reconciler: self.tick.is_multiple_of(RECONCILER_CHECK_EVERY),
        }
    }

    /// Takes in a round of direct probes: `answered[i]` says whether
    /// `upstreams[i]` answered. The upstream list itself is left alone.
    pub fn record_round(&mut self, upstreams: &Vec<String>, answered: &Vec<bool>) -> (r: RoundNews)
        requires
            upstreams@.len() == answered@.len(),
        ensures
            texts(final(self).state.degraded_upstreams@) == unanswered(
                texts(upstreams@),
                answered@,
            ),
            final(self).state.fired == old(self).state.fired,
            final(self).state.fired_reason == old(self).state.fired_reason,
            old(self).state.well_formed() ==> final(self).state.well_formed(),
            final(self).tick == old(self).tick,
            final(self).strikes == old(self).strikes,
            r == (if texts(old(self).state.degraded_upstreams@) == texts(
                final(self).state.degraded_upstreams@,
            ) {
                RoundNews::Unchanged
            } else if final(self).state.degraded_upstreams@.len() == 0 {
                RoundNews::AllAnswering
            } else {
                RoundNews::Degraded
            }),
            r == news_of(
                texts(old(self).state.degraded_upstreams@),
                texts(final(self).state.degraded_upstreams@),
            ),
    {
        let mut degraded: Vec<String> = Vec::new();
        let mut i: usize = 0;
        while i < upstreams.len()
            invariant
                upstreams@.len() == answered@.len(),
                i <= upstreams@.len(),
                texts(degraded@) == unanswered(
                    texts(upstreams@).take(i as int),
                    answered@.take(i as int),
                ),
            decreases upstreams@.len() - i,
        {
            proof {
                let u = texts(upstreams@);
                assert(u.take(i + 1).drop_last() =~= u.take(i as int));
                assert(answered@.take(i + 1).drop_last() =~= answered@.take(i as int));
            }
            if !answered[i] {
                let ghost before = degraded@;
                degraded.push(upstreams[i].clone());
                proof {
                    assert(texts(degraded@) =~= texts(before).push(upstreams@[i as int]@));
                }
            }
            i = i + 1;
        }
        proof {
            assert(texts(upstreams@).take(i as int) =~= texts(upstreams@));
            assert(answered@.take(i as int) =~= answered@);
        }
        if same_texts(&self.state.degraded_upstreams, &degraded) {
            return RoundNews::Unchanged;
        }
        let none_left = degraded.len() == 0;
        self.state.degraded_upstreams = degraded;
        if none_left {
            RoundNews::AllAnswering
        } else {
            RoundNews::Degraded
        }
    }

    /// Ends a tick: counts what it found and says what to do.
    pub fn end_tick(&mut self, facts: TickFacts) -> (r: TickOutcome)
        requires
            old(self).watching(),
        ensures
            final(self).strikes == old(self).strikes.after(facts),
            final(self).state == old(self).state,
            final(self).tick == old(self).tick,
            r == outcome_of(final(self).strikes),
            r !is Fire ==> final(self).watching(),
    {
        self.strikes.record_serving(facts.serving);
        self.strikes.record_resolve(facts.resolving);
        self.strikes.record_reconciler(facts.reconciler);
        let worst: u32 = self.strikes.worst();
        if worst == 0 {
            return TickOutcome::Healthy;
        }
        if worst < WATCHDOG_STRIKES {
            return TickOutcome::Struck(worst);
        }
        let cause = if self.strikes.reconciler >= WATCHDOG_STRIKES {
            FireCause::ReconcilerGone
        } else if self.strikes.serve >= WATCHDOG_STRIKES {
            FireCause::StoppedAnswering
        } else {
            FireCause::ResolvesNothing
        };
        TickOutcome::Fire(cause)
    }

    /// Takes in everything that a tick read, and says what to do.
    pub fn observe(&mut self, readings: TickReadings) -> (r: TickReport)
        requires
            old(self).watching(),
            readings.round matches Some(round) ==> round.upstreams@.len() == round.answered@.len(),
        ensures
            final(self).tick == old(self).tick,
            final(self).strikes == old(self).strikes.after(readings.facts()),
            final(self).state.fired == old(self).state.fired,
            final(self).state.fired_reason == old(self).state.fired_reason,
            old(self).state.well_formed() ==> final(self).state.well_formed(),
            texts(final(self).state.degraded_upstreams@) == match readings.round {
                Some(round) => unanswered(texts(round.upstreams@), round.answered@),
                None => texts(old(self).state.degraded_upstreams@),
            },
            r.news == (if texts(old(self).state.degraded_upstreams@) == texts(
                final(self).state.degraded_upstreams@,
            ) {
                RoundNews::Unchanged
            } else if final(self).state.degraded_upstreams@.len() == 0 {
                RoundNews::AllAnswering
            } else {
                RoundNews::Degraded
            }),
            r.news == news_of(
                texts(old(self).state.degraded_upstreams@),
                texts(final(self).state.degraded_upstreams@),
            ),
            final(self).strikes.serve == 0 <==> (readings.answered && readings.after.canary_probes
                > readings.before.canary_probes) || readings.after.queries > readings.before.queries
                || readings.after.shed > readings.before.shed,
            r.outcome == outcome_of(final(self).strikes),
            r.outcome !is Fire ==> final(self).watching(),
    {
        let serving: bool = judge_serving(readings.answered, &readings.before, &readings.after);
        let mut resolving: Option<bool> = None;
        let mut news: RoundNews = RoundNews::Unchanged;
        match &readings.round {
            Some(round) => {
                resolving = judge_resolution(round.name_is_allowed, round.resolved);
                news = self.record_round(&round.upstreams, &round.answered);
            },
            None => {},
        }
        let outcome: TickOutcome = self.end_tick(
            TickFacts { serving, resolving, reconciler: readings.reconciler },
        );
        TickReport { news, outcome }
    }

    /// Records that the watchdog fired, and how the removal went.
    pub fn fire(&mut self, cause: FireCause, removal: &Result<(), String>)
        ensures
            final(self).state.fired,
            final(self).state.fired_reason@ == fired_text(cause, *removal),
            final(self).state.well_formed(),
            final(self).state.degraded_upstreams == old(self).state.degraded_upstreams,
            final(self).strikes == old(self).strikes,
            final(self).tick == old(self).tick,
    {
        let reason: String = fired_reason(cause, removal);
        self.state.fired = true;
        self.state.fired_reason = reason;
    }
}

/// Whether two lists hold the same texts in the same order.
pub fn same_texts(a: &Vec<String>, b: &Vec<String>) -> (r: bool)
    ensures
        r == (texts(a@) == texts(b@)),
{
    if a.len() != b.len() {
        proof {
            assert(texts(a@).len() != texts(b@).len());
        }
        return false;
    }
    let mut i: usize = 0;
    while i < a.len()
        invariant
            a@.len() == b@.len(),
            i <= a@.len(),
            forall|j: int| 0 <= j < i ==> #[trigger] a@[j]@ == b@[j]@,
        decreases a@.len() - i,
    {
        if !same_text(a[i].as_str(), b[i].as_str()) {
            proof {
                assert(texts(a@)[i as int] != texts(b@)[i as int]);
            }
            return false;
        }
        i = i + 1;
    }
    proof {
        assert(texts(a@) =~= texts(b@));
    }
    true
}

/// The counters after a sequence of ticks.
pub open spec fn strikes_after(s: Strikes, ticks: Seq<TickFacts>) -> Strikes
    decreases ticks.len(),
{
    if ticks.len() == 0 {
        s
    } else {
        strikes_after(s, ticks.drop_last()).after(ticks.last())
    }
}

/// How many ticks ran the resolution probe and saw it fail.
pub open spec fn failed_resolutions(ticks: Seq<TickFacts>) -> nat
    decreases ticks.len(),
{
    if ticks.len() == 0 {
        0
    } else {
        failed_resolutions(ticks.drop_last()) + if ticks.last().resolving == Some(false) {
            1nat
        } else {
            0nat
        }
    }
}

/// How many ticks found the proxy not serving.
pub open spec fn failed_servings(ticks: Seq<TickFacts>) -> nat
    decreases ticks.len(),
{
    if ticks.len() == 0 {
        0
    } else {
        failed_servings(ticks.drop_last()) + if !ticks.last().serving {
            1nat
        } else {
            0nat
        }
    }
}

/// How many ticks looked for the boot reconciler and did not find it.
pub open spec fn failed_reconcilers(ticks: Seq<TickFacts>) -> nat
    decreases ticks.len(),
{
    if ticks.len() == 0 {
        0
    } else {
        failed_reconcilers(ticks.drop_last()) + if ticks.last().reconciler == Some(false) {
            1nat
        } else {
            0nat
        }
    }
}

/// The ticks are those of a watchdog from its first tick on: each asks only the
/// questions that its number calls for. The boot reconciler is then always
/// looked for; a resolution probe is skipped while the filter blocks its name.
pub open spec fn on_schedule(ticks: Seq<TickFacts>) -> bool {
    forall|i: int|
        #![trigger ticks[i]]
        0 <= i < ticks.len() ==> {
            &&& ticks[i].resolving is Some ==> (i + 1) % RESOLVE_EVERY as int == 0
            &&& ticks[i].reconciler is Some <==> (i + 1) % RECONCILER_CHECK_EVERY as int == 0
        }
}

/// Each counter depends on its own observations alone: two histories that
/// agree on one question agree on its counter, whatever else they saw.
pub proof fn counters_are_independent(
    s1: Strikes,
    s2: Strikes,
    t1: Seq<TickFacts>,
    t2: Seq<TickFacts>,
)
    requires
        t1.len() == t2.len(),
    ensures
        s1.serve == s2.serve && (forall|i: int|
            0 <= i < t1.len() ==> (#[trigger] t1[i]).serving == t2[i].serving) ==> strikes_after(
            s1,
            t1,
        ).serve == strikes_after(s2, t2).serve,
        s1.resolve == s2.resolve && (forall|i: int|
            0 <= i < t1.len() ==> (#[trigger] t1[i]).resolving == t2[i].resolving)
            ==> strikes_after(s1, t1).resolve == strikes_after(s2, t2).resolve,
        s1.reconciler == s2.reconciler && (forall|i: int|
            0 <= i < t1.len() ==> (#[trigger] t1[i]).reconciler == t2[i].reconciler)
            ==> strikes_after(s1, t1).reconciler == strikes_after(s2, t2).reconciler,
    decreases t1.len(),
{
    if t1.len() > 0 {
        counters_are_independent(s1, s2, t1.drop_last(), t2.drop_last());
        let k = t1.len() - 1;
        assert(forall|i: int| 0 <= i < k ==> t1.drop_last()[i] == t1[i]);
        assert(forall|i: int| 0 <= i < k ==> t2.drop_last()[i] == t2[i]);
        assert(t1[k] == t1.last() && t2[k] == t2.last());
    }
}

/// While no resolution probe passes, the counter is the number of probes that
/// failed: the ticks that skip the probe neither add to it nor clear it.
pub proof fn a_skipped_probe_is_not_health(s: Strikes, ticks: Seq<TickFacts>)
    requires
        s.resolve + ticks.len() <= u32::MAX,
        forall|i: int| 0 <= i < ticks.len() ==> (#[trigger] ticks[i]).resolving != Some(true),
    ensures
        strikes_after(s, ticks).resolve == s.resolve + failed_resolutions(ticks),
        failed_resolutions(ticks) <= ticks.len(),
    decreases ticks.len(),
{
    if ticks.len() > 0 {
        let before = ticks.drop_last();
        assert(forall|i: int| 0 <= i < before.len() ==> before[i] == ticks[i]);
        a_skipped_probe_is_not_health(s, before);
        assert(ticks[ticks.len() - 1] == ticks.last());
    }
}

/// A probe that passes clears its counter, whatever went before.
pub proof fn a_success_clears_its_counter(s: Strikes, ticks: Seq<TickFacts>)
    requires
        ticks.len() > 0,
    ensures
        ticks.last().serving ==> strikes_after(s, ticks).serve == 0,
        ticks.last().resolving == Some(true) ==> strikes_after(s, ticks).resolve == 0,
        ticks.last().reconciler == Some(true) ==> strikes_after(s, ticks).reconciler == 0,
{
}

/// No counter of a fresh watchdog is larger than the number of failures of
/// its kind.
pub proof fn strikes_are_failures(ticks: Seq<TickFacts>)
    requires
        ticks.len() <= u32::MAX,
    ensures
        strikes_after(Strikes::none(), ticks).serve <= failed_servings(ticks) <= ticks.len(),
        strikes_after(Strikes::none(), ticks).resolve <= failed_resolutions(ticks) <= ticks.len(),
        strikes_after(Strikes::none(), ticks).reconciler <= failed_reconcilers(ticks)
            <= ticks.len(),
    decreases ticks.len(),
{
    if ticks.len() > 0 {
        strikes_are_failures(ticks.drop_last());
    }
}

/// What a tick can ask.
pub ghost enum Question {
    Serving,
    Resolving,
    Reconciler,
}

impl Question {
    /// The answer that a tick got, if it asked.
    pub open spec fn answer(self, facts: TickFacts) -> Option<bool> {
        match self {
            Question::Serving => Some(facts.serving),
            Question::Resolving => facts.resolving,
            Question::Reconciler => facts.reconciler,
        }
    }

    /// The counter of a question.
    pub open spec fn counter(self, s: Strikes) -> u32 {
        match self {
            Question::Serving => s.serve,
            Question::Resolving => s.resolve,
            Question::Reconciler => s.reconciler,
        }
    }

    /// The answers to a question over a history, without the ticks that did not
    /// ask.
    pub open spec fn answers(self, ticks: Seq<TickFacts>) -> Seq<bool>
        decreases ticks.len(),
    {
        if ticks.len() == 0 {
            Seq::empty()
        } else {
            match self.answer(ticks.last()) {
                Some(passed) => self.answers(ticks.drop_last()).push(passed),
                None => self.answers(ticks.drop_last()),
            }
        }
    }

    /// The latest answers to a question, as many as it takes, were all failures.
    pub open spec fn failed_lately(self, ticks: Seq<TickFacts>) -> bool {
        last_failed(self.answers(ticks), WATCHDOG_STRIKES as nat)
    }
}

/// The last `n` of some answers were failures.
pub open spec fn last_failed(answers: Seq<bool>, n: nat) -> bool {
    n <= answers.len() && forall|i: int| answers.len() - n <= i < answers.len() ==> !answers[i]
}

/// How many of the latest answers in a row were failures.
spec fn failed_in_a_row(answers: Seq<bool>) -> nat
    decreases answers.len(),
{
    if answers.len() == 0 || answers.last() {
        0
    } else {
        1 + failed_in_a_row(answers.drop_last())
    }
}

proof fn lemma_failed_in_a_row(answers: Seq<bool>, n: nat)
    ensures
        failed_in_a_row(answers) <= answers.len(),
        failed_in_a_row(answers) >= n <==> last_failed(answers, n),
    decreases answers.len(),
{
    if answers.len() > 0 && n > 0 {
        let before = answers.drop_last();
        lemma_failed_in_a_row(before, (n - 1) as nat);
        if answers.last() {
            assert(answers[answers.len() - 1]);
        } else if last_failed(before, (n - 1) as nat) {
            assert forall|i: int| answers.len() - n <= i < answers.len() implies !answers[i] by {
                if i < before.len() {
                    assert(!before[i]);
                }
            }
        } else if last_failed(answers, n) {
            assert forall|i: int|
                before.len() - (n - 1) <= i < before.len() implies !before[i] by {
                assert(!answers[i]);
            }
        }
    } else if answers.len() > 0 {
        lemma_failed_in_a_row(answers.drop_last(), 0);
    }
}

/// The watchdog did not fire before the last of these ticks: it stops at the
/// first tick on which it fires.
pub open spec fn not_fired_before(ticks: Seq<TickFacts>) -> bool {
    forall|i: int|
        0 <= i < ticks.len() ==> (#[trigger] strikes_after(
            Strikes::none(),
            ticks.take(i),
        )).below_threshold()
}

/// Each counter of a fresh watchdog is the number of failures of its kind since
/// the last success.
proof fn lemma_counters(ticks: Seq<TickFacts>, q: Question)
    requires
        not_fired_before(ticks),
    ensures
        q.counter(strikes_after(Strikes::none(), ticks)) == failed_in_a_row(q.answers(ticks)),
    decreases ticks.len(),
{
    if ticks.len() > 0 {
        let before = ticks.drop_last();
        assert forall|i: int| 0 <= i < before.len() implies (#[trigger] strikes_after(
            Strikes::none(),
            before.take(i),
        )).below_threshold() by {
            assert(before.take(i) =~= ticks.take(i));
        }
        lemma_counters(before, q);
        assert(ticks.take(ticks.len() - 1) =~= before);
        assert(strikes_after(Strikes::none(), ticks.take(ticks.len() - 1)).below_threshold());
        let old = q.answers(before);
        if let Some(passed) = q.answer(ticks.last()) {
            assert(old.push(passed).drop_last() =~= old);
            assert(old.push(passed).last() == passed);
        }
    }
}

/// Of every history of a watchdog, however long: it fires exactly when the latest
/// three answers to one of its questions were all failures, and it names that
/// question.
pub proof fn firing_is_three_failures_in_a_row(ticks: Seq<TickFacts>)
    requires
        not_fired_before(ticks),
    ensures
        outcome_of(strikes_after(Strikes::none(), ticks)) is Fire <==> exists|q: Question|
            #[trigger] q.failed_lately(ticks),
        outcome_of(strikes_after(Strikes::none(), ticks)) == TickOutcome::Fire(
            FireCause::ReconcilerGone,
        ) <==> Question::Reconciler.failed_lately(ticks),
        outcome_of(strikes_after(Strikes::none(), ticks)) == TickOutcome::Fire(
            FireCause::StoppedAnswering,
        ) <==> Question::Serving.failed_lately(ticks) && !Question::Reconciler.failed_lately(ticks),
        outcome_of(strikes_after(Strikes::none(), ticks)) == TickOutcome::Fire(
            FireCause::ResolvesNothing,
        ) <==> Question::Resolving.failed_lately(ticks) && !Question::Serving.failed_lately(ticks)
            && !Question::Reconciler.failed_lately(ticks),
{
    assert forall|q: Question|
        #[trigger] q.failed_lately(ticks) == (q.counter(strikes_after(Strikes::none(), ticks))
            >= WATCHDOG_STRIKES) by {
        lemma_counters(ticks, q);
        lemma_failed_in_a_row(q.answers(ticks), WATCHDOG_STRIKES as nat);
    }
    assert(Question::Serving.failed_lately(ticks) ==> exists|q: Question|
        #[trigger] q.failed_lately(ticks));
    assert(Question::Resolving.failed_lately(ticks) ==> exists|q: Question|
        #[trigger] q.failed_lately(ticks));
    assert(Question::Reconciler.failed_lately(ticks) ==> exists|q: Question|
        #[trigger] q.failed_lately(ticks));
}

/// A round that could not be probed is as if it had not been: the failures before
/// it still count.
pub proof fn a_round_that_cannot_be_probed_changes_nothing(s: Strikes, readings: TickReadings)
    requires
        readings.round matches Some(round) ==> !round.name_is_allowed,
    ensures
        s.after(readings.facts()).resolve == s.resolve,
{
}

/// A history without a single failure leaves nothing counted.
pub proof fn health_is_never_punished(ticks: Seq<TickFacts>)
    requires
        forall|i: int|
            #![trigger ticks[i]]
            0 <= i < ticks.len() ==> ticks[i].serving && ticks[i].resolving != Some(false)
                && ticks[i].reconciler != Some(false),
    ensures
        strikes_after(Strikes::none(), ticks) == Strikes::none(),
        outcome_of(strikes_after(Strikes::none(), ticks)) == TickOutcome::Healthy,
    decreases ticks.len(),
{
    if ticks.len() > 0 {
        let before = ticks.drop_last();
        assert(forall|i: int| 0 <= i < before.len() ==> before[i] == ticks[i]);
        health_is_never_punished(before);
        assert(ticks[ticks.len() - 1] == ticks.last());
    }
}

/// A resolution probe is due on this tick, counted from zero.
pub open spec fn probe_is_due(i: int) -> bool {
    (i + 1) % RESOLVE_EVERY as int == 0
}

/// The number of resolution probes that were due by a given tick, where each of
/// them failed.
proof fn lemma_probes_on_schedule(ticks: Seq<TickFacts>)
    requires
        on_schedule(ticks),
        forall|i: int|
            #![trigger ticks[i]]
            0 <= i < ticks.len() && probe_is_due(i) ==> ticks[i].resolving == Some(false),
    ensures
        failed_resolutions(ticks) == ticks.len() / RESOLVE_EVERY as nat,
        forall|i: int| 0 <= i < ticks.len() ==> (#[trigger] ticks[i]).resolving != Some(true),
    decreases ticks.len(),
{
    if ticks.len() > 0 {
        let before = ticks.drop_last();
        assert(forall|i: int| 0 <= i < before.len() ==> before[i] == ticks[i]);
        lemma_probes_on_schedule(before);
        let n = ticks.len() as int;
        assert(ticks[n - 1] == ticks.last());
        assert(ticks[n - 1].resolving is Some <==> n % 3 == 0);
        assert(n / 3 == (n - 1) / 3 + if n % 3 == 0 {
            1int
        } else {
            0int
        });
        assert forall|i: int| 0 <= i < ticks.len() implies (#[trigger] ticks[i]).resolving != Some(
            true,
        ) by {
            if i < n - 1 {
                assert(before[i] == ticks[i]);
            }
        }
    }
}

/// A proxy that keeps answering its canary but resolves nothing loses its
/// rule on the ninth tick, and not before.
pub proof fn a_proxy_that_resolves_nothing_loses_its_rule(ticks: Seq<TickFacts>)
    requires
        on_schedule(ticks),
        ticks.len() <= WATCHDOG_STRIKES * RESOLVE_EVERY,
        forall|i: int|
            #![trigger ticks[i]]
            0 <= i < ticks.len() ==> ticks[i].serving && (probe_is_due(i) ==> ticks[i].resolving
                == Some(false)),
    ensures
        ticks.len() < WATCHDOG_STRIKES * RESOLVE_EVERY ==> strikes_after(
            Strikes::none(),
            ticks,
        ).below_threshold(),
        ticks.len() == WATCHDOG_STRIKES * RESOLVE_EVERY ==> outcome_of(
            strikes_after(Strikes::none(), ticks),
        ) == TickOutcome::Fire(FireCause::ResolvesNothing),
{
    lemma_probes_on_schedule(ticks);
    a_skipped_probe_is_not_health(Strikes::none(), ticks);
    lemma_serving_keeps_zero(ticks);
    strikes_are_failures(ticks);
    lemma_no_reconciler_check_yet(ticks);
}

/// A proxy that is serving on every tick has no serving strikes.
proof fn lemma_serving_keeps_zero(ticks: Seq<TickFacts>)
    requires
        forall|i: int| 0 <= i < ticks.len() ==> (#[trigger] ticks[i]).serving,
    ensures
        strikes_after(Strikes::none(), ticks).serve == 0,
    decreases ticks.len(),
{
    if ticks.len() > 0 {
        let before = ticks.drop_last();
        assert(forall|i: int| 0 <= i < before.len() ==> before[i] == ticks[i]);
        lemma_serving_keeps_zero(before);
        assert(ticks[ticks.len() - 1] == ticks.last());
    }
}

/// The boot reconciler is not looked for before its first turn.
proof fn lemma_no_reconciler_check_yet(ticks: Seq<TickFacts>)
    requires
        on_schedule(ticks),
        ticks.len() < RECONCILER_CHECK_EVERY,
    ensures
        failed_reconcilers(ticks) == 0,
    decreases ticks.len(),
{
    if ticks.len() > 0 {
        let before = ticks.drop_last();
        assert(forall|i: int| 0 <= i < before.len() ==> before[i] == ticks[i]);
        lemma_no_reconciler_check_yet(before);
        assert(ticks[ticks.len() - 1] == ticks.last());
    }
}

/// While no look finds the boot reconciler, its counter is the number of looks
/// that were due.
proof fn lemma_looks_on_schedule(ticks: Seq<TickFacts>)
    requires
        on_schedule(ticks),
        ticks.len() <= u32::MAX,
        forall|i: int| 0 <= i < ticks.len() ==> (#[trigger] ticks[i]).reconciler != Some(true),
    ensures
        strikes_after(Strikes::none(), ticks).reconciler == ticks.len()
            / RECONCILER_CHECK_EVERY as nat,
    decreases ticks.len(),
{
    if ticks.len() > 0 {
        let before = ticks.drop_last();
        assert(forall|i: int| 0 <= i < before.len() ==> before[i] == ticks[i]);
        lemma_looks_on_schedule(before);
        let n = ticks.len() as int;
        assert(ticks[n - 1] == ticks.last());
        assert(ticks[n - 1].reconciler is Some <==> n % 15 == 0);
        if let Some(present) = ticks[n - 1].reconciler {
            assert(ticks[n - 1].reconciler == Some(present));
            assert(!present);
        }
        assert(n / 15 == (n - 1) / 15 + if n % 15 == 0 {
            1int
        } else {
            0int
        });
    }
}

/// While no resolution probe fails, nothing is counted against resolving.
proof fn lemma_resolving_keeps_zero(ticks: Seq<TickFacts>)
    requires
        forall|i: int| 0 <= i < ticks.len() ==> (#[trigger] ticks[i]).resolving != Some(false),
    ensures
        strikes_after(Strikes::none(), ticks).resolve == 0,
    decreases ticks.len(),
{
    if ticks.len() > 0 {
        let before = ticks.drop_last();
        assert(forall|i: int| 0 <= i < before.len() ==> before[i] == ticks[i]);
        lemma_resolving_keeps_zero(before);
        assert(ticks[ticks.len() - 1] == ticks.last());
    }
}

/// A rule whose boot reconciler is gone is removed at the third look for it, and
/// not before, however healthy the proxy is.
pub proof fn a_rule_without_a_backstop_is_removed(ticks: Seq<TickFacts>)
    requires
        on_schedule(ticks),
        ticks.len() <= WATCHDOG_STRIKES * RECONCILER_CHECK_EVERY,
        forall|i: int|
            #![trigger ticks[i]]
            0 <= i < ticks.len() ==> ticks[i].serving && ticks[i].resolving != Some(false)
                && ticks[i].reconciler != Some(true),
    ensures
        ticks.len() < WATCHDOG_STRIKES * RECONCILER_CHECK_EVERY ==> strikes_after(
            Strikes::none(),
            ticks,
        ).below_threshold(),
        ticks.len() == WATCHDOG_STRIKES * RECONCILER_CHECK_EVERY ==> outcome_of(
            strikes_after(Strikes::none(), ticks),
        ) == TickOutcome::Fire(FireCause::ReconcilerGone),
{
    lemma_looks_on_schedule(ticks);
    lemma_serving_keeps_zero(ticks);
    lemma_resolving_keeps_zero(ticks);
}

/// Visible work can only rescue a failed canary probe: it never turns an
/// answered one into a strike, and a proxy that moves no counter at all is
/// not serving.
pub proof fn busy_is_not_dead(answered: bool, before: CounterSnapshot, after: CounterSnapshot)
    ensures
        answered && after.canary_probes > before.canary_probes ==> counts_as_serving(
            answered,
            before,
            after,
        ),
        after.queries > before.queries || after.shed > before.shed ==> counts_as_serving(
            answered,
            before,
            after,
        ),
        !counts_as_serving(answered, before, before),
{
}

/// What the upstreams answer when asked directly is reported, and never counts
/// toward removing the rule: that rests on the proxy alone.
pub proof fn direct_probes_never_strike(a: TickReadings, b: TickReadings)
    requires
        a.answered == b.answered,
        a.before == b.before,
        a.after == b.after,
        a.reconciler == b.reconciler,
        a.round is Some <==> b.round is Some,
        a.round is Some ==> a.round->0.name_is_allowed == b.round->0.name_is_allowed
            && a.round->0.resolved == b.round->0.resolved,
    ensures
        a.facts() == b.facts(),
{
}

/// A proxy that is dead to its canary and does no work loses its rule on the
/// third tick in a row, and not before.
pub proof fn a_dead_proxy_loses_its_rule(ticks: Seq<TickFacts>)
    requires
        on_schedule(ticks),
        ticks.len() <= WATCHDOG_STRIKES,
        forall|i: int| 0 <= i < ticks.len() ==> !(#[trigger] ticks[i]).serving,
    ensures
        strikes_after(Strikes::none(), ticks).serve == ticks.len(),
        ticks.len() < WATCHDOG_STRIKES ==> strikes_after(Strikes::none(), ticks).below_threshold(),
        ticks.len() == WATCHDOG_STRIKES ==> outcome_of(strikes_after(Strikes::none(), ticks))
            == TickOutcome::Fire(FireCause::StoppedAnswering),
    decreases ticks.len(),
{
    strikes_are_failures(ticks);
    lemma_no_reconciler_check_yet(ticks);
    if ticks.len() > 0 {
        let before = ticks.drop_last();
        assert(forall|i: int| 0 <= i < before.len() ==> before[i] == ticks[i]);
        a_dead_proxy_loses_its_rule(before);
        assert(ticks[ticks.len() - 1] == ticks.last());
    }
}

/// A tick counts against serving exactly when the proxy did not answer and count
/// its canary, took no query and shed none; any one of these clears the counter.
pub proof fn only_a_silent_and_idle_proxy_is_struck(s: Strikes, readings: TickReadings)
    requires
        s.serve < u32::MAX,
    ensures
        s.after(readings.facts()).serve == 0 <==> (readings.answered && readings.after.canary_probes
            > readings.before.canary_probes) || readings.after.queries > readings.before.queries
            || readings.after.shed > readings.before.shed,
        s.after(readings.facts()).serve != 0 ==> s.after(readings.facts()).serve == s.serve + 1,
{
}

/// Work that the proxy visibly did makes up for a canary that it left unanswered:
/// readings that show more of it, and no less of anything else, never bring a
/// strike where the others brought none.
pub proof fn more_work_never_brings_a_strike(s: Strikes, less: TickReadings, more: TickReadings)
    requires
        s.serve < u32::MAX,
        less.before == more.before,
        less.answered ==> more.answered,
        less.after.canary_probes <= more.after.canary_probes,
        less.after.queries <= more.after.queries,
        less.after.shed <= more.after.shed,
        s.after(less.facts()).serve == 0,
    ensures
        s.after(more.facts()).serve == 0,
{
}

/// The counter of resolving moves only by a probe of a name that the filter lets
/// through, and that of the boot reconciler only by a look for it: a success
/// clears, a failure adds one, anything else leaves it alone.
pub proof fn a_probe_moves_its_counter(s: Strikes, readings: TickReadings)
    requires
        s.resolve < u32::MAX,
        s.reconciler < u32::MAX,
    ensures
        readings.round is None ==> s.after(readings.facts()).resolve == s.resolve,
        readings.round matches Some(round) ==> {
            &&& !round.name_is_allowed ==> s.after(readings.facts()).resolve == s.resolve
            &&& round.name_is_allowed && round.resolved ==> s.after(readings.facts()).resolve == 0
            &&& round.name_is_allowed && !round.resolved ==> s.after(readings.facts()).resolve
                == s.resolve + 1
        },
        readings.reconciler is None ==> s.after(readings.facts()).reconciler == s.reconciler,
        readings.reconciler == Some(true) ==> s.after(readings.facts()).reconciler == 0,
        readings.reconciler == Some(false) ==> s.after(readings.facts()).reconciler == s.reconciler
            + 1,
{
}

/// Nothing counted is health; three of a kind remove the rule, the reconciler
/// named before serving and serving before resolving; anything between is
/// reported with the largest of the counters.
pub proof fn three_of_a_kind_remove_the_rule(s: Strikes)
    ensures
        outcome_of(s) == TickOutcome::Healthy <==> s.serve == 0 && s.resolve == 0 && s.reconciler
            == 0,
        outcome_of(s) is Fire <==> s.serve >= 3 || s.resolve >= 3 || s.reconciler >= 3,
        outcome_of(s) == TickOutcome::Fire(FireCause::ReconcilerGone) <==> s.reconciler >= 3,
        outcome_of(s) == TickOutcome::Fire(FireCause::StoppedAnswering) <==> s.serve >= 3
            && s.reconciler < 3,
        outcome_of(s) == TickOutcome::Fire(FireCause::ResolvesNothing) <==> s.resolve >= 3
            && s.serve < 3 && s.reconciler < 3,
        outcome_of(s) matches TickOutcome::Struck(n) ==> {
            &&& s.serve <= n && s.resolve <= n && s.reconciler <= n
            &&& n == s.serve || n == s.resolve || n == s.reconciler
            &&& 0 < n < 3
        },
{
}

/// Of three ticks in a row exactly one probes resolving, and of fifteen exactly
/// one looks for the boot reconciler, on a tick that probes too; the first of
/// each comes on the third and on the fifteenth tick.
pub proof fn the_questions_come_round(tick: u64)
    ensures
        tick <= u64::MAX - 3 ==> plan_for(tick).probe_resolution == plan_for(
            (tick + 3) as u64,
        ).probe_resolution,
        tick <= u64::MAX - 15 ==> plan_for(tick).check_reconciler == plan_for(
            (tick + 15) as u64,
        ).check_reconciler,
        plan_for(tick).check_reconciler ==> plan_for(tick).probe_resolution,
        0 < tick < 3 ==> !plan_for(tick).probe_resolution,
        tick == 3 ==> plan_for(tick).probe_resolution,
        0 < tick < 15 ==> !plan_for(tick).check_reconciler,
        tick == 15 ==> plan_for(tick).check_reconciler,
{
}

/// The degraded upstreams are those that did not answer, all of them and no other,
/// in the order of the list.
pub proof fn the_degraded_are_those_that_did_not_answer(
    upstreams: Seq<Seq<char>>,
    answered: Seq<bool>,
) -> (at: Seq<int>)
    requires
        upstreams.len() == answered.len(),
    ensures
        at.len() == unanswered(upstreams, answered).len(),
        forall|k: int|
            #![trigger at[k]]
            0 <= k < at.len() ==> 0 <= at[k] < upstreams.len() && !answered[at[k]] && unanswered(
                upstreams,
                answered,
            )[k] == upstreams[at[k]],
        forall|k: int, l: int| 0 <= k < l < at.len() ==> #[trigger] at[k] < #[trigger] at[l],
        forall|i: int| 0 <= i < upstreams.len() && !answered[i] ==> #[trigger] at.contains(i),
    decreases upstreams.len(),
{
    if upstreams.len() == 0 {
        Seq::empty()
    } else {
        let n = upstreams.len() - 1;
        let before = the_degraded_are_those_that_did_not_answer(
            upstreams.drop_last(),
            answered.drop_last(),
        );
        let at = if answered.last() {
            before
        } else {
            before.push(n)
        };
        assert forall|k: int| #![trigger at[k]] 0 <= k < at.len() implies 0 <= at[k]
            < upstreams.len() && !answered[at[k]] && unanswered(upstreams, answered)[k]
            == upstreams[at[k]] by {
            if k < before.len() {
                assert(before[k] == at[k]);
                assert(0 <= before[k] < n);
                assert(upstreams.drop_last()[before[k]] == upstreams[at[k]]);
            }
        }
        assert forall|k: int, l: int| 0 <= k < l < at.len() implies #[trigger] at[k]
            < #[trigger] at[l] by {
            assert(before[k] == at[k]);
            if l < before.len() {
                assert(before[l] == at[l]);
            }
        }
        assert forall|i: int|
            0 <= i < upstreams.len() && !answered[i] implies #[trigger] at.contains(i) by {
            if i < n {
                assert(!answered.drop_last()[i]);
                assert(before.contains(i));
                let k = before.index_of(i);
                assert(at[k] == i);
            } else {
                assert(at[before.len() as int] == i);
            }
        }
        at
    }
}

/// A round is news exactly when it changed the degraded upstreams: good news when
/// every upstream answered after one had not, and bad news only when one did not
/// answer.
pub proof fn a_round_is_news_when_it_changed_something(
    before: Seq<Seq<char>>,
    upstreams: Seq<Seq<char>>,
    answered: Seq<bool>,
)
    requires
        upstreams.len() == answered.len(),
    ensures
        news_of(before, unanswered(upstreams, answered)) == RoundNews::Unchanged <==> before
            == unanswered(upstreams, answered),
        news_of(before, unanswered(upstreams, answered)) == RoundNews::AllAnswering <==> before.len()
            > 0 && forall|i: int| 0 <= i < answered.len() ==> #[trigger] answered[i],
        news_of(before, unanswered(upstreams, answered)) == RoundNews::Degraded ==> exists|i: int|
            0 <= i < answered.len() && !(#[trigger] answered[i]),
{
    let at = the_degraded_are_those_that_did_not_answer(upstreams, answered);
    let after = unanswered(upstreams, answered);
    if after.len() == 0 {
        assert forall|i: int| 0 <= i < answered.len() implies #[trigger] answered[i] by {
            if !answered[i] {
                assert(at.contains(i));
            }
        }
        if before.len() == 0 {
            assert(before =~= after);
        }
    } else {
        assert(!answered[at[0]]);
    }
}

/// A watchdog that fired names its cause, and says whether the rule is gone; where
/// it could not be removed, why.
pub proof fn a_fired_watchdog_says_why(cause: FireCause, removal: Result<(), String>)
    ensures
        occurs(
            match cause {
                FireCause::ReconcilerGone => "the boot reconciler task is gone"@,
                FireCause::StoppedAnswering => "the proxy stopped answering"@,
                FireCause::ResolvesNothing => "the proxy resolves nothing"@,
            },
            fired_text(cause, removal),
        ),
        removal is Ok ==> occurs(
            "): the NRPT rule was removed and DNS is back on system defaults — filtering is OFF"@,
            fired_text(cause, removal),
        ),
        removal matches Err(e) ==> occurs(
            ") but the NRPT rule could NOT be removed: "@ + e@
                + " — the boot reconciler is the backstop at next startup"@,
            fired_text(cause, removal),
        ),
{
    let text = fired_text(cause, removal);
    let a = "watchdog fired ("@;
    let b = cause.phrase();
    let at = a.len() as int;
    let next = at + b.len();
    assert(text.subrange(at, next) =~= b);
    assert(occurs_at(b, text, at));
    match removal {
        Ok(_) => {
            let c =
                "): the NRPT rule was removed and DNS is back on system defaults — filtering is OFF"@;
            assert(text.subrange(next, next + c.len()) =~= c);
            assert(occurs_at(c, text, next));
        },
        Err(e) => {
            let c = ") but the NRPT rule could NOT be removed: "@ + e@
                + " — the boot reconciler is the backstop at next startup"@;
            assert(text.subrange(next, next + c.len()) =~= c);
            assert(occurs_at(c, text, next));
        },
    }
}

/// A watchdog watches as long as it has not fired and none of its counters has come
/// to three.
pub proof fn a_watchdog_watches_until_three_of_a_kind(dog: Watchdog)
    ensures
        dog.watching() <==> !dog.state.fired && dog.strikes.serve < 3 && dog.strikes.resolve < 3
            && dog.strikes.reconciler < 3,
        dog.watching() ==> outcome_of(dog.strikes) !is Fire,
{
}

} // verus!
