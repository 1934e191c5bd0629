//! Bounded execution of the daemon round-trip.
//!
//! A host scans nearly every command it runs, so the round-trips go to a small
//! fixed pool of workers, and a circuit breaker keeps a stuck daemon from
//! being asked at all for a while. Whatever goes wrong, the scan fails open.
use vstd::prelude::*;

use crate::amsi_provider::decision::DaemonVerdict;

verus! {

/// Milliseconds a scan may take before it fails open.
pub const SCAN_BUDGET_MS: u64 = 250;

/// Consecutive overruns before the breaker opens.
pub const BREAKER_THRESHOLD: u32 = 3;

/// Milliseconds the breaker stays open.
pub const BREAKER_COOLDOWN_MS: u64 = 5000;

/// Persistent workers. A stuck daemon can hold at most this many threads.
pub const POOL_SIZE: usize = 4;

/// Scans that can queue at one worker.
pub const PER_WORKER_CAP: usize = 4;

/// A circuit breaker.
#[derive(Debug, Clone, Copy, PartialEq, Eq, Structural)]
pub struct Breaker {
    /// Overruns since the last success.
    pub consecutive: u32,
    /// The time, in milliseconds, until which the breaker is open; zero while
    /// it is closed.
    pub open_until_ms: u64,
}

impl Breaker {
    /// Closed, with nothing counted.
    pub open spec fn fresh() -> Breaker {
        Breaker { consecutive: 0, open_until_ms: 0 }
    }

    /// Open at a time.
    pub open spec fn open_at(self, now_ms: u64) -> bool {
        now_ms < self.open_until_ms
    }

    /// The breaker after an overrun.
    pub open spec fn timed_out(self, now_ms: u64, threshold: u32, cooldown_ms: u64) -> Breaker {
        Breaker {
            consecutive: (self.consecutive + 1) as u32,
            open_until_ms: if self.consecutive + 1 >= threshold {
                (now_ms + cooldown_ms) as u64
            } else {
                self.open_until_ms
            },
        }
    }

    pub fn new() -> (r: Breaker)
        ensures
            r == Breaker::fresh(),
    {
        Breaker { consecutive: 0, open_until_ms: 0 }
    }

    pub fn is_open(&self, now_ms: u64) -> (r: bool)
        ensures
            r == self.open_at(now_ms),
    {
        self.open_until_ms != 0 && now_ms < self.open_until_ms
    }

    pub fn record_success(&mut self)
        ensures
            *final(self) == Breaker::fresh(),
    {
        self.consecutive = 0;
        self.open_until_ms = 0;
    }

    pub fn record_timeout(&mut self, now_ms: u64, threshold: u32, cooldown_ms: u64)
        requires
            old(self).consecutive < u32::MAX,
            old(self).consecutive + 1 >= threshold ==> now_ms + cooldown_ms <= u64::MAX,
        ensures
            *final(self) == old(self).timed_out(now_ms, threshold, cooldown_ms),
    {
        let n: u32 = self.consecutive + 1;
        self.consecutive = n;
        if n >= threshold {
            self.open_until_ms = now_ms + cooldown_ms;
        }
    }
}

/// The pool of workers and its breaker.
#[derive(Debug, Clone, Copy, PartialEq, Eq, Structural)]
pub struct Executor {
    pub workers: usize,
    /// How many scans were handed out so far.
    pub next: usize,
    pub breaker: Breaker,
}

/// Where a scan stands.
#[derive(Debug, Clone, Copy, PartialEq, Eq, Structural)]
pub enum ScanRun {
    /// Offer the scan to worker [`Executor::worker_for`], the `tried`-th in
    /// turn.
    Offer { start: usize, tried: usize },
    /// A worker took the scan: wait for its reply, for the budget.
    Await,
    /// The scan is over.
    Done(Option<DaemonVerdict>),
}

/// Where a scan begins, and the pool after it began.
pub open spec fn scan_begins(before: Executor, now_ms: u64, after: Executor, run: ScanRun) -> bool {
    if before.breaker.open_at(now_ms) || before.workers == 0 {
        run == ScanRun::Done(None) && after == before
    } else {
        &&& run == (ScanRun::Offer { start: before.next, tried: 0 })
        &&& after == (Executor {
            next: if before.next == usize::MAX {
                0
            } else {
                (before.next + 1) as usize
            },
            ..before
        })
    }
}

/// How a scan goes on after an offer, and the pool after it.
pub open spec fn offer_steps(
    before: Executor,
    start: usize,
    tried: usize,
    accepted: bool,
    now_ms: u64,
    after: Executor,
    run: ScanRun,
) -> bool {
    if accepted {
        run == ScanRun::Await && after == before
    } else if tried + 1 < before.workers {
        run == (ScanRun::Offer { start, tried: (tried + 1) as usize }) && after == before
    } else {
        run == ScanRun::Done(None) && after == before.overrun(now_ms)
    }
}

/// How a scan ends, and the pool after it.
pub open spec fn reply_steps(
    before: Executor,
    reply: Option<Option<DaemonVerdict>>,
    now_ms: u64,
    after: Executor,
    run: ScanRun,
) -> bool {
    match reply {
        Some(v) => run == ScanRun::Done(v) && after == (Executor {
            breaker: Breaker::fresh(),
            ..before
        }),
        None => run == ScanRun::Done(None) && after == before.overrun(now_ms),
    }
}

impl Executor {
    /// The worker that is offered a scan as the `tried`-th in turn.
    pub open spec fn worker_at(self, start: usize, tried: usize) -> int {
        (start + tried) % self.workers as int
    }

    /// Overruns can still be counted and timed.
    pub open spec fn can_count(self, now_ms: u64) -> bool {
        self.breaker.consecutive < u32::MAX && now_ms + BREAKER_COOLDOWN_MS <= u64::MAX
    }

    /// The pool after an overrun.
    pub open spec fn overrun(self, now_ms: u64) -> Executor {
        Executor {
            breaker: self.breaker.timed_out(now_ms, BREAKER_THRESHOLD, BREAKER_COOLDOWN_MS),
            ..self
        }
    }

    pub fn new(workers: usize) -> (r: Executor)
        ensures
            r == (Executor { workers, next: 0, breaker: Breaker::fresh() }),
    {
        Executor { workers, next: 0, breaker: Breaker::new() }
    }

    /// The worker to offer a scan to.
    pub fn worker_for(&self, start: usize, tried: usize) -> (r: usize)
        requires
            tried < self.workers,
        ensures
            r < self.workers,
            r == self.worker_at(start, tried),
    {
        let n: usize = self.workers;
        let first: usize = start % n;
        let r: usize = if tried < n - first {
            first + tried
        } else {
            tried - (n - first)
        };
        proof {
            let (s, t, m) = (start as int, tried as int, n as int);
            assert((s + t) % m == (s % m + t) % m) by (nonlinear_arith)
                requires
                    m > 0,
            {
                vstd::arithmetic::div_mod::lemma_add_mod_noop(s, t, m);
                vstd::arithmetic::div_mod::lemma_add_mod_noop(s % m, t, m);
                vstd::arithmetic::div_mod::lemma_mod_twice(s, m);
            }
            if tried < n - first {
                vstd::arithmetic::div_mod::lemma_small_mod((first + tried) as nat, n as nat);
            } else {
                vstd::arithmetic::div_mod::lemma_mod_sub_multiples_vanish(first + tried, n as int);
                vstd::arithmetic::div_mod::lemma_small_mod((first + tried - n) as nat, n as nat);
            }
        }
        r
    }

    /// Takes in whether the worker took the scan. Once every worker refused
    /// it, the scan is shed, which counts like an overrun.
    pub fn offer_answered(
        &mut self,
        start: usize,
        tried: usize,
        accepted: bool,
        now_ms: u64,
    ) -> (r: ScanRun)
        requires
            tried < old(self).workers,
            !accepted && tried + 1 == old(self).workers ==> old(self).can_count(now_ms),
        ensures
            if accepted {
                r == ScanRun::Await && *final(self) == *old(self)
            } else if tried + 1 < old(self).workers {
                r == (ScanRun::Offer { start, tried: (tried + 1) as usize }) && *final(self)
                    == *old(self)
            } else {
                r == ScanRun::Done(None) && *final(self) == old(self).overrun(now_ms)
            },
            offer_steps(*old(self), start, tried, accepted, now_ms, *final(self), r),
    {
        if accepted {
            return ScanRun::Await;
        }
        if tried + 1 < self.workers {
            return ScanRun::Offer { start, tried: tried + 1 };
        }
        self.breaker.record_timeout(now_ms, BREAKER_THRESHOLD, BREAKER_COOLDOWN_MS);
        ScanRun::Done(None)
    }

    /// Takes in the reply of the worker, `None` where none came within the
    /// budget.
    pub fn reply_received(&mut self, reply: Option<Option<DaemonVerdict>>, now_ms: u64) -> (r:
        ScanRun)
        requires
            reply is None ==> old(self).can_count(now_ms),
        ensures
            match reply {
                Some(v) => r == ScanRun::Done(v) && *final(self) == (Executor {
                    breaker: Breaker::fresh(),
                    ..*old(self)
                }),
                None => r == ScanRun::Done(None) && *final(self) == old(self).overrun(now_ms),
            },
            reply_steps(*old(self), reply, now_ms, *final(self), r),
    {
        match reply {
            Some(v) => {
                self.breaker.record_success();
                ScanRun::Done(v)
            },
            None => {
                self.breaker.record_timeout(now_ms, BREAKER_THRESHOLD, BREAKER_COOLDOWN_MS);
                ScanRun::Done(None)
            },
        }
    }
}

/// Starts a scan: fails open at once while the breaker is open or there is
/// no worker, and otherwise offers the scan round-robin.
pub fn run_scan(ex: &mut Executor, now_ms: u64) -> (r: ScanRun)
    ensures
        if old(ex).breaker.open_at(now_ms) || old(ex).workers == 0 {
            r == ScanRun::Done(None) && *final(ex) == *old(ex)
        } else {
            &&& r == (ScanRun::Offer { start: old(ex).next, tried: 0 })
            &&& final(ex).next == (if old(ex).next == usize::MAX {
                0
            } else {
                old(ex).next + 1
            })
            &&& final(ex).workers == old(ex).workers
            &&& final(ex).breaker == old(ex).breaker
        },
        scan_begins(*old(ex), now_ms, *final(ex), r),
{
    if ex.breaker.is_open(now_ms) {
        return ScanRun::Done(None);
    }
    if ex.workers == 0 {
        return ScanRun::Done(None);
    }
    let start: usize = ex.next;
    ex.next = if start == usize::MAX {
        0
    } else {
        start + 1
    };
    ScanRun::Offer { start, tried: 0 }
}

/// A breaker after overruns at the given times.
pub open spec fn after_timeouts(
    b: Breaker,
    times: Seq<u64>,
    threshold: u32,
    cooldown_ms: u64,
) -> Breaker
    decreases times.len(),
{
    if times.len() == 0 {
        b
    } else {
        after_timeouts(b, times.drop_last(), threshold, cooldown_ms).timed_out(
            times.last(),
            threshold,
            cooldown_ms,
        )
    }
}

/// The breaker counts the overruns since the last success.
proof fn lemma_counts_timeouts(times: Seq<u64>, threshold: u32, cooldown_ms: u64)
    requires
        times.len() <= u32::MAX,
    ensures
        after_timeouts(Breaker::fresh(), times, threshold, cooldown_ms).consecutive == times.len(),
    decreases times.len(),
{
    if times.len() > 0 {
        lemma_counts_timeouts(times.drop_last(), threshold, cooldown_ms);
    }
}

/// Fewer overruns in a row than the threshold never open the breaker.
pub proof fn few_timeouts_keep_the_breaker_closed(
    times: Seq<u64>,
    threshold: u32,
    cooldown_ms: u64,
    now_ms: u64,
)
    requires
        times.len() < threshold,
    ensures
        !after_timeouts(Breaker::fresh(), times, threshold, cooldown_ms).open_at(now_ms),
    decreases times.len(),
{
    if times.len() > 0 {
        few_timeouts_keep_the_breaker_closed(times.drop_last(), threshold, cooldown_ms, now_ms);
        lemma_counts_timeouts(times.drop_last(), threshold, cooldown_ms);
    }
}

/// As many overruns in a row as the threshold open the breaker, for the
/// cool-down after the last one and no longer.
pub proof fn enough_timeouts_open_the_breaker(
    times: Seq<u64>,
    threshold: u32,
    cooldown_ms: u64,
    now_ms: u64,
)
    requires
        0 < times.len() <= u32::MAX,
        times.len() >= threshold,
        times.last() + cooldown_ms <= u64::MAX,
    ensures
        after_timeouts(Breaker::fresh(), times, threshold, cooldown_ms).open_at(now_ms) <==> now_ms
            < times.last() + cooldown_ms,
{
    lemma_counts_timeouts(times.drop_last(), threshold, cooldown_ms);
}

/// In one round every worker is offered the scan exactly once.
pub proof fn a_round_offers_every_worker_once(ex: Executor, start: usize, w: int)
    requires
        0 <= w < ex.workers,
    ensures
        exists|k: usize| k < ex.workers && #[trigger] ex.worker_at(start, k) == w,
        forall|j: usize, k: usize|
            j < ex.workers && k < ex.workers && #[trigger] ex.worker_at(start, j)
                == #[trigger] ex.worker_at(start, k) ==> j == k,
{
    let n = ex.workers as int;
    let s = start as int;
    let k = if w >= s % n {
        w - s % n
    } else {
        w - s % n + n
    };
    assert(0 <= k < n);
    assert((s + k) % n == w) by {
        vstd::arithmetic::div_mod::lemma_fundamental_div_mod(s, n);
        if w >= s % n {
            assert(s + k == (s / n) * n + w) by (nonlinear_arith)
                requires
                    s == n * (s / n) + s % n,
                    k == w - s % n,
            ;
            vstd::arithmetic::div_mod::lemma_fundamental_div_mod_converse(s + k, n, s / n, w);
        } else {
            assert(s + k == (s / n + 1) * n + w) by (nonlinear_arith)
                requires
                    s == n * (s / n) + s % n,
                    k == w - s % n + n,
            ;
            vstd::arithmetic::div_mod::lemma_fundamental_div_mod_converse(s + k, n, s / n + 1, w);
        }
    }
    assert(ex.worker_at(start, k as usize) == w);
    assert forall|i: usize, j: usize|
        i < ex.workers && j < ex.workers && #[trigger] ex.worker_at(start, i)
            == #[trigger] ex.worker_at(start, j) implies i == j by {
        let (a, b) = (s + i, s + j);
        vstd::arithmetic::div_mod::lemma_fundamental_div_mod(a, n);
        vstd::arithmetic::div_mod::lemma_fundamental_div_mod(b, n);
        let (qa, qb) = (a / n, b / n);
        assert(a - b == n * (qa - qb)) by (nonlinear_arith)
            requires
                a == n * qa + a % n,
                b == n * qb + b % n,
                a % n == b % n,
        ;
        assert(qa == qb) by (nonlinear_arith)
            requires
                a - b == n * (qa - qb),
                -n < a - b < n,
                n > 0,
        ;
    }
}

/// After three overruns in a row, whatever came before them, no scan reaches a
/// worker until the cool-down is over.
pub proof fn a_stuck_daemon_is_left_alone(ex: Executor, t1: u64, t2: u64, t3: u64, now_ms: u64)
    requires
        ex.breaker.consecutive <= u32::MAX - BREAKER_THRESHOLD,
        t3 + BREAKER_COOLDOWN_MS <= u64::MAX,
    ensures
        ex.overrun(t1).overrun(t2).overrun(t3).breaker.open_at(now_ms) <==> now_ms < t3
            + BREAKER_COOLDOWN_MS,
{
}

/// A scan is offered to the workers exactly when there are any and the time to
/// which the breaker is open has come; each starts one worker further than the
/// last. Otherwise it fails open and leaves everything as it was.
pub proof fn a_scan_is_offered_unless_the_breaker_is_open(
    before: Executor,
    now_ms: u64,
    after: Executor,
    run: ScanRun,
)
    requires
        scan_begins(before, now_ms, after, run),
    ensures
        run is Offer <==> before.workers > 0 && now_ms >= before.breaker.open_until_ms,
        run !is Offer ==> run == ScanRun::Done(None) && after == before,
        run matches ScanRun::Offer { start, tried } ==> {
            &&& start == before.next
            &&& tried == 0
            &&& before.next < usize::MAX ==> after.next == before.next + 1
            &&& before.next == usize::MAX ==> after.next == 0
            &&& after.workers == before.workers
            &&& after.breaker == before.breaker
        },
{
}

/// A worker that takes a scan is waited for. One that does not passes it on to the
/// next, and only the last of them lets it go: it is then shed without a verdict,
/// and counted.
pub proof fn a_scan_is_shed_only_by_the_last_worker(
    before: Executor,
    start: usize,
    tried: usize,
    accepted: bool,
    now_ms: u64,
    after: Executor,
    run: ScanRun,
)
    requires
        tried < before.workers,
        before.breaker.consecutive < u32::MAX,
        offer_steps(before, start, tried, accepted, now_ms, after, run),
    ensures
        run == ScanRun::Await <==> accepted,
        run == ScanRun::Done(None) <==> !accepted && tried == before.workers - 1,
        run !is Await && run !is Done ==> run == (ScanRun::Offer {
            start,
            tried: (tried + 1) as usize,
        }),
        run !is Done ==> after == before,
        run is Done ==> after.breaker.consecutive == before.breaker.consecutive + 1,
        after.workers == before.workers && after.next == before.next,
{
}

/// The verdict of a scan is the reply of the worker that took it, and none where
/// no reply came in time. A reply, whatever it says, closes the breaker and starts
/// counting anew.
pub proof fn a_scan_ends_with_the_reply(
    before: Executor,
    reply: Option<Option<DaemonVerdict>>,
    now_ms: u64,
    after: Executor,
    run: ScanRun,
)
    requires
        before.breaker.consecutive < u32::MAX,
        now_ms <= u64::MAX - 5000,
        reply_steps(before, reply, now_ms, after, run),
    ensures
        reply matches Some(verdict) ==> run == ScanRun::Done(verdict) && after.breaker.consecutive
            == 0 && forall|t: u64| !#[trigger] after.breaker.open_at(t),
        reply is None ==> {
            &&& run == ScanRun::Done(None)
            &&& after.breaker.consecutive == before.breaker.consecutive + 1
            &&& before.breaker.consecutive >= 2 ==> forall|t: u64| #[trigger]
                after.breaker.open_at(t) <==> t < now_ms + 5000
            &&& before.breaker.consecutive < 2 ==> forall|t: u64| #[trigger]
                after.breaker.open_at(t) <==> before.breaker.open_at(t)
        },
        after.workers == before.workers && after.next == before.next,
{
}

/// The next worker in turn is the one after, around the end of the pool.
pub proof fn the_workers_are_offered_in_turn(ex: Executor, start: usize, tried: usize)
    requires
        0 < ex.workers,
        tried < usize::MAX,
    ensures
        0 <= ex.worker_at(start, tried) < ex.workers,
        ex.worker_at(start, (tried + 1) as usize) == if ex.worker_at(start, tried) + 1
            == ex.workers {
            0
        } else {
            ex.worker_at(start, tried) + 1
        },
        start < ex.workers ==> ex.worker_at(start, 0) == start,
{
    let n = ex.workers as int;
    let m = start + tried;
    vstd::arithmetic::div_mod::lemma_fundamental_div_mod(m, n);
    let q = m / n;
    let w = m % n;
    assert(m == q * n + w) by (nonlinear_arith)
        requires
            m == n * q + w,
    ;
    if w + 1 == n {
        assert(m + 1 == (q + 1) * n + 0) by (nonlinear_arith)
            requires
                m == q * n + w,
                w + 1 == n,
        ;
        vstd::arithmetic::div_mod::lemma_fundamental_div_mod_converse(m + 1, n, q + 1, 0);
    } else {
        vstd::arithmetic::div_mod::lemma_fundamental_div_mod_converse(m + 1, n, q, w + 1);
    }
    if start < ex.workers {
        vstd::arithmetic::div_mod::lemma_small_mod(start as nat, ex.workers as nat);
    }
}

} // verus!
