//! Retrying a refused start.
//!
//! A start that was refused for a reason of the moment is tried again, first
//! promptly and then ever less often, until it serves or is refused for good.
use vstd::prelude::*;

use crate::text::{a_text_stands_where_it_was_put, decimal, occurs, push_decimal};
use crate::web_protection::rule::random_hash;
use crate::web_protection::service::{RefusalKind, WebProtectionHandle};
use crate::web_protection::start::WebProtection;
use crate::web_protection::status::ProxyState;

verus! {

/// Seconds before the first retry.
pub const BASE_SECS: u64 = 30;

/// The longest delay, in seconds.
pub const CAP_SECS: u64 = 300;

/// The delay before retry number `attempt`, in seconds and without jitter: it
/// starts at thirty seconds and doubles until it reaches the cap.
pub open spec fn backoff(attempt: nat) -> nat
    decreases attempt,
{
    if attempt == 0 {
        BASE_SECS as nat
    } else if 2 * backoff((attempt - 1) as nat) < CAP_SECS {
        2 * backoff((attempt - 1) as nat)
    } else {
        CAP_SECS as nat
    }
}

/// From the fourth retry on the delay stays at the cap.
proof fn lemma_backoff_values(attempt: nat)
    ensures
        backoff(0) == 30,
        backoff(1) == 60,
        backoff(2) == 120,
        backoff(3) == 240,
        attempt >= 4 ==> backoff(attempt) == 300,
    decreases attempt,
{
    assert(backoff(0) == 30);
    assert(backoff(1) == 60);
    assert(backoff(2) == 120);
    assert(backoff(3) == 240);
    assert(backoff(4) == 300);
    if attempt > 4 {
        lemma_backoff_values((attempt - 1) as nat);
    }
}

/// The delay before retry number `attempt` (from zero), in seconds and without
/// jitter.
pub fn base_backoff(attempt: u32) -> (r: u64)
    ensures
        r == backoff(attempt as nat),
        BASE_SECS <= r <= CAP_SECS,
{
    proof {
        lemma_backoff_values(attempt as nat);
    }
    let mut delay: u64 = BASE_SECS;
    let doublings: u32 = if attempt < 4 {
        attempt
    } else {
        4
    };
    let mut i: u32 = 0;
    while i < doublings
        invariant
            i <= doublings <= 4,
            i < 4 ==> delay == backoff(i as nat),
            delay <= 480,
            i == 4 ==> delay == 480,
        decreases doublings - i,
    {
        proof {
            lemma_backoff_values(0);
        }
        delay = delay * 2;
        i = i + 1;
    }
    if delay < CAP_SECS {
        delay
    } else {
        CAP_SECS
    }
}

/// A delay within a fifth of `base`, in milliseconds, placed there by a hash.
pub open spec fn jitter_of(base: u64, hash: u64) -> int {
    base - base / 5 + hash % (2 * (base / 5) + 1) as u64
}

/// A delay within a fifth of `base_ms`, placed there by a hash.
pub fn jitter(base_ms: u64, hash: u64) -> (r: u64)
    requires
        base_ms + base_ms / 5 <= u64::MAX,
    ensures
        r == jitter_of(base_ms, hash),
        base_ms - base_ms / 5 <= r <= base_ms + base_ms / 5,
{
    let spread: u64 = base_ms / 5;
    let width: u64 = 2 * spread + 1;
    let offset: u64 = hash % width;
    base_ms - spread + offset
}

/// A delay within a fifth of `base_ms`, so that machines which failed together
/// do not retry together.
pub fn jittered(base_ms: u64, salt: u32) -> (r: u64)
    requires
        base_ms + base_ms / 5 <= u64::MAX,
    ensures
        base_ms - base_ms / 5 <= r <= base_ms + base_ms / 5,
{
    jitter(base_ms, random_hash(salt as u64))
}

/// The delay before retry number `attempt`, in milliseconds.
pub fn retry_delay(attempt: u32, hash: u64) -> (r: u64)
    ensures
        r == jitter_of((1000 * backoff(attempt as nat)) as u64, hash),
        800 * backoff(attempt as nat) <= r <= 1200 * backoff(attempt as nat),
        24_000 <= r <= 360_000,
{
    let base_ms: u64 = base_backoff(attempt) * 1000;
    jitter(base_ms, hash)
}

/// A subsystem was refused for a reason that can clear by itself.
pub open spec fn is_worth_retrying(wp: WebProtection) -> bool {
    wp.refusal == Some(RefusalKind::Transient)
}

/// Whether a subsystem is one to retry: refused, and for a reason that can
/// clear by itself.
pub fn arms_retry(wp: &WebProtection) -> (r: bool)
    ensures
        r == (wp.refusal == Some(RefusalKind::Transient)),
        r == is_worth_retrying(*wp),
{
    match wp.refusal {
        Some(RefusalKind::Transient) => true,
        _ => false,
    }
}

/// What the retry loop does after an attempt.
#[derive(Debug, Clone, Copy, PartialEq, Eq, Structural)]
pub enum RetryStep {
    /// The daemon is going down: stop what the attempt started, and end.
    StandDown,
    /// The attempt serves: swap it in, publish it, and end.
    Served,
    /// The refusal is for good: swap it in, publish it, and end.
    GiveUp,
    /// Swap the refused attempt in, publish it, and try again after this many
    /// milliseconds.
    Wait { delay_ms: u64 },
}

/// The detail of a refused attempt that will be retried.
pub open spec fn retry_detail(detail: Seq<char>, attempt: nat, delay_ms: u64) -> Seq<char> {
    detail + " — retrying (attempt "@ + decimal(attempt) + "; next in ~"@ + decimal(
        (delay_ms / 1000) as nat,
    ) + "s)"@
}

/// Two subsystems that differ in nothing but the detail line.
pub open spec fn same_but_detail(a: WebProtection, b: WebProtection) -> bool {
    a == (WebProtection {
        handle: WebProtectionHandle { detail: a.handle.detail, ..b.handle },
        ..b
    })
}

/// What the loop does after an attempt, given the delay that was drawn.
pub open spec fn retry_steps(
    attempt: nat,
    before: WebProtection,
    after: WebProtection,
    going_down: bool,
    step: RetryStep,
) -> bool {
    if going_down {
        step == RetryStep::StandDown && after == before
    } else if before.handle.state == ProxyState::Serving {
        step == RetryStep::Served && after == before
    } else if before.refusal == Some(RefusalKind::Transient) {
        &&& step matches RetryStep::Wait { delay_ms }
        &&& 800 * backoff(attempt) <= delay_ms <= 1200 * backoff(attempt)
        &&& same_but_detail(after, before)
        &&& after.handle.detail@ == retry_detail(before.handle.detail@, attempt, delay_ms)
    } else {
        step == RetryStep::GiveUp && after == before
    }
}

/// The retry loop of a refused start.
#[derive(Debug)]
pub struct RetryLoop {
    /// Attempts made so far.
    pub attempt: u32,
}

impl RetryLoop {
    pub fn new() -> (r: RetryLoop)
        ensures
            r.attempt == 0,
    {
        RetryLoop { attempt: 0 }
    }

    /// Milliseconds to wait before the first attempt.
    pub fn first_delay(&self) -> (r: u64)
        ensures
            800 * backoff(0) <= r <= 1200 * backoff(0),
    {
        retry_delay(0, random_hash(0))
    }

    /// Takes in an attempt and says what to do with it. `hash` places the next
    /// delay.
    pub fn after_attempt_with(
        &mut self,
        next: &mut WebProtection,
        going_down: bool,
        hash: u64,
    ) -> (r: RetryStep)
        requires
            old(self).attempt < u32::MAX,
        ensures
            final(self).attempt == old(self).attempt + 1,
            retry_steps(final(self).attempt as nat, *old(next), *final(next), going_down, r),
            r matches RetryStep::Wait { delay_ms } ==> delay_ms == jitter_of(
                (1000 * backoff(final(self).attempt as nat)) as u64,
                hash,
            ),
    {
        self.attempt = self.attempt + 1;
        if going_down {
            return RetryStep::StandDown;
        }
        match next.handle.state {
            ProxyState::Serving => return RetryStep::Served,
            _ => {},
        }
        if !arms_retry(next) {
            return RetryStep::GiveUp;
        }
        let delay_ms: u64 = retry_delay(self.attempt, hash);
        let mut detail: String = next.handle.detail.clone();
        detail.append(" — retrying (attempt ");
        push_decimal(&mut detail, self.attempt as u128);
        detail.append("; next in ~");
        push_decimal(&mut detail, (delay_ms / 1000) as u128);
        detail.append("s)");
        next.handle.detail = detail;
        RetryStep::Wait { delay_ms }
    }

    /// Takes in an attempt and says what to do with it.
    pub fn after_attempt(&mut self, next: &mut WebProtection, going_down: bool) -> (r: RetryStep)
        requires
            old(self).attempt < u32::MAX,
        ensures
            final(self).attempt == old(self).attempt + 1,
            retry_steps(final(self).attempt as nat, *old(next), *final(next), going_down, r),
    {
        let hash: u64 = random_hash((self.attempt + 1) as u64);
        self.after_attempt_with(next, going_down, hash)
    }
}

/// The delays never shrink from one attempt to the next, never exceed the cap,
/// and are never zero, even at the low end of the jitter.
pub proof fn delays_grow_to_the_cap(attempt: nat, hash: u64)
    ensures
        backoff(attempt) <= backoff(attempt + 1),
        BASE_SECS <= backoff(attempt) <= CAP_SECS,
        jitter_of((1000 * backoff(attempt)) as u64, hash) >= 24_000,
        jitter_of((1000 * backoff(attempt)) as u64, hash) <= 360_000,
{
    lemma_backoff_values(attempt);
    lemma_backoff_values(attempt + 1);
    let base = (1000 * backoff(attempt)) as u64;
    assert(base == 1000 * backoff(attempt));
    let width = (2 * (base / 5) + 1) as u64;
    assert(0 <= hash % width < width);
}

/// The loop goes on exactly while the daemon stays up and the attempt was
/// refused for a reason that can clear by itself.
pub proof fn retries_go_on_exactly_while_transient(
    attempt: nat,
    before: WebProtection,
    after: WebProtection,
    going_down: bool,
    step: RetryStep,
)
    requires
        retry_steps(attempt, before, after, going_down, step),
        before.well_formed(),
    ensures
        step is Wait <==> !going_down && before.refusal == Some(RefusalKind::Transient),
        step == RetryStep::Served <==> !going_down && before.handle.state == ProxyState::Serving,
        after.well_formed(),
{
}

/// The first delay is half a minute, each further one twice the one before, and
/// none longer than five minutes.
pub proof fn delays_double_up_to_the_cap(attempt: nat)
    ensures
        backoff(0) == 30,
        2 * backoff(attempt) <= 300 ==> backoff(attempt + 1) == 2 * backoff(attempt),
        2 * backoff(attempt) > 300 ==> backoff(attempt + 1) == 300,
        attempt >= 4 ==> backoff(attempt) == 300,
{
    lemma_backoff_values(attempt);
}

/// The jitter places a delay anywhere from a fifth below to a fifth above, and
/// nowhere else: the hashes from zero on reach every millisecond of that band in
/// turn, and then start over.
pub proof fn the_jitter_reaches_the_whole_band(base: u64, hash: u64)
    requires
        base + base / 5 <= u64::MAX,
    ensures
        base - base / 5 <= jitter_of(base, hash) <= base + base / 5,
        hash <= 2 * (base / 5) ==> jitter_of(base, hash) == base - base / 5 + hash,
        hash + (2 * (base / 5) + 1) <= u64::MAX ==> jitter_of(
            base,
            (hash + (2 * (base / 5) + 1)) as u64,
        ) == jitter_of(base, hash),
{
    let width = (2 * (base / 5) + 1) as u64;
    assert(0 <= hash % width < width);
    if hash < width {
        vstd::arithmetic::div_mod::lemma_small_mod(hash as nat, width as nat);
    }
    if hash + width <= u64::MAX {
        vstd::arithmetic::div_mod::lemma_mod_add_multiples_vanish(hash as int, width as int);
    }
}

/// An attempt that serves is taken, one that was refused for good ends the loop,
/// and one refused for the moment is waited on; a daemon that goes down does none
/// of these. Only the detail line of an attempt that is waited on changes, and
/// that goes on to say so.
pub proof fn the_loop_goes_by_the_outcome(
    attempt: nat,
    before: WebProtection,
    after: WebProtection,
    going_down: bool,
    step: RetryStep,
)
    requires
        retry_steps(attempt, before, after, going_down, step),
    ensures
        going_down <==> step == RetryStep::StandDown,
        step == RetryStep::Served <==> !going_down && before.handle.state == ProxyState::Serving,
        step is Wait <==> !going_down && before.handle.state != ProxyState::Serving
            && before.refusal == Some(RefusalKind::Transient),
        step == RetryStep::GiveUp <==> !going_down && before.handle.state != ProxyState::Serving
            && before.refusal != Some(RefusalKind::Transient),
        step !is Wait ==> after == before,
        step matches RetryStep::Wait { delay_ms } ==> {
            &&& before.handle.detail@.is_prefix_of(after.handle.detail@)
            &&& occurs("attempt "@ + decimal(attempt) + ";"@, after.handle.detail@)
            &&& occurs("~"@ + decimal((delay_ms / 1000) as nat) + "s)"@, after.handle.detail@)
            &&& 800 * backoff(attempt) <= delay_ms <= 1200 * backoff(attempt)
            &&& after.refusal == before.refusal
            &&& after.handle.state == before.handle.state
            &&& after.handle.enabled == before.handle.enabled
            &&& after.handle.listen == before.handle.listen
            &&& after.handle.resolved_upstreams == before.handle.resolved_upstreams
            &&& after.handle.rules_loaded == before.handle.rules_loaded
            &&& after.handle.rule_guid == before.handle.rule_guid
            &&& after.handle.boot_config == before.handle.boot_config
            &&& after.handle.engine == before.handle.engine
            &&& after.watchdog == before.watchdog && after.refresher == before.refresher
                && after.shutdown == before.shutdown && after.task == before.task
        },
{
    if let RetryStep::Wait { delay_ms } = step {
        let d = before.handle.detail@;
        let n = decimal(attempt);
        let t = decimal((delay_ms / 1000) as nat);
        let whole = retry_detail(d, attempt, delay_ms);
        reveal_strlit(" — retrying (attempt ");
        reveal_strlit(" — retrying (");
        reveal_strlit("attempt ");
        reveal_strlit("; next in ~");
        reveal_strlit(";");
        reveal_strlit(" next in ");
        reveal_strlit(" next in ~");
        reveal_strlit("; next in ");
        reveal_strlit("~");
        assert(" — retrying (attempt "@ =~= " — retrying ("@ + "attempt "@);
        assert("; next in ~"@ =~= ";"@ + " next in ~"@);
        assert("; next in ~"@ =~= "; next in "@ + "~"@);
        let a = "attempt "@ + n + ";"@;
        assert(whole =~= (d + " — retrying ("@) + a + (" next in ~"@ + t + "s)"@));
        a_text_stands_where_it_was_put(d + " — retrying ("@, a, " next in ~"@ + t + "s)"@);
        let b = "~"@ + t + "s)"@;
        let head = d + " — retrying (attempt "@ + n + "; next in "@;
        assert(whole =~= head + b + Seq::<char>::empty());
        a_text_stands_where_it_was_put(head, b, Seq::empty());
        assert(d =~= whole.take(d.len() as int));
    }
}

/// Only a refusal that can clear by itself is retried: neither one for good nor a
/// subsystem that was not refused.
pub proof fn only_the_moment_is_waited_out(wp: WebProtection)
    ensures
        wp.refusal == Some(RefusalKind::Transient) ==> is_worth_retrying(wp),
        wp.refusal == Some(RefusalKind::Config) || wp.refusal is None ==> !is_worth_retrying(wp),
{
}

} // verus!
