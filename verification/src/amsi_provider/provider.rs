//! The decisions of the COM surface: what the provider reads from an AMSI
//! stream, and what its class factory and module answer.
use vstd::prelude::*;

use crate::amsi_provider::decision::{
    blocks, decision_for, decision_from_outcome, DaemonVerdict, ProviderDecision,
};
use crate::amsi_provider::decode::{content_text, decode_amsi_content, le_units, units_of};
use crate::amsi_provider::{language_from_app, language_of};
use crate::text::text_of;
use crate::utf16::{
    decode_utf16_lossy, text_from_utf16_lossy, units_without_pairs_are_characters,
};

verus! {

/// The largest content that is forwarded, in bytes.
pub const MAX_CONTENT: usize = 1_048_576;

/// The number that little-endian bytes stand for.
pub open spec fn le_value(b: Seq<u8>) -> nat
    decreases b.len(),
{
    if b.len() == 0 {
        0
    } else {
        b[0] as nat + 256 * le_value(b.drop_first())
    }
}

/// The value of a numeric attribute that filled the first `written` bytes of a
/// buffer of eight.
pub open spec fn number_attribute(buf: Seq<u8>, written: u32) -> Option<u64> {
    if written == 0 || written > 8 {
        None
    } else {
        Some(le_value(buf.take(written as int)) as u64)
    }
}

proof fn lemma_le_bound(b: Seq<u8>)
    ensures
        le_value(b) < vstd::arithmetic::power::pow(256, b.len()),
    decreases b.len(),
{
    reveal(vstd::arithmetic::power::pow);
    if b.len() > 0 {
        lemma_le_bound(b.drop_first());
        let rest = (b.len() - 1) as nat;
        assert(vstd::arithmetic::power::pow(256, b.len()) == 256 * vstd::arithmetic::power::pow(
            256,
            rest,
        ));
    }
}

proof fn lemma_le_fits(b: Seq<u8>)
    requires
        b.len() <= 8,
    ensures
        le_value(b) <= u64::MAX,
{
    lemma_le_bound(b);
    if b.len() < 8 {
        vstd::arithmetic::power::lemma_pow_increases(256, b.len(), 8);
    }
    assert(vstd::arithmetic::power::pow(256, 8) == 0x1_0000_0000_0000_0000) by {
        reveal_with_fuel(vstd::arithmetic::power::pow, 9);
    }
}

/// Reads a numeric attribute from the buffer of eight bytes it was written to.
pub fn attr_u64(buf: &[u8], written: u32) -> (r: Option<u64>)
    requires
        buf@.len() == 8,
    ensures
        r == number_attribute(buf@, written),
{
    if written == 0 || written > 8 {
        return None;
    }
    let n: usize = written as usize;
    let mut value: u64 = 0;
    let mut i: usize = n;
    while i > 0
        invariant
            i <= n <= 8,
            buf@.len() == 8,
            value == le_value(buf@.subrange(i as int, n as int)),
        decreases i,
    {
        proof {
            let longer = buf@.subrange(i - 1, n as int);
            assert(longer.drop_first() =~= buf@.subrange(i as int, n as int));
            assert(longer[0] == buf@[i - 1]);
            lemma_le_fits(longer);
        }
        value = buf[i - 1] as u64 + 256 * value;
        i = i - 1;
    }
    proof {
        assert(buf@.subrange(0, n as int) =~= buf@.take(n as int));
    }
    Some(value)
}

/// Code units up to the first NUL.
pub open spec fn before_nul(u: Seq<u16>) -> Seq<u16>
    decreases u.len(),
{
    if u.len() == 0 || u[0] == 0 {
        Seq::empty()
    } else {
        seq![u[0]] + before_nul(u.drop_first())
    }
}

/// How many bytes of a buffer an attribute filled.
pub open spec fn filled(capacity: nat, written: u32) -> nat {
    if written <= capacity {
        written as nat
    } else {
        capacity
    }
}

/// The value of a text attribute that was written to a buffer.
pub open spec fn text_attribute(buf: Seq<u8>, written: u32) -> Option<Seq<char>> {
    let n = filled(buf.len(), written);
    if n < 2 {
        None
    } else {
        Some(decode_utf16_lossy(before_nul(le_units(buf.take(n as int)))))
    }
}

/// The first `n` code units are those up to the first NUL.
proof fn lemma_before_nul(u: Seq<u16>, n: int)
    requires
        0 <= n <= u.len(),
        forall|i: int| 0 <= i < n ==> u[i] != 0,
        n < u.len() ==> u[n] == 0,
    ensures
        before_nul(u) == u.take(n),
    decreases u.len(),
{
    if n == 0 {
        assert(u.take(0) =~= Seq::<u16>::empty());
    } else {
        let rest = u.drop_first();
        assert forall|i: int| 0 <= i < n - 1 implies rest[i] != 0 by {
            assert(rest[i] == u[i + 1]);
        }
        lemma_before_nul(rest, n - 1);
        assert(u.take(n) =~= seq![u[0]] + rest.take(n - 1));
    }
}

/// Reads a text attribute from the buffer it was written to.
pub fn attr_wstr(buf: &[u8], written: u32) -> (r: Option<String>)
    ensures
        text_of(r) == text_attribute(buf@, written),
{
    let n: usize = if written as u64 <= buf.len() as u64 {
        written as usize
    } else {
        buf.len()
    };
    if n < 2 {
        return None;
    }
    let text_bytes = vstd::slice::slice_subrange(buf, 0, n);
    proof {
        assert(text_bytes@ =~= buf@.take(n as int));
    }
    let units: Vec<u16> = units_of(text_bytes);
    let mut end: usize = 0;
    while end < units.len() && units[end] != 0
        invariant
            end <= units@.len(),
            forall|i: int| 0 <= i < end ==> units@[i] != 0,
        decreases units@.len() - end,
    {
        end = end + 1;
    }
    proof {
        lemma_before_nul(units@, end as int);
        assert(units@.subrange(0, end as int) =~= units@.take(end as int));
    }
    Some(text_from_utf16_lossy(vstd::slice::slice_subrange(units.as_slice(), 0, end)))
}

/// What is asked of the daemon about a content.
#[derive(Debug)]
pub struct ScanRequest {
    pub content: String,
    pub language: &'static str,
    pub source_app: String,
    pub content_name: String,
}

/// The text of an optional string, empty where there is none.
pub open spec fn text_or_empty(o: Option<String>) -> Seq<char> {
    match o {
        Some(s) => s@,
        None => Seq::empty(),
    }
}

/// The request about a content, from the name of the host application and the
/// name of the content.
pub open spec fn is_request(
    r: ScanRequest,
    content: Seq<u8>,
    app: Option<String>,
    name: Option<String>,
) -> bool {
    &&& r.content@ == content_text(content)
    &&& r.language@ == language_of(text_or_empty(app))
    &&& r.source_app@ == text_or_empty(app)
    &&& r.content_name@ == text_or_empty(name)
}

/// Makes a scan request from the content of a stream, the name of the host
/// application and the name of the content.
pub fn scan_request(content: &[u8], app: Option<String>, name: Option<String>) -> (r: ScanRequest)
    ensures
        is_request(r, content@, app, name),
{
    let source_app: String = match app {
        Some(a) => a,
        None => String::new(),
    };
    let content_name: String = match name {
        Some(n) => n,
        None => String::new(),
    };
    let language = language_from_app(source_app.as_str());
    ScanRequest { content: decode_amsi_content(content), language, source_app, content_name }
}

/// Where the scan of a stream stands. Each variant but the last names the next
/// action.
#[derive(Debug)]
pub enum AmsiScan {
    /// Read the size of the content.
    ReadSize,
    /// Read its address.
    ReadAddress { size: usize },
    /// Take exactly that many bytes at the address.
    ReadContent { address: u64, size: usize },
    /// Read the name of the host application.
    ReadAppName { content: Vec<u8> },
    /// Read the name of the content.
    ReadContentName { content: Vec<u8>, app: Option<String> },
    /// Ask the daemon, within the budget.
    Ask { request: ScanRequest },
    /// The scan is over.
    Done(ProviderDecision),
}

/// What an action of a scan came to.
#[derive(Debug)]
pub enum ScanEvent {
    /// A numeric attribute, if it could be read.
    Number(Option<u64>),
    /// The content.
    Content(Vec<u8>),
    /// A text attribute, if it could be read.
    Text(Option<String>),
    /// The verdict of the daemon, if one came in time.
    Answered(Option<DaemonVerdict>),
    /// A panic was caught.
    Panicked,
}

/// A size of content that is scanned: neither empty nor oversized.
pub open spec fn is_scannable(size: Option<u64>) -> bool {
    size matches Some(n) && 0 < n <= MAX_CONTENT
}

/// One step of a scan. An event that does not answer the action fails open, as
/// a panic does.
pub open spec fn scan_steps(before: AmsiScan, event: ScanEvent, after: AmsiScan) -> bool {
    match (before, event) {
        (AmsiScan::Done(d), _) => after == AmsiScan::Done(d),
        (AmsiScan::ReadSize, ScanEvent::Number(n)) => if is_scannable(n) {
            after == (AmsiScan::ReadAddress { size: n->0 as usize })
        } else {
            after == AmsiScan::Done(ProviderDecision::NotDetected)
        },
        (AmsiScan::ReadAddress { size }, ScanEvent::Number(a)) => if a is Some && a != Some(0u64) {
            after == (AmsiScan::ReadContent { address: a->0, size })
        } else {
            after == AmsiScan::Done(ProviderDecision::NotDetected)
        },
        (AmsiScan::ReadContent { size, .. }, ScanEvent::Content(content)) => if content@.len()
            == size {
            after == (AmsiScan::ReadAppName { content })
        } else {
            after == AmsiScan::Done(ProviderDecision::NotDetected)
        },
        (AmsiScan::ReadAppName { content }, ScanEvent::Text(app)) => after == (
        AmsiScan::ReadContentName { content, app }),
        (AmsiScan::ReadContentName { content, app }, ScanEvent::Text(name)) => {
            after matches AmsiScan::Ask { request } && is_request(request, content@, app, name)
        },
        (AmsiScan::Ask { .. }, ScanEvent::Answered(outcome)) => after == AmsiScan::Done(
            decision_for(outcome),
        ),
        _ => after == AmsiScan::Done(ProviderDecision::NotDetected),
    }
}

/// Where the scan of a stream begins.
pub open spec fn scan_begins(has_stream: bool) -> AmsiScan {
    if has_stream {
        AmsiScan::ReadSize
    } else {
        AmsiScan::Done(ProviderDecision::NotDetected)
    }
}

impl AmsiScan {
    /// Starts the scan of a stream, if there is one.
    pub fn start(has_stream: bool) -> (r: AmsiScan)
        ensures
            r == scan_begins(has_stream),
            r == (if has_stream {
                AmsiScan::ReadSize
            } else {
                AmsiScan::Done(ProviderDecision::NotDetected)
            }),
    {
        if has_stream {
            AmsiScan::ReadSize
        } else {
            AmsiScan::Done(ProviderDecision::NotDetected)
        }
    }

    /// Takes in what the action came to.
    pub fn step(self, event: ScanEvent) -> (r: AmsiScan)
        ensures
            scan_steps(self, event, r),
    {
        match (self, event) {
            (AmsiScan::Done(d), _) => AmsiScan::Done(d),
            (AmsiScan::ReadSize, ScanEvent::Number(Some(n))) => {
                if n == 0 || n > MAX_CONTENT as u64 {
                    return AmsiScan::Done(ProviderDecision::NotDetected);
                }
                AmsiScan::ReadAddress { size: n as usize }
            },
            (AmsiScan::ReadAddress { size }, ScanEvent::Number(Some(address))) => {
                if address == 0 {
                    return AmsiScan::Done(ProviderDecision::NotDetected);
                }
                AmsiScan::ReadContent { address, size }
            },
            (
                AmsiScan::ReadContent { address: _, size },
                ScanEvent::Content(content),
            ) => {
                if content.len() != size {
                    return AmsiScan::Done(ProviderDecision::NotDetected);
                }
                AmsiScan::ReadAppName { content }
            },
            (AmsiScan::ReadAppName { content }, ScanEvent::Text(app)) => AmsiScan::ReadContentName {
                content,
                app,
            },
            (AmsiScan::ReadContentName { content, app }, ScanEvent::Text(name)) => AmsiScan::Ask {
                request: scan_request(content.as_slice(), app, name),
            },
            (AmsiScan::Ask { request: _ }, ScanEvent::Answered(outcome)) => AmsiScan::Done(
                decision_from_outcome(outcome),
            ),
            _ => AmsiScan::Done(ProviderDecision::NotDetected),
        }
    }
}

/// The path of the module's file: what the system wrote, unless it wrote
/// nothing or the path may have been cut off.
pub open spec fn path_written(buf: Seq<u16>, written: int) -> Option<Seq<char>> {
    if written == 0 || written >= buf.len() {
        None
    } else {
        Some(decode_utf16_lossy(buf.take(written)))
    }
}

/// Reads the path of the module's file from the buffer it was written to.
pub fn dll_path(buf: &[u16], written: usize) -> (r: Option<String>)
    ensures
        text_of(r) == path_written(buf@, written as int),
{
    if written == 0 || written >= buf.len() {
        return None;
    }
    proof {
        assert(buf@.subrange(0, written as int) =~= buf@.take(written as int));
    }
    Some(text_from_utf16_lossy(vstd::slice::slice_subrange(buf, 0, written)))
}

/// The answer to a request for a class object.
#[derive(Debug, Clone, Copy, PartialEq, Eq, Structural)]
pub enum ClassObjectAnswer {
    /// `E_POINTER`; there is nowhere to put a result.
    NoTarget,
    /// `E_POINTER`, with the result cleared.
    MissingArgument,
    /// `CLASS_E_CLASSNOTAVAILABLE`, with the result cleared.
    NotAvailable,
    /// Hand out the class factory.
    HandOut,
}

/// What a request for a class object is answered.
pub open spec fn class_answer_for(
    has_target: bool,
    wanted: Option<u128>,
    served: u128,
) -> ClassObjectAnswer {
    if !has_target {
        ClassObjectAnswer::NoTarget
    } else if wanted is None {
        ClassObjectAnswer::MissingArgument
    } else if wanted != Some(served) {
        ClassObjectAnswer::NotAvailable
    } else {
        ClassObjectAnswer::HandOut
    }
}

/// Answers a request for a class object. `wanted` is the class identifier, if
/// it and the interface identifier were given.
pub fn class_object_answer(has_target: bool, wanted: Option<u128>, served: u128) -> (r:
    ClassObjectAnswer)
    ensures
        r == (if !has_target {
            ClassObjectAnswer::NoTarget
        } else if wanted is None {
            ClassObjectAnswer::MissingArgument
        } else if wanted != Some(served) {
            ClassObjectAnswer::NotAvailable
        } else {
            ClassObjectAnswer::HandOut
        }),
        r == class_answer_for(has_target, wanted, served),
{
    if !has_target {
        return ClassObjectAnswer::NoTarget;
    }
    match wanted {
        None => ClassObjectAnswer::MissingArgument,
        Some(clsid) => if clsid == served {
            ClassObjectAnswer::HandOut
        } else {
            ClassObjectAnswer::NotAvailable
        },
    }
}

/// The answer to a request for an instance.
#[derive(Debug, Clone, Copy, PartialEq, Eq, Structural)]
pub enum InstanceAnswer {
    /// `E_POINTER`; there is nowhere to put a result.
    NoTarget,
    /// `CLASS_E_NOAGGREGATION`, with the result cleared.
    NoAggregation,
    /// Create a provider and query it for the interface.
    Create,
}

/// What a request for an instance is answered.
pub open spec fn instance_answer_for(has_target: bool, has_outer: bool) -> InstanceAnswer {
    if !has_target {
        InstanceAnswer::NoTarget
    } else if has_outer {
        InstanceAnswer::NoAggregation
    } else {
        InstanceAnswer::Create
    }
}

/// Answers a request for an instance. The provider cannot be aggregated.
pub fn instance_answer(has_target: bool, has_outer: bool) -> (r: InstanceAnswer)
    ensures
        r == (if !has_target {
            InstanceAnswer::NoTarget
        } else if has_outer {
            InstanceAnswer::NoAggregation
        } else {
            InstanceAnswer::Create
        }),
        r == instance_answer_for(has_target, has_outer),
{
    if !has_target {
        InstanceAnswer::NoTarget
    } else if has_outer {
        InstanceAnswer::NoAggregation
    } else {
        InstanceAnswer::Create
    }
}

/// What keeps the module loaded.
#[derive(Debug, Clone, Copy, PartialEq, Eq, Structural)]
pub struct ModuleUse {
    pub objects: usize,
    pub locks: usize,
}

/// A change in the use of the module.
#[derive(Debug, Clone, Copy, PartialEq, Eq, Structural)]
pub enum UseEvent {
    Created,
    Dropped,
    Locked,
    Unlocked,
}

/// A counter one up, around the top.
pub open spec fn one_up(n: usize) -> usize {
    if n == usize::MAX {
        0
    } else {
        (n + 1) as usize
    }
}

/// A counter one down, around zero.
pub open spec fn one_down(n: usize) -> usize {
    if n == 0 {
        usize::MAX
    } else {
        (n - 1) as usize
    }
}

impl ModuleUse {
    /// The use of a module that was just loaded.
    pub open spec fn unused() -> ModuleUse {
        ModuleUse { objects: 0, locks: 0 }
    }

    /// The use after a change.
    pub open spec fn after(self, event: UseEvent) -> ModuleUse {
        match event {
            UseEvent::Created => ModuleUse { objects: one_up(self.objects), ..self },
            UseEvent::Dropped => ModuleUse { objects: one_down(self.objects), ..self },
            UseEvent::Locked => ModuleUse { locks: one_up(self.locks), ..self },
            UseEvent::Unlocked => ModuleUse { locks: one_down(self.locks), ..self },
        }
    }

    /// The use after a number of changes.
    pub open spec fn after_all(self, events: Seq<UseEvent>) -> ModuleUse
        decreases events.len(),
    {
        if events.len() == 0 {
            self
        } else {
            self.after_all(events.drop_last()).after(events.last())
        }
    }

    pub fn new() -> (r: ModuleUse)
        ensures
            r == ModuleUse::unused(),
    {
        ModuleUse { objects: 0, locks: 0 }
    }

    /// Takes in a change.
    pub fn record(&mut self, event: UseEvent)
        ensures
            *final(self) == old(self).after(event),
    {
        match event {
            UseEvent::Created => {
                self.objects = self.objects.wrapping_add(1);
            },
            UseEvent::Dropped => {
                self.objects = self.objects.wrapping_sub(1);
            },
            UseEvent::Locked => {
                self.locks = self.locks.wrapping_add(1);
            },
            UseEvent::Unlocked => {
                self.locks = self.locks.wrapping_sub(1);
            },
        }
    }

    /// Nothing keeps the module loaded.
    pub open spec fn is_idle(self) -> bool {
        self.objects == 0 && self.locks == 0
    }

    /// Whether the module can be unloaded: no object lives and no lock is held.
    pub fn can_unload(&self) -> (r: bool)
        ensures
            r == (self.objects == 0 && self.locks == 0),
            r == self.is_idle(),
    {
        self.objects == 0 && self.locks == 0
    }
}

/// A content is only ever reported as malicious when the daemon was asked about
/// it and explicitly answered with a block; everything else fails open.
pub proof fn only_an_answered_block_is_detected(
    before: AmsiScan,
    event: ScanEvent,
    after: AmsiScan,
)
    requires
        before !is Done,
        scan_steps(before, event, after),
    ensures
        after == AmsiScan::Done(ProviderDecision::Detected) <==> before is Ask && (
        event matches ScanEvent::Answered(outcome) && blocks(outcome)),
        event is Panicked ==> after == AmsiScan::Done(ProviderDecision::NotDetected),
{
}

/// What is read from the host's memory is never empty, never more than the
/// limit, and never at a null address. What goes on to be scanned is as long as
/// the stream said.
pub proof fn only_scannable_content_is_read(
    start: AmsiScan,
    size: ScanEvent,
    sized: AmsiScan,
    address: ScanEvent,
    after: AmsiScan,
    content: ScanEvent,
    taken: AmsiScan,
)
    requires
        start is ReadSize,
        scan_steps(start, size, sized),
        scan_steps(sized, address, after),
        scan_steps(after, content, taken),
    ensures
        taken matches AmsiScan::ReadAppName { content: c } ==> size == ScanEvent::Number(
            Some(c@.len() as u64),
        ) && 0 < c@.len() <= MAX_CONTENT,
        after matches AmsiScan::ReadContent { address: a, size: n } ==> a != 0 && 0 < n
            <= MAX_CONTENT && size == ScanEvent::Number(Some(n as u64)) && address
            == ScanEvent::Number(Some(a)),
{
}

/// How often an event occurs in a history.
pub open spec fn times(events: Seq<UseEvent>, event: UseEvent) -> nat
    decreases events.len(),
{
    if events.len() == 0 {
        0
    } else {
        times(events.drop_last(), event) + if events.last() == event {
            1nat
        } else {
            0nat
        }
    }
}

/// At no point are there more objects dropped than created, or more locks
/// released than taken.
pub open spec fn balanced(events: Seq<UseEvent>) -> bool {
    forall|i: int|
        0 <= i <= events.len() ==> {
            let past = #[trigger] events.take(i);
            times(past, UseEvent::Dropped) <= times(past, UseEvent::Created) && times(
                past,
                UseEvent::Unlocked,
            ) <= times(past, UseEvent::Locked)
        }
}

/// The counters hold what lives: the objects created and not dropped, and the
/// locks taken and not released. So the module can be unloaded exactly when
/// nothing of either is left.
pub proof fn the_counters_hold_what_lives(events: Seq<UseEvent>)
    requires
        balanced(events),
        events.len() <= usize::MAX,
    ensures
        ({
            let use_now = ModuleUse::unused().after_all(events);
            &&& use_now.objects == times(events, UseEvent::Created) - times(
                events,
                UseEvent::Dropped,
            )
            &&& use_now.locks == times(events, UseEvent::Locked) - times(events, UseEvent::Unlocked)
            &&& use_now.objects + use_now.locks <= events.len()
        }),
    decreases events.len(),
{
    if events.len() > 0 {
        let before = events.drop_last();
        assert forall|i: int| 0 <= i <= before.len() implies {
            let past = #[trigger] before.take(i);
            times(past, UseEvent::Dropped) <= times(past, UseEvent::Created) && times(
                past,
                UseEvent::Unlocked,
            ) <= times(past, UseEvent::Locked)
        } by {
            assert(before.take(i) =~= events.take(i));
        }
        the_counters_hold_what_lives(before);
        assert(events.take(events.len() as int) =~= events);
        assert(before.take(before.len() as int) =~= before);
    }
}

/// A numeric attribute is made of the bytes that were written, the lowest first,
/// and is none where none or too many were.
pub proof fn a_number_is_read_lowest_byte_first(buf: Seq<u8>, written: u32)
    requires
        buf.len() == 8,
    ensures
        number_attribute(buf, written) is Some <==> 1 <= written <= 8,
        number_attribute(buf, 8) == Some(
            (buf[0] + 0x100 * buf[1] + 0x1_0000 * buf[2] + 0x100_0000 * buf[3] + 0x1_0000_0000
                * buf[4] + 0x100_0000_0000 * buf[5] + 0x1_0000_0000_0000 * buf[6]
                + 0x100_0000_0000_0000 * buf[7]) as u64,
        ),
{
    assert(buf.take(8) =~= buf);
    let b1 = buf.drop_first();
    let b2 = b1.drop_first();
    let b3 = b2.drop_first();
    let b4 = b3.drop_first();
    let b5 = b4.drop_first();
    let b6 = b5.drop_first();
    let b7 = b6.drop_first();
    let b8 = b7.drop_first();
    assert(b1[0] == buf[1] && b2[0] == buf[2] && b3[0] == buf[3] && b4[0] == buf[4]);
    assert(b5[0] == buf[5] && b6[0] == buf[6] && b7[0] == buf[7]);
    assert(b8.len() == 0);
    assert(le_value(b8) == 0);
    assert(le_value(b7) == buf[7]);
    assert(le_value(b6) == buf[6] + 256 * le_value(b7));
    assert(le_value(b5) == buf[5] + 256 * le_value(b6));
    assert(le_value(b4) == buf[4] + 256 * le_value(b5));
    assert(le_value(b3) == buf[3] + 256 * le_value(b4));
    assert(le_value(b2) == buf[2] + 256 * le_value(b3));
    assert(le_value(b1) == buf[1] + 256 * le_value(b2));
    assert(le_value(buf) == buf[0] + 256 * le_value(b1));
}

/// Zero bytes on top change nothing: a shorter number is what the whole buffer
/// holds when the rest of it is zero.
pub proof fn a_short_number_is_padded_with_zeros(buf: Seq<u8>, written: u32)
    requires
        buf.len() == 8,
        1 <= written <= 8,
        forall|i: int| written <= i < 8 ==> buf[i] == 0,
    ensures
        number_attribute(buf, written) == number_attribute(buf, 8),
{
    assert(buf.take(8) =~= buf);
    lemma_zeros_on_top(buf, written as int);
}

proof fn lemma_zeros_on_top(b: Seq<u8>, n: int)
    requires
        0 <= n <= b.len(),
        forall|i: int| n <= i < b.len() ==> b[i] == 0,
    ensures
        le_value(b) == le_value(b.take(n)),
    decreases b.len(),
{
    if b.len() > 0 {
        let rest = b.drop_first();
        if n == 0 {
            assert forall|i: int| 0 <= i < rest.len() implies rest[i] == 0 by {
                assert(rest[i] == b[i + 1]);
            }
            lemma_zeros_on_top(rest, 0);
            assert(rest.take(0).len() == 0);
            assert(b.take(0).len() == 0);
            assert(b[0] == 0);
        } else {
            assert forall|i: int| n - 1 <= i < rest.len() implies rest[i] == 0 by {
                assert(rest[i] == b[i + 1]);
            }
            lemma_zeros_on_top(rest, n - 1);
            assert(b.take(n).drop_first() =~= rest.take(n - 1));
        }
    } else {
        assert(b.take(n) =~= b);
    }
}

/// What the bytes beyond those that were written hold does not matter.
pub proof fn only_what_was_written_is_read(a: Seq<u8>, b: Seq<u8>, written: u32)
    requires
        a.len() == b.len(),
        written <= a.len(),
        forall|i: int| 0 <= i < written ==> a[i] == b[i],
    ensures
        number_attribute(a, written) == number_attribute(b, written),
        text_attribute(a, written) == text_attribute(b, written),
{
    assert(a.take(written as int) =~= b.take(written as int));
}

/// A text attribute reads, code unit by code unit and low byte first, up to the
/// first NUL or the end of what was written; it is none where not even one code
/// unit was.
pub proof fn a_text_is_read_up_to_its_nul(buf: Seq<u8>, written: u32, units: Seq<u16>)
    requires
        2 * units.len() <= written,
        2 * units.len() <= buf.len(),
        forall|i: int|
            #![trigger units[i]]
            0 <= i < units.len() ==> units[i] != 0 && units[i] == buf[2 * i] + 256 * buf[2 * i + 1],
        ({
            let next = 2 * units.len() as int;
            ||| written < next + 2
            ||| buf.len() < next + 2
            ||| buf[next] == 0 && buf[next + 1] == 0
        }),
    ensures
        text_attribute(buf, written) is Some <==> written >= 2 && buf.len() >= 2,
        text_attribute(buf, written) matches Some(text) ==> text == decode_utf16_lossy(units),
{
    let n = filled(buf.len(), written) as int;
    let all = le_units(buf.take(n));
    let k = units.len() as int;
    if n >= 2 {
        assert(all.len() == n / 2);
        assert forall|i: int| 0 <= i < k implies #[trigger] all[i] == units[i] by {
            assert(buf.take(n)[2 * i] == buf[2 * i]);
            assert(buf.take(n)[2 * i + 1] == buf[2 * i + 1]);
            assert(units[i] == buf[2 * i] + 256 * buf[2 * i + 1]);
        }
        assert forall|i: int| 0 <= i < k implies all[i] != 0 by {
            assert(all[i] == units[i]);
        }
        if k < all.len() {
            assert(buf.take(n)[2 * k] == buf[2 * k]);
            assert(buf.take(n)[2 * k + 1] == buf[2 * k + 1]);
            assert(all[k] == 0);
        }
        lemma_before_nul(all, k);
        assert(all.take(k) =~= units);
    }
}

/// The path of the module is what the system wrote, character for character where
/// no pairs stand in it; there is none where nothing was written or the buffer was
/// filled to the end.
pub proof fn a_path_is_what_was_written(buf: Seq<u16>, written: int)
    requires
        0 <= written,
        forall|i: int| 0 <= i < buf.len() ==> !(0xD800 <= #[trigger] buf[i] <= 0xDFFF),
    ensures
        path_written(buf, written) is Some <==> 0 < written < buf.len(),
        path_written(buf, written) matches Some(path) ==> path.len() == written && forall|i: int|
            0 <= i < written ==> #[trigger] path[i] as int == buf[i] as int,
{
    if 0 < written < buf.len() {
        let units = buf.take(written);
        assert forall|i: int| 0 <= i < units.len() implies !(0xD800 <= #[trigger] units[i]
            <= 0xDFFF) by {
            assert(units[i] == buf[i]);
        }
        units_without_pairs_are_characters(units);
    }
}

/// A stream of which everything can be read is asked about: about all of its
/// content, under the names that were read. The daemon's answer then decides.
pub proof fn a_clean_scan_asks_about_the_content(
    runs: Seq<AmsiScan>,
    n: u64,
    address: u64,
    content: Vec<u8>,
    app: Option<String>,
    name: Option<String>,
    outcome: Option<DaemonVerdict>,
)
    requires
        runs.len() == 7,
        runs[0] == scan_begins(true),
        0 < n <= 1_048_576,
        address != 0,
        content@.len() == n,
        scan_steps(runs[0], ScanEvent::Number(Some(n)), runs[1]),
        scan_steps(runs[1], ScanEvent::Number(Some(address)), runs[2]),
        scan_steps(runs[2], ScanEvent::Content(content), runs[3]),
        scan_steps(runs[3], ScanEvent::Text(app), runs[4]),
        scan_steps(runs[4], ScanEvent::Text(name), runs[5]),
        scan_steps(runs[5], ScanEvent::Answered(outcome), runs[6]),
    ensures
        runs[2] == (AmsiScan::ReadContent { address, size: n as usize }),
        runs[5] matches AmsiScan::Ask { request } && {
            &&& request.content@ == content_text(content@)
            &&& app matches Some(a) ==> request.source_app@ == a@ && request.language@
                == language_of(a@)
            &&& app is None ==> request.source_app@.len() == 0
            &&& name matches Some(t) ==> request.content_name@ == t@
            &&& name is None ==> request.content_name@.len() == 0
        },
        runs[6] == AmsiScan::Done(ProviderDecision::Detected) <==> (outcome matches Some(v)
            && v.should_block),
        runs[6] is Done,
{
}

/// A scan without a stream, of a content that is empty or larger than a mebibyte,
/// at no address, or of which less or more was taken than it should hold, ends
/// without a detection, and so does one whose action was not answered.
pub proof fn what_cannot_be_read_is_not_detected(
    before: AmsiScan,
    event: ScanEvent,
    after: AmsiScan,
)
    requires
        before !is Done,
        scan_steps(before, event, after),
    ensures
        scan_begins(false) == AmsiScan::Done(ProviderDecision::NotDetected),
        before is ReadSize ==> (after == AmsiScan::Done(ProviderDecision::NotDetected) <==> !(
        event matches ScanEvent::Number(Some(n)) && 0 < n <= 1_048_576)),
        before is ReadAddress ==> (after == AmsiScan::Done(ProviderDecision::NotDetected) <==> !(
        event matches ScanEvent::Number(Some(a)) && a != 0)),
        before matches AmsiScan::ReadContent { size, .. } ==> (after == AmsiScan::Done(
            ProviderDecision::NotDetected,
        ) <==> !(event matches ScanEvent::Content(c) && c@.len() == size)),
        before is ReadAppName || before is ReadContentName ==> (after == AmsiScan::Done(
            ProviderDecision::NotDetected,
        ) <==> event !is Text),
        before is Ask && event !is Answered ==> after == AmsiScan::Done(
            ProviderDecision::NotDetected,
        ),
{
}

/// The class factory is handed out exactly for the class that is served, to those
/// who can take it; an instance is created exactly for those who can take one and
/// do not want it as a part of their own.
pub proof fn only_the_provider_is_handed_out(
    has_target: bool,
    wanted: Option<u128>,
    served: u128,
    has_outer: bool,
)
    ensures
        class_answer_for(has_target, wanted, served) == ClassObjectAnswer::HandOut <==> has_target
            && (wanted matches Some(clsid) && clsid == served),
        class_answer_for(has_target, wanted, served) == ClassObjectAnswer::NoTarget
            <==> !has_target,
        class_answer_for(has_target, wanted, served) == ClassObjectAnswer::MissingArgument
            <==> has_target && wanted is None,
        instance_answer_for(has_target, has_outer) == InstanceAnswer::Create <==> has_target
            && !has_outer,
        instance_answer_for(has_target, has_outer) == InstanceAnswer::NoTarget <==> !has_target,
{
}

/// The module can be unloaded exactly when as many objects were dropped as were
/// created, and as many locks released as taken.
pub proof fn the_module_is_unloaded_when_nothing_lives(events: Seq<UseEvent>)
    requires
        balanced(events),
        events.len() <= usize::MAX,
    ensures
        ModuleUse::unused().after_all(events).is_idle() <==> times(events, UseEvent::Created)
            == times(events, UseEvent::Dropped) && times(events, UseEvent::Locked) == times(
            events,
            UseEvent::Unlocked,
        ),
{
    the_counters_hold_what_lives(events);
}

/// Dropping undoes creating and unlocking undoes locking, around the top too, and
/// neither touches the other counter.
pub proof fn a_use_is_undone_by_its_end(now: ModuleUse)
    ensures
        now.after(UseEvent::Created).after(UseEvent::Dropped) == now,
        now.after(UseEvent::Locked).after(UseEvent::Unlocked) == now,
        now.after(UseEvent::Created).locks == now.locks,
        now.after(UseEvent::Locked).objects == now.objects,
        now.objects < usize::MAX ==> now.after(UseEvent::Created).objects == now.objects + 1,
        now.locks < usize::MAX ==> now.after(UseEvent::Locked).locks == now.locks + 1,
{
}

} // verus!
