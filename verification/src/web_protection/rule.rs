//! Installing and removing the name resolution rule.
//!
//! A rule sends every name on the machine to one server, so two orderings
//! matter. Installing records the rule's GUID before it writes the rule: a
//! crash in between leaves a GUID that names nothing, never a rule that
//! nothing can name. Removing takes the rule away before it forgets the GUID.
use vstd::prelude::*;

use crate::text::{
    a_text_stands_where_it_was_put, ascii_upper, decimal, decimals_are_worth_their_number, lowered,
    occurs, push_decimal, upper, uppered,
};

verus! {

/// The port the DNS Client always queries.
pub const DNS_PORT: u16 = 53;

/// The length of a DNS message header.
pub const HEADER_LEN: usize = 12;

/// An address that a proxy listens on or is queried at.
#[derive(Debug)]
pub struct Endpoint {
    /// The address and port as written.
    pub text: String,
    /// The address alone.
    pub ip: String,
    pub port: u16,
    pub is_ipv4: bool,
}

/// An IPv4 address as written.
pub open spec fn dotted(a: u8, b: u8, c: u8, d: u8) -> Seq<char> {
    decimal(a as nat) + "."@ + decimal(b as nat) + "."@ + decimal(c as nat) + "."@ + decimal(
        d as nat,
    )
}

/// A text that is an IPv4 address as written.
pub open spec fn is_dotted(s: Seq<char>) -> bool {
    exists|a: u8, b: u8, c: u8, d: u8| s == #[trigger] dotted(a, b, c, d)
}

impl Endpoint {
    /// All parts speak of one address and port.
    pub open spec fn well_formed(self) -> bool {
        if self.is_ipv4 {
            &&& is_dotted(self.ip@)
            &&& self.text@ == self.ip@ + ":"@ + decimal(self.port as nat)
        } else {
            self.text@ == "["@ + self.ip@ + "]:"@ + decimal(self.port as nat)
        }
    }

    /// An IPv4 address and a port.
    pub fn v4(a: u8, b: u8, c: u8, d: u8, port: u16) -> (r: Endpoint)
        ensures
            r.well_formed(),
            r.is_ipv4,
            r.ip@ == dotted(a, b, c, d),
            r.port == port,
    {
        let mut ip: String = String::new();
        push_decimal(&mut ip, a as u128);
        ip.append(".");
        push_decimal(&mut ip, b as u128);
        ip.append(".");
        push_decimal(&mut ip, c as u128);
        ip.append(".");
        push_decimal(&mut ip, d as u128);
        proof {
            assert(ip@ =~= dotted(a, b, c, d));
        }
        let mut text: String = ip.clone();
        text.append(":");
        push_decimal(&mut text, port as u128);
        Endpoint { text, ip, port, is_ipv4: true }
    }

    /// An IPv6 address, as written and with its scope where it has one, and a
    /// port.
    pub fn v6(ip: String, port: u16) -> (r: Endpoint)
        ensures
            r.well_formed(),
            !r.is_ipv4,
            r.ip == ip,
            r.port == port,
    {
        let mut text: String = "[".to_owned();
        text.append(ip.as_str());
        text.append("]:");
        push_decimal(&mut text, port as u128);
        Endpoint { text, ip, port, is_ipv4: false }
    }
}

/// `RandomState::new`. Every one is seeded at random, so nothing is claimed of
/// it.
#[verifier::external_body]
fn random_state() -> (r: std::collections::hash_map::RandomState) {
    std::collections::hash_map::RandomState::new()
}

/// `BuildHasher::hash_one` of a number. The hash rests on the random seed of the
/// state, so nothing is claimed of it.
#[verifier::external_body]
fn hash_with(state: &std::collections::hash_map::RandomState, n: u64) -> (r: u64) {
    std::hash::BuildHasher::hash_one(state, n)
}

/// A hash of a number under a fresh random seed. Which one it is is a matter of
/// chance.
pub(crate) fn random_hash(n: u64) -> (r: u64) {
    let state = random_state();
    hash_with(&state, n)
}

/// A hexadecimal digit in lower case.
pub open spec fn is_lower_hex(c: char) -> bool {
    '0' <= c <= '9' || 'a' <= c <= 'f'
}

/// A hexadecimal digit in upper case.
pub open spec fn is_upper_hex(c: char) -> bool {
    '0' <= c <= '9' || 'A' <= c <= 'F'
}

/// Where the hyphens of a UUID stand.
pub open spec fn is_hyphen_place(i: int) -> bool {
    i == 8 || i == 13 || i == 18 || i == 23
}

/// The text of a random (version 4) UUID.
pub open spec fn is_random_uuid(s: Seq<char>) -> bool {
    &&& s.len() == 36
    &&& forall|i: int| 0 <= i < 36 && is_hyphen_place(i) ==> #[trigger] s[i] == '-'
    &&& forall|i: int| 0 <= i < 36 && !is_hyphen_place(i) ==> is_lower_hex(#[trigger] s[i])
    &&& s[14] == '4'
    &&& s[19] == '8' || s[19] == '9' || s[19] == 'a' || s[19] == 'b'
}

/// A random (version 4) GUID in braces, in upper case.
pub open spec fn is_braced_guid(s: Seq<char>) -> bool {
    &&& s.len() == 38
    &&& s[0] == '{'
    &&& s[37] == '}'
    &&& forall|i: int| 0 <= i < 36 && is_hyphen_place(i) ==> #[trigger] s[i + 1] == '-'
    &&& forall|i: int| 0 <= i < 36 && !is_hyphen_place(i) ==> is_upper_hex(#[trigger] s[i + 1])
    &&& s[15] == '4'
    &&& s[20] == '8' || s[20] == '9' || s[20] == 'A' || s[20] == 'B'
}

/// `uuid::Uuid::new_v4`, written by its `Display`: a hyphenated version 4
/// UUID in lower case. Which one is a matter of chance.
#[verifier::external_body]
fn random_uuid() -> (r: String)
    ensures
        is_random_uuid(r@),
{
    uuid::Uuid::new_v4().to_string()
}

/// The rule GUID of a UUID.
pub open spec fn guid_of(uuid: Seq<char>) -> Seq<char> {
    seq!['{'] + uppered(uuid) + seq!['}']
}

/// A UUID as a rule GUID: in braces and in upper case.
pub fn guid_from_uuid(uuid: &str) -> (r: String)
    ensures
        r@ == seq!['{'] + uppered(uuid@) + seq!['}'],
        r@ == guid_of(uuid@),
{
    let mut out: String = String::new();
    out.push('{');
    for c in it: uuid.chars()
        invariant
            out@ == seq!['{'] + uppered(uuid@.take(it.index())),
            it.seq() == uuid@,
    {
        proof {
            assert(uuid@.take(it.index() + 1) =~= uuid@.take(it.index()).push(c));
            assert(uppered(uuid@.take(it.index() + 1)) =~= uppered(uuid@.take(it.index())).push(
                upper(c),
            ));
        }
        out.push(ascii_upper(c));
    }
    proof {
        assert(uuid@.take(uuid@.len() as int) =~= uuid@);
    }
    out.push('}');
    proof {
        assert(out@ =~= seq!['{'] + uppered(uuid@) + seq!['}']);
    }
    out
}

/// A new rule GUID.
pub fn new_guid() -> (r: String)
    ensures
        is_braced_guid(r@),
{
    let uuid: String = random_uuid();
    let guid: String = guid_from_uuid(uuid.as_str());
    proof {
        lemma_guid_shape(uuid@);
    }
    guid
}

/// A version 4 UUID in braces and upper case is a GUID of the shape that is
/// asked for.
proof fn lemma_guid_shape(s: Seq<char>)
    requires
        is_random_uuid(s),
    ensures
        is_braced_guid(seq!['{'] + uppered(s) + seq!['}']),
{
    let g = seq!['{'] + uppered(s) + seq!['}'];
    assert forall|i: int| 0 <= i < 36 && is_hyphen_place(i) implies #[trigger] g[i + 1] == '-' by {
        assert(s[i] == '-');
        assert(g[i + 1] == upper(s[i]));
    }
    assert forall|i: int| 0 <= i < 36 && !is_hyphen_place(i) implies is_upper_hex(
        #[trigger] g[i + 1],
    ) by {
        let c = s[i];
        assert(is_lower_hex(c));
        assert(g[i + 1] == upper(c));
    }
    assert(g[15] == upper(s[14]));
    assert(g[20] == upper(s[19]));
}

/// The probe id in a hash.
pub open spec fn id_in(hash: u64) -> int {
    (hash / 0x10000) as int % 0x10000
}

/// A probe id out of a hash: its third and fourth lowest bytes.
pub fn id_from_hash(hash: u64) -> (r: u16)
    ensures
        r == (hash / 0x10000) % 0x10000,
        r == id_in(hash),
{
    let id: u16 = #[verifier::truncate] ((hash >> 16) as u16);
    assert(((hash >> 16) as u16) == (hash / 0x10000) % 0x10000) by (bit_vector);
    id
}

/// The probes sent so far.
#[derive(Debug, Clone, Copy, PartialEq, Eq, Structural)]
pub struct ProbeIds {
    /// How many there were, around the top.
    pub probes: u64,
    /// The id of the latest one.
    pub last: Option<u16>,
}

impl ProbeIds {
    pub fn new() -> (r: ProbeIds)
        ensures
            r == (ProbeIds { probes: 0, last: None }),
    {
        ProbeIds { probes: 0, last: None }
    }
}

/// The id of a probe: the one that was drawn, or the next one, around the top,
/// where the probe before had that.
pub open spec fn next_id(drawn: u16, last: Option<u16>) -> u16 {
    if last != Some(drawn) {
        drawn
    } else if drawn == u16::MAX {
        0
    } else {
        (drawn + 1) as u16
    }
}

/// The id of a probe, given the id that was drawn and that of the probe before.
pub fn fresh_id(drawn: u16, last: Option<u16>) -> (r: u16)
    ensures
        r == next_id(drawn, last),
        last != Some(r),
{
    match last {
        Some(id) => if id == drawn {
            drawn.wrapping_add(1)
        } else {
            drawn
        },
        None => drawn,
    }
}

/// The id of the next probe. It always differs from that of the probe before, so
/// that a late reply to that one cannot pass for a reply to this one. Apart from
/// that it is a matter of chance: it is drawn from a hash of the probe's number
/// under a fresh random seed.
pub fn rand_id(ids: &mut ProbeIds) -> (r: u16)
    ensures
        old(ids).last != Some(r),
        final(ids).last == Some(r),
        final(ids).probes == (if old(ids).probes == u64::MAX {
            0
        } else {
            old(ids).probes + 1
        }),
{
    let drawn: u16 = id_from_hash(random_hash(ids.probes));
    let id: u16 = fresh_id(drawn, ids.last);
    ids.probes = ids.probes.wrapping_add(1);
    ids.last = Some(id);
    id
}

/// A number of two bytes, the high one first.
pub open spec fn be16(b: Seq<u8>, at: int) -> int {
    b[at] * 256 + b[at + 1]
}

/// A DNS message that answers query `id` with at least one record: the id is
/// that of the query, the response code is NOERROR and the answer section is
/// not empty.
pub open spec fn resolves(b: Seq<u8>, id: u16) -> bool {
    &&& b.len() >= HEADER_LEN
    &&& be16(b, 0) == id
    &&& b[3] % 16 == 0
    &&& be16(b, 6) >= 1
}

/// Whether a reply to query `id` is a real resolution. NOERROR alone is not:
/// a reply without answers is NOERROR too.
pub fn is_resolution(resp: &[u8], id: u16) -> (r: bool)
    ensures
        r == resolves(resp@, id),
{
    if resp.len() < HEADER_LEN {
        return false;
    }
    let reply_id: u16 = resp[0] as u16 * 256 + resp[1] as u16;
    if reply_id != id {
        return false;
    }
    let rcode: u8 = resp[3] % 16;
    let ancount: u16 = resp[6] as u16 * 256 + resp[7] as u16;
    rcode == 0 && ancount >= 1
}

/// The refusal for a proxy on another port than the DNS Client queries.
pub open spec fn wrong_port_text(port: u16) -> Seq<char> {
    "refusing to install a rule for a proxy on port "@ + decimal(port as nat)
        + ": NRPT records only the IP and the DNS Client always queries "@ + decimal(
        DNS_PORT as nat,
    )
}

/// The refusal for a proxy on an IPv6 address.
pub open spec fn not_ipv4_text(listen: Seq<char>) -> Seq<char> {
    "refusing to install a rule for a proxy on "@ + listen
        + ": web protection is IPv4-only, and the reconciler probes 127.0.0.1"@
}

/// The refusal where nothing could remove the rule after a crash.
pub open spec fn no_reconciler_text() -> Seq<char> {
    "the boot reconciler task is not registered, so nothing could remove this rule if the service stopped. Reinstall Sentinella; the installer registers it. (Running from a development build? That is expected — web protection installs no rule without it.)"@
}

/// Where installing a rule stands. The first three ask for something to be
/// done and answered; the last two are final.
#[derive(Debug)]
pub enum InstallRun {
    /// Find out whether the boot reconciler's task is registered.
    CheckReconciler { server: String, existing: Option<String> },
    /// Record the GUID in the state file.
    RecordGuid { guid: String, server: String },
    /// Write the rule, for every name, with this one server.
    WriteRule { guid: String, server: String },
    /// The rule is in force under this GUID.
    Installed { guid: String },
    /// No rule was installed, for this reason.
    Refused { reason: String },
}

/// The answer to what an [`InstallRun`] asked for.
#[derive(Debug)]
pub enum InstallEvent {
    ReconcilerChecked(bool),
    GuidRecorded(Result<(), String>),
    RuleWritten(Result<(), String>),
}

/// A refusal with a given text.
pub open spec fn refused_with(run: InstallRun, reason: Seq<char>) -> bool {
    run matches InstallRun::Refused { reason: r } && r@ == reason
}

/// Where an installation starts.
pub open spec fn install_starts(
    listen: Endpoint,
    existing: Option<String>,
    run: InstallRun,
) -> bool {
    if listen.port != DNS_PORT {
        refused_with(run, wrong_port_text(listen.port))
    } else if !listen.is_ipv4 {
        refused_with(run, not_ipv4_text(listen.text@))
    } else {
        run == (InstallRun::CheckReconciler { server: listen.ip, existing })
    }
}

/// One step of an installation. An answer to something that was not asked for
/// changes nothing.
pub open spec fn install_steps(before: InstallRun, event: InstallEvent, after: InstallRun) -> bool {
    match (before, event) {
        (
            InstallRun::CheckReconciler { server, existing },
            InstallEvent::ReconcilerChecked(present),
        ) => if present {
            &&& after matches InstallRun::RecordGuid { guid, server: s }
            &&& s == server
            &&& match existing {
                Some(g) => guid == g,
                None => is_braced_guid(guid@),
            }
        } else {
            refused_with(after, no_reconciler_text())
        },
        (InstallRun::RecordGuid { guid, server }, InstallEvent::GuidRecorded(result)) => match result {
            Ok(_) => after == (InstallRun::WriteRule { guid, server }),
            Err(e) => refused_with(after, "cannot record rule GUID: "@ + e@),
        },
        (InstallRun::WriteRule { guid, server }, InstallEvent::RuleWritten(result)) => match result {
            Ok(_) => after == (InstallRun::Installed { guid }),
            Err(e) => refused_with(after, "cannot install NRPT rule: "@ + e@),
        },
        _ => after == before,
    }
}

/// A text in front of another.
fn prefixed(prefix: &str, rest: &str) -> (r: String)
    ensures
        r@ == prefix@ + rest@,
{
    let mut out: String = prefix.to_owned();
    out.append(rest);
    out
}

/// Starts installing a rule that sends the machine's DNS to a proxy that
/// listens on `listen`, under the recorded GUID where there is one.
///
/// A rule records a bare address, and the DNS Client queries it on one port:
/// a proxy elsewhere would get a rule that points at nothing.
pub fn install(listen: &Endpoint, existing: Option<String>) -> (r: InstallRun)
    ensures
        install_starts(*listen, existing, r),
{
    if listen.port != DNS_PORT {
        let mut reason: String = "refusing to install a rule for a proxy on port ".to_owned();
        push_decimal(&mut reason, listen.port as u128);
        reason.append(": NRPT records only the IP and the DNS Client always queries ");
        push_decimal(&mut reason, DNS_PORT as u128);
        return InstallRun::Refused { reason };
    }
    if !listen.is_ipv4 {
        let mut reason: String = "refusing to install a rule for a proxy on ".to_owned();
        reason.append(listen.text.as_str());
        reason.append(": web protection is IPv4-only, and the reconciler probes 127.0.0.1");
        return InstallRun::Refused { reason };
    }
    InstallRun::CheckReconciler { server: listen.ip.clone(), existing }
}

impl InstallRun {
    /// Takes the answer to what was asked for.
    pub fn step(self, event: InstallEvent) -> (r: InstallRun)
        ensures
            install_steps(self, event, r),
    {
        match (self, event) {
            (
                InstallRun::CheckReconciler { server, existing },
                InstallEvent::ReconcilerChecked(present),
            ) => {
                if !present {
                    return InstallRun::Refused {
                        reason:
                            "the boot reconciler task is not registered, so nothing could remove this rule if the service stopped. Reinstall Sentinella; the installer registers it. (Running from a development build? That is expected — web protection installs no rule without it.)".to_owned(),
                    };
                }
                let guid: String = match existing {
                    Some(g) => g,
                    None => new_guid(),
                };
                InstallRun::RecordGuid { guid, server }
            },
            (InstallRun::RecordGuid { guid, server }, InstallEvent::GuidRecorded(result)) => {
                match result {
                    Ok(_) => InstallRun::WriteRule { guid, server },
                    Err(e) => InstallRun::Refused {
                        reason: prefixed("cannot record rule GUID: ", e.as_str()),
                    },
                }
            },
            (InstallRun::WriteRule { guid, server }, InstallEvent::RuleWritten(result)) => {
                match result {
                    Ok(_) => InstallRun::Installed { guid },
                    Err(e) => InstallRun::Refused {
                        reason: prefixed("cannot install NRPT rule: ", e.as_str()),
                    },
                }
            },
            (run, _) => run,
        }
    }
}

/// Where removing a rule stands.
#[derive(Debug)]
pub enum RemoveRun {
    /// Remove the rule from the system.
    RemoveRule { guid: String },
    /// Forget the recorded GUID.
    ClearRecord { guid: String },
    /// The rule is gone.
    Removed { guid: String },
    /// The rule could not be removed, for this reason.
    Failed { reason: String },
}

/// The answer to what a [`RemoveRun`] asked for.
#[derive(Debug)]
pub enum RemoveEvent {
    RuleRemoved(Result<(), String>),
    /// The record was cleared, or could not be; a removed rule stays removed
    /// either way.
    RecordCleared,
}

/// One step of a removal. An answer to something that was not asked for
/// changes nothing.
pub open spec fn remove_steps(before: RemoveRun, event: RemoveEvent, after: RemoveRun) -> bool {
    match (before, event) {
        (RemoveRun::RemoveRule { guid }, RemoveEvent::RuleRemoved(result)) => match result {
            Ok(_) => after == (RemoveRun::ClearRecord { guid }),
            Err(e) => after matches RemoveRun::Failed { reason } && reason@
                == "cannot remove NRPT rule: "@ + e@,
        },
        (RemoveRun::ClearRecord { guid }, RemoveEvent::RecordCleared) => after == (
        RemoveRun::Removed { guid }),
        _ => after == before,
    }
}

/// Starts removing a rule. It does no harm where no rule was ever installed.
pub fn remove(guid: String) -> (r: RemoveRun)
    ensures
        r == (RemoveRun::RemoveRule { guid }),
{
    RemoveRun::RemoveRule { guid }
}

impl RemoveRun {
    /// Takes the answer to what was asked for.
    pub fn step(self, event: RemoveEvent) -> (r: RemoveRun)
        ensures
            remove_steps(self, event, r),
    {
        match (self, event) {
            (RemoveRun::RemoveRule { guid }, RemoveEvent::RuleRemoved(result)) => {
                match result {
                    Ok(_) => RemoveRun::ClearRecord { guid },
                    Err(e) => RemoveRun::Failed {
                        reason: prefixed("cannot remove NRPT rule: ", e.as_str()),
                    },
                }
            },
            (RemoveRun::ClearRecord { guid }, RemoveEvent::RecordCleared) => RemoveRun::Removed {
                guid,
            },
            (run, _) => run,
        }
    }
}

/// What an answer of the system says of the presence of a rule.
pub open spec fn presence_in(answer: Option<Result<bool, String>>) -> Option<bool> {
    match answer {
        Some(Ok(present)) => Some(present),
        _ => None,
    }
}

/// Whether a rule of ours is present, given what the system answered for its
/// GUID (`None` where there is no GUID to ask for). `None` means that it
/// could not be told, which is not the same as absent.
pub fn installed_now(answer: Option<Result<bool, String>>) -> (r: Option<bool>)
    ensures
        r == (match answer {
            Some(Ok(present)) => Some(present),
            _ => None,
        }),
        r == presence_in(answer),
{
    match answer {
        Some(Ok(present)) => Some(present),
        _ => None,
    }
}

/// A history of an installation: what it asked for at each point, and the
/// answers in between.
pub open spec fn is_install_history(runs: Seq<InstallRun>, events: Seq<InstallEvent>) -> bool {
    &&& runs.len() == events.len() + 1
    &&& forall|i: int|
        #![trigger events[i]]
        0 <= i < events.len() ==> install_steps(runs[i], events[i], runs[i + 1])
}

/// A history of a removal.
pub open spec fn is_remove_history(runs: Seq<RemoveRun>, events: Seq<RemoveEvent>) -> bool {
    &&& runs.len() == events.len() + 1
    &&& forall|i: int|
        #![trigger events[i]]
        0 <= i < events.len() ==> remove_steps(runs[i], events[i], runs[i + 1])
}

/// The GUID was recorded.
pub open spec fn recorded(event: InstallEvent) -> bool {
    event matches InstallEvent::GuidRecorded(result) && result is Ok
}

/// The rule was removed.
pub open spec fn rule_removed(event: RemoveEvent) -> bool {
    event matches RemoveEvent::RuleRemoved(result) && result is Ok
}

/// The reconciler was found registered, and later the GUID was recorded,
/// before point `k` of a history.
pub open spec fn recorded_before(
    runs: Seq<InstallRun>,
    events: Seq<InstallEvent>,
    guid: String,
    server: String,
    k: int,
) -> bool {
    exists|i: int, j: int|
        #![trigger events[i], events[j]]
        0 <= i < j < k && events[i] == InstallEvent::ReconcilerChecked(true) && runs[j] == (
        InstallRun::RecordGuid { guid, server }) && recorded(events[j])
}

/// A rule is written only after the boot reconciler was found registered and
/// the GUID of that very rule was recorded.
pub proof fn a_rule_is_recorded_before_it_is_written(
    runs: Seq<InstallRun>,
    events: Seq<InstallEvent>,
    listen: Endpoint,
    existing: Option<String>,
    k: int,
)
    requires
        is_install_history(runs, events),
        install_starts(listen, existing, runs[0]),
        0 <= k < runs.len(),
    ensures
        runs[k] matches InstallRun::WriteRule { guid, server } ==> recorded_before(
            runs,
            events,
            guid,
            server,
            k,
        ),
        runs[k] matches InstallRun::Installed { guid } ==> exists|server: String|
            recorded_before(runs, events, guid, server, k),
        runs[k] is RecordGuid ==> exists|i: int|
            0 <= i < k && events[i] == InstallEvent::ReconcilerChecked(true),
    decreases k,
{
    if k > 0 {
        a_rule_is_recorded_before_it_is_written(runs, events, listen, existing, k - 1);
        assert(install_steps(runs[k - 1], events[k - 1], runs[k]));
        if let InstallRun::WriteRule { guid, server } = runs[k] {
            if runs[k - 1] is WriteRule {
                let (i, j) = choose|i: int, j: int|
                    #![trigger events[i], events[j]]
                    0 <= i < j < k - 1 && events[i] == InstallEvent::ReconcilerChecked(true)
                        && runs[j] == (InstallRun::RecordGuid { guid, server }) && recorded(events[j]);
                assert(events[i] == events[i] && events[j] == events[j]);
            } else {
                let i = choose|i: int|
                    0 <= i < k - 1 && events[i] == InstallEvent::ReconcilerChecked(true);
                assert(runs[k - 1] == (InstallRun::RecordGuid { guid, server }));
                assert(recorded(events[k - 1]));
            }
        }
        if let InstallRun::Installed { guid } = runs[k] {
            let server = if let InstallRun::WriteRule { guid: _, server } = runs[k - 1] {
                server
            } else {
                let before = k - 1;
                choose|server: String| recorded_before(runs, events, guid, server, before)
            };
            assert(recorded_before(runs, events, guid, server, k - 1));
            let (i, j) = choose|i: int, j: int|
                #![trigger events[i], events[j]]
                0 <= i < j < k - 1 && events[i] == InstallEvent::ReconcilerChecked(true)
                    && runs[j] == (InstallRun::RecordGuid { guid, server }) && recorded(events[j]);
            assert(events[i] == events[i] && events[j] == events[j]);
            assert(recorded_before(runs, events, guid, server, k));
        }
        if runs[k] is RecordGuid {
            if runs[k - 1] is RecordGuid {
                let i = choose|i: int|
                    0 <= i < k - 1 && events[i] == InstallEvent::ReconcilerChecked(true);
                assert(events[i] == events[i]);
            } else {
                assert(events[k - 1] == InstallEvent::ReconcilerChecked(true));
            }
        }
    }
}

/// The machine is only ever pointed at a proxy that listens where the DNS
/// Client queries: on port 53 of an IPv4 address. The server written is that
/// address: with that port it is the address the proxy listens on. A recorded
/// GUID is used again.
pub proof fn a_rule_points_at_the_listener(
    runs: Seq<InstallRun>,
    events: Seq<InstallEvent>,
    listen: Endpoint,
    existing: Option<String>,
    k: int,
)
    requires
        listen.well_formed(),
        is_install_history(runs, events),
        install_starts(listen, existing, runs[0]),
        0 <= k < runs.len(),
    ensures
        runs[k] matches InstallRun::WriteRule { server, .. } ==> is_dotted(server@) && listen.text@
            == server@ + ":"@ + decimal(DNS_PORT as nat),
        runs[k] !is Refused ==> listen.port == DNS_PORT && listen.is_ipv4,
        match runs[k] {
            InstallRun::CheckReconciler { server, existing: e } => server == listen.ip && e
                == existing,
            InstallRun::RecordGuid { guid, server } => server == listen.ip && (existing is Some
                ==> guid == existing->0),
            InstallRun::WriteRule { guid, server } => server == listen.ip && (existing is Some
                ==> guid == existing->0),
            InstallRun::Installed { guid } => existing is Some ==> guid == existing->0,
            InstallRun::Refused { .. } => true,
        },
    decreases k,
{
    if k > 0 {
        a_rule_points_at_the_listener(runs, events, listen, existing, k - 1);
        assert(install_steps(runs[k - 1], events[k - 1], runs[k]));
    }
}

/// The record of a GUID is cleared only after its rule was removed.
pub proof fn a_record_outlives_its_rule(
    runs: Seq<RemoveRun>,
    events: Seq<RemoveEvent>,
    guid: String,
    k: int,
)
    requires
        is_remove_history(runs, events),
        runs[0] == (RemoveRun::RemoveRule { guid }),
        0 <= k < runs.len(),
    ensures
        runs[k] is ClearRecord || runs[k] is Removed ==> exists|i: int|
            0 <= i < k && runs[i] == (RemoveRun::RemoveRule { guid }) && rule_removed(#[trigger] events[i]),
        runs[k] matches RemoveRun::RemoveRule { guid: g } ==> g == guid,
        runs[k] matches RemoveRun::ClearRecord { guid: g } ==> g == guid,
        runs[k] matches RemoveRun::Removed { guid: g } ==> g == guid,
    decreases k,
{
    if k > 0 {
        a_record_outlives_its_rule(runs, events, guid, k - 1);
        assert(remove_steps(runs[k - 1], events[k - 1], runs[k]));
        if runs[k] is ClearRecord || runs[k] is Removed {
            if runs[k - 1] is RemoveRule {
                assert(rule_removed(events[k - 1]));
            } else {
                let i = choose|i: int|
                    0 <= i < k - 1 && runs[i] == (RemoveRun::RemoveRule { guid })
                        && rule_removed(#[trigger] events[i]);
                assert(events[i] == events[i]);
            }
        }
    }
}

/// A reply resolves a query exactly when it has a whole header of twelve bytes, the
/// two bytes of the query's id first, a response code of zero and at least one
/// answer.
pub proof fn a_resolution_is_known_by_its_header(b: Seq<u8>, id: u16)
    ensures
        resolves(b, id) <==> {
            &&& b.len() >= 12
            &&& b[0] == id / 256 && b[1] == id % 256
            &&& b[3] == 16 * (b[3] / 16)
            &&& b[6] != 0 || b[7] != 0
        },
{
}

/// A reply to one query does not pass for a reply to another.
pub proof fn a_reply_answers_one_query(b: Seq<u8>, id: u16, other: u16)
    requires
        resolves(b, id),
        resolves(b, other),
    ensures
        id == other,
{
}

/// The id of a probe is the drawn one, or its successor where the probe before had
/// that; the successor of the last is zero.
pub proof fn an_id_is_the_drawn_one_or_the_next(drawn: u16, last: Option<u16>)
    ensures
        last != Some(next_id(drawn, last)),
        last != Some(drawn) ==> next_id(drawn, last) == drawn,
        last == Some(drawn) && drawn < 65535 ==> next_id(drawn, last) == drawn + 1,
        last == Some(drawn) && drawn == 65535 ==> next_id(drawn, last) == 0,
{
}

/// The id in a hash is its third and fourth lowest bytes, whatever stands above
/// and below them.
pub proof fn an_id_is_the_third_and_fourth_byte(high: u32, id: u16, low: u16, hash: u64)
    requires
        hash == high * 0x1_0000_0000 + id * 0x1_0000 + low,
    ensures
        id_in(hash) == id,
{
    let upper_part = high * 0x1_0000 + id;
    assert(hash as int / 0x10000 == upper_part) by {
        vstd::arithmetic::div_mod::lemma_fundamental_div_mod_converse(
            hash as int,
            0x10000,
            upper_part,
            low as int,
        );
    }
    vstd::arithmetic::div_mod::lemma_fundamental_div_mod_converse(
        upper_part,
        0x10000,
        high as int,
        id as int,
    );
}

/// A rule GUID gives its UUID back: without its braces and in lower case.
pub proof fn a_guid_gives_its_uuid_back(uuid: Seq<char>)
    requires
        is_random_uuid(uuid),
    ensures
        guid_of(uuid).len() == uuid.len() + 2,
        guid_of(uuid)[0] == '{',
        guid_of(uuid).last() == '}',
        lowered(guid_of(uuid).subrange(1, uuid.len() as int + 1)) == uuid,
        is_braced_guid(guid_of(uuid)),
{
    lemma_guid_shape(uuid);
    let inner = guid_of(uuid).subrange(1, uuid.len() as int + 1);
    assert(inner =~= uppered(uuid));
    assert forall|i: int| 0 <= i < uuid.len() implies #[trigger] lowered(inner)[i] == uuid[i] by {
        if is_hyphen_place(i) {
            assert(uuid[i] == '-');
        } else {
            assert(is_lower_hex(uuid[i]));
        }
    }
    assert(lowered(inner) =~= uuid);
}

/// Installing goes ahead exactly for a proxy on port 53 of an IPv4 address, with
/// that address as the server; any other is refused, and the refusal names the
/// port or the address that is in the way.
pub proof fn only_port_53_of_an_ipv4_address_gets_a_rule(
    listen: Endpoint,
    existing: Option<String>,
    run: InstallRun,
)
    requires
        install_starts(listen, existing, run),
    ensures
        run is CheckReconciler <==> listen.port == 53 && listen.is_ipv4,
        run is CheckReconciler ==> run == (InstallRun::CheckReconciler {
            server: listen.ip,
            existing,
        }),
        run is CheckReconciler || run is Refused,
        run matches InstallRun::Refused { reason } ==> {
            &&& listen.port != 53 ==> occurs(decimal(listen.port as nat), reason@)
            &&& listen.port == 53 ==> occurs(listen.text@, reason@)
        },
{
    let a = "refusing to install a rule for a proxy on port "@;
    let b = ": NRPT records only the IP and the DNS Client always queries "@;
    let port = decimal(listen.port as nat);
    a_text_stands_where_it_was_put(a, port, b + decimal(53));
    assert(wrong_port_text(listen.port) =~= a + port + (b + decimal(53)));
    a_text_stands_where_it_was_put(
        "refusing to install a rule for a proxy on "@,
        listen.text@,
        ": web protection is IPv4-only, and the reconciler probes 127.0.0.1"@,
    );
}

/// An installation of which everything succeeds ends with the rule in force, under
/// the GUID that was recorded and written: the one there was, or a fresh one where
/// there was none.
pub proof fn an_installation_of_which_everything_succeeds_installs(
    runs: Seq<InstallRun>,
    events: Seq<InstallEvent>,
    listen: Endpoint,
    existing: Option<String>,
)
    requires
        is_install_history(runs, events),
        install_starts(listen, existing, runs[0]),
        listen.port == 53,
        listen.is_ipv4,
        events.len() == 3,
        events[0] == InstallEvent::ReconcilerChecked(true),
        events[1] == InstallEvent::GuidRecorded(Ok(())),
        events[2] == InstallEvent::RuleWritten(Ok(())),
    ensures
        runs[3] matches InstallRun::Installed { guid } && {
            &&& runs[1] == (InstallRun::RecordGuid { guid, server: listen.ip })
            &&& runs[2] == (InstallRun::WriteRule { guid, server: listen.ip })
            &&& existing matches Some(g) ==> guid == g
            &&& existing is None ==> is_braced_guid(guid@)
        },
{
    assert(install_steps(runs[0], events[0], runs[1]));
    assert(install_steps(runs[1], events[1], runs[2]));
    assert(install_steps(runs[2], events[2], runs[3]));
}

/// An installation that fails is refused, and the refusal holds what went wrong;
/// without a boot reconciler there is no rule at all. What is installed or refused
/// stays so.
pub proof fn a_failed_installation_says_why(
    before: InstallRun,
    event: InstallEvent,
    after: InstallRun,
)
    requires
        install_steps(before, event, after),
    ensures
        before is CheckReconciler && event == InstallEvent::ReconcilerChecked(false) ==> (after
            matches InstallRun::Refused { reason } && reason@
            == "the boot reconciler task is not registered, so nothing could remove this rule if the service stopped. Reinstall Sentinella; the installer registers it. (Running from a development build? That is expected — web protection installs no rule without it.)"@),
        before is RecordGuid ==> (event matches InstallEvent::GuidRecorded(Err(e)) ==> (after
            matches InstallRun::Refused { reason } && reason@ == "cannot record rule GUID: "@
            + e@)),
        before is WriteRule ==> (event matches InstallEvent::RuleWritten(Err(e)) ==> (after matches
            InstallRun::Refused { reason } && reason@ == "cannot install NRPT rule: "@ + e@)),
        before is Installed || before is Refused ==> after == before,
{
}

/// A removal that succeeds forgets the GUID and ends; one that fails keeps it on
/// record and says why.
pub proof fn a_removal_goes_by_its_result(
    before: RemoveRun,
    event: RemoveEvent,
    after: RemoveRun,
)
    requires
        remove_steps(before, event, after),
    ensures
        before matches RemoveRun::RemoveRule { guid } ==> {
            &&& event matches RemoveEvent::RuleRemoved(Ok(_)) ==> after == (
            RemoveRun::ClearRecord { guid })
            &&& event matches RemoveEvent::RuleRemoved(Err(e)) ==> (after matches
                RemoveRun::Failed { reason } && reason@ == "cannot remove NRPT rule: "@ + e@)
            &&& event is RecordCleared ==> after == before
        },
        before matches RemoveRun::ClearRecord { guid } ==> event is RecordCleared ==> after == (
        RemoveRun::Removed { guid }),
        before is Removed || before is Failed ==> after == before,
{
}

/// The presence of a rule is known exactly where the system told of it: without an
/// answer, or after a failure, it is neither there nor absent.
pub proof fn an_unknown_rule_is_not_an_absent_one(
    answer: Option<Result<bool, String>>,
    present: bool,
)
    ensures
        presence_in(answer) == Some(present) <==> answer == Some(Ok::<bool, String>(present)),
        presence_in(answer) is None <==> answer is None || answer->0 is Err,
{
}

/// An IPv4 address is written as its four numbers in order, with a dot between
/// each two.
pub proof fn an_address_is_four_numbers_with_dots(a: u8, b: u8, c: u8, d: u8)
    ensures
        ({
            let dot = seq!['.'];
            dotted(a, b, c, d) == decimal(a as nat) + dot + decimal(b as nat) + dot + decimal(
                c as nat,
            ) + dot + decimal(d as nat)
        }),
        decimal(a as nat).is_prefix_of(dotted(a, b, c, d)),
        dotted(a, b, c, d).len() >= 7,
{
    reveal_strlit(".");
    assert("."@ =~= seq!['.']);
    let all = dotted(a, b, c, d);
    assert(decimal(a as nat) =~= all.take(decimal(a as nat).len() as int));
    decimals_are_worth_their_number(a as nat);
    decimals_are_worth_their_number(b as nat);
    decimals_are_worth_their_number(c as nat);
    decimals_are_worth_their_number(d as nat);
}

/// A rule GUID is written in braces as thirty-two hexadecimal digits in upper case,
/// in groups of eight, four, four, four and twelve; it is one of the fourth
/// version.
pub proof fn a_guid_is_five_groups_of_digits(guid: Seq<char>, i: int)
    requires
        is_braced_guid(guid),
        0 <= i < 38,
    ensures
        guid.len() == 38,
        i == 0 ==> guid[i] == '{',
        i == 37 ==> guid[i] == '}',
        i == 9 || i == 14 || i == 19 || i == 24 ==> guid[i] == '-',
        0 < i < 37 && i != 9 && i != 14 && i != 19 && i != 24 ==> '0' <= guid[i] <= '9' || 'A'
            <= guid[i] <= 'F',
        guid[15] == '4',
        guid[20] == '8' || guid[20] == '9' || guid[20] == 'A' || guid[20] == 'B',
{
    let at = i - 1;
    assert(guid[at + 1] == guid[i]);
}

/// An address that is well formed is written with its port behind a colon, in
/// brackets where it is none of IPv4; one of IPv4 is four numbers from 0 to 255.
pub proof fn an_endpoint_is_an_address_and_a_port(e: Endpoint)
    requires
        e.well_formed(),
    ensures
        e.is_ipv4 ==> e.text@ == e.ip@ + ":"@ + decimal(e.port as nat) && exists|
            a: u8,
            b: u8,
            c: u8,
            d: u8,
        | e.ip@ == #[trigger] dotted(a, b, c, d),
        !e.is_ipv4 ==> e.text@ == "["@ + e.ip@ + "]:"@ + decimal(e.port as nat),
{
}

} // verus!
