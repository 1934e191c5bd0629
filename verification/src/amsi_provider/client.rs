//! The JSON-RPC client of the daemon: request, reply and framing.
//!
//! A frame is a four-byte big-endian length followed by that many bytes of
//! UTF-8 JSON. Every failure on the way fails open.
use vstd::prelude::*;

use crate::amsi_provider::decision::{decision_for, DaemonVerdict, ProviderDecision};
use crate::amsi_provider::json::{
    json_as_bool, json_as_u64, json_get, json_insert, json_number, json_object, json_parse,
    json_text, json_to_bytes,
};
use crate::amsi_provider::json::{json_bytes, json_document, json_tree, JsonTree};
use crate::text::{is_white, trim, trimmed, trimming_takes_the_white_ends};

verus! {

/// The largest body of a frame, in bytes.
pub const MAX_FRAME: usize = 1_048_576;

/// The shortest secret that is used, in bytes.
pub const MIN_SECRET_LEN: usize = 32;

/// The parameters of a `runtime.scan_buffer` request.
pub open spec fn request_params(
    content: Seq<char>,
    language: Seq<char>,
    source_app: Seq<char>,
    content_name: Seq<char>,
    source_pid: u32,
    auth: Option<Seq<char>>,
) -> Map<Seq<char>, JsonTree> {
    let common = map![
        "content"@ => JsonTree::Text(content),
        "language"@ => JsonTree::Text(language),
        "source_app"@ => JsonTree::Text(source_app),
        "content_name"@ => JsonTree::Text(content_name),
        "source_pid"@ => JsonTree::Unsigned(source_pid as u64),
    ];
    match auth {
        Some(a) => common.insert("auth"@, JsonTree::Text(a)),
        None => common,
    }
}

/// A `runtime.scan_buffer` request with the given parameters.
pub open spec fn request_tree(params: Map<Seq<char>, JsonTree>) -> JsonTree {
    JsonTree::Object(
        map![
            "jsonrpc"@ => JsonTree::Text("2.0"@),
            "id"@ => JsonTree::Unsigned(1),
            "method"@ => JsonTree::Text("runtime.scan_buffer"@),
            "params"@ => JsonTree::Object(params),
        ],
    )
}

/// The text of an optional string slice.
pub open spec fn slice_text(o: Option<&str>) -> Option<Seq<char>> {
    match o {
        Some(s) => Some(s@),
        None => None,
    }
}

/// The body of a `runtime.scan_buffer` request.
///
/// The daemon takes `content` as text. `source_pid` lets it correlate the scan
/// with the lineage of the process.
pub fn build_request(
    content: &str,
    language: &str,
    source_app: &str,
    content_name: &str,
    source_pid: u32,
    auth: Option<&str>,
) -> (r: Vec<u8>)
    ensures
        r@.len() > 0,
        r@ == json_bytes(
            request_tree(
                request_params(
                    content@,
                    language@,
                    source_app@,
                    content_name@,
                    source_pid,
                    slice_text(auth),
                ),
            ),
        ),
        json_document(r@) == Some(
            request_tree(
                request_params(
                    content@,
                    language@,
                    source_app@,
                    content_name@,
                    source_pid,
                    slice_text(auth),
                ),
            ),
        ),
{
    let mut params = json_object();
    json_insert(&mut params, "content", json_text(content));
    json_insert(&mut params, "language", json_text(language));
    json_insert(&mut params, "source_app", json_text(source_app));
    json_insert(&mut params, "content_name", json_text(content_name));
    json_insert(&mut params, "source_pid", json_number(source_pid as u64));
    if let Some(a) = auth {
        json_insert(&mut params, "auth", json_text(a));
    }
    let mut request = json_object();
    json_insert(&mut request, "jsonrpc", json_text("2.0"));
    json_insert(&mut request, "id", json_number(1));
    json_insert(&mut request, "method", json_text("runtime.scan_buffer"));
    json_insert(&mut request, "params", params);
    json_to_bytes(&request)
}

/// The members of a reply that the verdict depends on.
#[derive(Debug, Clone, Copy, PartialEq, Eq, Structural)]
pub struct ReplyFields {
    /// The reply is a JSON-RPC error.
    pub has_error: bool,
    pub ok: Option<bool>,
    pub should_block: Option<bool>,
    pub score: Option<u64>,
}

/// A member of an object that is a truth value.
pub open spec fn truth_field(t: JsonTree, key: Seq<char>) -> Option<bool> {
    match t.field(key) {
        Some(x) => x.truth(),
        None => None,
    }
}

/// A member of an object that is an unsigned number.
pub open spec fn unsigned_field(t: JsonTree, key: Seq<char>) -> Option<u64> {
    match t.field(key) {
        Some(x) => x.unsigned(),
        None => None,
    }
}

/// The payload of a reply: what stands under `result`, or the whole reply
/// where there is no `result`.
pub open spec fn payload(t: JsonTree) -> JsonTree {
    match t.field("result"@) {
        Some(x) => x,
        None => t,
    }
}

/// What a reply says.
pub open spec fn fields_of(t: JsonTree) -> ReplyFields {
    ReplyFields {
        has_error: t.field("error"@) is Some,
        ok: truth_field(payload(t), "ok"@),
        should_block: truth_field(payload(t), "should_block"@),
        score: unsigned_field(payload(t), "score"@),
    }
}

/// The verdict that a reply stands for: none of a JSON-RPC error or of a result
/// that is not `ok`. A missing `should_block` does not block, a missing score
/// is zero, and of a large score the low 32 bits count.
pub open spec fn verdict_of(f: ReplyFields) -> Option<DaemonVerdict> {
    if f.has_error || f.ok == Some(false) {
        None
    } else {
        Some(
            DaemonVerdict {
                score: match f.score {
                    Some(n) => (n % 0x1_0000_0000) as u32,
                    None => 0,
                },
                should_block: f.should_block == Some(true),
            },
        )
    }
}

fn bool_field(v: &serde_json::Value, key: &str) -> (r: Option<bool>)
    ensures
        r == truth_field(json_tree(*v), key@),
{
    match json_get(v, key) {
        Some(x) => json_as_bool(x),
        None => None,
    }
}

fn u64_field(v: &serde_json::Value, key: &str) -> (r: Option<u64>)
    ensures
        r == unsigned_field(json_tree(*v), key@),
{
    match json_get(v, key) {
        Some(x) => json_as_u64(x),
        None => None,
    }
}

/// Reads the members of a reply that the verdict depends on.
pub fn reply_fields(v: &serde_json::Value) -> (r: ReplyFields)
    ensures
        r == fields_of(json_tree(*v)),
{
    let has_error = json_get(v, "error").is_some();
    let result = match json_get(v, "result") {
        Some(x) => x,
        None => v,
    };
    ReplyFields {
        has_error,
        ok: bool_field(result, "ok"),
        should_block: bool_field(result, "should_block"),
        score: u64_field(result, "score"),
    }
}

/// The verdict that a reply stands for.
pub fn verdict_from_fields(f: ReplyFields) -> (r: Option<DaemonVerdict>)
    ensures
        r == verdict_of(f),
{
    if f.has_error {
        return None;
    }
    match f.ok {
        Some(ok) => {
            if !ok {
                return None;
            }
        },
        None => {},
    }
    let should_block = match f.should_block {
        Some(b) => b,
        None => false,
    };
    let score: u32 = match f.score {
        Some(n) => (n % 0x1_0000_0000) as u32,
        None => 0,
    };
    Some(DaemonVerdict { score, should_block })
}

/// The verdict of the document that a reply is, if it is one.
pub open spec fn reply_verdict(document: Option<JsonTree>) -> Option<DaemonVerdict> {
    match document {
        Some(t) => verdict_of(fields_of(t)),
        None => None,
    }
}

/// Parses the body of a reply of the daemon. `None`, which fails open, for
/// anything unparseable, a JSON-RPC error or a result that is not `ok`.
pub fn parse_response(bytes: &[u8]) -> (r: Option<DaemonVerdict>)
    ensures
        r == reply_verdict(json_document(bytes@)),
{
    match json_parse(bytes) {
        Some(v) => verdict_from_fields(reply_fields(&v)),
        None => None,
    }
}

/// The big-endian bytes of a number.
pub open spec fn be_bytes(n: u32) -> Seq<u8> {
    seq![
        (n / 0x100_0000) as u8,
        (n / 0x1_0000 % 0x100) as u8,
        (n / 0x100 % 0x100) as u8,
        (n % 0x100) as u8,
    ]
}

/// The number that four big-endian bytes stand for.
pub open spec fn be_value(b: Seq<u8>) -> int {
    b[0] * 0x100_0000 + b[1] * 0x1_0000 + b[2] * 0x100 + b[3]
}

/// The length prefix of a frame.
pub fn length_prefix(n: u32) -> (r: Vec<u8>)
    ensures
        r@ == be_bytes(n),
{
    let mut out: Vec<u8> = Vec::new();
    out.push((n / 0x100_0000) as u8);
    out.push((n / 0x1_0000 % 0x100) as u8);
    out.push((n / 0x100 % 0x100) as u8);
    out.push((n % 0x100) as u8);
    out
}

/// The length that a length prefix announces.
pub fn announced_length(b: &[u8]) -> (r: u32)
    requires
        b@.len() == 4,
    ensures
        r == be_value(b@),
{
    b[0] as u32 * 0x100_0000 + b[1] as u32 * 0x1_0000 + b[2] as u32 * 0x100 + b[3] as u32
}

/// A length that a frame can have.
pub open spec fn frame_fits(len: int) -> bool {
    0 < len <= MAX_FRAME
}

/// The secret that authenticates requests: the text of the secret file without
/// surrounding white space, unless it is too short.
pub open spec fn secret_in(raw: Seq<char>) -> Option<Seq<char>> {
    if vstd::utf8::encode_utf8(trimmed(raw)).len() >= MIN_SECRET_LEN {
        Some(trimmed(raw))
    } else {
        None
    }
}

/// Takes the secret from the text of the secret file.
pub fn usable_secret(raw: &str) -> (r: Option<&str>)
    ensures
        slice_text(r) == secret_in(raw@),
{
    let t = trim(raw);
    let bytes = t.as_bytes();
    if bytes.len() >= MIN_SECRET_LEN {
        Some(t)
    } else {
        None
    }
}

/// Where a round-trip with the daemon stands. Each variant names the next
/// action on the pipe.
#[derive(Debug)]
pub enum ScanExchange {
    /// Open the pipe for reading and writing.
    Open { body: Vec<u8> },
    /// Write the length prefix.
    WriteLength { length: Vec<u8>, body: Vec<u8> },
    /// Write the body.
    WriteBody { body: Vec<u8> },
    /// Flush the pipe.
    Flush,
    /// Read the four bytes of the length prefix.
    ReadLength,
    /// Read a body of that many bytes.
    ReadBody { len: usize },
    /// The round-trip is over.
    Done(Option<DaemonVerdict>),
}

/// What an action on the pipe came to.
#[derive(Debug)]
pub enum PipeEvent {
    Failed,
    /// The pipe was opened, written to or flushed.
    Completed,
    /// Bytes were read.
    Received(Vec<u8>),
}

/// The start of a round-trip that is to send `bytes`.
pub open spec fn exchange_starts(bytes: Seq<u8>, start: ScanExchange) -> bool {
    if frame_fits(bytes.len() as int) {
        start matches ScanExchange::Open { body } && body@ == bytes
    } else {
        start == ScanExchange::Done(None)
    }
}

/// One step of a round-trip. An event that does not answer the action fails
/// open, as a failure does.
pub open spec fn exchange_steps(
    before: ScanExchange,
    event: PipeEvent,
    after: ScanExchange,
) -> bool {
    match (before, event) {
        (ScanExchange::Done(v), _) => after == ScanExchange::Done(v),
        (ScanExchange::Open { body }, PipeEvent::Completed) => {
            after matches ScanExchange::WriteLength { length, body: b } && b == body && length@
                == be_bytes(body@.len() as u32)
        },
        (ScanExchange::WriteLength { length, body }, PipeEvent::Completed) => after == (
        ScanExchange::WriteBody { body }),
        (ScanExchange::WriteBody { body }, PipeEvent::Completed) => after == ScanExchange::Flush,
        (ScanExchange::Flush, PipeEvent::Completed) => after == ScanExchange::ReadLength,
        (ScanExchange::ReadLength, PipeEvent::Received(bytes)) => after == (if bytes@.len() == 4
            && frame_fits(be_value(bytes@)) {
            ScanExchange::ReadBody { len: be_value(bytes@) as usize }
        } else {
            ScanExchange::Done(None)
        }),
        (ScanExchange::ReadBody { len }, PipeEvent::Received(bytes)) => after
            == ScanExchange::Done(
            if bytes@.len() == len {
                reply_verdict(json_document(bytes@))
            } else {
                None
            },
        ),
        _ => after == ScanExchange::Done(None),
    }
}

/// The bytes of a request that is authenticated with a secret.
pub open spec fn authenticated_bytes(
    content: Seq<char>,
    language: Seq<char>,
    source_app: Seq<char>,
    content_name: Seq<char>,
    source_pid: u32,
    secret: Seq<char>,
) -> Seq<u8> {
    json_bytes(
        request_tree(
            request_params(content, language, source_app, content_name, source_pid, Some(secret)),
        ),
    )
}

/// The start of a scan round-trip, with a secret or without one.
pub open spec fn scan_starts(
    content: Seq<char>,
    language: Seq<char>,
    source_app: Seq<char>,
    content_name: Seq<char>,
    source_pid: u32,
    secret: Option<Seq<char>>,
    run: ScanExchange,
) -> bool {
    match secret {
        Some(auth) => exchange_starts(
            authenticated_bytes(content, language, source_app, content_name, source_pid, auth),
            run,
        ),
        None => run == ScanExchange::Done(None),
    }
}

/// The secret in a secret file that could be read.
pub open spec fn secret_of_file(file: Option<Seq<char>>) -> Option<Seq<char>> {
    match file {
        Some(raw) => secret_in(raw),
        None => None,
    }
}

/// Starts a scan round-trip with the daemon. Every request is authenticated:
/// without a secret the scan fails open, and so does a request that is too large
/// for a frame, both without touching the pipe. Every other request is sent.
pub fn scan_once(
    content: &str,
    language: &str,
    source_app: &str,
    content_name: &str,
    source_pid: u32,
    auth: Option<&str>,
) -> (r: ScanExchange)
    ensures
        auth is None ==> r == ScanExchange::Done(None),
        auth matches Some(secret) ==> exchange_starts(
            authenticated_bytes(
                content@,
                language@,
                source_app@,
                content_name@,
                source_pid,
                secret@,
            ),
            r,
        ),
        auth matches Some(secret) ==> (r is Open <==> authenticated_bytes(
            content@,
            language@,
            source_app@,
            content_name@,
            source_pid,
            secret@,
        ).len() <= MAX_FRAME),
        scan_starts(
            content@,
            language@,
            source_app@,
            content_name@,
            source_pid,
            slice_text(auth),
            r,
        ),
{
    if auth.is_none() {
        return ScanExchange::Done(None);
    }
    send(build_request(content, language, source_app, content_name, source_pid, auth))
}

/// Starts a scan round-trip, given the text of the secret file if it could be
/// read. A secret that is missing or too short fails open.
pub fn scan_with_secret_file(
    content: &str,
    language: &str,
    source_app: &str,
    content_name: &str,
    source_pid: u32,
    secret_file: Option<&str>,
) -> (r: ScanExchange)
    ensures
        match secret_file {
            Some(raw) => match secret_in(raw@) {
                Some(secret) => {
                    let bytes = authenticated_bytes(
                        content@,
                        language@,
                        source_app@,
                        content_name@,
                        source_pid,
                        secret,
                    );
                    exchange_starts(bytes, r) && (r is Open <==> bytes.len() <= MAX_FRAME)
                },
                None => r == ScanExchange::Done(None),
            },
            None => r == ScanExchange::Done(None),
        },
        scan_starts(
            content@,
            language@,
            source_app@,
            content_name@,
            source_pid,
            secret_of_file(slice_text(secret_file)),
            r,
        ),
{
    let secret = match secret_file {
        Some(raw) => usable_secret(raw),
        None => None,
    };
    scan_once(content, language, source_app, content_name, source_pid, secret)
}

/// Starts a round-trip that sends the given body.
pub fn send(body: Vec<u8>) -> (r: ScanExchange)
    ensures
        exchange_starts(body@, r),
{
    if body.len() == 0 || body.len() > MAX_FRAME {
        return ScanExchange::Done(None);
    }
    ScanExchange::Open { body }
}

impl ScanExchange {
    /// Takes in what the named action came to.
    pub fn step(self, event: PipeEvent) -> (r: ScanExchange)
        ensures
            exchange_steps(self, event, r),
    {
        match (self, event) {
            (ScanExchange::Done(v), _) => ScanExchange::Done(v),
            (ScanExchange::Open { body }, PipeEvent::Completed) => {
                let length = length_prefix(body.len() as u32);
                ScanExchange::WriteLength { length, body }
            },
            (
                ScanExchange::WriteLength { length: _, body },
                PipeEvent::Completed,
            ) => ScanExchange::WriteBody { body },
            (ScanExchange::WriteBody { body: _ }, PipeEvent::Completed) => ScanExchange::Flush,
            (ScanExchange::Flush, PipeEvent::Completed) => ScanExchange::ReadLength,
            (ScanExchange::ReadLength, PipeEvent::Received(bytes)) => {
                if bytes.len() != 4 {
                    return ScanExchange::Done(None);
                }
                let n: u32 = announced_length(bytes.as_slice());
                if n == 0 || n as usize > MAX_FRAME {
                    return ScanExchange::Done(None);
                }
                ScanExchange::ReadBody { len: n as usize }
            },
            (ScanExchange::ReadBody { len }, PipeEvent::Received(bytes)) => {
                if bytes.len() != len {
                    return ScanExchange::Done(None);
                }
                ScanExchange::Done(parse_response(bytes.as_slice()))
            },
            _ => ScanExchange::Done(None),
        }
    }
}

/// A request gives each of its fields back: the members of its parameters are
/// the arguments, and `auth` is there exactly when there is a secret.
pub proof fn a_request_gives_its_fields_back(
    content: Seq<char>,
    language: Seq<char>,
    source_app: Seq<char>,
    content_name: Seq<char>,
    source_pid: u32,
    auth: Option<Seq<char>>,
)
    ensures
        ({
            let t = request_tree(
                request_params(content, language, source_app, content_name, source_pid, auth),
            );
            &&& t.field("jsonrpc"@) == Some(JsonTree::Text("2.0"@))
            &&& t.field("id"@) == Some(JsonTree::Unsigned(1))
            &&& t.field("method"@) == Some(JsonTree::Text("runtime.scan_buffer"@))
            &&& t.field("params"@) matches Some(p) && {
                &&& p.field("content"@) == Some(JsonTree::Text(content))
                &&& p.field("language"@) == Some(JsonTree::Text(language))
                &&& p.field("source_app"@) == Some(JsonTree::Text(source_app))
                &&& p.field("content_name"@) == Some(JsonTree::Text(content_name))
                &&& p.field("source_pid"@) == Some(JsonTree::Unsigned(source_pid as u64))
                &&& p.field("auth"@) == match auth {
                    Some(a) => Some(JsonTree::Text(a)),
                    None => None,
                }
            }
        }),
{
    reveal_strlit("jsonrpc");
    reveal_strlit("id");
    reveal_strlit("method");
    reveal_strlit("params");
    reveal_strlit("content");
    reveal_strlit("language");
    reveal_strlit("source_app");
    reveal_strlit("content_name");
    reveal_strlit("source_pid");
    reveal_strlit("auth");
    assert("content"@.len() == 7 && "language"@.len() == 8 && "source_app"@.len() == 10
        && "content_name"@.len() == 12 && "source_pid"@.len() == 10 && "auth"@.len() == 4);
    assert("source_app"@[7] == 'a' && "source_pid"@[7] == 'p');
    assert("jsonrpc"@.len() == 7 && "id"@.len() == 2 && "method"@.len() == 6 && "params"@.len()
        == 6);
    assert("method"@[0] == 'm' && "params"@[0] == 'p');
}

/// A length prefix announces the length it was made from.
pub proof fn a_length_prefix_is_read_back(n: u32)
    ensures
        be_value(be_bytes(n)) == n,
        be_bytes(n).len() == 4,
{
}

/// What is announced ahead of a body is the length of that body, and the body
/// that follows is the one the round-trip was to send.
pub proof fn the_length_of_the_body_is_announced(
    bytes: Seq<u8>,
    start: ScanExchange,
    opened: ScanExchange,
)
    requires
        frame_fits(bytes.len() as int),
        exchange_starts(bytes, start),
        exchange_steps(start, PipeEvent::Completed, opened),
    ensures
        opened is WriteLength,
        be_value(opened->length@) == bytes.len(),
        opened->WriteLength_body@ == bytes,
{
    a_length_prefix_is_read_back(bytes.len() as u32);
}

/// A round-trip in which everything succeeds ends with the verdict of the reply
/// that was framed and sent back.
pub proof fn a_clean_round_trip_ends_in_the_verdict(
    bytes: Seq<u8>,
    runs: Seq<ScanExchange>,
    prefix: Vec<u8>,
    reply: Vec<u8>,
)
    requires
        frame_fits(bytes.len() as int),
        frame_fits(reply@.len() as int),
        prefix@ == be_bytes(reply@.len() as u32),
        runs.len() == 7,
        exchange_starts(bytes, runs[0]),
        exchange_steps(runs[0], PipeEvent::Completed, runs[1]),
        exchange_steps(runs[1], PipeEvent::Completed, runs[2]),
        exchange_steps(runs[2], PipeEvent::Completed, runs[3]),
        exchange_steps(runs[3], PipeEvent::Completed, runs[4]),
        exchange_steps(runs[4], PipeEvent::Received(prefix), runs[5]),
        exchange_steps(runs[5], PipeEvent::Received(reply), runs[6]),
    ensures
        runs[2] matches ScanExchange::WriteBody { body } && body@ == bytes,
        runs[6] == ScanExchange::Done(reply_verdict(json_document(reply@))),
{
    a_length_prefix_is_read_back(reply@.len() as u32);
}

/// Every failure on the pipe fails open.
pub proof fn a_failure_fails_open(before: ScanExchange, after: ScanExchange)
    requires
        before !is Done,
        exchange_steps(before, PipeEvent::Failed, after),
    ensures
        after == ScanExchange::Done(None),
{
}

/// A verdict comes only from a reply that was read in full, and is the verdict
/// of that reply.
pub proof fn a_verdict_comes_from_a_reply(
    before: ScanExchange,
    event: PipeEvent,
    after: ScanExchange,
    v: DaemonVerdict,
)
    requires
        before !is Done,
        exchange_steps(before, event, after),
        after == ScanExchange::Done(Some(v)),
    ensures
        before is ReadBody,
        event is Received,
        reply_verdict(json_document(event->Received_0@)) == Some(v),
{
}

/// A reply that carries a JSON-RPC error never blocks, whatever else it says.
pub proof fn an_error_reply_fails_open(t: JsonTree)
    requires
        t.field("error"@) is Some,
    ensures
        reply_verdict(Some(t)) is None,
{
}

/// A reply is read member by member: there is no verdict exactly when the reply
/// has an `error` or its payload has `ok` false; the verdict blocks exactly when
/// the payload's `should_block` is true, whatever the score; and its score is the
/// low 32 bits of the payload's. The payload is the object under `result`, or the
/// reply itself where there is no `result`.
pub proof fn a_verdict_says_what_the_reply_says(
    reply: Map<Seq<char>, JsonTree>,
    payload: Map<Seq<char>, JsonTree>,
)
    requires
        if reply.contains_key("result"@) {
            reply["result"@] == JsonTree::Object(payload)
        } else {
            payload == reply
        },
    ensures
        reply_verdict(Some(JsonTree::Object(reply))) is None <==> reply.contains_key("error"@) || (
        payload.contains_key("ok"@) && payload["ok"@] == JsonTree::Bool(false)),
        reply_verdict(Some(JsonTree::Object(reply))) matches Some(v) ==> {
            &&& v.should_block <==> payload.contains_key("should_block"@) && payload["should_block"@]
                == JsonTree::Bool(true)
            &&& !payload.contains_key("score"@) || payload["score"@] !is Unsigned ==> v.score == 0
            &&& payload.contains_key("score"@) && payload["score"@] is Unsigned ==> v.score
                == payload["score"@]->Unsigned_0 as int % 0x1_0000_0000
        },
{
    if payload.contains_key("score"@) {
        if let JsonTree::Unsigned(n) = payload["score"@] {
            assert((n % 0x1_0000_0000) as u32 as int == n as int % 0x1_0000_0000);
        }
    }
}

/// A reply, or a payload, that is no object says nothing: it neither blocks nor
/// fails. What is no document at all has no verdict.
pub proof fn a_reply_without_members_says_nothing(t: JsonTree, reply: Map<Seq<char>, JsonTree>)
    requires
        t !is Object,
        !reply.contains_key("error"@),
        reply.contains_key("result"@),
        reply["result"@] == t,
    ensures
        reply_verdict(Some(t)) == Some(DaemonVerdict { score: 0, should_block: false }),
        reply_verdict(Some(JsonTree::Object(reply))) == Some(
            DaemonVerdict { score: 0, should_block: false },
        ),
        reply_verdict(None) is None,
{
}

/// The host is told to block only by a reply that says `should_block: true`, be it
/// in the reply or under its `result`.
pub proof fn a_host_is_blocked_only_by_a_reply_that_says_so(document: Option<JsonTree>)
    requires
        decision_for(reply_verdict(document)) == ProviderDecision::Detected,
    ensures
        document matches Some(JsonTree::Object(reply)) && !reply.contains_key("error"@) && (
        if reply.contains_key("result"@) {
            reply["result"@] matches JsonTree::Object(payload) && payload.contains_key(
                "should_block"@,
            ) && payload["should_block"@] == JsonTree::Bool(true)
        } else {
            reply.contains_key("should_block"@) && reply["should_block"@] == JsonTree::Bool(true)
        }),
{
    reveal_strlit("result");
    reveal_strlit("error");
}

/// A request has the members of its call and no others, and its parameters those
/// of the scan and no others.
pub proof fn a_request_has_no_other_members(
    content: Seq<char>,
    language: Seq<char>,
    source_app: Seq<char>,
    content_name: Seq<char>,
    source_pid: u32,
    auth: Option<Seq<char>>,
    key: Seq<char>,
)
    ensures
        ({
            let params = request_params(
                content,
                language,
                source_app,
                content_name,
                source_pid,
                auth,
            );
            &&& params.contains_key(key) <==> key == "content"@ || key == "language"@ || key
                == "source_app"@ || key == "content_name"@ || key == "source_pid"@ || (auth is Some
                && key == "auth"@)
            &&& request_tree(params).field(key) is Some <==> key == "jsonrpc"@ || key == "id"@ || key
                == "method"@ || key == "params"@
        }),
{
    a_request_gives_its_fields_back(content, language, source_app, content_name, source_pid, auth);
    let params = request_params(content, language, source_app, content_name, source_pid, auth);
    assert(params.contains_key("content"@));
    assert(params.contains_key("language"@));
    assert(params.contains_key("source_app"@));
    assert(params.contains_key("content_name"@));
    assert(params.contains_key("source_pid"@));
}

/// A length prefix is four bytes, the most significant first, and is read so.
pub proof fn lengths_are_big_endian(n: u32, b: Seq<u8>)
    requires
        b.len() == 4,
    ensures
        be_bytes(n).len() == 4,
        n == be_bytes(n)[0] * 0x100_0000 + be_bytes(n)[1] * 0x1_0000 + be_bytes(n)[2] * 0x100
            + be_bytes(n)[3],
        be_value(b) == b[0] * 0x100_0000 + b[1] * 0x1_0000 + b[2] * 0x100 + b[3],
{
}

/// A round-trip opens the pipe, writes the length and then the body, flushes, and
/// reads as many bytes as were announced, if that is neither nothing nor more than
/// a mebibyte; a body of another length has no verdict.
pub proof fn a_round_trip_takes_its_actions_in_order(
    bytes: Seq<u8>,
    runs: Seq<ScanExchange>,
    prefix: Vec<u8>,
    reply: Vec<u8>,
)
    requires
        runs.len() == 7,
        exchange_starts(bytes, runs[0]),
        exchange_steps(runs[0], PipeEvent::Completed, runs[1]),
        exchange_steps(runs[1], PipeEvent::Completed, runs[2]),
        exchange_steps(runs[2], PipeEvent::Completed, runs[3]),
        exchange_steps(runs[3], PipeEvent::Completed, runs[4]),
        exchange_steps(runs[4], PipeEvent::Received(prefix), runs[5]),
        exchange_steps(runs[5], PipeEvent::Received(reply), runs[6]),
    ensures
        0 < bytes.len() <= 1_048_576 <==> runs[0] is Open,
        runs[0] !is Open ==> forall|i: int|
            0 <= i < 7 ==> #[trigger] runs[i] == ScanExchange::Done(None),
        runs[0] is Open ==> {
            &&& runs[0]->Open_body@ == bytes
            &&& runs[1] matches ScanExchange::WriteLength { length, body } && length@.len() == 4
                && body@ == bytes && bytes.len() == length@[0] * 0x100_0000 + length@[1] * 0x1_0000
                + length@[2] * 0x100 + length@[3]
            &&& runs[2] matches ScanExchange::WriteBody { body } && body@ == bytes
            &&& runs[3] is Flush
            &&& runs[4] is ReadLength
            &&& runs[5] is ReadBody <==> prefix@.len() == 4 && 0 < prefix@[0] * 0x100_0000
                + prefix@[1] * 0x1_0000 + prefix@[2] * 0x100 + prefix@[3] <= 1_048_576
            &&& runs[5] !is ReadBody ==> runs[5] == ScanExchange::Done(None)
            &&& runs[5] matches ScanExchange::ReadBody { len } ==> len == prefix@[0] * 0x100_0000
                + prefix@[1] * 0x1_0000 + prefix@[2] * 0x100 + prefix@[3] && (reply@.len() != len
                ==> runs[6] == ScanExchange::Done(None))
        },
{
    lengths_are_big_endian(bytes.len() as u32, be_bytes(bytes.len() as u32));
    assert(runs[1] == runs[1] && runs[2] == runs[2] && runs[3] == runs[3]);
}

/// The secret is the middle of the file's text: white space stands before and
/// after it and at neither end of it, and it is at least 32 bytes long.
pub proof fn a_secret_is_the_text_between_white_space(raw: Seq<char>)
    ensures
        exists|i: int, j: int|
            #![trigger raw.subrange(i, j)]
            {
                &&& 0 <= i <= j <= raw.len()
                &&& forall|k: int| 0 <= k < i || j <= k < raw.len() ==> is_white(#[trigger] raw[k])
                &&& i < j ==> !is_white(raw[i]) && !is_white(raw[j - 1])
                &&& secret_in(raw) is Some <==> vstd::utf8::encode_utf8(raw.subrange(i, j)).len()
                    >= 32
                &&& secret_in(raw) matches Some(secret) ==> secret == raw.subrange(i, j)
            },
{
    trimming_takes_the_white_ends(raw);
    let (i, j) = choose|i: int, j: int|
        #![trigger raw.subrange(i, j)]
        {
            &&& 0 <= i <= j <= raw.len()
            &&& forall|k: int| 0 <= k < i || j <= k < raw.len() ==> is_white(#[trigger] raw[k])
            &&& i < j ==> !is_white(raw[i]) && !is_white(raw[j - 1])
            &&& trimmed(raw) == raw.subrange(i, j)
        };
    assert(raw.subrange(i, j) == trimmed(raw));
}

/// Nothing is sent without a secret, and what is sent is a request that holds the
/// arguments of the scan and that very secret, and fits a frame. With a secret, a
/// request that does not fit is the only one that is not sent.
pub proof fn every_request_is_authenticated(
    content: Seq<char>,
    language: Seq<char>,
    source_app: Seq<char>,
    content_name: Seq<char>,
    source_pid: u32,
    secret: Option<Seq<char>>,
    run: ScanExchange,
) -> (request: JsonTree)
    requires
        scan_starts(content, language, source_app, content_name, source_pid, secret, run),
    ensures
        secret is None ==> run == ScanExchange::Done(None),
        run matches ScanExchange::Open { body } ==> body@ == json_bytes(request) && body@.len()
            <= 1_048_576,
        run is Open || run == ScanExchange::Done(None),
        secret is Some && run !is Open ==> json_bytes(request).len() == 0 || json_bytes(
            request,
        ).len() > 1_048_576,
        secret matches Some(auth) ==> request.field("method"@) == Some(
            JsonTree::Text("runtime.scan_buffer"@),
        ) && (request.field("params"@) matches Some(p) && {
            &&& p.field("content"@) == Some(JsonTree::Text(content))
            &&& p.field("language"@) == Some(JsonTree::Text(language))
            &&& p.field("source_app"@) == Some(JsonTree::Text(source_app))
            &&& p.field("content_name"@) == Some(JsonTree::Text(content_name))
            &&& p.field("source_pid"@) == Some(JsonTree::Unsigned(source_pid as u64))
            &&& p.field("auth"@) == Some(JsonTree::Text(auth))
        }),
{
    a_request_gives_its_fields_back(
        content,
        language,
        source_app,
        content_name,
        source_pid,
        secret,
    );
    request_tree(
        request_params(content, language, source_app, content_name, source_pid, secret),
    )
}

/// A secret file that could not be read, or whose text is too short without the
/// white space around it, gives no secret; any other gives that text.
pub proof fn a_secret_comes_from_a_file_that_holds_one(file: Option<Seq<char>>)
    ensures
        file is None ==> secret_of_file(file) is None,
        file matches Some(raw) ==> exists|i: int, j: int|
            #![trigger raw.subrange(i, j)]
            {
                &&& 0 <= i <= j <= raw.len()
                &&& forall|k: int| 0 <= k < i || j <= k < raw.len() ==> is_white(#[trigger] raw[k])
                &&& i < j ==> !is_white(raw[i]) && !is_white(raw[j - 1])
                &&& secret_of_file(file) is Some <==> vstd::utf8::encode_utf8(
                    raw.subrange(i, j),
                ).len() >= 32
                &&& secret_of_file(file) matches Some(secret) ==> secret == raw.subrange(i, j)
            },
{
    if let Some(raw) = file {
        a_secret_is_the_text_between_white_space(raw);
    }
}

/// A reply that says `should_block: true`, is no error and is not refused has the
/// host block, and every other reply leaves it alone, whatever score it gives.
pub proof fn a_host_is_blocked_by_every_reply_that_says_so(reply: Map<Seq<char>, JsonTree>)
    requires
        !reply.contains_key("result"@),
    ensures
        decision_for(reply_verdict(Some(JsonTree::Object(reply)))) == ProviderDecision::Detected
            <==> {
            &&& reply.contains_key("should_block"@) && reply["should_block"@] == JsonTree::Bool(
                true,
            )
            &&& !reply.contains_key("error"@)
            &&& !(reply.contains_key("ok"@) && reply["ok"@] == JsonTree::Bool(false))
        },
        forall|score: JsonTree| #[trigger]
            decision_for(
                reply_verdict(Some(JsonTree::Object(reply.insert("score"@, score)))),
            ) == decision_for(reply_verdict(Some(JsonTree::Object(reply)))),
{
    reveal_strlit("result");
    reveal_strlit("error");
    reveal_strlit("ok");
    reveal_strlit("should_block");
    reveal_strlit("score");
    assert("result"@.len() == 6 && "error"@.len() == 5 && "ok"@.len() == 2 && "should_block"@.len()
        == 12 && "score"@.len() == 5);
    assert("error"@[0] == 'e' && "score"@[0] == 's');
    assert forall|score: JsonTree| #[trigger]
        decision_for(reply_verdict(Some(JsonTree::Object(reply.insert("score"@, score)))))
            == decision_for(reply_verdict(Some(JsonTree::Object(reply)))) by {
        let other = reply.insert("score"@, score);
        assert(!other.contains_key("result"@));
        assert(other.contains_key("error"@) == reply.contains_key("error"@));
        assert(other.contains_key("ok"@) == reply.contains_key("ok"@));
        assert(other.contains_key("should_block"@) == reply.contains_key("should_block"@));
    }
}

} // verus!
