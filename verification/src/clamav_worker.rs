//! The isolated ClamAV worker: who may start one, how its run is watched, and
//! which of its answers counts.
//!
//! The worker is a process of its own, so that a crash of the engine takes
//! nothing else down.
use vstd::prelude::*;

use crate::text::{
    case_is_all_that_may_differ, decimal, decimal_value, decimals_are_worth_their_number, is_white,
    lowered, push_decimal,
    same_ignoring_ascii_case, same_text, trim, trimmed, what_stands_between_white_space_is_left,
};

verus! {

/// The most that is read from one output of a worker, in bytes.
pub const MAX_OUTPUT_BYTES: usize = 1_048_576;

/// The most workers at a time. Each loads some 400 MB of signatures.
pub const MAX_CONCURRENT_WORKERS: usize = 2;

/// The pause between two looks at a running worker, in milliseconds.
pub const POLL_MILLIS: u64 = 20;

/// A path of the system, which need not be text.
#[verifier::external_type_specification]
#[verifier::external_body]
pub struct ExPathBuf(std::path::PathBuf);

#[derive(Debug)]
pub struct ClamWorkerSettings {
    pub enabled: bool,
    pub dll_dir: std::path::PathBuf,
    pub db_dir: std::path::PathBuf,
    /// The longest a worker may run, in nanoseconds.
    pub timeout: u128,
}

/// What a worker reports about a file.
#[derive(Debug)]
pub struct ClamWorkerOutput {
    pub path: String,
    pub infected: bool,
    pub virus_name: Option<String>,
    pub scanned_bytes: u64,
    pub error: Option<String>,
    pub signature_count: u64,
    pub scan_time_ms: u64,
}

/// Why a scan by a worker gave no verdict.
#[derive(Debug)]
pub enum WorkerError {
    /// The user cancelled. Not a failure, and no reason to scan the file in
    /// another way.
    Cancelled,
    /// As many workers run as may. Not a failure: the load is shed.
    Busy,
    /// The worker failed: it was not found, did not start, ran too long,
    /// crashed, or broke the protocol. The file must not be scanned in the
    /// daemon's own process.
    Failed(String),
}

impl WorkerError {
    /// The error as a text.
    pub open spec fn text(self) -> Seq<char> {
        match self {
            WorkerError::Cancelled => "cancelled"@,
            WorkerError::Busy => "clamavd concurrency limit reached"@,
            WorkerError::Failed(e) => e@,
        }
    }

    /// A failure with the given text.
    pub open spec fn fails_with(self, text: Seq<char>) -> bool {
        self matches WorkerError::Failed(e) && e@ == text
    }

    /// The error as a text.
    pub fn message(&self) -> (r: String)
        ensures
            r@ == self.text(),
    {
        match self {
            WorkerError::Cancelled => "cancelled".to_owned(),
            WorkerError::Busy => "clamavd concurrency limit reached".to_owned(),
            WorkerError::Failed(e) => e.clone(),
        }
    }
}

impl vstd::std_specs::convert::FromSpecImpl<String> for WorkerError {
    open spec fn obeys_from_spec() -> bool {
        true
    }

    open spec fn from_spec(s: String) -> WorkerError {
        WorkerError::Failed(s)
    }
}

impl From<String> for WorkerError {
    fn from(s: String) -> (r: WorkerError) {
        WorkerError::Failed(s)
    }
}

/// An owned string is known by its text only, so what comes of a slice is
/// stated on `from` itself.
impl vstd::std_specs::convert::FromSpecImpl<&str> for WorkerError {
    open spec fn obeys_from_spec() -> bool {
        false
    }

    open spec fn from_spec(s: &str) -> WorkerError {
        WorkerError::Failed(choose|t: String| t@ == s@)
    }
}

impl From<&str> for WorkerError {
    fn from(s: &str) -> (r: WorkerError)
        ensures
            r.fails_with(s@),
    {
        WorkerError::Failed(s.to_owned())
    }
}

/// The slots that workers take.
#[derive(Debug, Clone, Copy, PartialEq, Eq, Structural)]
pub struct WorkerSlots {
    pub active: usize,
}

/// A use of the slots.
#[derive(Debug, Clone, Copy, PartialEq, Eq, Structural)]
pub enum SlotEvent {
    /// A scan asks for a slot.
    Asked,
    /// A scan that has a slot gives it back.
    GivenBack,
}

impl WorkerSlots {
    /// A slot is free.
    pub open spec fn has_room(self) -> bool {
        self.active < MAX_CONCURRENT_WORKERS
    }

    /// The slots after a use.
    pub open spec fn after(self, event: SlotEvent) -> WorkerSlots {
        match event {
            SlotEvent::Asked => if self.has_room() {
                WorkerSlots { active: (self.active + 1) as usize }
            } else {
                self
            },
            SlotEvent::GivenBack => WorkerSlots { active: (self.active - 1) as usize },
        }
    }

    pub fn new() -> (r: WorkerSlots)
        ensures
            r.active == 0,
    {
        WorkerSlots { active: 0 }
    }

    /// Takes a slot, if one is free.
    pub fn acquire(&mut self) -> (r: bool)
        ensures
            r == old(self).has_room(),
            *final(self) == old(self).after(SlotEvent::Asked),
    {
        if self.active >= MAX_CONCURRENT_WORKERS {
            return false;
        }
        self.active = self.active + 1;
        true
    }

    /// Gives a slot back.
    pub fn release(&mut self)
        requires
            old(self).active > 0,
        ensures
            *final(self) == old(self).after(SlotEvent::GivenBack),
    {
        self.active = self.active - 1;
    }
}

/// An argument of the worker's command line.
#[derive(Debug, Clone, Copy, PartialEq, Eq, Structural)]
pub enum WorkerArg {
    /// The path of the file to scan, as it is.
    Target,
    /// `--dll-dir`.
    DllDirFlag,
    /// The directory of the engine, as it is.
    DllDir,
    /// `--db-dir`.
    DbDirFlag,
    /// The directory of the signatures, as it is.
    DbDir,
    /// `--json`.
    JsonFlag,
}

impl WorkerArg {
    /// The text of a flag. Paths are passed on as they are.
    pub open spec fn flag_text(self) -> Option<Seq<char>> {
        match self {
            WorkerArg::DllDirFlag => Some("--dll-dir"@),
            WorkerArg::DbDirFlag => Some("--db-dir"@),
            WorkerArg::JsonFlag => Some("--json"@),
            _ => None,
        }
    }

    /// The text of a flag, and nothing of a path.
    pub fn flag(self) -> (r: Option<&'static str>)
        ensures
            match r {
                Some(text) => self.flag_text() == Some(text@),
                None => self.flag_text() is None,
            },
    {
        match self {
            WorkerArg::DllDirFlag => Some("--dll-dir"),
            WorkerArg::DbDirFlag => Some("--db-dir"),
            WorkerArg::JsonFlag => Some("--json"),
            _ => None,
        }
    }
}

/// The worker's command line.
pub open spec fn command_line() -> Seq<WorkerArg> {
    seq![
        WorkerArg::Target,
        WorkerArg::DllDirFlag,
        WorkerArg::DllDir,
        WorkerArg::DbDirFlag,
        WorkerArg::DbDir,
        WorkerArg::JsonFlag,
    ]
}

/// The arguments of the worker's command line.
pub fn worker_args() -> (r: Vec<WorkerArg>)
    ensures
        r@ == seq![
            WorkerArg::Target,
            WorkerArg::DllDirFlag,
            WorkerArg::DllDir,
            WorkerArg::DbDirFlag,
            WorkerArg::DbDir,
            WorkerArg::JsonFlag,
        ],
        r@ == command_line(),
{
    vec![
        WorkerArg::Target,
        WorkerArg::DllDirFlag,
        WorkerArg::DllDir,
        WorkerArg::DbDirFlag,
        WorkerArg::DbDir,
        WorkerArg::JsonFlag,
    ]
}

/// Where the worker's program is looked for.
#[derive(Debug, Clone, Copy, PartialEq, Eq, Structural)]
pub enum WorkerPlace {
    /// In the directory of the daemon's own program.
    BesideDaemon,
    /// In the release build of the source tree the daemon runs from.
    ReleaseBuild,
    /// In its debug build.
    DebugBuild,
}

/// Directory `dir` below `above` is the build output of a source tree.
pub open spec fn names_build_output(dir: Seq<char>, above: Seq<char>) -> bool {
    (dir == "release"@ || dir == "debug"@) && above == "target"@
}

/// Whether a program in directory `dir`, below directory `above`, runs from the
/// build output of a source tree: from `target/release` or `target/debug`.
pub fn is_build_output(dir: &str, above: &str) -> (r: bool)
    ensures
        r == ((dir@ == "release"@ || dir@ == "debug"@) && above@ == "target"@),
        r == names_build_output(dir@, above@),
{
    (same_text(dir, "release") || same_text(dir, "debug")) && same_text(above, "target")
}

/// Where the worker's program is taken from.
pub open spec fn place_of(
    beside: bool,
    in_source_tree: bool,
    release: bool,
    debug: bool,
) -> Option<WorkerPlace> {
    if beside {
        Some(WorkerPlace::BesideDaemon)
    } else if in_source_tree && release {
        Some(WorkerPlace::ReleaseBuild)
    } else if in_source_tree && debug {
        Some(WorkerPlace::DebugBuild)
    } else {
        None
    }
}

/// Picks the worker's program: the one beside the daemon before a release build
/// before a debug build. Builds count only where the daemon itself runs from a
/// source tree: nothing above an installed daemon is ever run.
pub fn find_clamavd(beside: bool, in_source_tree: bool, release: bool, debug: bool) -> (r: Option<
    WorkerPlace,
>)
    ensures
        r == (if beside {
            Some(WorkerPlace::BesideDaemon)
        } else if in_source_tree && release {
            Some(WorkerPlace::ReleaseBuild)
        } else if in_source_tree && debug {
            Some(WorkerPlace::DebugBuild)
        } else {
            None
        }),
        r == place_of(beside, in_source_tree, release, debug),
{
    if beside {
        return Some(WorkerPlace::BesideDaemon);
    }
    if in_source_tree {
        if release {
            return Some(WorkerPlace::ReleaseBuild);
        }
        if debug {
            return Some(WorkerPlace::DebugBuild);
        }
    }
    None
}

/// What a read from an output came to.
#[derive(Debug)]
pub enum ReadEvent {
    Failed(String),
    /// The bytes read; none at the end of the output.
    Bytes(Vec<u8>),
}

/// How reading goes on.
#[derive(Debug)]
pub enum ReadStep {
    More,
    End,
    Fail(String),
}

/// What is held after a read, given what was held before; none where that is over
/// the limit.
pub open spec fn after_read(held: Seq<u8>, bytes: Seq<u8>, limit: usize) -> Option<Seq<u8>> {
    if held.len() + bytes.len() > limit {
        None
    } else {
        Some(held + bytes)
    }
}

/// How reading goes on after a read, and what is held then.
pub open spec fn read_steps(
    held: Seq<u8>,
    event: ReadEvent,
    limit: usize,
    after: Seq<u8>,
    step: ReadStep,
) -> bool {
    match event {
        ReadEvent::Failed(e) => (step matches ReadStep::Fail(t) && t@ == "read: "@ + e@) && after
            == held,
        ReadEvent::Bytes(b) => if b@.len() == 0 {
            step is End && after == held
        } else {
            match after_read(held, b@, limit) {
                Some(more) => step is More && after == more,
                None => (step matches ReadStep::Fail(t) && t@ == "output too large"@) && after
                    == held,
            }
        },
    }
}

/// Takes in what one read from an output came to. Output beyond the limit is
/// refused as a whole; the end of an output is never refused.
pub fn read_limited(out: &mut Vec<u8>, event: ReadEvent, limit: usize) -> (r: ReadStep)
    ensures
        match event {
            ReadEvent::Failed(e) => (r matches ReadStep::Fail(t) && t@ == "read: "@ + e@)
                && final(out)@ == old(out)@,
            ReadEvent::Bytes(b) => if b@.len() == 0 {
                r is End && final(out)@ == old(out)@
            } else {
                match after_read(old(out)@, b@, limit) {
                    Some(held) => r is More && final(out)@ == held,
                    None => (r matches ReadStep::Fail(t) && t@ == "output too large"@)
                        && final(out)@ == old(out)@,
                }
            },
        },
        read_steps(old(out)@, event, limit, final(out)@, r),
{
    match event {
        ReadEvent::Failed(e) => {
            let mut text: String = "read: ".to_owned();
            text.append(e.as_str());
            ReadStep::Fail(text)
        },
        ReadEvent::Bytes(mut b) => {
            if b.len() == 0 {
                return ReadStep::End;
            }
            if out.len() > limit || b.len() > limit - out.len() {
                return ReadStep::Fail("output too large".to_owned());
            }
            out.append(&mut b);
            ReadStep::More
        },
    }
}

/// What the reader of an output came to.
#[derive(Debug)]
pub enum ReaderOutcome {
    Panicked,
    Failed(String),
    Read(Vec<u8>),
}

/// Where the run of a worker stands. Each stage names the next action.
#[derive(Debug)]
pub enum WorkerStage {
    /// Find the worker's program.
    Find,
    /// Start the worker.
    Spawn,
    /// Look at the cancel flag and at the clock.
    CheckLimits,
    /// Ask whether the worker has exited.
    TryWait,
    /// Pause for [`POLL_MILLIS`].
    Sleep,
    /// Kill the worker and wait for it.
    Stop(WorkerError),
    /// Wait for the readers of its outputs.
    Collect,
    /// Parse its output.
    Parse(Vec<u8>),
    Done(Result<ClamWorkerOutput, WorkerError>),
}

/// What an action of a run came to.
#[derive(Debug)]
pub enum WorkerEvent {
    /// Whether the program was found.
    Found(bool),
    /// Whether the worker started, and then whether its output can be read.
    Spawned(Result<bool, String>),
    /// The cancel flag, and the nanoseconds since the worker started.
    Limits { cancelled: bool, elapsed: u128 },
    /// Whether the worker has exited.
    Waited(Result<bool, String>),
    Slept,
    Stopped,
    /// What the readers came to.
    Collected { stdout: ReaderOutcome, stderr_panicked: bool },
    Parsed(Result<ClamWorkerOutput, String>),
}

/// A run of a worker.
#[derive(Debug)]
pub struct WorkerRun {
    pub stage: WorkerStage,
    /// The path of the file to scan, as text.
    pub want: String,
    /// The longest the worker may run, in nanoseconds.
    pub timeout: u128,
    /// The run has a slot.
    pub slot: bool,
}

impl WorkerRun {
    /// The slots that the run has.
    pub open spec fn held(self) -> int {
        if self.slot {
            1
        } else {
            0
        }
    }

    /// A run has a slot exactly until it is done.
    pub open spec fn well_formed(self) -> bool {
        self.slot <==> self.stage !is Done
    }
}

/// The worker's process may be alive.
pub open spec fn is_running(stage: WorkerStage) -> bool {
    stage is CheckLimits || stage is TryWait || stage is Sleep
}

/// The run ended in the failure with the given text.
pub open spec fn done_failed(stage: WorkerStage, text: Seq<char>) -> bool {
    stage matches WorkerStage::Done(r) && (r matches Err(e) && e.fails_with(text))
}

/// The worker is to be stopped for the failure with the given text.
pub open spec fn stop_failed(stage: WorkerStage, text: Seq<char>) -> bool {
    stage matches WorkerStage::Stop(e) && e.fails_with(text)
}

/// The text of a timeout.
pub open spec fn timeout_text(timeout: u128) -> Seq<char> {
    "clamavd timeout after "@ + decimal((timeout / 1_000_000_000) as nat) + "s"@
}

/// A path reported by a worker names the file that was asked for: up to the
/// case of ASCII letters and surrounding white space.
pub open spec fn names_same_file(reported: Seq<char>, want: Seq<char>) -> bool {
    lowered(trimmed(reported)) == lowered(want)
}

/// The text of a path mismatch.
pub open spec fn mismatch_text(reported: Seq<char>, want: Seq<char>) -> Seq<char> {
    "clamavd JSON path mismatch: reported "@ + trimmed(reported) + ", requested "@ + want
}

/// One step of a run. An event that does not answer the action changes nothing.
pub open spec fn stage_steps(
    before: WorkerStage,
    event: WorkerEvent,
    after: WorkerStage,
    want: Seq<char>,
    timeout: u128,
) -> bool {
    match (before, event) {
        (WorkerStage::Find, WorkerEvent::Found(found)) => if found {
            after is Spawn
        } else {
            done_failed(after, "clamavd.exe not found"@)
        },
        (WorkerStage::Spawn, WorkerEvent::Spawned(Ok(readable))) => if readable {
            after is CheckLimits
        } else {
            stop_failed(after, "no stdout"@)
        },
        (WorkerStage::Spawn, WorkerEvent::Spawned(Err(e))) => {
            done_failed(after, "clamavd spawn failed: "@ + e@)
        },
        (WorkerStage::CheckLimits, WorkerEvent::Limits { cancelled, elapsed }) => if cancelled {
            after == WorkerStage::Stop(WorkerError::Cancelled)
        } else if elapsed > timeout {
            stop_failed(after, timeout_text(timeout))
        } else {
            after is TryWait
        },
        (WorkerStage::TryWait, WorkerEvent::Waited(Ok(exited))) => if exited {
            after is Collect
        } else {
            after is Sleep
        },
        (WorkerStage::TryWait, WorkerEvent::Waited(Err(e))) => {
            stop_failed(after, "clamavd wait error: "@ + e@)
        },
        (WorkerStage::Sleep, WorkerEvent::Slept) => after is CheckLimits,
        (WorkerStage::Stop(e), WorkerEvent::Stopped) => after == WorkerStage::Done(Err(e)),
        (WorkerStage::Collect, WorkerEvent::Collected { stdout, stderr_panicked }) => match stdout {
            ReaderOutcome::Panicked => done_failed(after, "stdout reader panicked"@),
            ReaderOutcome::Failed(e) => done_failed(after, "stdout read: "@ + e@),
            ReaderOutcome::Read(data) => if stderr_panicked {
                done_failed(after, "stderr reader panicked"@)
            } else if data@.len() == 0 {
                done_failed(after, "clamavd produced empty output"@)
            } else {
                after == WorkerStage::Parse(data)
            },
        },
        (WorkerStage::Parse(_), WorkerEvent::Parsed(Ok(output))) => if names_same_file(
            output.path@,
            want,
        ) {
            after == WorkerStage::Done(Ok(output))
        } else {
            done_failed(after, mismatch_text(output.path@, want))
        },
        (WorkerStage::Parse(_), WorkerEvent::Parsed(Err(e))) => {
            done_failed(after, "clamavd JSON parse: "@ + e@)
        },
        _ => after == before,
    }
}

/// One step of a run: the stage steps, what was asked for stays, and a run that
/// is done has no slot any more.
pub open spec fn run_steps(before: WorkerRun, event: WorkerEvent, after: WorkerRun) -> bool {
    &&& after.slot == (before.slot && after.stage !is Done)
    &&& stage_steps(before.stage, event, after.stage, before.want@, before.timeout)
    &&& after.want == before.want
    &&& after.timeout == before.timeout
}

/// A failure whose text is `prefix` followed by `detail`.
fn failure(prefix: &str, detail: &str) -> (r: WorkerError)
    ensures
        r.fails_with(prefix@ + detail@),
{
    let mut text: String = prefix.to_owned();
    text.append(detail);
    WorkerError::Failed(text)
}

/// The failure of a worker that ran too long.
fn timed_out(timeout: u128) -> (r: WorkerError)
    ensures
        r.fails_with(timeout_text(timeout)),
{
    let mut text: String = "clamavd timeout after ".to_owned();
    push_decimal(&mut text, timeout / 1_000_000_000);
    text.append("s");
    WorkerError::Failed(text)
}

/// Takes an output as the verdict on the file `want`, unless it is about
/// another file.
pub fn check_output(output: ClamWorkerOutput, want: &str) -> (r: Result<
    ClamWorkerOutput,
    WorkerError,
>)
    ensures
        match r {
            Ok(o) => o == output && names_same_file(output.path@, want@),
            Err(e) => !names_same_file(output.path@, want@) && e.fails_with(
                mismatch_text(output.path@, want@),
            ),
        },
{
    let reported = trim(output.path.as_str());
    if same_ignoring_ascii_case(reported, want) {
        return Ok(output);
    }
    let mut text: String = "clamavd JSON path mismatch: reported ".to_owned();
    text.append(reported);
    text.append(", requested ");
    text.append(want);
    Err(WorkerError::Failed(text))
}

/// Where a scan of the file `want` begins.
pub open spec fn scan_begins(
    slots: WorkerSlots,
    timeout: u128,
    want: String,
    run: WorkerRun,
) -> bool {
    &&& run.stage == if slots.has_room() {
        WorkerStage::Find
    } else {
        WorkerStage::Done(Err(WorkerError::Busy))
    }
    &&& run.slot == slots.has_room()
    &&& run.want == want
    &&& run.timeout == timeout
}

/// Starts a scan of the file `want` by a worker. Without a free slot the scan is
/// refused at once; otherwise it holds one until its run is done.
pub fn scan_file(slots: &mut WorkerSlots, settings: &ClamWorkerSettings, want: String) -> (r:
    WorkerRun)
    ensures
        *final(slots) == old(slots).after(SlotEvent::Asked),
        r.stage == (if old(slots).has_room() {
            WorkerStage::Find
        } else {
            WorkerStage::Done(Err(WorkerError::Busy))
        }),
        r.want == want,
        r.timeout == settings.timeout,
        r.well_formed(),
        final(slots).active == old(slots).active + r.held(),
        scan_begins(*old(slots), settings.timeout, want, r),
{
    let slot: bool = slots.acquire();
    let stage = if slot {
        WorkerStage::Find
    } else {
        WorkerStage::Done(Err(WorkerError::Busy))
    };
    WorkerRun { stage, want, timeout: settings.timeout, slot }
}

fn spawned(result: Result<bool, String>) -> (r: WorkerStage)
    ensures
        forall|want: Seq<char>, timeout: u128| #[trigger]
            stage_steps(WorkerStage::Spawn, WorkerEvent::Spawned(result), r, want, timeout),
{
    match result {
        Ok(readable) => if readable {
            WorkerStage::CheckLimits
        } else {
            WorkerStage::Stop(WorkerError::from("no stdout"))
        },
        Err(e) => WorkerStage::Done(Err(failure("clamavd spawn failed: ", e.as_str()))),
    }
}

fn waited(result: Result<bool, String>) -> (r: WorkerStage)
    ensures
        forall|want: Seq<char>, timeout: u128| #[trigger]
            stage_steps(WorkerStage::TryWait, WorkerEvent::Waited(result), r, want, timeout),
{
    match result {
        Ok(exited) => if exited {
            WorkerStage::Collect
        } else {
            WorkerStage::Sleep
        },
        Err(e) => WorkerStage::Stop(failure("clamavd wait error: ", e.as_str())),
    }
}

fn collected(stdout: ReaderOutcome, stderr_panicked: bool) -> (r: WorkerStage)
    ensures
        forall|want: Seq<char>, timeout: u128| #[trigger]
            stage_steps(
                WorkerStage::Collect,
                (WorkerEvent::Collected { stdout, stderr_panicked }),
                r,
                want,
                timeout,
            ),
{
    match stdout {
        ReaderOutcome::Panicked => WorkerStage::Done(
            Err(WorkerError::from("stdout reader panicked")),
        ),
        ReaderOutcome::Failed(e) => WorkerStage::Done(Err(failure("stdout read: ", e.as_str()))),
        ReaderOutcome::Read(data) => if stderr_panicked {
            WorkerStage::Done(Err(WorkerError::from("stderr reader panicked")))
        } else if data.len() == 0 {
            WorkerStage::Done(Err(WorkerError::from("clamavd produced empty output")))
        } else {
            WorkerStage::Parse(data)
        },
    }
}

impl WorkerRun {
    /// Takes in what the action of the stage came to. A run that gets done gives
    /// its slot back, however it ends.
    pub fn step(self, event: WorkerEvent, slots: &mut WorkerSlots) -> (r: WorkerRun)
        requires
            self.slot ==> old(slots).active > 0,
        ensures
            run_steps(self, event, r),
            final(slots).active == old(slots).active + r.held() - self.held(),
            self.well_formed() ==> r.well_formed(),
    {
        let had_slot: bool = self.slot;
        let want: String = self.want;
        let timeout: u128 = self.timeout;
        let stage = match (self.stage, event) {
            (WorkerStage::Find, WorkerEvent::Found(found)) => if found {
                WorkerStage::Spawn
            } else {
                WorkerStage::Done(Err(WorkerError::from("clamavd.exe not found")))
            },
            (WorkerStage::Spawn, WorkerEvent::Spawned(result)) => spawned(result),
            (
                WorkerStage::CheckLimits,
                WorkerEvent::Limits { cancelled, elapsed },
            ) => if cancelled {
                WorkerStage::Stop(WorkerError::Cancelled)
            } else if elapsed > timeout {
                WorkerStage::Stop(timed_out(timeout))
            } else {
                WorkerStage::TryWait
            },
            (WorkerStage::TryWait, WorkerEvent::Waited(result)) => waited(result),
            (WorkerStage::Sleep, WorkerEvent::Slept) => WorkerStage::CheckLimits,
            (WorkerStage::Stop(e), WorkerEvent::Stopped) => WorkerStage::Done(Err(e)),
            (
                WorkerStage::Collect,
                WorkerEvent::Collected { stdout, stderr_panicked },
            ) => collected(stdout, stderr_panicked),
            (WorkerStage::Parse(_), WorkerEvent::Parsed(Ok(output))) => WorkerStage::Done(
                check_output(output, want.as_str()),
            ),
            (WorkerStage::Parse(_), WorkerEvent::Parsed(Err(e))) => WorkerStage::Done(
                Err(failure("clamavd JSON parse: ", e.as_str())),
            ),
            (stage, _) => stage,
        };
        let done: bool = match &stage {
            WorkerStage::Done(_) => true,
            _ => false,
        };
        if had_slot && done {
            slots.release();
        }
        WorkerRun { stage, want, timeout, slot: had_slot && !done }
    }

    /// Gives up a run that cannot go on: its slot, if it has one, is given back.
    pub fn abandon(self, slots: &mut WorkerSlots)
        requires
            self.slot ==> old(slots).active > 0,
        ensures
            final(slots).active == old(slots).active - self.held(),
    {
        if self.slot {
            slots.release();
        }
    }
}

/// A cancelled run is reported as cancelled, whatever the clock says: the worker
/// is stopped, and then the run is done.
pub proof fn cancelling_is_not_a_failure(
    before: WorkerRun,
    elapsed: u128,
    stopping: WorkerRun,
    done: WorkerRun,
)
    requires
        before.stage is CheckLimits,
        run_steps(before, (WorkerEvent::Limits { cancelled: true, elapsed }), stopping),
        run_steps(stopping, WorkerEvent::Stopped, done),
    ensures
        done.stage == WorkerStage::Done(Err(WorkerError::Cancelled)),
{
}

/// A history of a run: where it stood at each point, and the events in between.
pub open spec fn is_worker_history(runs: Seq<WorkerRun>, events: Seq<WorkerEvent>) -> bool {
    &&& runs.len() == events.len() + 1
    &&& runs[0].stage is Find
    &&& forall|i: int|
        #![trigger events[i]]
        0 <= i < events.len() ==> run_steps(runs[i], events[i], runs[i + 1])
}

/// The worker started on this step.
pub open spec fn starts_worker(run: WorkerRun, event: WorkerEvent) -> bool {
    run.stage is Spawn && (event matches WorkerEvent::Spawned(result) && result is Ok)
}

/// The worker was killed, or was found to have exited, on this step.
pub open spec fn ends_worker(run: WorkerRun, event: WorkerEvent) -> bool {
    ||| run.stage is Stop && event is Stopped
    ||| run.stage is TryWait && (event matches WorkerEvent::Waited(Ok(exited)) && exited)
}

/// A worker that was started has been killed, or has exited, by the time its run
/// is done, however the run ends.
pub proof fn no_worker_is_left_running(runs: Seq<WorkerRun>, events: Seq<WorkerEvent>, k: int)
    requires
        is_worker_history(runs, events),
        0 <= k < runs.len(),
        exists|i: int| 0 <= i < k && starts_worker(runs[i], #[trigger] events[i]),
    ensures
        is_running(runs[k].stage) || runs[k].stage is Stop || exists|j: int|
            0 <= j < k && ends_worker(runs[j], #[trigger] events[j]),
        runs[k].stage is Done ==> exists|j: int|
            0 <= j < k && ends_worker(runs[j], #[trigger] events[j]),
    decreases k,
{
    let before = k - 1;
    assert(run_steps(runs[before], events[before], runs[k]));
    if exists|i: int| 0 <= i < before && starts_worker(runs[i], #[trigger] events[i]) {
        no_worker_is_left_running(runs, events, before);
        if exists|j: int| 0 <= j < before && ends_worker(runs[j], #[trigger] events[j]) {
            let j = choose|j: int| 0 <= j < before && ends_worker(runs[j], #[trigger] events[j]);
            assert(ends_worker(runs[j], events[j]));
        } else if !is_running(runs[k].stage) && runs[k].stage !is Stop {
            assert(ends_worker(runs[before], events[before]));
        }
    } else {
        let i = choose|i: int| 0 <= i < k && starts_worker(runs[i], #[trigger] events[i]);
        assert(i == before);
    }
}

/// A verdict is always about the file that was asked for.
pub proof fn a_verdict_is_about_the_file_asked_for(
    before: WorkerRun,
    event: WorkerEvent,
    after: WorkerRun,
    output: ClamWorkerOutput,
)
    requires
        before.stage !is Done,
        run_steps(before, event, after),
        after.stage == WorkerStage::Done(Ok(output)),
    ensures
        names_same_file(output.path@, before.want@),
{
}

/// A run that was given a slot is never reported as refused for want of one.
pub proof fn only_a_want_of_slots_is_busy(before: WorkerRun, event: WorkerEvent, after: WorkerRun)
    requires
        before.stage != WorkerStage::Done(Err(WorkerError::Busy)),
        before.stage != WorkerStage::Stop(WorkerError::Busy),
        run_steps(before, event, after),
    ensures
        after.stage != WorkerStage::Done(Err(WorkerError::Busy)),
        after.stage != WorkerStage::Stop(WorkerError::Busy),
{
}

/// How many slots more are in use for a run than before it was asked for, when it
/// has come to point `k` of its history: what [`scan_file`] took, and what each
/// step changed.
pub open spec fn slots_in_use(runs: Seq<WorkerRun>, k: int) -> int
    decreases k,
{
    if k <= 0 {
        runs[0].held()
    } else {
        slots_in_use(runs, k - 1) + (runs[k].held() - runs[k - 1].held())
    }
}

/// However a run ends, it has given back exactly the slot that it took; until
/// then it has one.
pub proof fn a_finished_run_has_given_its_slot_back(
    runs: Seq<WorkerRun>,
    events: Seq<WorkerEvent>,
    k: int,
)
    requires
        is_worker_history(runs, events),
        runs[0].well_formed(),
        0 <= k < runs.len(),
    ensures
        runs[k].well_formed(),
        runs[k].stage is Done ==> slots_in_use(runs, k) == 0,
        runs[k].stage !is Done ==> slots_in_use(runs, k) == 1,
    decreases k,
{
    if k > 0 {
        let before = k - 1;
        a_finished_run_has_given_its_slot_back(runs, events, before);
        assert(run_steps(runs[before], events[before], runs[k]));
    }
}

/// The slots after a history of uses.
pub open spec fn slots_after(events: Seq<SlotEvent>) -> WorkerSlots
    decreases events.len(),
{
    if events.len() == 0 {
        WorkerSlots { active: 0 }
    } else {
        slots_after(events.drop_last()).after(events.last())
    }
}

/// Slots are only given back by those who have one.
pub open spec fn slots_are_owned(events: Seq<SlotEvent>) -> bool {
    forall|i: int|
        0 <= i < events.len() && events[i] == SlotEvent::GivenBack ==> #[trigger] slots_after(
            events.take(i),
        ).active > 0
}

/// However scans come and go, there are never more workers than may run.
pub proof fn workers_are_bounded(events: Seq<SlotEvent>)
    requires
        slots_are_owned(events),
    ensures
        slots_after(events).active <= MAX_CONCURRENT_WORKERS,
    decreases events.len(),
{
    if events.len() > 0 {
        let before = events.drop_last();
        assert forall|i: int|
            0 <= i < before.len() && before[i]
                == SlotEvent::GivenBack implies #[trigger] slots_after(before.take(i)).active
            > 0 by {
            assert(before.take(i) =~= events.take(i));
            assert(events[i] == before[i]);
        }
        workers_are_bounded(before);
        assert(events.take(events.len() - 1) =~= before);
        if events.last() == SlotEvent::GivenBack {
            assert(slots_after(events.take(events.len() - 1)).active > 0);
        }
    }
}

/// All bytes of some reads, in order.
pub open spec fn all_bytes(reads: Seq<Seq<u8>>) -> Seq<u8>
    decreases reads.len(),
{
    if reads.len() == 0 {
        Seq::empty()
    } else {
        all_bytes(reads.drop_last()) + reads.last()
    }
}

/// What is held after some reads, each taken in as [`read_limited`] does; none
/// once the limit was passed.
pub open spec fn held_after(reads: Seq<Seq<u8>>, limit: usize) -> Option<Seq<u8>>
    decreases reads.len(),
{
    if reads.len() == 0 {
        Some(Seq::empty())
    } else {
        match held_after(reads.drop_last(), limit) {
            Some(held) => after_read(held, reads.last(), limit),
            None => None,
        }
    }
}

/// However an output is cut into reads, it is taken whole if it fits the limit
/// and refused if it does not.
pub proof fn an_output_is_taken_whole_or_refused(reads: Seq<Seq<u8>>, limit: usize)
    ensures
        held_after(reads, limit) == if all_bytes(reads).len() <= limit {
            Some(all_bytes(reads))
        } else {
            None
        },
    decreases reads.len(),
{
    if reads.len() > 0 {
        an_output_is_taken_whole_or_refused(reads.drop_last(), limit);
    }
}

/// A verdict is what the worker reported, in every field: it comes from parsing
/// the worker's output and from nothing else.
pub proof fn a_verdict_is_what_the_worker_reported(
    before: WorkerRun,
    event: WorkerEvent,
    after: WorkerRun,
    verdict: ClamWorkerOutput,
)
    requires
        before.stage !is Done,
        run_steps(before, event, after),
        after.stage == WorkerStage::Done(Ok(verdict)),
    ensures
        before.stage is Parse,
        event matches WorkerEvent::Parsed(Ok(output)) && {
            &&& verdict.path == output.path
            &&& verdict.infected == output.infected
            &&& verdict.virus_name == output.virus_name
            &&& verdict.scanned_bytes == output.scanned_bytes
            &&& verdict.error == output.error
            &&& verdict.signature_count == output.signature_count
            &&& verdict.scan_time_ms == output.scan_time_ms
        },
{
}

/// Of every history of a run: a verdict that it ended with is one that the worker
/// reported on the way, unchanged.
pub proof fn a_run_ends_with_the_workers_own_verdict(
    runs: Seq<WorkerRun>,
    events: Seq<WorkerEvent>,
    k: int,
    verdict: ClamWorkerOutput,
)
    requires
        is_worker_history(runs, events),
        0 <= k < runs.len(),
        runs[k].stage == WorkerStage::Done(Ok(verdict)),
    ensures
        exists|i: int|
            0 <= i < k && runs[i].stage is Parse && #[trigger] events[i] == WorkerEvent::Parsed(
                Ok(verdict),
            ),
    decreases k,
{
    let before = k - 1;
    assert(run_steps(runs[before], events[before], runs[k]));
    if runs[before].stage is Done {
        a_run_ends_with_the_workers_own_verdict(runs, events, before, verdict);
        let i = choose|i: int|
            0 <= i < before && runs[i].stage is Parse && #[trigger] events[i]
                == WorkerEvent::Parsed(Ok(verdict));
        assert(events[i] == WorkerEvent::Parsed(Ok(verdict)));
    } else {
        assert(events[before] == WorkerEvent::Parsed(Ok(verdict)));
    }
}

/// What the worker reported is taken exactly when the path in it, without the
/// white space around it, is as long as the one asked for and differs from it, if
/// at all, by the case of ASCII letters; otherwise the run fails and names both.
pub proof fn only_the_same_path_is_taken(
    before: WorkerRun,
    output: ClamWorkerOutput,
    after: WorkerRun,
    i: int,
    j: int,
)
    requires
        before.stage is Parse,
        run_steps(before, WorkerEvent::Parsed(Ok(output)), after),
        0 <= i <= j <= output.path@.len(),
        forall|k: int|
            0 <= k < i || j <= k < output.path@.len() ==> is_white(#[trigger] output.path@[k]),
        i < j ==> !is_white(output.path@[i]) && !is_white(output.path@[j - 1]),
    ensures
        after.stage == WorkerStage::Done(Ok(output)) <==> {
            let reported = output.path@.subrange(i, j);
            let want = before.want@;
            &&& reported.len() == want.len()
            &&& forall|k: int|
                #![trigger reported[k]]
                0 <= k < want.len() ==> reported[k] == want[k] || ('A' <= reported[k] <= 'Z'
                    && want[k] as int == reported[k] as int + 32) || ('A' <= want[k] <= 'Z'
                    && reported[k] as int == want[k] as int + 32)
        },
        after.stage != WorkerStage::Done(Ok(output)) ==> (after.stage matches WorkerStage::Done(
            Err(WorkerError::Failed(text)),
        ) && text@ == "clamavd JSON path mismatch: reported "@ + output.path@.subrange(i, j)
            + ", requested "@ + before.want@),
{
    what_stands_between_white_space_is_left(output.path@, i, j);
    let reported = output.path@.subrange(i, j);
    let want = before.want@;
    case_is_all_that_may_differ(reported, want);
}

/// A running worker is stopped exactly when the scan was cancelled or has run
/// longer than it may. Cancelling comes first; a timeout says how many whole
/// seconds were allowed.
pub proof fn a_worker_is_stopped_when_cancelled_or_late(
    before: WorkerRun,
    cancelled: bool,
    elapsed: u128,
    after: WorkerRun,
)
    requires
        before.stage is CheckLimits,
        run_steps(before, (WorkerEvent::Limits { cancelled, elapsed }), after),
    ensures
        after.stage is TryWait <==> !cancelled && elapsed <= before.timeout,
        after.stage == WorkerStage::Stop(WorkerError::Cancelled) <==> cancelled,
        !cancelled && elapsed > before.timeout ==> exists|seconds: Seq<char>|
            (after.stage matches WorkerStage::Stop(WorkerError::Failed(text)) && text@
                == "clamavd timeout after "@ + seconds + "s"@) && #[trigger] decimal_value(seconds)
                * 1_000_000_000 <= before.timeout < (decimal_value(seconds) + 1) * 1_000_000_000,
{
    let whole = (before.timeout / 1_000_000_000) as nat;
    decimals_are_worth_their_number(whole);
    let seconds = decimal(whole);
    assert(decimal_value(seconds) == whole);
}

/// A run of a worker that is found, starts, stays within its limits, exits and
/// writes something goes on to parse exactly what was written.
pub proof fn a_clean_run_parses_what_was_written(
    runs: Seq<WorkerRun>,
    events: Seq<WorkerEvent>,
    elapsed: u128,
    data: Vec<u8>,
)
    requires
        is_worker_history(runs, events),
        events.len() == 5,
        events[0] == WorkerEvent::Found(true),
        events[1] == WorkerEvent::Spawned(Ok(true)),
        events[2] == (WorkerEvent::Limits { cancelled: false, elapsed }),
        elapsed <= runs[0].timeout,
        events[3] == WorkerEvent::Waited(Ok(true)),
        events[4] == (WorkerEvent::Collected {
            stdout: ReaderOutcome::Read(data),
            stderr_panicked: false,
        }),
        data@.len() > 0,
    ensures
        runs[1].stage is Spawn,
        runs[2].stage is CheckLimits,
        runs[3].stage is TryWait,
        runs[4].stage is Collect,
        runs[5].stage == WorkerStage::Parse(data),
        runs[5].want == runs[0].want,
{
    assert(run_steps(runs[0], events[0], runs[1]));
    assert(run_steps(runs[1], events[1], runs[2]));
    assert(run_steps(runs[2], events[2], runs[3]));
    assert(run_steps(runs[3], events[3], runs[4]));
    assert(run_steps(runs[4], events[4], runs[5]));
}

/// A worker that still runs is looked at again after a pause, with its limits.
pub proof fn a_running_worker_is_looked_at_again(
    waiting: WorkerRun,
    pausing: WorkerRun,
    looking: WorkerRun,
)
    requires
        waiting.stage is TryWait,
        run_steps(waiting, WorkerEvent::Waited(Ok(false)), pausing),
        run_steps(pausing, WorkerEvent::Slept, looking),
    ensures
        pausing.stage is Sleep,
        looking.stage is CheckLimits,
        looking.timeout == waiting.timeout,
{
}

/// A step that fails ends the run, or stops a worker that may be alive, with a text
/// that holds what went wrong.
pub proof fn a_failure_says_what_went_wrong(
    before: WorkerRun,
    event: WorkerEvent,
    after: WorkerRun,
)
    requires
        run_steps(before, event, after),
    ensures
        before.stage is Find && event == WorkerEvent::Found(false) ==> (after.stage matches
            WorkerStage::Done(Err(WorkerError::Failed(t))) && t@ == "clamavd.exe not found"@),
        before.stage is Spawn && event == WorkerEvent::Spawned(Ok(false)) ==> (after.stage matches
            WorkerStage::Stop(WorkerError::Failed(t)) && t@ == "no stdout"@),
        before.stage is Spawn ==> (event matches WorkerEvent::Spawned(Err(e)) ==> (after.stage
            matches WorkerStage::Done(Err(WorkerError::Failed(t))) && t@
            == "clamavd spawn failed: "@ + e@)),
        before.stage is TryWait ==> (event matches WorkerEvent::Waited(Err(e)) ==> (after.stage
            matches WorkerStage::Stop(WorkerError::Failed(t)) && t@ == "clamavd wait error: "@ + e@)),
        before.stage is Parse ==> (event matches WorkerEvent::Parsed(Err(e)) ==> (after.stage
            matches WorkerStage::Done(Err(WorkerError::Failed(t))) && t@ == "clamavd JSON parse: "@
            + e@)),
        before.stage is Collect ==> (event matches WorkerEvent::Collected {
            stdout,
            stderr_panicked,
        } ==> {
            &&& after.stage is Parse <==> !stderr_panicked && (stdout matches ReaderOutcome::Read(
                data,
            ) && data@.len() > 0)
            &&& after.stage is Parse || (after.stage matches WorkerStage::Done(
                Err(WorkerError::Failed(t)),
            ))
            &&& stdout is Panicked ==> (after.stage matches WorkerStage::Done(
                Err(WorkerError::Failed(t)),
            ) && t@ == "stdout reader panicked"@)
            &&& stdout is Read && stderr_panicked ==> (after.stage matches WorkerStage::Done(
                Err(WorkerError::Failed(t)),
            ) && t@ == "stderr reader panicked"@)
            &&& !stderr_panicked && (stdout matches ReaderOutcome::Read(data) && data@.len() == 0)
                ==> (after.stage matches WorkerStage::Done(Err(WorkerError::Failed(t))) && t@
                == "clamavd produced empty output"@)
            &&& stdout matches ReaderOutcome::Failed(e) ==> (after.stage matches WorkerStage::Done(
                Err(WorkerError::Failed(t)),
            ) && t@ == "stdout read: "@ + e@)
        }),
{
}

/// A run that stops its worker ends with the error that it was stopped for, and a
/// run that is done stays as it is.
pub proof fn a_stopped_run_ends_with_its_error(
    before: WorkerRun,
    event: WorkerEvent,
    after: WorkerRun,
)
    requires
        run_steps(before, event, after),
    ensures
        before.stage matches WorkerStage::Stop(e) ==> after.stage == if event is Stopped {
            WorkerStage::Done(Err(e))
        } else {
            before.stage
        },
        before.stage is Done ==> after.stage == before.stage,
{
}

/// A scan gets a slot exactly while fewer than two workers run, and is refused as
/// busy otherwise; giving the slot back undoes taking it.
pub proof fn a_third_worker_is_refused(
    slots: WorkerSlots,
    timeout: u128,
    want: String,
    run: WorkerRun,
)
    requires
        scan_begins(slots, timeout, want, run),
    ensures
        slots.active < 2 ==> run.stage is Find && run.slot && slots.after(SlotEvent::Asked).active
            == slots.active + 1 && slots.after(SlotEvent::Asked).after(SlotEvent::GivenBack)
            == slots,
        slots.active >= 2 ==> run.stage == WorkerStage::Done(Err(WorkerError::Busy)) && !run.slot
            && slots.after(SlotEvent::Asked) == slots,
        run.want == want,
        run.timeout == timeout,
{
}

/// On the command line each directory stands behind its own flag, the file comes
/// first, and the answer is asked for as JSON.
pub proof fn each_directory_stands_behind_its_flag(i: int)
    requires
        0 <= i < command_line().len(),
    ensures
        command_line()[i] is Target <==> i == 0,
        command_line()[i] is DllDir ==> i > 0 && command_line()[i - 1].flag_text() == Some(
            "--dll-dir"@,
        ),
        command_line()[i] is DbDir ==> i > 0 && command_line()[i - 1].flag_text() == Some(
            "--db-dir"@,
        ),
        exists|k: int|
            0 <= k < command_line().len() && (#[trigger] command_line()[k]).flag_text() == Some(
                "--json"@,
            ),
        command_line().contains(WorkerArg::DllDir),
        command_line().contains(WorkerArg::DbDir),
        command_line().len() == 6,
{
    assert(command_line()[5].flag_text() == Some("--json"@));
    assert(command_line()[2] == WorkerArg::DllDir);
    assert(command_line()[4] == WorkerArg::DbDir);
}

/// Only a program that is there is run; one beside the daemon always is, and a
/// build only where the daemon runs from a source tree, the release before the
/// debug one.
pub proof fn nothing_above_an_installed_daemon_is_run(
    beside: bool,
    in_source_tree: bool,
    release: bool,
    debug: bool,
)
    ensures
        place_of(beside, in_source_tree, release, debug) == Some(WorkerPlace::BesideDaemon)
            <==> beside,
        place_of(beside, in_source_tree, release, debug) == Some(WorkerPlace::ReleaseBuild) <==> (
        !beside && in_source_tree && release),
        place_of(beside, in_source_tree, release, debug) == Some(WorkerPlace::DebugBuild) <==> (
        !beside && in_source_tree && debug && !release),
        !beside && !in_source_tree ==> place_of(beside, in_source_tree, release, debug) is None,
{
}

/// Each error reads as what it is: a cancelled scan, a shed one, or the failure in
/// its own words.
pub proof fn an_error_reads_as_what_it_is(e: WorkerError)
    ensures
        e == WorkerError::Cancelled ==> e.text() == "cancelled"@,
        e == WorkerError::Busy ==> e.text() == "clamavd concurrency limit reached"@,
        e matches WorkerError::Failed(t) ==> e.text() == t@,
{
}

/// Reading ends exactly at the end of an output, goes on exactly while what was
/// read fits with what is held, and otherwise fails; what is held grows by what was
/// read and by nothing else.
pub proof fn reading_goes_on_while_it_fits(
    held: Seq<u8>,
    event: ReadEvent,
    limit: usize,
    after: Seq<u8>,
    step: ReadStep,
)
    requires
        read_steps(held, event, limit, after, step),
    ensures
        step is End <==> (event matches ReadEvent::Bytes(b) && b@.len() == 0),
        step is More <==> (event matches ReadEvent::Bytes(b) && 0 < b@.len() && held.len() + b@.len()
            <= limit),
        step is More ==> after.len() == held.len() + event->Bytes_0@.len() && held.is_prefix_of(
            after,
        ) && after.skip(held.len() as int) == event->Bytes_0@,
        step !is More ==> after == held,
        event matches ReadEvent::Bytes(b) ==> (step matches ReadStep::Fail(t) ==> t@
            == "output too large"@),
        event matches ReadEvent::Failed(e) ==> (step matches ReadStep::Fail(t) && t@ == "read: "@ + e@),
{
    if step is More {
        assert(after.take(held.len() as int) =~= held);
        assert(after.skip(held.len() as int) =~= event->Bytes_0@);
    }
}

/// A daemon runs from a source tree exactly when its program lies in the release
/// or the debug directory of a build, and not in any directory of those names.
pub proof fn a_build_lies_below_target(dir: Seq<char>, above: Seq<char>)
    ensures
        names_build_output(dir, above) <==> above == "target"@ && (dir == "release"@ || dir
            == "debug"@),
{
}

} // verus!
