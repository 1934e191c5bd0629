use sentinella::clamav_worker::{
    check_output, find_clamavd, is_build_output, read_limited, scan_file, worker_args, ClamWorkerOutput,
    ClamWorkerSettings, ReadEvent, ReadStep, ReaderOutcome, WorkerArg, WorkerError, WorkerEvent,
    WorkerSlots, WorkerPlace, WorkerRun, WorkerStage, MAX_CONCURRENT_WORKERS, MAX_OUTPUT_BYTES,
};

fn settings(timeout: u128) -> ClamWorkerSettings {
    ClamWorkerSettings {
        enabled: true,
        dll_dir: "C:\\dll".into(),
        db_dir: "C:\\db".into(),
        timeout,
    }
}

fn output(path: &str) -> ClamWorkerOutput {
    ClamWorkerOutput {
        path: path.to_string(),
        infected: true,
        virus_name: Some("Eicar".to_string()),
        scanned_bytes: 68,
        error: None,
        signature_count: 9,
        scan_time_ms: 4,
    }
}

/// Steps a run whose slot is the only one taken.
trait Steps {
    fn then(self, event: WorkerEvent) -> WorkerRun;
}

impl Steps for WorkerRun {
    fn then(self, event: WorkerEvent) -> WorkerRun {
        let mut slots = WorkerSlots { active: usize::from(self.slot) };
        let next = self.step(event, &mut slots);
        assert_eq!(slots.active, usize::from(next.slot), "a run that is done has no slot");
        next
    }
}

fn run() -> WorkerRun {
    scan_file(&mut WorkerSlots::new(), &settings(2_500_000_000), r"C:\File.exe".to_string())
}

fn polling() -> WorkerRun {
    run().then(WorkerEvent::Found(true)).then(WorkerEvent::Spawned(Ok(true)))
}

fn collecting() -> WorkerRun {
    polling()
        .then(WorkerEvent::Limits { cancelled: false, elapsed: 0 })
        .then(WorkerEvent::Waited(Ok(true)))
}

fn parsing() -> WorkerRun {
    collecting().then(WorkerEvent::Collected {
        stdout: ReaderOutcome::Read(b"{}".to_vec()),
        stderr_panicked: false,
    })
}

/// The text of the error that a run ended with.
fn error(run: WorkerRun) -> String {
    match run.stage {
        WorkerStage::Done(Err(e)) => e.message(),
        other => panic!("{other:?}"),
    }
}

/// The text of the error for which a run stops its worker.
fn stopped(run: WorkerRun) -> String {
    match &run.stage {
        WorkerStage::Stop(_) => error(run.then(WorkerEvent::Stopped)),
        other => panic!("{other:?}"),
    }
}

#[test]
fn errors_read_as_texts() {
    assert_eq!(WorkerError::Cancelled.message(), "cancelled");
    assert_eq!(WorkerError::Busy.message(), "clamavd concurrency limit reached");
    assert_eq!(WorkerError::Failed("x".to_string()).message(), "x");
    assert!(matches!(WorkerError::from("a"), WorkerError::Failed(e) if e == "a"));
    assert!(matches!(WorkerError::from("b".to_string()), WorkerError::Failed(e) if e == "b"));
}

#[test]
fn a_clean_run_gives_the_output() {
    let done = parsing().then(WorkerEvent::Parsed(Ok(output(r"C:\File.exe"))));
    match done.stage {
        WorkerStage::Done(Ok(o)) => {
            assert!(o.infected);
            assert_eq!(o.virus_name.as_deref(), Some("Eicar"));
            assert_eq!((o.scanned_bytes, o.signature_count, o.scan_time_ms), (68, 9, 4));
        }
        other => panic!("{other:?}"),
    }
}

#[test]
fn no_more_workers_than_slots() {
    let mut slots = WorkerSlots::new();
    for _ in 0..MAX_CONCURRENT_WORKERS {
        let r = scan_file(&mut slots, &settings(1), "f".to_string());
        assert!(matches!(r.stage, WorkerStage::Find));
    }
    let refused = scan_file(&mut slots, &settings(1), "f".to_string());
    assert!(matches!(refused.stage, WorkerStage::Done(Err(WorkerError::Busy))));
    assert_eq!(slots.active, MAX_CONCURRENT_WORKERS);
    slots.release();
    assert!(slots.acquire());
    assert!(!slots.acquire());
}

#[test]
fn a_worker_that_is_not_there_or_does_not_start_fails() {
    assert_eq!(error(run().then(WorkerEvent::Found(false))), "clamavd.exe not found");
    let spawn = run().then(WorkerEvent::Found(true));
    assert_eq!(
        error(spawn.then(WorkerEvent::Spawned(Err("denied".to_string())))),
        "clamavd spawn failed: denied"
    );
    let spawn = run().then(WorkerEvent::Found(true));
    assert_eq!(stopped(spawn.then(WorkerEvent::Spawned(Ok(false)))), "no stdout");
}

#[test]
fn cancelling_comes_before_the_clock() {
    let r = polling().then(WorkerEvent::Limits { cancelled: true, elapsed: u128::MAX });
    let done = r.then(WorkerEvent::Stopped);
    assert!(matches!(done.stage, WorkerStage::Done(Err(WorkerError::Cancelled))));
}

#[test]
fn a_worker_may_run_for_its_timeout_and_no_longer() {
    let r = polling().then(WorkerEvent::Limits { cancelled: false, elapsed: 2_500_000_000 });
    assert!(matches!(r.stage, WorkerStage::TryWait));
    let r = polling().then(WorkerEvent::Limits { cancelled: false, elapsed: 2_500_000_001 });
    assert_eq!(stopped(r), "clamavd timeout after 2s");
}

#[test]
fn a_running_worker_is_looked_at_again() {
    let waiting = polling().then(WorkerEvent::Limits { cancelled: false, elapsed: 1 });
    let r = waiting.then(WorkerEvent::Waited(Ok(false)));
    assert!(matches!(r.stage, WorkerStage::Sleep));
    assert!(matches!(r.then(WorkerEvent::Slept).stage, WorkerStage::CheckLimits));
    let waiting = polling().then(WorkerEvent::Limits { cancelled: false, elapsed: 1 });
    let r = waiting.then(WorkerEvent::Waited(Err("lost".to_string())));
    assert_eq!(stopped(r), "clamavd wait error: lost");
}

#[test]
fn outputs_that_cannot_be_used_fail() {
    let with = |stdout: ReaderOutcome, stderr_panicked: bool| {
        error(collecting().then(WorkerEvent::Collected { stdout, stderr_panicked }))
    };
    assert_eq!(with(ReaderOutcome::Panicked, true), "stdout reader panicked");
    assert_eq!(
        with(ReaderOutcome::Failed("output too large".to_string()), true),
        "stdout read: output too large"
    );
    assert_eq!(with(ReaderOutcome::Read(vec![]), true), "stderr reader panicked");
    assert_eq!(with(ReaderOutcome::Read(vec![]), false), "clamavd produced empty output");
    assert_eq!(
        error(parsing().then(WorkerEvent::Parsed(Err("eof".to_string())))),
        "clamavd JSON parse: eof"
    );
}

#[test]
fn an_output_is_about_the_file_asked_for() {
    assert!(check_output(output("  c:\\FILE.exe\n"), r"C:\File.exe").is_ok());
    let e = check_output(output(" other "), "want").unwrap_err();
    assert_eq!(e.message(), "clamavd JSON path mismatch: reported other, requested want");
    // Only ASCII letters are compared without case.
    assert!(check_output(output("É"), "é").is_err());
    assert_eq!(
        error(parsing().then(WorkerEvent::Parsed(Ok(output("x"))))),
        r"clamavd JSON path mismatch: reported x, requested C:\File.exe"
    );
}

#[test]
fn an_answer_that_was_not_asked_for_changes_nothing() {
    assert!(matches!(run().then(WorkerEvent::Slept).stage, WorkerStage::Find));
    assert!(matches!(polling().then(WorkerEvent::Found(false)).stage, WorkerStage::CheckLimits));
}

#[test]
fn the_command_line_names_the_file_first() {
    let s = settings(0);
    let args: Vec<String> = worker_args()
        .into_iter()
        .map(|a| match (a, a.flag()) {
            (_, Some(flag)) => flag.to_string(),
            (WorkerArg::Target, None) => "<file>".to_string(),
            (WorkerArg::DllDir, None) => s.dll_dir.display().to_string(),
            (WorkerArg::DbDir, None) => s.db_dir.display().to_string(),
            (other, None) => panic!("{other:?}"),
        })
        .collect();
    assert_eq!(args, ["<file>", "--dll-dir", "C:\\dll", "--db-dir", "C:\\db", "--json"]);
}

#[test]
fn builds_count_only_in_a_source_tree() {
    assert_eq!(find_clamavd(true, true, true, true), Some(WorkerPlace::BesideDaemon));
    assert_eq!(find_clamavd(false, true, true, true), Some(WorkerPlace::ReleaseBuild));
    assert_eq!(find_clamavd(false, true, false, true), Some(WorkerPlace::DebugBuild));
    assert_eq!(find_clamavd(false, false, true, true), None);
    assert_eq!(find_clamavd(false, true, false, false), None);
}

#[test]
fn outputs_are_read_up_to_the_limit() {
    let mut out = Vec::new();
    assert!(matches!(read_limited(&mut out, ReadEvent::Bytes(vec![1, 2, 3]), 5), ReadStep::More));
    assert!(matches!(read_limited(&mut out, ReadEvent::Bytes(vec![4, 5]), 5), ReadStep::More));
    assert_eq!(out, vec![1, 2, 3, 4, 5]);
    match read_limited(&mut out, ReadEvent::Bytes(vec![6]), 5) {
        ReadStep::Fail(e) => assert_eq!(e, "output too large"),
        other => panic!("{other:?}"),
    }
    assert_eq!(out, vec![1, 2, 3, 4, 5]);
    assert!(matches!(read_limited(&mut out, ReadEvent::Bytes(vec![]), 5), ReadStep::End));
    match read_limited(&mut out, ReadEvent::Failed("gone".to_string()), MAX_OUTPUT_BYTES) {
        ReadStep::Fail(e) => assert_eq!(e, "read: gone"),
        other => panic!("{other:?}"),
    }
}

#[test]
fn a_slot_is_given_back_however_a_run_ends() {
    let endings: Vec<Vec<WorkerEvent>> = vec![
        vec![WorkerEvent::Found(false)],
        vec![WorkerEvent::Found(true), WorkerEvent::Spawned(Err("x".to_string()))],
        vec![WorkerEvent::Found(true), WorkerEvent::Spawned(Ok(false)), WorkerEvent::Stopped],
        vec![
            WorkerEvent::Found(true),
            WorkerEvent::Spawned(Ok(true)),
            WorkerEvent::Limits { cancelled: true, elapsed: 0 },
            WorkerEvent::Stopped,
        ],
        vec![
            WorkerEvent::Found(true),
            WorkerEvent::Spawned(Ok(true)),
            WorkerEvent::Limits { cancelled: false, elapsed: 0 },
            WorkerEvent::Waited(Ok(true)),
            WorkerEvent::Collected {
                stdout: ReaderOutcome::Read(b"{}".to_vec()),
                stderr_panicked: false,
            },
            WorkerEvent::Parsed(Ok(output("f"))),
        ],
    ];
    for events in endings {
        let mut slots = WorkerSlots { active: 1 };
        let mut r = scan_file(&mut slots, &settings(1), "f".to_string());
        for event in events {
            assert_eq!(slots.active, 2);
            r = r.step(event, &mut slots);
        }
        assert!(matches!(r.stage, WorkerStage::Done(_)));
        assert_eq!(slots.active, 1);
        // Nothing is given back twice.
        r.step(WorkerEvent::Stopped, &mut slots).abandon(&mut slots);
        assert_eq!(slots.active, 1);
    }
}

#[test]
fn a_run_that_is_given_up_gives_its_slot_back() {
    let mut slots = WorkerSlots::new();
    let r = scan_file(&mut slots, &settings(1), "f".to_string());
    r.abandon(&mut slots);
    assert_eq!(slots.active, 0);
    // A scan that was refused never had one.
    let mut full = WorkerSlots { active: MAX_CONCURRENT_WORKERS };
    scan_file(&mut full, &settings(1), "f".to_string()).abandon(&mut full);
    assert_eq!(full.active, MAX_CONCURRENT_WORKERS);
}

#[test]
fn only_target_directories_are_build_output() {
    assert!(is_build_output("release", "target") && is_build_output("debug", "target"));
    assert!(!is_build_output("release", "Sentinella"));
    assert!(!is_build_output("Sentinella", "target"));
    assert!(!is_build_output("target", "release"));
}
