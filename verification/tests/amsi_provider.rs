use sentinella::amsi_provider::decision::{DaemonVerdict, ProviderDecision};
use sentinella::amsi_provider::language_from_app;
use sentinella::amsi_provider::provider::{
    attr_u64, attr_wstr, class_object_answer, dll_path, instance_answer, scan_request, AmsiScan,
    ClassObjectAnswer, InstanceAnswer, ModuleUse, ScanEvent, UseEvent, MAX_CONTENT,
};
use sentinella::amsi_provider::registration::PROVIDER_CLSID_U128;

#[test]
fn language_mapping() {
    assert_eq!(language_from_app("powershell.exe"), "powershell");
    assert_eq!(
        language_from_app(r"C:\Windows\System32\WindowsPowerShell\v1.0\powershell.exe"),
        "powershell"
    );
    assert_eq!(language_from_app("pwsh"), "powershell");
    assert_eq!(language_from_app("cscript.exe"), "cscript");
    assert_eq!(language_from_app("mshta.exe"), "mshta");
    assert_eq!(language_from_app("SomeApp.NET"), "dotnet");
    assert_eq!(language_from_app("winword.exe"), "other");
}

#[test]
fn the_first_language_named_in_order_wins() {
    assert_eq!(language_from_app("WSCRIPT.EXE"), "cscript");
    assert_eq!(language_from_app("mshta-clr"), "mshta");
    assert_eq!(language_from_app("CLRhost"), "dotnet");
    assert_eq!(language_from_app("pwsh-in-cscript"), "powershell");
    assert_eq!(language_from_app(""), "other");
}

#[test]
fn numbers_are_little_endian_and_of_the_written_width() {
    let buf = [1u8, 2, 3, 4, 5, 6, 7, 8];
    assert_eq!(attr_u64(&buf, 8), Some(0x0807060504030201));
    assert_eq!(attr_u64(&buf, 4), Some(0x04030201));
    assert_eq!(attr_u64(&buf, 1), Some(1));
    assert_eq!(attr_u64(&buf, 0), None);
    assert_eq!(attr_u64(&buf, 9), None);
    assert_eq!(attr_u64(&[0xFF; 8], 8), Some(u64::MAX));
}

#[test]
fn texts_end_at_the_first_nul() {
    let mut buf: Vec<u8> = "ps\0junk".encode_utf16().flat_map(|u| u.to_le_bytes()).collect();
    assert_eq!(attr_wstr(&buf, buf.len() as u32), Some("ps".to_string()));
    assert_eq!(attr_wstr(&buf, 2), Some("p".to_string()));
    assert_eq!(attr_wstr(&buf, 1), None);
    assert_eq!(attr_wstr(&buf, 0), None);
    // More than the buffer holds is capped at the buffer.
    buf.truncate(4);
    assert_eq!(attr_wstr(&buf, 4096), Some("ps".to_string()));
    assert_eq!(attr_wstr(&[], 10), None);
}

#[test]
fn module_paths_are_whole_or_not_at_all() {
    let units: Vec<u16> = r"C:\a.dll".encode_utf16().chain([0, 0]).collect();
    assert_eq!(dll_path(&units, 8), Some(r"C:\a.dll".to_string()));
    assert_eq!(dll_path(&units, 0), None);
    assert_eq!(dll_path(&units, units.len()), None);
}

#[test]
fn a_request_decodes_the_content_and_maps_the_host() {
    let content: Vec<u8> = "whoami".encode_utf16().flat_map(|u| u.to_le_bytes()).collect();
    let r = scan_request(&content, Some("PowerShell.exe".to_string()), None);
    assert_eq!(r.content, "whoami");
    assert_eq!(r.language, "powershell");
    assert_eq!(r.source_app, "PowerShell.exe");
    assert_eq!(r.content_name, "");
    let r = scan_request(b"x", None, Some("n".to_string()));
    assert_eq!((r.language, r.source_app.as_str(), r.content_name.as_str()), ("other", "", "n"));
}

fn decision(run: AmsiScan) -> Option<ProviderDecision> {
    match run {
        AmsiScan::Done(d) => Some(d),
        _ => None,
    }
}

fn asked() -> AmsiScan {
    AmsiScan::start(true)
        .step(ScanEvent::Number(Some(2)))
        .step(ScanEvent::Number(Some(0x1000)))
        .step(ScanEvent::Content(b"id".to_vec()))
        .step(ScanEvent::Text(Some("pwsh".to_string())))
        .step(ScanEvent::Text(None))
}

#[test]
fn a_scan_asks_the_daemon_and_follows_its_verdict() {
    match asked() {
        AmsiScan::Ask { request } => {
            assert_eq!(request.content, "id");
            assert_eq!(request.language, "powershell");
        }
        other => panic!("{other:?}"),
    }
    let block = DaemonVerdict { score: 1, should_block: true };
    let allow = DaemonVerdict { score: 99, should_block: false };
    assert_eq!(decision(asked().step(ScanEvent::Answered(Some(block)))), Some(ProviderDecision::Detected));
    assert_eq!(decision(asked().step(ScanEvent::Answered(Some(allow)))), Some(ProviderDecision::NotDetected));
    assert_eq!(decision(asked().step(ScanEvent::Answered(None))), Some(ProviderDecision::NotDetected));
}

#[test]
fn a_scan_that_cannot_be_done_fails_open() {
    let open = Some(ProviderDecision::NotDetected);
    assert_eq!(decision(AmsiScan::start(false)), open);
    for size in [None, Some(0), Some(MAX_CONTENT as u64 + 1), Some(u64::MAX)] {
        assert_eq!(decision(AmsiScan::start(true).step(ScanEvent::Number(size))), open);
    }
    for address in [None, Some(0)] {
        let run = AmsiScan::ReadAddress { size: 1 }.step(ScanEvent::Number(address));
        assert_eq!(decision(run), open);
    }
    assert_eq!(decision(asked().step(ScanEvent::Panicked)), open);
    assert_eq!(decision(AmsiScan::ReadSize.step(ScanEvent::Panicked)), open);
}

#[test]
fn the_largest_content_is_still_scanned() {
    let run = AmsiScan::start(true).step(ScanEvent::Number(Some(MAX_CONTENT as u64)));
    assert!(matches!(run, AmsiScan::ReadAddress { size: MAX_CONTENT }));
}

#[test]
fn class_objects_are_handed_out_for_our_class_only() {
    let ours = PROVIDER_CLSID_U128;
    assert_eq!(class_object_answer(false, Some(ours), ours), ClassObjectAnswer::NoTarget);
    assert_eq!(class_object_answer(true, None, ours), ClassObjectAnswer::MissingArgument);
    assert_eq!(class_object_answer(true, Some(ours + 1), ours), ClassObjectAnswer::NotAvailable);
    assert_eq!(class_object_answer(true, Some(ours), ours), ClassObjectAnswer::HandOut);
}

#[test]
fn instances_are_never_aggregated() {
    assert_eq!(instance_answer(false, true), InstanceAnswer::NoTarget);
    assert_eq!(instance_answer(true, true), InstanceAnswer::NoAggregation);
    assert_eq!(instance_answer(true, false), InstanceAnswer::Create);
}

#[test]
fn the_module_stays_while_it_is_used() {
    let mut u = ModuleUse::new();
    assert!(u.can_unload());
    u.record(UseEvent::Created);
    u.record(UseEvent::Locked);
    u.record(UseEvent::Dropped);
    assert!(!u.can_unload());
    u.record(UseEvent::Unlocked);
    assert!(u.can_unload());
    u.record(UseEvent::Unlocked);
    assert_eq!(u.locks, usize::MAX);
    u.record(UseEvent::Locked);
    assert!(u.can_unload());
}

#[test]
fn content_of_another_length_fails_open() {
    for content in [vec![], b"i".to_vec(), b"ids".to_vec()] {
        let run = AmsiScan::ReadContent { address: 0x1000, size: 2 };
        assert_eq!(decision(run.step(ScanEvent::Content(content))), Some(ProviderDecision::NotDetected));
    }
    let run = AmsiScan::ReadContent { address: 0x1000, size: 2 };
    let run = run.step(ScanEvent::Content(b"id".to_vec()));
    assert!(matches!(run, AmsiScan::ReadAppName { content } if content == b"id"));
}
