use sentinella::web_protection::rule::{
    fresh_id, guid_from_uuid, id_from_hash, install, installed_now, is_resolution, new_guid, rand_id,
    remove, Endpoint, InstallEvent, InstallRun, ProbeIds, RemoveEvent, RemoveRun,
};

fn local(port: u16) -> Endpoint {
    Endpoint::v4(127, 0, 0, 1, port)
}

fn reason(run: InstallRun) -> String {
    match run {
        InstallRun::Refused { reason } => reason,
        other => panic!("{other:?}"),
    }
}

/// `{8-4-4-4-12}` in upper-case hexadecimal, of a random GUID.
fn is_registry_safe(g: &str) -> bool {
    let b = g.as_bytes();
    b.len() == 38
        && b[0] == b'{'
        && b[37] == b'}'
        && b[1..37].iter().enumerate().all(|(i, c)| match i {
            8 | 13 | 18 | 23 => *c == b'-',
            _ => c.is_ascii_digit() || (b'A'..=b'F').contains(c),
        })
        && b[15] == b'4'
        && b"89AB".contains(&b[20])
}

#[test]
fn generated_guids_are_the_shape_nrpt_accepts() {
    for _ in 0..8 {
        let g = new_guid();
        assert!(is_registry_safe(&g), "generated GUID is not registry-safe: {g}");
    }
}

#[test]
fn generated_guids_differ() {
    assert_ne!(new_guid(), new_guid());
}

#[test]
fn guids_are_braced_and_upper_case() {
    assert_eq!(
        guid_from_uuid("0f8fad5b-d9cb-469f-a165-70867728950e"),
        "{0F8FAD5B-D9CB-469F-A165-70867728950E}"
    );
}

#[test]
fn install_refuses_any_port_but_53() {
    for port in [5353u16, 5300, 1, 65535] {
        let err = reason(install(&local(port), None));
        assert!(
            err.contains("NRPT records only the IP"),
            "the refusal must name the reason: {err}"
        );
    }
}

#[test]
fn install_refuses_without_the_reconciler_task() {
    let run = install(&local(53), None);
    let err = reason(run.step(InstallEvent::ReconcilerChecked(false)));
    assert!(
        err.contains("reconciler task is not registered"),
        "the refusal must say WHY: {err}"
    );
}

#[test]
fn refusals_read_exactly_like_this() {
    assert_eq!(
        reason(install(&local(5353), None)),
        "refusing to install a rule for a proxy on port 5353: NRPT records only the IP and the DNS Client always queries 53"
    );
    let v6 = Endpoint::v6("::1".to_string(), 53);
    assert_eq!(
        reason(install(&v6, None)),
        "refusing to install a rule for a proxy on [::1]:53: web protection is IPv4-only, and the reconciler probes 127.0.0.1"
    );
    let run = install(&local(53), None);
    assert_eq!(
        reason(run.step(InstallEvent::ReconcilerChecked(false))),
        "the boot reconciler task is not registered, so nothing could remove this rule if the service stopped. Reinstall Sentinella; the installer registers it. (Running from a development build? That is expected — web protection installs no rule without it.)"
    );
}

#[test]
fn a_rule_is_recorded_and_then_written() {
    let run = install(&local(53), Some("{G}".to_string()));
    let run = run.step(InstallEvent::ReconcilerChecked(true));
    assert!(matches!(&run, InstallRun::RecordGuid { guid, server } if guid == "{G}" && server == "127.0.0.1"));
    let run = run.step(InstallEvent::GuidRecorded(Ok(())));
    assert!(matches!(&run, InstallRun::WriteRule { guid, server } if guid == "{G}" && server == "127.0.0.1"));
    let run = run.step(InstallEvent::RuleWritten(Ok(())));
    assert!(matches!(&run, InstallRun::Installed { guid } if guid == "{G}"));
}

#[test]
fn a_first_rule_gets_a_new_guid() {
    let run = install(&local(53), None).step(InstallEvent::ReconcilerChecked(true));
    match run {
        InstallRun::RecordGuid { guid, .. } => assert!(is_registry_safe(&guid)),
        other => panic!("{other:?}"),
    }
}

#[test]
fn an_installation_that_cannot_go_on_says_why() {
    let record = || install(&local(53), None).step(InstallEvent::ReconcilerChecked(true));
    assert_eq!(
        reason(record().step(InstallEvent::GuidRecorded(Err("disk full".to_string())))),
        "cannot record rule GUID: disk full"
    );
    let write = record().step(InstallEvent::GuidRecorded(Ok(())));
    assert_eq!(
        reason(write.step(InstallEvent::RuleWritten(Err("denied".to_string())))),
        "cannot install NRPT rule: denied"
    );
    assert!(matches!(
        record().step(InstallEvent::RuleWritten(Ok(()))),
        InstallRun::RecordGuid { .. }
    ));
}

#[test]
fn a_rule_is_removed_and_then_forgotten() {
    let run = remove("{G}".to_string());
    assert!(matches!(&run, RemoveRun::RemoveRule { guid } if guid == "{G}"));
    let run = run.step(RemoveEvent::RuleRemoved(Ok(())));
    assert!(matches!(&run, RemoveRun::ClearRecord { guid } if guid == "{G}"));
    let run = run.step(RemoveEvent::RecordCleared);
    assert!(matches!(&run, RemoveRun::Removed { guid } if guid == "{G}"));
    match remove("{G}".to_string()).step(RemoveEvent::RuleRemoved(Err("denied".to_string()))) {
        RemoveRun::Failed { reason } => assert_eq!(reason, "cannot remove NRPT rule: denied"),
        other => panic!("{other:?}"),
    }
}

#[test]
fn not_knowing_is_not_absence() {
    assert_eq!(installed_now(None), None);
    assert_eq!(installed_now(Some(Err("denied".to_string()))), None);
    assert_eq!(installed_now(Some(Ok(false))), Some(false));
    assert_eq!(installed_now(Some(Ok(true))), Some(true));
}

/// A reply in the shape of a query that was answered.
fn response(id: u16, rcode: u8, ancount: u16) -> Vec<u8> {
    let mut resp = vec![0u8; 29];
    resp[0..2].copy_from_slice(&id.to_be_bytes());
    resp[2] = 0x81;
    resp[3] = rcode;
    resp[6..8].copy_from_slice(&ancount.to_be_bytes());
    resp
}

#[test]
fn resolution_probe_rejects_answers_that_are_not_resolutions() {
    for (label, rcode, ancount) in [
        ("SERVFAIL", 2u8, 0u16),
        ("NODATA (NOERROR, no answers)", 0, 0),
        ("NXDOMAIN", 3, 0),
    ] {
        assert!(
            !is_resolution(&response(0x1234, rcode, ancount), 0x1234),
            "{label} must not count as a resolution"
        );
    }
}

#[test]
fn resolution_probe_accepts_a_real_answer() {
    assert!(is_resolution(&response(0x1234, 0, 1), 0x1234));
}

#[test]
fn a_resolution_answers_the_query_that_was_sent() {
    assert!(!is_resolution(&response(0x1235, 0, 1), 0x1234));
    assert!(!is_resolution(&response(0x1234, 0, 1)[..11], 0x1234));
    assert!(is_resolution(&response(0x1234, 0, 1)[..12], 0x1234));
    // The high bits of the flags are not part of the response code.
    assert!(is_resolution(&response(0x1234, 0x80, 0x0100), 0x1234));
    assert!(!is_resolution(&[], 0));
}

#[test]
fn probe_ids_come_from_the_middle_of_a_hash() {
    assert_eq!(id_from_hash(0x1122_3344_5566_7788), 0x5566);
    let mut ids = ProbeIds::new();
    let drawn: Vec<u16> = (0..32).map(|_| rand_id(&mut ids)).collect();
    assert!(drawn.windows(2).all(|w| w[0] != w[1]));
    assert_eq!(ids, ProbeIds { probes: 32, last: drawn.last().copied() });
}

#[test]
fn a_probe_never_has_the_id_of_the_one_before() {
    assert_eq!(fresh_id(7, None), 7);
    assert_eq!(fresh_id(7, Some(8)), 7);
    assert_eq!(fresh_id(7, Some(7)), 8);
    assert_eq!(fresh_id(u16::MAX, Some(u16::MAX)), 0);
    let mut ids = ProbeIds { probes: u64::MAX, last: None };
    rand_id(&mut ids);
    assert_eq!(ids.probes, 0);
}

#[test]
fn endpoints_are_written_like_socket_addresses() {
    let e = local(53);
    assert_eq!((e.text.as_str(), e.ip.as_str(), e.port, e.is_ipv4), ("127.0.0.1:53", "127.0.0.1", 53, true));
    let e = Endpoint::v4(255, 10, 0, 9, 65535);
    assert_eq!((e.text.as_str(), e.ip.as_str()), ("255.10.0.9:65535", "255.10.0.9"));
    let e = Endpoint::v6("fe80::1%3".to_string(), 53);
    assert_eq!((e.text.as_str(), e.is_ipv4), ("[fe80::1%3]:53", false));
}
