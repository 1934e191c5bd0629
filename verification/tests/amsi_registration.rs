use sentinella::amsi_provider::registration::{
    amsi_provider_subkey, clsid_inproc_subkey, clsid_root_subkey, default_data, reg_file_contents,
    unregistered_keys, RegKey, Registration, RegistrationStage, PROVIDER_CLSID,
    PROVIDER_CLSID_U128, PROVIDER_DISPLAY_NAME,
};

#[test]
fn clsid_is_well_formed() {
    assert!(PROVIDER_CLSID.starts_with('{') && PROVIDER_CLSID.ends_with('}'));
    assert_eq!(PROVIDER_CLSID.len(), 38); // {8-4-4-4-12}
}

#[test]
fn u128_matches_string() {
    let hex = format!("{PROVIDER_CLSID_U128:032X}");
    let dashed = format!(
        "{{{}-{}-{}-{}-{}}}",
        &hex[0..8], &hex[8..12], &hex[12..16], &hex[16..20], &hex[20..32]
    );
    assert_eq!(dashed, PROVIDER_CLSID);
}

#[test]
fn subkeys_are_correct() {
    assert!(clsid_inproc_subkey().ends_with(r"\InprocServer32"));
    assert!(clsid_inproc_subkey().contains(PROVIDER_CLSID));
    assert_eq!(
        amsi_provider_subkey(),
        format!(r"SOFTWARE\Microsoft\AMSI\Providers\{PROVIDER_CLSID}")
    );
}

#[test]
fn reg_file_has_all_three_keys_and_dll() {
    let reg = reg_file_contents(r"C:\Program Files\Sentinella\sentinella_amsi_provider.dll");
    assert!(reg.starts_with("Windows Registry Editor Version 5.00"));
    assert!(reg.contains(r"CLSID\\{53E6920C-21B6-4826-9752-81485B3CBA2A}\\InprocServer32"));
    assert!(reg.contains(r"AMSI\\Providers\\{53E6920C-21B6-4826-9752-81485B3CBA2A}"));
    assert!(reg.contains(r"ThreadingModel"));
    // DLL path is backslash-escaped for .reg syntax.
    assert!(reg.contains(r"C:\\Program Files\\Sentinella\\sentinella_amsi_provider.dll"));
}

#[test]
fn the_reg_file_is_exactly_this() {
    let expected = concat_lines(&[
        "Windows Registry Editor Version 5.00",
        "",
        r"[HKEY_LOCAL_MACHINE\SOFTWARE\\Classes\\CLSID\\{53E6920C-21B6-4826-9752-81485B3CBA2A}]",
        "@=\"Sentinella AMSI Provider\"",
        "",
        r"[HKEY_LOCAL_MACHINE\SOFTWARE\\Classes\\CLSID\\{53E6920C-21B6-4826-9752-81485B3CBA2A}\\InprocServer32]",
        r#"@="C:\\p.dll""#,
        "\"ThreadingModel\"=\"Both\"",
        "",
        r"[HKEY_LOCAL_MACHINE\SOFTWARE\\Microsoft\\AMSI\\Providers\\{53E6920C-21B6-4826-9752-81485B3CBA2A}]",
        "@=\"Sentinella AMSI Provider\"",
    ]);
    assert_eq!(reg_file_contents(r"C:\p.dll"), expected);
}

fn concat_lines(lines: &[&str]) -> String {
    lines.iter().map(|l| format!("{l}\r\n")).collect()
}

#[test]
fn keys_have_their_paths_and_defaults() {
    assert_eq!(RegKey::Root.subkey(), clsid_root_subkey());
    assert_eq!(RegKey::Inproc.subkey(), clsid_inproc_subkey());
    assert_eq!(RegKey::Amsi.subkey(), amsi_provider_subkey());
    assert_eq!(clsid_root_subkey(), format!(r"SOFTWARE\Classes\CLSID\{PROVIDER_CLSID}"));
    assert_eq!(default_data(RegKey::Root, "x.dll"), PROVIDER_DISPLAY_NAME);
    assert_eq!(default_data(RegKey::Inproc, "x.dll"), "x.dll");
    assert_eq!(default_data(RegKey::Amsi, "x.dll"), PROVIDER_DISPLAY_NAME);
}

fn stages(results: &[bool]) -> (Vec<RegistrationStage>, Registration) {
    let mut run = Registration::start(true);
    let mut seen = vec![run.stage];
    for r in results {
        run.step(*r);
        seen.push(run.stage);
    }
    (seen, run)
}

#[test]
fn a_clean_registration_goes_through_every_stage() {
    let (seen, run) = stages(&[true; 10]);
    assert_eq!(
        seen,
        vec![
            RegistrationStage::Create(RegKey::Root),
            RegistrationStage::SetDefault(RegKey::Root),
            RegistrationStage::Close(RegKey::Root),
            RegistrationStage::Create(RegKey::Inproc),
            RegistrationStage::SetDefault(RegKey::Inproc),
            RegistrationStage::SetThreadingModel,
            RegistrationStage::Close(RegKey::Inproc),
            RegistrationStage::Create(RegKey::Amsi),
            RegistrationStage::SetDefault(RegKey::Amsi),
            RegistrationStage::Close(RegKey::Amsi),
            RegistrationStage::Done,
        ]
    );
    assert!(run.ok);
}

#[test]
fn a_key_that_cannot_be_created_ends_registration() {
    let (_, run) = stages(&[false]);
    assert_eq!(run, Registration { stage: RegistrationStage::Done, ok: false });
}

#[test]
fn a_value_that_cannot_be_set_fails_registration_but_does_not_end_it() {
    let (seen, run) = stages(&[true, false, true]);
    assert_eq!(seen[3], RegistrationStage::Create(RegKey::Inproc));
    assert!(!run.ok);
    let (seen, _) = stages(&[true, true, true, true, false]);
    assert_eq!(seen[5], RegistrationStage::Close(RegKey::Inproc));
}

#[test]
fn closing_a_key_never_fails_registration() {
    let (_, run) = stages(&[true, true, false, true, true, true, false, true, true, false]);
    assert!(run.ok && run.stage == RegistrationStage::Done);
}

#[test]
fn without_a_path_there_is_nothing_to_register() {
    let run = Registration::start(false);
    assert_eq!(run, Registration { stage: RegistrationStage::Done, ok: false });
}

#[test]
fn unregistering_removes_the_class_and_the_enrolment() {
    assert_eq!(unregistered_keys(), vec![RegKey::Root, RegKey::Amsi]);
}

#[test]
fn paths_that_differ_are_registered_differently() {
    assert_ne!(reg_file_contents(r"C:\a\b.dll"), reg_file_contents(r"C:\\a\b.dll"));
    assert!(reg_file_contents(r"\\srv\p.dll").contains(r#"@="\\\\srv\\p.dll""#));
}

#[test]
fn everything_registered_is_removed_with_a_key_above_it() {
    for key in [RegKey::Root, RegKey::Inproc, RegKey::Amsi] {
        assert!(unregistered_keys().into_iter().any(|above| {
            above == key || key.subkey().starts_with(&format!(r"{}\", above.subkey()))
        }));
    }
}
