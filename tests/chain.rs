use touched_files_check::classify::check;
use touched_files_check::fault::{ErrorKind, GateError};
use touched_files_check::message::{decimal_text, join_texts};
use touched_files_check::paths::{builder_name, key_path_for};
use touched_files_check::trust::{
    check_attestations, check_files, check_group, GroupEvidence, ImportOutcome, SignatureStatus, VerifyOutcome,
};

const GROUP: &str = "22.0/alice/all.SHA256SUMS";

fn good() -> GroupEvidence {
    GroupEvidence {
        key: Ok(b"-----BEGIN PGP PUBLIC KEY BLOCK-----".to_vec()),
        sums: b"abc  bitcoin.tar.gz\n".to_vec(),
        sig: b"-----BEGIN PGP SIGNATURE-----".to_vec(),
        import: ImportOutcome::Counts { considered: 1, not_imported: 0 },
        verify: VerifyOutcome::Signatures { statuses: vec![SignatureStatus::Valid] },
    }
}

fn groups() -> Vec<String> {
    vec![GROUP.to_string()]
}

#[test]
fn key_path_of_group() {
    assert_eq!(builder_name(GROUP), "alice");
    assert_eq!(key_path_for(GROUP), "builder-keys/alice.gpg");
}

#[test]
fn scenario_a_readme_only() {
    let (g, k) = check("M README.md").unwrap();
    assert!(g.is_empty() && k.is_empty());
    assert_eq!(check_attestations(&g, k, &vec![]), Ok(()));
}

#[test]
fn scenario_c_valid_attestation() {
    let (g, k) = check(&format!("A {GROUP}\nA {GROUP}.asc")).unwrap();
    assert_eq!(check_attestations(&g, k, &vec![good()]), Ok(()));
}

#[test]
fn attestation_accounts_for_its_key() {
    let keys = vec!["builder-keys/alice.gpg".to_string()];
    assert_eq!(check_attestations(&groups(), keys, &vec![good()]), Ok(()));
}

#[test]
fn scenario_d_two_keys_imported() {
    let mut ev = good();
    ev.import = ImportOutcome::Counts { considered: 2, not_imported: 0 };
    let e = check_attestations(&groups(), vec![], &vec![ev]).unwrap_err();
    assert_eq!(e.kind(), ErrorKind::Import);
    assert_eq!(
        e.message(),
        "Too many or too few builder keys considered for import. Key: 'builder-keys/alice.gpg', Considered: 2, Not imported: 0"
    );
}

#[test]
fn key_left_out_of_import() {
    let mut ev = good();
    ev.import = ImportOutcome::Counts { considered: 1, not_imported: 1 };
    assert_eq!(
        check_group(GROUP, &ev),
        Err(GateError::ImportCount {
            key: "builder-keys/alice.gpg".to_string(),
            considered: 1,
            not_imported: 1
        })
    );
}

#[test]
fn import_failure() {
    let mut ev = good();
    ev.import = ImportOutcome::Failed { reason: "no data".to_string() };
    let e = check_group(GROUP, &ev).unwrap_err();
    assert_eq!(e.kind(), ErrorKind::Import);
    assert_eq!(e.message(), "Builder key not imported. Key: 'builder-keys/alice.gpg', Error: 'no data'");
}

#[test]
fn scenario_e_key_without_attestation() {
    let (g, k) = check("M builder-keys/alice.gpg").unwrap();
    let e = check_attestations(&g, k, &vec![]).unwrap_err();
    assert_eq!(e.kind(), ErrorKind::Policy);
    assert_eq!(
        e,
        GateError::UnmatchedKeys { keys: vec!["builder-keys/alice.gpg".to_string()] }
    );
    assert_eq!(
        e.message(),
        "Added builder keys without new attestation. Extra keys: 'builder-keys/alice.gpg'"
    );
}

#[test]
fn other_builders_key_stays_unmatched() {
    let keys = vec!["builder-keys/alice.gpg".to_string(), "builder-keys/bob.gpg".to_string()];
    assert_eq!(
        check_attestations(&groups(), keys, &vec![good()]),
        Err(GateError::UnmatchedKeys { keys: vec!["builder-keys/bob.gpg".to_string()] })
    );
}

#[test]
fn missing_key_file() {
    let mut ev = good();
    ev.key = Err("No such file or directory (os error 2)".to_string());
    let e = check_group(GROUP, &ev).unwrap_err();
    assert_eq!(e.kind(), ErrorKind::KeyResolution);
    assert_eq!(
        e.message(),
        "Builder key not found for attestation. Attestation: '22.0/alice/all.SHA256SUMS', Key: 'builder-keys/alice.gpg', Error: 'No such file or directory (os error 2)'.\nHelp: Run 'gpg --export --armor alice > builder-keys/alice.gpg && git add builder-keys/alice.gpg'"
    );
}

#[test]
fn non_ascii_files_are_named() {
    let mut ev = good();
    ev.key = Ok(vec![0x99, 0x01]);
    assert_eq!(
        check_group(GROUP, &ev),
        Err(GateError::NotAscii { file: "builder-keys/alice.gpg".to_string() })
    );
    let mut ev = good();
    ev.sums.push(0x80);
    assert_eq!(check_group(GROUP, &ev), Err(GateError::NotAscii { file: GROUP.to_string() }));
    let mut ev = good();
    ev.sig.push(0xff);
    let e = check_group(GROUP, &ev).unwrap_err();
    assert_eq!(e.kind(), ErrorKind::Encoding);
    assert_eq!(
        e.message(),
        "All files must be in ascii format. Make sure to pass --armor to gpg. File: 22.0/alice/all.SHA256SUMS.asc"
    );
}

#[test]
fn byte_just_below_limit_is_ascii() {
    let mut ev = good();
    ev.sig.push(0x7f);
    assert_eq!(check_group(GROUP, &ev), Ok(()));
}

#[test]
fn signature_failures() {
    let mut ev = good();
    ev.verify = VerifyOutcome::Failed { reason: "bad data".to_string() };
    assert_eq!(
        check_group(GROUP, &ev).unwrap_err().message(),
        "Signature does not verify. Attestation: '22.0/alice/all.SHA256SUMS', Key: 'builder-keys/alice.gpg', Error: 'bad data'"
    );
    let mut ev = good();
    ev.verify = VerifyOutcome::Signatures { statuses: vec![] };
    assert_eq!(
        check_group(GROUP, &ev).unwrap_err().message(),
        "Too many or too few signatures. Attestation: '22.0/alice/all.SHA256SUMS', Key: 'builder-keys/alice.gpg, Sigs len: 0"
    );
    let mut ev = good();
    ev.verify = VerifyOutcome::Signatures {
        statuses: vec![SignatureStatus::Valid, SignatureStatus::Valid],
    };
    assert_eq!(
        check_group(GROUP, &ev),
        Err(GateError::SignatureCount {
            attestation: GROUP.to_string(),
            key: "builder-keys/alice.gpg".to_string(),
            count: 2
        })
    );
    let mut ev = good();
    ev.verify = VerifyOutcome::Signatures {
        statuses: vec![SignatureStatus::Invalid { reason: "Bad signature".to_string() }],
    };
    let e = check_group(GROUP, &ev).unwrap_err();
    assert_eq!(e.kind(), ErrorKind::Signature);
    assert_eq!(
        e.message(),
        "Signature error. Attestation: '22.0/alice/all.SHA256SUMS', Key: 'builder-keys/alice.gpg', Error: 'Bad signature'"
    );
}

#[test]
fn first_failing_group_wins() {
    let gs = vec![GROUP.to_string(), "22.0/bob/all.SHA256SUMS".to_string()];
    let mut bad = good();
    bad.key = Ok(vec![0xc3]);
    assert_eq!(
        check_attestations(&gs, vec![], &vec![good(), bad]),
        Err(GateError::NotAscii { file: "builder-keys/bob.gpg".to_string() })
    );
}

#[test]
fn decimal_and_join() {
    assert_eq!(decimal_text(0), "0");
    assert_eq!(decimal_text(10), "10");
    assert_eq!(decimal_text(4294967295), "4294967295");
    assert_eq!(join_texts(&vec![]), "");
    assert_eq!(join_texts(&vec!["a".to_string(), "b".to_string(), "c".to_string()]), "a, b, c");
}

#[test]
fn file_checks_come_before_import() {
    let ev = good();
    assert_eq!(check_files(GROUP, &ev.key, &ev.sums, &ev.sig), Ok(()));
    let mut bad = good();
    bad.sums.push(0x80);
    // the import outcome is never looked at when a file is not ASCII
    bad.import = ImportOutcome::Failed { reason: "unused".to_string() };
    assert_eq!(
        check_files(GROUP, &bad.key, &bad.sums, &bad.sig),
        Err(GateError::NotAscii { file: GROUP.to_string() })
    );
    assert_eq!(check_group(GROUP, &bad), Err(GateError::NotAscii { file: GROUP.to_string() }));
    assert_eq!(
        check_files(GROUP, &Err("gone".to_string()), &ev.sums, &ev.sig).unwrap_err().kind(),
        ErrorKind::KeyResolution
    );
}
