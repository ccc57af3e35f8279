use touched_files_check::classify::check;
use touched_files_check::fault::{ErrorKind, GateError};

fn strings(v: &[&str]) -> Vec<String> {
    v.iter().map(|s| s.to_string()).collect()
}

#[test]
fn test_check() {
    assert_eq!(check("M README.md"), Ok((Vec::<String>::new(), Vec::<String>::new())));
    assert_eq!(
        check("B 22.0/user/all.SHA256SUMS").unwrap_err().message(),
        "File status for attestation is not 'A' (for add): 'B' '22.0/user/all.SHA256SUMS'"
    );
    assert_eq!(
        check("A 22.0/user/all.SHA256SUMS\nA 22.0/user/all.SHA256SUMS.ask").unwrap_err().message(),
        "Added unknown file '22.0/user/all.SHA256SUMS.ask'"
    );
    assert_eq!(
        check("A 22.0/user/all.SHA256SUMS").unwrap_err().message(),
        "Missing SHA256SUMS.asc or SHA256SUMS file in 22.0/user/all.SHA256SUMS"
    );
    assert_eq!(
        check("A 22.0/user/all.SHA256SUMS\nA 22.0/user/all.SHA256SUMS.asc"),
        Ok((strings(&["22.0/user/all.SHA256SUMS"]), Vec::<String>::new()))
    );
    assert_eq!(
        check("B builder-keys/user.gpg").unwrap_err().message(),
        "File status for builder key is not 'A' (for add) or 'M' (for modified): 'B' 'builder-keys/user.gpg'",
    );
    assert_eq!(
        check("M builder-keys/user.gpg"),
        Ok((Vec::<String>::new(), strings(&["builder-keys/user.gpg"])))
    );
}

#[test]
fn exempt_paths_only_accept() {
    let diff = "D README.md\nX .cirrus.yml\nM contrib/tool/src/main.rs\nR .github/workflows/ci.yml\n";
    assert_eq!(check(diff), Ok((Vec::<String>::new(), Vec::<String>::new())));
}

#[test]
fn empty_diff_accepts() {
    assert_eq!(check(""), Ok((Vec::<String>::new(), Vec::<String>::new())));
}

#[test]
fn signature_with_bad_status_is_named() {
    let e = check("D 22.0/alice/all.SHA256SUMS.asc").unwrap_err();
    assert_eq!(
        e,
        GateError::AttestationStatus {
            status: "D".to_string(),
            path: "22.0/alice/all.SHA256SUMS.asc".to_string()
        }
    );
    assert_eq!(e.kind(), ErrorKind::Shape);
}

#[test]
fn lone_signature_misses_counterpart() {
    assert_eq!(
        check("A 22.0/alice/all.SHA256SUMS.asc"),
        Err(GateError::MissingCounterpart {
            group: "22.0/alice/all.SHA256SUMS".to_string(),
            missing: "22.0/alice/all.SHA256SUMS".to_string()
        })
    );
}

#[test]
fn scenario_b_lone_checksum() {
    assert_eq!(
        check("A 22.0/alice/all.SHA256SUMS"),
        Err(GateError::MissingCounterpart {
            group: "22.0/alice/all.SHA256SUMS".to_string(),
            missing: "22.0/alice/all.SHA256SUMS.asc".to_string()
        })
    );
    assert_eq!(
        check("A 22.0/alice/all.SHA256SUMS").unwrap_err().message(),
        "Missing SHA256SUMS.asc or SHA256SUMS file in 22.0/alice/all.SHA256SUMS"
    );
}

#[test]
fn pair_in_either_order_round_trips() {
    for diff in [
        "A 22.0/alice/all.SHA256SUMS\nA 22.0/alice/all.SHA256SUMS.asc",
        "A 22.0/alice/all.SHA256SUMS.asc\nA 22.0/alice/all.SHA256SUMS",
    ] {
        let (groups, keys) = check(diff).unwrap();
        assert_eq!(groups, strings(&["22.0/alice/all.SHA256SUMS"]));
        assert!(keys.is_empty());
        let mut members = vec![groups[0].clone(), format!("{}.asc", groups[0])];
        let mut paths: Vec<String> = diff.lines().map(|l| l[2..].to_string()).collect();
        members.sort();
        paths.sort();
        assert_eq!(members, paths);
    }
}

#[test]
fn duplicate_member_is_incomplete() {
    assert_eq!(
        check("A 1/b/xySHA256SUMS\nA 1/b/xySHA256SUMS\nA 1/b/xySHA256SUMS.asc"),
        Err(GateError::MissingCounterpart {
            group: "1/b/xySHA256SUMS".to_string(),
            missing: "1/b/xySHA256SUMS".to_string()
        })
    );
}

#[test]
fn path_shapes() {
    // any last segment ending in SHA256SUMS names a group
    assert_eq!(
        check("A 1/b/xSHA256SUMS\nA 1/b/xSHA256SUMS.asc"),
        Ok((strings(&["1/b/xSHA256SUMS"]), Vec::<String>::new()))
    );
    assert_eq!(
        check("A 1/b/SHA256SUMS"),
        Err(GateError::MissingCounterpart {
            group: "1/b/SHA256SUMS".to_string(),
            missing: "1/b/SHA256SUMS.asc".to_string()
        })
    );
    assert_eq!(
        check("B 1/b/xSHA256SUMS"),
        Err(GateError::AttestationStatus {
            status: "B".to_string(),
            path: "1/b/xSHA256SUMS".to_string()
        })
    );
    // too many segments, an empty segment, a wrong signature suffix
    assert_eq!(
        check("A 1/b/c/all.SHA256SUMS"),
        Err(GateError::UnknownFile { path: "1/b/c/all.SHA256SUMS".to_string() })
    );
    assert_eq!(
        check("A 1//all.SHA256SUMS"),
        Err(GateError::UnknownFile { path: "1//all.SHA256SUMS".to_string() })
    );
    assert_eq!(
        check("A 1/b/all.SHA256SUMSxasc"),
        Err(GateError::UnknownFile { path: "1/b/all.SHA256SUMSxasc".to_string() })
    );
    assert_eq!(
        check("A builder-keys/.gpg"),
        Err(GateError::UnknownFile { path: "builder-keys/.gpg".to_string() })
    );
    assert_eq!(
        check("A builder-keys/a/b.gpg"),
        Err(GateError::UnknownFile { path: "builder-keys/a/b.gpg".to_string() })
    );
}

#[test]
fn builder_keys_added_and_modified() {
    assert_eq!(
        check("A builder-keys/alice.gpg\r\nM builder-keys/bob.gpg\r\n"),
        Ok((
            Vec::<String>::new(),
            strings(&["builder-keys/alice.gpg", "builder-keys/bob.gpg"])
        ))
    );
}

#[test]
fn duplicate_key_is_refused() {
    assert_eq!(
        check("A builder-keys/alice.gpg\nM builder-keys/alice.gpg"),
        Err(GateError::DuplicateKey { path: "builder-keys/alice.gpg".to_string() })
    );
}

#[test]
fn malformed_line_is_refused() {
    let e = check("M README.md\nA").unwrap_err();
    assert_eq!(e, GateError::MalformedLine { line: "A".to_string() });
    assert_eq!(e.message(), "Malformed diff line: 'A'");
    assert_eq!(
        check("\n"),
        Err(GateError::MalformedLine { line: String::new() })
    );
}

#[test]
fn whitespace_separates_fields() {
    assert_eq!(
        check("  M\tbuilder-keys/alice.gpg  extra"),
        Ok((Vec::<String>::new(), strings(&["builder-keys/alice.gpg"])))
    );
}

#[test]
fn first_bad_line_wins() {
    assert_eq!(
        check("A unknown.txt\nB builder-keys/alice.gpg"),
        Err(GateError::UnknownFile { path: "unknown.txt".to_string() })
    );
}
