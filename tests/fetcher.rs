use sidecar::fetcher::{
    check_status, permission_mode, placeholder, prepare_content, replace_bytes, resolve,
    should_write, transform_content, validate_destination, FetchError, FetchMode,
};
use sidecar::text::{contains, ends_with};

#[test]
fn text_contains_and_ends_with() {
    assert!(contains("a/b.code/x", ".code"));
    assert!(!contains("a/b.cod", ".code"));
    assert!(contains("abc", ""));
    assert!(ends_with("settings.json", ".json"));
    assert!(!ends_with("settings.json.bak", ".json"));
    assert!(!ends_with("json", ".json"));
}

#[test]
fn destination_validation() {
    assert_eq!(validate_destination("a/b.txt"), Ok(()));
    assert_eq!(validate_destination("a/..b/c"), Ok(()));
    assert_eq!(validate_destination("..."), Ok(()));
    assert_eq!(validate_destination(""), Err(FetchError::PathRejected));
    assert_eq!(validate_destination("/etc/passwd"), Err(FetchError::PathRejected));
    assert_eq!(validate_destination("../x"), Err(FetchError::PathRejected));
    assert_eq!(validate_destination("a/../../x"), Err(FetchError::PathRejected));
    assert_eq!(validate_destination("a/.."), Err(FetchError::PathRejected));
}

#[test]
fn resolve_joins_under_root() {
    assert_eq!(resolve("/home/coder", "a/b.txt"), "/home/coder/a/b.txt");
}

#[test]
fn sync_poll_second_fetch_is_skipped() {
    assert!(should_write(FetchMode::SyncPoll, false));
    assert!(!should_write(FetchMode::SyncPoll, true));
}

#[test]
fn manual_save_always_overwrites() {
    assert!(should_write(FetchMode::ManualSave, true));
    assert!(should_write(FetchMode::ManualSave, false));
}

#[test]
fn source_status_is_checked() {
    assert_eq!(check_status(200), Ok(()));
    assert_eq!(check_status(299), Ok(()));
    assert_eq!(check_status(404), Err(FetchError::SourceStatus(404)));
    assert_eq!(check_status(199), Err(FetchError::SourceStatus(199)));
    assert_eq!(check_status(300), Err(FetchError::SourceStatus(300)));
}

#[test]
fn json_placeholder_is_replaced_everywhere() {
    let body = b"{\"a\":\"{VS_USER}\",\"b\":\"x{VS_USER}{VS_USER}\"}".to_vec();
    let out = transform_content("cfg/settings.json", body, "alice").unwrap();
    assert_eq!(out, b"{\"a\":\"alice\",\"b\":\"xalicealice\"}".to_vec());
}

#[test]
fn non_json_is_written_unchanged() {
    let body = b"echo {VS_USER}".to_vec();
    let out = transform_content("bin/run.sh", body.clone(), "alice").unwrap();
    assert_eq!(out, body);
    let raw = vec![0xffu8, 0xfe, 0x00];
    assert_eq!(transform_content("blob.bin", raw.clone(), "alice").unwrap(), raw);
}

#[test]
fn json_with_invalid_utf8_is_rejected() {
    let raw = vec![b'{', 0xffu8, b'}'];
    assert_eq!(transform_content("x.json", raw, "alice"), Err(FetchError::InvalidEncoding));
}

#[test]
fn prepare_checks_status_first() {
    let body = b"{VS_USER}".to_vec();
    assert_eq!(
        prepare_content("x.json", 500, body.clone(), "bob"),
        Err(FetchError::SourceStatus(500))
    );
    assert_eq!(prepare_content("x.json", 200, body, "bob"), Ok(b"bob".to_vec()));
}

#[test]
fn replace_bytes_partial_and_adjacent() {
    let pat = placeholder();
    assert_eq!(pat, b"{VS_USER}".to_vec());
    assert_eq!(replace_bytes(b"{VS_USE", &pat, b"u"), b"{VS_USE".to_vec());
    assert_eq!(replace_bytes(b"", &pat, b"u"), Vec::<u8>::new());
    assert_eq!(replace_bytes(b"{{VS_USER}}", &pat, b"u"), b"{u}".to_vec());
    assert_eq!(replace_bytes(b"ab", b"b", b""), b"a".to_vec());
}

#[test]
fn permission_policy_adds_bits() {
    assert_eq!(permission_mode("x/.code/run", 0o600), 0o744);
    assert_eq!(permission_mode("x/.code/run", 0o022), 0o766);
    assert_eq!(permission_mode("notes.txt", 0o600), 0o666);
    assert_eq!(permission_mode("notes.txt", 0o711), 0o777);
    let m = permission_mode("a.code", 0o4001);
    assert_eq!(m & 0o700, 0o700);
    assert_eq!(m & 0o4001, 0o4001);
}

#[test]
fn error_status_codes_are_distinct_by_kind() {
    assert_eq!(FetchError::PathRejected.status_code(), 400);
    assert_eq!(FetchError::SourceUnreachable.status_code(), 504);
    assert_eq!(FetchError::SourceStatus(404).status_code(), 502);
    assert_eq!(FetchError::InvalidEncoding.status_code(), 422);
    assert_eq!(FetchError::WriteFailed.status_code(), 500);
    let all = [
        FetchError::PathRejected,
        FetchError::SourceUnreachable,
        FetchError::SourceStatus(404),
        FetchError::InvalidEncoding,
        FetchError::WriteFailed,
    ];
    for (i, a) in all.iter().enumerate() {
        for b in all.iter().skip(i + 1) {
            assert_ne!(a.status_code(), b.status_code());
        }
    }
}
