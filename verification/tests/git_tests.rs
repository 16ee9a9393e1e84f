//! What the output of `git` means.

use git_forge::git::{
    classify_config_get, diagnostic_text, diff_of_run, diff_of_text, output_text,
};

#[test]
fn classify_128_and_spawn_failure_are_unreadable() {
    let err = classify_config_get(Some(128), &[], b"fatal: bad config line 1", "user.email")
        .unwrap_err();
    assert!(err.contains("repo config is unreadable"), "{err}");
    // status None models a spawn failure (no status observed).
    let err2 = classify_config_get(None, &[], b"", "user.email").unwrap_err();
    assert!(err2.contains("repo config is unreadable"), "{err2}");
}

#[test]
fn classify_exit0_shape_variants() {
    // present value
    assert_eq!(
        classify_config_get(Some(0), b"dev@example.com\0", b"", "user.email").unwrap(),
        Some("dev@example.com".to_string())
    );
    // empty value -> exit 0 + bare NUL
    assert_eq!(
        classify_config_get(Some(0), b"\0", b"", "user.email").unwrap(),
        Some(String::new())
    );
    // whitespace value
    assert_eq!(
        classify_config_get(Some(0), b"   \0", b"", "user.email").unwrap(),
        Some("   ".to_string())
    );
    // non-UTF-8 raw bytes -> None, never an error
    assert_eq!(
        classify_config_get(Some(0), b"\xff\xfe\0", b"", "user.email").unwrap(),
        None
    );
}

#[test]
fn classify_exit0_malformed_output_is_error() {
    // interior NUL -> untrustworthy -> Err, never a fallback
    let e = classify_config_get(Some(0), b"a\0b\0", b"", "user.email").unwrap_err();
    assert!(e.contains("malformed output"), "{e}");
    // missing trailing NUL -> Err
    let e2 = classify_config_get(Some(0), b"no-trailing-nul", b"", "user.email").unwrap_err();
    assert!(e2.contains("malformed output"), "{e2}");
}

#[test]
fn classify_absent_is_exit1_empty_both() {
    // absent key: exit 1, both streams empty -> Ok(None)
    assert_eq!(
        classify_config_get(Some(1), &[], &[], "user.email").unwrap(),
        None
    );
    // exit 1 WITH a diagnostic is a real config error, not absence
    let e = classify_config_get(Some(1), &[], b"fatal: not a git repository", "user.email")
        .unwrap_err();
    assert!(e.contains("exited 1"), "{e}");
    // other nonzero status
    let e2 = classify_config_get(Some(5), &[], b"boom", "user.email").unwrap_err();
    assert!(e2.contains("exited 5"), "{e2}");
}

#[test]
fn what_a_run_wrote_is_text_without_white_space_around_it() {
    assert_eq!(output_text(b" \n a b\n"), "a b");
    assert_eq!(output_text("é\u{2003}".as_bytes()), "é");
    assert_eq!(output_text(b"a\xffb\n"), "a\u{fffd}b");
    assert_eq!(diagnostic_text(b"fatal: x\n", None), "fatal: x");
    assert_eq!(diagnostic_text(b"", Some("nope")), "failed to spawn git: nope");
}

#[test]
fn a_diff_is_what_git_wrote() {
    assert_eq!(diff_of_run(Some(0), b" a\n+b\xff\n\n", None).unwrap(), " a\n+b\u{fffd}");
    assert_eq!(diff_of_text(Some(0), " a\n+b\n", None).unwrap(), " a\n+b");
    assert_eq!(diff_of_run(Some(128), b"a", None).unwrap_err(), "git diff failed");
    assert_eq!(diff_of_run(None, b"a", None).unwrap_err(), "git diff failed");
    assert_eq!(diff_of_run(None, b"", Some("nope")).unwrap_err(), "git diff failed: nope");
    assert_eq!(diff_of_text(None, "", Some("nope")).unwrap_err(), "git diff failed: nope");
}
