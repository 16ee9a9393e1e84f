//! The errors of the store, and its counter.

use git_forge::store::{
    counter_json, map_repo_open_err, parse_counter_next, path_not_text, GitFailure, StoreError,
};

/// What is kept of a failure of the Git library.
fn failure(e: git2::Error) -> GitFailure {
    GitFailure {
        not_found: e.code() == git2::ErrorCode::NotFound,
        message: e.to_string(),
    }
}

#[test]
fn map_repo_open_err_not_found_becomes_not_a_git_repo() {
    // A path that is not a repository yields ErrorCode::NotFound, which
    // must map to the user-facing NotAGitRepository.
    let e = match git2::Repository::open("/tmp/gf-no-such-repo-xyz") {
        Ok(_) => panic!("open must fail on a nonexistent path"),
        Err(e) => e,
    };
    assert!(matches!(
        map_repo_open_err(failure(e)),
        StoreError::NotAGitRepository
    ));
}

#[test]
fn store_error_display_constracts_user_facing_text() {
    assert_eq!(
        StoreError::NotAGitRepository.to_text(),
        "not a git repository (or any of the parent directories)"
    );
    assert_eq!(
        StoreError::CasConflict.to_text(),
        "ref CAS conflict — ref moved, retry"
    );
    assert_eq!(
        StoreError::Exhausted.to_text(),
        "bounded CAS retries exhausted; refs unchanged"
    );
    assert_eq!(
        StoreError::MissingEvent.to_text(),
        "entity chain has no event.json payload"
    );
    assert_eq!(
        StoreError::MissingRef.to_text(),
        "required ref does not exist"
    );
    assert_eq!(
        StoreError::RefExists("refs/forge/issues/1".into()).to_text(),
        "entity ref already exists: refs/forge/issues/1"
    );
    assert_eq!(
        StoreError::Command("boom".into()).to_text(),
        "git command failed: boom"
    );
    assert_eq!(
        StoreError::InvalidState("whatev".into()).to_text(),
        "invalid store state: whatev"
    );
}

#[test]
fn git_failure_keeps_its_prefix_and_message() {
    let ge = git2::Error::from_str("boom");
    assert_eq!(StoreError::Git(failure(ge)).to_text(), "git error: boom");
}

#[test]
fn map_repo_open_err_non_not_found_stays_git() {
    // A git2 error whose code is not NotFound must pass through as a
    // StoreError::Git (keeping its diagnostic), not be coerced to the
    // user-facing "not a git repository" message.
    let ge = git2::Error::from_str("boom");
    assert!(matches!(
        map_repo_open_err(failure(ge)),
        StoreError::Git(_)
    ));
}

#[test]
fn parse_counter_next_reads_and_rejects() {
    assert_eq!(parse_counter_next(r#"{"v":1,"next":7}"#).unwrap(), 7);
    assert_eq!(parse_counter_next("  {\"v\":1,\"next\":42}  ").unwrap(), 42);
    // missing "next" key
    assert!(matches!(
        parse_counter_next(r#"{"v":1}"#),
        Err(StoreError::InvalidState(_))
    ));
    // non-numeric next
    assert!(matches!(
        parse_counter_next(r#"{"v":1,"next":abc}"#),
        Err(StoreError::InvalidState(_))
    ));
}

#[test]
fn a_counter_reads_back_with_white_space_around_it() {
    for n in [1, 42, u64::MAX] {
        let text = counter_json(n);
        assert_eq!(parse_counter_next(&text).unwrap(), n);
        assert_eq!(parse_counter_next(&format!("\n\u{2003}{text}\u{85}\n")).unwrap(), n);
    }
    assert_eq!(counter_json(7), r#"{"v":1,"next":7}"#);
}

#[test]
fn a_path_that_is_no_text_is_told() {
    assert_eq!(
        path_not_text(),
        StoreError::InvalidState("non-UTF8 .git path".to_string())
    );
}
