use stellr::credentials::{storage_interrupted, storage_warning};
use std::cell::Cell;

use stellr::auth::resolve_with;
use stellr::credentials::{
    check_storable, CredentialStoreError, OsCredentialStore, DEFAULT_ACCOUNT, SERVICE_NAME,
};

#[test]
fn env_var_wins() {
    assert_eq!(
        resolve_with(
            Some("tok_env".into()),
            || Some("tok_gh".into()),
            || Ok(Some("tok_store".into())),
            true,
        )
        .unwrap(),
        "tok_env"
    );
}

#[test]
fn nonblank_env_does_not_invoke_gh_provider() {
    let gh_calls = Cell::new(0);

    let token = resolve_with(
        Some("tok_env".into()),
        || {
            gh_calls.set(gh_calls.get() + 1);
            Some("tok_gh".into())
        },
        || panic!("credential store must not be read"),
        true,
    )
    .unwrap();

    assert_eq!(token, "tok_env");
    assert_eq!(gh_calls.get(), 0);
}

#[test]
fn falls_back_to_gh_and_trims() {
    assert_eq!(
        resolve_with(
            None,
            || Some("tok_gh\n".into()),
            || Ok(Some("tok_store".into())),
            true,
        )
        .unwrap(),
        "tok_gh"
    );
}

#[test]
fn falls_back_to_the_operating_system_store_after_github_cli() {
    assert_eq!(
        resolve_with(None, || None, || Ok(Some("tok_store".into())), true).unwrap(),
        "tok_store"
    );
}

#[test]
fn empty_everything_is_a_helpful_error() {
    let err = resolve_with(Some("".into()), || None, || Ok(None), true).unwrap_err();
    let message = err.message();
    assert!(message.contains("gh auth login"));
    assert!(message.contains("GITHUB_TOKEN"));
    assert!(message.contains("operating-system credential store"));
}

#[test]
fn headless_auth_does_not_read_or_advertise_an_os_store() {
    let err = resolve_with(
        None,
        || None,
        || panic!("credential store must not be read"),
        false,
    )
    .unwrap_err();
    let message = err.message();
    assert!(message.contains("GITHUB_TOKEN"));
    assert!(message.contains("gh auth login"));
    assert!(!message.contains("operating-system credential store"));
}

#[test]
fn a_failing_store_is_reported_with_its_own_message() {
    let err = resolve_with(
        None,
        || Some("  \n".into()),
        || Err(CredentialStoreError::Message("locked".into())),
        true,
    )
    .unwrap_err();
    assert_eq!(
        err.message(),
        "no GitHub token: neither GITHUB_TOKEN nor `gh auth token` yielded one, and \
         operating-system credential store failed: locked. Run `gh auth login` or set GITHUB_TOKEN."
    );
}

#[test]
fn a_blank_stored_token_is_not_used() {
    let err = resolve_with(None, || None, || Ok(Some(" ".into())), true).unwrap_err();
    assert!(err.message().contains("nor the operating-system credential store yielded one"));
}

#[test]
fn operating_system_store_uses_the_approved_stellr_identity() {
    let store = OsCredentialStore::default();

    assert_eq!(store.service(), SERVICE_NAME);
    assert_eq!(store.account(), DEFAULT_ACCOUNT);
    assert_eq!(store.service(), "stellr.github");
    assert_eq!(store.account(), "default");
}

#[test]
fn blank_credentials_are_refused() {
    assert!(check_storable("tok").is_ok());
    assert_eq!(
        check_storable(" \t"),
        Err(CredentialStoreError::Message(
            "refusing to store a blank credential".into()
        ))
    );
}

#[test]
fn storage_failures_warn_that_the_connection_lasts_only_this_run() {
    assert_eq!(storage_warning(&Ok(())), None);
    assert_eq!(
        storage_warning(&Err(CredentialStoreError::Message("locked".into()))),
        Some(
            "GitHub is connected for this run, but the credential could not be saved: operating-system credential store failed: locked"
                .to_owned()
        )
    );
    assert_eq!(
        storage_interrupted("task panicked"),
        "GitHub is connected for this run, but credential storage did not finish: task panicked"
    );
}
