//! The identity under which the GitHub credential is kept in the
//! operating-system credential store, and the errors of that store.

use vstd::prelude::*;

use crate::text::{blank, concat, is_blank};

verus! {

pub const SERVICE_NAME: &'static str = "stellr.github";

pub const DEFAULT_ACCOUNT: &'static str = "default";

/// A failure of the credential store, with the store's own description.
#[derive(Debug, Clone, PartialEq, Eq)]
pub enum CredentialStoreError {
    Keyring(String),
    Message(String),
}

pub open spec fn store_failed_prefix() -> Seq<char> {
    "operating-system credential store failed: "@
}

impl CredentialStoreError {
    /// The text the error displays.
    pub open spec fn message_view(&self) -> Seq<char> {
        match self {
            CredentialStoreError::Keyring(m) => store_failed_prefix() + m@,
            CredentialStoreError::Message(m) => store_failed_prefix() + m@,
        }
    }

    /// "operating-system credential store failed: " followed by the detail.
    pub fn message(&self) -> (r: String)
        ensures
            r@ == self.message_view(),
    {
        match self {
            CredentialStoreError::Keyring(m) => concat("operating-system credential store failed: ", m.as_str()),
            CredentialStoreError::Message(m) => concat("operating-system credential store failed: ", m.as_str()),
        }
    }
}

/// The credential-store entry used for the GitHub token.
#[derive(Debug, Clone, PartialEq, Eq)]
pub struct OsCredentialStore {
    service: &'static str,
    account: &'static str,
}

impl OsCredentialStore {
    pub closed spec fn service_view(&self) -> Seq<char> {
        self.service@
    }

    pub closed spec fn account_view(&self) -> Seq<char> {
        self.account@
    }

    /// The entry for service "stellr.github", account "default".
    pub fn default() -> (r: Self)
        ensures
            r.service_view() == SERVICE_NAME@,
            r.account_view() == DEFAULT_ACCOUNT@,
    {
        OsCredentialStore { service: SERVICE_NAME, account: DEFAULT_ACCOUNT }
    }

    pub fn service(&self) -> (r: &str)
        ensures
            r@ == self.service_view(),
    {
        self.service
    }

    pub fn account(&self) -> (r: &str)
        ensures
            r@ == self.account_view(),
    {
        self.account
    }
}

/// A credential can be stored only when it is not blank.
pub fn check_storable(credential: &str) -> (r: Result<(), CredentialStoreError>)
    ensures
        r is Ok <==> !blank(credential@),
        r matches Err(e) ==> e == CredentialStoreError::Message(
            e->Message_0,
        ) && e->Message_0@ == "refusing to store a blank credential"@,
{
    if is_blank(credential) {
        Err(CredentialStoreError::Message("refusing to store a blank credential".to_owned()))
    } else {
        Ok(())
    }
}

pub open spec fn not_saved_prefix() -> Seq<char> {
    "GitHub is connected for this run, but the credential could not be saved: "@
}

pub open spec fn not_finished_prefix() -> Seq<char> {
    "GitHub is connected for this run, but credential storage did not finish: "@
}

/// The warning shown after a newly authorized provider was activated and
/// its credential handed to the store: none when the store kept it,
/// otherwise the store's error. Synchronization stays active either way;
/// the warning says the next launch will need sign-in again.
pub fn storage_warning(stored: &Result<(), CredentialStoreError>) -> (r: Option<String>)
    ensures
        match stored {
            Ok(()) => r is None,
            Err(e) => r matches Some(w) && w@ == not_saved_prefix() + e.message_view(),
        },
{
    match stored {
        Ok(()) => None,
        Err(error) => {
            let text = error.message();
            Some(concat("GitHub is connected for this run, but the credential could not be saved: ", text.as_str()))
        },
    }
}

/// The warning shown when storing the credential did not finish, with the
/// reason `detail`.
pub fn storage_interrupted(detail: &str) -> (r: String)
    ensures
        r@ == not_finished_prefix() + detail@,
{
    concat("GitHub is connected for this run, but credential storage did not finish: ", detail)
}

} // verus!
