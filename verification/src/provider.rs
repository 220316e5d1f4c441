//! What a provider hands the cockpit: repository references, snapshots and
//! the errors of a fetch.

use vstd::prelude::*;

use crate::history::IssueSyncMetadata;
use crate::model::RawIssue;
use crate::text::{concat, push_str};

verus! {

/// A GitHub repository, by owner and name.
#[derive(Debug, Clone, PartialEq, Eq)]
pub struct RepoRef {
    pub owner: String,
    pub name: String,
}

impl RepoRef {
    /// "owner/name".
    pub open spec fn slug_view(&self) -> Seq<char> {
        self.owner@ + "/"@ + self.name@
    }

    pub fn slug(&self) -> (r: String)
        ensures
            r@ == self.slug_view(),
    {
        let mut r = concat(self.owner.as_str(), "/");
        push_str(&mut r, self.name.as_str());
        r
    }

    /// A copy of this reference.
    pub fn duplicate(&self) -> (r: Self)
        ensures
            r == *self,
    {
        RepoRef { owner: self.owner.clone(), name: self.name.clone() }
    }
}

/// One fetch of a repository: its issues and, when the provider supplies
/// them, the metadata that history is built from.
#[derive(Debug, Clone, PartialEq)]
pub struct ProviderSnapshot {
    pub viewer_login: Option<String>,
    pub repository_id: Option<String>,
    /// Provider-backed boundary through which history can be claimed complete.
    pub history_cutoff: Option<i64>,
    pub issues: Vec<RawIssue>,
    pub history: Vec<IssueSyncMetadata>,
    /// The provider generation that fetched this snapshot, when one did.
    pub publication_generation: Option<u64>,
}

impl ProviderSnapshot {
    pub open spec fn generation(&self) -> Option<u64> {
        self.publication_generation
    }

    /// A snapshot of `issues` as `viewer_login` sees them, without history.
    pub fn new(viewer_login: Option<String>, issues: Vec<RawIssue>) -> (r: Self)
        ensures
            r.viewer_login == viewer_login,
            r.repository_id is None,
            r.history_cutoff is None,
            r.issues == issues,
            r.history@.len() == 0,
            r.generation() is None,
    {
        ProviderSnapshot {
            viewer_login,
            repository_id: None,
            history_cutoff: None,
            issues,
            history: Vec::new(),
            publication_generation: None,
        }
    }

    /// A snapshot that also carries history metadata.
    pub fn with_history(
        viewer_login: Option<String>,
        repository_id: Option<String>,
        history_cutoff: Option<i64>,
        issues: Vec<RawIssue>,
        history: Vec<IssueSyncMetadata>,
    ) -> (r: Self)
        ensures
            r.viewer_login == viewer_login,
            r.repository_id == repository_id,
            r.history_cutoff == history_cutoff,
            r.issues == issues,
            r.history == history,
            r.generation() is None,
    {
        ProviderSnapshot {
            viewer_login,
            repository_id,
            history_cutoff,
            issues,
            history,
            publication_generation: None,
        }
    }

    /// A snapshot without a viewer identity.
    pub fn without_viewer(issues: Vec<RawIssue>) -> (r: Self)
        ensures
            r.viewer_login is None,
            r.repository_id is None,
            r.history_cutoff is None,
            r.issues == issues,
            r.history@.len() == 0,
            r.generation() is None,
    {
        Self::new(None, issues)
    }

    /// The same snapshot, marked as fetched by provider generation `generation`.
    pub fn with_publication_generation(self, generation: u64) -> (r: Self)
        ensures
            r.generation() == Some(generation),
            r.viewer_login == self.viewer_login,
            r.repository_id == self.repository_id,
            r.history_cutoff == self.history_cutoff,
            r.issues == self.issues,
            r.history == self.history,
    {
        let mut s = self;
        s.publication_generation = Some(generation);
        s
    }

    pub fn publication_generation(&self) -> (r: Option<u64>)
        ensures
            r == self.generation(),
    {
        self.publication_generation
    }
}

/// Why a provider request failed.
#[derive(Debug, Clone, PartialEq, Eq)]
pub enum ProviderError {
    Auth(String),
    RateLimited { reset_epoch: Option<i64> },
    Http(String),
    Parse(String),
    Superseded,
    Unsupported(String),
}

impl ProviderError {
    pub open spec fn message_view(&self) -> Seq<char> {
        match self {
            ProviderError::Auth(m) => "authentication failed: "@ + m@,
            ProviderError::RateLimited { .. } => "GitHub rate limit exceeded"@,
            ProviderError::Http(m) => "HTTP request failed: "@ + m@,
            ProviderError::Parse(m) => "response parsing failed: "@ + m@,
            ProviderError::Superseded => "provider changed while the request was in flight"@,
            ProviderError::Unsupported(m) => "unsupported provider operation: "@ + m@,
        }
    }

    /// The text the error displays.
    pub fn message(&self) -> (r: String)
        ensures
            r@ == self.message_view(),
    {
        match self {
            ProviderError::Auth(m) => concat("authentication failed: ", m.as_str()),
            ProviderError::RateLimited { .. } => "GitHub rate limit exceeded".to_owned(),
            ProviderError::Http(m) => concat("HTTP request failed: ", m.as_str()),
            ProviderError::Parse(m) => concat("response parsing failed: ", m.as_str()),
            ProviderError::Superseded => "provider changed while the request was in flight".to_owned(),
            ProviderError::Unsupported(m) => concat("unsupported provider operation: ", m.as_str()),
        }
    }
}

} // verus!
