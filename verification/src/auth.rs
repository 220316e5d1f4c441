//! Resolution of the GitHub token from its sources in precedence order.

use vstd::prelude::*;

use crate::credentials::CredentialStoreError;
use crate::text::{blank, concat, is_blank, push_str, trim, trim_str};

verus! {

/// No GitHub token could be found; the detail says which sources were tried.
#[derive(Debug, Clone, PartialEq, Eq)]
pub enum AuthError {
    NotFound(String),
}

impl AuthError {
    pub open spec fn detail(&self) -> Seq<char> {
        match self {
            AuthError::NotFound(d) => d@,
        }
    }

    pub open spec fn message_view(&self) -> Seq<char> {
        "no GitHub token: "@ + self.detail() + ". Run `gh auth login` or set GITHUB_TOKEN."@
    }

    /// "no GitHub token: <detail>. Run `gh auth login` or set GITHUB_TOKEN."
    pub fn message(&self) -> (r: String)
        ensures
            r@ == self.message_view(),
    {
        match self {
            AuthError::NotFound(d) => {
                let mut r = concat("no GitHub token: ", d.as_str());
                push_str(&mut r, ". Run `gh auth login` or set GITHUB_TOKEN.");
                r
            },
        }
    }
}

pub open spec fn no_env_or_gh() -> Seq<char> {
    "neither GITHUB_TOKEN nor `gh auth token` yielded one"@
}

pub open spec fn no_source() -> Seq<char> {
    "neither GITHUB_TOKEN, `gh auth token`, nor the operating-system credential store yielded one"@
}

/// A candidate token counts when it is present and not blank.
pub open spec fn usable(t: Option<String>) -> bool {
    t matches Some(s) && !blank(s@)
}

/// The outcome, as token text or error detail, once the credential store
/// has answered `stored`.
pub open spec fn stored_outcome(stored: Result<Option<String>, CredentialStoreError>) -> Result<Seq<char>, Seq<char>> {
    match stored {
        Ok(Some(t)) => if !blank(t@) {
            Ok(t@)
        } else {
            Err(no_source())
        },
        Ok(None) => Err(no_source()),
        Err(e) => Err(no_env_or_gh() + ", and "@ + e.message_view()),
    }
}

pub open spec fn outcome_view(r: Result<String, AuthError>) -> Result<Seq<char>, Seq<char>> {
    match r {
        Ok(t) => Ok(t@),
        Err(e) => Err(e.detail()),
    }
}

/// Picks the GitHub token from, in order: `env` (the `GITHUB_TOKEN`
/// variable) when it is not blank, as it is; the output of `gh auth token`,
/// trimmed, when that is not blank; and, when `credential_store_enabled`,
/// the operating-system credential store. A later source is consulted only
/// when every earlier one yielded nothing.
pub fn resolve_with<G, S>(
    env: Option<String>,
    gh_token: G,
    stored_token: S,
    credential_store_enabled: bool,
) -> (r: Result<String, AuthError>) where
    G: FnOnce() -> Option<String>,
    S: FnOnce() -> Result<Option<String>, CredentialStoreError>,

    requires
        call_requires(gh_token, ()),
        call_requires(stored_token, ()),
    ensures
        usable(env) ==> outcome_view(r) == Ok::<Seq<char>, Seq<char>>(env->Some_0@),
        !usable(env) ==> exists|g: Option<String>|
            #![trigger call_ensures(gh_token, (), g)]
            call_ensures(gh_token, (), g) && {
                &&& usable(g) ==> outcome_view(r) == Ok::<Seq<char>, Seq<char>>(trim(g->Some_0@))
                &&& !usable(g) && !credential_store_enabled ==> outcome_view(r) == Err::<Seq<char>, Seq<char>>(no_env_or_gh())
                &&& !usable(g) && credential_store_enabled ==> exists|s: Result<Option<String>, CredentialStoreError>|
                    #![trigger call_ensures(stored_token, (), s)]
                    call_ensures(stored_token, (), s) && outcome_view(r) == stored_outcome(s)
            },
{
    if let Some(token) = env {
        if !is_blank(token.as_str()) {
            return Ok(token);
        }
    }
    let gh_output = gh_token();
    proof {
        lemma_trim_blank(gh_output);
    }
    if let Some(raw) = &gh_output {
        let token = trim_str(raw.as_str());
        if !is_blank(token.as_str()) {
            return Ok(token);
        }
    }
    if !credential_store_enabled {
        return Err(AuthError::NotFound("neither GITHUB_TOKEN nor `gh auth token` yielded one".to_owned()));
    }
    let stored = stored_token();
    match stored {
        Ok(Some(token)) => {
            if !is_blank(token.as_str()) {
                return Ok(token);
            }
        },
        Ok(None) => {},
        Err(error) => {
            let mut detail = "neither GITHUB_TOKEN nor `gh auth token` yielded one".to_owned();
            push_str(&mut detail, ", and ");
            let text = error.message();
            push_str(&mut detail, text.as_str());
            proof {
                assert(detail@ == no_env_or_gh() + ", and "@ + error.message_view());
            }
            return Err(AuthError::NotFound(detail));
        },
    }
    Err(AuthError::NotFound(
        "neither GITHUB_TOKEN, `gh auth token`, nor the operating-system credential store yielded one".to_owned(),
    ))
}

/// Trimming a token that is not blank leaves a token that is not blank, and
/// trimming twice changes nothing.
proof fn lemma_trim_blank(g: Option<String>)
    ensures
        g matches Some(s) ==> (blank(trim(s@)) == blank(s@)),
{
    if let Some(s) = g {
        crate::text::lemma_trim_idempotent(s@);
    }
}

} // verus!
