//! The route (space and issue) that the desktop shell restores on launch.

use vstd::prelude::*;

use crate::text::{blank, is_blank};
use crate::urls::{ends_with, plain_file_name};

verus! {

/// A remembered route: a space and, optionally, a positive issue number.
#[derive(Debug, Clone, PartialEq, Eq)]
pub struct PersistedRoute {
    pub space: String,
    pub issue: Option<u64>,
}

/// A route is valid when its space is not blank and its issue, if any, is
/// positive.
pub open spec fn valid_route(space: Seq<char>, issue: Option<u64>) -> bool {
    !blank(space) && issue != Some(0u64)
}

impl PersistedRoute {
    /// The route to `space` and `issue`, when it is valid.
    pub fn new(space: String, issue: Option<u64>) -> (r: Option<Self>)
        ensures
            valid_route(space@, issue) ==> r == Some(PersistedRoute { space, issue }),
            !valid_route(space@, issue) ==> r is None,
    {
        if is_blank(space.as_str()) {
            return None;
        }
        match issue {
            Some(0) => None,
            _ => Some(PersistedRoute { space, issue }),
        }
    }

    /// This route, when it is valid; a route read back from disk passes here.
    pub fn valid(self) -> (r: Option<Self>)
        ensures
            valid_route(self.space@, self.issue) ==> r == Some(self),
            !valid_route(self.space@, self.issue) ==> r is None,
    {
        Self::new(self.space, self.issue)
    }

    /// A copy of this route.
    pub fn duplicate(&self) -> (r: Self)
        ensures
            r == *self,
    {
        PersistedRoute { space: self.space.clone(), issue: self.issue }
    }
}

/// Where the remembered route is kept.
#[derive(Debug, Clone, PartialEq, Eq)]
pub struct RouteStateStore {
    file: String,
}

impl RouteStateStore {
    pub closed spec fn file_view(&self) -> Seq<char> {
        self.file@
    }

    pub fn new(file: String) -> (r: Self)
        ensures
            r.file_view() == file@,
    {
        RouteStateStore { file }
    }

    /// Where the route is kept by default: `desktop-route.json` beside the
    /// spaces file.
    pub fn default_file() -> (r: String)
        ensures
            ends_with(r@, "desktop-route.json"@),
    {
        proof {
            reveal_strlit("desktop-route.json");
            assert("desktop-route.json"@ =~= seq!['d', 'e', 's', 'k', 't', 'o', 'p', '-', 'r', 'o', 'u', 't', 'e', '.', 'j', 's', 'o', 'n']);
            reveal_with_fuel(crate::urls::no_separator, 19);
            assert(plain_file_name(seq!['d', 'e', 's', 'k', 't', 'o', 'p', '-', 'r', 'o', 'u', 't', 'e', '.', 'j', 's', 'o', 'n']));
            assert("desktop-route.json"@.skip(0) =~= "desktop-route.json"@);
        }
        let spaces = crate::spaces::SpaceStore::default_file();
        crate::urls::path_with_file_name(spaces.as_str(), "desktop-route.json")
    }

    pub fn file(&self) -> (r: &str)
        ensures
            r@ == self.file_view(),
    {
        self.file.as_str()
    }
}

/// The route that the shell asks to remember: a space with an optional issue,
/// or nothing at all. An issue without a space, and an invalid route, are
/// refused.
pub fn route_to_persist(space: Option<String>, issue: Option<u64>) -> (r: Result<Option<PersistedRoute>, String>)
    ensures
        match space {
            Some(s) => if valid_route(s@, issue) {
                r == Ok::<Option<PersistedRoute>, String>(Some(PersistedRoute { space: s, issue }))
            } else {
                r matches Err(m) && m@ == "route state must contain a space and a positive issue"@
            },
            None => if issue is None {
                r == Ok::<Option<PersistedRoute>, String>(None)
            } else {
                r matches Err(m) && m@ == "an issue route requires a space"@
            },
        },
{
    match space {
        Some(space) => match PersistedRoute::new(space, issue) {
            Some(route) => Ok(Some(route)),
            None => Err("route state must contain a space and a positive issue".to_owned()),
        },
        None => if issue.is_none() {
            Ok(None)
        } else {
            Err("an issue route requires a space".to_owned())
        },
    }
}

} // verus!
