//! The theme preference that the desktop shell remembers.

use vstd::prelude::*;

use crate::urls::{ends_with, plain_file_name};

verus! {

/// The colour scheme the user chose.
#[derive(Debug, Clone, Copy, PartialEq, Eq, Structural)]
pub enum ThemePreference {
    System,
    Light,
    Dark,
}

impl Default for ThemePreference {
    /// Follow the system.
    fn default() -> (r: Self)
        ensures
            r == ThemePreference::System,
    {
        ThemePreference::System
    }
}

/// Where the theme preference is kept.
#[derive(Debug, Clone, PartialEq, Eq)]
pub struct ThemeStore {
    file: String,
}

impl ThemeStore {
    pub closed spec fn file_view(&self) -> Seq<char> {
        self.file@
    }

    pub fn new(file: String) -> (r: Self)
        ensures
            r.file_view() == file@,
    {
        ThemeStore { file }
    }

    /// Where the preference is kept by default: `theme.json` beside the
    /// spaces file.
    pub fn default_file() -> (r: String)
        ensures
            ends_with(r@, "theme.json"@),
    {
        proof {
            reveal_strlit("theme.json");
            assert("theme.json"@ =~= seq!['t', 'h', 'e', 'm', 'e', '.', 'j', 's', 'o', 'n']);
            reveal_with_fuel(crate::urls::no_separator, 11);
            assert(plain_file_name(seq!['t', 'h', 'e', 'm', 'e', '.', 'j', 's', 'o', 'n']));
            assert("theme.json"@.skip(0) =~= "theme.json"@);
        }
        let spaces = crate::spaces::SpaceStore::default_file();
        crate::urls::path_with_file_name(spaces.as_str(), "theme.json")
    }

    pub fn file(&self) -> (r: &str)
        ensures
            r@ == self.file_view(),
    {
        self.file.as_str()
    }
}

} // verus!
