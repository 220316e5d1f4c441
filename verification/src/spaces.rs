//! The repositories the cockpit shows ("spaces") and GitHub remote parsing.

use vstd::prelude::*;

use crate::provider::RepoRef;
use crate::urls::{ends_with, plain_file_name};
use crate::text::{
    chars_of, concat, copy_opt_string, push_str, slice_range, split_on, split_two, string_of,
    trim_suffixes, trim_suffixes_end, ends_with_at, str_eq,
};

verus! {

/// A repository space: its id, an optional local checkout and the repository.
#[derive(Debug, Clone, PartialEq, Eq)]
pub struct SpaceEntry {
    pub id: String,
    pub path: Option<String>,
    pub repo: RepoRef,
}

/// The id of the space of `repo`: "owner-name".
pub open spec fn space_id_of(repo: RepoRef) -> Seq<char> {
    repo.owner@ + "-"@ + repo.name@
}

impl SpaceEntry {
    /// The space of `repo`, with id "owner-name".
    pub fn new(repo: RepoRef, path: Option<String>) -> (r: Self)
        ensures
            r.id@ == space_id_of(repo),
            r.path == path,
            r.repo == repo,
    {
        let mut id = concat(repo.owner.as_str(), "-");
        push_str(&mut id, repo.name.as_str());
        SpaceEntry { id, path, repo }
    }

    /// A copy of this entry.
    pub fn duplicate(&self) -> (r: Self)
        ensures
            r == *self,
    {
        SpaceEntry { id: self.id.clone(), path: copy_opt_string(&self.path), repo: self.repo.duplicate() }
    }
}

/// The first position in `entries` whose id is `id`, if any.
pub open spec fn position_of(entries: Seq<SpaceEntry>, id: Seq<char>) -> Option<int>
    decreases entries.len(),
{
    if entries.len() == 0 {
        None
    } else {
        match position_of(entries.drop_last(), id) {
            Some(k) => Some(k),
            None => if entries.last().id@ == id {
                Some(entries.len() - 1)
            } else {
                None
            },
        }
    }
}

/// The spaces after adding `entry`: refused when one with its id exists.
pub open spec fn added(entries: Seq<SpaceEntry>, entry: SpaceEntry) -> Option<Seq<SpaceEntry>> {
    if position_of(entries, entry.id@) is Some {
        None
    } else {
        Some(entries.push(entry))
    }
}

/// The spaces after removing the first one with id `id`.
pub open spec fn removed(entries: Seq<SpaceEntry>, id: Seq<char>) -> Seq<SpaceEntry> {
    match position_of(entries, id) {
        Some(k) => entries.remove(k),
        None => entries,
    }
}

/// The configured spaces, in the order they were added, and the file that
/// holds them.
pub struct SpaceStore {
    entries: Vec<SpaceEntry>,
    file: String,
}

impl SpaceStore {
    pub closed spec fn entries_view(&self) -> Seq<SpaceEntry> {
        self.entries@
    }

    pub closed spec fn file_view(&self) -> Seq<char> {
        self.file@
    }

    /// Where the spaces are kept by default: `spaces.toml` in the
    /// application's configuration directory, or in the working directory
    /// when there is none. The directory depends on the platform and the
    /// environment; the file is always named `spaces.toml`.
    pub fn default_file() -> (r: String)
        ensures
            ends_with(r@, "spaces.toml"@),
    {
        proof {
            reveal_strlit("spaces.toml");
            assert("spaces.toml"@ =~= seq!['s', 'p', 'a', 'c', 'e', 's', '.', 't', 'o', 'm', 'l']);
            reveal_with_fuel(crate::urls::no_separator, 12);
            assert(plain_file_name(seq!['s', 'p', 'a', 'c', 'e', 's', '.', 't', 'o', 'm', 'l']));
            assert("spaces.toml"@.skip(0) =~= "spaces.toml"@);
        }
        match crate::urls::project_config_dir() {
            Some(dir) => crate::urls::path_join(dir.as_str(), "spaces.toml"),
            None => "spaces.toml".to_owned(),
        }
    }

    /// A store of `entries` kept in `file`.
    pub fn from_entries(entries: Vec<SpaceEntry>, file: String) -> (r: Self)
        ensures
            r.entries_view() == entries@,
            r.file_view() == file@,
    {
        SpaceStore { entries, file }
    }

    pub fn file(&self) -> (r: &str)
        ensures
            r@ == self.file_view(),
    {
        self.file.as_str()
    }

    pub fn entries(&self) -> (r: &[SpaceEntry])
        ensures
            r@ == self.entries_view(),
    {
        self.entries.as_slice()
    }

    /// Adds `entry` unless a space with its id exists, which is refused with
    /// "space <id> already exists".
    pub fn add(&mut self, entry: SpaceEntry) -> (r: Result<(), String>)
        ensures
            final(self).file_view() == old(self).file_view(),
            match added(old(self).entries_view(), entry) {
                Some(after) => r is Ok && final(self).entries_view() == after,
                None => r matches Err(m) && m@ == "space "@ + entry.id@ + " already exists"@
                    && final(self).entries_view() == old(self).entries_view(),
            },
    {
        match self.find(entry.id.as_str()) {
            Some(_) => {
                let mut m = concat("space ", entry.id.as_str());
                push_str(&mut m, " already exists");
                Err(m)
            },
            None => {
                self.entries.push(entry);
                Ok(())
            },
        }
    }

    /// Removes the first space with id `id`; false when there is none.
    pub fn remove(&mut self, id: &str) -> (r: bool)
        ensures
            r == position_of(old(self).entries_view(), id@) is Some,
            final(self).entries_view() == removed(old(self).entries_view(), id@),
            final(self).file_view() == old(self).file_view(),
    {
        match self.find(id) {
            Some(k) => {
                self.entries.remove(k);
                true
            },
            None => false,
        }
    }

    /// Whether a space with id `id` is kept.
    pub fn contains(&self, id: &str) -> (r: bool)
        ensures
            r == position_of(self.entries_view(), id@) is Some,
    {
        self.find(id).is_some()
    }

    /// The position of the first space with id `id`.
    fn find(&self, id: &str) -> (r: Option<usize>)
        ensures
            match r {
                Some(k) => position_of(self.entries_view(), id@) == Some(k as int) && k < self.entries_view().len(),
                None => position_of(self.entries_view(), id@) is None,
            },
    {
        let mut k: usize = 0;
        while k < self.entries.len()
            invariant
                k <= self.entries@.len(),
                position_of(self.entries@.take(k as int), id@) is None,
            decreases self.entries@.len() - k,
        {
            assert(self.entries@.take(k + 1).drop_last() == self.entries@.take(k as int));
            if str_eq(self.entries[k].id.as_str(), id) {
                proof {
                    lemma_position_prefix(self.entries@, k as int + 1, id@);
                    lemma_position_bounds(self.entries@, id@);
                }
                return Some(k);
            }
            k = k + 1;
        }
        assert(self.entries@.take(self.entries@.len() as int) == self.entries@);
        None
    }
}

/// A position found in a prefix stays the first one in the whole sequence.
proof fn lemma_position_prefix(entries: Seq<SpaceEntry>, m: int, id: Seq<char>)
    requires
        0 <= m <= entries.len(),
        position_of(entries.take(m), id) is Some,
    ensures
        position_of(entries, id) == position_of(entries.take(m), id),
    decreases entries.len(),
{
    if m < entries.len() {
        assert(entries.drop_last().take(m) == entries.take(m));
        lemma_position_prefix(entries.drop_last(), m, id);
    } else {
        assert(entries.take(m) == entries);
    }
}

proof fn lemma_position_bounds(entries: Seq<SpaceEntry>, id: Seq<char>)
    ensures
        position_of(entries, id) matches Some(k) ==> 0 <= k < entries.len() && entries[k].id@ == id,
    decreases entries.len(),
{
    if entries.len() > 0 {
        lemma_position_bounds(entries.drop_last(), id);
    }
}

/// Adding a space that is not yet configured and then removing it by its id
/// gives back the spaces that were there before.
pub proof fn add_then_remove_restores(entries: Seq<SpaceEntry>, entry: SpaceEntry)
    requires
        position_of(entries, entry.id@) is None,
    ensures
        added(entries, entry) matches Some(after) && removed(after, entry.id@) == entries,
{
    let after = entries.push(entry);
    assert(after.drop_last() == entries);
    assert(position_of(after, entry.id@) == Some(entries.len() as int));
    assert(after.remove(entries.len() as int) == entries);
}

/// After a removal no space with that id remains ahead of where the removed
/// one stood, and one fewer space is configured.
pub proof fn remove_shrinks_by_one(entries: Seq<SpaceEntry>, id: Seq<char>)
    requires
        position_of(entries, id) is Some,
    ensures
        removed(entries, id).len() == entries.len() - 1,
{
    lemma_position_bounds(entries, id);
}

/// The `owner/name` path of a GitHub remote URL, before any clean-up.
pub open spec fn remote_path(url: Seq<char>) -> Option<Seq<char>> {
    let https = "https://github.com/"@;
    let scp = "git@github.com:"@;
    let ssh = "ssh://git@github.com/"@;
    if url.len() >= https.len() && url.take(https.len() as int) == https {
        Some(url.skip(https.len() as int))
    } else if url.len() >= scp.len() && url.take(scp.len() as int) == scp {
        Some(url.skip(scp.len() as int))
    } else if url.len() >= ssh.len() && url.take(ssh.len() as int) == ssh {
        Some(url.skip(ssh.len() as int))
    } else {
        None
    }
}

/// `s` without one `.git` suffix.
pub open spec fn without_git(s: Seq<char>) -> Seq<char> {
    if s.len() >= 4 && s.skip(s.len() - 4) == ".git"@ {
        s.take(s.len() - 4)
    } else {
        s
    }
}

/// The repository that a remote URL names: an https, scp-style or ssh
/// GitHub URL whose path, after trailing slashes and one `.git` suffix are
/// removed, is exactly two non-empty segments.
pub open spec fn remote_repo(url: Seq<char>) -> Option<(Seq<char>, Seq<char>)> {
    match remote_path(url) {
        None => None,
        Some(path) => {
            let parts = split_on(without_git(trim_suffixes(path, "/"@)), '/');
            if parts.len() == 2 && parts[0].len() > 0 && parts[1].len() > 0 {
                Some((parts[0], parts[1]))
            } else {
                None
            }
        },
    }
}

fn strip_prefix_chars(cs: &Vec<char>, p: &str) -> (r: Option<usize>)
    ensures
        r matches Some(k) ==> k == p@.len() && cs@.len() >= p@.len() && cs@.take(k as int) == p@,
        r is None ==> !(cs@.len() >= p@.len() && cs@.take(p@.len() as int) == p@),
{
    let pc = chars_of(p);
    if cs.len() < pc.len() {
        return None;
    }
    let mut i: usize = 0;
    while i < pc.len()
        invariant
            pc@ == p@,
            cs@.len() >= pc@.len(),
            i <= pc@.len(),
            forall|k: int| 0 <= k < i ==> cs@[k] == pc@[k],
        decreases pc@.len() - i,
    {
        if cs[i] != pc[i] {
            assert(cs@.take(pc@.len() as int)[i as int] == cs@[i as int]);
            return None;
        }
        i = i + 1;
    }
    assert(cs@.take(pc@.len() as int) == pc@);
    Some(pc.len())
}

/// Where the path of a GitHub remote URL starts.
fn remote_start(cs: &Vec<char>) -> (r: Option<usize>)
    ensures
        match remote_path(cs@) {
            Some(p) => r matches Some(k) && k <= cs@.len() && cs@.skip(k as int) == p,
            None => r is None,
        },
{
    match strip_prefix_chars(cs, "https://github.com/") {
        Some(k) => Some(k),
        None => match strip_prefix_chars(cs, "git@github.com:") {
            Some(k) => Some(k),
            None => match strip_prefix_chars(cs, "ssh://git@github.com/") {
                Some(k) => Some(k),
                None => None,
            },
        },
    }
}

/// A remote path without trailing slashes and one `.git` suffix.
fn clean_remote_path(path: &Vec<char>) -> (r: Vec<char>)
    ensures
        r@ == without_git(trim_suffixes(path@, "/"@)),
{
    let slash = ['/'];
    let git = ['.', 'g', 'i', 't'];
    assert(slash@ == "/"@) by {
        reveal_strlit("/");
    }
    assert(git@ == ".git"@) by {
        reveal_strlit(".git");
    }
    let e = trim_suffixes_end(path.as_slice(), path.len(), slash.as_slice());
    assert(path@.take(path@.len() as int) == path@);
    let e2 = if ends_with_at(path.as_slice(), e, git.as_slice()) {
        e - 4
    } else {
        e
    };
    assert(path@.take(e as int).take(e2 as int) == path@.take(e2 as int));
    slice_range(path.as_slice(), 0, e2)
}

/// The repository of a GitHub remote URL (https, `git@github.com:` or
/// `ssh://git@github.com/`), or `None` for any other remote.
pub fn parse_remote(url: &str) -> (r: Option<RepoRef>)
    ensures
        match remote_repo(url@) {
            Some(p) => r matches Some(repo) && repo.owner@ == p.0 && repo.name@ == p.1,
            None => r is None,
        },
{
    let cs = chars_of(url);
    let start = match remote_start(&cs) {
        Some(k) => k,
        None => {
            return None;
        },
    };
    let path = slice_range(cs.as_slice(), start, cs.len());
    assert(path@ == cs@.skip(start as int));
    let trimmed = clean_remote_path(&path);
    match split_two(trimmed.as_slice(), '/') {
        Some((owner, name)) => {
            if owner.len() == 0 || name.len() == 0 {
                None
            } else {
                Some(RepoRef { owner: string_of(owner.as_slice()), name: string_of(name.as_slice()) })
            }
        },
        None => None,
    }
}

/// What running `git -C <path> remote get-url origin` gave: whether it
/// succeeded, and its output streams as text.
#[derive(Debug, Clone, PartialEq, Eq)]
pub struct GitOutput {
    pub success: bool,
    pub stdout: String,
    pub stderr: String,
}

pub open spec fn not_a_repo() -> Seq<char> {
    "not a git repo"@
}

pub open spec fn not_github() -> Seq<char> {
    "origin is not a GitHub remote"@
}

/// The repository of a checkout: `is_dir` says whether the path is a
/// directory, `output` what git reported (`None` when git could not run).
/// A path that is not a directory, a git that could not run or that names
/// no repository is not a git repo; any other failure, or an origin that is
/// not on GitHub, is not a GitHub remote.
pub fn repo_from_git(is_dir: bool, output: Option<GitOutput>) -> (r: Result<RepoRef, String>)
    ensures
        !is_dir ==> (r matches Err(m) && m@ == not_a_repo()),
        is_dir ==> match output {
            None => r matches Err(m) && m@ == not_a_repo(),
            Some(o) => if !o.success {
                if crate::text::contains_text(o.stderr@, "not a git repository"@) {
                    r matches Err(m) && m@ == not_a_repo()
                } else {
                    r matches Err(m) && m@ == not_github()
                }
            } else {
                match remote_repo(crate::text::trim(o.stdout@)) {
                    Some(p) => r matches Ok(repo) && repo.owner@ == p.0 && repo.name@ == p.1,
                    None => r matches Err(m) && m@ == not_github(),
                }
            },
        },
{
    if !is_dir {
        return Err("not a git repo".to_owned());
    }
    let o = match output {
        Some(o) => o,
        None => {
            return Err("not a git repo".to_owned());
        },
    };
    if !o.success {
        if crate::text::str_contains(o.stderr.as_str(), "not a git repository") {
            return Err("not a git repo".to_owned());
        }
        return Err("origin is not a GitHub remote".to_owned());
    }
    let url = crate::text::trim_str(o.stdout.as_str());
    match parse_remote(url.as_str()) {
        Some(repo) => Ok(repo),
        None => Err("origin is not a GitHub remote".to_owned()),
    }
}

} // verus!
