//! Normalization of every desktop navigation target: local paths,
//! `owner/repo` slugs, GitHub repository and issue URLs, and
//! `stellr://space` links.

use vstd::prelude::*;

use crate::provider::RepoRef;
use crate::spaces::{space_id_of, SpaceEntry};
use crate::text::{
    chars_of, concat, find_char, parse_u64, push_str, slice_range, split_on, split_two,
    starts_with, str_eq, string_of, trim, trim_str, trim_suffixes, trim_suffixes_end, u64_text,
};
use crate::urls::{adjoined, ends_with, parse_url, path_is_absolute, path_join, surely_relative, url_parse, verbatim};

verus! {

/// A normalized navigation target.
#[derive(Debug, Clone, PartialEq, Eq)]
pub struct RouteTarget {
    pub space_id: String,
    pub repo: String,
    pub path: Option<String>,
    pub issue: Option<u64>,
}

/// Why a target was rejected.
#[derive(Debug, Clone, PartialEq, Eq)]
pub enum TargetError {
    Empty,
    Unsupported(String),
    Path { path: String, message: String },
    Issue(String),
}

impl TargetError {
    pub open spec fn message_view(&self) -> Seq<char> {
        match self {
            TargetError::Empty => "target is empty"@,
            TargetError::Unsupported(t) => "unsupported target `"@ + t@ + "`"@,
            TargetError::Path { path, message } => "invalid repository path `"@ + path@ + "`: "@ + message@,
            TargetError::Issue(t) => "invalid issue number `"@ + t@ + "`"@,
        }
    }

    /// The text the error displays.
    pub fn message(&self) -> (r: String)
        ensures
            r@ == self.message_view(),
    {
        match self {
            TargetError::Empty => "target is empty".to_owned(),
            TargetError::Unsupported(t) => {
                let mut r = concat("unsupported target `", t.as_str());
                push_str(&mut r, "`");
                r
            },
            TargetError::Path { path, message } => {
                let mut r = concat("invalid repository path `", path.as_str());
                push_str(&mut r, "`: ");
                push_str(&mut r, message.as_str());
                r
            },
            TargetError::Issue(t) => {
                let mut r = concat("invalid issue number `", t.as_str());
                push_str(&mut r, "`");
                r
            },
        }
    }
}

pub open spec fn is_slug_char(c: char) -> bool {
    ('a' <= c && c <= 'z') || ('A' <= c && c <= 'Z') || ('0' <= c && c <= '9') || c == '-' || c == '_'
        || c == '.'
}

/// A non-empty run of ASCII letters, digits, `-`, `_` and `.`.
pub open spec fn valid_slug_part(s: Seq<char>) -> bool {
    s.len() > 0 && forall|i: int| 0 <= i < s.len() ==> is_slug_char(#[trigger] s[i])
}

/// The owner and name of an `owner/name` slug; trailing `.git` suffixes are
/// dropped from the name.
pub open spec fn slug_parts(raw: Seq<char>) -> Option<(Seq<char>, Seq<char>)> {
    let parts = split_on(raw, '/');
    if parts.len() == 2 && valid_slug_part(parts[0]) && valid_slug_part(trim_suffixes(parts[1], ".git"@)) {
        Some((parts[0], trim_suffixes(parts[1], ".git"@)))
    } else {
        None
    }
}

/// A positive issue number, as `NonZeroU64::from_str` reads it.
pub open spec fn issue_text(raw: Seq<char>) -> Option<u64> {
    match u64_text(raw) {
        Some(n) => if n != 0 {
            Some(n)
        } else {
            None
        },
        None => None,
    }
}

/// `t` is the route to repository `owner/name` with `path` and `issue`.
pub open spec fn routes_to(t: RouteTarget, owner: Seq<char>, name: Seq<char>, issue: Option<u64>) -> bool {
    &&& t.space_id@ == owner + "-"@ + name
    &&& t.repo@ == owner + "/"@ + name
    &&& t.issue == issue
}

impl RouteTarget {
    /// The space this target opens: the repository split at its first `/`.
    pub fn entry(&self) -> (r: SpaceEntry)
        requires
            split_on(self.repo@, '/').len() >= 2,
        ensures
            r.repo.owner@ == split_on(self.repo@, '/')[0],
            r.repo.name@ == self.repo@.skip(split_on(self.repo@, '/')[0].len() as int + 1),
            r.id@ == space_id_of(r.repo),
            r.path == self.path,
    {
        let cs = chars_of(self.repo.as_str());
        let i = find_char(cs.as_slice(), 0, '/');
        assert(cs@.skip(0) == cs@);
        if i == cs.len() {
            assert(split_on(cs@, '/') == seq![cs@]);
        }
        assert(split_on(cs@, '/') == seq![cs@.take(i as int)] + split_on(cs@.skip(i + 1), '/'));
        let owner = string_of(slice_range(cs.as_slice(), 0, i).as_slice());
        let name = string_of(slice_range(cs.as_slice(), i + 1, cs.len()).as_slice());
        assert(cs@.subrange(i + 1, cs@.len() as int) == cs@.skip(i + 1));
        let path = crate::text::copy_opt_string(&self.path);
        SpaceEntry::new(RepoRef { owner, name }, path)
    }
}

/// The route to `repo` with `path` and `issue`.
pub fn route(repo: RepoRef, path: Option<String>, issue: Option<u64>) -> (r: RouteTarget)
    ensures
        routes_to(r, repo.owner@, repo.name@, issue),
        r.path == path,
{
    let mut space_id = concat(repo.owner.as_str(), "-");
    push_str(&mut space_id, repo.name.as_str());
    RouteTarget { space_id, repo: repo.slug(), path, issue }
}

/// Whether every character is allowed in a slug part, and there is one.
pub fn valid_slug_part_chars(cs: &[char]) -> (r: bool)
    ensures
        r == valid_slug_part(cs@),
{
    if cs.len() == 0 {
        return false;
    }
    let mut i: usize = 0;
    while i < cs.len()
        invariant
            i <= cs@.len(),
            forall|k: int| 0 <= k < i ==> is_slug_char(#[trigger] cs@[k]),
        decreases cs@.len() - i,
    {
        let c = cs[i];
        if !(('a' <= c && c <= 'z') || ('A' <= c && c <= 'Z') || ('0' <= c && c <= '9') || c == '-'
            || c == '_' || c == '.') {
            assert(!is_slug_char(cs@[i as int]));
            return false;
        }
        i = i + 1;
    }
    true
}

/// The repository an `owner/name` slug names.
pub fn parse_slug(raw: &str) -> (r: Option<RepoRef>)
    ensures
        match slug_parts(raw@) {
            Some(p) => r matches Some(repo) && repo.owner@ == p.0 && repo.name@ == p.1,
            None => r is None,
        },
{
    let cs = chars_of(raw);
    let parts = split_two(cs.as_slice(), '/');
    proof {
        crate::text::lemma_split_on_nonempty(cs@, '/');
    }
    match parts {
        None => None,
        Some((owner, name)) => {
            let git = ['.', 'g', 'i', 't'];
            assert(git@ == ".git"@) by {
                reveal_strlit(".git");
            }
            let e = trim_suffixes_end(name.as_slice(), name.len(), git.as_slice());
            assert(name@.take(name@.len() as int) == name@);
            let name = slice_range(name.as_slice(), 0, e);
            if !valid_slug_part_chars(owner.as_slice()) || !valid_slug_part_chars(name.as_slice()) {
                return None;
            }
            Some(RepoRef { owner: string_of(owner.as_slice()), name: string_of(name.as_slice()) })
        },
    }
}

/// A positive issue number, or the error that names the rejected text.
pub fn parse_issue(raw: &str) -> (r: Result<u64, TargetError>)
    ensures
        match issue_text(raw@) {
            Some(n) => r == Ok::<u64, TargetError>(n),
            None => r matches Err(TargetError::Issue(t)) && t@ == raw@,
        },
{
    let cs = chars_of(raw);
    match parse_u64(cs.as_slice()) {
        Some(n) => if n != 0 {
            Ok(n)
        } else {
            Err(TargetError::Issue(raw.to_owned()))
        },
        None => Err(TargetError::Issue(raw.to_owned())),
    }
}

pub open spec fn views(v: Seq<String>) -> Seq<Seq<char>> {
    v.map_values(|s: String| s@)
}

/// The non-empty members of `segments`, in order.
pub open spec fn nonempty_segments(segments: Seq<Seq<char>>) -> Seq<Seq<char>>
    decreases segments.len(),
{
    if segments.len() == 0 {
        seq![]
    } else if segments.last().len() > 0 {
        nonempty_segments(segments.drop_last()).push(segments.last())
    } else {
        nonempty_segments(segments.drop_last())
    }
}

/// The repository and issue a GitHub URL names: `https://github.com/o/r`
/// (trailing `.git` dropped) or `https://github.com/o/r/issues/<n>`.
/// `Err(None)` stands for an unsupported URL, `Err(Some(t))` for an invalid
/// issue number `t`.
pub open spec fn github_target(raw: Seq<char>) -> Result<(Seq<char>, Seq<char>, Option<u64>), Option<Seq<char>>> {
    match url_parse(raw) {
        None => Err(None),
        Some(u) => if u.scheme@ != "https"@ || !(u.host matches Some(h) && h@ == "github.com"@) {
            Err(None)
        } else {
            let segs = match u.path_segments {
                Some(v) => nonempty_segments(views(v@)),
                None => seq![],
            };
            let picked: Result<(Seq<char>, Seq<char>, Option<u64>), Option<Seq<char>>> = if segs.len() == 2 {
                Ok((segs[0], trim_suffixes(segs[1], ".git"@), None))
            } else if segs.len() == 4 && segs[2] == "issues"@ {
                match issue_text(segs[3]) {
                    Some(n) => Ok((segs[0], segs[1], Some(n))),
                    None => Err(Some(segs[3])),
                }
            } else {
                Err(None)
            };
            match picked {
                Err(e) => Err(e),
                Ok(p) => match slug_parts(p.0 + "/"@ + p.1) {
                    Some(s) => Ok((s.0, s.1, p.2)),
                    None => Err(None),
                },
            }
        },
    }
}

/// The fields of a `stellr://space` query after its first `i` pairs:
/// repository, path and issue, each given at most once. `Err(None)` stands
/// for an unsupported pair, `Err(Some(t))` for an invalid issue number `t`.
pub open spec fn link_fields(pairs: Seq<(Seq<char>, Seq<char>)>, i: int) -> Result<
    (Option<Seq<char>>, Option<Seq<char>>, Option<u64>),
    Option<Seq<char>>,
>
    decreases i,
{
    if i <= 0 {
        Ok((None, None, None))
    } else {
        match link_fields(pairs, i - 1) {
            Err(e) => Err(e),
            Ok(f) => {
                let name = pairs[i - 1].0;
                let value = pairs[i - 1].1;
                if name == "repo"@ && f.0 is None {
                    Ok((Some(value), f.1, f.2))
                } else if name == "path"@ && f.1 is None {
                    Ok((f.0, Some(value), f.2))
                } else if name == "issue"@ && f.2 is None {
                    match issue_text(value) {
                        Some(n) => Ok((f.0, f.1, Some(n))),
                        None => Err(Some(value)),
                    }
                } else {
                    Err(None)
                }
            },
        }
    }
}

pub open spec fn pair_views(pairs: Seq<(String, String)>) -> Seq<(Seq<char>, Seq<char>)> {
    pairs.map_values(|p: (String, String)| (p.0@, p.1@))
}

/// What resolution does next.
#[derive(Debug, PartialEq, Eq)]
pub enum TargetStep {
    /// Resolution is over.
    Done(Result<RouteTarget, TargetError>),
    /// The repository behind the local checkout at `path` must be detected
    /// before the route to it, with `issue`, can be made.
    Detect { path: String, issue: Option<u64> },
}

/// Turns raw navigation targets into routes, relative to a working directory.
pub struct TargetResolver {
    cwd: String,
}

impl TargetResolver {
    pub closed spec fn cwd_view(&self) -> Seq<char> {
        self.cwd@
    }

    pub fn new(cwd: String) -> (r: Self)
        ensures
            r.cwd_view() == cwd@,
    {
        TargetResolver { cwd }
    }

    /// The local path that `raw` could name: the trimmed text, joined to the
    /// working directory unless it is absolute. `None` when `raw` is blank.
    pub fn candidate(&self, raw: &str) -> (r: Option<String>)
        ensures
            match r {
                None => trim(raw@).len() == 0,
                Some(c) => trim(raw@).len() > 0 && local_path_of(self.cwd_view(), trim(raw@), c@),
            },
    {
        let raw = trim_str(raw);
        if raw.as_str().is_empty() {
            return None;
        }
        Some(self.local_path(raw.as_str()))
    }

    /// `path` itself when the platform reads it as absolute, else `path`
    /// joined onto the working directory.
    fn local_path(&self, path: &str) -> (r: String)
        ensures
            local_path_of(self.cwd_view(), path@, r@),
    {
        if path_is_absolute(path) {
            assert(path@.skip(0) =~= path@);
            path.to_owned()
        } else {
            path_join(self.cwd.as_str(), path)
        }
    }

    /// Resolves `raw`, given the local path `candidate` that it could name
    /// (see [`TargetResolver::candidate`]) and whether that path exists.
    ///
    /// A blank target is empty. An existing path is detected as a checkout.
    /// Otherwise a `stellr:` link, an `http:`/`https:` GitHub URL, or an
    /// `owner/name` slug is routed; text that looks like a path (starting
    /// with `.` or holding `\`) is reported as a missing path, and anything
    /// else is unsupported.
    pub fn plan(&self, raw: &str, candidate: String, candidate_exists: bool) -> (r: TargetStep)
        ensures
            planned(self.cwd_view(), raw@, candidate@, candidate_exists, r),
    {
        let raw = trim_str(raw);
        if raw.as_str().is_empty() {
            return TargetStep::Done(Err(TargetError::Empty));
        }
        if candidate_exists {
            return TargetStep::Detect { path: candidate, issue: None };
        }
        if starts_with(raw.as_str(), "stellr:") {
            proof { reveal_strlit("stellr:"); }
            return self.resolve_stellr_link(raw.as_str());
        }
        proof {
            reveal_strlit("stellr:");
            reveal_strlit("http:");
            reveal_strlit("https:");
        }
        if starts_with(raw.as_str(), "http:") || starts_with(raw.as_str(), "https:") {
            return TargetStep::Done(resolve_github_url(raw.as_str()));
        }
        if let Some(repo) = parse_slug(raw.as_str()) {
            return TargetStep::Done(Ok(route(repo, None, None)));
        }
        let cs = chars_of(raw.as_str());
        let backslash = find_char(cs.as_slice(), 0, '\\');
        assert(cs@.skip(0) == cs@);
        if path_is_absolute(raw.as_str()) || cs[0] == '.' || backslash < cs.len() {
            return TargetStep::Done(Err(TargetError::Path { path: candidate, message: "path does not exist".to_owned() }));
        }
        assert(!cs@.contains('\\'));
        TargetStep::Done(Err(TargetError::Unsupported(raw)))
    }

    /// Resolves `raw` against the working directory, asking `path_exists` whether
    /// the local path it could name exists and `detect` for the GitHub
    /// repository of a local checkout.
    pub fn resolve<E, D>(&self, raw: &str, path_exists: E, detect: D) -> (r: Result<RouteTarget, TargetError>) where
        E: Fn(&str) -> bool,
        D: Fn(&str) -> Result<RepoRef, String>,

        requires
            forall|p: &str| call_requires(path_exists, (p,)),
            forall|p: &str| call_requires(detect, (p,)),
        ensures
            resolution(self.cwd_view(), raw@, path_exists, detect, r),
    {
        let candidate = match self.candidate(raw) {
            Some(c) => c,
            None => {
                return Err(TargetError::Empty);
            },
        };
        let found = path_exists(candidate.as_str());
        let step = self.plan(raw, candidate, found);
        match step {
            TargetStep::Done(done) => done,
            TargetStep::Detect { path, issue } => {
                let d = detect(path.as_str());
                let r = Self::finish(path, issue, d);
                r
            },
        }
    }

    /// Resolves a `stellr://space` link.
    fn resolve_stellr_link(&self, raw: &str) -> (r: TargetStep)
        ensures
            link_step(r, self.cwd_view(), raw@),
    {
        let parsed = match parse_url(raw) {
            Some(p) => p,
            None => {
                return TargetStep::Done(Err(TargetError::Unsupported(raw.to_owned())));
            },
        };
        if !str_eq(parsed.scheme.as_str(), "stellr") || !host_is(&parsed.host, "space") {
            return TargetStep::Done(Err(TargetError::Unsupported(raw.to_owned())));
        }
        let pairs = &parsed.query_pairs;
        let ghost pv = pair_views(pairs@);
        let mut repo: Option<String> = None;
        let mut path: Option<String> = None;
        let mut issue: Option<u64> = None;
        let mut i: usize = 0;
        while i < pairs.len()
            invariant
                i <= pairs@.len(),
                pv == pair_views(pairs@),
                url_parse(raw@) == Some(parsed),
                pairs@ == parsed.query_pairs@,
                parsed.scheme@ == "stellr"@,
                parsed.host matches Some(h) && h@ == "space"@,
                link_fields(pv, i as int) == Ok::<_, Option<Seq<char>>>((opt_view(repo), opt_view(path), issue)),
            decreases pairs@.len() - i,
        {
            let name = pairs[i].0.as_str();
            let value = pairs[i].1.as_str();
            assert(pv[i as int] == (pairs@[i as int].0@, pairs@[i as int].1@));
            if str_eq(name, "repo") && repo.is_none() {
                repo = Some(value.to_owned());
            } else if str_eq(name, "path") && path.is_none() {
                path = Some(value.to_owned());
            } else if str_eq(name, "issue") && issue.is_none() {
                match parse_issue(value) {
                    Ok(n) => {
                        issue = Some(n);
                    },
                    Err(e) => {
                        proof {
                            assert(link_fields(pv, i as int + 1) == Err::<(Option<Seq<char>>, Option<Seq<char>>, Option<u64>), Option<Seq<char>>>(Some(value@)));
                            lemma_link_error_sticks(pv, i as int + 1);
                        }
                        return TargetStep::Done(Err(e));
                    },
                }
            } else {
                proof {
                    assert(link_fields(pv, i as int + 1) == Err::<(Option<Seq<char>>, Option<Seq<char>>, Option<u64>), Option<Seq<char>>>(None));
                    lemma_link_error_sticks(pv, i as int + 1);
                }
                return TargetStep::Done(Err(TargetError::Unsupported(raw.to_owned())));
            }
            i = i + 1;
        }
        match (repo, path) {
            (Some(repo), None) => match parse_slug(repo.as_str()) {
                Some(r) => TargetStep::Done(Ok(route(r, None, issue))),
                None => TargetStep::Done(Err(TargetError::Unsupported(raw.to_owned()))),
            },
            (None, Some(path)) => TargetStep::Detect { path: self.local_path(path.as_str()), issue },
            _ => TargetStep::Done(Err(TargetError::Unsupported(raw.to_owned()))),
        }
    }

    /// The route to the checkout at `path`, once its repository is known, or
    /// the path error that detection reported.
    pub fn finish(path: String, issue: Option<u64>, detected: Result<RepoRef, String>) -> (r: Result<RouteTarget, TargetError>)
        ensures
            match detected {
                Ok(repo) => r matches Ok(t) && routes_to(t, repo.owner@, repo.name@, issue) && t.path == Some(path),
                Err(m) => r == Err::<RouteTarget, TargetError>(TargetError::Path { path, message: m }),
            },
    {
        match detected {
            Ok(repo) => Ok(route(repo, Some(path), issue)),
            Err(message) => Err(TargetError::Path { path, message }),
        }
    }
}

pub open spec fn opt_view(o: Option<String>) -> Option<Seq<char>> {
    match o {
        Some(s) => Some(s@),
        None => None,
    }
}

/// `r` reports that the local path `candidate` does not exist.
pub open spec fn missing_path(r: TargetStep, candidate: Seq<char>) -> bool {
    r matches TargetStep::Done(Err(TargetError::Path { path, message })) && path@ == candidate
        && message@ == "path does not exist"@
}

/// `r` is what `local_path` makes of `path` in the working directory `cwd`:
/// unless `cwd` is a Windows verbatim path, a path that ends with `path`
/// (`path` itself when absolute, else joined onto `cwd`); and, for a path
/// that no platform reads as absolute or rooted, `cwd`, at most one
/// separator, then `path`.
pub open spec fn local_path_of(cwd: Seq<char>, path: Seq<char>, r: Seq<char>) -> bool {
    &&& !verbatim(cwd) ==> ends_with(r, path)
    &&& surely_relative(path) && !verbatim(cwd) ==> adjoined(cwd, path, r)
}

/// `r` is the next step for `raw` once it is known whether `candidate`, the
/// local path it could name, exists.
pub open spec fn planned(cwd: Seq<char>, raw: Seq<char>, candidate: Seq<char>, candidate_exists: bool, r: TargetStep) -> bool {
    let t = trim(raw);
    &&& t.len() == 0 ==> r == TargetStep::Done(Err(TargetError::Empty))
    &&& t.len() > 0 && candidate_exists ==> (r matches TargetStep::Detect { path, issue: None } && path@ == candidate)
    &&& t.len() > 0 && !candidate_exists && t.len() >= 7 && t.take(7) == "stellr:"@ ==> link_step(r, cwd, t)
    &&& t.len() > 0 && !candidate_exists && !(t.len() >= 7 && t.take(7) == "stellr:"@)
        && ((t.len() >= 5 && t.take(5) == "http:"@) || (t.len() >= 6 && t.take(6) == "https:"@))
        ==> github_step(r, t)
    &&& t.len() > 0 && !candidate_exists && !(t.len() >= 7 && t.take(7) == "stellr:"@)
        && !((t.len() >= 5 && t.take(5) == "http:"@) || (t.len() >= 6 && t.take(6) == "https:"@))
        ==> match slug_parts(t) {
            Some(p) => (r matches TargetStep::Done(Ok(target)) && routes_to(target, p.0, p.1, None) && target.path is None),
            None => if t[0] == '.' || t.contains('\\') {
                missing_path(r, candidate)
            } else if surely_relative(t) {
                r matches TargetStep::Done(Err(TargetError::Unsupported(u))) && u@ == t
            } else {
                missing_path(r, candidate) || (r matches TargetStep::Done(Err(TargetError::Unsupported(u))) && u@ == t)
            },
        }
}

/// `r` is the route to the checkout at `path` that detection answered `d` for.
pub open spec fn finished(path: String, issue: Option<u64>, d: Result<RepoRef, String>, r: Result<RouteTarget, TargetError>) -> bool {
    match d {
        Ok(repo) => r matches Ok(t) && routes_to(t, repo.owner@, repo.name@, issue) && t.path == Some(path),
        Err(m) => r == Err::<RouteTarget, TargetError>(TargetError::Path { path, message: m }),
    }
}

/// `r` is how `raw` resolves in `cwd` when `path_exists` answers whether a local
/// path exists and `detect` names the GitHub repository of a checkout.
pub open spec fn resolution<E, D>(cwd: Seq<char>, raw: Seq<char>, path_exists: E, detect: D, r: Result<RouteTarget, TargetError>) -> bool where
    E: Fn(&str) -> bool,
    D: Fn(&str) -> Result<RepoRef, String>,
 {
    if trim(raw).len() == 0 {
        r == Err::<RouteTarget, TargetError>(TargetError::Empty)
    } else {
        exists|c: &str, found: bool, step: TargetStep|
            #![trigger call_ensures(path_exists, (c,), found), planned(cwd, raw, c@, found, step)]
            local_path_of(cwd, trim(raw), c@) && call_ensures(path_exists, (c,), found)
                && planned(cwd, raw, c@, found, step) && match step {
                TargetStep::Done(done) => r == done,
                TargetStep::Detect { path, issue } => exists|p: &str, d: Result<RepoRef, String>|
                    #![trigger call_ensures(detect, (p,), d)]
                    p@ == path@ && call_ensures(detect, (p,), d) && finished(path, issue, d, r),
            }
    }
}

/// `r` is what the `stellr://space` link `raw` resolves to: links of another
/// scheme or host, repeated or unknown query names, and links that give both
/// or neither of a repository and a path are unsupported; a repository must
/// be a valid slug; a path leads to checkout detection.
pub open spec fn link_step(r: TargetStep, cwd: Seq<char>, raw: Seq<char>) -> bool {
    match url_parse(raw) {
        None => r matches TargetStep::Done(Err(TargetError::Unsupported(u))) && u@ == raw,
        Some(p) => if p.scheme@ != "stellr"@ || !(p.host matches Some(h) && h@ == "space"@) {
            r matches TargetStep::Done(Err(TargetError::Unsupported(u))) && u@ == raw
        } else {
            let pv = pair_views(p.query_pairs@);
            match link_fields(pv, pv.len() as int) {
                Err(None) => r matches TargetStep::Done(Err(TargetError::Unsupported(u))) && u@ == raw,
                Err(Some(t)) => r matches TargetStep::Done(Err(TargetError::Issue(u))) && u@ == t,
                Ok(f) => match (f.0, f.1) {
                    (Some(repo), None) => match slug_parts(repo) {
                        Some(s) => r matches TargetStep::Done(Ok(target)) && routes_to(target, s.0, s.1, f.2) && target.path is None,
                        None => r matches TargetStep::Done(Err(TargetError::Unsupported(u))) && u@ == raw,
                    },
                    (None, Some(lp)) => r matches TargetStep::Detect { path, issue } && issue == f.2
                        && local_path_of(cwd, lp, path@),
                    _ => r matches TargetStep::Done(Err(TargetError::Unsupported(u))) && u@ == raw,
                },
            }
        },
    }
}

/// `r` is what the GitHub URL `raw` resolves to.
pub open spec fn github_step(r: TargetStep, raw: Seq<char>) -> bool {
    match github_target(raw) {
        Ok(p) => r matches TargetStep::Done(Ok(target)) && routes_to(target, p.0, p.1, p.2) && target.path is None,
        Err(None) => r matches TargetStep::Done(Err(TargetError::Unsupported(u))) && u@ == raw,
        Err(Some(t)) => r matches TargetStep::Done(Err(TargetError::Issue(u))) && u@ == t,
    }
}

proof fn lemma_link_error_sticks(pairs: Seq<(Seq<char>, Seq<char>)>, i: int)
    requires
        0 <= i <= pairs.len(),
        link_fields(pairs, i) is Err,
    ensures
        link_fields(pairs, pairs.len() as int) == link_fields(pairs, i),
    decreases pairs.len() - i,
{
    if i < pairs.len() {
        lemma_link_error_sticks(pairs, i + 1);
    }
}

/// Whether the host is `expected`.
fn host_is(host: &Option<String>, expected: &str) -> (r: bool)
    ensures
        r == (host matches Some(h) && h@ == expected@),
{
    match host {
        Some(h) => str_eq(h.as_str(), expected),
        None => false,
    }
}

/// The non-empty segments, as strings.
fn nonempty_segment_list(segments: &Option<Vec<String>>) -> (r: Vec<String>)
    ensures
        views(r@) == match segments {
            Some(v) => nonempty_segments(views(v@)),
            None => seq![],
        },
{
    let mut r: Vec<String> = Vec::new();
    match segments {
        None => {
            assert(views(r@) =~= seq![]);
            r
        },
        Some(v) => {
            let mut i: usize = 0;
            while i < v.len()
                invariant
                    i <= v@.len(),
                    views(r@) == nonempty_segments(views(v@.take(i as int))),
                decreases v@.len() - i,
            {
                let ghost before = r@;
                assert(views(v@.take(i + 1)).drop_last() == views(v@.take(i as int)));
                assert(views(v@.take(i + 1)).last() == v@[i as int]@);
                if !v[i].as_str().is_empty() {
                    r.push(v[i].clone());
                    assert(views(r@) =~= views(before).push(v@[i as int]@));
                }
                i = i + 1;
            }
            assert(v@.take(v@.len() as int) == v@);
            r
        },
    }
}

/// Resolves an `http:`/`https:` target, which must be a GitHub repository or
/// issue URL.
pub fn resolve_github_url(raw: &str) -> (r: Result<RouteTarget, TargetError>)
    ensures
        github_step(TargetStep::Done(r), raw@),
{
    let parsed = match parse_url(raw) {
        Some(p) => p,
        None => {
            return Err(TargetError::Unsupported(raw.to_owned()));
        },
    };
    if !str_eq(parsed.scheme.as_str(), "https") || !host_is(&parsed.host, "github.com") {
        return Err(TargetError::Unsupported(raw.to_owned()));
    }
    let segs = nonempty_segment_list(&parsed.path_segments);
    assert(views(segs@).len() == segs@.len());
    let (owner, name, issue) = if segs.len() == 2 {
        let cs = chars_of(segs[1].as_str());
        let git = ['.', 'g', 'i', 't'];
        assert(git@ == ".git"@) by {
            reveal_strlit(".git");
        }
        let e = trim_suffixes_end(cs.as_slice(), cs.len(), git.as_slice());
        assert(cs@.take(cs@.len() as int) == cs@);
        assert(views(segs@)[1] == segs@[1]@);
        assert(views(segs@)[0] == segs@[0]@);
        (segs[0].clone(), string_of(slice_range(cs.as_slice(), 0, e).as_slice()), None)
    } else if segs.len() == 4 && str_eq(segs[2].as_str(), "issues") {
        assert(views(segs@)[2] == segs@[2]@);
        assert(views(segs@)[3] == segs@[3]@);
        assert(views(segs@)[1] == segs@[1]@);
        assert(views(segs@)[0] == segs@[0]@);
        match parse_issue(segs[3].as_str()) {
            Ok(n) => (segs[0].clone(), segs[1].clone(), Some(n)),
            Err(e) => {
                return Err(e);
            },
        }
    } else {
        return Err(TargetError::Unsupported(raw.to_owned()));
    };
    let mut slug = concat(owner.as_str(), "/");
    push_str(&mut slug, name.as_str());
    match parse_slug(slug.as_str()) {
        Some(repo) => Ok(route(repo, None, issue)),
        None => Err(TargetError::Unsupported(raw.to_owned())),
    }
}

/// Every owner and name made of ASCII letters, digits, `-`, `_` and `.` is
/// accepted: `owner/name` is the slug of exactly that owner and name (a
/// name that does not end in `.git`).
pub proof fn every_plain_owner_and_name_is_a_slug(owner: Seq<char>, name: Seq<char>)
    requires
        owner.len() > 0,
        name.len() > 0,
        forall|i: int| 0 <= i < owner.len() ==> {
            let c = #[trigger] owner[i];
            ('a' <= c && c <= 'z') || ('A' <= c && c <= 'Z') || ('0' <= c && c <= '9') || c == '-' || c == '_' || c == '.'
        },
        forall|i: int| 0 <= i < name.len() ==> {
            let c = #[trigger] name[i];
            ('a' <= c && c <= 'z') || ('A' <= c && c <= 'Z') || ('0' <= c && c <= '9') || c == '-' || c == '_' || c == '.'
        },
        !(name.len() >= 4 && name.skip(name.len() - 4) == seq!['.', 'g', 'i', 't']),
    ensures
        slug_parts(owner + seq!['/'] + name) == Some((owner, name)),
{
    let raw = owner + seq!['/'] + name;
    assert forall|i: int| 0 <= i < owner.len() implies raw[i] != '/' by {
        assert(raw[i] == owner[i]);
    }
    assert(raw[owner.len() as int] == '/');
    crate::text::lemma_first_index_of(raw, '/', owner.len() as int);
    assert(raw.take(owner.len() as int) =~= owner);
    assert(raw.skip(owner.len() as int + 1) =~= name);
    assert forall|i: int| 0 <= i < name.len() implies name[i] != '/' by {
    }
    crate::text::lemma_first_index_of(name, '/', name.len() as int);
    assert(split_on(name, '/') == seq![name]);
    assert(split_on(raw, '/') =~= seq![owner, name]);
    assert(".git"@ == seq!['.', 'g', 'i', 't']) by {
        reveal_strlit(".git");
    }
    assert(trim_suffixes(name, ".git"@) == name);
    assert(valid_slug_part(owner));
    assert(valid_slug_part(name));
}

} // verus!
