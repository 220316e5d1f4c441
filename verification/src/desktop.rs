//! Decisions of the desktop shell: routing of forwarded launches, the tray
//! menu, the initial route and external links.

use vstd::prelude::*;
use std::collections::VecDeque;

use crate::device_flow::DeviceFlowStatus;
use crate::provider::RepoRef;
use crate::route_state::{valid_route, PersistedRoute};
use crate::runtime::{RuntimeOptions, SessionAuth};
use crate::spaces::{added, SpaceEntry, SpaceStore};
use crate::target::{resolution, RouteTarget, TargetError, TargetResolver};
use crate::text::{decimal, decimal_string, starts_with, str_eq};
use crate::urls::{encode_form_pairs, form_encoded, parse_url, set_url_fragment, url_parse, url_with_fragment};

verus! {

/// What the shell is told about a navigation request.
#[derive(Debug, Clone, PartialEq, Eq)]
pub enum NativeRouteEvent {
    Target { target: RouteTarget },
    Error { message: String },
}

/// Navigation requests waiting for the shell, oldest first.
pub struct RouteInbox {
    pending: VecDeque<NativeRouteEvent>,
}

impl RouteInbox {
    pub closed spec fn pending_view(&self) -> Seq<NativeRouteEvent> {
        self.pending@
    }

    /// An empty inbox.
    pub fn new() -> (r: Self)
        ensures
            r.pending_view() == Seq::<NativeRouteEvent>::empty(),
    {
        RouteInbox { pending: VecDeque::new() }
    }

    /// Queues `event` behind the ones already waiting.
    pub fn push(&mut self, event: NativeRouteEvent)
        ensures
            final(self).pending_view() == old(self).pending_view().push(event),
    {
        self.pending.push_back(event);
    }

    /// Takes the oldest waiting event.
    pub fn take(&mut self) -> (r: Option<NativeRouteEvent>)
        ensures
            old(self).pending_view().len() == 0 ==> r is None && final(self).pending_view() == old(self).pending_view(),
            old(self).pending_view().len() > 0 ==> r == Some(old(self).pending_view()[0])
                && final(self).pending_view() == old(self).pending_view().drop_first(),
    {
        self.pending.pop_front()
    }
}

/// Events come out of the inbox in the order they went in: pushing `a` and
/// then `b` onto an empty inbox and taking twice yields `a`, then `b`.
pub proof fn inbox_is_first_in_first_out(a: NativeRouteEvent, b: NativeRouteEvent)
    ensures
        seq![a].push(b)[0] == a,
        seq![a].push(b).drop_first() == seq![b],
{
    assert(seq![a].push(b).drop_first() =~= seq![b]);
}

/// The tray menu's actions.
#[derive(Debug, Clone, Copy, PartialEq, Eq, Structural)]
pub enum TrayAction {
    Open,
    Quit,
}

/// The action of a tray menu item: "open" and "quit" only.
pub fn tray_action(id: &str) -> (r: Option<TrayAction>)
    ensures
        id@ == "open"@ ==> r == Some(TrayAction::Open),
        id@ == "quit"@ ==> r == Some(TrayAction::Quit),
        id@ != "open"@ && id@ != "quit"@ ==> r is None,
{
    proof {
        reveal_strlit("open");
        reveal_strlit("quit");
        assert("open"@[0] != "quit"@[0]);
    }
    if str_eq(id, "open") {
        Some(TrayAction::Open)
    } else if str_eq(id, "quit") {
        Some(TrayAction::Quit)
    } else {
        None
    }
}

pub open spec fn usage_message() -> Seq<char> {
    "Use `stellr` or `stellr open <path|url>` to route the running app."@
}

/// The target that a second launch forwards, from its arguments after the
/// program name: nothing for a bare launch (`None`), the target of
/// `open <target>` or a lone `stellr:` link (`Some(Some(..))`), and a usage
/// error for anything else (`Some(None)`).
pub open spec fn forwarded_target(args: Seq<Seq<char>>) -> Option<Option<Seq<char>>> {
    let forwarded = if args.len() > 0 { args.drop_first() } else { args };
    if forwarded.len() == 0 {
        None
    } else if forwarded.len() == 2 && forwarded[0] == "open"@ {
        Some(Some(forwarded[1]))
    } else if forwarded.len() == 1 && forwarded[0].len() >= 7 && forwarded[0].take(7) == "stellr:"@ {
        Some(Some(forwarded[0]))
    } else {
        Some(None)
    }
}

/// The event that reports a resolution.
pub open spec fn event_for(r: Result<RouteTarget, TargetError>, event: NativeRouteEvent) -> bool {
    match r {
        Ok(t) => event == NativeRouteEvent::Target { target: t },
        Err(e) => event matches NativeRouteEvent::Error { message } && message@ == e.message_view(),
    }
}

pub open spec fn arg_views(args: Seq<String>) -> Seq<Seq<char>> {
    args.map_values(|s: String| s@)
}

/// The event for the arguments that a second launch forwards from `cwd`.
/// A bare launch only reveals the window; `open <target>` and a lone
/// `stellr:` link go through the same resolution as a first launch.
pub fn forwarded_route_event<E, D>(args: &[String], cwd: &str, path_exists: E, detect: D) -> (r: Option<NativeRouteEvent>) where
    E: Fn(&str) -> bool,
    D: Fn(&str) -> Result<RepoRef, String>,

    requires
        forall|p: &str| call_requires(path_exists, (p,)),
        forall|p: &str| call_requires(detect, (p,)),
    ensures
        match forwarded_target(arg_views(args@)) {
            None => r is None,
            Some(None) => r matches Some(NativeRouteEvent::Error { message }) && message@ == usage_message(),
            Some(Some(raw)) => r matches Some(event) && exists|res: Result<RouteTarget, TargetError>|
                resolution(cwd@, raw, path_exists, detect, res) && event_for(res, event),
        },
{
    let ghost views = arg_views(args@);
    proof {
        reveal_strlit("stellr:");
    }
    let n = args.len();
    let raw: &str = if n <= 1 {
        return None;
    } else if n == 3 && str_eq(args[1].as_str(), "open") {
        assert(views.drop_first()[0] == args@[1]@);
        assert(views.drop_first()[1] == args@[2]@);
        assert(forwarded_target(views) == Some(Some(args@[2]@)));
        args[2].as_str()
    } else if n == 2 && starts_with(args[1].as_str(), "stellr:") {
        assert(views.drop_first()[0] == args@[1]@);
        assert(forwarded_target(views) == Some(Some(args@[1]@)));
        args[1].as_str()
    } else {
        proof {
            if n == 3 {
                assert(views.drop_first()[0] == args@[1]@);
            }
            if n == 2 {
                assert(views.drop_first()[0] == args@[1]@);
            }
        }
        return Some(NativeRouteEvent::Error {
            message: "Use `stellr` or `stellr open <path|url>` to route the running app.".to_owned(),
        });
    };
    assert(views.len() == n);
    assert(forwarded_target(views) == Some(Some(raw@)));
    let resolver = TargetResolver::new(cwd.to_owned());
    let result = resolver.resolve(raw, path_exists, detect);
    let ghost resolved = result;
    let event = match result {
        Ok(target) => NativeRouteEvent::Target { target },
        Err(error) => NativeRouteEvent::Error { message: error.message() },
    };
    assert(resolution(cwd@, raw@, path_exists, detect, resolved) && event_for(resolved, event));
    Some(event)
}

/// `event` reports how `raw` resolves from `cwd`.
pub open spec fn reports<E, D>(cwd: Seq<char>, raw: Seq<char>, path_exists: E, detect: D, event: NativeRouteEvent) -> bool where
    E: Fn(&str) -> bool,
    D: Fn(&str) -> Result<RepoRef, String>,
 {
    exists|res: Result<RouteTarget, TargetError>| resolution(cwd, raw, path_exists, detect, res) && event_for(res, event)
}

/// Queues the route event of each deep link in `urls`, resolved from `cwd`
/// as a first launch resolves its target, and says whether the window is to
/// be revealed: when there was at least one link.
pub fn queue_deep_link_urls<E, D>(inbox: &mut RouteInbox, cwd: &str, urls: &[String], path_exists: E, detect: D) -> (reveal: bool) where
    E: Fn(&str) -> bool + Copy,
    D: Fn(&str) -> Result<RepoRef, String> + Copy,

    requires
        forall|p: &str| call_requires(path_exists, (p,)),
        forall|p: &str| call_requires(detect, (p,)),
    ensures
        reveal == (urls@.len() > 0),
        final(inbox).pending_view().len() == old(inbox).pending_view().len() + urls@.len(),
        final(inbox).pending_view().take(old(inbox).pending_view().len() as int) == old(inbox).pending_view(),
        forall|j: int| old(inbox).pending_view().len() <= j < final(inbox).pending_view().len()
            ==> reports(cwd@, urls@[j - old(inbox).pending_view().len()]@, path_exists, detect, #[trigger] final(inbox).pending_view()[j]),
{
    let ghost start = inbox.pending_view();
    let resolver = TargetResolver::new(cwd.to_owned());
    let mut i: usize = 0;
    while i < urls.len()
        invariant
            i <= urls@.len(),
            resolver.cwd_view() == cwd@,
            forall|p: &str| call_requires(path_exists, (p,)),
            forall|p: &str| call_requires(detect, (p,)),
            start == old(inbox).pending_view(),
            inbox.pending_view().len() == start.len() + i,
            inbox.pending_view().take(start.len() as int) == start,
            forall|j: int| start.len() <= j < start.len() + i
                ==> reports(cwd@, urls@[j - start.len()]@, path_exists, detect, #[trigger] inbox.pending_view()[j]),
        decreases urls@.len() - i,
    {
        let result = resolver.resolve(urls[i].as_str(), path_exists, detect);
        let ghost resolved = result;
        let event = match result {
            Ok(target) => NativeRouteEvent::Target { target },
            Err(error) => NativeRouteEvent::Error { message: error.message() },
        };
        assert(urls[i as int]@ == urls@[i as int]@);
        assert(resolution(cwd@, urls@[i as int]@, path_exists, detect, resolved));
        assert(event_for(resolved, event));
        assert(reports(cwd@, urls@[i as int]@, path_exists, detect, event));
        let ghost before = inbox.pending_view();
        inbox.push(event);
        assert(inbox.pending_view().take(start.len() as int) =~= start) by {
            assert(before.take(start.len() as int) == start);
        }
        assert forall|j: int| start.len() <= j < start.len() + i + 1 implies
            reports(cwd@, urls@[j - start.len()]@, path_exists, detect, #[trigger] inbox.pending_view()[j]) by {
            if j < start.len() + i {
                assert(inbox.pending_view()[j] == before[j]);
            } else {
                assert(inbox.pending_view()[j] == event);
            }
        }
        i = i + 1;
    }
    urls.len() > 0
}

/// Where the desktop shell keeps its state: the directory it was launched
/// from, the spaces file and the cache directory.
#[derive(Debug, Clone, PartialEq, Eq)]
pub struct DesktopRuntimeOptions {
    pub current_dir: String,
    pub spaces_file: String,
    pub cache_root: String,
}

/// The options of a launch from `current_dir`, with the default spaces file
/// and cache directory.
pub fn default_options(current_dir: String) -> (r: DesktopRuntimeOptions)
    ensures
        r.current_dir == current_dir,
{
    DesktopRuntimeOptions {
        current_dir,
        spaces_file: SpaceStore::default_file(),
        cache_root: crate::cache::Cache::default_root(),
    }
}

/// The runtime the desktop shell starts: on a free loopback port, guarded
/// by a session token, focused on no issue, polling every thirty seconds.
pub fn desktop_runtime_options(options: DesktopRuntimeOptions) -> (r: RuntimeOptions)
    ensures
        r.address@ == "127.0.0.1:0"@,
        r.session_auth == SessionAuth::Required,
        r.issue is None,
        r.spaces_file == options.spaces_file,
        r.cache_root == options.cache_root,
        r.poll_interval_secs == 30,
{
    RuntimeOptions {
        address: "127.0.0.1:0".to_owned(),
        session_auth: SessionAuth::Required,
        issue: None,
        spaces_file: options.spaces_file,
        cache_root: options.cache_root,
        poll_interval_secs: 30,
    }
}

/// Keeps the space of the launch target: adds `entry` unless a space with
/// its id is kept. Says whether the spaces changed and must be saved.
pub fn add_launch_space(store: &mut SpaceStore, entry: Option<SpaceEntry>) -> (changed: bool)
    ensures
        final(store).file_view() == old(store).file_view(),
        match entry {
            Some(e) => match added(old(store).entries_view(), e) {
                Some(after) => changed && final(store).entries_view() == after,
                None => !changed && final(store).entries_view() == old(store).entries_view(),
            },
            None => !changed && final(store).entries_view() == old(store).entries_view(),
        },
{
    match entry {
        Some(e) => {
            if store.contains(e.id.as_str()) {
                false
            } else {
                let r = store.add(e);
                r.is_ok()
            }
        },
        None => false,
    }
}

/// The route the shell opens with: the remembered one on a bare launch that
/// restores, otherwise the explicit target's space and issue when they make a
/// valid route.
pub fn initial_route(target: Option<&RouteTarget>, restored: Option<PersistedRoute>, restore_route: bool) -> (r: Option<PersistedRoute>)
    ensures
        restore_route && restored is Some ==> r == restored,
        !(restore_route && restored is Some) ==> match target {
            Some(t) => if valid_route(t.space_id@, t.issue) {
                r == Some(PersistedRoute { space: t.space_id, issue: t.issue })
            } else {
                r is None
            },
            None => r is None,
        },
{
    if restore_route {
        if let Some(restored) = restored {
            return Some(restored);
        }
    }
    match target {
        Some(t) => PersistedRoute::new(t.space_id.clone(), t.issue),
        None => None,
    }
}

/// An external link the shell may open: only `https` URLs, as the URL parser
/// serializes them.
pub fn validated_external_url(raw: &str) -> (r: Result<String, String>)
    ensures
        match url_parse(raw@) {
            None => r matches Err(m) && m@ == "external URL is invalid"@,
            Some(u) => if u.scheme@ == "https"@ {
                r matches Ok(s) && s == u.serialization
            } else {
                r matches Err(m) && m@ == "only https external URLs are allowed"@
            },
        },
{
    match parse_url(raw) {
        None => Err("external URL is invalid".to_owned()),
        Some(url) => if str_eq(url.scheme.as_str(), "https") {
            Ok(url.serialization)
        } else {
            Err("only https external URLs are allowed".to_owned())
        },
    }
}

/// Whether a finished sign-in still has to be put to use: the flow has
/// authorized and no credential is active yet.
pub fn needs_activation(status: &DeviceFlowStatus, credential_present: bool) -> (r: bool)
    ensures
        r == (*status is Authorized && !credential_present),
{
    match status {
        DeviceFlowStatus::Authorized { .. } => !credential_present,
        _ => false,
    }
}

/// The sign-in status the shell shows: once a credential is active, an idle
/// or authorized flow reads as authorized, with the warning left by storing
/// that credential; any other status is shown as the flow reports it.
pub fn public_status(status: DeviceFlowStatus, credential_present: bool, storage_warning: Option<String>) -> (r: DeviceFlowStatus)
    ensures
        r == (if credential_present && (status is Idle || status is Authorized) {
            DeviceFlowStatus::Authorized { storage_warning }
        } else {
            status
        }),
{
    if credential_present {
        match status {
            DeviceFlowStatus::Idle | DeviceFlowStatus::Authorized { .. } => DeviceFlowStatus::Authorized { storage_warning },
            other => other,
        }
    } else {
        status
    }
}

/// The pairs that carry a route in the window's URL fragment: the space as
/// `s`, then the issue number, in decimal, as `i` when there is one.
pub open spec fn route_pairs(space: Seq<char>, issue: Option<u64>) -> Seq<(Seq<char>, Seq<char>)> {
    match issue {
        Some(n) => seq![("s"@, space), ("i"@, decimal(n as nat))],
        None => seq![("s"@, space)],
    }
}

/// The URL fragment that opens the window on `route`, form-encoded.
pub fn route_fragment(route: &PersistedRoute) -> (r: String)
    ensures
        r@ == form_encoded(route_pairs(route.space@, route.issue)),
{
    let mut pairs: Vec<(String, String)> = Vec::new();
    pairs.push(("s".to_owned(), route.space.clone()));
    if let Some(n) = route.issue {
        pairs.push(("i".to_owned(), decimal_string(n)));
    }
    let ghost views = pairs@.map_values(|p: (String, String)| (p.0@, p.1@));
    assert(views =~= route_pairs(route.space@, route.issue));
    encode_form_pairs(&pairs)
}

/// The window URL that opens on `route`: `url` with the route's form-encoded
/// pairs as its fragment, its query kept; `None` when `url` is not a URL.
pub fn route_url(url: &str, route: &PersistedRoute) -> (r: Option<String>)
    ensures
        match r {
            Some(s) => url_with_fragment(url@, form_encoded(route_pairs(route.space@, route.issue))) == Some(s@),
            None => url_with_fragment(url@, form_encoded(route_pairs(route.space@, route.issue))) is None,
        },
        r is None <==> url_parse(url@) is None,
{
    let fragment = route_fragment(route);
    set_url_fragment(url, fragment.as_str())
}

} // verus!
