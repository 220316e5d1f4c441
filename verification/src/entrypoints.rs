//! From a command line to what the executable does: the desktop launch, the
//! launch directory and serve mode's session authentication.

use vstd::prelude::*;

use crate::cli::{parse_args, texts, Cli, CliError, Command};
use crate::runtime::SessionAuth;
use crate::urls::{path_is_absolute, surely_relative};

verus! {

/// What the desktop shell starts with: the directory it was launched from,
/// an explicit target, and whether the remembered route is restored.
#[derive(Debug, Clone, PartialEq, Eq)]
pub struct DesktopLaunch {
    pub cwd: String,
    pub target: Option<String>,
    pub restore_route: bool,
}

/// Why the desktop shell does not start from a command line.
#[derive(Debug, Clone, PartialEq, Eq)]
pub enum LaunchError {
    /// The command line did not parse.
    Cli(CliError),
    /// The command belongs to the console executable.
    Unavailable(String),
}

impl LaunchError {
    pub open spec fn message_view(&self) -> Seq<char> {
        match self {
            LaunchError::Cli(e) => e.message_view(),
            LaunchError::Unavailable(m) => m@,
        }
    }

    /// The text the error displays.
    pub fn message(&self) -> (r: String)
        ensures
            r@ == self.message_view(),
    {
        match self {
            LaunchError::Cli(e) => e.message(),
            LaunchError::Unavailable(m) => m.clone(),
        }
    }
}

pub open spec fn serve_unavailable() -> Seq<char> {
    "serve is available through the stellr CLI executable"@
}

pub open spec fn acceptance_unavailable() -> Seq<char> {
    "acceptance is available through stellr.exe"@
}

/// The desktop launch for a parsed command line: `open <target>` targets
/// without restoring; a bare launch restores unless it carries a
/// `stellr://` link, which becomes its target; the console's commands are
/// refused.
pub fn desktop_launch_from_cli(cli: Cli, cwd: String) -> (r: Result<DesktopLaunch, String>)
    ensures
        match cli.command {
            Some(Command::Open(args)) => r == Ok::<DesktopLaunch, String>(DesktopLaunch { cwd, target: Some(args.target), restore_route: false }),
            None => r == Ok::<DesktopLaunch, String>(DesktopLaunch {
                cwd,
                target: cli.protocol_target,
                restore_route: cli.protocol_target is None,
            }),
            Some(Command::Serve(_)) => r matches Err(m) && m@ == serve_unavailable(),
            Some(Command::Acceptance(_)) => r matches Err(m) && m@ == acceptance_unavailable(),
        },
{
    match cli.command {
        Some(Command::Open(args)) => Ok(DesktopLaunch { cwd, target: Some(args.target), restore_route: false }),
        None => {
            let restore_route = cli.protocol_target.is_none();
            Ok(DesktopLaunch { cwd, target: cli.protocol_target, restore_route })
        },
        Some(Command::Serve(_)) => Err("serve is available through the stellr CLI executable".to_owned()),
        Some(Command::Acceptance(_)) => Err("acceptance is available through stellr.exe".to_owned()),
    }
}

/// The desktop launch for the command line `args`, program name first,
/// started from `cwd`.
pub fn desktop_launch_from(args: &[&str], cwd: String) -> (r: Result<DesktopLaunch, LaunchError>)
    ensures
        match parse_args(texts(args@)) {
            Err(e) => r matches Err(LaunchError::Cli(c)) && c.parsed() == e,
            Ok(p) => match p.command {
                None => r matches Ok(l) && l.cwd == cwd && l.restore_route == (p.protocol_target is None)
                    && match l.target {
                        Some(t) => p.protocol_target == Some(t@),
                        None => p.protocol_target is None,
                    },
                Some(crate::cli::ParsedCommand::Open { target }) => r matches Ok(l) && l.cwd == cwd
                    && !l.restore_route && (l.target matches Some(t) && t@ == target),
                Some(crate::cli::ParsedCommand::Serve { .. }) => r matches Err(LaunchError::Unavailable(m))
                    && m@ == serve_unavailable(),
                Some(crate::cli::ParsedCommand::Acceptance { .. }) => r matches Err(LaunchError::Unavailable(m))
                    && m@ == acceptance_unavailable(),
            },
        },
{
    match Cli::try_parse_from(args) {
        Err(e) => Err(LaunchError::Cli(e)),
        Ok(cli) => match desktop_launch_from_cli(cli, cwd) {
            Ok(launch) => Ok(launch),
            Err(m) => Err(LaunchError::Unavailable(m)),
        },
    }
}

/// The directory a desktop launch works in: inside an AppImage (`appimage`
/// is set) the caller's original directory, when it is given and absolute;
/// otherwise the current directory.
pub fn effective_launch_dir(current: String, appimage: Option<String>, original: Option<String>) -> (r: String)
    ensures
        appimage is None ==> r == current,
        original is None ==> r == current,
        r == current || (original matches Some(o) && r == o),
        appimage is Some && (original matches Some(o) && surely_relative(o@)) ==> r == current,
{
    if appimage.is_some() {
        if let Some(o) = original {
            if path_is_absolute(o.as_str()) {
                return o;
            }
        }
    }
    current
}

pub open spec fn is_hex_digit(c: char) -> bool {
    ('0' <= c && c <= '9') || ('a' <= c && c <= 'f') || ('A' <= c && c <= 'F')
}

pub open spec fn ascii_lowercase(c: char) -> char {
    if 'A' <= c && c <= 'Z' { ((c as int) + 32) as char } else { c }
}

pub open spec fn invalid_session_token() -> Seq<char> {
    "STELLR_SESSION_TOKEN must be exactly 32 hexadecimal characters"@
}

/// How serve mode guards its routes: not at all with `--no-token`;
/// otherwise by the token of `STELLR_SESSION_TOKEN` when it is set, which
/// must be 32 hexadecimal characters and is used in lowercase; otherwise by a
/// token generated for the run.
pub fn serve_session_auth(no_token: bool, env_token: Option<String>) -> (r: Result<SessionAuth, String>)
    ensures
        no_token ==> r == Ok::<SessionAuth, String>(SessionAuth::Disabled),
        !no_token && env_token is None ==> r == Ok::<SessionAuth, String>(SessionAuth::Required),
        !no_token ==> match env_token {
            Some(t) => if t@.len() == 32 && forall|k: int| 0 <= k < 32 ==> is_hex_digit(#[trigger] t@[k]) {
                r matches Ok(SessionAuth::Fixed(f)) && f@ == t@.map_values(|c: char| ascii_lowercase(c))
            } else {
                r matches Err(m) && m@ == invalid_session_token()
            },
            None => true,
        },
{
    if no_token {
        return Ok(SessionAuth::Disabled);
    }
    let token = match env_token {
        None => {
            return Ok(SessionAuth::Required);
        },
        Some(t) => t,
    };
    let cs = crate::text::chars_of(token.as_str());
    if cs.len() != 32 {
        return Err("STELLR_SESSION_TOKEN must be exactly 32 hexadecimal characters".to_owned());
    }
    let mut lower = String::new();
    let mut i: usize = 0;
    while i < cs.len()
        invariant
            !no_token,
            env_token == Some(token),
            cs@ == token@,
            cs@.len() == 32,
            i <= 32,
            forall|k: int| 0 <= k < i ==> is_hex_digit(#[trigger] cs@[k]),
            lower@ == cs@.take(i as int).map_values(|c: char| ascii_lowercase(c)),
        decreases 32 - i,
    {
        let c = cs[i];
        if !(('0' <= c && c <= '9') || ('a' <= c && c <= 'f') || ('A' <= c && c <= 'F')) {
            return Err("STELLR_SESSION_TOKEN must be exactly 32 hexadecimal characters".to_owned());
        }
        let l = if 'A' <= c && c <= 'Z' { ((c as u32) + 32) as u8 as char } else { c };
        lower.push(l);
        i = i + 1;
        assert(lower@ =~= cs@.take(i as int).map_values(|c: char| ascii_lowercase(c)));
    }
    assert(cs@.take(32) =~= cs@);
    Ok(SessionAuth::Fixed(lower))
}

} // verus!
