//! The command line of the `stellr` executable.
//!
//! ```text
//! stellr [STELLR_LINK]
//! stellr serve [--addr <ADDR>] [--no-token] [--issue <ISSUE>]
//! stellr open <TARGET>
//! stellr acceptance --github-base <GITHUB_BASE> --profile <PROFILE>
//! ```
//!
//! Options may come in any order and may be written `--name value` or
//! `--name=value`. An option given twice, an unknown option and a stray
//! positional argument are errors; `--help` (or `-h`, or the `help` command)
//! and, before a command, `--version` (or `-V`) stop the parse.

use vstd::prelude::*;

use crate::text::{has_prefix, is_flag, is_flag_str, parse_u64, chars_of, str_eq,
    starts_with, strip_prefix_str, u64_text, push_str, concat};

verus! {

/// The arguments of `stellr acceptance` (a hidden command).
#[derive(Debug, Clone, PartialEq, Eq)]
pub struct AcceptanceArgs {
    pub github_base: String,
    pub profile: String,
}

/// The argument of `stellr open`.
#[derive(Debug, Clone, PartialEq, Eq)]
pub struct OpenArgs {
    pub target: String,
}

/// The arguments of `stellr serve`. `issue`, when given, is positive.
#[derive(Debug, Clone, PartialEq, Eq)]
pub struct ServeArgs {
    pub addr: String,
    pub no_token: bool,
    pub issue: Option<u64>,
}

/// A command of the executable.
#[derive(Debug, Clone, PartialEq, Eq)]
pub enum Command {
    Acceptance(AcceptanceArgs),
    Serve(ServeArgs),
    Open(OpenArgs),
}

/// A parsed command line: a command, or the bare launch with an optional
/// `stellr://` link.
#[derive(Debug, Clone, PartialEq, Eq)]
pub struct Cli {
    pub command: Option<Command>,
    pub protocol_target: Option<String>,
}

/// Why a command line was refused. `DisplayHelp` and `DisplayVersion` are
/// requests rather than mistakes.
#[derive(Debug, Clone, Copy, PartialEq, Eq, Structural)]
pub enum CliErrorKind {
    DisplayHelp,
    DisplayVersion,
    /// An unknown option, or a positional argument where none is taken.
    UnknownArgument,
    /// An option that takes a value came without one.
    InvalidValue,
    /// A value that its option does not accept.
    ValueValidation,
    /// An option given more than once.
    ArgumentConflict,
    MissingRequiredArgument,
    /// A value attached to an option that takes none.
    TooManyValues,
}

/// A refused command line: the kind of refusal and the argument it is about.
#[derive(Debug, Clone, PartialEq, Eq)]
pub struct CliError {
    pub kind: CliErrorKind,
    pub argument: String,
}

/// A command as text.
pub enum ParsedCommand {
    Acceptance { github_base: Seq<char>, profile: Seq<char> },
    Serve { addr: Seq<char>, no_token: bool, issue: Option<u64> },
    Open { target: Seq<char> },
}

/// A command line as text.
pub struct ParsedCli {
    pub command: Option<ParsedCommand>,
    pub protocol_target: Option<Seq<char>>,
}

/// A refusal as text.
pub struct ParsedError {
    pub kind: CliErrorKind,
    pub argument: Seq<char>,
}

pub open spec fn refusal(kind: CliErrorKind, argument: Seq<char>) -> ParsedError {
    ParsedError { kind, argument }
}

pub open spec fn opt_text(o: Option<String>) -> Option<Seq<char>> {
    match o {
        Some(s) => Some(s@),
        None => None,
    }
}

impl Command {
    pub open spec fn parsed(&self) -> ParsedCommand {
        match self {
            Command::Acceptance(a) => ParsedCommand::Acceptance { github_base: a.github_base@, profile: a.profile@ },
            Command::Serve(s) => ParsedCommand::Serve { addr: s.addr@, no_token: s.no_token, issue: s.issue },
            Command::Open(o) => ParsedCommand::Open { target: o.target@ },
        }
    }
}

impl Cli {
    pub open spec fn parsed(&self) -> ParsedCli {
        ParsedCli {
            command: match self.command {
                Some(c) => Some(c.parsed()),
                None => None,
            },
            protocol_target: opt_text(self.protocol_target),
        }
    }
}

impl CliError {
    pub open spec fn parsed(&self) -> ParsedError {
        refusal(self.kind, self.argument@)
    }

    pub open spec fn message_view(&self) -> Seq<char> {
        match self.kind {
            CliErrorKind::DisplayHelp => usage_text(),
            CliErrorKind::DisplayVersion => "stellr"@,
            CliErrorKind::UnknownArgument => "unexpected argument '"@ + self.argument@ + "' found"@,
            CliErrorKind::InvalidValue => "a value is required for '"@ + self.argument@ + "' but none was supplied"@,
            CliErrorKind::ValueValidation => "invalid value '"@ + self.argument@ + "'"@,
            CliErrorKind::ArgumentConflict => "the argument '"@ + self.argument@ + "' cannot be used multiple times"@,
            CliErrorKind::MissingRequiredArgument => "the following required argument was not provided: "@ + self.argument@,
            CliErrorKind::TooManyValues => "unexpected value for '"@ + self.argument@ + "'; no value is taken"@,
        }
    }

    /// The text the refusal displays.
    pub fn message(&self) -> (r: String)
        ensures
            r@ == self.message_view(),
    {
        match self.kind {
            CliErrorKind::DisplayHelp => usage(),
            CliErrorKind::DisplayVersion => "stellr".to_owned(),
            CliErrorKind::UnknownArgument => framed("unexpected argument '", self.argument.as_str(), "' found"),
            CliErrorKind::InvalidValue => framed("a value is required for '", self.argument.as_str(), "' but none was supplied"),
            CliErrorKind::ValueValidation => framed("invalid value '", self.argument.as_str(), "'"),
            CliErrorKind::ArgumentConflict => framed("the argument '", self.argument.as_str(), "' cannot be used multiple times"),
            CliErrorKind::MissingRequiredArgument => concat("the following required argument was not provided: ", self.argument.as_str()),
            CliErrorKind::TooManyValues => framed("unexpected value for '", self.argument.as_str(), "'; no value is taken"),
        }
    }
}

fn framed(before: &str, middle: &str, after: &str) -> (r: String)
    ensures
        r@ == before@ + middle@ + after@,
{
    let mut r = concat(before, middle);
    push_str(&mut r, after);
    r
}

pub open spec fn usage_text() -> Seq<char> {
    "Usage: stellr [STELLR_LINK]\n       stellr serve [--addr <ADDR>] [--no-token] [--issue <ISSUE>]\n       stellr open <TARGET>"@
}

fn usage() -> (r: String)
    ensures
        r@ == usage_text(),
{
    "Usage: stellr [STELLR_LINK]\n       stellr serve [--addr <ADDR>] [--no-token] [--issue <ISSUE>]\n       stellr open <TARGET>".to_owned()
}

pub open spec fn default_addr() -> Seq<char> {
    "127.0.0.1:8787"@
}

pub open spec fn is_help(t: Seq<char>) -> bool {
    t == "--help"@ || t == "-h"@
}

/// Whether the option at the head of `toks` has a value after it.
pub open spec fn value_follows(toks: Seq<Seq<char>>) -> bool {
    toks.len() >= 2 && !is_flag(toks[1])
}

/// The value that `--issue` accepts: a positive decimal number.
pub open spec fn issue_value(v: Seq<char>) -> Option<u64> {
    match u64_text(v) {
        Some(n) => if n != 0 { Some(n) } else { None },
        None => None,
    }
}

/// `stellr serve` with the options `toks` still to read, after `addr`,
/// `no_token` and `issue` were read.
pub open spec fn serve_from(toks: Seq<Seq<char>>, addr: Option<Seq<char>>, no_token: bool, issue: Option<u64>) -> Result<ParsedCommand, ParsedError>
    decreases toks.len(),
{
    if toks.len() == 0 {
        Ok(ParsedCommand::Serve {
            addr: match addr { Some(a) => a, None => default_addr() },
            no_token,
            issue,
        })
    } else {
        let t = toks[0];
        if is_help(t) {
            Err(refusal(CliErrorKind::DisplayHelp, t))
        } else if t == "--"@ {
            if toks.len() > 1 {
                Err(refusal(CliErrorKind::UnknownArgument, toks[1]))
            } else {
                serve_from(toks.skip(1), addr, no_token, issue)
            }
        } else if t == "--no-token"@ {
            if no_token {
                Err(refusal(CliErrorKind::ArgumentConflict, "--no-token"@))
            } else {
                serve_from(toks.skip(1), addr, true, issue)
            }
        } else if has_prefix(t, "--no-token="@) {
            Err(refusal(CliErrorKind::TooManyValues, "--no-token"@))
        } else if t == "--addr"@ || has_prefix(t, "--addr="@) {
            if addr is Some {
                Err(refusal(CliErrorKind::ArgumentConflict, "--addr"@))
            } else if t == "--addr"@ {
                if value_follows(toks) {
                    serve_from(toks.skip(2), Some(toks[1]), no_token, issue)
                } else {
                    Err(refusal(CliErrorKind::InvalidValue, "--addr"@))
                }
            } else {
                serve_from(toks.skip(1), Some(t.skip("--addr="@.len() as int)), no_token, issue)
            }
        } else if t == "--issue"@ || has_prefix(t, "--issue="@) {
            if issue is Some {
                Err(refusal(CliErrorKind::ArgumentConflict, "--issue"@))
            } else if t == "--issue"@ && !value_follows(toks) {
                Err(refusal(CliErrorKind::InvalidValue, "--issue"@))
            } else {
                let v = if t == "--issue"@ { toks[1] } else { t.skip("--issue="@.len() as int) };
                let rest = if t == "--issue"@ { toks.skip(2) } else { toks.skip(1) };
                match issue_value(v) {
                    Some(n) => serve_from(rest, addr, no_token, Some(n)),
                    None => Err(refusal(CliErrorKind::ValueValidation, v)),
                }
            }
        } else {
            Err(refusal(CliErrorKind::UnknownArgument, t))
        }
    }
}

/// `stellr open` with `toks` still to read; `target` is the target read so
/// far, and `positional` whether a `--` has ended the options.
pub open spec fn open_from(toks: Seq<Seq<char>>, target: Option<Seq<char>>, positional: bool) -> Result<ParsedCommand, ParsedError>
    decreases toks.len(),
{
    if toks.len() == 0 {
        match target {
            Some(t) => Ok(ParsedCommand::Open { target: t }),
            None => Err(refusal(CliErrorKind::MissingRequiredArgument, "<TARGET>"@)),
        }
    } else {
        let t = toks[0];
        if !positional && is_help(t) {
            Err(refusal(CliErrorKind::DisplayHelp, t))
        } else if !positional && t == "--"@ {
            open_from(toks.skip(1), target, true)
        } else if !positional && is_flag(t) {
            Err(refusal(CliErrorKind::UnknownArgument, t))
        } else if target is Some {
            Err(refusal(CliErrorKind::UnknownArgument, t))
        } else {
            open_from(toks.skip(1), Some(t), positional)
        }
    }
}

/// `stellr acceptance` with `toks` still to read, after `base` and `profile`
/// were read.
pub open spec fn acceptance_from(toks: Seq<Seq<char>>, base: Option<Seq<char>>, profile: Option<Seq<char>>) -> Result<ParsedCommand, ParsedError>
    decreases toks.len(),
{
    if toks.len() == 0 {
        match (base, profile) {
            (Some(b), Some(p)) => Ok(ParsedCommand::Acceptance { github_base: b, profile: p }),
            (None, _) => Err(refusal(CliErrorKind::MissingRequiredArgument, "--github-base"@)),
            (Some(_), None) => Err(refusal(CliErrorKind::MissingRequiredArgument, "--profile"@)),
        }
    } else {
        let t = toks[0];
        if is_help(t) {
            Err(refusal(CliErrorKind::DisplayHelp, t))
        } else if t == "--"@ {
            if toks.len() > 1 {
                Err(refusal(CliErrorKind::UnknownArgument, toks[1]))
            } else {
                acceptance_from(toks.skip(1), base, profile)
            }
        } else if t == "--github-base"@ || has_prefix(t, "--github-base="@) {
            if base is Some {
                Err(refusal(CliErrorKind::ArgumentConflict, "--github-base"@))
            } else if t == "--github-base"@ {
                if value_follows(toks) {
                    acceptance_from(toks.skip(2), Some(toks[1]), profile)
                } else {
                    Err(refusal(CliErrorKind::InvalidValue, "--github-base"@))
                }
            } else {
                acceptance_from(toks.skip(1), Some(t.skip("--github-base="@.len() as int)), profile)
            }
        } else if t == "--profile"@ || has_prefix(t, "--profile="@) {
            if profile is Some {
                Err(refusal(CliErrorKind::ArgumentConflict, "--profile"@))
            } else if t == "--profile"@ {
                if value_follows(toks) {
                    acceptance_from(toks.skip(2), base, Some(toks[1]))
                } else {
                    Err(refusal(CliErrorKind::InvalidValue, "--profile"@))
                }
            } else {
                acceptance_from(toks.skip(1), base, Some(t.skip("--profile="@.len() as int)))
            }
        } else {
            Err(refusal(CliErrorKind::UnknownArgument, t))
        }
    }
}

pub open spec fn with_command(r: Result<ParsedCommand, ParsedError>, target: Option<Seq<char>>) -> Result<ParsedCli, ParsedError> {
    match r {
        Ok(c) => Ok(ParsedCli { command: Some(c), protocol_target: target }),
        Err(e) => Err(e),
    }
}

/// The command line with `toks` still to read after the program name;
/// `target` is the link read so far and `positional` whether a `--` has ended
/// the options. A command name starts the command, which reads the rest.
pub open spec fn root_from(toks: Seq<Seq<char>>, target: Option<Seq<char>>, positional: bool) -> Result<ParsedCli, ParsedError>
    decreases toks.len(),
{
    if toks.len() == 0 {
        Ok(ParsedCli { command: None, protocol_target: target })
    } else {
        let t = toks[0];
        if !positional && is_help(t) {
            Err(refusal(CliErrorKind::DisplayHelp, t))
        } else if !positional && (t == "--version"@ || t == "-V"@) {
            Err(refusal(CliErrorKind::DisplayVersion, t))
        } else if !positional && t == "--"@ {
            root_from(toks.skip(1), target, true)
        } else if !positional && t == "serve"@ {
            with_command(serve_from(toks.skip(1), None, false, None), target)
        } else if !positional && t == "open"@ {
            with_command(open_from(toks.skip(1), None, false), target)
        } else if !positional && t == "acceptance"@ {
            with_command(acceptance_from(toks.skip(1), None, None), target)
        } else if !positional && t == "help"@ {
            Err(refusal(CliErrorKind::DisplayHelp, t))
        } else if !positional && is_flag(t) {
            Err(refusal(CliErrorKind::UnknownArgument, t))
        } else if target is Some {
            Err(refusal(CliErrorKind::UnknownArgument, t))
        } else if has_prefix(t, "stellr://"@) {
            root_from(toks.skip(1), Some(t), positional)
        } else {
            Err(refusal(CliErrorKind::ValueValidation, t))
        }
    }
}

pub open spec fn texts(args: Seq<&str>) -> Seq<Seq<char>> {
    args.map_values(|a: &str| a@)
}

/// How the command line `args`, program name first, parses.
pub open spec fn parse_args(args: Seq<Seq<char>>) -> Result<ParsedCli, ParsedError> {
    root_from(if args.len() > 0 { args.skip(1) } else { args }, None, false)
}

pub open spec fn parsed_result(r: Result<Cli, CliError>) -> Result<ParsedCli, ParsedError> {
    match r {
        Ok(c) => Ok(c.parsed()),
        Err(e) => Err(e.parsed()),
    }
}

pub open spec fn parsed_command(r: Result<Command, CliError>) -> Result<ParsedCommand, ParsedError> {
    match r {
        Ok(c) => Ok(c.parsed()),
        Err(e) => Err(e.parsed()),
    }
}

fn refuse(kind: CliErrorKind, argument: &str) -> (r: CliError)
    ensures
        r.parsed() == refusal(kind, argument@),
{
    CliError { kind, argument: argument.to_owned() }
}

/// The link given in place of a command: only `stellr://` links.
pub fn parse_protocol_target(value: &str) -> (r: Result<String, String>)
    ensures
        has_prefix(value@, "stellr://"@) ==> (r matches Ok(s) && s@ == value@),
        !has_prefix(value@, "stellr://"@) ==> (r matches Err(m) && m@ == "expected a Stellr subcommand or stellr:// link"@),
{
    if starts_with(value, "stellr://") {
        Ok(value.to_owned())
    } else {
        Err("expected a Stellr subcommand or stellr:// link".to_owned())
    }
}

/// Reads the options of `stellr serve` from `args[start..]`.
fn parse_serve(args: &[&str], start: usize) -> (r: Result<Command, CliError>)
    requires
        start <= args.len(),
    ensures
        parsed_command(r) == serve_from(texts(args@).skip(start as int), None, false, None),
{
    let ghost toks = texts(args@);
    let mut i = start;
    let mut addr: Option<String> = None;
    let mut no_token = false;
    let mut issue: Option<u64> = None;
    while i < args.len()
        invariant
            start <= i <= args.len(),
            toks == texts(args@),
            serve_from(toks.skip(i as int), opt_text(addr), no_token, issue)
                == serve_from(toks.skip(start as int), None, false, None),
        decreases args.len() - i,
    {
        let ghost rest = toks.skip(i as int);
        let t = args[i];
        assert(rest[0] == t@);
        assert(rest.skip(1) =~= toks.skip(i + 1));
        if i + 1 < args.len() {
            assert(rest[1] == args@[i + 1]@);
            assert(rest.skip(2) =~= toks.skip(i + 2));
        }
        if str_eq(t, "--help") || str_eq(t, "-h") {
            return Err(refuse(CliErrorKind::DisplayHelp, t));
        } else if str_eq(t, "--") {
            if i + 1 < args.len() {
                return Err(refuse(CliErrorKind::UnknownArgument, args[i + 1]));
            }
            i = i + 1;
        } else if str_eq(t, "--no-token") {
            if no_token {
                return Err(refuse(CliErrorKind::ArgumentConflict, "--no-token"));
            }
            no_token = true;
            i = i + 1;
        } else if starts_with(t, "--no-token=") {
            return Err(refuse(CliErrorKind::TooManyValues, "--no-token"));
        } else if str_eq(t, "--addr") || starts_with(t, "--addr=") {
            if addr.is_some() {
                return Err(refuse(CliErrorKind::ArgumentConflict, "--addr"));
            }
            if str_eq(t, "--addr") {
                if i + 1 < args.len() && !is_flag_str(args[i + 1]) {
                    addr = Some(args[i + 1].to_owned());
                    i = i + 2;
                } else {
                    return Err(refuse(CliErrorKind::InvalidValue, "--addr"));
                }
            } else {
                addr = strip_prefix_str(t, "--addr=");
                i = i + 1;
            }
        } else if str_eq(t, "--issue") || starts_with(t, "--issue=") {
            if issue.is_some() {
                return Err(refuse(CliErrorKind::ArgumentConflict, "--issue"));
            }
            let long = str_eq(t, "--issue");
            if long && !(i + 1 < args.len() && !is_flag_str(args[i + 1])) {
                return Err(refuse(CliErrorKind::InvalidValue, "--issue"));
            }
            let value: String = if long {
                args[i + 1].to_owned()
            } else {
                match strip_prefix_str(t, "--issue=") {
                    Some(v) => v,
                    None => String::new(),
                }
            };
            let cs = chars_of(value.as_str());
            match parse_u64(cs.as_slice()) {
                Some(n) => {
                    if n == 0 {
                        return Err(refuse(CliErrorKind::ValueValidation, value.as_str()));
                    }
                    issue = Some(n);
                },
                None => {
                    return Err(refuse(CliErrorKind::ValueValidation, value.as_str()));
                },
            }
            i = if long { i + 2 } else { i + 1 };
        } else {
            return Err(refuse(CliErrorKind::UnknownArgument, t));
        }
    }
    assert(toks.skip(i as int).len() == 0);
    let addr = match addr {
        Some(a) => a,
        None => "127.0.0.1:8787".to_owned(),
    };
    Ok(Command::Serve(ServeArgs { addr, no_token, issue }))
}

/// Reads the target of `stellr open` from `args[start..]`.
fn parse_open(args: &[&str], start: usize) -> (r: Result<Command, CliError>)
    requires
        start <= args.len(),
    ensures
        parsed_command(r) == open_from(texts(args@).skip(start as int), None, false),
{
    let ghost toks = texts(args@);
    let mut i = start;
    let mut target: Option<String> = None;
    let mut positional = false;
    while i < args.len()
        invariant
            start <= i <= args.len(),
            toks == texts(args@),
            open_from(toks.skip(i as int), opt_text(target), positional)
                == open_from(toks.skip(start as int), None, false),
        decreases args.len() - i,
    {
        let ghost rest = toks.skip(i as int);
        let t = args[i];
        assert(rest[0] == t@);
        assert(rest.skip(1) =~= toks.skip(i + 1));
        if !positional && (str_eq(t, "--help") || str_eq(t, "-h")) {
            return Err(refuse(CliErrorKind::DisplayHelp, t));
        } else if !positional && str_eq(t, "--") {
            positional = true;
        } else if !positional && is_flag_str(t) {
            return Err(refuse(CliErrorKind::UnknownArgument, t));
        } else if target.is_some() {
            return Err(refuse(CliErrorKind::UnknownArgument, t));
        } else {
            target = Some(t.to_owned());
        }
        i = i + 1;
    }
    assert(toks.skip(i as int).len() == 0);
    match target {
        Some(target) => Ok(Command::Open(OpenArgs { target })),
        None => Err(refuse(CliErrorKind::MissingRequiredArgument, "<TARGET>")),
    }
}

/// Reads the options of `stellr acceptance` from `args[start..]`.
fn parse_acceptance(args: &[&str], start: usize) -> (r: Result<Command, CliError>)
    requires
        start <= args.len(),
    ensures
        parsed_command(r) == acceptance_from(texts(args@).skip(start as int), None, None),
{
    let ghost toks = texts(args@);
    let mut i = start;
    let mut base: Option<String> = None;
    let mut profile: Option<String> = None;
    while i < args.len()
        invariant
            start <= i <= args.len(),
            toks == texts(args@),
            acceptance_from(toks.skip(i as int), opt_text(base), opt_text(profile))
                == acceptance_from(toks.skip(start as int), None, None),
        decreases args.len() - i,
    {
        let ghost rest = toks.skip(i as int);
        let t = args[i];
        assert(rest[0] == t@);
        assert(rest.skip(1) =~= toks.skip(i + 1));
        if i + 1 < args.len() {
            assert(rest[1] == args@[i + 1]@);
            assert(rest.skip(2) =~= toks.skip(i + 2));
        }
        if str_eq(t, "--help") || str_eq(t, "-h") {
            return Err(refuse(CliErrorKind::DisplayHelp, t));
        } else if str_eq(t, "--") {
            if i + 1 < args.len() {
                return Err(refuse(CliErrorKind::UnknownArgument, args[i + 1]));
            }
            i = i + 1;
        } else if str_eq(t, "--github-base") || starts_with(t, "--github-base=") {
            if base.is_some() {
                return Err(refuse(CliErrorKind::ArgumentConflict, "--github-base"));
            }
            if str_eq(t, "--github-base") {
                if i + 1 < args.len() && !is_flag_str(args[i + 1]) {
                    base = Some(args[i + 1].to_owned());
                    i = i + 2;
                } else {
                    return Err(refuse(CliErrorKind::InvalidValue, "--github-base"));
                }
            } else {
                base = strip_prefix_str(t, "--github-base=");
                i = i + 1;
            }
        } else if str_eq(t, "--profile") || starts_with(t, "--profile=") {
            if profile.is_some() {
                return Err(refuse(CliErrorKind::ArgumentConflict, "--profile"));
            }
            if str_eq(t, "--profile") {
                if i + 1 < args.len() && !is_flag_str(args[i + 1]) {
                    profile = Some(args[i + 1].to_owned());
                    i = i + 2;
                } else {
                    return Err(refuse(CliErrorKind::InvalidValue, "--profile"));
                }
            } else {
                profile = strip_prefix_str(t, "--profile=");
                i = i + 1;
            }
        } else {
            return Err(refuse(CliErrorKind::UnknownArgument, t));
        }
    }
    assert(toks.skip(i as int).len() == 0);
    match (base, profile) {
        (Some(github_base), Some(profile)) => Ok(Command::Acceptance(AcceptanceArgs { github_base, profile })),
        (None, _) => Err(refuse(CliErrorKind::MissingRequiredArgument, "--github-base")),
        (Some(_), None) => Err(refuse(CliErrorKind::MissingRequiredArgument, "--profile")),
    }
}

fn attach(r: Result<Command, CliError>, target: Option<String>) -> (out: Result<Cli, CliError>)
    ensures
        parsed_result(out) == with_command(parsed_command(r), opt_text(target)),
{
    match r {
        Ok(command) => Ok(Cli { command: Some(command), protocol_target: target }),
        Err(e) => Err(e),
    }
}

impl Cli {
    /// Parses the command line `args`, program name first.
    pub fn try_parse_from(args: &[&str]) -> (r: Result<Cli, CliError>)
        ensures
            parsed_result(r) == parse_args(texts(args@)),
    {
        let ghost toks = texts(args@);
        let start: usize = if args.len() > 0 { 1 } else { 0 };
        assert(toks.skip(0) =~= toks);
        let mut i = start;
        let mut target: Option<String> = None;
        let mut positional = false;
        while i < args.len()
            invariant
                start <= i <= args.len(),
                toks == texts(args@),
                root_from(toks.skip(i as int), opt_text(target), positional) == parse_args(toks),
            decreases args.len() - i,
        {
            let ghost rest = toks.skip(i as int);
            let t = args[i];
            assert(rest[0] == t@);
            assert(rest.skip(1) =~= toks.skip(i + 1));
            if !positional && (str_eq(t, "--help") || str_eq(t, "-h")) {
                return Err(refuse(CliErrorKind::DisplayHelp, t));
            } else if !positional && (str_eq(t, "--version") || str_eq(t, "-V")) {
                return Err(refuse(CliErrorKind::DisplayVersion, t));
            } else if !positional && str_eq(t, "--") {
                positional = true;
            } else if !positional && str_eq(t, "serve") {
                return attach(parse_serve(args, i + 1), target);
            } else if !positional && str_eq(t, "open") {
                return attach(parse_open(args, i + 1), target);
            } else if !positional && str_eq(t, "acceptance") {
                return attach(parse_acceptance(args, i + 1), target);
            } else if !positional && str_eq(t, "help") {
                return Err(refuse(CliErrorKind::DisplayHelp, t));
            } else if !positional && is_flag_str(t) {
                return Err(refuse(CliErrorKind::UnknownArgument, t));
            } else if target.is_some() {
                return Err(refuse(CliErrorKind::UnknownArgument, t));
            } else {
                match parse_protocol_target(t) {
                    Ok(link) => {
                        target = Some(link);
                    },
                    Err(_) => {
                        return Err(refuse(CliErrorKind::ValueValidation, t));
                    },
                }
            }
            i = i + 1;
        }
        assert(toks.skip(i as int).len() == 0);
        Ok(Cli { command: None, protocol_target: target })
    }
}

} // verus!
