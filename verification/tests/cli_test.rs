use stellr::cli::{parse_protocol_target, Cli, CliErrorKind, Command};
use stellr::entrypoints::{
    desktop_launch_from, effective_launch_dir, serve_session_auth, LaunchError,
};
use stellr::runtime::SessionAuth;

#[test]
fn serve_defaults_to_loopback_port_8787_with_session_auth() {
    let parsed = Cli::try_parse_from(&["stellr", "serve"]).unwrap();
    let Some(Command::Serve(args)) = parsed.command else {
        panic!("serve should select the serve command")
    };

    assert_eq!(args.addr, "127.0.0.1:8787");
    assert!(!args.no_token);
    assert_eq!(args.issue, None);
}

#[test]
fn serve_accepts_a_custom_address_and_open_server_flag() {
    let parsed =
        Cli::try_parse_from(&["stellr", "serve", "--addr", "127.0.0.1:0", "--no-token"]).unwrap();
    let Some(Command::Serve(args)) = parsed.command else {
        panic!("serve should select the serve command")
    };

    assert_eq!(args.addr, "127.0.0.1:0");
    assert!(args.no_token);
}

#[test]
fn serve_accepts_a_positive_conversation_issue() {
    let parsed =
        Cli::try_parse_from(&["stellr", "serve", "--addr", "127.0.0.1:0", "--issue", "14"])
            .unwrap();
    let Some(Command::Serve(args)) = parsed.command else {
        panic!("serve should select the serve command")
    };

    assert_eq!(args.issue, Some(14));
    assert!(Cli::try_parse_from(&["stellr", "serve", "--issue", "0"]).is_err());
}

#[test]
fn open_accepts_one_path_url_slug_or_stellr_target() {
    for target in [
        r"D:\dev\stellr",
        "teloverge/stellr",
        "https://github.com/teloverge/stellr/issues/62",
        "stellr://space?repo=teloverge%2Fstellr&issue=62",
    ] {
        let parsed = Cli::try_parse_from(&["stellr", "open", target]).unwrap();
        let Some(Command::Open(args)) = parsed.command else {
            panic!("open should select the desktop open command")
        };
        assert_eq!(args.target, target);
    }
    assert!(Cli::try_parse_from(&["stellr", "open"]).is_err());
    assert!(Cli::try_parse_from(&["stellr", "open", "one", "two"]).is_err());
}

#[test]
fn a_registered_stellr_protocol_link_is_accepted_as_the_hidden_root_target() {
    let link = "stellr://space?repo=teloverge%2Fstellr&issue=62";
    let parsed = Cli::try_parse_from(&["stellr", link]).unwrap();

    assert!(parsed.command.is_none());
    assert_eq!(parsed.protocol_target.as_deref(), Some(link));
}

#[test]
fn an_arbitrary_root_argument_is_an_invalid_console_command() {
    assert!(Cli::try_parse_from(&["stellr", "not-a-command"]).is_err());
}

#[test]
fn desktop_entry_accepts_bare_open_and_protocol_launches() {
    let cwd = r"D:\Apps\Stellr".to_owned();

    let bare = desktop_launch_from(&["stellr-desktop"], cwd.clone()).unwrap();
    assert!(bare.target.is_none());
    assert!(bare.restore_route);

    let open = desktop_launch_from(&["stellr-desktop", "open", "teloverge/stellr"], cwd.clone())
        .unwrap();
    assert_eq!(open.target.as_deref(), Some("teloverge/stellr"));
    assert!(!open.restore_route);

    let protocol = desktop_launch_from(
        &["stellr-desktop", "stellr://space?repo=teloverge%2Fstellr"],
        cwd,
    )
    .unwrap();
    assert_eq!(
        protocol.target.as_deref(),
        Some("stellr://space?repo=teloverge%2Fstellr")
    );
}

#[test]
fn desktop_entry_rejects_console_only_serve() {
    let error = desktop_launch_from(&["stellr-desktop", "serve"], r"D:\Apps\Stellr".to_owned())
        .err()
        .expect("the desktop entry must reject console-only serve");

    assert!(error.message().contains("stellr CLI"));
}

#[test]
fn bare_launch_selects_desktop_mode_without_a_repository_target() {
    let launch = desktop_launch_from(&["stellr"], r"D:\Apps\Stellr".to_owned()).unwrap();

    assert!(launch.target.is_none());
    assert!(launch.restore_route);
}

#[test]
fn appimage_launch_uses_the_callers_original_working_directory() {
    let mounted = "/tmp/mounted-appimage/usr";
    let original = "/tmp/stellr-repository";

    assert_eq!(
        effective_launch_dir(
            mounted.to_owned(),
            Some("/tmp/Stellr.AppImage".to_owned()),
            Some(original.to_owned()),
        ),
        original
    );
}

#[test]
fn unpackaged_launch_ignores_an_unpaired_original_working_directory() {
    let current = "/tmp/stellr-repository";
    let unrelated = "/tmp/unrelated";

    assert_eq!(
        effective_launch_dir(current.to_owned(), None, Some(unrelated.to_owned())),
        current
    );
}

#[test]
fn appimage_launch_rejects_a_relative_original_working_directory() {
    let mounted = "/tmp/mounted-appimage/usr";

    assert_eq!(
        effective_launch_dir(
            mounted.to_owned(),
            Some("/tmp/Stellr.AppImage".to_owned()),
            Some("relative-repository".to_owned()),
        ),
        mounted
    );
}

#[test]
fn options_may_be_attached_with_an_equals_sign_in_any_order() {
    let parsed =
        Cli::try_parse_from(&["stellr", "serve", "--issue=7", "--no-token", "--addr=0.0.0.0:1"])
            .unwrap();
    let Some(Command::Serve(args)) = parsed.command else {
        panic!("serve should select the serve command")
    };
    assert_eq!(args.addr, "0.0.0.0:1");
    assert!(args.no_token);
    assert_eq!(args.issue, Some(7));
}

#[test]
fn each_refusal_names_its_kind_and_argument() {
    let cases: [(&[&str], CliErrorKind, &str); 9] = [
        (&["stellr", "--help"], CliErrorKind::DisplayHelp, "--help"),
        (&["stellr", "-V"], CliErrorKind::DisplayVersion, "-V"),
        (&["stellr", "serve", "--bogus"], CliErrorKind::UnknownArgument, "--bogus"),
        (&["stellr", "serve", "--addr"], CliErrorKind::InvalidValue, "--addr"),
        (&["stellr", "serve", "--issue", "x"], CliErrorKind::ValueValidation, "x"),
        (&["stellr", "serve", "--no-token", "--no-token"], CliErrorKind::ArgumentConflict, "--no-token"),
        (&["stellr", "open"], CliErrorKind::MissingRequiredArgument, "<TARGET>"),
        (&["stellr", "serve", "--no-token=yes"], CliErrorKind::TooManyValues, "--no-token"),
        (&["stellr", "not-a-command"], CliErrorKind::ValueValidation, "not-a-command"),
    ];
    for (args, kind, argument) in cases {
        let error = Cli::try_parse_from(args).unwrap_err();
        assert_eq!(error.kind, kind, "{args:?}");
        assert_eq!(error.argument, argument, "{args:?}");
    }
}

#[test]
fn acceptance_requires_its_base_and_profile() {
    let parsed = Cli::try_parse_from(&[
        "stellr",
        "acceptance",
        "--github-base",
        "http://127.0.0.1:1",
        "--profile=/tmp/p",
    ])
    .unwrap();
    let Some(Command::Acceptance(args)) = parsed.command else {
        panic!("acceptance should select the acceptance command")
    };
    assert_eq!(args.github_base, "http://127.0.0.1:1");
    assert_eq!(args.profile, "/tmp/p");
    let error = Cli::try_parse_from(&["stellr", "acceptance", "--github-base", "x"]).unwrap_err();
    assert_eq!(error.kind, CliErrorKind::MissingRequiredArgument);
    assert_eq!(error.argument, "--profile");
}

#[test]
fn a_double_dash_ends_the_options_of_open() {
    let parsed = Cli::try_parse_from(&["stellr", "open", "--", "-odd"]).unwrap();
    let Some(Command::Open(args)) = parsed.command else {
        panic!("open should select the desktop open command")
    };
    assert_eq!(args.target, "-odd");
}

#[test]
fn protocol_targets_must_use_the_stellr_scheme() {
    assert_eq!(
        parse_protocol_target("stellr://space?repo=a%2Fb"),
        Ok("stellr://space?repo=a%2Fb".to_owned())
    );
    assert_eq!(
        parse_protocol_target("https://github.com/a/b"),
        Err("expected a Stellr subcommand or stellr:// link".to_owned())
    );
}

#[test]
fn the_acceptance_command_is_refused_by_the_desktop_entry() {
    let error = desktop_launch_from(
        &["stellr-desktop", "acceptance", "--github-base", "x", "--profile", "y"],
        ".".to_owned(),
    )
    .unwrap_err();
    assert_eq!(
        error,
        LaunchError::Unavailable("acceptance is available through stellr.exe".to_owned())
    );
}

#[test]
fn serve_session_auth_follows_the_flag_then_the_environment() {
    assert_eq!(serve_session_auth(true, Some("zz".to_owned())), Ok(SessionAuth::Disabled));
    assert_eq!(serve_session_auth(false, None), Ok(SessionAuth::Required));
    assert_eq!(
        serve_session_auth(false, Some("0123456789ABCDEF0123456789abcdef".to_owned())),
        Ok(SessionAuth::Fixed("0123456789abcdef0123456789abcdef".to_owned()))
    );
    assert_eq!(
        serve_session_auth(false, Some("0123".to_owned())),
        Err("STELLR_SESSION_TOKEN must be exactly 32 hexadecimal characters".to_owned())
    );
    assert!(serve_session_auth(false, Some("g123456789abcdef0123456789abcdef".to_owned())).is_err());
}
