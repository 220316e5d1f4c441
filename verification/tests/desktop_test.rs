use stellr::desktop::{
    forwarded_route_event, initial_route, queue_deep_link_urls, tray_action,
    validated_external_url, NativeRouteEvent, RouteInbox, TrayAction,
};
use stellr::desktop::{add_launch_space, default_options, desktop_runtime_options};
use stellr::desktop::{needs_activation, public_status, route_fragment, route_url};
use stellr::device_flow::DeviceFlowStatus;
use stellr::provider::RepoRef;
use stellr::runtime::SessionAuth;
use stellr::spaces::{SpaceEntry, SpaceStore};
use stellr::route_state::PersistedRoute;
use stellr::target::RouteTarget;

fn path_exists(path: &str) -> bool {
    std::path::Path::new(path).exists()
}

fn no_checkout(_path: &str) -> Result<RepoRef, String> {
    Err("not a git repository".to_owned())
}

fn forwarded(args: &[&str], cwd: &str) -> Option<NativeRouteEvent> {
    let args: Vec<String> = args.iter().map(|a| a.to_string()).collect();
    forwarded_route_event(&args, cwd, path_exists, no_checkout)
}

#[test]
fn bare_second_instance_only_reveals_the_existing_window() {
    assert!(forwarded(&["stellr.exe"], r"D:\Apps\Stellr").is_none());
}

#[test]
fn forwarded_open_and_protocol_arguments_share_the_target_resolver() {
    let cwd = ".";
    let open = forwarded(
        &["stellr.exe", "open", "https://github.com/teloverge/stellr/issues/62"],
        cwd,
    );
    let protocol = forwarded(
        &["stellr.exe", "stellr://space?repo=teloverge%2Fstellr&issue=62"],
        cwd,
    );

    assert!(matches!(
        open,
        Some(NativeRouteEvent::Target {
            target: RouteTarget {
                issue: Some(62),
                ..
            }
        })
    ));
    assert!(matches!(
        protocol,
        Some(NativeRouteEvent::Target {
            target: RouteTarget {
                issue: Some(62),
                ..
            }
        })
    ));
}

#[test]
fn startup_without_a_target_or_restored_route_leaves_the_cockpit_unaddressed() {
    assert_eq!(initial_route(None, None, true), None);
}

#[test]
fn invalid_forwarded_arguments_queue_an_error_instead_of_a_target() {
    let event = forwarded(&["stellr.exe", "open", "one", "two"], ".");
    assert!(matches!(event, Some(NativeRouteEvent::Error { .. })));
}

#[test]
fn bare_launch_restores_but_explicit_targets_win() {
    let target = RouteTarget {
        space_id: "explicit-space".into(),
        repo: "teloverge/explicit-space".into(),
        path: None,
        issue: Some(70),
    };
    let restored = PersistedRoute::new("remembered-space".to_owned(), Some(64)).unwrap();

    assert_eq!(
        initial_route(Some(&target), Some(restored.clone()), true),
        Some(restored.clone())
    );
    assert_eq!(
        initial_route(Some(&target), Some(restored), false),
        PersistedRoute::new("explicit-space".to_owned(), Some(70))
    );
}

#[test]
fn tray_menu_exposes_only_open_and_quit_lifecycle_actions() {
    assert_eq!(tray_action("open"), Some(TrayAction::Open));
    assert_eq!(tray_action("quit"), Some(TrayAction::Quit));
    assert_eq!(tray_action("hide"), None);
}

#[test]
fn external_opening_accepts_https_and_rejects_other_schemes() {
    let accepted = validated_external_url("https://github.com/teloverge/stellr").unwrap();
    assert!(accepted.starts_with("https:"));
    assert!(validated_external_url("http://github.com/teloverge/stellr").is_err());
    assert!(validated_external_url("javascript:alert(1)").is_err());
    assert!(validated_external_url("not a url").is_err());
}

#[test]
fn external_url_errors_name_the_refusal() {
    assert_eq!(
        validated_external_url("not a url"),
        Err("external URL is invalid".to_owned())
    );
    assert_eq!(
        validated_external_url("http://github.com/teloverge/stellr"),
        Err("only https external URLs are allowed".to_owned())
    );
    assert_eq!(
        validated_external_url("https://github.com/teloverge/stellr"),
        Ok("https://github.com/teloverge/stellr".to_owned())
    );
}

#[test]
fn forwarded_usage_error_explains_the_accepted_forms() {
    assert_eq!(
        forwarded(&["stellr.exe", "serve"], "."),
        Some(NativeRouteEvent::Error {
            message: "Use `stellr` or `stellr open <path|url>` to route the running app."
                .to_owned()
        })
    );
}

#[test]
fn inbox_hands_events_out_first_in_first_out() {
    let mut inbox = RouteInbox::new();
    let first = NativeRouteEvent::Error { message: "first".to_owned() };
    let second = NativeRouteEvent::Error { message: "second".to_owned() };
    inbox.push(first.clone());
    inbox.push(second.clone());
    assert_eq!(inbox.take(), Some(first));
    assert_eq!(inbox.take(), Some(second));
    assert_eq!(inbox.take(), None);
}

#[test]
fn restoring_without_a_remembered_route_falls_back_to_the_target() {
    let target = RouteTarget {
        space_id: "explicit-space".into(),
        repo: "teloverge/explicit-space".into(),
        path: None,
        issue: None,
    };
    assert_eq!(
        initial_route(Some(&target), None, true),
        PersistedRoute::new("explicit-space".to_owned(), None)
    );
}

#[test]
fn startup_and_running_deep_links_route_and_reveal_the_app() {
    let current = vec!["stellr://space?repo=teloverge%2Fstellr&issue=61".to_owned()];
    let opened = vec!["stellr://space?repo=teloverge%2Fstellr&issue=62".to_owned()];
    let mut inbox = RouteInbox::new();
    let mut reveals = 0;

    for urls in [current, opened] {
        if queue_deep_link_urls(&mut inbox, "D:\\dev\\stellr", &urls, path_exists, no_checkout) {
            reveals += 1;
        }
    }

    assert!(matches!(
        inbox.take(),
        Some(NativeRouteEvent::Target {
            target: RouteTarget {
                issue: Some(61),
                ..
            }
        })
    ));
    assert!(matches!(
        inbox.take(),
        Some(NativeRouteEvent::Target {
            target: RouteTarget {
                issue: Some(62),
                ..
            }
        })
    ));
    assert_eq!(reveals, 2);
    assert!(!queue_deep_link_urls(&mut inbox, ".", &[], path_exists, no_checkout));
}

#[test]
fn desktop_runtime_opens_and_persists_the_callers_github_repository() {
    let options = default_options("/work/stellr".to_owned());
    assert_eq!(options.current_dir, "/work/stellr");
    let runtime = desktop_runtime_options(options.clone());
    assert_eq!(runtime.address, "127.0.0.1:0");
    assert_eq!(runtime.session_auth, SessionAuth::Required);
    assert_eq!(runtime.issue, None);
    assert_eq!(runtime.spaces_file, options.spaces_file);

    let mut store = SpaceStore::from_entries(vec![], "spaces.toml".into());
    let entry = SpaceEntry::new(
        RepoRef { owner: "teloverge".into(), name: "stellr".into() },
        Some("/work/stellr".into()),
    );
    assert!(add_launch_space(&mut store, Some(entry.clone())));
    assert!(!add_launch_space(&mut store, Some(entry)));
    assert!(!add_launch_space(&mut store, None));
    assert_eq!(store.entries().len(), 1);
    assert_eq!(store.entries()[0].id, "teloverge-stellr");
}

#[test]
fn finished_sign_in_is_activated_once() {
    let authorized = DeviceFlowStatus::Authorized { storage_warning: None };
    assert!(needs_activation(&authorized, false));
    assert!(!needs_activation(&authorized, true));
    assert!(!needs_activation(&DeviceFlowStatus::Idle, false));
    assert!(!needs_activation(&DeviceFlowStatus::Denied, false));
}

#[test]
fn active_credential_reads_as_authorized() {
    let warning = Some("the credential could not be stored".to_owned());
    assert_eq!(
        public_status(DeviceFlowStatus::Idle, true, warning.clone()),
        DeviceFlowStatus::Authorized { storage_warning: warning.clone() }
    );
    assert_eq!(
        public_status(DeviceFlowStatus::Authorized { storage_warning: None }, true, None),
        DeviceFlowStatus::Authorized { storage_warning: None }
    );
    assert_eq!(public_status(DeviceFlowStatus::Idle, false, warning.clone()), DeviceFlowStatus::Idle);
    assert_eq!(public_status(DeviceFlowStatus::Cancelled, true, None), DeviceFlowStatus::Cancelled);
    let failed = DeviceFlowStatus::Failed { message: "network".to_owned() };
    assert_eq!(public_status(failed.clone(), true, warning), failed);
}

#[test]
fn route_fragment_form_encodes_space_and_issue() {
    let with_issue = PersistedRoute { space: "my space/a&b".to_owned(), issue: Some(42) };
    assert_eq!(route_fragment(&with_issue), "s=my+space%2Fa%26b&i=42");
    let without_issue = PersistedRoute { space: "stellr".to_owned(), issue: None };
    assert_eq!(route_fragment(&without_issue), "s=stellr");
}

#[test]
fn initial_route_fragment_preserves_the_authenticated_loopback_query() {
    let url = route_url(
        "http://127.0.0.1:49152/?token=session-token",
        &PersistedRoute::new("teloverge-stellr".to_owned(), Some(62)).unwrap(),
    )
    .unwrap();

    assert_eq!(
        url.as_str(),
        "http://127.0.0.1:49152/?token=session-token#s=teloverge-stellr&i=62"
    );
}

#[test]
fn route_url_replaces_an_old_fragment_and_refuses_a_non_url() {
    let route = PersistedRoute::new("alpha".to_owned(), None).unwrap();
    assert_eq!(
        route_url("http://127.0.0.1:8080/#s=old&i=1", &route).unwrap(),
        "http://127.0.0.1:8080/#s=alpha"
    );
    assert_eq!(route_url("not a url", &route), None);
}
