use stellr::provider::RepoRef;
use stellr::target::{RouteTarget, TargetError, TargetResolver};

fn nothing_exists(_path: &str) -> bool {
    false
}

fn not_a_checkout(_path: &str) -> Result<RepoRef, String> {
    Err("not a git repo".to_owned())
}

#[test]
fn paths_slugs_github_urls_and_stellr_links_use_one_normalized_target() {
    let profile = "/nonexistent-stellr-profile";
    let checkout = "/nonexistent-stellr-profile/stellr";
    let exists = |path: &str| path == checkout;
    let detect = |path: &str| {
        if path == checkout {
            Ok(RepoRef { owner: "teloverge".into(), name: "stellr".into() })
        } else {
            Err("not a git repo".to_owned())
        }
    };
    let resolver = TargetResolver::new(profile.to_owned());
    let expected_repo = RouteTarget {
        space_id: "teloverge-stellr".into(),
        repo: "teloverge/stellr".into(),
        path: None,
        issue: None,
    };

    assert_eq!(
        resolver.resolve(checkout, exists, detect).unwrap(),
        RouteTarget { path: Some(checkout.to_owned()), ..expected_repo.clone() }
    );
    assert_eq!(
        resolver.resolve("stellr", exists, detect).unwrap(),
        RouteTarget { path: Some(checkout.to_owned()), ..expected_repo.clone() }
    );
    assert_eq!(resolver.resolve("teloverge/stellr", exists, detect).unwrap(), expected_repo);
    assert_eq!(
        resolver.resolve("https://github.com/teloverge/stellr", exists, detect).unwrap(),
        expected_repo
    );
    assert_eq!(
        resolver
            .resolve("https://github.com/teloverge/stellr/issues/62", exists, detect)
            .unwrap(),
        RouteTarget { issue: Some(62), ..expected_repo.clone() }
    );
    assert_eq!(
        resolver
            .resolve("stellr://space?repo=teloverge%2Fstellr&issue=62", exists, detect)
            .unwrap(),
        RouteTarget { issue: Some(62), ..expected_repo }
    );
}

#[test]
fn invalid_targets_are_rejected_without_producing_a_route() {
    let resolver = TargetResolver::new("/nonexistent-stellr-profile".to_owned());

    for target in [
        "",
        "not a target",
        "owner/repo/extra",
        "http://github.com/teloverge/stellr",
        "https://example.com/teloverge/stellr",
        "https://github.com/teloverge/stellr/pulls/1",
        "stellr://other?repo=teloverge%2Fstellr",
        "stellr://space?repo=teloverge%2Fstellr&issue=0",
    ] {
        assert!(
            resolver.resolve(target, nothing_exists, not_a_checkout).is_err(),
            "{target} should be invalid"
        );
    }
}

#[test]
fn errors_say_why_a_target_was_refused() {
    let resolver = TargetResolver::new("/nonexistent-stellr-profile".to_owned());
    assert_eq!(
        resolver.resolve("   ", nothing_exists, not_a_checkout),
        Err(TargetError::Empty)
    );
    assert_eq!(
        resolver.resolve("not a target", nothing_exists, not_a_checkout),
        Err(TargetError::Unsupported("not a target".into()))
    );
    assert_eq!(TargetError::Empty.message(), "target is empty");
    assert_eq!(
        TargetError::Issue("0".into()).message(),
        "invalid issue number `0`"
    );
    let link_with_path = resolver.resolve(
        "stellr://space?path=checkout",
        nothing_exists,
        not_a_checkout,
    );
    assert!(matches!(link_with_path, Err(TargetError::Path { .. })));
}

#[test]
fn a_route_target_names_its_space_entry() {
    let target = RouteTarget {
        space_id: "teloverge-stellr".into(),
        repo: "teloverge/stellr".into(),
        path: Some("/repo".into()),
        issue: Some(3),
    };
    let entry = target.entry();
    assert_eq!(entry.id, "teloverge-stellr");
    assert_eq!(entry.repo.owner, "teloverge");
    assert_eq!(entry.repo.name, "stellr");
    assert_eq!(entry.path.as_deref(), Some("/repo"));
}
