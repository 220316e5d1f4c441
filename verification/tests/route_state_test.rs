use stellr::route_state::{route_to_persist, PersistedRoute, RouteStateStore};

#[test]
fn corrupt_or_invalid_state_is_rejected_instead_of_becoming_a_route() {
    let stored = PersistedRoute { space: String::new(), issue: Some(0) };
    assert_eq!(stored.valid(), None);
    assert_eq!(PersistedRoute::new("  ".into(), None), None);
    assert_eq!(PersistedRoute::new("space".into(), Some(0)), None);
}

#[test]
fn valid_routes_keep_their_space_and_issue() {
    let route = PersistedRoute::new("teloverge-stellr".into(), Some(64)).unwrap();
    assert_eq!(route.space, "teloverge-stellr");
    assert_eq!(route.issue, Some(64));
    assert_eq!(route.clone().valid(), Some(route));
    assert_eq!(RouteStateStore::new("route.json".into()).file(), "route.json");
}

#[test]
fn persisting_needs_a_space_for_an_issue() {
    assert_eq!(route_to_persist(None, None), Ok(None));
    assert_eq!(
        route_to_persist(None, Some(3)),
        Err("an issue route requires a space".to_owned())
    );
    assert_eq!(
        route_to_persist(Some("s".into()), Some(0)),
        Err("route state must contain a space and a positive issue".to_owned())
    );
    assert_eq!(
        route_to_persist(Some("s".into()), Some(3)),
        Ok(PersistedRoute::new("s".into(), Some(3)))
    );
}
