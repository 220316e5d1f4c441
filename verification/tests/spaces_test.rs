use stellr::provider::RepoRef;
use stellr::spaces::{parse_remote, SpaceEntry, SpaceStore};

#[test]
fn parses_only_supported_github_remote_forms() {
    for url in [
        "https://github.com/o/r",
        "https://github.com/o/r.git",
        "git@github.com:o/r.git",
        "ssh://git@github.com/o/r",
    ] {
        let repo = parse_remote(url).unwrap();
        assert_eq!(
            (repo.owner.as_str(), repo.name.as_str()),
            ("o", "r"),
            "{url}"
        );
    }

    assert!(parse_remote("https://gitlab.com/o/r").is_none());
}

#[test]
fn remote_paths_need_exactly_an_owner_and_a_name() {
    assert!(parse_remote("https://github.com/o").is_none());
    assert!(parse_remote("https://github.com/o/r/x").is_none());
    assert!(parse_remote("https://github.com//r").is_none());
    assert_eq!(
        parse_remote("https://github.com/o/r/"),
        Some(RepoRef { owner: "o".into(), name: "r".into() })
    );
}

fn entry(owner: &str, name: &str) -> SpaceEntry {
    SpaceEntry::new(RepoRef { owner: owner.into(), name: name.into() }, None)
}

#[test]
fn space_store_keeps_entries_in_order_and_refuses_duplicates() {
    let mut store = SpaceStore::from_entries(vec![], "spaces.toml".into());
    assert_eq!(store.add(entry("octocat", "hello")), Ok(()));
    assert_eq!(store.add(entry("o", "r")), Ok(()));
    assert_eq!(
        store.add(entry("octocat", "hello")),
        Err("space octocat-hello already exists".into())
    );
    assert_eq!(
        store.entries().iter().map(|e| e.id.as_str()).collect::<Vec<_>>(),
        vec!["octocat-hello", "o-r"]
    );
    assert!(store.remove("octocat-hello"));
    assert!(!store.remove("octocat-hello"));
    assert_eq!(store.entries().len(), 1);
    assert_eq!(store.file(), "spaces.toml");
}

#[test]
fn adding_then_removing_a_space_restores_the_store() {
    let mut store = SpaceStore::from_entries(vec![entry("a", "b")], "f".into());
    let before = store.entries().to_vec();
    store.add(entry("c", "d")).unwrap();
    store.remove("c-d");
    assert_eq!(store.entries().to_vec(), before);
}
