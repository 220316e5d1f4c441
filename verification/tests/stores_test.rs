use stellr::cache::{replacement_plan, Cache, Recovery, ReplacementPlan};
use stellr::cache::{backup_file_name, temporary_file_name, ARTIFACT_ATTEMPTS};
use stellr::provider::RepoRef;
use stellr::route_state::RouteStateStore;
use stellr::spaces::{parse_remote, repo_from_git, GitOutput, SpaceStore};
use stellr::theme::ThemeStore;

fn repo() -> RepoRef {
    RepoRef {
        owner: "o".into(),
        name: "r".into(),
    }
}

#[test]
fn snapshots_are_named_after_their_repository() {
    assert_eq!(Cache::snapshot_file_name(&repo()), "o__r.json");
    let cache = Cache::new("/tmp/stellr-cache".into());
    assert_eq!(cache.root(), "/tmp/stellr-cache");
    assert!(cache.path_for(&repo()).ends_with("o__r.json"));
    assert!(Cache::default_root().ends_with("cache"));
}

#[test]
fn preference_files_sit_beside_the_spaces_file() {
    assert!(SpaceStore::default_file().ends_with("spaces.toml"));
    assert!(RouteStateStore::default_file().ends_with("desktop-route.json"));
    assert!(ThemeStore::default_file().ends_with("theme.json"));
}

#[test]
fn missing_path_is_reported_as_not_a_git_repo() {
    assert_eq!(repo_from_git(false, None), Err("not a git repo".to_owned()));
    assert_eq!(repo_from_git(true, None), Err("not a git repo".to_owned()));
}

#[test]
fn git_failures_and_foreign_remotes_are_told_apart() {
    let failed = |stderr: &str| GitOutput {
        success: false,
        stdout: String::new(),
        stderr: stderr.into(),
    };
    assert_eq!(
        repo_from_git(true, Some(failed("fatal: not a git repository (or any parent)"))),
        Err("not a git repo".to_owned())
    );
    assert_eq!(
        repo_from_git(true, Some(failed("error: No such remote 'origin'"))),
        Err("origin is not a GitHub remote".to_owned())
    );
    let origin = |stdout: &str| GitOutput {
        success: true,
        stdout: stdout.into(),
        stderr: String::new(),
    };
    assert_eq!(
        repo_from_git(true, Some(origin("git@github.com:teloverge/stellr.git\n"))),
        parse_remote("git@github.com:teloverge/stellr.git").ok_or(String::new())
    );
    assert_eq!(
        repo_from_git(true, Some(origin("https://gitlab.com/o/r.git\n"))),
        Err("origin is not a GitHub remote".to_owned())
    );
}


#[test]
fn replacement_failure_promotes_temp_and_removes_backup() {
    assert_eq!(
        replacement_plan(false, true, true),
        ReplacementPlan {
            recovery: Recovery::PromoteTemporary,
            remove_temporary: false,
            remove_backup: true,
            keeps_replacement_outcome: false,
        }
    );
}

#[test]
fn replacement_failure_cleans_temp_and_backup_when_target_exists() {
    assert_eq!(
        replacement_plan(true, true, true),
        ReplacementPlan {
            recovery: Recovery::InPlace,
            remove_temporary: true,
            remove_backup: true,
            keeps_replacement_outcome: true,
        }
    );
}

#[test]
fn replacement_failure_restores_backup_when_temp_is_missing() {
    assert_eq!(
        replacement_plan(false, false, true),
        ReplacementPlan {
            recovery: Recovery::RestoreBackup,
            remove_temporary: false,
            remove_backup: false,
            keeps_replacement_outcome: true,
        }
    );
}

#[test]
fn replacement_success_removes_backup_when_target_exists() {
    assert_eq!(
        replacement_plan(true, false, true),
        ReplacementPlan {
            recovery: Recovery::InPlace,
            remove_temporary: false,
            remove_backup: true,
            keeps_replacement_outcome: true,
        }
    );
    assert_eq!(replacement_plan(false, false, false).recovery, Recovery::InPlace);
}

#[test]
fn replacement_artifacts_are_hidden_siblings_named_by_process_and_serial() {
    assert_eq!(temporary_file_name(&repo(), 4242, 7), ".o__r.json.4242.7.tmp");
    assert_eq!(backup_file_name("o__r.json", 4242, 8), ".o__r.json.4242.8.backup");
    assert_ne!(backup_file_name("o__r.json", 1, 0), backup_file_name("o__r.json", 1, 1));
    assert_eq!(ARTIFACT_ATTEMPTS, 16);
}
