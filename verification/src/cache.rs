//! The per-repository cache of the last fetched issues.

use vstd::prelude::*;

use crate::model::RawIssue;
use crate::provider::RepoRef;
use crate::urls::{adjoined, ends_with, plain_file_name, surely_relative, verbatim};
use crate::text::{concat, decimal, push_decimal, push_str};

verus! {

/// A space's issues as last fetched, kept to show while the provider fails.
#[derive(Debug, Clone, PartialEq)]
pub struct Snapshot {
    pub viewer_login: Option<String>,
    pub issues: Vec<RawIssue>,
    pub synced_at: i64,
}

/// The directory that holds one snapshot file per repository.
#[derive(Debug, Clone, PartialEq, Eq)]
pub struct Cache {
    root: String,
}

/// The name of the snapshot file of `repo`: `<owner>__<name>.json`.
pub open spec fn snapshot_file_name_text(repo: RepoRef) -> Seq<char> {
    repo.owner@ + "__"@ + repo.name@ + ".json"@
}

impl Cache {
    pub closed spec fn root_view(&self) -> Seq<char> {
        self.root@
    }

    /// A cache kept under `root`.
    pub fn new(root: String) -> (r: Self)
        ensures
            r.root_view() == root@,
    {
        Cache { root }
    }

    /// Where caches are kept by default: `cache` in the application's data
    /// directory, or in the working directory when there is none. The
    /// directory depends on the platform and the environment.
    pub fn default_root() -> (r: String)
        ensures
            ends_with(r@, "cache"@),
    {
        proof {
            reveal_strlit("cache");
            assert("cache"@ =~= seq!['c', 'a', 'c', 'h', 'e']);
            reveal_with_fuel(crate::urls::no_separator, 6);
            assert(plain_file_name(seq!['c', 'a', 'c', 'h', 'e']));
            assert("cache"@.skip(0) =~= "cache"@);
        }
        match crate::urls::project_data_dir() {
            Some(dir) => crate::urls::path_join(dir.as_str(), "cache"),
            None => "cache".to_owned(),
        }
    }

    pub fn root(&self) -> (r: &str)
        ensures
            r@ == self.root_view(),
    {
        self.root.as_str()
    }

    /// The name of the snapshot file of `repo`.
    pub fn snapshot_file_name(repo: &RepoRef) -> (r: String)
        ensures
            r@ == snapshot_file_name_text(*repo),
    {
        let mut r = concat(repo.owner.as_str(), "__");
        push_str(&mut r, repo.name.as_str());
        push_str(&mut r, ".json");
        r
    }

    /// The snapshot file of `repo` under the cache's root (joined as the
    /// platform joins paths).
    pub fn path_for(&self, repo: &RepoRef) -> (r: String)
        ensures
            surely_relative(snapshot_file_name_text(*repo)) && !verbatim(self.root_view())
                ==> adjoined(self.root_view(), snapshot_file_name_text(*repo), r@),
            plain_file_name(snapshot_file_name_text(*repo)) ==> ends_with(r@, snapshot_file_name_text(*repo)),
    {
        let name = Self::snapshot_file_name(repo);
        crate::urls::path_join(self.root.as_str(), name.as_str())
    }
}

/// Which file becomes the snapshot when a replacement is finished.
#[derive(Debug, Clone, Copy, PartialEq, Eq, Structural)]
pub enum Recovery {
    /// The snapshot is in place; nothing is renamed.
    InPlace,
    /// The new snapshot, still in its temporary file, is moved into place.
    PromoteTemporary,
    /// The displaced snapshot is moved back into place.
    RestoreBackup,
}

/// How a snapshot replacement is finished: the rename that recovers the
/// snapshot, which leftovers are removed afterwards, and whether the
/// outcome is the replacement's own (`false`: the recovery made it a
/// success).
#[derive(Debug, Clone, Copy, PartialEq, Eq, Structural)]
pub struct ReplacementPlan {
    pub recovery: Recovery,
    pub remove_temporary: bool,
    pub remove_backup: bool,
    pub keeps_replacement_outcome: bool,
}

/// The plan, from whether the target, the temporary file and the backup
/// exist. A target in place only needs the leftovers removed; without one,
/// the temporary file is promoted (which succeeds) and the backup removed;
/// without either, the backup is restored; the outcome otherwise stays the
/// replacement's.
pub open spec fn planned_replacement(target_exists: bool, temporary_exists: bool, backup_exists: bool) -> ReplacementPlan {
    if target_exists {
        ReplacementPlan {
            recovery: Recovery::InPlace,
            remove_temporary: temporary_exists,
            remove_backup: backup_exists,
            keeps_replacement_outcome: true,
        }
    } else if temporary_exists {
        ReplacementPlan {
            recovery: Recovery::PromoteTemporary,
            remove_temporary: false,
            remove_backup: backup_exists,
            keeps_replacement_outcome: false,
        }
    } else {
        ReplacementPlan {
            recovery: if backup_exists { Recovery::RestoreBackup } else { Recovery::InPlace },
            remove_temporary: false,
            remove_backup: false,
            keeps_replacement_outcome: true,
        }
    }
}

/// The plan that finishes a replacement.
pub fn replacement_plan(target_exists: bool, temporary_exists: bool, backup_exists: bool) -> (r: ReplacementPlan)
    ensures
        r == planned_replacement(target_exists, temporary_exists, backup_exists),
{
    if target_exists {
        ReplacementPlan {
            recovery: Recovery::InPlace,
            remove_temporary: temporary_exists,
            remove_backup: backup_exists,
            keeps_replacement_outcome: true,
        }
    } else if temporary_exists {
        ReplacementPlan {
            recovery: Recovery::PromoteTemporary,
            remove_temporary: false,
            remove_backup: backup_exists,
            keeps_replacement_outcome: false,
        }
    } else {
        ReplacementPlan {
            recovery: if backup_exists { Recovery::RestoreBackup } else { Recovery::InPlace },
            remove_temporary: false,
            remove_backup: false,
            keeps_replacement_outcome: true,
        }
    }
}

/// A finished replacement never loses the snapshot: whenever the target,
/// the new snapshot or the displaced one exists, one of them ends up in
/// place, and no file is removed that the recovery moves into place.
pub proof fn replacement_keeps_a_snapshot(target_exists: bool, temporary_exists: bool, backup_exists: bool)
    ensures
        ({
            let plan = planned_replacement(target_exists, temporary_exists, backup_exists);
            &&& (target_exists || temporary_exists || backup_exists) ==> (target_exists || plan.recovery != Recovery::InPlace)
            &&& plan.recovery == Recovery::PromoteTemporary ==> !plan.remove_temporary
            &&& plan.recovery == Recovery::RestoreBackup ==> !plan.remove_backup
        }),
{
}

/// How many fresh names a replacement tries for its temporary file and for
/// its backup before it gives up.
pub const ARTIFACT_ATTEMPTS: u32 = 16;

/// The name of the temporary file that a replacement of `repo`'s snapshot
/// writes first: `.<owner>__<name>.json.<process>.<serial>.tmp`.
pub open spec fn temporary_file_name_text(repo: RepoRef, process: nat, serial: nat) -> Seq<char> {
    "."@ + snapshot_file_name_text(repo) + "."@ + decimal(process) + "."@ + decimal(serial) + ".tmp"@
}

/// The name under which a replacement keeps the displaced snapshot file
/// `file_name`: `.<file_name>.<process>.<serial>.backup`.
pub open spec fn backup_file_name_text(file_name: Seq<char>, process: nat, serial: nat) -> Seq<char> {
    "."@ + file_name + "."@ + decimal(process) + "."@ + decimal(serial) + ".backup"@
}

/// The temporary file name for `repo` from this process and serial number.
pub fn temporary_file_name(repo: &RepoRef, process: u32, serial: u64) -> (r: String)
    ensures
        r@ == temporary_file_name_text(*repo, process as nat, serial as nat),
{
    let name = Cache::snapshot_file_name(repo);
    let mut r = concat(".", name.as_str());
    push_str(&mut r, ".");
    push_decimal(&mut r, process as u64);
    push_str(&mut r, ".");
    push_decimal(&mut r, serial);
    push_str(&mut r, ".tmp");
    r
}

/// The backup name for the snapshot file `file_name` from this process and
/// serial number.
pub fn backup_file_name(file_name: &str, process: u32, serial: u64) -> (r: String)
    ensures
        r@ == backup_file_name_text(file_name@, process as nat, serial as nat),
{
    let mut r = concat(".", file_name);
    push_str(&mut r, ".");
    push_decimal(&mut r, process as u64);
    push_str(&mut r, ".");
    push_decimal(&mut r, serial);
    push_str(&mut r, ".backup");
    r
}

} // verus!
