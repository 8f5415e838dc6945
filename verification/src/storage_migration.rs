//! PilotHub's storage layout under the home directory, and the decision of
//! whether legacy `~/.skillshub` storage must be migrated.
use vstd::prelude::*;
use crate::paths::{join_path, join_str, path_starts_with, paths_equal, same_path, starts_with_path};
use crate::skills::SkillRecord;
use crate::text::{chars_of, concat_str, owned, str_eq};

verus! {

/// The directory under the home directory that holds PilotHub's storage.
pub const PILOTHUB_DIR_NAME: &'static str = ".pilothub";

/// The directory of the storage that PilotHub replaces.
pub const LEGACY_CENTRAL_DIR_NAME: &'static str = ".skillshub";

/// The directories of PilotHub's storage.
#[derive(Clone, Debug)]
pub struct StorageLayout {
    pub root: String,
    pub extensions: String,
    pub cache: String,
    pub logs: String,
    pub config: String,
    pub backups: String,
}

/// Whether legacy storage must be migrated, where it is, where it goes, and
/// why migration cannot proceed yet (`TARGET_NOT_EMPTY`).
#[derive(Clone, Debug)]
pub struct StorageMigrationStatus {
    pub required: bool,
    pub legacy_path: String,
    pub target_path: String,
    pub backup_root: String,
    pub reason: Option<String>,
}

/// Why a migration was refused.
#[derive(Clone, Copy, Debug, PartialEq, Eq)]
pub enum MigrationError {
    TargetNotEmpty,
    ContentHashMismatch,
}

impl MigrationError {
    /// The text of the error.
    pub open spec fn message(self) -> Seq<char> {
        match self {
            MigrationError::TargetNotEmpty => "MIGRATION_CONFLICT|target_not_empty"@,
            MigrationError::ContentHashMismatch => "MIGRATION_VERIFY_FAILED|content_hash_mismatch"@,
        }
    }

    /// The text of the error.
    pub fn to_string(&self) -> (r: String)
        ensures
            r@ == self.message(),
    {
        match self {
            MigrationError::TargetNotEmpty => owned("MIGRATION_CONFLICT|target_not_empty"),
            MigrationError::ContentHashMismatch => owned(
                "MIGRATION_VERIFY_FAILED|content_hash_mismatch",
            ),
        }
    }
}

/// The PilotHub storage root under `home`.
pub open spec fn root_of(home: Seq<char>) -> Seq<char> {
    join_path(home, ".pilothub"@)
}

/// The legacy storage directory under `home`.
pub open spec fn legacy_of(home: Seq<char>) -> Seq<char> {
    join_path(home, ".skillshub"@)
}

/// The Extensions directory, where migrated Skills go.
pub open spec fn extensions_of_home(home: Seq<char>) -> Seq<char> {
    join_path(root_of(home), "extensions"@)
}

/// The backups directory.
pub open spec fn backups_of_home(home: Seq<char>) -> Seq<char> {
    join_path(root_of(home), "backups"@)
}

impl StorageLayout {
    /// The layout under `home`: `.pilothub` with `extensions`, `cache`,
    /// `logs`, `config` and `backups` inside.
    pub fn from_home(home: &str) -> (r: Self)
        ensures
            r.root@ == root_of(home@),
            r.extensions@ == extensions_of_home(home@),
            r.cache@ == join_path(root_of(home@), "cache"@),
            r.logs@ == join_path(root_of(home@), "logs"@),
            r.config@ == join_path(root_of(home@), "config"@),
            r.backups@ == backups_of_home(home@),
    {
        let root = join_str(home, PILOTHUB_DIR_NAME);
        StorageLayout {
            extensions: join_str(root.as_str(), "extensions"),
            cache: join_str(root.as_str(), "cache"),
            logs: join_str(root.as_str(), "logs"),
            config: join_str(root.as_str(), "config"),
            backups: join_str(root.as_str(), "backups"),
            root,
        }
    }
}

/// Some Skill record still points into the legacy storage.
pub open spec fn has_legacy_records(skills: Seq<SkillRecord>, legacy: Seq<char>) -> bool {
    exists|i: int| 0 <= i < skills.len() && path_starts_with(#[trigger] skills[i].central_path@, legacy)
}

/// Migration is required unless PilotHub's Extensions directory is already
/// the selected central repository, and only when legacy storage has content
/// or some Skill record points into it.
pub open spec fn migration_required(
    home: Seq<char>,
    skills: Seq<SkillRecord>,
    central_repo_path: Option<Seq<char>>,
    legacy_has_content: bool,
) -> bool {
    let target_is_selected = match central_repo_path {
        Some(p) => same_path(p, extensions_of_home(home)),
        None => false,
    };
    !target_is_selected && (legacy_has_content || has_legacy_records(skills, legacy_of(home)))
}

/// The migration status of the storage under `home`, given the stored Skill
/// records, the selected central repository setting, and whether the legacy
/// and target directories have entries.
pub fn migration_status(
    home: &str,
    skills: &[SkillRecord],
    central_repo_path: Option<String>,
    legacy_has_content: bool,
    target_has_content: bool,
) -> (r: StorageMigrationStatus)
    ensures
        r.required == migration_required(
            home@,
            skills@,
            crate::text::opt_view(central_repo_path),
            legacy_has_content,
        ),
        r.legacy_path@ == legacy_of(home@),
        r.target_path@ == extensions_of_home(home@),
        r.backup_root@ == backups_of_home(home@),
        crate::text::opt_view(r.reason) == if r.required && target_has_content {
            Some("TARGET_NOT_EMPTY"@)
        } else {
            None
        },
{
    let layout = StorageLayout::from_home(home);
    let legacy = join_str(home, LEGACY_CENTRAL_DIR_NAME);
    let legacy_chars = chars_of(legacy.as_str());
    let mut has_legacy = false;
    let mut i: usize = 0;
    while i < skills.len()
        invariant
            i <= skills@.len(),
            legacy_chars@ == legacy_of(home@),
            has_legacy <==> exists|j: int|
                0 <= j < i && path_starts_with(#[trigger] skills@[j].central_path@, legacy_of(home@)),
        decreases skills.len() - i,
    {
        let p = chars_of(skills[i].central_path.as_str());
        if starts_with_path(&p, &legacy_chars) {
            has_legacy = true;
        }
        i = i + 1;
    }
    let target_is_selected = match &central_repo_path {
        Some(p) => {
            let pc = chars_of(p.as_str());
            let ec = chars_of(layout.extensions.as_str());
            paths_equal(&pc, &ec)
        },
        None => false,
    };
    let required = !target_is_selected && (legacy_has_content || has_legacy);
    let reason = if required && target_has_content {
        Some(owned("TARGET_NOT_EMPTY"))
    } else {
        None
    };
    StorageMigrationStatus {
        required,
        legacy_path: legacy,
        target_path: layout.extensions,
        backup_root: layout.backups,
        reason,
    }
}

/// Whether a migration proceeds: not when none is required (`Ok(false)`),
/// refused when the target is not empty, and otherwise it goes ahead.
pub fn migration_decision(status: &StorageMigrationStatus) -> (r: Result<bool, MigrationError>)
    ensures
        !status.required ==> r == Ok::<bool, MigrationError>(false),
        status.required ==> (r == if crate::text::opt_view(status.reason) == Some(
            "TARGET_NOT_EMPTY"@,
        ) {
            Err::<bool, MigrationError>(MigrationError::TargetNotEmpty)
        } else {
            Ok::<bool, MigrationError>(true)
        }),
{
    if !status.required {
        return Ok(false);
    }
    match &status.reason {
        Some(reason) => if str_eq(reason.as_str(), "TARGET_NOT_EMPTY") {
            Err(MigrationError::TargetNotEmpty)
        } else {
            Ok(true)
        },
        None => Ok(true),
    }
}

/// Where one migration keeps its backup and stages the copy: the backup
/// directory `<backups>/<id>`, the backed-up Skills `<backups>/<id>/skillshub`,
/// and the staging directory `<root>/.extensions-migration-<id>`.
pub fn migration_paths(layout: &StorageLayout, migration_id: &str) -> (r: (String, String, String))
    ensures
        r.0@ == join_path(layout.backups@, migration_id@),
        r.1@ == join_path(join_path(layout.backups@, migration_id@), "skillshub"@),
        r.2@ == join_path(layout.root@, ".extensions-migration-"@ + migration_id@),
{
    let backup_dir = join_str(layout.backups.as_str(), migration_id);
    let backup_extensions = join_str(backup_dir.as_str(), "skillshub");
    let staging_name = concat_str(".extensions-migration-", migration_id);
    let staging = join_str(layout.root.as_str(), staging_name.as_str());
    (backup_dir, backup_extensions, staging)
}

/// The migrated copy is accepted only when its content hash equals the
/// legacy storage's.
pub fn verify_migrated_copy(source_hash: &str, staging_hash: &str) -> (r: Result<(), MigrationError>)
    ensures
        r is Ok <==> source_hash@ == staging_hash@,
        r matches Err(e) ==> e == MigrationError::ContentHashMismatch,
{
    if str_eq(source_hash, staging_hash) {
        Ok(())
    } else {
        Err(MigrationError::ContentHashMismatch)
    }
}

} // verus!
