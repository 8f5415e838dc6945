//! Moving the legacy Skill storage into PilotHub's Extensions directory as
//! a transaction.
//!
//! The legacy storage is backed up, copied into a staging directory and the
//! copy verified by content hash; the staging directory then replaces an
//! empty (or missing) Extensions directory, and the stored Skill paths are
//! rewritten. The legacy storage itself is only read. A failure before the
//! copy is in place removes the staging directory; a failure to rewrite the
//! paths removes the moved copy.
use vstd::prelude::*;
use crate::ids::{is_fresh_id, lemma_fresh_id_is_name, random_id};
use crate::paths::{is_single_name, join_path, join_str, lemma_concat_name, one_level_below};
use crate::storage_migration::{
    backups_of_home, extensions_of_home, legacy_of, migration_decision, migration_paths, root_of,
    verify_migrated_copy, MigrationError, StorageLayout, StorageMigrationStatus,
    LEGACY_CENTRAL_DIR_NAME,
};
use crate::text::{
    chars_of, concat, concat_str, decimal, decimal_u64, lemma_decimal_no_slash, string_of,
};

verus! {

/// The paths of one migration: the legacy storage, the Extensions
/// directory, the backup of the legacy Skills and the staging directory,
/// named by the migration's identifier.
#[derive(Clone, Debug)]
pub struct MigrationPlan {
    pub migration_id: String,
    pub legacy: String,
    pub extensions: String,
    pub backup_extensions: String,
    pub staging: String,
}

/// How the last action went: done, failed with an error, whether the legacy
/// storage exists, a directory's content hash, or whether the Extensions
/// directory exists and has entries.
#[derive(Debug)]
pub enum MigrationEvent {
    Done,
    Failed { error: String },
    Exists { exists: bool },
    Hash { value: String },
    Target { exists: bool, has_entries: bool },
}

/// Where a migration stands.
#[derive(Debug)]
pub enum MigrationStateOf<S> {
    CreatingDirs,
    CheckingLegacy,
    BackingUp,
    Copying,
    HashingLegacy,
    HashingStaging { source: S },
    CreatingStaging,
    CheckingTarget,
    RemovingEmptyTarget,
    Activating,
    Rewriting,
    RemovingTarget { error: S },
    EnsuringLayout,
    RemovingStaging { error: S },
    Finished { outcome: Result<(), S> },
}

/// The next thing to do: create the storage root and backups directory,
/// look whether the legacy storage exists, copy it to the backup, copy it to
/// the staging directory, hash the legacy storage, hash the staged copy,
/// create an empty staging directory, look at the Extensions directory,
/// remove it while empty, move the staging directory in its place, rewrite
/// the stored Skill paths, remove the moved copy, create the storage
/// directories, remove the staging directory, or give the outcome.
#[derive(Debug)]
pub enum MigrationActionOf<S> {
    CreateDirs,
    CheckLegacy,
    CopyLegacyToBackup,
    CopyLegacyToStaging,
    HashLegacy,
    HashStaging,
    CreateStaging,
    CheckTarget,
    RemoveEmptyTarget,
    Activate,
    RewritePaths,
    RemoveTarget,
    EnsureLayout,
    RemoveStaging,
    Finish { outcome: Result<(), S> },
}

/// The state of a migration.
pub type MigrationState = MigrationStateOf<String>;

/// The state of a migration as plain values.
pub type MigrationStateView = MigrationStateOf<Seq<char>>;

/// An action of a migration.
pub type MigrationAction = MigrationActionOf<String>;

/// An action of a migration as plain values.
pub type MigrationActionView = MigrationActionOf<Seq<char>>;

/// The plain values of an outcome.
pub open spec fn unit_view(o: Result<(), String>) -> Result<(), Seq<char>> {
    match o {
        Ok(()) => Ok(()),
        Err(e) => Err(e@),
    }
}

/// The plain values of a state.
pub open spec fn migration_state_view(s: MigrationState) -> MigrationStateView {
    match s {
        MigrationStateOf::CreatingDirs => MigrationStateOf::CreatingDirs,
        MigrationStateOf::CheckingLegacy => MigrationStateOf::CheckingLegacy,
        MigrationStateOf::BackingUp => MigrationStateOf::BackingUp,
        MigrationStateOf::Copying => MigrationStateOf::Copying,
        MigrationStateOf::HashingLegacy => MigrationStateOf::HashingLegacy,
        MigrationStateOf::HashingStaging { source } => MigrationStateOf::HashingStaging { source: source@ },
        MigrationStateOf::CreatingStaging => MigrationStateOf::CreatingStaging,
        MigrationStateOf::CheckingTarget => MigrationStateOf::CheckingTarget,
        MigrationStateOf::RemovingEmptyTarget => MigrationStateOf::RemovingEmptyTarget,
        MigrationStateOf::Activating => MigrationStateOf::Activating,
        MigrationStateOf::Rewriting => MigrationStateOf::Rewriting,
        MigrationStateOf::RemovingTarget { error } => MigrationStateOf::RemovingTarget { error: error@ },
        MigrationStateOf::EnsuringLayout => MigrationStateOf::EnsuringLayout,
        MigrationStateOf::RemovingStaging { error } => MigrationStateOf::RemovingStaging { error: error@ },
        MigrationStateOf::Finished { outcome } => MigrationStateOf::Finished { outcome: unit_view(outcome) },
    }
}

/// The plain values of an action.
pub open spec fn migration_action_view(a: MigrationAction) -> MigrationActionView {
    match a {
        MigrationActionOf::CreateDirs => MigrationActionOf::CreateDirs,
        MigrationActionOf::CheckLegacy => MigrationActionOf::CheckLegacy,
        MigrationActionOf::CopyLegacyToBackup => MigrationActionOf::CopyLegacyToBackup,
        MigrationActionOf::CopyLegacyToStaging => MigrationActionOf::CopyLegacyToStaging,
        MigrationActionOf::HashLegacy => MigrationActionOf::HashLegacy,
        MigrationActionOf::HashStaging => MigrationActionOf::HashStaging,
        MigrationActionOf::CreateStaging => MigrationActionOf::CreateStaging,
        MigrationActionOf::CheckTarget => MigrationActionOf::CheckTarget,
        MigrationActionOf::RemoveEmptyTarget => MigrationActionOf::RemoveEmptyTarget,
        MigrationActionOf::Activate => MigrationActionOf::Activate,
        MigrationActionOf::RewritePaths => MigrationActionOf::RewritePaths,
        MigrationActionOf::RemoveTarget => MigrationActionOf::RemoveTarget,
        MigrationActionOf::EnsureLayout => MigrationActionOf::EnsureLayout,
        MigrationActionOf::RemoveStaging => MigrationActionOf::RemoveStaging,
        MigrationActionOf::Finish { outcome } => MigrationActionOf::Finish { outcome: unit_view(outcome) },
    }
}

/// The identifier of a migration started at `now_secs` seconds after the
/// UNIX epoch, with a fresh random part.
pub open spec fn is_migration_id(id: Seq<char>, now_secs: u64) -> bool {
    exists|fresh: Seq<char>| is_fresh_id(fresh) && id == decimal(now_secs as nat) + "-"@ + fresh
}

/// The plan of the migration of the storage under `home`.
pub open spec fn migration_plan_matches(plan: MigrationPlan, home: Seq<char>, now_secs: u64) -> bool {
    let backup_dir = join_path(backups_of_home(home), plan.migration_id@);
    &&& is_migration_id(plan.migration_id@, now_secs)
    &&& plan.legacy@ == legacy_of(home)
    &&& plan.extensions@ == extensions_of_home(home)
    &&& plan.backup_extensions@ == join_path(backup_dir, "skillshub"@)
    &&& plan.staging@ == join_path(root_of(home), ".extensions-migration-"@ + plan.migration_id@)
}

/// The staging and backup directories of a migration lie one level below
/// PilotHub's storage root and backups directory.
pub open spec fn migration_dirs_below(plan: MigrationPlan, home: Seq<char>) -> bool {
    &&& one_level_below(plan.staging@, root_of(home))
    &&& one_level_below(join_path(backups_of_home(home), plan.migration_id@), backups_of_home(home))
}

/// A migration never reaches outside PilotHub's storage root and backups
/// directory with its staging and backup directories.
pub proof fn law_migration_dirs_below(plan: MigrationPlan, home: Seq<char>, now_secs: u64)
    requires
        migration_plan_matches(plan, home, now_secs),
    ensures
        migration_dirs_below(plan, home),
{
    let fresh = choose|fresh: Seq<char>| is_fresh_id(fresh) && plan.migration_id@ == decimal(now_secs as nat) + "-"@ + fresh;
    lemma_fresh_id_is_name(fresh);
    lemma_decimal_no_slash(now_secs as nat);
    let d = decimal(now_secs as nat);
    let head = d + "-"@;
    assert forall|i: int| 0 <= i < head.len() implies #[trigger] head[i] != '/' by {
        reveal_strlit("-");
        if i < d.len() {
            assert(head[i] == d[i]);
        } else {
            assert(head[i] == "-"@[i - d.len()]);
        }
    }
    lemma_concat_name(head, fresh);
    let id = plan.migration_id@;
    assert(id == head + fresh);
    let prefix = ".extensions-migration-"@;
    assert forall|i: int| 0 <= i < prefix.len() implies #[trigger] prefix[i] != '/' by {
        reveal_strlit(".extensions-migration-");
    }
    lemma_concat_name(prefix, id);
    assert(is_single_name(id));
}

/// Leave through the removal of the staging directory with `error`.
pub open spec fn drop_staging(error: Seq<char>) -> (MigrationStateView, MigrationActionView) {
    (MigrationStateOf::RemovingStaging { error }, MigrationActionOf::RemoveStaging)
}

/// Give the outcome.
pub open spec fn migration_finish(outcome: Result<(), Seq<char>>) -> (MigrationStateView, MigrationActionView) {
    (MigrationStateOf::Finished { outcome }, MigrationActionOf::Finish { outcome })
}

/// The error of an event.
pub open spec fn migration_failure(e: MigrationEvent) -> Option<Seq<char>> {
    match e {
        MigrationEvent::Failed { error } => Some(error@),
        _ => None,
    }
}

/// The hash an event reports, or the error of a failed hashing.
pub open spec fn hash_of(e: MigrationEvent) -> Result<Seq<char>, Seq<char>> {
    match e {
        MigrationEvent::Hash { value } => Ok(value@),
        MigrationEvent::Failed { error } => Err(error@),
        _ => Ok(Seq::empty()),
    }
}

/// One step of a migration: the next state and action after event `e` in
/// state `s`. A step that waits for an action to be done treats every event
/// but a failure as done.
pub open spec fn migration_next(s: MigrationStateView, e: MigrationEvent) -> (MigrationStateView, MigrationActionView) {
    match s {
        MigrationStateOf::CreatingDirs => match migration_failure(e) {
            Some(m) => migration_finish(Err(m)),
            None => (MigrationStateOf::CheckingLegacy, MigrationActionOf::CheckLegacy),
        },
        MigrationStateOf::CheckingLegacy => match e {
            MigrationEvent::Exists { exists: true } => (MigrationStateOf::BackingUp, MigrationActionOf::CopyLegacyToBackup),
            _ => (MigrationStateOf::CreatingStaging, MigrationActionOf::CreateStaging),
        },
        MigrationStateOf::BackingUp => match migration_failure(e) {
            Some(m) => drop_staging("backup legacy Skill storage: "@ + m),
            None => (MigrationStateOf::Copying, MigrationActionOf::CopyLegacyToStaging),
        },
        MigrationStateOf::Copying => match migration_failure(e) {
            Some(m) => drop_staging("copy legacy Skill storage: "@ + m),
            None => (MigrationStateOf::HashingLegacy, MigrationActionOf::HashLegacy),
        },
        MigrationStateOf::HashingLegacy => match hash_of(e) {
            Err(m) => drop_staging("hash legacy Skill storage: "@ + m),
            Ok(h) => (MigrationStateOf::HashingStaging { source: h }, MigrationActionOf::HashStaging),
        },
        MigrationStateOf::HashingStaging { source } => match hash_of(e) {
            Err(m) => drop_staging("verify migrated Skill storage: "@ + m),
            Ok(h) => if h == source {
                (MigrationStateOf::CheckingTarget, MigrationActionOf::CheckTarget)
            } else {
                drop_staging(MigrationError::ContentHashMismatch.message())
            },
        },
        MigrationStateOf::CreatingStaging => match migration_failure(e) {
            Some(m) => drop_staging(m),
            None => (MigrationStateOf::CheckingTarget, MigrationActionOf::CheckTarget),
        },
        MigrationStateOf::CheckingTarget => match e {
            MigrationEvent::Failed { error } => migration_finish(Err(error@)),
            MigrationEvent::Target { exists: true, has_entries: true } => drop_staging(
                MigrationError::TargetNotEmpty.message(),
            ),
            MigrationEvent::Target { exists: true, has_entries: false } => (
                MigrationStateOf::RemovingEmptyTarget,
                MigrationActionOf::RemoveEmptyTarget,
            ),
            _ => (MigrationStateOf::Activating, MigrationActionOf::Activate),
        },
        MigrationStateOf::RemovingEmptyTarget => match migration_failure(e) {
            Some(m) => migration_finish(Err(m)),
            None => (MigrationStateOf::Activating, MigrationActionOf::Activate),
        },
        MigrationStateOf::Activating => match migration_failure(e) {
            Some(m) => migration_finish(Err("activate migrated Skill storage: "@ + m)),
            None => (MigrationStateOf::Rewriting, MigrationActionOf::RewritePaths),
        },
        MigrationStateOf::Rewriting => match migration_failure(e) {
            Some(m) => (
                MigrationStateOf::RemovingTarget { error: "update migrated storage paths: "@ + m },
                MigrationActionOf::RemoveTarget,
            ),
            None => (MigrationStateOf::EnsuringLayout, MigrationActionOf::EnsureLayout),
        },
        MigrationStateOf::RemovingTarget { error } => migration_finish(Err(error)),
        MigrationStateOf::EnsuringLayout => match migration_failure(e) {
            Some(m) => migration_finish(Err(m)),
            None => migration_finish(Ok(())),
        },
        MigrationStateOf::RemovingStaging { error } => migration_finish(Err(error)),
        MigrationStateOf::Finished { outcome } => migration_finish(outcome),
    }
}

/// The start of the migration of the storage under `home` with this
/// status, at `now_secs` seconds after the UNIX epoch: none when no
/// migration is required, refused when the Extensions directory is not
/// empty, else the plan and the first action, creating the storage root and
/// backups directory.
pub fn migration_begin(home: &str, status: &StorageMigrationStatus, now_secs: u64) -> (r: Result<
    Option<(MigrationPlan, MigrationState, MigrationAction)>,
    MigrationError,
>)
    ensures
        !status.required ==> r matches Ok(None),
        status.required && crate::text::opt_view(status.reason) == Some("TARGET_NOT_EMPTY"@) ==> r
            == Err::<Option<(MigrationPlan, MigrationState, MigrationAction)>, MigrationError>(
            MigrationError::TargetNotEmpty,
        ),
        status.required && crate::text::opt_view(status.reason) != Some("TARGET_NOT_EMPTY"@) ==> (r matches Ok(Some(t))
            && migration_plan_matches(t.0, home@, now_secs) && migration_dirs_below(t.0, home@)
            && migration_state_view(t.1)
            == MigrationStateView::CreatingDirs && migration_action_view(t.2) == MigrationActionView::CreateDirs),
{
    if !migration_decision(status)? {
        return Ok(None);
    }
    let fresh = random_id();
    let secs = decimal_u64(now_secs);
    let dash = chars_of("-");
    let fresh_chars = chars_of(fresh.as_str());
    let id = string_of(&concat(&concat(&secs, &dash), &fresh_chars));
    assert(id@ == decimal(now_secs as nat) + "-"@ + fresh@);
    let layout = StorageLayout::from_home(home);
    let (_backup_dir, backup_extensions, staging) = migration_paths(&layout, id.as_str());
    let plan = MigrationPlan {
        legacy: join_str(home, LEGACY_CENTRAL_DIR_NAME),
        extensions: layout.extensions,
        backup_extensions,
        staging,
        migration_id: id,
    };
    proof {
        law_migration_dirs_below(plan, home@, now_secs);
    }
    Ok(Some((plan, MigrationStateOf::CreatingDirs, MigrationActionOf::CreateDirs)))
}

/// Give an outcome.
fn migration_finish_with(outcome: Result<(), String>) -> (r: (MigrationState, MigrationAction))
    ensures
        (migration_state_view(r.0), migration_action_view(r.1)) == migration_finish(unit_view(outcome)),
{
    let again = match &outcome {
        Ok(()) => Ok(()),
        Err(e) => Err(e.clone()),
    };
    (MigrationStateOf::Finished { outcome }, MigrationActionOf::Finish { outcome: again })
}

/// Leave through the removal of the staging directory.
fn drop_staging_with(error: String) -> (r: (MigrationState, MigrationAction))
    ensures
        (migration_state_view(r.0), migration_action_view(r.1)) == drop_staging(error@),
{
    (MigrationStateOf::RemovingStaging { error }, MigrationActionOf::RemoveStaging)
}

/// One step of a migration: the next state and action after `event` in
/// `state`.
pub fn migration_step(state: MigrationState, event: MigrationEvent) -> (r: (MigrationState, MigrationAction))
    ensures
        (migration_state_view(r.0), migration_action_view(r.1)) == migration_next(migration_state_view(state), event),
{
    match state {
        MigrationStateOf::CreatingDirs => match event {
            MigrationEvent::Failed { error } => migration_finish_with(Err(error)),
            _ => (MigrationStateOf::CheckingLegacy, MigrationActionOf::CheckLegacy),
        },
        MigrationStateOf::CheckingLegacy => match event {
            MigrationEvent::Exists { exists: true } => (MigrationStateOf::BackingUp, MigrationActionOf::CopyLegacyToBackup),
            _ => (MigrationStateOf::CreatingStaging, MigrationActionOf::CreateStaging),
        },
        MigrationStateOf::BackingUp => match event {
            MigrationEvent::Failed { error } => drop_staging_with(
                concat_str("backup legacy Skill storage: ", error.as_str()),
            ),
            _ => (MigrationStateOf::Copying, MigrationActionOf::CopyLegacyToStaging),
        },
        MigrationStateOf::Copying => match event {
            MigrationEvent::Failed { error } => drop_staging_with(
                concat_str("copy legacy Skill storage: ", error.as_str()),
            ),
            _ => (MigrationStateOf::HashingLegacy, MigrationActionOf::HashLegacy),
        },
        MigrationStateOf::HashingLegacy => match event {
            MigrationEvent::Failed { error } => drop_staging_with(
                concat_str("hash legacy Skill storage: ", error.as_str()),
            ),
            MigrationEvent::Hash { value } => (MigrationStateOf::HashingStaging { source: value }, MigrationActionOf::HashStaging),
            _ => (MigrationStateOf::HashingStaging { source: String::new() }, MigrationActionOf::HashStaging),
        },
        MigrationStateOf::HashingStaging { source } => {
            let found = match event {
                MigrationEvent::Failed { error } => Err(error),
                MigrationEvent::Hash { value } => Ok(value),
                _ => Ok(String::new()),
            };
            match found {
                Err(m) => drop_staging_with(concat_str("verify migrated Skill storage: ", m.as_str())),
                Ok(h) => match verify_migrated_copy(source.as_str(), h.as_str()) {
                    Ok(()) => (MigrationStateOf::CheckingTarget, MigrationActionOf::CheckTarget),
                    Err(e) => drop_staging_with(e.to_string()),
                },
            }
        },
        MigrationStateOf::CreatingStaging => match event {
            MigrationEvent::Failed { error } => drop_staging_with(error),
            _ => (MigrationStateOf::CheckingTarget, MigrationActionOf::CheckTarget),
        },
        MigrationStateOf::CheckingTarget => match event {
            MigrationEvent::Failed { error } => migration_finish_with(Err(error)),
            MigrationEvent::Target { exists: true, has_entries: true } => drop_staging_with(
                MigrationError::TargetNotEmpty.to_string(),
            ),
            MigrationEvent::Target { exists: true, has_entries: false } => (
                MigrationStateOf::RemovingEmptyTarget,
                MigrationActionOf::RemoveEmptyTarget,
            ),
            _ => (MigrationStateOf::Activating, MigrationActionOf::Activate),
        },
        MigrationStateOf::RemovingEmptyTarget => match event {
            MigrationEvent::Failed { error } => migration_finish_with(Err(error)),
            _ => (MigrationStateOf::Activating, MigrationActionOf::Activate),
        },
        MigrationStateOf::Activating => match event {
            MigrationEvent::Failed { error } => migration_finish_with(
                Err(concat_str("activate migrated Skill storage: ", error.as_str())),
            ),
            _ => (MigrationStateOf::Rewriting, MigrationActionOf::RewritePaths),
        },
        MigrationStateOf::Rewriting => match event {
            MigrationEvent::Failed { error } => (
                MigrationStateOf::RemovingTarget {
                    error: concat_str("update migrated storage paths: ", error.as_str()),
                },
                MigrationActionOf::RemoveTarget,
            ),
            _ => (MigrationStateOf::EnsuringLayout, MigrationActionOf::EnsureLayout),
        },
        MigrationStateOf::RemovingTarget { error } => migration_finish_with(Err(error)),
        MigrationStateOf::EnsuringLayout => match event {
            MigrationEvent::Failed { error } => migration_finish_with(Err(error)),
            _ => migration_finish_with(Ok(())),
        },
        MigrationStateOf::RemovingStaging { error } => migration_finish_with(Err(error)),
        MigrationStateOf::Finished { outcome } => migration_finish_with(outcome),
    }
}

/// The staged copy replaces the Extensions directory only after it was
/// verified: the move is asked for only once the Extensions directory was
/// found missing or emptied, and the Extensions directory is looked at only
/// after an empty staging directory was made (no legacy storage) or the
/// staged copy hashed as the legacy storage did.
pub proof fn law_only_verified_copies_are_activated(s: MigrationStateView, e: MigrationEvent)
    ensures
        migration_next(s, e).1 is Activate ==> s is CheckingTarget || s is RemovingEmptyTarget,
        migration_next(s, e).1 is CheckTarget ==> s is CreatingStaging || (s matches MigrationStateOf::HashingStaging { source }
            && hash_of(e) == Ok::<Seq<char>, Seq<char>>(source)),
{
}

/// A non-empty Extensions directory is never replaced: the staging
/// directory is removed and the migration fails with the conflict.
pub proof fn law_non_empty_target_is_kept(e: MigrationEvent)
    requires
        (e matches MigrationEvent::Target { exists: true, has_entries: true }),
    ensures
        migration_next(MigrationStateView::CheckingTarget, e) == drop_staging(
            MigrationError::TargetNotEmpty.message(),
        ),
        migration_next(migration_next(MigrationStateView::CheckingTarget, e).0, MigrationEvent::Done).1
            == (MigrationActionView::Finish { outcome: Err(MigrationError::TargetNotEmpty.message()) }),
{
}

/// Nothing a migration does removes or changes the legacy storage: the
/// actions that write are the backup and staging copies, the staging and
/// Extensions directories, the stored paths and the storage directories.
pub proof fn law_legacy_only_read(s: MigrationStateView, e: MigrationEvent)
    ensures
        !(migration_next(s, e).1 is CopyLegacyToBackup) || s is CheckingLegacy,
        !(migration_next(s, e).1 is CopyLegacyToStaging) || s is BackingUp,
{
}

/// What a migration touches on disk, as abstract contents: the legacy
/// storage, the Extensions directory, the backup copy of the legacy storage
/// and the staging directory (each absent or some content).
pub struct StorageDisk {
    pub legacy: Option<int>,
    pub extensions: Option<int>,
    pub backup: Option<int>,
    pub staging: Option<int>,
}

/// The disk after action `a`, where an empty staging directory has the
/// content `empty`: the backup and staging copies take the legacy storage's
/// content, an empty staging directory is made, the Extensions directory is
/// removed or replaced by the staging directory, and the staging directory
/// is removed. No action writes the legacy storage.
pub open spec fn apply_migration_action(d: StorageDisk, a: MigrationActionView, empty: int) -> StorageDisk {
    match a {
        MigrationActionOf::CopyLegacyToBackup => StorageDisk { backup: d.legacy, ..d },
        MigrationActionOf::CopyLegacyToStaging => StorageDisk { staging: d.legacy, ..d },
        MigrationActionOf::CreateStaging => StorageDisk { staging: Some(empty), ..d },
        MigrationActionOf::RemoveEmptyTarget => StorageDisk { extensions: None, ..d },
        MigrationActionOf::Activate => StorageDisk { extensions: d.staging, staging: None, ..d },
        MigrationActionOf::RemoveTarget => StorageDisk { extensions: None, ..d },
        MigrationActionOf::RemoveStaging => StorageDisk { staging: None, ..d },
        _ => d,
    }
}

/// The legacy check reports whether the legacy storage exists; every other
/// event may be anything.
pub open spec fn honest_migration_event(a: MigrationActionView, d: StorageDisk, e: MigrationEvent) -> bool {
    a is CheckLegacy ==> (e matches MigrationEvent::Exists { exists } && exists == d.legacy is Some)
}

/// A migration run from state `s` with pending action `a` on disk `d` with
/// the events `evs`: the last state, action and disk, and whether every
/// event was honest.
pub open spec fn migration_disk_run(
    s: MigrationStateView,
    a: MigrationActionView,
    d: StorageDisk,
    evs: Seq<MigrationEvent>,
    empty: int,
) -> (MigrationStateView, MigrationActionView, StorageDisk, bool)
    decreases evs.len(),
{
    if evs.len() == 0 {
        (s, a, d, true)
    } else {
        let next = migration_next(s, evs[0]);
        let rest = migration_disk_run(next.0, next.1, apply_migration_action(d, a, empty), evs.drop_first(), empty);
        (rest.0, rest.1, rest.2, honest_migration_event(a, d, evs[0]) && rest.3)
    }
}

/// What the Extensions directory holds after a migration from disk `d0`:
/// the legacy storage's content, or an empty directory without one.
pub open spec fn migrated_content(d0: StorageDisk, empty: int) -> Option<int> {
    if d0.legacy is Some {
        d0.legacy
    } else {
        Some(empty)
    }
}

/// Where the disk stands in each state of a migration that started on disk
/// `d0`.
pub open spec fn storage_matches(s: MigrationStateView, a: MigrationActionView, d: StorageDisk, d0: StorageDisk, empty: int) -> bool {
    let kept = d.legacy == d0.legacy;
    let copied = kept && d.backup == d0.legacy && d0.legacy is Some;
    let staged = d.staging == migrated_content(d0, empty) && (d0.legacy is Some ==> d.backup == d0.legacy);
    match s {
        MigrationStateOf::CreatingDirs => a is CreateDirs && kept,
        MigrationStateOf::CheckingLegacy => a is CheckLegacy && kept,
        MigrationStateOf::BackingUp => a is CopyLegacyToBackup && kept && d0.legacy is Some,
        MigrationStateOf::Copying => a is CopyLegacyToStaging && copied,
        MigrationStateOf::HashingLegacy => a is HashLegacy && copied && d.staging == d0.legacy,
        MigrationStateOf::HashingStaging { source } => a is HashStaging && copied && d.staging == d0.legacy,
        MigrationStateOf::CreatingStaging => a is CreateStaging && kept && d0.legacy is None,
        MigrationStateOf::CheckingTarget => a is CheckTarget && kept && staged,
        MigrationStateOf::RemovingEmptyTarget => a is RemoveEmptyTarget && kept && staged,
        MigrationStateOf::Activating => a is Activate && kept && staged,
        MigrationStateOf::Rewriting => a is RewritePaths && kept && d.extensions == migrated_content(d0, empty)
            && (d0.legacy is Some ==> d.backup == d0.legacy),
        MigrationStateOf::RemovingTarget { error } => a is RemoveTarget && kept,
        MigrationStateOf::EnsuringLayout => a is EnsureLayout && kept && d.extensions == migrated_content(d0, empty)
            && (d0.legacy is Some ==> d.backup == d0.legacy),
        MigrationStateOf::RemovingStaging { error } => a is RemoveStaging && kept,
        MigrationStateOf::Finished { outcome } => a == (MigrationActionView::Finish { outcome }) && kept && (outcome is Ok
            ==> d.extensions == migrated_content(d0, empty) && (d0.legacy is Some ==> d.backup == d0.legacy)),
    }
}

proof fn lemma_storage_run(
    s: MigrationStateView,
    a: MigrationActionView,
    d: StorageDisk,
    d0: StorageDisk,
    evs: Seq<MigrationEvent>,
    empty: int,
)
    requires
        storage_matches(s, a, d, d0, empty),
    ensures
        ({
            let r = migration_disk_run(s, a, d, evs, empty);
            r.3 ==> storage_matches(r.0, r.1, r.2, d0, empty)
        }),
    decreases evs.len(),
{
    if evs.len() > 0 {
        let next = migration_next(s, evs[0]);
        if honest_migration_event(a, d, evs[0]) {
            assert(storage_matches(next.0, next.1, apply_migration_action(d, a, empty), d0, empty));
            lemma_storage_run(next.0, next.1, apply_migration_action(d, a, empty), d0, evs.drop_first(), empty);
        }
    }
}

/// Whatever its steps report, a migration never deletes or changes the
/// legacy storage; when it succeeds, the Extensions directory holds the
/// legacy storage's content (or is an empty directory when there was no
/// legacy storage), and the backup holds a copy of the legacy storage.
pub proof fn law_migration_disk_outcome(d0: StorageDisk, evs: Seq<MigrationEvent>, empty: int)
    ensures
        ({
            let r = migration_disk_run(MigrationStateView::CreatingDirs, MigrationActionView::CreateDirs, d0, evs, empty);
            &&& r.3 ==> r.2.legacy == d0.legacy
            &&& (r.3 && r.1 matches MigrationActionOf::Finish { outcome: Ok(_) }) ==> r.2.extensions
                == migrated_content(d0, empty) && (d0.legacy is Some ==> r.2.backup == d0.legacy)
        }),
{
    lemma_storage_run(MigrationStateView::CreatingDirs, MigrationActionView::CreateDirs, d0, d0, evs, empty);
}

} // verus!
