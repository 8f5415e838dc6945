use pilothub::legacy_migration::{
    migration_begin, migration_step, MigrationActionOf, MigrationEvent, MigrationPlan,
};
use pilothub::storage_migration::{migration_status, MigrationError};
use pilothub::skills::SkillRecord;

fn legacy_skill() -> SkillRecord {
    SkillRecord {
        id: "example".to_string(),
        name: "example".to_string(),
        description: None,
        source_type: "local".to_string(),
        source_ref: None,
        source_subpath: None,
        source_revision: None,
        central_path: "/tmp/home/.skillshub/example".to_string(),
        content_hash: None,
        created_at: 1,
        updated_at: 1,
        last_sync_at: None,
        last_seen_at: 1,
        enabled: true,
        status: "ok".to_string(),
    }
}

fn name_of(action: &MigrationActionOf<String>) -> &'static str {
    match action {
        MigrationActionOf::CreateDirs => "create dirs",
        MigrationActionOf::CheckLegacy => "check legacy",
        MigrationActionOf::CopyLegacyToBackup => "backup",
        MigrationActionOf::CopyLegacyToStaging => "copy",
        MigrationActionOf::HashLegacy => "hash legacy",
        MigrationActionOf::HashStaging => "hash staging",
        MigrationActionOf::CreateStaging => "create staging",
        MigrationActionOf::CheckTarget => "check target",
        MigrationActionOf::RemoveEmptyTarget => "remove empty target",
        MigrationActionOf::Activate => "activate",
        MigrationActionOf::RewritePaths => "rewrite paths",
        MigrationActionOf::RemoveTarget => "remove target",
        MigrationActionOf::EnsureLayout => "ensure layout",
        MigrationActionOf::RemoveStaging => "remove staging",
        MigrationActionOf::Finish { .. } => "finish",
    }
}

fn begin() -> MigrationPlan {
    let status = migration_status("/tmp/home", &[legacy_skill()], None, true, false);
    migration_begin("/tmp/home", &status, 1_700_000_000).unwrap().unwrap().0
}

fn run(events: Vec<MigrationEvent>) -> (Vec<&'static str>, Option<Result<(), String>>) {
    let status = migration_status("/tmp/home", &[legacy_skill()], None, true, false);
    let (_, mut state, _) = migration_begin("/tmp/home", &status, 1).unwrap().unwrap();
    let mut names = Vec::new();
    let mut outcome = None;
    for event in events {
        let (next, action) = migration_step(state, event);
        names.push(name_of(&action));
        if let MigrationActionOf::Finish { outcome: o } = action {
            outcome = Some(o);
        }
        state = next;
    }
    (names, outcome)
}

fn hash(value: &str) -> MigrationEvent {
    MigrationEvent::Hash { value: value.to_string() }
}

#[test]
fn migration_copies_verifies_backs_up_and_rewrites_paths() {
    let plan = begin();
    assert!(plan.migration_id.starts_with("1700000000-"));
    assert_eq!(plan.migration_id.len(), "1700000000-".len() + 36);
    assert_eq!(plan.legacy, "/tmp/home/.skillshub");
    assert_eq!(plan.extensions, "/tmp/home/.pilothub/extensions");
    assert_eq!(
        plan.backup_extensions,
        format!("/tmp/home/.pilothub/backups/{}/skillshub", plan.migration_id)
    );
    assert_eq!(
        plan.staging,
        format!("/tmp/home/.pilothub/.extensions-migration-{}", plan.migration_id)
    );

    let (names, outcome) = run(vec![
        MigrationEvent::Done,
        MigrationEvent::Exists { exists: true },
        MigrationEvent::Done,
        MigrationEvent::Done,
        hash("h1"),
        hash("h1"),
        MigrationEvent::Target { exists: true, has_entries: false },
        MigrationEvent::Done,
        MigrationEvent::Done,
        MigrationEvent::Done,
        MigrationEvent::Done,
    ]);
    assert_eq!(
        names,
        vec![
            "check legacy",
            "backup",
            "copy",
            "hash legacy",
            "hash staging",
            "check target",
            "remove empty target",
            "activate",
            "rewrite paths",
            "ensure layout",
            "finish"
        ]
    );
    assert_eq!(outcome, Some(Ok(())));
}

#[test]
fn migration_rejects_non_empty_target_without_changing_legacy() {
    let (names, outcome) = run(vec![
        MigrationEvent::Done,
        MigrationEvent::Exists { exists: true },
        MigrationEvent::Done,
        MigrationEvent::Done,
        hash("h1"),
        hash("h1"),
        MigrationEvent::Target { exists: true, has_entries: true },
        MigrationEvent::Done,
    ]);
    assert_eq!(names[6..], ["remove staging", "finish"]);
    assert_eq!(
        outcome,
        Some(Err("MIGRATION_CONFLICT|target_not_empty".to_string()))
    );
    let status = migration_status("/tmp/home", &[], None, true, true);
    assert_eq!(
        migration_begin("/tmp/home", &status, 1).unwrap_err(),
        MigrationError::TargetNotEmpty
    );
}

#[test]
fn a_copy_with_another_hash_is_not_activated() {
    let (names, outcome) = run(vec![
        MigrationEvent::Done,
        MigrationEvent::Exists { exists: true },
        MigrationEvent::Done,
        MigrationEvent::Done,
        hash("h1"),
        hash("h2"),
        MigrationEvent::Done,
    ]);
    assert_eq!(names[5..], ["remove staging", "finish"]);
    assert_eq!(
        outcome,
        Some(Err("MIGRATION_VERIFY_FAILED|content_hash_mismatch".to_string()))
    );
}

#[test]
fn a_failed_path_rewrite_removes_the_moved_copy() {
    let (names, outcome) = run(vec![
        MigrationEvent::Done,
        MigrationEvent::Exists { exists: false },
        MigrationEvent::Done,
        MigrationEvent::Target { exists: false, has_entries: false },
        MigrationEvent::Done,
        MigrationEvent::Failed { error: "database is locked".to_string() },
        MigrationEvent::Done,
    ]);
    assert_eq!(
        names,
        vec![
            "check legacy",
            "create staging",
            "check target",
            "activate",
            "rewrite paths",
            "remove target",
            "finish"
        ]
    );
    assert_eq!(
        outcome,
        Some(Err("update migrated storage paths: database is locked".to_string()))
    );
}

#[test]
fn nothing_is_planned_without_legacy_data() {
    let status = migration_status("/tmp/home", &[], None, false, false);
    assert!(migration_begin("/tmp/home", &status, 1).unwrap().is_none());
}
