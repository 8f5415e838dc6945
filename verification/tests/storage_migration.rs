use pilothub::skills::SkillRecord;
use pilothub::storage_migration::{
    migration_decision, migration_paths, migration_status, verify_migrated_copy,
    MigrationError, StorageLayout,
};

fn make_skill(id: &str, central_path: &str) -> SkillRecord {
    SkillRecord {
        id: id.to_string(),
        name: id.to_string(),
        description: None,
        source_type: "local".to_string(),
        source_ref: None,
        source_subpath: None,
        source_revision: None,
        central_path: central_path.to_string(),
        content_hash: None,
        created_at: 1,
        updated_at: 1,
        last_sync_at: None,
        last_seen_at: 1,
        enabled: true,
        status: "ok".to_string(),
    }
}

#[test]
fn status_is_not_required_without_legacy_data() {
    let status = migration_status("/tmp/home", &[], None, false, false);
    assert!(!status.required);
}

#[test]
fn legacy_records_or_content_require_migration_unless_target_is_selected() {
    let skills = vec![make_skill("example", "/tmp/home/.skillshub/example")];
    let status = migration_status("/tmp/home", &skills, None, false, false);
    assert!(status.required);
    assert_eq!(status.legacy_path, "/tmp/home/.skillshub");
    assert_eq!(status.target_path, "/tmp/home/.pilothub/extensions");
    assert_eq!(status.backup_root, "/tmp/home/.pilothub/backups");
    assert_eq!(status.reason, None);
    assert_eq!(migration_decision(&status), Ok(true));

    let selected = migration_status(
        "/tmp/home",
        &skills,
        Some("/tmp/home/.pilothub/extensions/".to_string()),
        true,
        false,
    );
    assert!(!selected.required);
    assert_eq!(migration_decision(&selected), Ok(false));

    let elsewhere = vec![make_skill("other", "/tmp/home/.skillshub-other/x")];
    assert!(!migration_status("/tmp/home", &elsewhere, None, false, false).required);
    assert!(migration_status("/tmp/home", &elsewhere, None, true, false).required);
}

#[test]
fn non_empty_target_refuses_migration() {
    let status = migration_status("/tmp/home", &[], None, true, true);
    assert_eq!(status.reason.as_deref(), Some("TARGET_NOT_EMPTY"));
    let error = migration_decision(&status).unwrap_err();
    assert_eq!(error, MigrationError::TargetNotEmpty);
    assert_eq!(error.to_string(), "MIGRATION_CONFLICT|target_not_empty");
}

#[test]
fn migration_paths_and_copy_verification() {
    let layout = StorageLayout::from_home("/tmp/home");
    let (backup, backup_extensions, staging) = migration_paths(&layout, "m1");
    assert_eq!(backup, "/tmp/home/.pilothub/backups/m1");
    assert_eq!(backup_extensions, "/tmp/home/.pilothub/backups/m1/skillshub");
    assert_eq!(staging, "/tmp/home/.pilothub/.extensions-migration-m1");
    assert!(verify_migrated_copy("abc", "abc").is_ok());
    assert_eq!(
        verify_migrated_copy("abc", "abd").unwrap_err().to_string(),
        "MIGRATION_VERIFY_FAILED|content_hash_mismatch"
    );
}
