use pilothub::package_managers::apm::{
    github_skill_package_reference, uninstall_failure_message, uninstall_project_command,
    ApmAdapter,
};
use pilothub::package_managers::{
    CommandOutcome, PackageManager, PackageManagerContext, PackageManagerScope,
};

fn context(scope: PackageManagerScope) -> PackageManagerContext {
    PackageManagerContext {
        working_dir: "/tmp/project".to_string(),
        scope,
        targets: Vec::new(),
    }
}

#[test]
fn install_builds_project_command_with_targets() {
    let adapter = ApmAdapter::default();
    let mut context = context(PackageManagerScope::Project);
    context.targets = vec!["codex".to_string(), "cursor".to_string()];

    let command = adapter
        .install("microsoft/apm-sample-package", &context)
        .unwrap();

    assert_eq!(command.program, "apm");
    assert_eq!(
        command.args,
        [
            "install",
            "microsoft/apm-sample-package",
            "--target",
            "codex,cursor"
        ]
    );
    assert_eq!(command.working_dir, "/tmp/project");
}

#[test]
fn global_commands_include_global_flag() {
    let adapter = ApmAdapter::default();
    let context = context(PackageManagerScope::Global);

    assert_eq!(
        adapter
            .uninstall("microsoft/apm-sample-package", &context)
            .unwrap()
            .args,
        ["uninstall", "microsoft/apm-sample-package", "--global"]
    );
    assert_eq!(adapter.list(&context).unwrap().args, ["list", "--global"]);
}

#[test]
fn uninstall_builds_project_command_without_global_flag() {
    let adapter = ApmAdapter::default();
    let context = context(PackageManagerScope::Project);

    assert_eq!(
        adapter
            .uninstall("microsoft/apm-sample-package", &context)
            .unwrap()
            .args,
        ["uninstall", "microsoft/apm-sample-package"]
    );
}

#[test]
fn builds_github_skill_package_reference() {
    assert_eq!(
        github_skill_package_reference(
            "https://github.com/JimLiu/baoyu-skills.git",
            "skills/baoyu-cover-image",
        )
        .unwrap(),
        "JimLiu/baoyu-skills/skills/baoyu-cover-image"
    );
}

#[test]
fn rejects_unsafe_or_non_root_github_package_references() {
    assert!(github_skill_package_reference(
        "https://github.com/JimLiu/baoyu-skills/tree/main",
        "skills/baoyu-cover-image",
    )
    .is_err());
    assert!(github_skill_package_reference(
        "https://github.com/JimLiu/baoyu-skills",
        "../baoyu-cover-image",
    )
    .is_err());
}

#[test]
fn update_requires_explicit_consent_flag() {
    let adapter = ApmAdapter::default();
    let context = context(PackageManagerScope::Project);

    assert_eq!(
        adapter.update(None, false, &context).unwrap().args,
        ["update"]
    );
    assert_eq!(
        adapter
            .update(Some("microsoft/apm"), true, &context)
            .unwrap()
            .args,
        ["update", "microsoft/apm", "--yes"]
    );
}

#[test]
fn empty_package_reference_is_rejected() {
    let adapter = ApmAdapter::default();
    let error = adapter
        .install("  ", &context(PackageManagerScope::Project))
        .unwrap_err();
    assert!(error.to_string().contains("cannot be empty"));
}

#[test]
fn unavailable_binary_is_reported_without_running_an_operation() {
    let adapter = ApmAdapter::new("pilothub-missing-apm-test-binary");
    assert_eq!(adapter.binary(), "pilothub-missing-apm-test-binary");
    let availability = adapter.availability(&CommandOutcome::NotStarted {
        error: "No such file or directory (os error 2)".to_string(),
    });
    assert!(!availability.available);
    assert!(availability.version.is_none());
    assert!(availability.message.is_some());
}

#[test]
fn project_uninstall_runs_in_the_project_without_global_flag() {
    let adapter = ApmAdapter::new("apm");
    let command = uninstall_project_command(&adapter, "owner/repo", "/work/project").unwrap();
    assert_eq!(command.program, "apm");
    assert_eq!(command.args, vec!["uninstall".to_string(), "owner/repo".to_string()]);
    assert_eq!(command.working_dir, "/work/project");
    assert!(uninstall_project_command(&adapter, "  ", "/work/project").is_err());
}

#[test]
fn project_uninstall_failures_report_output_or_exit_code() {
    assert_eq!(
        uninstall_failure_message(" removed nothing \n", "\n package missing ", Some(1)),
        "Microsoft APM uninstall failed:\nremoved nothing\npackage missing"
    );
    assert_eq!(
        uninstall_failure_message("", "boom", Some(1)),
        "Microsoft APM uninstall failed:\nboom"
    );
    assert_eq!(
        uninstall_failure_message(" ", "", Some(2)),
        "Microsoft APM uninstall failed with exit code 2"
    );
    assert_eq!(
        uninstall_failure_message("", "", None),
        "Microsoft APM uninstall failed with exit code -1"
    );
    assert_eq!(
        uninstall_failure_message("", "", Some(i32::MIN)),
        "Microsoft APM uninstall failed with exit code -2147483648"
    );
}
