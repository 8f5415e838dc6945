use pilothub::package_managers::runtime::{ArchiveFormat, RuntimeError};
use pilothub::package_managers::runtime_install::{
    apm_install_begin, apm_install_step, ApmActionOf, ApmInstallPlan, RuntimeEvent,
};

const ARCHIVE: &[u8] = b"abc";
const ARCHIVE_SHA256: &str = "ba7816bf8f01cfea414140de5dae2223b00361a396177a9cb410ff61f20015ad";

fn begin(name: &str) -> (ApmInstallPlan, Vec<&'static str>) {
    let (plan, _, action) = apm_install_begin(
        "v1.2.3",
        name,
        ARCHIVE,
        &format!("{ARCHIVE_SHA256}  {name}"),
        "/tmp/apm",
        "apm",
    )
    .unwrap();
    (plan, vec![name_of(&action)])
}

fn name_of<S, R>(action: &ApmActionOf<S, R>) -> &'static str {
    match action {
        ApmActionOf::CreateRoot => "create root",
        ApmActionOf::CheckInstallDir => "check release",
        ApmActionOf::FindInstalledBinary => "find installed",
        ApmActionOf::CreateStaging => "create staging",
        ApmActionOf::Extract { format: ArchiveFormat::TarGz } => "extract tar.gz",
        ApmActionOf::Extract { format: ArchiveFormat::Zip } => "extract zip",
        ApmActionOf::FindStagedBinary => "find staged",
        ApmActionOf::ActivateRuntime => "activate",
        ApmActionOf::WriteMarker => "write marker",
        ApmActionOf::RemoveStaging => "remove staging",
        ApmActionOf::Finish { .. } => "finish",
    }
}

fn run(
    plan: &ApmInstallPlan,
    events: Vec<RuntimeEvent>,
) -> (Vec<&'static str>, Option<Result<(String, String), String>>) {
    let (_, mut state, _) =
        apm_install_begin("v1.2.3", &plan.archive_name, ARCHIVE, ARCHIVE_SHA256, "/tmp/apm", "apm")
            .unwrap();
    let mut names = Vec::new();
    let mut outcome = None;
    for event in events {
        let (next, action) = apm_install_step(plan, state, event);
        names.push(name_of(&action));
        if let ApmActionOf::Finish { outcome: o } = action {
            outcome = Some(o.map(|r| (r.version, r.binary_path)));
        }
        state = next;
    }
    (names, outcome)
}

#[test]
fn a_new_release_is_extracted_in_staging_then_activated() {
    let (plan, first) = begin("apm-linux-x86_64.tar.gz");
    assert_eq!(first, vec!["create root"]);
    assert_eq!(plan.install_dir, "/tmp/apm/v1.2.3");
    assert_eq!(plan.staging, format!("/tmp/apm/.staging-{}", plan.staging_id));
    let staged_binary = format!("{}/apm-linux-x86_64/apm", plan.staging);

    let (names, outcome) = run(
        &plan,
        vec![
            RuntimeEvent::Done,
            RuntimeEvent::Exists { exists: false },
            RuntimeEvent::Done,
            RuntimeEvent::Done,
            RuntimeEvent::Binary {
                path: Some(staged_binary),
            },
            RuntimeEvent::Done,
            RuntimeEvent::Done,
        ],
    );

    assert_eq!(
        names,
        vec![
            "check release",
            "create staging",
            "extract tar.gz",
            "find staged",
            "activate",
            "write marker",
            "finish"
        ]
    );
    assert_eq!(
        outcome,
        Some(Ok((
            "v1.2.3".to_string(),
            "/tmp/apm/v1.2.3/apm-linux-x86_64/apm".to_string()
        )))
    );
}

#[test]
fn an_unpacked_release_is_reused() {
    let (plan, _) = begin("apm-windows-x86_64.zip");
    let (names, outcome) = run(
        &plan,
        vec![
            RuntimeEvent::Done,
            RuntimeEvent::Exists { exists: true },
            RuntimeEvent::Binary {
                path: Some("/tmp/apm/v1.2.3/bin/apm".to_string()),
            },
            RuntimeEvent::Done,
        ],
    );
    assert_eq!(
        names,
        vec!["check release", "find installed", "write marker", "finish"]
    );
    assert_eq!(
        outcome,
        Some(Ok(("v1.2.3".to_string(), "/tmp/apm/v1.2.3/bin/apm".to_string())))
    );
}

#[test]
fn a_failed_extraction_removes_the_staging_directory() {
    let (plan, _) = begin("apm-windows-x86_64.zip");
    let (names, outcome) = run(
        &plan,
        vec![
            RuntimeEvent::Done,
            RuntimeEvent::Exists { exists: false },
            RuntimeEvent::Done,
            RuntimeEvent::Failed {
                error: "Microsoft APM zip entry escaped destination".to_string(),
            },
            RuntimeEvent::Done,
        ],
    );
    assert_eq!(
        names,
        vec![
            "check release",
            "create staging",
            "extract zip",
            "remove staging",
            "finish"
        ]
    );
    assert_eq!(
        outcome,
        Some(Err("Microsoft APM zip entry escaped destination".to_string()))
    );
}

#[test]
fn a_missing_binary_or_unknown_format_is_refused() {
    let (plan, _) = begin("apm-linux-x86_64.tar.gz");
    let (names, outcome) = run(
        &plan,
        vec![
            RuntimeEvent::Done,
            RuntimeEvent::Exists { exists: false },
            RuntimeEvent::Done,
            RuntimeEvent::Done,
            RuntimeEvent::Binary { path: None },
            RuntimeEvent::Done,
        ],
    );
    assert_eq!(names[4..], ["remove staging", "finish"]);
    assert_eq!(
        outcome,
        Some(Err("Microsoft APM archive does not contain apm".to_string()))
    );

    let (plan, _) = begin("apm.rar");
    let (names, outcome) = run(
        &plan,
        vec![
            RuntimeEvent::Done,
            RuntimeEvent::Exists { exists: false },
            RuntimeEvent::Done,
            RuntimeEvent::Done,
        ],
    );
    assert_eq!(names[2..], ["remove staging", "finish"]);
    assert_eq!(
        outcome,
        Some(Err("unsupported Microsoft APM archive format: apm.rar".to_string()))
    );
}

#[test]
fn mismatched_archives_and_bad_versions_are_refused_before_any_step() {
    assert_eq!(
        apm_install_begin("v1", "a.zip", ARCHIVE, "deadbeef a.zip", "/tmp/apm", "apm").unwrap_err(),
        RuntimeError::ChecksumMismatch
    );
    assert_eq!(
        apm_install_begin("v1", "a.zip", ARCHIVE, "  ", "/tmp/apm", "apm").unwrap_err(),
        RuntimeError::EmptyChecksum
    );
    assert_eq!(
        apm_install_begin("../v1", "a.zip", ARCHIVE, ARCHIVE_SHA256, "/tmp/apm", "apm")
            .unwrap_err(),
        RuntimeError::InvalidVersion
    );
    assert!(apm_install_begin(
        "v1",
        "a.zip",
        ARCHIVE,
        &ARCHIVE_SHA256.to_uppercase(),
        "/tmp/apm",
        "apm"
    )
    .is_ok());
}
