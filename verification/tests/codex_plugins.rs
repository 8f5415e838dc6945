use pilothub::codex_plugins::install::{
    codex_result, install_begin, install_plan, install_step, listed_entries, parent_path,
    uninstall_begin, uninstall_step, CodexBody, CodexOutput, CodexRead, InstallActionOf,
    InstallPlan, StepEvent, UninstallActionOf,
};
use pilothub::codex_plugins::repair::{check_preview, repair_step, RepairActionOf};
use pilothub::codex_plugins::manifest::{is_strict_semver, validate_plugin_name, PluginNameError};
use pilothub::codex_plugins::preview::{
    check_inside_root, plugin_preview, plugin_relative_candidate, relative_skill_dir,
    skills_location, source_folder_name, PluginInterface, PluginManifest, ScannedSkill,
    SkillScan,
};
use pilothub::codex_plugins::{
    check_marketplace_name, codex_failure_message, entries_to_keep, expand_home_path,
    git_source_cache_dir, managed_plugins, marketplace_entry, marketplace_plugin_names,
    marketplace_registered, migrate_legacy_launcher, plugin_source_kind, retain_other_entries, status_from_list, write_entry,
    unavailable_invocation_capability, CodexListEntry, CodexPluginAdapter, CodexPluginError,
    PluginInstallationStatus, PluginPreview, PluginSource, PluginSourceKind,
    PILOTHUB_MARKETPLACE_NAME,
};

fn local_source(root: &str) -> PluginSource {
    PluginSource {
        source_type: "local".to_string(),
        source_ref: root.to_string(),
    }
}

fn manifest(name: &str, version: &str, description: &str) -> PluginManifest {
    PluginManifest {
        name: name.to_string(),
        version: version.to_string(),
        description: description.to_string(),
        author: None,
        license: None,
        skills: Some("./skills/".to_string()),
        has_mcp_servers: false,
        has_apps: false,
        has_hooks: false,
        interface: None,
    }
}

fn scan(root: &str, skills: &[(&str, &str)]) -> SkillScan {
    SkillScan::Entries(
        skills
            .iter()
            .map(|(name, description)| ScannedSkill {
                skill_file: format!("{root}/./skills/{name}/SKILL.md"),
                skill_dir: format!("{root}/./skills/{name}"),
                parsed: Ok((name.to_string(), Some(description.to_string()))),
            })
            .collect(),
    )
}

fn sample_preview() -> PluginPreview {
    let root = "/tmp/work/sample-plugin";
    plugin_preview(
        root,
        local_source(root),
        manifest("sample-plugin", "1.0.0", "Sample"),
        &scan(
            root,
            &[
                ("sample-skill", "Run the sample workflow"),
                ("second-skill", "Run another workflow"),
            ],
        ),
    )
}

fn listing_entry(enabled: bool) -> CodexListEntry {
    CodexListEntry {
        name: Some("sample-plugin".to_string()),
        marketplace_name: Some(PILOTHUB_MARKETPLACE_NAME.to_string()),
        installed: Some(true),
        enabled: Some(enabled),
        version: Some("1.0.0".to_string()),
        installed_path: None,
    }
}

fn ok_output(body: CodexBody) -> CodexOutput {
    CodexOutput::Exited {
        success: true,
        stderr: String::new(),
        body: Ok(body),
    }
}

/// A directory tree and a Codex CLI, simulated: the managed Plugin
/// directory, its backup, the staged copy, the marketplace entries, and
/// what Codex has registered.
struct World {
    source: String,
    staged: Option<String>,
    staging: bool,
    target: Option<String>,
    backup: Option<String>,
    marketplace: Option<Vec<String>>,
    snapshot: Option<Option<Vec<String>>>,
    registered: bool,
    installed: bool,
    fail_install: bool,
    fail_list: bool,
    fail_write: bool,
    leave_installed_after_remove: bool,
    launcher: Option<&'static str>,
    calls: Vec<String>,
    actions: Vec<&'static str>,
}

impl World {
    fn new(source: &str) -> Self {
        World {
            source: source.to_string(),
            staged: None,
            staging: false,
            target: None,
            backup: None,
            marketplace: None,
            snapshot: None,
            registered: false,
            installed: false,
            fail_install: false,
            fail_list: false,
            fail_write: false,
            leave_installed_after_remove: false,
            launcher: None,
            calls: Vec::new(),
            actions: Vec::new(),
        }
    }

    fn codex(&mut self, args: &[String], reads: CodexRead) -> CodexOutput {
        let command = args.join(" ");
        self.calls.push(command.clone());
        if command == "plugin marketplace list --json" {
            assert_eq!(reads, CodexRead::Marketplaces);
            return ok_output(CodexBody::Marketplaces { names: Vec::new() });
        }
        if command.starts_with("plugin marketplace add ") {
            self.registered = true;
            return ok_output(CodexBody::Other);
        }
        if command.starts_with("plugin add ") {
            if self.fail_install {
                return CodexOutput::Exited {
                    success: false,
                    stderr: "simulated install failure".to_string(),
                    body: Err("EOF while parsing a value".to_string()),
                };
            }
            self.installed = true;
            return ok_output(CodexBody::Other);
        }
        if command.starts_with("plugin remove ") {
            if !self.leave_installed_after_remove {
                self.installed = false;
            }
            return ok_output(CodexBody::Other);
        }
        if command.starts_with("plugin marketplace remove ") {
            self.registered = false;
            return ok_output(CodexBody::Other);
        }
        if command == "plugin list --available --json" {
            assert_eq!(reads, CodexRead::Plugins);
            if self.fail_list {
                return CodexOutput::Exited {
                    success: false,
                    stderr: "simulated list failure".to_string(),
                    body: Err("EOF while parsing a value".to_string()),
                };
            }
            let entries = if self.installed {
                vec![CodexListEntry {
                    installed_path: Some("/tmp/sample-plugin".to_string()),
                    ..listing_entry(true)
                }]
            } else {
                Vec::new()
            };
            return ok_output(CodexBody::Plugins { entries });
        }
        panic!("unexpected Codex command: {command}");
    }

    fn install(&mut self, plan: &InstallPlan) -> Result<PluginInstallationStatus, String> {
        let (mut state, mut action) = install_begin();
        loop {
            self.actions.push(action_name(&action));
            let event = match action {
                InstallActionOf::CreateStaging => {
                    self.staging = true;
                    StepEvent::Done
                }
                InstallActionOf::CopyToStaging => {
                    self.staged = Some(self.source.clone());
                    StepEvent::Done
                }
                InstallActionOf::VerifyStaged => StepEvent::Done,
                InstallActionOf::CheckTarget => StepEvent::TargetExists {
                    exists: self.target.is_some(),
                },
                InstallActionOf::BackupTarget => {
                    self.backup = self.target.take();
                    StepEvent::Done
                }
                InstallActionOf::ActivateStaged => {
                    self.target = self.staged.take();
                    StepEvent::Done
                }
                InstallActionOf::SnapshotMarketplace => {
                    self.snapshot = Some(self.marketplace.clone());
                    StepEvent::Done
                }
                InstallActionOf::WriteMarketplaceEntry if self.fail_write => StepEvent::Failed {
                    error: "activate marketplace file: disk full".to_string(),
                },
                InstallActionOf::WriteMarketplaceEntry => {
                    let mut entries = self.marketplace.clone().unwrap_or_default();
                    entries.retain(|entry| entry != &plan.plugin_name);
                    entries.push(plan.plugin_name.clone());
                    self.marketplace = Some(entries);
                    StepEvent::Done
                }
                InstallActionOf::RunCodex { args, reads } => StepEvent::Codex {
                    output: self.codex(&args, reads),
                },
                InstallActionOf::RemoveTarget => {
                    self.target = None;
                    StepEvent::Done
                }
                InstallActionOf::RestoreBackup => {
                    if let Some(previous) = self.backup.take() {
                        self.target = Some(previous);
                    }
                    StepEvent::Done
                }
                InstallActionOf::RemoveBackup => {
                    self.backup = None;
                    StepEvent::Done
                }
                InstallActionOf::RestoreMarketplace => {
                    self.marketplace = self.snapshot.take().unwrap();
                    StepEvent::Done
                }
                InstallActionOf::RemoveStaging => {
                    self.staging = false;
                    self.staged = None;
                    StepEvent::Done
                }
                InstallActionOf::Finish { outcome } => return outcome,
            };
            let next = install_step(plan, state, event);
            state = next.0;
            action = next.1;
        }
    }

    fn uninstall(&mut self, plugin_name: &str) -> Result<(), String> {
        let (mut state, mut action) = uninstall_begin(plugin_name).map_err(|e| e.to_string())?;
        loop {
            let event = match action {
                UninstallActionOf::RunCodex { args, reads } => StepEvent::Codex {
                    output: self.codex(&args, reads),
                },
                UninstallActionOf::RemoveMarketplaceEntry => {
                    if let Some(entries) = self.marketplace.as_mut() {
                        entries.retain(|entry| entry != plugin_name);
                    }
                    StepEvent::Done
                }
                UninstallActionOf::RemovePluginDir => {
                    self.target = None;
                    StepEvent::Done
                }
                UninstallActionOf::RemoveOwnedLauncher => {
                    if self.launcher == Some("owned") {
                        self.launcher = None;
                    }
                    StepEvent::Done
                }
                UninstallActionOf::CheckResidue => StepEvent::Residue {
                    plugin_files: self.target.is_some(),
                    marketplace_entry: self
                        .marketplace
                        .as_ref()
                        .is_some_and(|entries| entries.iter().any(|entry| entry == plugin_name)),
                    launcher: self.launcher == Some("owned"),
                },
                UninstallActionOf::Finish { outcome } => return outcome,
            };
            let next = uninstall_step(plugin_name, state, event);
            state = next.0;
            action = next.1;
        }
    }
}

impl World {
    fn repair(
        &mut self,
        adapter: &CodexPluginAdapter,
        plugin_name: &str,
    ) -> Result<PluginInstallationStatus, String> {
        let (mut state, mut action) = adapter.repair(plugin_name).map_err(|e| e.to_string())?;
        loop {
            let event = match action {
                RepairActionOf::VerifyPlugin => match &self.target {
                    Some(_) => StepEvent::Done,
                    None => StepEvent::Failed {
                        error: "read Plugin manifest".to_string(),
                    },
                },
                RepairActionOf::WriteMarketplaceEntry => {
                    let mut entries = self.marketplace.clone().unwrap_or_default();
                    entries.retain(|entry| entry != plugin_name);
                    entries.push(plugin_name.to_string());
                    self.marketplace = Some(entries);
                    StepEvent::Done
                }
                RepairActionOf::RunCodex { args, reads } => StepEvent::Codex {
                    output: self.codex(&args, reads),
                },
                RepairActionOf::CheckOwnedLauncher => StepEvent::TargetExists {
                    exists: self.launcher == Some("owned"),
                },
                RepairActionOf::RemoveOwnedLauncher => {
                    self.launcher = None;
                    StepEvent::Done
                }
                RepairActionOf::Finish { outcome } => return outcome,
            };
            let next = repair_step(adapter, plugin_name, state, event);
            state = next.0;
            action = next.1;
        }
    }
}

fn action_name<S, L, T>(action: &InstallActionOf<S, L, T>) -> &'static str {
    match action {
        InstallActionOf::CreateStaging => "create staging",
        InstallActionOf::CopyToStaging => "copy",
        InstallActionOf::VerifyStaged => "verify",
        InstallActionOf::CheckTarget => "check target",
        InstallActionOf::BackupTarget => "backup",
        InstallActionOf::ActivateStaged => "activate",
        InstallActionOf::SnapshotMarketplace => "snapshot",
        InstallActionOf::WriteMarketplaceEntry => "write entry",
        InstallActionOf::RunCodex { .. } => "codex",
        InstallActionOf::RemoveTarget => "remove target",
        InstallActionOf::RestoreBackup => "restore backup",
        InstallActionOf::RemoveBackup => "remove backup",
        InstallActionOf::RestoreMarketplace => "restore marketplace",
        InstallActionOf::RemoveStaging => "remove staging",
        InstallActionOf::Finish { .. } => "finish",
    }
}

fn adapter() -> CodexPluginAdapter {
    CodexPluginAdapter::from_home("/tmp/home")
}

#[test]
fn inspects_a_valid_skill_only_plugin() {
    let root = "/tmp/work/content-team";
    let mut m = manifest("content-team", "0.1.0", "Create a complete content package");
    m.author = Some("PilotHub".to_string());
    m.license = Some("MIT".to_string());
    m.interface = Some(PluginInterface {
        display_name: Some("Content Team".to_string()),
        capabilities: Some(vec!["Writing".to_string(), "Images".to_string()]),
        default_prompt: Some(vec!["Create a launch article".to_string()]),
    });

    let preview = plugin_preview(
        root,
        local_source(root),
        m,
        &scan(
            root,
            &[
                ("article-writer", "Write the article"),
                ("cover-image", "Create the cover"),
            ],
        ),
    );

    assert!(preview.validation.valid);
    assert_eq!(preview.descriptor.name, "content-team");
    assert_eq!(preview.descriptor.display_name, "Content Team");
    assert_eq!(preview.descriptor.skills.len(), 2);
    assert_eq!(preview.descriptor.default_prompts.len(), 1);
}

#[test]
fn rejects_components_outside_the_alpha_scope() {
    let root = "/tmp/work/connected-team";
    let mut m = manifest("connected-team", "1.0.0", "Uses unsupported components");
    m.has_mcp_servers = true;

    let preview = plugin_preview(
        root,
        local_source(root),
        m,
        &scan(root, &[("researcher", "Research a topic")]),
    );

    assert!(!preview.validation.valid);
    assert!(preview
        .validation
        .errors
        .iter()
        .any(|item| item.code == "unsupported_components"));
}

#[test]
fn validates_git_plugins_against_the_repository_name_not_the_cache_folder() {
    let root = "/tmp/work/hashed-cache-folder";
    let source = PluginSource {
        source_type: "git".to_string(),
        source_ref: "https://github.com/example/content-team.git".to_string(),
    };

    let preview = plugin_preview(
        root,
        source,
        manifest("content-team", "1.0.0", "Content workflows"),
        &scan(root, &[("writer", "Write content")]),
    );

    assert!(preview.validation.valid);
}

#[test]
fn rejects_plugin_paths_that_escape_the_root() {
    let root = "/tmp/work/unsafe-plugin";
    let mut m = manifest("unsafe-plugin", "1.0.0", "Unsafe path");
    m.skills = Some("../skills/".to_string());

    let error = plugin_relative_candidate(root, &skills_location(&m)).unwrap_err();

    assert!(error.to_string().contains("inside the Plugin root"));
}

#[test]
fn writes_a_valid_pilothub_marketplace_entry() {
    let preview = sample_preview();

    let entry = marketplace_entry(&preview.descriptor.name);

    assert!(check_marketplace_name(&Some(PILOTHUB_MARKETPLACE_NAME.to_string())).is_ok());
    assert_eq!(entry.name, "sample-plugin");
    assert_eq!(entry.source, "local");
    assert_eq!(entry.path, "./plugins/sample-plugin");
    assert_eq!(entry.installation, "AVAILABLE");
    assert_eq!(entry.authentication, "ON_INSTALL");
    assert_eq!(entry.category, "Productivity");
}

#[test]
fn installs_diagnoses_and_uninstalls_as_one_plugin() {
    let adapter = adapter();
    let preview = sample_preview();
    let plan = install_plan(&adapter, &preview).unwrap();
    let mut world = World::new("sample-plugin 1.0.0");

    let status = world.install(&plan).unwrap();

    assert!(status.installed);
    assert_eq!(preview.descriptor.skills.len(), 2);
    assert_eq!(world.target.as_deref(), Some("sample-plugin 1.0.0"));
    assert!(!world.staging);
    let listing = listed_entries(world.codex(
        &["plugin", "list", "--available", "--json"].map(str::to_string),
        CodexRead::Plugins,
    ));
    let installed = managed_plugins(
        vec![("sample-plugin".to_string(), preview.descriptor.clone())],
        &listing,
    );
    assert_eq!(installed.len(), 1);
    assert_eq!(installed[0].status.health, "healthy");
    assert!(installed[0].status.invocation.native_registration);
    assert!(installed[0].status.invocation.native_discovery);
    assert!(installed[0].status.invocation.native_invocation);
    assert_eq!(installed[0].status.invocation.mode, "native");
    assert_eq!(installed[0].status.invocation.verification, "verified");
    assert!(!installed[0].status.catalog.visible);
    assert_eq!(
        adapter.doctor(installed.clone(), "sample-plugin").unwrap(),
        installed[0].status
    );

    world.uninstall("sample-plugin").unwrap();

    assert!(world.calls.contains(&"plugin remove sample-plugin@pilothub-local --json".to_string()));
    assert!(world.target.is_none());
    assert!(!world.installed);
    assert!(world.launcher.is_none());
    assert_eq!(world.marketplace.as_ref().unwrap().len(), 0);
}

#[test]
fn uninstall_reports_a_codex_registration_residue() {
    let adapter = adapter();
    let plan = install_plan(&adapter, &sample_preview()).unwrap();
    let mut world = World::new("sample-plugin 1.0.0");
    world.leave_installed_after_remove = true;
    world.install(&plan).unwrap();

    let error = world.uninstall("sample-plugin").unwrap_err();

    assert!(error.contains("PLUGIN_UNINSTALL_INCOMPLETE"));
    assert_eq!(error, "PLUGIN_UNINSTALL_INCOMPLETE|codex_registration");
}

#[test]
fn uninstall_names_every_part_left_behind() {
    let mut world = World::new("sample-plugin 1.0.0");
    world.installed = true;
    world.leave_installed_after_remove = true;
    world.launcher = Some("owned");
    world.marketplace = Some(vec!["sample-plugin".to_string()]);
    let plugin = "sample-plugin";
    let (mut state, mut action) = uninstall_begin(plugin).unwrap();
    let mut seen = Vec::new();
    loop {
        let event = match action {
            UninstallActionOf::RunCodex { args, reads } => StepEvent::Codex {
                output: world.codex(&args, reads),
            },
            UninstallActionOf::CheckResidue => StepEvent::Residue {
                plugin_files: true,
                marketplace_entry: true,
                launcher: true,
            },
            UninstallActionOf::Finish { outcome } => {
                assert_eq!(
                    outcome.unwrap_err(),
                    "PLUGIN_UNINSTALL_INCOMPLETE|codex_registration, plugin_files, marketplace_entry, launcher"
                );
                break;
            }
            other => {
                seen.push(format!("{other:?}"));
                StepEvent::Done
            }
        };
        let next = uninstall_step(plugin, state, event);
        state = next.0;
        action = next.1;
    }
    assert_eq!(seen, vec!["RemoveMarketplaceEntry", "RemovePluginDir", "RemoveOwnedLauncher"]);
}

#[test]
fn uninstall_leaves_a_launcher_the_user_made() {
    let mut world = World::new("sample-plugin 1.0.0");
    world.target = Some("sample-plugin 1.0.0".to_string());
    world.launcher = Some("user");
    world.uninstall("sample-plugin").unwrap();
    assert_eq!(world.launcher, Some("user"));
    let mut owned = World::new("sample-plugin 1.0.0");
    owned.launcher = Some("owned");
    owned.uninstall("sample-plugin").unwrap();
    assert!(owned.launcher.is_none());
}

#[test]
fn enabled_plugin_uses_verified_native_invocation() {
    let status = status_from_list(&[listing_entry(true)], "sample-plugin").unwrap();

    assert!(status.invocation.native_registration);
    assert!(status.invocation.native_discovery);
    assert!(status.invocation.native_invocation);
    assert_eq!(status.invocation.mode, "native");
    assert_eq!(status.invocation.verification, "verified");
}

#[test]
fn disabled_plugin_fails_native_discovery_detection() {
    let status = status_from_list(&[listing_entry(false)], "sample-plugin").unwrap();

    assert!(status.invocation.native_registration);
    assert!(!status.invocation.native_discovery);
    assert!(!status.invocation.native_invocation);
    assert_eq!(status.invocation.mode, "unavailable");
    assert_eq!(status.invocation.verification, "failed");
}

#[test]
fn missing_plugin_has_no_native_invocation_capability() {
    assert!(status_from_list(&[], "sample-plugin").is_none());

    let capability =
        unavailable_invocation_capability("Codex does not report this Plugin as installed");
    assert!(!capability.native_registration);
    assert!(!capability.native_discovery);
    assert!(!capability.native_invocation);
    assert_eq!(capability.mode, "unavailable");
    assert_eq!(capability.verification, "failed");
}

#[test]
fn cli_list_failure_reports_no_native_invocation_capability() {
    let adapter = adapter();
    let preview = sample_preview();
    let plan = install_plan(&adapter, &preview).unwrap();
    let mut world = World::new("sample-plugin 1.0.0");
    world.install(&plan).unwrap();
    world.fail_list = true;

    let listing = listed_entries(world.codex(
        &["plugin", "list", "--available", "--json"].map(str::to_string),
        CodexRead::Plugins,
    ));
    let installed = managed_plugins(
        vec![("sample-plugin".to_string(), preview.descriptor.clone())],
        &listing,
    );

    assert_eq!(installed.len(), 1);
    assert_eq!(installed[0].status.health, "error");
    assert!(!installed[0].status.invocation.native_registration);
    assert!(!installed[0].status.invocation.native_discovery);
    assert!(!installed[0].status.invocation.native_invocation);
    assert_eq!(installed[0].status.invocation.mode, "unavailable");
    assert_eq!(installed[0].status.invocation.verification, "failed");
}

#[test]
fn rolls_back_files_and_marketplace_when_codex_install_fails() {
    let adapter = adapter();
    let plan = install_plan(&adapter, &sample_preview()).unwrap();
    let mut world = World::new("sample-plugin 1.0.0");
    world.fail_install = true;

    let error = world.install(&plan).unwrap_err();

    assert!(error.contains("simulated install failure"));
    assert!(world.target.is_none());
    assert!(world.marketplace.is_none());
    assert!(world
        .calls
        .iter()
        .any(|command| command.starts_with("plugin marketplace remove ")));
    assert!(!world.registered);
    assert!(!world.staging);
}

#[test]
fn failed_native_update_preserves_the_previous_plugin() {
    let adapter = adapter();
    let plan = install_plan(&adapter, &sample_preview()).unwrap();
    let mut world = World::new("sample-plugin 1.0.0");
    world.install(&plan).unwrap();
    let original = world.target.clone().unwrap();

    let second = install_plan(&adapter, &sample_preview()).unwrap();
    world.source = "sample-plugin 2.0.0".to_string();
    world.installed = false;
    world.fail_install = true;
    let error = world.install(&second).unwrap_err();

    assert!(error.contains("simulated install failure"));
    assert_eq!(world.target.clone().unwrap(), original);
    assert_eq!(world.marketplace, Some(vec!["sample-plugin".to_string()]));
}

#[test]
fn invalid_previews_are_refused_before_installation() {
    let root = "/tmp/work/Bad_Name";
    let preview = plugin_preview(
        root,
        local_source(root),
        manifest("Bad_Name", "1.0", " "),
        &SkillScan::NotADirectory,
    );
    assert!(!preview.validation.valid);
    let codes: Vec<&str> = preview
        .validation
        .errors
        .iter()
        .map(|item| item.code.as_str())
        .collect();
    assert_eq!(
        codes,
        vec![
            "invalid_name",
            "invalid_version",
            "missing_description",
            "invalid_skills_path",
            "missing_skills"
        ]
    );
    let warnings: Vec<&str> = preview
        .validation
        .warnings
        .iter()
        .map(|item| item.code.as_str())
        .collect();
    assert_eq!(warnings, vec!["missing_author", "missing_license"]);

    let error = install_plan(&adapter(), &preview).unwrap_err();
    assert_eq!(
        error.to_string(),
        "PLUGIN_INVALID|Plugin name must use lower-case kebab-case; \
         Plugin version must use semantic versioning; Plugin description is required; \
         Configured skills directory does not exist; \
         Plugin must contain at least one valid SKILL.md"
    );
}

#[test]
fn skills_are_sorted_and_duplicates_and_unreadable_files_reported() {
    let root = "/tmp/work/sample-plugin";
    let entries = vec![
        ScannedSkill {
            skill_file: format!("{root}/skills/zeta/SKILL.md"),
            skill_dir: format!("{root}/skills/zeta"),
            parsed: Ok(("zeta".to_string(), None)),
        },
        ScannedSkill {
            skill_file: format!("{root}/skills/broken/SKILL.md"),
            skill_dir: format!("{root}/skills/broken"),
            parsed: Err("missing front matter".to_string()),
        },
        ScannedSkill {
            skill_file: format!("{root}/skills/alpha/SKILL.md"),
            skill_dir: format!("{root}/skills/alpha"),
            parsed: Ok(("alpha".to_string(), Some("First".to_string()))),
        },
        ScannedSkill {
            skill_file: format!("{root}/skills/again/SKILL.md"),
            skill_dir: format!("{root}/skills/again"),
            parsed: Ok(("zeta".to_string(), None)),
        },
    ];
    let mut m = manifest("sample-plugin", "1.0.0", "Sample");
    m.interface = Some(PluginInterface {
        display_name: None,
        capabilities: None,
        default_prompt: Some(vec!["a", "b", "c", "d"].into_iter().map(String::from).collect()),
    });

    let preview = plugin_preview(root, local_source(root), m, &SkillScan::Entries(entries));

    let names: Vec<&str> = preview.descriptor.skills.iter().map(|s| s.name.as_str()).collect();
    assert_eq!(names, vec!["alpha", "zeta"]);
    assert_eq!(preview.descriptor.skills[0].relative_path, "skills/alpha");
    assert_eq!(preview.descriptor.display_name, "sample-plugin");
    assert_eq!(preview.descriptor.default_prompts.len(), 3);
    assert_eq!(
        preview.descriptor.manifest_path,
        "/tmp/work/sample-plugin/.codex-plugin/plugin.json"
    );
    let errors: Vec<(&str, &str)> = preview
        .validation
        .errors
        .iter()
        .map(|item| (item.code.as_str(), item.message.as_str()))
        .collect();
    assert_eq!(
        errors,
        vec![
            (
                "invalid_skill",
                "/tmp/work/sample-plugin/skills/broken/SKILL.md: missing front matter"
            ),
            ("duplicate_skill", "Duplicate Skill name: zeta"),
        ]
    );
    assert!(preview
        .validation
        .warnings
        .iter()
        .any(|item| item.code == "prompt_limit"));
}

#[test]
fn plugin_names_and_versions_follow_the_manifest_rules() {
    assert!(validate_plugin_name("content-team").is_ok());
    assert_eq!(validate_plugin_name(""), Err(PluginNameError::Length));
    assert_eq!(validate_plugin_name(&"a".repeat(65)), Err(PluginNameError::Length));
    assert!(validate_plugin_name(&"a".repeat(64)).is_ok());
    for bad in ["-team", "team-", "content--team", "Content", "content_team"] {
        assert_eq!(validate_plugin_name(bad), Err(PluginNameError::NotKebabCase));
    }
    for good in ["0.1.0", "1.0.0-alpha.1", "1.0.0+build.5", "1.0.0-rc-1+001"] {
        assert!(is_strict_semver(good), "{good}");
    }
    for bad in ["", "1.0", "01.0.0", "1.0.0-01", "1.0.0+a+b", "1.0.0-", "1.a.0"] {
        assert!(!is_strict_semver(bad), "{bad}");
    }
}

#[test]
fn folder_names_come_from_the_repository_or_the_root() {
    let git = |r: &str| PluginSource {
        source_type: "git".to_string(),
        source_ref: r.to_string(),
    };
    assert_eq!(
        source_folder_name(&git("https://github.com/example/content-team.git?ref=main#x"), "/c"),
        Some("content-team".to_string())
    );
    assert_eq!(
        source_folder_name(&git("git@github.com:example/team-kit.git/"), "/c"),
        Some("team-kit".to_string())
    );
    assert_eq!(
        source_folder_name(&local_source("/a/b"), "/tmp/work/sample-plugin/"),
        Some("sample-plugin".to_string())
    );
    assert_eq!(source_folder_name(&local_source("/"), "/"), None);
}

#[test]
fn plugin_paths_stay_below_the_root() {
    assert_eq!(
        plugin_relative_candidate("/tmp/p", "./skills/").unwrap(),
        "/tmp/p/./skills/"
    );
    assert_eq!(
        plugin_relative_candidate("/tmp/p", "/etc").unwrap_err(),
        CodexPluginError::OutsideRoot
    );
    assert!(check_inside_root("/tmp/p", "/tmp/p/skills").is_ok());
    assert_eq!(
        check_inside_root("/tmp/p", "/tmp/pq/skills").unwrap_err(),
        CodexPluginError::OutsideRoot
    );
    assert_eq!(
        relative_skill_dir("/tmp/p", "/tmp/p/./skills/a\\b"),
        "skills/a/b"
    );
    assert_eq!(relative_skill_dir("/tmp/p", "/other/x"), "/other/x");
    assert_eq!(
        parent_path("/tmp/p/.codex-plugin/plugin.json").as_deref(),
        Some("/tmp/p/.codex-plugin")
    );
    assert_eq!(parent_path("/tmp").as_deref(), Some("/"));
    assert_eq!(parent_path("/"), None);
}

#[test]
fn install_plans_use_fresh_staging_and_backup_directories() {
    let adapter = adapter();
    let plan = install_plan(&adapter, &sample_preview()).unwrap();
    assert_eq!(plan.source_root, "/tmp/work/sample-plugin");
    assert_eq!(
        plan.target,
        "/tmp/home/.pilothub/codex/plugins/sample-plugin"
    );
    assert_eq!(plan.staging_id.len(), 36);
    assert_ne!(plan.staging_id, plan.backup_id);
    for id in [&plan.staging_id, &plan.backup_id] {
        for (i, c) in id.chars().enumerate() {
            if [8, 13, 18, 23].contains(&i) {
                assert_eq!(c, '-');
            } else {
                assert!(c.is_ascii_digit() || ('a'..='f').contains(&c), "{id}");
            }
        }
    }
    assert_eq!(
        plan.staging_root,
        format!("/tmp/home/.pilothub/cache/codex-staging/sample-plugin-{}", plan.staging_id)
    );
    assert_eq!(plan.staging_plugin, format!("{}/sample-plugin", plan.staging_root));
    assert_eq!(
        plan.backup,
        format!("/tmp/home/.pilothub/backups/codex-plugins/sample-plugin-{}", plan.backup_id)
    );
}

#[test]
fn codex_output_is_read_only_after_success() {
    assert_eq!(
        codex_result(CodexOutput::NotStarted {
            error: "Codex CLI was not found".to_string()
        })
        .unwrap_err(),
        "Codex CLI was not found"
    );
    assert_eq!(
        codex_result(CodexOutput::Exited {
            success: false,
            stderr: "  boom \n".to_string(),
            body: Ok(CodexBody::Other),
        })
        .unwrap_err(),
        "Codex command failed: boom"
    );
    assert_eq!(codex_failure_message("  "), "Codex command failed");
    assert_eq!(
        codex_result(CodexOutput::Exited {
            success: true,
            stderr: String::new(),
            body: Err("expected value".to_string()),
        })
        .unwrap_err(),
        "parse Codex JSON output: expected value"
    );
    assert!(listed_entries(CodexOutput::NotStarted {
        error: "x".to_string()
    })
    .is_empty());
}

#[test]
fn uninstall_refuses_invalid_names_and_skips_codex_when_not_listed() {
    assert!(matches!(
        uninstall_begin("../escape"),
        Err(CodexPluginError::InvalidName { .. })
    ));
    let mut world = World::new("sample-plugin 1.0.0");
    world.target = Some("sample-plugin 1.0.0".to_string());
    world.marketplace = Some(vec!["other".to_string(), "sample-plugin".to_string()]);

    world.uninstall("sample-plugin").unwrap();

    assert_eq!(
        world.calls,
        vec![
            "plugin list --available --json".to_string(),
            "plugin list --available --json".to_string()
        ]
    );
    assert!(world.target.is_none());
    assert_eq!(world.marketplace, Some(vec!["other".to_string()]));
}

#[test]
fn marketplace_names_and_registration_are_read_from_entries() {
    let names = vec![
        Some("a".to_string()),
        None,
        Some(PILOTHUB_MARKETPLACE_NAME.to_string()),
    ];
    assert_eq!(
        marketplace_plugin_names(&names),
        vec!["a".to_string(), PILOTHUB_MARKETPLACE_NAME.to_string()]
    );
    assert!(marketplace_registered(&names));
    assert!(!marketplace_registered(&names[..2]));
    assert_eq!(
        check_marketplace_name(&Some("other".to_string())).unwrap_err(),
        CodexPluginError::MarketplaceNameMismatch
    );
}

#[test]
fn sources_are_local_or_git() {
    assert_eq!(
        plugin_source_kind(&local_source("/x")).unwrap(),
        PluginSourceKind::Local
    );
    let err = plugin_source_kind(&PluginSource {
        source_type: "ftp".to_string(),
        source_ref: String::new(),
    })
    .unwrap_err();
    assert_eq!(err.to_string(), "unsupported Plugin source type: ftp");
    assert_eq!(
        expand_home_path(" ~/plugins/a ", Some("/home/u".to_string())).unwrap(),
        "/home/u/plugins/a"
    );
    assert_eq!(expand_home_path("~", Some("/home/u".to_string())).unwrap(), "/home/u");
    assert_eq!(
        expand_home_path("~", None).unwrap_err(),
        CodexPluginError::HomeUnavailable
    );
    assert_eq!(expand_home_path(" /abs ", None).unwrap(), "/abs");
    assert_eq!(
        git_source_cache_dir("/tmp/cache", "https://github.com/example/content-team.git"),
        "/tmp/cache/plugin-sources/d50450be223ff1f02508"
    );
}

#[test]
fn a_first_installation_runs_every_step_in_order() {
    let adapter = adapter();
    let (plan, _, _) = adapter.install(&sample_preview()).unwrap();
    let mut world = World::new("sample-plugin 1.0.0");

    let status = world.install(&plan).unwrap();

    assert_eq!(
        world.actions,
        vec![
            "create staging",
            "copy",
            "verify",
            "check target",
            "activate",
            "snapshot",
            "write entry",
            "codex",
            "codex",
            "codex",
            "codex",
            "remove staging",
            "finish"
        ]
    );
    assert_eq!(
        world.calls,
        vec![
            "plugin marketplace list --json".to_string(),
            format!("plugin marketplace add {} --json", plan.marketplace_root),
            "plugin add sample-plugin@pilothub-local --json".to_string(),
            "plugin list --available --json".to_string(),
        ]
    );
    assert_eq!(status.plugin_name, "sample-plugin");
    assert_eq!(status.marketplace_name, PILOTHUB_MARKETPLACE_NAME);
    assert_eq!(status.target, "codex");
    assert_eq!(status.version, "1.0.0");
    assert_eq!(status.installed_path.as_deref(), Some("/tmp/sample-plugin"));
    assert!(world.registered);
}

#[test]
fn a_successful_update_removes_the_previous_version() {
    let adapter = adapter();
    let plan = install_plan(&adapter, &sample_preview()).unwrap();
    let mut world = World::new("sample-plugin 1.0.0");
    world.install(&plan).unwrap();
    world.source = "sample-plugin 2.0.0".to_string();
    world.actions.clear();

    world.install(&install_plan(&adapter, &sample_preview()).unwrap()).unwrap();

    assert_eq!(world.target.as_deref(), Some("sample-plugin 2.0.0"));
    assert!(world.backup.is_none());
    assert_eq!(
        &world.actions[world.actions.len() - 3..],
        &["remove backup", "remove staging", "finish"]
    );
    assert!(world.actions.contains(&"backup"));
}

#[test]
fn a_failed_marketplace_write_restores_the_previous_version() {
    let adapter = adapter();
    let plan = install_plan(&adapter, &sample_preview()).unwrap();
    let mut world = World::new("sample-plugin 1.0.0");
    world.install(&plan).unwrap();
    world.source = "sample-plugin 2.0.0".to_string();
    world.fail_write = true;
    world.actions.clear();
    world.calls.clear();

    let error = world
        .install(&install_plan(&adapter, &sample_preview()).unwrap())
        .unwrap_err();

    assert_eq!(error, "activate marketplace file: disk full");
    assert_eq!(world.target.as_deref(), Some("sample-plugin 1.0.0"));
    assert!(world.calls.is_empty());
    assert_eq!(
        &world.actions[world.actions.len() - 5..],
        &["write entry", "remove target", "restore backup", "remove staging", "finish"]
    );
}

#[test]
fn a_failed_copy_only_removes_the_staging_directory() {
    let plan = install_plan(&adapter(), &sample_preview()).unwrap();
    let (state, _) = install_begin();
    let (state, action) = install_step(&plan, state, StepEvent::Done);
    assert!(matches!(action, InstallActionOf::CopyToStaging));
    let (state, action) = install_step(
        &plan,
        state,
        StepEvent::Failed {
            error: "permission denied".to_string(),
        },
    );
    assert!(matches!(action, InstallActionOf::RemoveStaging));
    let (_, action) = install_step(&plan, state, StepEvent::Done);
    match action {
        InstallActionOf::Finish { outcome } => {
            assert_eq!(
                outcome.unwrap_err(),
                "stage Codex Plugin files: permission denied"
            )
        }
        _ => panic!("expected the outcome"),
    }
}

#[test]
fn a_plugin_codex_does_not_list_after_adding_is_rolled_back() {
    let plan = install_plan(&adapter(), &sample_preview()).unwrap();
    let mut state = install_begin().0;
    for event in [
        StepEvent::Done,
        StepEvent::Done,
        StepEvent::Done,
        StepEvent::TargetExists { exists: false },
        StepEvent::Done,
        StepEvent::Done,
        StepEvent::Done,
        StepEvent::Codex {
            output: ok_output(CodexBody::Marketplaces {
                names: vec![Some(PILOTHUB_MARKETPLACE_NAME.to_string())],
            }),
        },
        StepEvent::Codex {
            output: ok_output(CodexBody::Other),
        },
    ] {
        state = install_step(&plan, state, event).0;
    }
    let (state, action) = install_step(
        &plan,
        state,
        StepEvent::Codex {
            output: ok_output(CodexBody::Plugins { entries: Vec::new() }),
        },
    );
    assert!(matches!(action, InstallActionOf::RemoveTarget));
    let (state, action) = install_step(&plan, state, StepEvent::Done);
    assert!(matches!(action, InstallActionOf::RestoreMarketplace));
    let (state, action) = install_step(&plan, state, StepEvent::Done);
    assert!(matches!(action, InstallActionOf::RemoveStaging));
    match install_step(&plan, state, StepEvent::Done).1 {
        InstallActionOf::Finish { outcome } => assert_eq!(
            outcome.unwrap_err(),
            "install Plugin with Codex: Codex did not report sample-plugin after installation"
        ),
        _ => panic!("expected the outcome"),
    }
}

#[test]
fn sources_are_prepared_from_local_paths_or_the_git_cache() {
    let adapter = adapter();
    assert_eq!(
        adapter
            .prepare_source(&local_source("~/plugins/x"), Some("/home/u".to_string()))
            .unwrap(),
        "/home/u/plugins/x"
    );
    assert_eq!(
        adapter
            .prepare_source(
                &PluginSource {
                    source_type: "git".to_string(),
                    source_ref: "https://github.com/example/content-team.git".to_string(),
                },
                None
            )
            .unwrap(),
        "/tmp/home/.pilothub/cache/plugin-sources/d50450be223ff1f02508"
    );
    assert!(matches!(
        adapter.prepare_source(
            &PluginSource {
                source_type: "zip".to_string(),
                source_ref: String::new(),
            },
            None
        ),
        Err(CodexPluginError::UnsupportedSourceType { .. })
    ));
}

#[test]
fn install_plans_refuse_a_name_that_is_not_a_plugin_name() {
    let adapter = adapter();
    let mut preview = sample_preview();
    preview.descriptor.name = "../escape".to_string();
    assert!(matches!(
        install_plan(&adapter, &preview),
        Err(CodexPluginError::InvalidName { .. })
    ));
}

#[test]
fn marketplace_writes_keep_exactly_one_entry_per_plugin() {
    let entries = vec![
        (Some("sample-plugin".to_string()), 1),
        (None, 2),
        (Some("other".to_string()), 3),
        (Some("sample-plugin".to_string()), 4),
    ];
    let written = write_entry(entries.clone(), "sample-plugin", 9);
    assert_eq!(
        written,
        vec![(None, 2), (Some("other".to_string()), 3), (Some("sample-plugin".to_string()), 9)]
    );
    assert_eq!(write_entry(written.clone(), "sample-plugin", 9), written);
    let removed = retain_other_entries(entries, "sample-plugin");
    assert_eq!(removed, vec![(None, 2), (Some("other".to_string()), 3)]);
    assert_eq!(retain_other_entries(removed.clone(), "sample-plugin"), removed);
    assert_eq!(
        entries_to_keep(
            &[Some("sample-plugin".to_string()), None, Some("other".to_string())],
            "sample-plugin"
        ),
        vec![false, true, true]
    );
}

#[test]
fn listing_migrates_a_pilothub_owned_legacy_launcher() {
    let adapter = adapter();
    let preview = sample_preview();
    let plan = install_plan(&adapter, &preview).unwrap();
    let mut world = World::new("sample-plugin 1.0.0");
    world.install(&plan).unwrap();
    world.launcher = Some("owned");
    assert_eq!(
        adapter.launcher_dir("sample-plugin"),
        "/tmp/home/.codex/skills/pilothub-sample-plugin"
    );

    let listing = listed_entries(world.codex(
        &["plugin", "list", "--available", "--json"].map(str::to_string),
        CodexRead::Plugins,
    ));
    let installed = managed_plugins(
        vec![("sample-plugin".to_string(), preview.descriptor.clone())],
        &listing,
    );
    let (status, remove) = migrate_legacy_launcher(installed[0].status.clone(), true);
    if remove {
        world.launcher = None;
    }

    assert_eq!(status.invocation.mode, "native");
    assert!(!status.catalog.visible);
    assert!(world.launcher.is_none());
}

#[test]
fn an_owned_launcher_keeps_a_plugin_without_native_entry_in_compatibility_mode() {
    let disabled = status_from_list(&[listing_entry(false)], "sample-plugin").unwrap();
    let (status, remove) = migrate_legacy_launcher(disabled.clone(), true);
    assert!(!remove);
    assert_eq!(status.invocation.mode, "compatibility");
    assert!(status.catalog.visible);
    let (status, remove) = migrate_legacy_launcher(disabled, false);
    assert!(!remove);
    assert_eq!(status.invocation.mode, "unavailable");
    assert!(!status.catalog.visible);
    let native = status_from_list(&[listing_entry(true)], "sample-plugin").unwrap();
    let (status, remove) = migrate_legacy_launcher(native, false);
    assert!(!remove);
    assert_eq!(status.invocation.mode, "native");
}

#[test]
fn repair_restores_registration_and_removes_owned_legacy_launcher() {
    let adapter = adapter();
    let plan = install_plan(&adapter, &sample_preview()).unwrap();
    let mut world = World::new("sample-plugin 1.0.0");
    world.install(&plan).unwrap();
    world.installed = false;
    world.launcher = Some("owned");

    let status = world.repair(&adapter, "sample-plugin").unwrap();

    assert!(status.installed);
    assert_eq!(status.invocation.mode, "native");
    assert!(!status.catalog.visible);
    assert!(world.launcher.is_none());
    assert!(world.calls.contains(&"plugin add sample-plugin@pilothub-local --json".to_string()));
}

#[test]
fn repair_registers_the_marketplace_and_keeps_a_user_launcher() {
    let adapter = adapter();
    let mut world = World::new("sample-plugin 1.0.0");
    world.target = Some("sample-plugin 1.0.0".to_string());
    world.launcher = Some("user");
    let status = world.repair(&adapter, "sample-plugin").unwrap();
    assert!(status.installed);
    assert!(world.registered);
    assert_eq!(world.launcher, Some("user"));
    assert_eq!(world.marketplace, Some(vec!["sample-plugin".to_string()]));
    assert_eq!(
        world.calls,
        vec![
            "plugin marketplace list --json".to_string(),
            "plugin marketplace add /tmp/home/.pilothub/codex --json".to_string(),
            "plugin add sample-plugin@pilothub-local --json".to_string(),
            "plugin list --available --json".to_string(),
        ]
    );
}

#[test]
fn repair_fails_on_missing_files_invalid_names_and_unreported_plugins() {
    let adapter = adapter();
    let mut world = World::new("sample-plugin 1.0.0");
    assert_eq!(
        world.repair(&adapter, "sample-plugin").unwrap_err(),
        "verify Codex Plugin: read Plugin manifest"
    );
    assert!(matches!(
        adapter.repair("../escape"),
        Err(CodexPluginError::InvalidName { .. })
    ));
    let mut failing = World::new("sample-plugin 1.0.0");
    failing.target = Some("sample-plugin 1.0.0".to_string());
    failing.fail_install = true;
    assert!(failing
        .repair(&adapter, "sample-plugin")
        .unwrap_err()
        .starts_with("install Plugin with Codex: "));
    let mut valid = sample_preview();
    assert_eq!(check_preview(&valid), Ok(()));
    valid.validation.valid = false;
    assert!(matches!(check_preview(&valid), Err(CodexPluginError::Invalid { .. })));
}
