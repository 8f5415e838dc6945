//! Codex Plugins managed by PilotHub: manifest validation, previews,
//! marketplace entries, Codex command lines and installation status.
pub mod install;
pub mod manifest;
pub mod preview;
pub mod repair;

use vstd::prelude::*;
use crate::digest::{hex_encode, hex_lower, sha256, sha256_digest};
use crate::paths::{join_path, join_str};
use crate::sorting::{Keyed, KeyedExec, sort_keyed, stable_sort};
use crate::storage_migration::StorageLayout;
use crate::text::{
    chars_of, concat, concat_str, non_blank, opt_view, owned, push_string,
    slice_of, str_eq, string_of, trim, trim_ws, views,
};

verus! {

/// The name of the local marketplace through which PilotHub registers
/// Plugins with Codex.
pub const PILOTHUB_MARKETPLACE_NAME: &'static str = "pilothub-local";

/// Where a Plugin comes from: `local` (a directory) or `git` (a repository).
#[derive(Clone, Debug, PartialEq, Eq)]
pub struct PluginSource {
    pub source_type: String,
    pub source_ref: String,
}

/// One Skill of a Plugin.
#[derive(Clone, Debug, PartialEq, Eq)]
pub struct PluginSkillDescriptor {
    pub name: String,
    pub description: Option<String>,
    pub relative_path: String,
}

/// What PilotHub shows of a Plugin.
#[derive(Clone, Debug, PartialEq, Eq)]
pub struct CodexPluginDescriptor {
    pub name: String,
    pub display_name: String,
    pub version: String,
    pub description: String,
    pub author: Option<String>,
    pub license: Option<String>,
    pub source: PluginSource,
    pub manifest_path: String,
    pub skills: Vec<PluginSkillDescriptor>,
    pub capabilities: Vec<String>,
    pub default_prompts: Vec<String>,
}

/// One validation finding: a code and a message.
#[derive(Clone, Debug, PartialEq, Eq)]
pub struct ValidationItem {
    pub code: String,
    pub message: String,
}

/// The findings of a Plugin validation; valid when there is no error.
#[derive(Clone, Debug, PartialEq, Eq)]
pub struct ValidationReport {
    pub valid: bool,
    pub errors: Vec<ValidationItem>,
    pub warnings: Vec<ValidationItem>,
}

/// A Plugin as inspected before installation.
#[derive(Clone, Debug, PartialEq, Eq)]
pub struct PluginPreview {
    pub descriptor: CodexPluginDescriptor,
    pub validation: ValidationReport,
}

/// How a Plugin can be invoked in Codex: registered, discoverable and
/// invocable through Codex's own Plugin entry, with the resulting mode
/// (`native` or `unavailable`) and verification (`verified` or `failed`).
#[derive(Clone, Debug, PartialEq, Eq)]
pub struct PluginInvocationCapability {
    pub native_registration: bool,
    pub native_discovery: bool,
    pub native_invocation: bool,
    pub mode: String,
    pub verification: String,
    pub detail: Option<String>,
}

/// Whether a Plugin shows in the Codex Skills catalog through a
/// PilotHub-owned compatibility Launcher.
#[derive(Clone, Debug, PartialEq, Eq)]
pub struct PluginCatalogStatus {
    pub visible: bool,
}

/// A Plugin's installation state in Codex.
#[derive(Clone, Debug, PartialEq, Eq)]
pub struct PluginInstallationStatus {
    pub plugin_name: String,
    pub marketplace_name: String,
    pub target: String,
    pub installed: bool,
    pub enabled: bool,
    pub version: String,
    pub installed_path: Option<String>,
    pub health: String,
    pub detail: Option<String>,
    pub invocation: PluginInvocationCapability,
    pub catalog: PluginCatalogStatus,
}

/// A Plugin that PilotHub manages, with its state in Codex.
#[derive(Clone, Debug, PartialEq, Eq)]
pub struct InstalledCodexPlugin {
    pub descriptor: CodexPluginDescriptor,
    pub status: PluginInstallationStatus,
}

/// The outcome of an installation.
#[derive(Clone, Debug, PartialEq, Eq)]
pub struct PluginInstallResult {
    pub descriptor: CodexPluginDescriptor,
    pub status: PluginInstallationStatus,
}

/// Where PilotHub keeps Codex Plugins: the marketplace root registered with
/// Codex, the Plugin directories inside it, the marketplace file, and the
/// staging and backup directories of installations.
#[derive(Clone, Debug)]
pub struct CodexPluginPaths {
    pub marketplace_root: String,
    pub plugins: String,
    pub marketplace_file: String,
    pub staging: String,
    pub backups: String,
    pub codex_skills: String,
}

/// Installs, lists, diagnoses and removes Codex Plugins under PilotHub's
/// storage.
#[derive(Clone, Debug)]
pub struct CodexPluginAdapter {
    pub layout: StorageLayout,
    pub paths: CodexPluginPaths,
}

/// One entry of `codex plugin list --json`'s `installed` array, as the
/// fields read from it (a field that is missing or of another JSON type is
/// `None`).
#[derive(Clone, Debug, PartialEq, Eq)]
pub struct CodexListEntry {
    pub name: Option<String>,
    pub marketplace_name: Option<String>,
    pub installed: Option<bool>,
    pub enabled: Option<bool>,
    pub version: Option<String>,
    pub installed_path: Option<String>,
}

/// An entry of the PilotHub marketplace file.
#[derive(Clone, Debug, PartialEq, Eq)]
pub struct MarketplaceEntry {
    pub name: String,
    pub source: String,
    pub path: String,
    pub installation: String,
    pub authentication: String,
    pub category: String,
}

/// Where a Plugin is read from.
#[derive(Clone, Copy, Debug, PartialEq, Eq)]
pub enum PluginSourceKind {
    Local,
    Git,
}

/// Why a Plugin operation failed.
#[derive(Clone, Debug, PartialEq, Eq)]
pub enum CodexPluginError {
    UnsupportedSourceType { source_type: String },
    HomeUnavailable,
    OutsideRoot,
    MarketplaceNameMismatch,
    NotManaged { plugin_name: String },
    InvalidName { message: String },
    Invalid { messages: String },
    UnresolvedRoot,
}

impl CodexPluginError {
    /// The text of the error.
    pub open spec fn message(self) -> Seq<char> {
        match self {
            CodexPluginError::UnsupportedSourceType { source_type } => "unsupported Plugin source type: "@
                + source_type@,
            CodexPluginError::HomeUnavailable => "home directory is unavailable"@,
            CodexPluginError::OutsideRoot => "Plugin path must remain inside the Plugin root"@,
            CodexPluginError::MarketplaceNameMismatch => "PilotHub marketplace name does not match pilothub-local"@,
            CodexPluginError::NotManaged { plugin_name } => "Plugin "@ + plugin_name@
                + " is not managed by PilotHub"@,
            CodexPluginError::InvalidName { message } => message@,
            CodexPluginError::Invalid { messages } => "PLUGIN_INVALID|"@ + messages@,
            CodexPluginError::UnresolvedRoot => "resolve Plugin root from manifest path"@,
        }
    }

    /// The text of the error.
    pub fn to_string(&self) -> (r: String)
        ensures
            r@ == self.message(),
    {
        match self {
            CodexPluginError::UnsupportedSourceType { source_type } => concat_str(
                "unsupported Plugin source type: ",
                source_type.as_str(),
            ),
            CodexPluginError::HomeUnavailable => owned("home directory is unavailable"),
            CodexPluginError::OutsideRoot => owned("Plugin path must remain inside the Plugin root"),
            CodexPluginError::MarketplaceNameMismatch => owned(
                "PilotHub marketplace name does not match pilothub-local",
            ),
            CodexPluginError::NotManaged { plugin_name } => {
                let a = concat_str("Plugin ", plugin_name.as_str());
                concat_str(a.as_str(), " is not managed by PilotHub")
            },
            CodexPluginError::InvalidName { message } => message.clone(),
            CodexPluginError::Invalid { messages } => concat_str("PLUGIN_INVALID|", messages.as_str()),
            CodexPluginError::UnresolvedRoot => owned("resolve Plugin root from manifest path"),
        }
    }
}

// ---------------------------------------------------------------------------
// Storage
// ---------------------------------------------------------------------------

/// The Codex Plugin directories under PilotHub's storage: the marketplace
/// root `<root>/codex` with `plugins/` and `.agents/plugins/marketplace.json`
/// inside, staging under the cache, and backups under the backups directory.
pub open spec fn codex_paths_of(layout: StorageLayout) -> (Seq<char>, Seq<char>, Seq<char>, Seq<char>, Seq<char>) {
    let root = join_path(layout.root@, "codex"@);
    (
        root,
        join_path(root, "plugins"@),
        join_path(root, ".agents/plugins/marketplace.json"@),
        join_path(layout.cache@, "codex-staging"@),
        join_path(layout.backups@, "codex-plugins"@),
    )
}

impl CodexPluginAdapter {
    /// The adapter for the PilotHub storage under `home`.
    pub fn from_home(home: &str) -> (r: Self)
        ensures
            r.layout.root@ == crate::storage_migration::root_of(home@),
            r.layout.extensions@ == crate::storage_migration::extensions_of_home(home@),
            r.layout.backups@ == crate::storage_migration::backups_of_home(home@),
            r.layout.cache@ == join_path(crate::storage_migration::root_of(home@), "cache"@),
            (r.paths.marketplace_root@, r.paths.plugins@, r.paths.marketplace_file@, r.paths.staging@, r.paths.backups@)
                == codex_paths_of(r.layout),
            r.paths.codex_skills@ == join_path(home@, ".codex/skills"@),
    {
        let layout = StorageLayout::from_home(home);
        let root = join_str(layout.root.as_str(), "codex");
        let paths = CodexPluginPaths {
            plugins: join_str(root.as_str(), "plugins"),
            marketplace_file: join_str(root.as_str(), ".agents/plugins/marketplace.json"),
            staging: join_str(layout.cache.as_str(), "codex-staging"),
            backups: join_str(layout.backups.as_str(), "codex-plugins"),
            codex_skills: join_str(home, ".codex/skills"),
            marketplace_root: root,
        };
        CodexPluginAdapter { layout, paths }
    }

    /// Where the compatibility Launcher Skill of a Plugin lives in Codex's
    /// Skills directory: `pilothub-<name>`.
    pub fn launcher_dir(&self, plugin_name: &str) -> (r: String)
        ensures
            r@ == join_path(self.paths.codex_skills@, "pilothub-"@ + plugin_name@),
    {
        let name = concat_str("pilothub-", plugin_name);
        join_str(self.paths.codex_skills.as_str(), name.as_str())
    }

    /// The installed directory of a Plugin.
    pub fn plugin_dir(&self, plugin_name: &str) -> (r: String)
        ensures
            r@ == join_path(self.paths.plugins@, plugin_name@),
    {
        join_str(self.paths.plugins.as_str(), plugin_name)
    }

    /// The status of a managed Plugin in a listing, or the error that
    /// PilotHub does not manage it.
    pub fn doctor(&self, installed: Vec<InstalledCodexPlugin>, plugin_name: &str) -> (r: Result<
        PluginInstallationStatus,
        CodexPluginError,
    >)
        ensures
            match r {
                Ok(s) => exists|i: int|
                    0 <= i < installed@.len() && #[trigger] installed@[i].descriptor.name@
                        == plugin_name@ && installed@[i].status == s && forall|j: int|
                        0 <= j < i ==> installed@[j].descriptor.name@ != plugin_name@,
                Err(e) => (forall|i: int|
                    0 <= i < installed@.len() ==> #[trigger] installed@[i].descriptor.name@
                        != plugin_name@) && (e matches CodexPluginError::NotManaged {
                    plugin_name: n,
                } && n@ == plugin_name@),
            },
    {
        let n = installed.len();
        let mut i: usize = 0;
        while i < n
            invariant
                n == installed@.len(),
                i <= n,
                forall|j: int| 0 <= j < i ==> installed@[j].descriptor.name@ != plugin_name@,
            decreases n - i,
        {
            if str_eq(installed[i].descriptor.name.as_str(), plugin_name) {
                let ghost orig = installed@;
                let mut all = installed;
                let plugin = all.remove(i);
                assert(orig[i as int].descriptor.name@ == plugin_name@);
                return Ok(plugin.status);
            }
            i = i + 1;
        }
        Err(CodexPluginError::NotManaged { plugin_name: owned(plugin_name) })
    }
}

// ---------------------------------------------------------------------------
// Installation status
// ---------------------------------------------------------------------------

/// The invocation capability Codex reports: registered when installed,
/// discoverable and invocable when also enabled; `native`/`verified` only
/// then, else `unavailable`/`failed`.
pub open spec fn capability_of(installed: bool, enabled: bool) -> (bool, bool, bool, Seq<char>, Seq<char>) {
    if installed && enabled {
        (true, true, true, "native"@, "verified"@)
    } else {
        (installed, false, false, "unavailable"@, "failed"@)
    }
}

/// The view of a capability's flags and words.
pub open spec fn capability_view(c: PluginInvocationCapability) -> (bool, bool, bool, Seq<char>, Seq<char>) {
    (c.native_registration, c.native_discovery, c.native_invocation, c.mode@, c.verification@)
}

/// The capability of an installed Plugin as Codex reports it.
pub fn invocation_capability(installed: bool, enabled: bool) -> (r: PluginInvocationCapability)
    ensures
        capability_view(r) == capability_of(installed, enabled),
        r.detail is None,
{
    if installed && enabled {
        PluginInvocationCapability {
            native_registration: true,
            native_discovery: true,
            native_invocation: true,
            mode: owned("native"),
            verification: owned("verified"),
            detail: None,
        }
    } else {
        PluginInvocationCapability {
            native_registration: installed,
            native_discovery: false,
            native_invocation: false,
            mode: owned("unavailable"),
            verification: owned("failed"),
            detail: None,
        }
    }
}

/// No invocation capability, with the reason.
pub fn unavailable_invocation_capability(detail: &str) -> (r: PluginInvocationCapability)
    ensures
        capability_view(r) == capability_of(false, false),
        opt_view(r.detail) == Some(detail@),
{
    PluginInvocationCapability {
        native_registration: false,
        native_discovery: false,
        native_invocation: false,
        mode: owned("unavailable"),
        verification: owned("failed"),
        detail: Some(owned(detail)),
    }
}

/// The entry is the Plugin `plugin_name` of the PilotHub marketplace.
pub open spec fn entry_matches(entry: CodexListEntry, plugin_name: Seq<char>) -> bool {
    opt_view(entry.name) == Some(plugin_name) && opt_view(entry.marketplace_name) == Some(
        "pilothub-local"@,
    )
}

/// A status as plain values.
pub struct StatusView {
    pub plugin_name: Seq<char>,
    pub marketplace_name: Seq<char>,
    pub target: Seq<char>,
    pub installed: bool,
    pub enabled: bool,
    pub version: Seq<char>,
    pub installed_path: Option<Seq<char>>,
    pub health: Seq<char>,
    pub detail: Option<Seq<char>>,
    pub invocation: (bool, bool, bool, Seq<char>, Seq<char>),
    pub invocation_detail: Option<Seq<char>>,
    pub catalog_visible: bool,
}

/// The plain values of a status.
pub open spec fn status_view(s: PluginInstallationStatus) -> StatusView {
    StatusView {
        plugin_name: s.plugin_name@,
        marketplace_name: s.marketplace_name@,
        target: s.target@,
        installed: s.installed,
        enabled: s.enabled,
        version: s.version@,
        installed_path: opt_view(s.installed_path),
        health: s.health@,
        detail: opt_view(s.detail),
        invocation: capability_view(s.invocation),
        invocation_detail: opt_view(s.invocation.detail),
        catalog_visible: s.catalog.visible,
    }
}

/// The status that a listing entry reports: installed and enabled unless
/// the entry says otherwise, its version (or empty) and path, healthy.
pub open spec fn reported_status(entry: CodexListEntry, plugin_name: Seq<char>) -> StatusView {
    let installed = match entry.installed {
        Some(b) => b,
        None => true,
    };
    let enabled = match entry.enabled {
        Some(b) => b,
        None => true,
    };
    StatusView {
        plugin_name: plugin_name,
        marketplace_name: "pilothub-local"@,
        target: "codex"@,
        installed: installed,
        enabled: enabled,
        version: match entry.version {
            Some(v) => v@,
            None => Seq::<char>::empty(),
        },
        installed_path: opt_view(entry.installed_path),
        health: "healthy"@,
        detail: None,
        invocation: capability_of(installed, enabled),
        invocation_detail: None,
        catalog_visible: false,
    }
}

/// The status Codex reports for `plugin_name`: that of the first entry of
/// that name in the PilotHub marketplace, if any.
pub open spec fn listed(entries: Seq<CodexListEntry>, plugin_name: Seq<char>) -> Option<StatusView>
    decreases entries.len(),
{
    if entries.len() == 0 {
        None
    } else if entry_matches(entries[0], plugin_name) {
        Some(reported_status(entries[0], plugin_name))
    } else {
        listed(entries.drop_first(), plugin_name)
    }
}

/// The status of `plugin_name` in a Codex listing: from the first entry of
/// that name in the PilotHub marketplace, or none.
pub fn status_from_list(entries: &[CodexListEntry], plugin_name: &str) -> (r: Option<PluginInstallationStatus>)
    ensures
        match r {
            Some(s) => listed(entries@, plugin_name@) == Some(status_view(s)),
            None => listed(entries@, plugin_name@) is None,
        },
{
    let mut i: usize = 0;
    assert(entries@.skip(0) =~= entries@);
    while i < entries.len()
        invariant
            i <= entries@.len(),
            listed(entries@, plugin_name@) == listed(entries@.skip(i as int), plugin_name@),
        decreases entries.len() - i,
    {
        let entry = &entries[i];
        assert(entries@.skip(i as int)[0] == entries@[i as int]);
        assert(entries@.skip(i as int).drop_first() =~= entries@.skip(i + 1));
        let name_ok = match &entry.name {
            Some(n) => str_eq(n.as_str(), plugin_name),
            None => false,
        };
        let market_ok = match &entry.marketplace_name {
            Some(m) => str_eq(m.as_str(), PILOTHUB_MARKETPLACE_NAME),
            None => false,
        };
        if name_ok && market_ok {
            let installed = match entry.installed {
                Some(b) => b,
                None => true,
            };
            let enabled = match entry.enabled {
                Some(b) => b,
                None => true,
            };
            let version = match &entry.version {
                Some(v) => v.clone(),
                None => String::new(),
            };
            let installed_path = match &entry.installed_path {
                Some(p) => Some(p.clone()),
                None => None,
            };
            return Some(
                PluginInstallationStatus {
                    plugin_name: owned(plugin_name),
                    marketplace_name: owned(PILOTHUB_MARKETPLACE_NAME),
                    target: owned("codex"),
                    installed,
                    enabled,
                    version,
                    installed_path,
                    health: owned("healthy"),
                    detail: None,
                    invocation: invocation_capability(installed, enabled),
                    catalog: PluginCatalogStatus { visible: false },
                },
            );
        }
        i = i + 1;
    }
    None
}

/// A status reports Codex's own entry usable (`native`) exactly when the
/// Plugin is installed and enabled; only then is it discoverable and
/// invocable, and it is registered exactly when installed.
pub open spec fn native_only_when_enabled(v: StatusView) -> bool {
    &&& (v.invocation.3 == "native"@ <==> v.installed && v.enabled)
    &&& (v.invocation.1 <==> v.installed && v.enabled)
    &&& (v.invocation.2 <==> v.installed && v.enabled)
    &&& v.invocation.0 == v.installed
}

/// Every status Codex's listing gives, and the status of a Plugin Codex
/// does not report, uses Codex's own entry only when the Plugin is
/// installed and enabled.
pub proof fn law_native_only_when_enabled(entries: Seq<CodexListEntry>, plugin_name: Seq<char>, version: Seq<char>)
    ensures
        listed(entries, plugin_name) matches Some(v) ==> native_only_when_enabled(v),
        native_only_when_enabled(unreported_status(plugin_name, version)),
    decreases entries.len(),
{
    reveal_strlit("native");
    reveal_strlit("unavailable");
    assert("native"@.len() != "unavailable"@.len());
    if entries.len() > 0 && !entry_matches(entries[0], plugin_name) {
        law_native_only_when_enabled(entries.drop_first(), plugin_name, version);
    }
}

/// The status of a managed Plugin that Codex does not report as installed.
pub open spec fn unreported_status(plugin_name: Seq<char>, version: Seq<char>) -> StatusView {
    StatusView {
        plugin_name: plugin_name,
        marketplace_name: "pilothub-local"@,
        target: "codex"@,
        installed: false,
        enabled: false,
        version: version,
        installed_path: None,
        health: "error"@,
        detail: Some("Codex does not report this Plugin as installed"@),
        invocation: capability_of(false, false),
        invocation_detail: Some("Codex does not report this Plugin as installed"@),
        catalog_visible: false,
    }
}

/// What listing does with a Plugin's legacy Launcher, given the Plugin's
/// status and whether a PilotHub-owned Launcher exists: when Codex's own
/// entry is usable (`native`) an owned Launcher is removed and the Plugin is
/// not in the Skills catalog; otherwise an owned Launcher stays, the Plugin
/// is visible in the catalog through it and invoked in `compatibility`
/// mode; with no owned Launcher, nothing changes and the Plugin is not in
/// the catalog. The second value says whether to remove the Launcher.
pub open spec fn launcher_choice(v: StatusView, owned_launcher: bool) -> (StatusView, bool) {
    if v.invocation.3 == "native"@ {
        (StatusView { catalog_visible: false, ..v }, owned_launcher)
    } else if owned_launcher {
        (
            StatusView {
                invocation: (v.invocation.0, v.invocation.1, v.invocation.2, "compatibility"@, v.invocation.4),
                catalog_visible: true,
                ..v
            },
            false,
        )
    } else {
        (StatusView { catalog_visible: false, ..v }, false)
    }
}

/// Settles a listed Plugin's legacy Launcher (see `launcher_choice`): the
/// status to report, and whether to remove the PilotHub-owned Launcher.
pub fn migrate_legacy_launcher(status: PluginInstallationStatus, owned_launcher: bool) -> (r: (
    PluginInstallationStatus,
    bool,
))
    ensures
        (status_view(r.0), r.1) == launcher_choice(status_view(status), owned_launcher),
{
    proof {
        reveal_strlit("native");
    }
    let mut s = status;
    if str_eq(s.invocation.mode.as_str(), "native") {
        s.catalog = PluginCatalogStatus { visible: false };
        (s, owned_launcher)
    } else if owned_launcher {
        s.invocation.mode = owned("compatibility");
        s.catalog = PluginCatalogStatus { visible: true };
        (s, false)
    } else {
        s.catalog = PluginCatalogStatus { visible: false };
        (s, false)
    }
}

/// Listing never leaves a PilotHub-owned Launcher beside a Plugin whose
/// Codex entry is usable, never removes a Launcher otherwise, and reports
/// the Plugin in the Skills catalog exactly when its owned Launcher stays.
pub proof fn law_launcher_migration(v: StatusView, owned_launcher: bool)
    ensures
        ({
            let (after, remove) = launcher_choice(v, owned_launcher);
            &&& remove ==> owned_launcher
            &&& (v.invocation.3 == "native"@ ==> (remove == owned_launcher && !after.catalog_visible
                && after.invocation == v.invocation))
            &&& (v.invocation.3 != "native"@ ==> !remove && after.catalog_visible == owned_launcher)
            &&& after.installed == v.installed && after.enabled == v.enabled && after.health == v.health
        }),
{
}

/// A managed Plugin with its reported status, or, when Codex reports none,
/// an error status carrying the Plugin's version.
pub fn installed_plugin(
    plugin_name: &str,
    descriptor: CodexPluginDescriptor,
    reported: Option<PluginInstallationStatus>,
) -> (r: InstalledCodexPlugin)
    ensures
        r.descriptor == descriptor,
        match reported {
            Some(s) => r.status == s,
            None => status_view(r.status) == unreported_status(plugin_name@, descriptor.version@),
        },
{
    let status = match reported {
        Some(s) => s,
        None => PluginInstallationStatus {
            plugin_name: owned(plugin_name),
            marketplace_name: owned(PILOTHUB_MARKETPLACE_NAME),
            target: owned("codex"),
            installed: false,
            enabled: false,
            version: descriptor.version.clone(),
            installed_path: None,
            health: owned("error"),
            detail: Some(owned("Codex does not report this Plugin as installed")),
            invocation: unavailable_invocation_capability("Codex does not report this Plugin as installed"),
            catalog: PluginCatalogStatus { visible: false },
        },
    };
    InstalledCodexPlugin { descriptor, status }
}

impl Keyed for InstalledCodexPlugin {
    open spec fn key(&self) -> Seq<char> {
        self.descriptor.name@
    }
}

impl KeyedExec for InstalledCodexPlugin {
    fn key_chars(&self) -> (r: Vec<char>) {
        chars_of(self.descriptor.name.as_str())
    }
}

/// The managed Plugins, sorted stably by name.
pub fn sort_installed_plugins(plugins: Vec<InstalledCodexPlugin>) -> (r: Vec<InstalledCodexPlugin>)
    ensures
        r@ == sort_keyed(plugins@),
{
    stable_sort(plugins)
}

/// A managed Plugin as its descriptor and the plain values of its status.
pub open spec fn managed_view(p: InstalledCodexPlugin) -> (CodexPluginDescriptor, StatusView) {
    (p.descriptor, status_view(p.status))
}

/// `managed_view` as a value.
pub open spec fn managed_view_fn() -> spec_fn(InstalledCodexPlugin) -> (CodexPluginDescriptor, StatusView) {
    |p: InstalledCodexPlugin| managed_view(p)
}

impl Keyed for (CodexPluginDescriptor, StatusView) {
    open spec fn key(&self) -> Seq<char> {
        self.0.name@
    }
}

/// A managed Plugin found under the marketplace entry `name`, with the
/// status Codex lists for that name, or the unreported status.
pub open spec fn managed_entry(found: (String, CodexPluginDescriptor), listing: Seq<CodexListEntry>) -> (CodexPluginDescriptor, StatusView) {
    (found.1, match listed(listing, found.0@) {
        Some(v) => v,
        None => unreported_status(found.0@, found.1.version@),
    })
}

/// The managed Plugins: each Plugin found under a marketplace entry, with
/// its status in the Codex listing, sorted stably by Plugin name.
pub fn managed_plugins(found: Vec<(String, CodexPluginDescriptor)>, listing: &[CodexListEntry]) -> (r: Vec<InstalledCodexPlugin>)
    ensures
        r@.map_values(managed_view_fn()) == sort_keyed(
            found@.map_values(|f: (String, CodexPluginDescriptor)| managed_entry(f, listing@)),
        ),
{
    let ghost want = found@.map_values(|f: (String, CodexPluginDescriptor)| managed_entry(f, listing@));
    let mut plugins: Vec<InstalledCodexPlugin> = Vec::new();
    let mut rest = found;
    let ghost orig = rest@;
    let total: usize = rest.len();
    let mut i: usize = 0;
    while rest.len() > 0
        invariant
            i + rest@.len() == orig.len(),
            orig.len() == total,
            rest@ == orig.skip(i as int),
            want == orig.map_values(|f: (String, CodexPluginDescriptor)| managed_entry(f, listing@)),
            plugins@.map_values(managed_view_fn()) == want.take(i as int),
        decreases rest@.len(),
    {
        let (name, descriptor) = rest.remove(0);
        assert(orig[i as int] == (name, descriptor));
        let reported = status_from_list(listing, name.as_str());
        let p = installed_plugin(name.as_str(), descriptor, reported);
        let ghost before = plugins@.map_values(managed_view_fn());
        plugins.push(p);
        assert(plugins@.map_values(managed_view_fn()) =~= before.push(managed_view(p)));
        assert(want.take(i + 1) =~= want.take(i as int).push(want[i as int]));
        assert(rest@ =~= orig.skip(i + 1));
        i = i + 1;
    }
    assert(want.take(i as int) =~= want);
    let ghost unsorted = plugins@;
    let r = sort_installed_plugins(plugins);
    proof {
        crate::sorting::lemma_sort_map(unsorted, managed_view_fn());
    }
    r
}

impl CodexPluginAdapter {
    /// The Plugins PilotHub manages: those found under the marketplace
    /// entries, with their status in the Codex listing (see
    /// `managed_plugins`).
    pub fn list(&self, found: Vec<(String, CodexPluginDescriptor)>, listing: &[CodexListEntry]) -> (r: Vec<InstalledCodexPlugin>)
        ensures
            r@.map_values(managed_view_fn()) == sort_keyed(
                found@.map_values(|f: (String, CodexPluginDescriptor)| managed_entry(f, listing@)),
            ),
    {
        managed_plugins(found, listing)
    }
}

// ---------------------------------------------------------------------------
// Marketplace
// ---------------------------------------------------------------------------

/// The marketplace file names PilotHub's marketplace.
pub fn check_marketplace_name(name: &Option<String>) -> (r: Result<(), CodexPluginError>)
    ensures
        r is Ok <==> opt_view(*name) == Some("pilothub-local"@),
        r matches Err(e) ==> e == CodexPluginError::MarketplaceNameMismatch,
{
    let ok = match name {
        Some(n) => str_eq(n.as_str(), PILOTHUB_MARKETPLACE_NAME),
        None => false,
    };
    if ok {
        Ok(())
    } else {
        Err(CodexPluginError::MarketplaceNameMismatch)
    }
}

/// The marketplace entry of a Plugin: a local source at
/// `./plugins/<name>`, available for installation, authenticated on
/// install, in the Productivity category.
pub fn marketplace_entry(plugin_name: &str) -> (r: MarketplaceEntry)
    ensures
        r.name@ == plugin_name@,
        r.source@ == "local"@,
        r.path@ == "./plugins/"@ + plugin_name@,
        r.installation@ == "AVAILABLE"@,
        r.authentication@ == "ON_INSTALL"@,
        r.category@ == "Productivity"@,
{
    MarketplaceEntry {
        name: owned(plugin_name),
        source: owned("local"),
        path: concat_str("./plugins/", plugin_name),
        installation: owned("AVAILABLE"),
        authentication: owned("ON_INSTALL"),
        category: owned("Productivity"),
    }
}

/// Which marketplace entries stay when `plugin_name` is removed: every entry
/// whose name is not `plugin_name` (entries without a name stay).
pub fn entries_to_keep(names: &[Option<String>], plugin_name: &str) -> (r: Vec<bool>)
    ensures
        r@.len() == names@.len(),
        forall|i: int| 0 <= i < names@.len() ==> #[trigger] r@[i] == (opt_view(names@[i]) != Some(plugin_name@)),
{
    let mut r: Vec<bool> = Vec::new();
    let mut i: usize = 0;
    while i < names.len()
        invariant
            i <= names@.len(),
            r@.len() == i,
            forall|j: int| 0 <= j < i ==> #[trigger] r@[j] == (opt_view(names@[j]) != Some(plugin_name@)),
        decreases names.len() - i,
    {
        let keep = match &names[i] {
            Some(n) => !str_eq(n.as_str(), plugin_name),
            None => true,
        };
        r.push(keep);
        i = i + 1;
    }
    r
}

/// The names of the marketplace entries that have one, in order.
pub open spec fn present_names(names: Seq<Option<String>>) -> Seq<Seq<char>>
    decreases names.len(),
{
    if names.len() == 0 {
        Seq::<Seq<char>>::empty()
    } else {
        match names.last() {
            Some(n) => present_names(names.drop_last()).push(n@),
            None => present_names(names.drop_last()),
        }
    }
}

/// The marketplace entries that stay when the entry of `name` is taken
/// out: every entry, in order, whose name is not `name` (entries without a
/// name stay).
pub open spec fn other_entries<T>(es: Seq<(Option<String>, T)>, name: Seq<char>) -> Seq<(Option<String>, T)>
    decreases es.len(),
{
    if es.len() == 0 {
        es
    } else {
        let rest = other_entries(es.drop_last(), name);
        if opt_view(es.last().0) == Some(name) {
            rest
        } else {
            rest.push(es.last())
        }
    }
}

/// The marketplace entries after the entry `entry` of `name` is written:
/// the other entries, in order, then `entry`.
pub open spec fn written_entries<T>(es: Seq<(Option<String>, T)>, name: Seq<char>, entry: (Option<String>, T)) -> Seq<
    (Option<String>, T),
> {
    other_entries(es, name).push(entry)
}

/// Takes the entry of `plugin_name` out of the marketplace entries, each
/// given with its name.
pub fn retain_other_entries<T>(entries: Vec<(Option<String>, T)>, plugin_name: &str) -> (r: Vec<(Option<String>, T)>)
    ensures
        r@ == other_entries(entries@, plugin_name@),
{
    let ghost all = entries@;
    assert(all.len() == entries.len());
    let mut rest = entries;
    let mut r: Vec<(Option<String>, T)> = Vec::new();
    let mut i: usize = 0;
    while rest.len() > 0
        invariant
            i + rest@.len() == all.len(),
            all.len() <= usize::MAX,
            rest@ == all.skip(i as int),
            r@ == other_entries(all.take(i as int), plugin_name@),
        decreases rest.len(),
    {
        let item = rest.remove(0);
        assert(all.take(i + 1).drop_last() =~= all.take(i as int));
        assert(all.take(i + 1).last() == all[i as int]);
        assert(rest@ =~= all.skip(i + 1));
        let named = match &item.0 {
            Some(n) => str_eq(n.as_str(), plugin_name),
            None => false,
        };
        if !named {
            r.push(item);
        }
        i = i + 1;
    }
    assert(all.take(i as int) =~= all);
    r
}

/// Writes the entry `entry` of `plugin_name` into the marketplace entries:
/// an earlier entry of that name is replaced, and the entry comes last.
pub fn write_entry<T>(entries: Vec<(Option<String>, T)>, plugin_name: &str, entry: T) -> (r: Vec<(Option<String>, T)>)
    ensures
        r@.len() > 0,
        opt_view(r@.last().0) == Some(plugin_name@),
        r@ == written_entries(entries@, plugin_name@, r@.last()),
        r@.last().1 == entry,
{
    let mut r = retain_other_entries(entries, plugin_name);
    r.push((Some(owned(plugin_name)), entry));
    r
}

proof fn lemma_other_entries_unnamed<T>(es: Seq<(Option<String>, T)>, name: Seq<char>)
    ensures
        forall|i: int| 0 <= i < other_entries(es, name).len() ==> opt_view(#[trigger] other_entries(es, name)[i].0) != Some(name),
        other_entries(other_entries(es, name), name) == other_entries(es, name),
    decreases es.len(),
{
    if es.len() > 0 {
        let rest = other_entries(es.drop_last(), name);
        lemma_other_entries_unnamed(es.drop_last(), name);
        if opt_view(es.last().0) != Some(name) {
            let pushed = rest.push(es.last());
            assert(pushed.drop_last() =~= rest);
            assert(pushed.last() == es.last());
            assert(other_entries(pushed, name) == other_entries(rest, name).push(es.last()));
        }
    }
}

/// Writing the entry of a Plugin into the marketplace leaves exactly one
/// entry of that name, the written one, last and after the other entries in
/// their order; writing it again changes nothing.
pub proof fn law_marketplace_write<T>(es: Seq<(Option<String>, T)>, name: Seq<char>, entry: (Option<String>, T))
    requires
        opt_view(entry.0) == Some(name),
    ensures
        ({
            let w = written_entries(es, name, entry);
            &&& w.last() == entry
            &&& forall|i: int| 0 <= i < w.len() - 1 ==> opt_view(#[trigger] w[i].0) != Some(name)
            &&& written_entries(w, name, entry) == w
        }),
{
    let o = other_entries(es, name);
    let w = o.push(entry);
    lemma_other_entries_unnamed(es, name);
    assert(w.drop_last() =~= o);
    assert(w.last() == entry);
    assert(other_entries(w, name) == other_entries(o, name));
    assert forall|i: int| 0 <= i < w.len() - 1 implies opt_view(#[trigger] w[i].0) != Some(name) by {
        assert(w[i] == o[i]);
    }
}

/// Taking the entry of a Plugin out of the marketplace leaves no entry of
/// that name and keeps the others in their order; doing it again changes
/// nothing.
pub proof fn law_marketplace_remove<T>(es: Seq<(Option<String>, T)>, name: Seq<char>)
    ensures
        forall|i: int| 0 <= i < other_entries(es, name).len() ==> opt_view(#[trigger] other_entries(es, name)[i].0) != Some(name),
        other_entries(other_entries(es, name), name) == other_entries(es, name),
{
    lemma_other_entries_unnamed(es, name);
}

/// The Plugin names listed in the marketplace.
pub fn marketplace_plugin_names(names: &[Option<String>]) -> (r: Vec<String>)
    ensures
        views(r@) == present_names(names@),
{
    let mut r: Vec<String> = Vec::new();
    let mut i: usize = 0;
    while i < names.len()
        invariant
            i <= names@.len(),
            views(r@) == present_names(names@.take(i as int)),
        decreases names.len() - i,
    {
        assert(names@.take(i + 1).drop_last() =~= names@.take(i as int));
        assert(names@.take(i + 1).last() == names@[i as int]);
        match &names[i] {
            Some(n) => push_string(&mut r, n.clone()),
            None => {},
        }
        i = i + 1;
    }
    assert(names@.take(names@.len() as int) =~= names@);
    r
}

/// Whether Codex already lists PilotHub's marketplace.
pub fn marketplace_registered(names: &[Option<String>]) -> (r: bool)
    ensures
        r <==> exists|i: int| 0 <= i < names@.len() && opt_view(#[trigger] names@[i]) == Some("pilothub-local"@),
{
    let mut i: usize = 0;
    while i < names.len()
        invariant
            i <= names@.len(),
            forall|j: int| 0 <= j < i ==> opt_view(#[trigger] names@[j]) != Some("pilothub-local"@),
        decreases names.len() - i,
    {
        let hit = match &names[i] {
            Some(n) => str_eq(n.as_str(), PILOTHUB_MARKETPLACE_NAME),
            None => false,
        };
        if hit {
            return true;
        }
        i = i + 1;
    }
    false
}

// ---------------------------------------------------------------------------
// Codex command lines
// ---------------------------------------------------------------------------

/// `<plugin>@pilothub-local`.
pub fn plugin_selector(plugin_name: &str) -> (r: String)
    ensures
        r@ == plugin_name@ + "@pilothub-local"@,
{
    concat_str(plugin_name, "@pilothub-local")
}

/// Four arguments as a list.
fn args4(a: &str, b: &str, c: String, d: &str) -> (r: Vec<String>)
    ensures
        views(r@) == seq![a@, b@, c@, d@],
{
    let mut r: Vec<String> = Vec::new();
    push_string(&mut r, owned(a));
    push_string(&mut r, owned(b));
    push_string(&mut r, c);
    push_string(&mut r, owned(d));
    assert(views(r@) =~= seq![a@, b@, c@, d@]);
    r
}

/// `plugin marketplace list --json`.
pub fn marketplace_list_args() -> (r: Vec<String>)
    ensures
        views(r@) == seq!["plugin"@, "marketplace"@, "list"@, "--json"@],
{
    args4("plugin", "marketplace", owned("list"), "--json")
}

/// `plugin marketplace add <root> --json`.
pub fn marketplace_add_args(marketplace_root: &str) -> (r: Vec<String>)
    ensures
        views(r@) == seq!["plugin"@, "marketplace"@, "add"@, marketplace_root@, "--json"@],
{
    let mut r: Vec<String> = Vec::new();
    push_string(&mut r, owned("plugin"));
    push_string(&mut r, owned("marketplace"));
    push_string(&mut r, owned("add"));
    push_string(&mut r, owned(marketplace_root));
    push_string(&mut r, owned("--json"));
    assert(views(r@) =~= seq!["plugin"@, "marketplace"@, "add"@, marketplace_root@, "--json"@]);
    r
}

/// `plugin marketplace remove pilothub-local --json`.
pub fn marketplace_remove_args() -> (r: Vec<String>)
    ensures
        views(r@) == seq!["plugin"@, "marketplace"@, "remove"@, "pilothub-local"@, "--json"@],
{
    let mut r: Vec<String> = Vec::new();
    push_string(&mut r, owned("plugin"));
    push_string(&mut r, owned("marketplace"));
    push_string(&mut r, owned("remove"));
    push_string(&mut r, owned(PILOTHUB_MARKETPLACE_NAME));
    push_string(&mut r, owned("--json"));
    assert(views(r@) =~= seq!["plugin"@, "marketplace"@, "remove"@, "pilothub-local"@, "--json"@]);
    r
}

/// `plugin add <plugin>@pilothub-local --json`.
pub fn plugin_add_args(plugin_name: &str) -> (r: Vec<String>)
    ensures
        views(r@) == seq!["plugin"@, "add"@, plugin_name@ + "@pilothub-local"@, "--json"@],
{
    args4("plugin", "add", plugin_selector(plugin_name), "--json")
}

/// `plugin remove <plugin>@pilothub-local --json`.
pub fn plugin_remove_args(plugin_name: &str) -> (r: Vec<String>)
    ensures
        views(r@) == seq!["plugin"@, "remove"@, plugin_name@ + "@pilothub-local"@, "--json"@],
{
    args4("plugin", "remove", plugin_selector(plugin_name), "--json")
}

/// `plugin list --available --json`.
pub fn plugin_list_args() -> (r: Vec<String>)
    ensures
        views(r@) == seq!["plugin"@, "list"@, "--available"@, "--json"@],
{
    args4("plugin", "list", owned("--available"), "--json")
}

/// The error of a failed Codex command: `Codex command failed`, followed by
/// `: ` and the trimmed standard error when there is any.
pub open spec fn codex_failure_text(stderr: Seq<char>) -> Seq<char> {
    match non_blank(stderr) {
        Some(d) => "Codex command failed: "@ + d,
        None => "Codex command failed"@,
    }
}

/// The error of a failed Codex command.
pub fn codex_failure_message(stderr: &str) -> (r: String)
    ensures
        r@ == codex_failure_text(stderr@),
{
    let v = chars_of(stderr);
    let t = trim(&v);
    if t.len() == 0 {
        owned("Codex command failed")
    } else {
        let lead = chars_of("Codex command failed: ");
        string_of(&concat(&lead, &t))
    }
}

// ---------------------------------------------------------------------------
// Sources
// ---------------------------------------------------------------------------

/// The kind of a Plugin source, refusing other source types.
pub fn plugin_source_kind(source: &PluginSource) -> (r: Result<PluginSourceKind, CodexPluginError>)
    ensures
        match r {
            Ok(PluginSourceKind::Local) => source.source_type@ == "local"@,
            Ok(PluginSourceKind::Git) => source.source_type@ == "git"@,
            Err(e) => source.source_type@ != "local"@ && source.source_type@ != "git"@ && (e
                matches CodexPluginError::UnsupportedSourceType { source_type: t } && t@
                == source.source_type@),
        },
{
    if str_eq(source.source_type.as_str(), "local") {
        Ok(PluginSourceKind::Local)
    } else if str_eq(source.source_type.as_str(), "git") {
        Ok(PluginSourceKind::Git)
    } else {
        Err(CodexPluginError::UnsupportedSourceType { source_type: source.source_type.clone() })
    }
}

/// `~` and `~/...` expansion of a trimmed local path, given the home
/// directory when it is known.
pub open spec fn expanded_path(raw: Seq<char>, home: Option<Seq<char>>) -> Result<Seq<char>, CodexPluginError> {
    let t = trim_ws(raw);
    if t == seq!['~'] {
        match home {
            Some(h) => Ok(h),
            None => Err(CodexPluginError::HomeUnavailable),
        }
    } else if crate::text::starts_with(t, seq!['~', '/']) {
        match home {
            Some(h) => Ok(join_path(h, t.skip(2))),
            None => Err(CodexPluginError::HomeUnavailable),
        }
    } else {
        Ok(t)
    }
}

/// Expands `~` in a local Plugin path.
pub fn expand_home_path(raw: &str, home: Option<String>) -> (r: Result<String, CodexPluginError>)
    ensures
        match r {
            Ok(p) => expanded_path(raw@, opt_view(home)) == Ok::<Seq<char>, CodexPluginError>(p@),
            Err(e) => expanded_path(raw@, opt_view(home)) == Err::<Seq<char>, CodexPluginError>(e),
        },
{
    let v = chars_of(raw);
    let t = trim(&v);
    let is_home = t.len() == 1 && t[0] == '~';
    assert(is_home <==> t@ == seq!['~']) by {
        if t@ == seq!['~'] {
            assert(t@[0] == '~');
        }
        if is_home {
            assert(t@ =~= seq!['~']);
        }
    }
    if is_home {
        return match home {
            Some(h) => Ok(h),
            None => Err(CodexPluginError::HomeUnavailable),
        };
    }
    let mut tilde_slash: Vec<char> = Vec::new();
    tilde_slash.push('~');
    tilde_slash.push('/');
    assert(tilde_slash@ =~= seq!['~', '/']);
    if crate::text::has_prefix(&t, &tilde_slash) {
        let rest = slice_of(&t, 2, t.len());
        assert(rest@ == t@.skip(2));
        return match home {
            Some(h) => {
                let hv = chars_of(h.as_str());
                Ok(string_of(&crate::paths::join_paths(&hv, &rest)))
            },
            None => Err(CodexPluginError::HomeUnavailable),
        };
    }
    Ok(string_of(&t))
}

/// The cache directory of a Git Plugin source: the first 20 hex digits of
/// the SHA-256 of the reference's UTF-8 bytes, under
/// `<cache>/plugin-sources`.
pub fn git_source_cache_dir(cache: &str, source_ref: &str) -> (r: String)
    ensures
        r@ == join_path(
            join_path(cache@, "plugin-sources"@),
            hex_lower(sha256(vstd::utf8::encode_utf8(source_ref@))).take(20),
        ),
{
    let digest = sha256_digest(source_ref.as_bytes());
    let hex = hex_encode(digest.as_slice());
    let hv = chars_of(hex.as_str());
    proof {
        lemma_hex_len(digest@);
    }
    let short = slice_of(&hv, 0, 20);
    assert(short@ == hv@.take(20));
    let base = join_str(cache, "plugin-sources");
    let bv = chars_of(base.as_str());
    string_of(&crate::paths::join_paths(&bv, &short))
}

/// The cache directory that a Git Plugin source is cloned into.
pub open spec fn git_cache_dir_of(cache: Seq<char>, source_ref: Seq<char>) -> Seq<char> {
    join_path(
        join_path(cache, "plugin-sources"@),
        hex_lower(sha256(vstd::utf8::encode_utf8(source_ref))).take(20),
    )
}

impl CodexPluginAdapter {
    /// Where the Plugin of `source` is read from: the local path with `~`
    /// expanded (given the home directory, when known), or the cache
    /// directory a Git source is cloned into; other source types are
    /// refused.
    pub fn prepare_source(&self, source: &PluginSource, home: Option<String>) -> (r: Result<String, CodexPluginError>)
        ensures
            source.source_type@ == "local"@ ==> match r {
                Ok(p) => expanded_path(source.source_ref@, opt_view(home)) == Ok::<Seq<char>, CodexPluginError>(p@),
                Err(e) => expanded_path(source.source_ref@, opt_view(home)) == Err::<Seq<char>, CodexPluginError>(e),
            },
            source.source_type@ == "git"@ ==> (r matches Ok(p) && p@ == git_cache_dir_of(
                self.layout.cache@,
                source.source_ref@,
            )),
            source.source_type@ != "local"@ && source.source_type@ != "git"@ ==> (r matches Err(
                CodexPluginError::UnsupportedSourceType { source_type: t },
            ) && t@ == source.source_type@),
    {
        proof {
            reveal_strlit("local");
            reveal_strlit("git");
        }
        proof {
            reveal_strlit("local");
            reveal_strlit("git");
            assert("local"@.len() == 5);
            assert("git"@.len() == 3);
            assert("local"@ != "git"@);
        }
        match plugin_source_kind(source) {
            Ok(PluginSourceKind::Local) => expand_home_path(source.source_ref.as_str(), home),
            Ok(PluginSourceKind::Git) => Ok(
                git_source_cache_dir(self.layout.cache.as_str(), source.source_ref.as_str()),
            ),
            Err(e) => Err(e),
        }
    }
}

/// Hex text has two digits per byte.
pub proof fn lemma_hex_len(data: Seq<u8>)
    ensures
        hex_lower(data).len() == 2 * data.len(),
    decreases data.len(),
{
    if data.len() > 0 {
        lemma_hex_len(data.drop_first());
    }
}

} // verus!
