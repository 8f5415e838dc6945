//! Plugin previews: the checks a Plugin passes before installation, made
//! over its manifest and the Skills found under its skills directory.
use vstd::prelude::*;
use super::{
    CodexPluginAdapter, CodexPluginDescriptor, CodexPluginError, PluginPreview,
    PluginSkillDescriptor, PluginSource, ValidationItem, ValidationReport,
};
use super::manifest::{is_strict_semver, plugin_name_check, strict_semver, validate_plugin_name};
use crate::paths::{
    file_name, join_path, join_str, path_file_name, path_starts_with,
    starts_with_path, stays_below, stays_below_root, strip_path_prefix, strip_prefix_path,
};
use crate::sorting::{
    Keyed, KeyedExec, keys_distinct, lemma_sort_keys, lemma_sort_map, lemma_sort_sorted, sort_keyed,
    sorted_keyed, stable_sort,
};
use crate::text::{
    chars_of, concat_str, copy_opt, opt_view, owned, split_any, split_on, str_eq, string_of,
    trim, trim_end_char, trim_end_matches_char, trim_end_matches_seq, trim_end_seq, trim_ws,
    views,
};

verus! {

/// The `interface` object of a Plugin manifest.
#[derive(Clone, Debug, PartialEq, Eq)]
pub struct PluginInterface {
    pub display_name: Option<String>,
    pub capabilities: Option<Vec<String>>,
    pub default_prompt: Option<Vec<String>>,
}

/// What PilotHub reads of `.codex-plugin/plugin.json`: the author as its
/// name, and whether MCP servers, apps or hooks are declared.
#[derive(Clone, Debug, PartialEq, Eq)]
pub struct PluginManifest {
    pub name: String,
    pub version: String,
    pub description: String,
    pub author: Option<String>,
    pub license: Option<String>,
    pub skills: Option<String>,
    pub has_mcp_servers: bool,
    pub has_apps: bool,
    pub has_hooks: bool,
    pub interface: Option<PluginInterface>,
}

/// A `SKILL.md` file found under a Plugin's skills directory: its path, the
/// directory holding it, and its name and description, or why it could not
/// be read as a Skill.
#[derive(Debug, PartialEq, Eq)]
pub struct ScannedSkill {
    pub skill_file: String,
    pub skill_dir: String,
    pub parsed: Result<(String, Option<String>), String>,
}

/// What was found at a Plugin's skills directory: no directory, or the
/// `SKILL.md` files below it in walk order.
#[derive(Debug, PartialEq, Eq)]
pub enum SkillScan {
    NotADirectory,
    Entries(Vec<ScannedSkill>),
}

/// A validation finding as its code and message.
pub open spec fn item_view(i: ValidationItem) -> (Seq<char>, Seq<char>) {
    (i.code@, i.message@)
}

/// The views of a list of findings.
pub open spec fn item_views(v: Seq<ValidationItem>) -> Seq<(Seq<char>, Seq<char>)> {
    v.map_values(|i: ValidationItem| item_view(i))
}

/// A Skill as its name, description and relative path.
pub open spec fn skill_view(d: PluginSkillDescriptor) -> (Seq<char>, Option<Seq<char>>, Seq<char>) {
    (d.name@, opt_view(d.description), d.relative_path@)
}

/// `skill_view` as a value.
pub open spec fn skill_view_fn() -> spec_fn(PluginSkillDescriptor) -> (Seq<char>, Option<Seq<char>>, Seq<char>) {
    |d: PluginSkillDescriptor| skill_view(d)
}

/// The views of a list of Skills.
pub open spec fn skill_views(v: Seq<PluginSkillDescriptor>) -> Seq<(Seq<char>, Option<Seq<char>>, Seq<char>)> {
    v.map_values(skill_view_fn())
}

impl Keyed for (Seq<char>, Option<Seq<char>>, Seq<char>) {
    open spec fn key(&self) -> Seq<char> {
        self.0
    }
}

impl Keyed for PluginSkillDescriptor {
    open spec fn key(&self) -> Seq<char> {
        self.name@
    }
}

impl KeyedExec for PluginSkillDescriptor {
    fn key_chars(&self) -> (r: Vec<char>) {
        chars_of(self.name.as_str())
    }
}

/// A finding with the given code and message.
pub fn validation_item(code: &str, message: String) -> (r: ValidationItem)
    ensures
        item_view(r) == (code@, message@),
{
    ValidationItem { code: owned(code), message }
}

// ---------------------------------------------------------------------------
// Folder name
// ---------------------------------------------------------------------------

/// The folder a Git repository is cloned into: the reference without query
/// or fragment, without trailing `/`, after its last `/` or `:`, without a
/// trailing `.git`.
pub open spec fn git_folder_name(source_ref: Seq<char>) -> Seq<char> {
    let base = split_any(source_ref, seq!['?', '#'])[0];
    let trimmed = trim_end_char(base, '/');
    trim_end_seq(split_any(trimmed, seq!['/', ':']).last(), ".git"@)
}

/// The folder name a Plugin must be named after: the Git folder for a Git
/// source, else the last component of the Plugin root.
pub open spec fn folder_name(source: PluginSource, root: Seq<char>) -> Option<Seq<char>> {
    if source.source_type@ == "git"@ {
        Some(git_folder_name(source.source_ref@))
    } else {
        file_name(root)
    }
}

/// The folder name of a Plugin source.
pub fn source_folder_name(source: &PluginSource, root: &str) -> (r: Option<String>)
    ensures
        opt_view(r) == folder_name(*source, root@),
{
    if str_eq(source.source_type.as_str(), "git") {
        let refv = chars_of(source.source_ref.as_str());
        let mut qs: Vec<char> = Vec::new();
        qs.push('?');
        qs.push('#');
        assert(qs@ =~= seq!['?', '#']);
        let pieces = split_on(&refv, &qs);
        let base = &pieces[0];
        let trimmed = trim_end_matches_char(base, '/');
        let mut seps: Vec<char> = Vec::new();
        seps.push('/');
        seps.push(':');
        assert(seps@ =~= seq!['/', ':']);
        let segments = split_on(&trimmed, &seps);
        let last = &segments[segments.len() - 1];
        let git = chars_of(".git");
        proof {
            reveal_strlit(".git");
        }
        let name = trim_end_matches_seq(last, &git);
        Some(string_of(&name))
    } else {
        let rv = chars_of(root);
        match path_file_name(&rv) {
            Some(n) => Some(string_of(&n)),
            None => None,
        }
    }
}

// ---------------------------------------------------------------------------
// Plugin-relative paths
// ---------------------------------------------------------------------------

/// Where the manifest places the Skills: its `skills` entry, else
/// `./skills/`.
pub open spec fn skills_location_of(m: PluginManifest) -> Seq<char> {
    match m.skills {
        Some(s) => s@,
        None => "./skills/"@,
    }
}

/// The skills location of a manifest.
pub fn skills_location(manifest: &PluginManifest) -> (r: String)
    ensures
        r@ == skills_location_of(*manifest),
{
    match &manifest.skills {
        Some(s) => s.clone(),
        None => owned("./skills/"),
    }
}

/// A path inside a Plugin, written relative to its root: refused when it is
/// absolute or steps up through `..`, else joined to the root.
pub fn plugin_relative_candidate(root: &str, raw: &str) -> (r: Result<String, CodexPluginError>)
    ensures
        r is Ok <==> stays_below(raw@),
        match r {
            Ok(p) => p@ == join_path(root@, raw@),
            Err(e) => e == CodexPluginError::OutsideRoot,
        },
{
    let rv = chars_of(raw);
    if stays_below_root(&rv) {
        Ok(join_str(root, raw))
    } else {
        Err(CodexPluginError::OutsideRoot)
    }
}

/// The resolved (canonical) path of a Plugin component must lie under the
/// resolved Plugin root.
pub fn check_inside_root(canonical_root: &str, canonical_candidate: &str) -> (r: Result<(), CodexPluginError>)
    ensures
        r is Ok <==> path_starts_with(canonical_candidate@, canonical_root@),
        r matches Err(e) ==> e == CodexPluginError::OutsideRoot,
{
    let c = chars_of(canonical_candidate);
    let b = chars_of(canonical_root);
    if starts_with_path(&c, &b) {
        Ok(())
    } else {
        Err(CodexPluginError::OutsideRoot)
    }
}

// ---------------------------------------------------------------------------
// Skills
// ---------------------------------------------------------------------------

/// The directory of a Skill relative to the Plugin root (the whole directory
/// when it is not below the root), with `\` written as `/`.
pub open spec fn relative_dir(root: Seq<char>, dir: Seq<char>) -> Seq<char> {
    let rel = match strip_path_prefix(dir, root) {
        Some(t) => t,
        None => dir,
    };
    rel.map_values(|c: char| if c == '\\' { '/' } else { c })
}

/// The relative directory of a Skill.
pub fn relative_skill_dir(plugin_root: &str, skill_dir: &str) -> (r: String)
    ensures
        r@ == relative_dir(plugin_root@, skill_dir@),
{
    let d = chars_of(skill_dir);
    let b = chars_of(plugin_root);
    let rel = match strip_prefix_path(&d, &b) {
        Some(t) => t,
        None => d,
    };
    let mut out: Vec<char> = Vec::new();
    let mut i: usize = 0;
    while i < rel.len()
        invariant
            i <= rel.len(),
            out@ == rel@.take(i as int).map_values(|c: char| if c == '\\' { '/' } else { c }),
        decreases rel.len() - i,
    {
        let c = rel[i];
        if c == '\\' {
            out.push('/');
        } else {
            out.push(c);
        }
        assert(rel@.take(i + 1) =~= rel@.take(i as int).push(c));
        assert(out@ =~= rel@.take(i + 1).map_values(|c: char| if c == '\\' { '/' } else { c }));
        i = i + 1;
    }
    assert(rel@.take(rel.len() as int) =~= rel@);
    string_of(&out)
}

/// Some Skill already kept has this name.
pub open spec fn name_taken(skills: Seq<(Seq<char>, Option<Seq<char>>, Seq<char>)>, name: Seq<char>) -> bool {
    exists|k: int| 0 <= k < skills.len() && #[trigger] skills[k].0 == name
}

/// The Skills kept and the findings made while reading the `SKILL.md` files
/// in order: one that cannot be read is an `invalid_skill` finding with its
/// path; one whose name was already kept is a `duplicate_skill` finding;
/// every other one is kept.
pub open spec fn scanned(root: Seq<char>, entries: Seq<ScannedSkill>) -> (
    Seq<(Seq<char>, Option<Seq<char>>, Seq<char>)>,
    Seq<(Seq<char>, Seq<char>)>,
)
    decreases entries.len(),
{
    if entries.len() == 0 {
        (Seq::empty(), Seq::empty())
    } else {
        let prev = scanned(root, entries.drop_last());
        let e = entries.last();
        match e.parsed {
            Err(msg) => (prev.0, prev.1.push(("invalid_skill"@, e.skill_file@ + ": "@ + msg@))),
            Ok(parsed) => if name_taken(prev.0, parsed.0@) {
                (prev.0, prev.1.push(("duplicate_skill"@, "Duplicate Skill name: "@ + parsed.0@)))
            } else {
                (prev.0.push((parsed.0@, opt_view(parsed.1), relative_dir(root, e.skill_dir@))), prev.1)
            },
        }
    }
}

/// The Skills and findings of a scan; a missing directory is an
/// `invalid_skills_path` finding and no Skill.
pub open spec fn scan_outcome(root: Seq<char>, scan: SkillScan) -> (
    Seq<(Seq<char>, Option<Seq<char>>, Seq<char>)>,
    Seq<(Seq<char>, Seq<char>)>,
) {
    match scan {
        SkillScan::NotADirectory => (
            Seq::empty(),
            seq![("invalid_skills_path"@, "Configured skills directory does not exist"@)],
        ),
        SkillScan::Entries(v) => scanned(root, v@),
    }
}

/// The Skills a scan keeps have distinct names.
pub proof fn lemma_scanned_names_distinct(root: Seq<char>, entries: Seq<ScannedSkill>)
    ensures
        keys_distinct(scanned(root, entries).0),
    decreases entries.len(),
{
    if entries.len() > 0 {
        let prev = scanned(root, entries.drop_last());
        lemma_scanned_names_distinct(root, entries.drop_last());
        match entries.last().parsed {
            Ok(parsed) => if !name_taken(prev.0, parsed.0@) {
                let kept = prev.0.push((parsed.0@, opt_view(parsed.1), relative_dir(root, entries.last().skill_dir@)));
                assert forall|i: int, j: int| 0 <= i < j < kept.len() implies #[trigger] kept[i].key()
                    != #[trigger] kept[j].key() by {
                    if j == kept.len() - 1 {
                        if kept[i].key() == kept[j].key() {
                            assert(prev.0[i].0 == parsed.0@);
                        }
                    } else {
                        assert(kept[i] == prev.0[i] && kept[j] == prev.0[j]);
                    }
                }
            },
            Err(_) => {},
        }
    }
}

/// The Skills of a preview have distinct names and come in name order.
pub proof fn law_preview_skills_distinct_sorted(root: Seq<char>, scan: SkillScan)
    ensures
        sorted_keyed(sort_keyed(scan_outcome(root, scan).0)),
        keys_distinct(sort_keyed(scan_outcome(root, scan).0)),
{
    match scan {
        SkillScan::Entries(v) => lemma_scanned_names_distinct(root, v@),
        SkillScan::NotADirectory => {},
    }
    lemma_sort_sorted(scan_outcome(root, scan).0);
    lemma_sort_keys(scan_outcome(root, scan).0);
}

/// Whether a Skill of this name is already kept.
fn skill_name_taken(skills: &Vec<PluginSkillDescriptor>, name: &str) -> (r: bool)
    ensures
        r == name_taken(skill_views(skills@), name@),
{
    let mut i: usize = 0;
    while i < skills.len()
        invariant
            i <= skills.len(),
            forall|k: int| 0 <= k < i ==> #[trigger] skill_views(skills@)[k].0 != name@,
        decreases skills.len() - i,
    {
        if str_eq(skills[i].name.as_str(), name) {
            assert(skill_views(skills@)[i as int].0 == name@);
            return true;
        }
        i = i + 1;
    }
    false
}

/// Reads the scanned `SKILL.md` files into Skills and findings.
pub fn scan_skills(plugin_root: &str, scan: &SkillScan) -> (r: (Vec<PluginSkillDescriptor>, Vec<ValidationItem>))
    ensures
        skill_views(r.0@) == scan_outcome(plugin_root@, *scan).0,
        item_views(r.1@) == scan_outcome(plugin_root@, *scan).1,
{
    match scan {
        SkillScan::NotADirectory => {
            let mut errors: Vec<ValidationItem> = Vec::new();
            errors.push(
                validation_item("invalid_skills_path", owned("Configured skills directory does not exist")),
            );
            let skills: Vec<PluginSkillDescriptor> = Vec::new();
            assert(skill_views(skills@) =~= Seq::empty());
            assert(item_views(errors@) =~= scan_outcome(plugin_root@, *scan).1);
            (skills, errors)
        },
        SkillScan::Entries(entries) => {
            let mut skills: Vec<PluginSkillDescriptor> = Vec::new();
            let mut errors: Vec<ValidationItem> = Vec::new();
            let mut i: usize = 0;
            assert(entries@.take(0) =~= Seq::<ScannedSkill>::empty());
            assert(skill_views(skills@) =~= Seq::empty());
            assert(item_views(errors@) =~= Seq::empty());
            while i < entries.len()
                invariant
                    i <= entries.len(),
                    skill_views(skills@) == scanned(plugin_root@, entries@.take(i as int)).0,
                    item_views(errors@) == scanned(plugin_root@, entries@.take(i as int)).1,
                decreases entries.len() - i,
            {
                let e = &entries[i];
                assert(entries@.take(i + 1).drop_last() =~= entries@.take(i as int));
                assert(entries@.take(i + 1).last() == entries@[i as int]);
                let ghost old_skills = skill_views(skills@);
                let ghost old_errors = item_views(errors@);
                match &e.parsed {
                    Err(msg) => {
                        let head = concat_str(e.skill_file.as_str(), ": ");
                        let text = concat_str(head.as_str(), msg.as_str());
                        errors.push(validation_item("invalid_skill", text));
                        assert(item_views(errors@) =~= old_errors.push(
                            ("invalid_skill"@, e.skill_file@ + ": "@ + msg@),
                        ));
                    },
                    Ok(parsed) => {
                        if skill_name_taken(&skills, parsed.0.as_str()) {
                            let text = concat_str("Duplicate Skill name: ", parsed.0.as_str());
                            errors.push(validation_item("duplicate_skill", text));
                            assert(item_views(errors@) =~= old_errors.push(
                                ("duplicate_skill"@, "Duplicate Skill name: "@ + parsed.0@),
                            ));
                        } else {
                            let d = PluginSkillDescriptor {
                                name: parsed.0.clone(),
                                description: copy_opt(&parsed.1),
                                relative_path: relative_skill_dir(plugin_root, e.skill_dir.as_str()),
                            };
                            skills.push(d);
                            assert(skill_views(skills@) =~= old_skills.push(skill_view(d)));
                        }
                    },
                }
                i = i + 1;
            }
            assert(entries@.take(entries.len() as int) =~= entries@);
            (skills, errors)
        },
    }
}

// ---------------------------------------------------------------------------
// The preview
// ---------------------------------------------------------------------------

/// The findings on the manifest itself, in this order: a name that is not
/// lower-case kebab-case of 1 to 64 bytes, a folder not named after the
/// Plugin, a version that is not strict semantic versioning, a blank
/// description, and declared MCP servers, apps or hooks.
pub open spec fn manifest_errors(m: PluginManifest, folder: Option<Seq<char>>) -> Seq<(Seq<char>, Seq<char>)> {
    let none = Seq::<(Seq<char>, Seq<char>)>::empty();
    let a = match plugin_name_check(m.name@) {
        Err(e) => seq![("invalid_name"@, e.message())],
        Ok(_) => none,
    };
    let b = if folder != Some(m.name@) {
        seq![("folder_name_mismatch"@, "Plugin folder name must match plugin.json name"@)]
    } else {
        none
    };
    let c = if !strict_semver(m.version@) {
        seq![("invalid_version"@, "Plugin version must use semantic versioning"@)]
    } else {
        none
    };
    let d = if trim_ws(m.description@).len() == 0 {
        seq![("missing_description"@, "Plugin description is required"@)]
    } else {
        none
    };
    let e = if m.has_mcp_servers || m.has_apps || m.has_hooks {
        seq![("unsupported_components"@, "Alpha.1 only supports Skill-only Plugins"@)]
    } else {
        none
    };
    a + b + c + d + e
}

/// The errors of a preview: the manifest findings, then those of the Skill
/// scan, then `missing_skills` when no Skill was kept.
pub open spec fn preview_errors(m: PluginManifest, folder: Option<Seq<char>>, root: Seq<char>, scan: SkillScan) -> Seq<(Seq<char>, Seq<char>)> {
    let outcome = scan_outcome(root, scan);
    manifest_errors(m, folder) + outcome.1 + if outcome.0.len() == 0 {
        seq![("missing_skills"@, "Plugin must contain at least one valid SKILL.md"@)]
    } else {
        Seq::empty()
    }
}

/// The default prompts of a manifest (none without an interface).
pub open spec fn prompts_of(m: PluginManifest) -> Seq<String> {
    match m.interface {
        Some(i) => match i.default_prompt {
            Some(p) => p@,
            None => Seq::empty(),
        },
        None => Seq::empty(),
    }
}

/// The capabilities of a manifest (none without an interface).
pub open spec fn capabilities_of(m: PluginManifest) -> Seq<String> {
    match m.interface {
        Some(i) => match i.capabilities {
            Some(c) => c@,
            None => Seq::empty(),
        },
        None => Seq::empty(),
    }
}

/// The display name of a manifest: the interface's, else the Plugin name.
pub open spec fn display_name_of(m: PluginManifest) -> Seq<char> {
    match m.interface {
        Some(i) => match i.display_name {
            Some(d) => d@,
            None => m.name@,
        },
        None => m.name@,
    }
}

/// The warnings of a preview: no author, no license, more than three
/// default prompts.
pub open spec fn preview_warnings(m: PluginManifest) -> Seq<(Seq<char>, Seq<char>)> {
    let none = Seq::<(Seq<char>, Seq<char>)>::empty();
    (if m.author is None {
        seq![("missing_author"@, "Plugin author metadata is recommended"@)]
    } else {
        none
    }) + (if m.license is None {
        seq![("missing_license"@, "Plugin license metadata is recommended"@)]
    } else {
        none
    }) + (if prompts_of(m).len() > 3 {
        seq![("prompt_limit"@, "Only the first three default prompts are used by Codex"@)]
    } else {
        none
    })
}

/// Appends findings to a list of findings.
fn append_items(dst: &mut Vec<ValidationItem>, src: Vec<ValidationItem>)
    ensures
        item_views(final(dst)@) == item_views(old(dst)@) + item_views(src@),
{
    let mut other = src;
    let ghost a = dst@;
    let ghost b = other@;
    dst.append(&mut other);
    assert(item_views(dst@) =~= item_views(a) + item_views(b));
}

/// The manifest findings.
fn manifest_error_items(m: &PluginManifest, folder: &Option<String>) -> (r: Vec<ValidationItem>)
    ensures
        item_views(r@) == manifest_errors(*m, opt_view(*folder)),
{
    let mut r: Vec<ValidationItem> = Vec::new();
    let ghost none = Seq::<(Seq<char>, Seq<char>)>::empty();
    match validate_plugin_name(m.name.as_str()) {
        Err(e) => r.push(validation_item("invalid_name", e.to_string())),
        Ok(_) => {},
    }
    let ghost a = item_views(r@);
    let folder_ok = match folder {
        Some(f) => str_eq(f.as_str(), m.name.as_str()),
        None => false,
    };
    assert(folder_ok <==> opt_view(*folder) == Some(m.name@));
    if !folder_ok {
        r.push(
            validation_item(
                "folder_name_mismatch",
                owned("Plugin folder name must match plugin.json name"),
            ),
        );
    }
    let ghost b = item_views(r@);
    if !is_strict_semver(m.version.as_str()) {
        r.push(validation_item("invalid_version", owned("Plugin version must use semantic versioning")));
    }
    let ghost c = item_views(r@);
    let dv = chars_of(m.description.as_str());
    if trim(&dv).len() == 0 {
        r.push(validation_item("missing_description", owned("Plugin description is required")));
    }
    let ghost d = item_views(r@);
    if m.has_mcp_servers || m.has_apps || m.has_hooks {
        r.push(
            validation_item("unsupported_components", owned("Alpha.1 only supports Skill-only Plugins")),
        );
    }
    assert(item_views(r@) =~= manifest_errors(*m, opt_view(*folder)));
    r
}

/// The number of default prompts of a manifest.
fn prompt_count(m: &PluginManifest) -> (r: usize)
    ensures
        r == prompts_of(*m).len(),
{
    match &m.interface {
        Some(i) => match &i.default_prompt {
            Some(p) => p.len(),
            None => 0,
        },
        None => 0,
    }
}

/// The preview warnings.
fn preview_warning_items(m: &PluginManifest, prompt_count: usize) -> (r: Vec<ValidationItem>)
    requires
        prompt_count == prompts_of(*m).len(),
    ensures
        item_views(r@) == preview_warnings(*m),
{
    let mut r: Vec<ValidationItem> = Vec::new();
    if m.author.is_none() {
        r.push(validation_item("missing_author", owned("Plugin author metadata is recommended")));
    }
    if m.license.is_none() {
        r.push(validation_item("missing_license", owned("Plugin license metadata is recommended")));
    }
    if prompt_count > 3 {
        r.push(
            validation_item(
                "prompt_limit",
                owned("Only the first three default prompts are used by Codex"),
            ),
        );
    }
    assert(item_views(r@) =~= preview_warnings(*m));
    r
}

/// The preview of a Plugin at `root`, read from `source`: its descriptor,
/// with the Skills sorted stably by name and at most three default prompts,
/// and its validation report, valid when there is no error.
pub fn plugin_preview(root: &str, source: PluginSource, manifest: PluginManifest, scan: &SkillScan) -> (r: PluginPreview)
    ensures
        r.descriptor.name@ == manifest.name@,
        r.descriptor.display_name@ == display_name_of(manifest),
        r.descriptor.version@ == manifest.version@,
        r.descriptor.description@ == manifest.description@,
        opt_view(r.descriptor.author) == opt_view(manifest.author),
        opt_view(r.descriptor.license) == opt_view(manifest.license),
        r.descriptor.source == source,
        r.descriptor.manifest_path@ == join_path(root@, ".codex-plugin/plugin.json"@),
        skill_views(r.descriptor.skills@) == sort_keyed(scan_outcome(root@, *scan).0),
        views(r.descriptor.capabilities@) == views(capabilities_of(manifest)),
        views(r.descriptor.default_prompts@) == views(prompts_of(manifest)).take(
            if prompts_of(manifest).len() > 3 { 3 } else { prompts_of(manifest).len() as int },
        ),
        item_views(r.validation.errors@) == preview_errors(
            manifest,
            folder_name(source, root@),
            root@,
            *scan,
        ),
        item_views(r.validation.warnings@) == preview_warnings(manifest),
        r.validation.valid <==> r.validation.errors@.len() == 0,
{
    let folder = source_folder_name(&source, root);
    let mut errors = manifest_error_items(&manifest, &folder);
    let (skills, scan_errors) = scan_skills(root, scan);
    append_items(&mut errors, scan_errors);
    let no_skills = skills.len() == 0;
    let ghost unsorted = skills@;
    let sorted = stable_sort(skills);
    proof {
        lemma_sort_map(unsorted, skill_view_fn());
        assert(unsorted.map_values(skill_view_fn()) == skill_views(unsorted));
    }
    let ghost before_missing = item_views(errors@);
    if no_skills {
        errors.push(
            validation_item(
                "missing_skills",
                owned("Plugin must contain at least one valid SKILL.md"),
            ),
        );
        assert(item_views(errors@) =~= before_missing.push(
            ("missing_skills"@, "Plugin must contain at least one valid SKILL.md"@),
        ));
    } else {
        assert(before_missing + Seq::<(Seq<char>, Seq<char>)>::empty() =~= before_missing);
    }
    let count = prompt_count(&manifest);
    let warnings = preview_warning_items(&manifest, count);
    let ghost m = manifest;
    let (display_name, capabilities, prompts) = match manifest.interface {
        Some(i) => {
            let d = match i.display_name {
                Some(d) => d,
                None => manifest.name.clone(),
            };
            let c = match i.capabilities {
                Some(c) => c,
                None => Vec::new(),
            };
            let p = match i.default_prompt {
                Some(p) => p,
                None => Vec::new(),
            };
            (d, c, p)
        },
        None => (manifest.name.clone(), Vec::new(), Vec::new()),
    };
    let mut default_prompts = prompts;
    default_prompts.truncate(3);
    assert(views(default_prompts@) =~= views(prompts_of(m)).take(
        if prompts_of(m).len() > 3 { 3 } else { prompts_of(m).len() as int },
    ));
    let valid = errors.len() == 0;
    let manifest_path = join_str(root, ".codex-plugin/plugin.json");
    PluginPreview {
        descriptor: CodexPluginDescriptor {
            name: manifest.name,
            display_name,
            version: manifest.version,
            description: manifest.description,
            author: manifest.author,
            license: manifest.license,
            source,
            manifest_path,
            skills: sorted,
            capabilities,
            default_prompts,
        },
        validation: ValidationReport { valid, errors, warnings },
    }
}

impl CodexPluginAdapter {
    /// The preview of the Plugin found at `root` (see `plugin_preview`).
    pub fn inspect(&self, root: &str, source: PluginSource, manifest: PluginManifest, scan: &SkillScan) -> (r: PluginPreview)
        ensures
            r.descriptor.name@ == manifest.name@,
            r.descriptor.display_name@ == display_name_of(manifest),
            r.descriptor.version@ == manifest.version@,
            r.descriptor.description@ == manifest.description@,
            opt_view(r.descriptor.author) == opt_view(manifest.author),
            opt_view(r.descriptor.license) == opt_view(manifest.license),
            r.descriptor.source == source,
            r.descriptor.manifest_path@ == join_path(root@, ".codex-plugin/plugin.json"@),
            skill_views(r.descriptor.skills@) == sort_keyed(scan_outcome(root@, *scan).0),
            views(r.descriptor.capabilities@) == views(capabilities_of(manifest)),
            views(r.descriptor.default_prompts@) == views(prompts_of(manifest)).take(
                if prompts_of(manifest).len() > 3 { 3 } else { prompts_of(manifest).len() as int },
            ),
            item_views(r.validation.errors@) == preview_errors(
                manifest,
                folder_name(source, root@),
                root@,
                *scan,
            ),
            item_views(r.validation.warnings@) == preview_warnings(manifest),
            r.validation.valid <==> r.validation.errors@.len() == 0,
    {
        plugin_preview(root, source, manifest, scan)
    }
}

} // verus!
