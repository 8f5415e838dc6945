//! Plugin installation and removal as transactions.
//!
//! An installation stages the Plugin, verifies the staged copy, moves an
//! existing version aside, activates the new one, records it in the PilotHub
//! marketplace and has Codex register the marketplace and add the Plugin.
//! When a step after activation fails, the new version is removed, the
//! previous one restored and, for a Codex failure, the marketplace file
//! restored and a marketplace registration made by this installation
//! removed. The staging directory is removed before the outcome is given.
//!
//! The decisions are made here, one step at a time: from the current state
//! and the event that the last action produced, to the next state and the
//! next action. The caller performs each action on disk or with Codex and
//! reports how it went.
use vstd::prelude::*;
use super::{
    CodexListEntry, CodexPluginAdapter, CodexPluginError, PluginInstallationStatus, PluginPreview,
    StatusView, codex_failure_message, codex_failure_text, listed, marketplace_add_args,
    marketplace_list_args, marketplace_registered, marketplace_remove_args, plugin_add_args,
    plugin_list_args, plugin_remove_args, status_from_list, status_view,
};
use super::manifest::{lemma_plugin_name_is_path_name, plugin_name_check, validate_plugin_name};
use super::preview::item_views;
use crate::ids::{is_fresh_id, lemma_fresh_id_is_name, random_id};
use crate::paths::{is_single_name, lemma_concat_name, one_level_below, components, join_path, join_str, path_components, path_of, root_comp};
use crate::text::{
    chars_of, concat_str, join, join_all, join_strings, opt_view, owned, push_string, seqs,
    string_of, views,
};

verus! {

// ---------------------------------------------------------------------------
// Codex output
// ---------------------------------------------------------------------------

/// What PilotHub reads from the JSON output of a Codex command.
#[derive(Clone, Copy, Debug, PartialEq, Eq)]
pub enum CodexRead {
    Nothing,
    Marketplaces,
    Plugins,
}

/// The JSON output of a Codex command, as the fields PilotHub reads: the
/// names of the `marketplaces` entries, or the `installed` entries.
#[derive(Debug)]
pub enum CodexBody {
    Other,
    Marketplaces { names: Vec<Option<String>> },
    Plugins { entries: Vec<CodexListEntry> },
}

/// How a Codex command ended: not started (with the reason), or exited with
/// a status, its standard error, and its output parsed as JSON or the parse
/// error.
#[derive(Debug)]
pub enum CodexOutput {
    NotStarted { error: String },
    Exited { success: bool, stderr: String, body: Result<CodexBody, String> },
}

/// The result of a Codex command: the reason it did not start, the failure
/// of a command that exited unsuccessfully, the parse error of its output,
/// or its output.
pub open spec fn codex_reply(out: CodexOutput) -> Result<CodexBody, Seq<char>> {
    match out {
        CodexOutput::NotStarted { error } => Err(error@),
        CodexOutput::Exited { success, stderr, body } => if !success {
            Err(codex_failure_text(stderr@))
        } else {
            match body {
                Ok(b) => Ok(b),
                Err(msg) => Err("parse Codex JSON output: "@ + msg@),
            }
        },
    }
}

/// The result of a Codex command.
pub fn codex_result(out: CodexOutput) -> (r: Result<CodexBody, String>)
    ensures
        match r {
            Ok(b) => codex_reply(out) == Ok::<CodexBody, Seq<char>>(b),
            Err(e) => codex_reply(out) == Err::<CodexBody, Seq<char>>(e@),
        },
{
    match out {
        CodexOutput::NotStarted { error } => Err(error),
        CodexOutput::Exited { success, stderr, body } => {
            if !success {
                Err(codex_failure_message(stderr.as_str()))
            } else {
                match body {
                    Ok(b) => Ok(b),
                    Err(msg) => Err(concat_str("parse Codex JSON output: ", msg.as_str())),
                }
            }
        },
    }
}

/// The `installed` entries of a Codex listing (none in other output).
pub open spec fn body_entries(b: CodexBody) -> Seq<CodexListEntry> {
    match b {
        CodexBody::Plugins { entries } => entries@,
        _ => Seq::empty(),
    }
}

/// The output lists PilotHub's marketplace.
pub open spec fn body_registered(b: CodexBody) -> bool {
    match b {
        CodexBody::Marketplaces { names } => exists|i: int|
            0 <= i < names@.len() && opt_view(#[trigger] names@[i]) == Some("pilothub-local"@),
        _ => false,
    }
}

/// The entries of a Plugin listing, none when the listing failed.
pub fn listed_entries(out: CodexOutput) -> (r: Vec<CodexListEntry>)
    ensures
        r@ == match codex_reply(out) {
            Ok(b) => body_entries(b),
            Err(_) => Seq::empty(),
        },
{
    match codex_result(out) {
        Ok(CodexBody::Plugins { entries }) => entries,
        _ => Vec::new(),
    }
}

// ---------------------------------------------------------------------------
// Events
// ---------------------------------------------------------------------------

/// How the last action went: done, failed with an error, whether the target
/// directory exists, how a Codex command ended, or what a removal left
/// behind (the Plugin directory, its marketplace entry, a PilotHub-owned
/// Launcher).
#[derive(Debug)]
pub enum StepEvent {
    Done,
    Failed { error: String },
    TargetExists { exists: bool },
    Codex { output: CodexOutput },
    Residue { plugin_files: bool, marketplace_entry: bool, launcher: bool },
}

/// The Codex result an event carries: a failure is an error, and any other
/// event an output that PilotHub reads nothing from.
pub open spec fn event_codex(e: StepEvent) -> Result<CodexBody, Seq<char>> {
    match e {
        StepEvent::Codex { output } => codex_reply(output),
        StepEvent::Failed { error } => Err(error@),
        _ => Ok(CodexBody::Other),
    }
}

/// The Codex result of an event.
pub(crate) fn event_result(e: StepEvent) -> (r: Result<CodexBody, String>)
    ensures
        match r {
            Ok(b) => event_codex(e) == Ok::<CodexBody, Seq<char>>(b),
            Err(m) => event_codex(e) == Err::<CodexBody, Seq<char>>(m@),
        },
{
    match e {
        StepEvent::Codex { output } => codex_result(output),
        StepEvent::Failed { error } => Err(error),
        _ => Ok(CodexBody::Other),
    }
}

/// The event reports a failure.
pub open spec fn event_failed(e: StepEvent) -> Option<Seq<char>> {
    match e {
        StepEvent::Failed { error } => Some(error@),
        _ => None,
    }
}

/// Whether the listing reports PilotHub's marketplace.
pub(crate) fn registered_in(b: &CodexBody) -> (r: bool)
    ensures
        r == body_registered(*b),
{
    match b {
        CodexBody::Marketplaces { names } => marketplace_registered(names.as_slice()),
        _ => false,
    }
}

/// The status of a Plugin in a listing.
pub(crate) fn status_in(b: &CodexBody, plugin_name: &str) -> (r: Option<PluginInstallationStatus>)
    ensures
        match r {
            Some(s) => listed(body_entries(*b), plugin_name@) == Some(status_view(s)),
            None => listed(body_entries(*b), plugin_name@) is None,
        },
{
    match b {
        CodexBody::Plugins { entries } => status_from_list(entries.as_slice(), plugin_name),
        _ => {
            assert(body_entries(*b) =~= Seq::<CodexListEntry>::empty());
            None
        },
    }
}

// ---------------------------------------------------------------------------
// The installation plan
// ---------------------------------------------------------------------------

/// The paths of one installation: the Plugin's source root, its installed
/// directory, the staging directory and the staged copy in it, the backup of
/// a previous version, the marketplace root registered with Codex and the
/// marketplace file.
#[derive(Clone, Debug)]
pub struct InstallPlan {
    pub plugin_name: String,
    pub source_root: String,
    pub target: String,
    pub staging_id: String,
    pub staging_root: String,
    pub staging_plugin: String,
    pub backup_id: String,
    pub backup: String,
    pub marketplace_root: String,
    pub marketplace_file: String,
}

/// `Path::parent`: the path without its last component; none for the root
/// or an empty path.
pub open spec fn parent_of(p: Seq<char>) -> Option<Seq<char>> {
    let c = components(p);
    if c.len() == 0 || c.last() == root_comp() {
        None
    } else {
        Some(path_of(c.drop_last()))
    }
}

/// The parent of a path.
pub fn parent_path(p: &str) -> (r: Option<String>)
    ensures
        opt_view(r) == parent_of(p@),
{
    let pv = chars_of(p);
    let comps = path_components(&pv);
    if comps.len() == 0 {
        return None;
    }
    let last = &comps[comps.len() - 1];
    let is_root = last.len() == 1 && last[0] == '/';
    assert(is_root <==> last@ == root_comp()) by {
        if last@ == root_comp() {
            assert(last@[0] == '/');
        }
        if is_root {
            assert(last@ =~= root_comp());
        }
    }
    assert(components(pv@).last() == last@);
    if is_root {
        return None;
    }
    let mut rest: Vec<Vec<char>> = Vec::new();
    let mut i: usize = 0;
    let n = comps.len() - 1;
    while i < n
        invariant
            n == comps.len() - 1,
            i <= n,
            seqs(comps@) == components(pv@),
            seqs(rest@) == components(pv@).take(i as int),
        decreases n - i,
    {
        let ghost before = seqs(rest@);
        rest.push(comps[i].clone());
        assert(seqs(rest@) =~= before.push(comps@[i as int]@));
        assert(components(pv@).take(i + 1) =~= components(pv@).take(i as int).push(
            components(pv@)[i as int],
        ));
        i = i + 1;
    }
    let ghost kept = components(pv@).drop_last();
    assert(seqs(rest@) =~= kept);
    let mut slash: Vec<char> = Vec::new();
    slash.push('/');
    assert(slash@ =~= seq!['/']);
    if rest.len() > 0 && rest[0].len() == 1 && rest[0][0] == '/' {
        assert(kept[0] =~= root_comp());
        let mut tail: Vec<Vec<char>> = Vec::new();
        let mut j: usize = 1;
        while j < rest.len()
            invariant
                1 <= j <= rest.len(),
                seqs(rest@) == kept,
                seqs(tail@) == kept.subrange(1, j as int),
            decreases rest.len() - j,
        {
            let ghost before = seqs(tail@);
            tail.push(rest[j].clone());
            assert(seqs(tail@) =~= before.push(rest@[j as int]@));
            assert(kept.subrange(1, j + 1) =~= kept.subrange(1, j as int).push(kept[j as int]));
            j = j + 1;
        }
        assert(seqs(tail@) =~= kept.drop_first());
        let joined = join_all(&tail, &slash);
        Some(string_of(&crate::text::concat(&slash, &joined)))
    } else {
        if rest.len() > 0 {
            assert(!(kept[0] == root_comp())) by {
                if kept[0] == root_comp() {
                    assert(rest@[0]@ == root_comp());
                    assert(rest@[0]@[0] == '/');
                }
            }
        }
        Some(string_of(&join_all(&rest, &slash)))
    }
}

/// The messages of a validation's errors joined by `; `.
pub open spec fn error_messages(errors: Seq<super::ValidationItem>) -> Seq<char> {
    join(item_views(errors).map_values(|i: (Seq<char>, Seq<char>)| i.1), "; "@)
}

/// The plan of an installation, given two fresh identifiers.
pub open spec fn plan_matches(
    plan: InstallPlan,
    adapter: CodexPluginAdapter,
    preview: PluginPreview,
    source_root: Seq<char>,
) -> bool {
    let name = preview.descriptor.name@;
    &&& plan.plugin_name@ == name
    &&& plan.source_root@ == source_root
    &&& plan.target@ == join_path(adapter.paths.plugins@, name)
    &&& is_fresh_id(plan.staging_id@)
    &&& plan.staging_root@ == join_path(adapter.paths.staging@, name + "-"@ + plan.staging_id@)
    &&& plan.staging_plugin@ == join_path(plan.staging_root@, name)
    &&& is_fresh_id(plan.backup_id@)
    &&& plan.backup@ == join_path(adapter.paths.backups@, name + "-"@ + plan.backup_id@)
    &&& plan.marketplace_root@ == adapter.paths.marketplace_root@
    &&& plan.marketplace_file@ == adapter.paths.marketplace_file@
}

/// The installed directory, the staging directory and the backup of a plan
/// each lie one level below their roots.
pub open spec fn plan_stays_below(plan: InstallPlan, adapter: CodexPluginAdapter) -> bool {
    &&& one_level_below(plan.target@, adapter.paths.plugins@)
    &&& one_level_below(plan.staging_root@, adapter.paths.staging@)
    &&& one_level_below(plan.backup@, adapter.paths.backups@)
}

/// An installation of a Plugin with a valid name never reaches outside
/// PilotHub's Plugin, staging and backup directories: its directories are
/// one level below them.
pub proof fn law_plan_dirs_stay_below(plan: InstallPlan, adapter: CodexPluginAdapter, preview: PluginPreview, root: Seq<char>)
    requires
        plan_matches(plan, adapter, preview, root),
        plugin_name_check(preview.descriptor.name@) is Ok,
    ensures
        plan_stays_below(plan, adapter),
{
    let name = preview.descriptor.name@;
    lemma_plugin_name_is_path_name(name);
    lemma_fresh_id_is_name(plan.staging_id@);
    lemma_fresh_id_is_name(plan.backup_id@);
    let head = name + "-"@;
    assert forall|i: int| 0 <= i < head.len() implies #[trigger] head[i] != '/' by {
        reveal_strlit("-");
        if i < name.len() {
            assert(head[i] == name[i]);
        } else {
            assert(head[i] == "-"@[i - name.len()]);
        }
    }
    lemma_concat_name(name + "-"@, plan.staging_id@);
    lemma_concat_name(name + "-"@, plan.backup_id@);
    assert(is_single_name(name + "-"@ + plan.staging_id@));
    assert(is_single_name(name + "-"@ + plan.backup_id@));
}

/// The messages of validation errors, joined with `; `.
pub(crate) fn joined_error_messages(errors: &Vec<super::ValidationItem>) -> (r: String)
    ensures
        r@ == error_messages(errors@),
{
    let mut messages: Vec<String> = Vec::new();
    let mut i: usize = 0;
    while i < errors.len()
        invariant
            i <= errors.len(),
            views(messages@) == item_views(errors@).map_values(
                |it: (Seq<char>, Seq<char>)| it.1,
            ).take(i as int),
        decreases errors.len() - i,
    {
        push_string(&mut messages, errors[i].message.clone());
        assert(views(messages@) =~= item_views(errors@).map_values(
            |it: (Seq<char>, Seq<char>)| it.1,
        ).take(i + 1));
        i = i + 1;
    }
    assert(item_views(errors@).map_values(|it: (Seq<char>, Seq<char>)| it.1).take(
        errors.len() as int,
    ) =~= item_views(errors@).map_values(|it: (Seq<char>, Seq<char>)| it.1));
    join_strings(&messages, "; ")
}

/// The plan of installing a previewed Plugin: refused with the joined error
/// messages when the preview is not valid, with the name error when the
/// Plugin name is not valid, and when the Plugin root cannot be found two
/// levels above the manifest; else the paths of the installation under two
/// fresh identifiers, one level below PilotHub's directories.
pub fn install_plan(adapter: &CodexPluginAdapter, preview: &PluginPreview) -> (r: Result<InstallPlan, CodexPluginError>)
    ensures
        !preview.validation.valid ==> (r matches Err(CodexPluginError::Invalid { messages })
            && messages@ == error_messages(preview.validation.errors@)),
        preview.validation.valid ==> match plugin_name_check(preview.descriptor.name@) {
            Err(e) => (r matches Err(CodexPluginError::InvalidName { message }) && message@ == e.message()),
            Ok(_) => match parent_of(preview.descriptor.manifest_path@) {
                Some(dir) => match parent_of(dir) {
                    Some(root) => (r matches Ok(plan) && plan_matches(plan, *adapter, *preview, root)
                        && plan_stays_below(plan, *adapter)),
                    None => r == Err::<InstallPlan, CodexPluginError>(CodexPluginError::UnresolvedRoot),
                },
                None => r == Err::<InstallPlan, CodexPluginError>(CodexPluginError::UnresolvedRoot),
            },
        },
{
    if !preview.validation.valid {
        return Err(CodexPluginError::Invalid { messages: joined_error_messages(&preview.validation.errors) });
    }
    match validate_plugin_name(preview.descriptor.name.as_str()) {
        Err(e) => return Err(CodexPluginError::InvalidName { message: e.to_string() }),
        Ok(_) => {},
    }
    let dir = match parent_path(preview.descriptor.manifest_path.as_str()) {
        Some(d) => d,
        None => return Err(CodexPluginError::UnresolvedRoot),
    };
    let source_root = match parent_path(dir.as_str()) {
        Some(d) => d,
        None => return Err(CodexPluginError::UnresolvedRoot),
    };
    let name = preview.descriptor.name.as_str();
    let staging_id = random_id();
    let backup_id = random_id();
    let staged_name = concat_str(concat_str(name, "-").as_str(), staging_id.as_str());
    let backup_name = concat_str(concat_str(name, "-").as_str(), backup_id.as_str());
    let staging_root = join_str(adapter.paths.staging.as_str(), staged_name.as_str());
    let staging_plugin = join_str(staging_root.as_str(), name);
    let plan = InstallPlan {
            plugin_name: owned(name),
            source_root,
            target: adapter.plugin_dir(name),
            staging_id,
            staging_root,
            staging_plugin,
            backup_id,
            backup: join_str(adapter.paths.backups.as_str(), backup_name.as_str()),
            marketplace_root: adapter.paths.marketplace_root.clone(),
            marketplace_file: adapter.paths.marketplace_file.clone(),
        };
    proof {
        law_plan_dirs_stay_below(plan, *adapter, *preview, source_root@);
    }
    Ok(plan)
}

impl CodexPluginAdapter {
    /// Begins installing a previewed Plugin: its plan (see `install_plan`)
    /// and the first state and action of the transaction.
    pub fn install(&self, preview: &PluginPreview) -> (r: Result<(InstallPlan, InstallState, InstallAction), CodexPluginError>)
        ensures
            !preview.validation.valid ==> (r matches Err(CodexPluginError::Invalid { messages })
                && messages@ == error_messages(preview.validation.errors@)),
            preview.validation.valid ==> match plugin_name_check(preview.descriptor.name@) {
                Err(e) => (r matches Err(CodexPluginError::InvalidName { message }) && message@ == e.message()),
                Ok(_) => match parent_of(preview.descriptor.manifest_path@) {
                    Some(dir) => match parent_of(dir) {
                        Some(root) => (r matches Ok(t) && plan_matches(t.0, *self, *preview, root)
                            && plan_stays_below(t.0, *self)
                            && state_view(t.1) == InstallStateView::CreatingStaging
                            && action_view(t.2) == InstallActionView::CreateStaging),
                        None => r is Err && r->Err_0 == CodexPluginError::UnresolvedRoot,
                    },
                    None => r is Err && r->Err_0 == CodexPluginError::UnresolvedRoot,
                },
            },
    {
        let plan = install_plan(self, preview)?;
        let (state, action) = install_begin();
        Ok((plan, state, action))
    }

    /// Begins removing a managed Plugin (see `uninstall_begin`).
    pub fn uninstall(&self, plugin_name: &str) -> (r: Result<(UninstallState, UninstallAction), CodexPluginError>)
        ensures
            match plugin_name_check(plugin_name@) {
                Err(e) => (r matches Err(CodexPluginError::InvalidName { message }) && message@ == e.message()),
                Ok(_) => (r matches Ok(p) && uninstall_state_view(p.0) == UninstallStateView::CheckingCodex
                    && uninstall_action_view(p.1) == uninstall_codex(
                    CodexCommand::PluginList,
                    CodexRead::Plugins,
                    plugin_name@,
                )),
            },
    {
        uninstall_begin(plugin_name)
    }
}

// ---------------------------------------------------------------------------
// The installation transaction
// ---------------------------------------------------------------------------

/// Where an installation stands. `backup` says whether an existing version
/// was moved aside, `added` whether this installation registered the
/// marketplace with Codex; a rollback carries the error it ends with and, for
/// a Codex failure, whether the marketplace was added.
#[derive(Debug)]
pub enum InstallStateOf<S, T> {
    CreatingStaging,
    CopyingSource,
    VerifyingStaged,
    CheckingTarget,
    BackingUp,
    Activating { backup: bool },
    Snapshotting { backup: bool },
    WritingEntry { backup: bool },
    ListingMarketplaces { backup: bool },
    AddingMarketplace { backup: bool },
    AddingPlugin { backup: bool, added: bool },
    ListingPlugins { backup: bool, added: bool },
    UndoingTarget { backup: bool, error: S, codex: Option<bool> },
    UndoingBackup { error: S, codex: Option<bool> },
    RestoringMarketplace { error: S, added: bool },
    Unregistering { error: S },
    RemovingBackup { status: T },
    RemovingStaging { outcome: Result<T, S> },
    Finished { outcome: Result<T, S> },
}

/// The next thing to do: create the staging directory, copy the source
/// into it, verify the staged copy, look whether the target exists, move it
/// to the backup, move the staged copy to the target, read the marketplace
/// file, write the Plugin's marketplace entry, run Codex, remove the target,
/// move the backup back, remove the backup, write back the marketplace file
/// as it was read, remove the staging directory, or give the outcome.
#[derive(Debug)]
pub enum InstallActionOf<S, L, T> {
    CreateStaging,
    CopyToStaging,
    VerifyStaged,
    CheckTarget,
    BackupTarget,
    ActivateStaged,
    SnapshotMarketplace,
    WriteMarketplaceEntry,
    RunCodex { args: L, reads: CodexRead },
    RemoveTarget,
    RestoreBackup,
    RemoveBackup,
    RestoreMarketplace,
    RemoveStaging,
    Finish { outcome: Result<T, S> },
}

/// The state of an installation.
pub type InstallState = InstallStateOf<String, PluginInstallationStatus>;

/// The state of an installation as plain values.
pub type InstallStateView = InstallStateOf<Seq<char>, StatusView>;

/// An action of an installation.
pub type InstallAction = InstallActionOf<String, Vec<String>, PluginInstallationStatus>;

/// An action of an installation as plain values.
pub type InstallActionView = InstallActionOf<Seq<char>, Seq<Seq<char>>, StatusView>;

/// The plain values of an outcome.
pub open spec fn outcome_view(o: Result<PluginInstallationStatus, String>) -> Result<StatusView, Seq<char>> {
    match o {
        Ok(s) => Ok(status_view(s)),
        Err(e) => Err(e@),
    }
}

/// The plain values of a state.
pub open spec fn state_view(s: InstallState) -> InstallStateView {
    match s {
        InstallStateOf::CreatingStaging => InstallStateOf::CreatingStaging,
        InstallStateOf::CopyingSource => InstallStateOf::CopyingSource,
        InstallStateOf::VerifyingStaged => InstallStateOf::VerifyingStaged,
        InstallStateOf::CheckingTarget => InstallStateOf::CheckingTarget,
        InstallStateOf::BackingUp => InstallStateOf::BackingUp,
        InstallStateOf::Activating { backup } => InstallStateOf::Activating { backup },
        InstallStateOf::Snapshotting { backup } => InstallStateOf::Snapshotting { backup },
        InstallStateOf::WritingEntry { backup } => InstallStateOf::WritingEntry { backup },
        InstallStateOf::ListingMarketplaces { backup } => InstallStateOf::ListingMarketplaces { backup },
        InstallStateOf::AddingMarketplace { backup } => InstallStateOf::AddingMarketplace { backup },
        InstallStateOf::AddingPlugin { backup, added } => InstallStateOf::AddingPlugin { backup, added },
        InstallStateOf::ListingPlugins { backup, added } => InstallStateOf::ListingPlugins { backup, added },
        InstallStateOf::UndoingTarget { backup, error, codex } => InstallStateOf::UndoingTarget {
            backup,
            error: error@,
            codex,
        },
        InstallStateOf::UndoingBackup { error, codex } => InstallStateOf::UndoingBackup {
            error: error@,
            codex,
        },
        InstallStateOf::RestoringMarketplace { error, added } => InstallStateOf::RestoringMarketplace {
            error: error@,
            added,
        },
        InstallStateOf::Unregistering { error } => InstallStateOf::Unregistering { error: error@ },
        InstallStateOf::RemovingBackup { status } => InstallStateOf::RemovingBackup {
            status: status_view(status),
        },
        InstallStateOf::RemovingStaging { outcome } => InstallStateOf::RemovingStaging {
            outcome: outcome_view(outcome),
        },
        InstallStateOf::Finished { outcome } => InstallStateOf::Finished { outcome: outcome_view(outcome) },
    }
}

/// The plain values of an action.
pub open spec fn action_view(a: InstallAction) -> InstallActionView {
    match a {
        InstallActionOf::CreateStaging => InstallActionOf::CreateStaging,
        InstallActionOf::CopyToStaging => InstallActionOf::CopyToStaging,
        InstallActionOf::VerifyStaged => InstallActionOf::VerifyStaged,
        InstallActionOf::CheckTarget => InstallActionOf::CheckTarget,
        InstallActionOf::BackupTarget => InstallActionOf::BackupTarget,
        InstallActionOf::ActivateStaged => InstallActionOf::ActivateStaged,
        InstallActionOf::SnapshotMarketplace => InstallActionOf::SnapshotMarketplace,
        InstallActionOf::WriteMarketplaceEntry => InstallActionOf::WriteMarketplaceEntry,
        InstallActionOf::RunCodex { args, reads } => InstallActionOf::RunCodex { args: views(args@), reads },
        InstallActionOf::RemoveTarget => InstallActionOf::RemoveTarget,
        InstallActionOf::RestoreBackup => InstallActionOf::RestoreBackup,
        InstallActionOf::RemoveBackup => InstallActionOf::RemoveBackup,
        InstallActionOf::RestoreMarketplace => InstallActionOf::RestoreMarketplace,
        InstallActionOf::RemoveStaging => InstallActionOf::RemoveStaging,
        InstallActionOf::Finish { outcome } => InstallActionOf::Finish { outcome: outcome_view(outcome) },
    }
}

/// The Codex commands PilotHub runs.
#[derive(Clone, Copy, Debug, PartialEq, Eq)]
pub enum CodexCommand {
    MarketplaceList,
    MarketplaceAdd,
    MarketplaceRemove,
    PluginAdd,
    PluginRemove,
    PluginList,
}

/// The arguments of a Codex command.
pub open spec fn codex_args(
    command: CodexCommand,
    plugin_name: Seq<char>,
    marketplace_root: Seq<char>,
) -> Seq<Seq<char>> {
    match command {
        CodexCommand::MarketplaceList => seq!["plugin"@, "marketplace"@, "list"@, "--json"@],
        CodexCommand::MarketplaceAdd => seq!["plugin"@, "marketplace"@, "add"@, marketplace_root, "--json"@],
        CodexCommand::MarketplaceRemove => seq!["plugin"@, "marketplace"@, "remove"@, "pilothub-local"@, "--json"@],
        CodexCommand::PluginAdd => seq!["plugin"@, "add"@, plugin_name + "@pilothub-local"@, "--json"@],
        CodexCommand::PluginRemove => seq!["plugin"@, "remove"@, plugin_name + "@pilothub-local"@, "--json"@],
        CodexCommand::PluginList => seq!["plugin"@, "list"@, "--available"@, "--json"@],
    }
}

/// The arguments of a Codex command.
pub fn codex_command_args(command: CodexCommand, plugin_name: &str, marketplace_root: &str) -> (r: Vec<String>)
    ensures
        views(r@) == codex_args(command, plugin_name@, marketplace_root@),
{
    match command {
        CodexCommand::MarketplaceList => marketplace_list_args(),
        CodexCommand::MarketplaceAdd => marketplace_add_args(marketplace_root),
        CodexCommand::MarketplaceRemove => marketplace_remove_args(),
        CodexCommand::PluginAdd => plugin_add_args(plugin_name),
        CodexCommand::PluginRemove => plugin_remove_args(plugin_name),
        CodexCommand::PluginList => plugin_list_args(),
    }
}

/// Running the Codex command `command`, reading `reads` from its output.
pub open spec fn run_codex(command: CodexCommand, reads: CodexRead, plugin_name: Seq<char>, marketplace_root: Seq<char>) -> InstallActionView {
    InstallActionOf::RunCodex { args: codex_args(command, plugin_name, marketplace_root), reads }
}

/// Leave through the removal of the staging directory with `outcome`.
pub open spec fn leave(outcome: Result<StatusView, Seq<char>>) -> (InstallStateView, InstallActionView) {
    (InstallStateOf::RemovingStaging { outcome }, InstallActionOf::RemoveStaging)
}

/// Begin undoing an activated installation after `error`: remove the new
/// version.
pub open spec fn undo(backup: bool, error: Seq<char>, codex: Option<bool>) -> (InstallStateView, InstallActionView) {
    (InstallStateOf::UndoingTarget { backup, error, codex }, InstallActionOf::RemoveTarget)
}

/// After the Plugin directories are back: restore the marketplace file after
/// a Codex failure, else leave with the error.
pub open spec fn after_files(error: Seq<char>, codex: Option<bool>) -> (InstallStateView, InstallActionView) {
    match codex {
        Some(added) => (InstallStateOf::RestoringMarketplace { error, added }, InstallActionOf::RestoreMarketplace),
        None => leave(Err(error)),
    }
}

/// The error of an installation that Codex refused.
pub open spec fn codex_install_error(error: Seq<char>) -> Seq<char> {
    "install Plugin with Codex: "@ + error
}

/// One step of an installation of `name` with the marketplace at `root`:
/// the next state and action after event `e` in state `s`. A step that
/// waits for an action to be done treats every event but a failure as done.
pub open spec fn install_next(name: Seq<char>, root: Seq<char>, s: InstallStateView, e: StepEvent) -> (InstallStateView, InstallActionView) {
    match s {
        InstallStateOf::CreatingStaging => match event_failed(e) {
            Some(m) => (InstallStateOf::Finished { outcome: Err(m) }, InstallActionOf::Finish { outcome: Err(m) }),
            None => (InstallStateOf::CopyingSource, InstallActionOf::CopyToStaging),
        },
        InstallStateOf::CopyingSource => match event_failed(e) {
            Some(m) => leave(Err("stage Codex Plugin files: "@ + m)),
            None => (InstallStateOf::VerifyingStaged, InstallActionOf::VerifyStaged),
        },
        InstallStateOf::VerifyingStaged => match event_failed(e) {
            Some(m) => leave(Err("verify staged Codex Plugin: "@ + m)),
            None => (InstallStateOf::CheckingTarget, InstallActionOf::CheckTarget),
        },
        InstallStateOf::CheckingTarget => match e {
            StepEvent::TargetExists { exists: true } => (InstallStateOf::BackingUp, InstallActionOf::BackupTarget),
            _ => (InstallStateOf::Activating { backup: false }, InstallActionOf::ActivateStaged),
        },
        InstallStateOf::BackingUp => match event_failed(e) {
            Some(m) => leave(Err("backup existing Plugin: "@ + m)),
            None => (InstallStateOf::Activating { backup: true }, InstallActionOf::ActivateStaged),
        },
        InstallStateOf::Activating { backup } => match event_failed(e) {
            Some(m) => if backup {
                (
                    InstallStateOf::UndoingBackup { error: "activate staged Codex Plugin: "@ + m, codex: None },
                    InstallActionOf::RestoreBackup,
                )
            } else {
                leave(Err("activate staged Codex Plugin: "@ + m))
            },
            None => (InstallStateOf::Snapshotting { backup }, InstallActionOf::SnapshotMarketplace),
        },
        InstallStateOf::Snapshotting { backup } => match event_failed(e) {
            Some(m) => leave(Err(m)),
            None => (InstallStateOf::WritingEntry { backup }, InstallActionOf::WriteMarketplaceEntry),
        },
        InstallStateOf::WritingEntry { backup } => match event_failed(e) {
            Some(m) => undo(backup, m, None),
            None => (
                InstallStateOf::ListingMarketplaces { backup },
                run_codex(CodexCommand::MarketplaceList, CodexRead::Marketplaces, name, root),
            ),
        },
        InstallStateOf::ListingMarketplaces { backup } => match event_codex(e) {
            Err(m) => undo(backup, m, Some(false)),
            Ok(b) => if body_registered(b) {
                (InstallStateOf::AddingPlugin { backup, added: false }, run_codex(CodexCommand::PluginAdd, CodexRead::Nothing, name, root))
            } else {
                (
                    InstallStateOf::AddingMarketplace { backup },
                    run_codex(CodexCommand::MarketplaceAdd, CodexRead::Nothing, name, root),
                )
            },
        },
        InstallStateOf::AddingMarketplace { backup } => match event_codex(e) {
            Err(m) => undo(backup, m, Some(false)),
            Ok(_) => (InstallStateOf::AddingPlugin { backup, added: true }, run_codex(CodexCommand::PluginAdd, CodexRead::Nothing, name, root)),
        },
        InstallStateOf::AddingPlugin { backup, added } => match event_codex(e) {
            Err(m) => undo(backup, m, Some(added)),
            Ok(_) => (InstallStateOf::ListingPlugins { backup, added }, run_codex(CodexCommand::PluginList, CodexRead::Plugins, name, root)),
        },
        InstallStateOf::ListingPlugins { backup, added } => match event_codex(e) {
            Err(m) => undo(backup, m, Some(added)),
            Ok(b) => match listed(body_entries(b), name) {
                Some(st) => if backup {
                    (InstallStateOf::RemovingBackup { status: st }, InstallActionOf::RemoveBackup)
                } else {
                    leave(Ok(st))
                },
                None => undo(backup, "Codex did not report "@ + name + " after installation"@, Some(added)),
            },
        },
        InstallStateOf::UndoingTarget { backup, error, codex } => if backup {
            (InstallStateOf::UndoingBackup { error, codex }, InstallActionOf::RestoreBackup)
        } else {
            after_files(error, codex)
        },
        InstallStateOf::UndoingBackup { error, codex } => after_files(error, codex),
        InstallStateOf::RestoringMarketplace { error, added } => match event_failed(e) {
            Some(m) => leave(Err(m)),
            None => if added {
                (
                    InstallStateOf::Unregistering { error },
                    run_codex(CodexCommand::MarketplaceRemove, CodexRead::Nothing, name, root),
                )
            } else {
                leave(Err(codex_install_error(error)))
            },
        },
        InstallStateOf::Unregistering { error } => leave(Err(codex_install_error(error))),
        InstallStateOf::RemovingBackup { status } => leave(Ok(status)),
        InstallStateOf::RemovingStaging { outcome } => (
            InstallStateOf::Finished { outcome },
            InstallActionOf::Finish { outcome },
        ),
        InstallStateOf::Finished { outcome } => (
            InstallStateOf::Finished { outcome },
            InstallActionOf::Finish { outcome },
        ),
    }
}

/// The first state and action of an installation.
pub fn install_begin() -> (r: (InstallState, InstallAction))
    ensures
        state_view(r.0) == InstallStateView::CreatingStaging,
        action_view(r.1) == InstallActionView::CreateStaging,
{
    (InstallStateOf::CreatingStaging, InstallActionOf::CreateStaging)
}

/// Runs a Codex command of the installation.
fn codex_action(command: CodexCommand, reads: CodexRead, plan: &InstallPlan) -> (r: InstallAction)
    ensures
        action_view(r) == run_codex(command, reads, plan.plugin_name@, plan.marketplace_root@),
{
    InstallActionOf::RunCodex {
        args: codex_command_args(command, plan.plugin_name.as_str(), plan.marketplace_root.as_str()),
        reads,
    }
}

/// Leave through the removal of the staging directory.
fn leave_with(outcome: Result<PluginInstallationStatus, String>) -> (r: (InstallState, InstallAction))
    ensures
        (state_view(r.0), action_view(r.1)) == leave(outcome_view(outcome)),
{
    (InstallStateOf::RemovingStaging { outcome }, InstallActionOf::RemoveStaging)
}

/// Begin undoing an activated installation.
fn undo_with(backup: bool, error: String, codex: Option<bool>) -> (r: (InstallState, InstallAction))
    ensures
        (state_view(r.0), action_view(r.1)) == undo(backup, error@, codex),
{
    (InstallStateOf::UndoingTarget { backup, error, codex }, InstallActionOf::RemoveTarget)
}

/// After the Plugin directories are back.
fn after_files_with(error: String, codex: Option<bool>) -> (r: (InstallState, InstallAction))
    ensures
        (state_view(r.0), action_view(r.1)) == after_files(error@, codex),
{
    match codex {
        Some(added) => (InstallStateOf::RestoringMarketplace { error, added }, InstallActionOf::RestoreMarketplace),
        None => leave_with(Err(error)),
    }
}

/// One step of an installation planned by `plan`: the next state and
/// action after `event` in `state`.
pub fn install_step(plan: &InstallPlan, state: InstallState, event: StepEvent) -> (r: (InstallState, InstallAction))
    ensures
        (state_view(r.0), action_view(r.1)) == install_next(
            plan.plugin_name@,
            plan.marketplace_root@,
            state_view(state),
            event,
        ),
{
    let ghost e = event;
    match state {
        InstallStateOf::CreatingStaging => match event {
            StepEvent::Failed { error } => {
                let outcome: Result<PluginInstallationStatus, String> = Err(error);
                let again = copy_outcome(&outcome);
                (InstallStateOf::Finished { outcome }, InstallActionOf::Finish { outcome: again })
            },
            _ => (InstallStateOf::CopyingSource, InstallActionOf::CopyToStaging),
        },
        InstallStateOf::CopyingSource => match event {
            StepEvent::Failed { error } => leave_with(
                Err(concat_str("stage Codex Plugin files: ", error.as_str())),
            ),
            _ => (InstallStateOf::VerifyingStaged, InstallActionOf::VerifyStaged),
        },
        InstallStateOf::VerifyingStaged => match event {
            StepEvent::Failed { error } => leave_with(
                Err(concat_str("verify staged Codex Plugin: ", error.as_str())),
            ),
            _ => (InstallStateOf::CheckingTarget, InstallActionOf::CheckTarget),
        },
        InstallStateOf::CheckingTarget => match event {
            StepEvent::TargetExists { exists: true } => (InstallStateOf::BackingUp, InstallActionOf::BackupTarget),
            _ => (InstallStateOf::Activating { backup: false }, InstallActionOf::ActivateStaged),
        },
        InstallStateOf::BackingUp => match event {
            StepEvent::Failed { error } => leave_with(
                Err(concat_str("backup existing Plugin: ", error.as_str())),
            ),
            _ => (InstallStateOf::Activating { backup: true }, InstallActionOf::ActivateStaged),
        },
        InstallStateOf::Activating { backup } => match event {
            StepEvent::Failed { error } => {
                let m = concat_str("activate staged Codex Plugin: ", error.as_str());
                if backup {
                    (InstallStateOf::UndoingBackup { error: m, codex: None }, InstallActionOf::RestoreBackup)
                } else {
                    leave_with(Err(m))
                }
            },
            _ => (InstallStateOf::Snapshotting { backup }, InstallActionOf::SnapshotMarketplace),
        },
        InstallStateOf::Snapshotting { backup } => match event {
            StepEvent::Failed { error } => leave_with(Err(error)),
            _ => (InstallStateOf::WritingEntry { backup }, InstallActionOf::WriteMarketplaceEntry),
        },
        InstallStateOf::WritingEntry { backup } => match event {
            StepEvent::Failed { error } => undo_with(backup, error, None),
            _ => (
                InstallStateOf::ListingMarketplaces { backup },
                codex_action(CodexCommand::MarketplaceList, CodexRead::Marketplaces, plan),
            ),
        },
        InstallStateOf::ListingMarketplaces { backup } => match event_result(event) {
            Err(m) => undo_with(backup, m, Some(false)),
            Ok(b) => {
                if registered_in(&b) {
                    (
                        InstallStateOf::AddingPlugin { backup, added: false },
                        codex_action(CodexCommand::PluginAdd, CodexRead::Nothing, plan),
                    )
                } else {
                    (
                        InstallStateOf::AddingMarketplace { backup },
                        codex_action(CodexCommand::MarketplaceAdd, CodexRead::Nothing, plan),
                    )
                }
            },
        },
        InstallStateOf::AddingMarketplace { backup } => match event_result(event) {
            Err(m) => undo_with(backup, m, Some(false)),
            Ok(_) => (
                InstallStateOf::AddingPlugin { backup, added: true },
                codex_action(CodexCommand::PluginAdd, CodexRead::Nothing, plan),
            ),
        },
        InstallStateOf::AddingPlugin { backup, added } => match event_result(event) {
            Err(m) => undo_with(backup, m, Some(added)),
            Ok(_) => (
                InstallStateOf::ListingPlugins { backup, added },
                codex_action(CodexCommand::PluginList, CodexRead::Plugins, plan),
            ),
        },
        InstallStateOf::ListingPlugins { backup, added } => match event_result(event) {
            Err(m) => undo_with(backup, m, Some(added)),
            Ok(b) => match status_in(&b, plan.plugin_name.as_str()) {
                Some(st) => {
                    if backup {
                        (InstallStateOf::RemovingBackup { status: st }, InstallActionOf::RemoveBackup)
                    } else {
                        leave_with(Ok(st))
                    }
                },
                None => {
                    let head = concat_str("Codex did not report ", plan.plugin_name.as_str());
                    undo_with(backup, concat_str(head.as_str(), " after installation"), Some(added))
                },
            },
        },
        InstallStateOf::UndoingTarget { backup, error, codex } => {
            if backup {
                (InstallStateOf::UndoingBackup { error, codex }, InstallActionOf::RestoreBackup)
            } else {
                after_files_with(error, codex)
            }
        },
        InstallStateOf::UndoingBackup { error, codex } => after_files_with(error, codex),
        InstallStateOf::RestoringMarketplace { error, added } => match event {
            StepEvent::Failed { error: m } => leave_with(Err(m)),
            _ => {
                if added {
                    (
                        InstallStateOf::Unregistering { error },
                        codex_action(CodexCommand::MarketplaceRemove, CodexRead::Nothing, plan),
                    )
                } else {
                    leave_with(Err(concat_str("install Plugin with Codex: ", error.as_str())))
                }
            },
        },
        InstallStateOf::Unregistering { error } => leave_with(
            Err(concat_str("install Plugin with Codex: ", error.as_str())),
        ),
        InstallStateOf::RemovingBackup { status } => leave_with(Ok(status)),
        InstallStateOf::RemovingStaging { outcome } => {
            let again = copy_outcome(&outcome);
            (InstallStateOf::Finished { outcome }, InstallActionOf::Finish { outcome: again })
        },
        InstallStateOf::Finished { outcome } => {
            let again = copy_outcome(&outcome);
            (InstallStateOf::Finished { outcome }, InstallActionOf::Finish { outcome: again })
        },
    }
}

/// A copy of an outcome.
fn copy_outcome(o: &Result<PluginInstallationStatus, String>) -> (r: Result<PluginInstallationStatus, String>)
    ensures
        outcome_view(r) == outcome_view(*o),
{
    match o {
        Ok(s) => Ok(copy_status(s)),
        Err(e) => Err(e.clone()),
    }
}

/// A copy of a status.
pub fn copy_status(s: &PluginInstallationStatus) -> (r: PluginInstallationStatus)
    ensures
        status_view(r) == status_view(*s),
{
    PluginInstallationStatus {
        plugin_name: s.plugin_name.clone(),
        marketplace_name: s.marketplace_name.clone(),
        target: s.target.clone(),
        installed: s.installed,
        enabled: s.enabled,
        version: s.version.clone(),
        installed_path: crate::text::copy_opt(&s.installed_path),
        health: s.health.clone(),
        detail: crate::text::copy_opt(&s.detail),
        invocation: super::PluginInvocationCapability {
            native_registration: s.invocation.native_registration,
            native_discovery: s.invocation.native_discovery,
            native_invocation: s.invocation.native_invocation,
            mode: s.invocation.mode.clone(),
            verification: s.invocation.verification.clone(),
            detail: crate::text::copy_opt(&s.invocation.detail),
        },
        catalog: super::PluginCatalogStatus { visible: s.catalog.visible },
    }
}

} // verus!

verus! {

// ---------------------------------------------------------------------------
// Laws of the installation transaction
// ---------------------------------------------------------------------------

/// The actions an installation takes from state `s` when the events `evs`
/// come back one after another.
pub open spec fn install_run(name: Seq<char>, root: Seq<char>, s: InstallStateView, evs: Seq<StepEvent>) -> Seq<InstallActionView>
    decreases evs.len(),
{
    if evs.len() == 0 {
        Seq::empty()
    } else {
        let next = install_next(name, root, s, evs[0]);
        seq![next.1] + install_run(name, root, next.0, evs.drop_first())
    }
}

/// The error with which Codex refuses an installation step: the failure of
/// the command, or, after the Plugin was added, a listing without it.
pub open spec fn codex_refusal(name: Seq<char>, s: InstallStateView, e: StepEvent) -> Option<Seq<char>> {
    match event_codex(e) {
        Err(m) => Some(m),
        Ok(b) => if s is ListingPlugins && listed(body_entries(b), name) is None {
            Some("Codex did not report "@ + name + " after installation"@)
        } else {
            None
        },
    }
}

/// The installation is talking to Codex: listing or adding the
/// marketplace, adding the Plugin, or listing the Plugins.
pub open spec fn in_codex_phase(s: InstallStateView) -> bool {
    s is ListingMarketplaces || s is AddingMarketplace || s is AddingPlugin || s is ListingPlugins
}

/// Whether an existing version was moved aside.
pub open spec fn has_backup(s: InstallStateView) -> bool {
    match s {
        InstallStateOf::ListingMarketplaces { backup } => backup,
        InstallStateOf::AddingMarketplace { backup } => backup,
        InstallStateOf::AddingPlugin { backup, .. } => backup,
        InstallStateOf::ListingPlugins { backup, .. } => backup,
        InstallStateOf::WritingEntry { backup } => backup,
        _ => false,
    }
}

/// Whether this installation registered the marketplace with Codex.
pub open spec fn has_added(s: InstallStateView) -> bool {
    match s {
        InstallStateOf::AddingPlugin { added, .. } => added,
        InstallStateOf::ListingPlugins { added, .. } => added,
        _ => false,
    }
}

/// The actions that put the Plugin directories back: remove the new
/// version, then move the previous one back when there is one.
pub open spec fn restore_files(backup: bool) -> Seq<InstallActionView> {
    if backup {
        seq![InstallActionView::RemoveTarget, InstallActionView::RestoreBackup]
    } else {
        seq![InstallActionView::RemoveTarget]
    }
}

/// The whole rollback after Codex refused with `error`: the Plugin
/// directories back, the marketplace file back, the marketplace
/// registration removed when this installation made it, the staging
/// directory removed, and the refusal given as the outcome.
pub open spec fn codex_rollback(name: Seq<char>, root: Seq<char>, backup: bool, added: bool, error: Seq<char>) -> Seq<InstallActionView> {
    restore_files(backup) + seq![InstallActionView::RestoreMarketplace] + (if added {
        seq![run_codex(CodexCommand::MarketplaceRemove, CodexRead::Nothing, name, root)]
    } else {
        Seq::empty()
    }) + seq![
        InstallActionView::RemoveStaging,
        InstallActionView::Finish { outcome: Err(codex_install_error(error)) },
    ]
}

/// Each step gives the outcome only after the staging directory was
/// removed, unless the staging directory could not be created: a `Finish`
/// comes from the state entered by `RemoveStaging` (or from the first step,
/// or again once finished), and that state is entered only with
/// `RemoveStaging`.
pub proof fn law_outcome_after_staging_removed(name: Seq<char>, root: Seq<char>, s: InstallStateView, e: StepEvent)
    ensures
        install_next(name, root, s, e).1 is Finish ==> (s is RemovingStaging || s is Finished
            || s is CreatingStaging),
        install_next(name, root, s, e).0 is RemovingStaging <==> install_next(name, root, s, e).1 is RemoveStaging,
{
}

/// When Codex refuses an installation whose files are in place, whatever
/// comes back from undoing them, the Plugin directories are put back and the
/// marketplace file is restored; when that restore succeeds, the
/// marketplace registration made by this installation is removed, the
/// staging directory is removed and the installation fails with Codex's
/// refusal; when it fails, the staging directory is removed and the
/// installation fails with the restore's error.
pub proof fn law_codex_refusal_rolls_back(name: Seq<char>, root: Seq<char>, s: InstallStateView, evs: Seq<StepEvent>)
    requires
        in_codex_phase(s),
        codex_refusal(name, s, evs[0]) is Some,
        evs.len() == restore_files(has_backup(s)).len() + 1 + (if has_added(s) { 3int } else { 2int }),
    ensures
        ({
            let k = restore_files(has_backup(s)).len() as int;
            let run = install_run(name, root, s, evs);
            &&& run.take(k + 1) == restore_files(has_backup(s)) + seq![InstallActionView::RestoreMarketplace]
            &&& event_failed(evs[k + 1]) is None ==> run == codex_rollback(
                name,
                root,
                has_backup(s),
                has_added(s),
                codex_refusal(name, s, evs[0])->0,
            )
            &&& event_failed(evs[k + 1]) matches Some(m) ==> run.subrange(k + 1, k + 3) == seq![
                InstallActionView::RemoveStaging,
                InstallActionView::Finish { outcome: Err(m) },
            ]
        }),
{
    reveal_with_fuel(install_run, 7);
    let k = restore_files(has_backup(s)).len() as int;
    let run = install_run(name, root, s, evs);
    let s1 = install_next(name, root, s, evs[0]);
    assert(s1.1 == InstallActionView::RemoveTarget);
    let e1 = evs.drop_first();
    let r1 = install_run(name, root, s1.0, e1);
    assert(run == seq![s1.1] + r1);
    if has_backup(s) {
        let s2 = install_next(name, root, s1.0, e1[0]);
        assert(s2.1 == InstallActionView::RestoreBackup);
        let e2 = e1.drop_first();
        let r2 = install_run(name, root, s2.0, e2);
        assert(r1 == seq![s2.1] + r2);
        let s3 = install_next(name, root, s2.0, e2[0]);
        assert(s3.1 == InstallActionView::RestoreMarketplace);
        let e3 = e2.drop_first();
        let r3 = install_run(name, root, s3.0, e3);
        assert(r2 == seq![s3.1] + r3);
        assert(e3[0] == evs[k + 1]);
        let s4 = install_next(name, root, s3.0, e3[0]);
        let e4 = e3.drop_first();
        let r4 = install_run(name, root, s4.0, e4);
        assert(r3 == seq![s4.1] + r4);
        let s5 = install_next(name, root, s4.0, e4[0]);
        let e5 = e4.drop_first();
        let r5 = install_run(name, root, s5.0, e5);
        assert(r4 == seq![s5.1] + r5);
        if has_added(s) && event_failed(evs[k + 1]) is None {
            let s6 = install_next(name, root, s5.0, e5[0]);
            assert(r5 == seq![s6.1] + install_run(name, root, s6.0, e5.drop_first()));
            assert(e5.drop_first().len() == 0);
        } else {
            assert(e5.len() == 0 || e5.len() == 1);
        }
        assert(run.take(k + 1) =~= restore_files(has_backup(s)) + seq![InstallActionView::RestoreMarketplace]);
        if event_failed(evs[k + 1]) is None {
            assert(run =~= codex_rollback(name, root, has_backup(s), has_added(s), codex_refusal(name, s, evs[0])->0));
        } else {
            assert(run.subrange(k + 1, k + 3) =~= seq![s4.1, s5.1]);
        }
    } else {
        let s2 = install_next(name, root, s1.0, e1[0]);
        assert(s2.1 == InstallActionView::RestoreMarketplace);
        let e2 = e1.drop_first();
        let r2 = install_run(name, root, s2.0, e2);
        assert(r1 == seq![s2.1] + r2);
        assert(e2[0] == evs[k + 1]);
        let s3 = install_next(name, root, s2.0, e2[0]);
        let e3 = e2.drop_first();
        let r3 = install_run(name, root, s3.0, e3);
        assert(r2 == seq![s3.1] + r3);
        let s4 = install_next(name, root, s3.0, e3[0]);
        let e4 = e3.drop_first();
        let r4 = install_run(name, root, s4.0, e4);
        assert(r3 == seq![s4.1] + r4);
        if has_added(s) && event_failed(evs[k + 1]) is None {
            let s5 = install_next(name, root, s4.0, e4[0]);
            assert(r4 == seq![s5.1] + install_run(name, root, s5.0, e4.drop_first()));
            assert(e4.drop_first().len() == 0);
        } else {
            assert(e4.len() == 0 || e4.len() == 1);
        }
        assert(run.take(k + 1) =~= restore_files(has_backup(s)) + seq![InstallActionView::RestoreMarketplace]);
        if event_failed(evs[k + 1]) is None {
            assert(run =~= codex_rollback(name, root, has_backup(s), has_added(s), codex_refusal(name, s, evs[0])->0));
        } else {
            assert(run.subrange(k + 1, k + 3) =~= seq![s3.1, s4.1]);
        }
    }
}

/// The status is one that Codex reported for `name` in PilotHub's
/// marketplace: it names the Plugin and the marketplace, targets Codex and
/// is healthy.
pub open spec fn reported_for(name: Seq<char>, st: StatusView) -> bool {
    &&& st.plugin_name == name
    &&& st.marketplace_name == "pilothub-local"@
    &&& st.target == "codex"@
    &&& st.health == "healthy"@
}

/// Every successful outcome a state holds was reported by Codex.
pub open spec fn successes_reported(name: Seq<char>, s: InstallStateView) -> bool {
    match s {
        InstallStateOf::RemovingBackup { status } => reported_for(name, status),
        InstallStateOf::RemovingStaging { outcome: Ok(status) } => reported_for(name, status),
        InstallStateOf::Finished { outcome: Ok(status) } => reported_for(name, status),
        _ => true,
    }
}

/// A status found in a listing was reported for that name.
pub proof fn lemma_listed_reported(entries: Seq<CodexListEntry>, name: Seq<char>)
    ensures
        listed(entries, name) matches Some(st) ==> reported_for(name, st),
    decreases entries.len(),
{
    if entries.len() > 0 && !super::entry_matches(entries[0], name) {
        lemma_listed_reported(entries.drop_first(), name);
    }
}

/// An installation succeeds only with the status Codex listed for the
/// Plugin in PilotHub's marketplace: every step keeps successful outcomes
/// reported, and a successful `Finish` gives a reported status.
pub proof fn law_success_is_reported(name: Seq<char>, root: Seq<char>, s: InstallStateView, e: StepEvent)
    requires
        successes_reported(name, s),
    ensures
        successes_reported(name, install_next(name, root, s, e).0),
        install_next(name, root, s, e).1 matches InstallActionOf::Finish { outcome: Ok(st) } ==> reported_for(name, st),
{
    match event_codex(e) {
        Ok(b) => lemma_listed_reported(body_entries(b), name),
        Err(_) => {},
    }
}

/// When Codex lists the newly added Plugin, the previous version is removed
/// if there was one, then the staging directory, and the installation
/// succeeds with the listed status.
pub proof fn law_listed_install_succeeds(name: Seq<char>, root: Seq<char>, backup: bool, added: bool, evs: Seq<StepEvent>)
    requires
        event_codex(evs[0]) is Ok,
        listed(body_entries(event_codex(evs[0])->Ok_0), name) is Some,
        evs.len() == if backup { 3int } else { 2int },
    ensures
        install_run(name, root, InstallStateOf::ListingPlugins { backup, added }, evs) == (if backup {
            seq![InstallActionView::RemoveBackup]
        } else {
            Seq::empty()
        }) + seq![
            InstallActionView::RemoveStaging,
            InstallActionView::Finish {
                outcome: Ok(listed(body_entries(event_codex(evs[0])->Ok_0), name)->0),
            },
        ],
{
    reveal_with_fuel(install_run, 4);
    let s = InstallStateOf::ListingPlugins { backup, added };
    let s1 = install_next(name, root, s, evs[0]);
    let e1 = evs.drop_first();
    let s2 = install_next(name, root, s1.0, e1[0]);
    let e2 = e1.drop_first();
    assert(install_run(name, root, s, evs) == seq![s1.1] + install_run(name, root, s1.0, e1));
    assert(install_run(name, root, s1.0, e1) == seq![s2.1] + install_run(name, root, s2.0, e2));
    if backup {
        let s3 = install_next(name, root, s2.0, e2[0]);
        assert(install_run(name, root, s2.0, e2) == seq![s3.1] + install_run(name, root, s3.0, e2.drop_first()));
        assert(e2.drop_first().len() == 0);
    } else {
        assert(e2.len() == 0);
    }
    assert(install_run(name, root, s, evs) =~= (if backup {
        seq![InstallActionView::RemoveBackup]
    } else {
        Seq::empty()
    }) + seq![
        InstallActionView::RemoveStaging,
        InstallActionView::Finish {
            outcome: Ok(listed(body_entries(event_codex(evs[0])->Ok_0), name)->0),
        },
    ]);
}

/// When the marketplace entry cannot be written, whatever comes back from
/// undoing, the new version is removed, the previous one moved back, the
/// staging directory removed, and the installation fails with the write's
/// error.
pub proof fn law_entry_failure_restores(name: Seq<char>, root: Seq<char>, backup: bool, evs: Seq<StepEvent>)
    requires
        event_failed(evs[0]) is Some,
        evs.len() == restore_files(backup).len() + 2,
    ensures
        install_run(name, root, InstallStateOf::WritingEntry { backup }, evs) == restore_files(backup) + seq![
            InstallActionView::RemoveStaging,
            InstallActionView::Finish { outcome: Err(event_failed(evs[0])->0) },
        ],
{
    reveal_with_fuel(install_run, 5);
    let s = InstallStateOf::WritingEntry { backup };
    let s1 = install_next(name, root, s, evs[0]);
    let e1 = evs.drop_first();
    let s2 = install_next(name, root, s1.0, e1[0]);
    let e2 = e1.drop_first();
    let s3 = install_next(name, root, s2.0, e2[0]);
    let e3 = e2.drop_first();
    assert(install_run(name, root, s, evs) == seq![s1.1] + install_run(name, root, s1.0, e1));
    assert(install_run(name, root, s1.0, e1) == seq![s2.1] + install_run(name, root, s2.0, e2));
    assert(install_run(name, root, s2.0, e2) == seq![s3.1] + install_run(name, root, s3.0, e3));
    if backup {
        let s4 = install_next(name, root, s3.0, e3[0]);
        assert(install_run(name, root, s3.0, e3) == seq![s4.1] + install_run(name, root, s4.0, e3.drop_first()));
        assert(e3.drop_first().len() == 0);
    } else {
        assert(e3.len() == 0);
    }
    assert(install_run(name, root, s, evs) =~= restore_files(backup) + seq![
        InstallActionView::RemoveStaging,
        InstallActionView::Finish { outcome: Err(event_failed(evs[0])->0) },
    ]);
}

// ---------------------------------------------------------------------------
// Removal
// ---------------------------------------------------------------------------

/// Where a removal stands: asking Codex whether the Plugin is installed,
/// removing it from Codex, removing its marketplace entry, its directory and
/// its PilotHub-owned Launcher, asking Codex again, looking for what is left,
/// or finished. `registered` says whether Codex still lists the Plugin.
#[derive(Debug)]
pub enum UninstallStateOf<S> {
    CheckingCodex,
    RemovingFromCodex,
    RemovingEntry,
    RemovingFiles,
    RemovingLauncher,
    Relisting,
    CheckingResidue { registered: bool },
    Finished { outcome: Result<(), S> },
}

/// The next thing to do in a removal: run Codex, remove the Plugin's entry
/// from the PilotHub marketplace file, remove the Plugin's directory, remove
/// its Launcher when PilotHub owns it, look for what is left of the Plugin,
/// or give the outcome.
#[derive(Debug)]
pub enum UninstallActionOf<S, L> {
    RunCodex { args: L, reads: CodexRead },
    RemoveMarketplaceEntry,
    RemovePluginDir,
    RemoveOwnedLauncher,
    CheckResidue,
    Finish { outcome: Result<(), S> },
}

/// The state of a removal.
pub type UninstallState = UninstallStateOf<String>;

/// The state of a removal as plain values.
pub type UninstallStateView = UninstallStateOf<Seq<char>>;

/// An action of a removal.
pub type UninstallAction = UninstallActionOf<String, Vec<String>>;

/// An action of a removal as plain values.
pub type UninstallActionView = UninstallActionOf<Seq<char>, Seq<Seq<char>>>;

/// The plain values of a removal outcome.
pub open spec fn unit_outcome_view(o: Result<(), String>) -> Result<(), Seq<char>> {
    match o {
        Ok(()) => Ok(()),
        Err(e) => Err(e@),
    }
}

/// The plain values of a removal state.
pub open spec fn uninstall_state_view(s: UninstallState) -> UninstallStateView {
    match s {
        UninstallStateOf::CheckingCodex => UninstallStateOf::CheckingCodex,
        UninstallStateOf::RemovingFromCodex => UninstallStateOf::RemovingFromCodex,
        UninstallStateOf::RemovingEntry => UninstallStateOf::RemovingEntry,
        UninstallStateOf::RemovingFiles => UninstallStateOf::RemovingFiles,
        UninstallStateOf::RemovingLauncher => UninstallStateOf::RemovingLauncher,
        UninstallStateOf::Relisting => UninstallStateOf::Relisting,
        UninstallStateOf::CheckingResidue { registered } => UninstallStateOf::CheckingResidue { registered },
        UninstallStateOf::Finished { outcome } => UninstallStateOf::Finished { outcome: unit_outcome_view(outcome) },
    }
}

/// The plain values of a removal action.
pub open spec fn uninstall_action_view(a: UninstallAction) -> UninstallActionView {
    match a {
        UninstallActionOf::RunCodex { args, reads } => UninstallActionOf::RunCodex { args: views(args@), reads },
        UninstallActionOf::RemoveMarketplaceEntry => UninstallActionOf::RemoveMarketplaceEntry,
        UninstallActionOf::RemovePluginDir => UninstallActionOf::RemovePluginDir,
        UninstallActionOf::RemoveOwnedLauncher => UninstallActionOf::RemoveOwnedLauncher,
        UninstallActionOf::CheckResidue => UninstallActionOf::CheckResidue,
        UninstallActionOf::Finish { outcome } => UninstallActionOf::Finish { outcome: unit_outcome_view(outcome) },
    }
}

/// Running a Codex command of the removal of `name`.
pub open spec fn uninstall_codex(command: CodexCommand, reads: CodexRead, name: Seq<char>) -> UninstallActionView {
    UninstallActionOf::RunCodex { args: codex_args(command, name, Seq::empty()), reads }
}

/// Finish a removal with `outcome`.
pub open spec fn uninstall_finish(outcome: Result<(), Seq<char>>) -> (UninstallStateView, UninstallActionView) {
    (UninstallStateOf::Finished { outcome }, UninstallActionOf::Finish { outcome })
}

/// What a residue check found: the Plugin directory, the marketplace
/// entry, a PilotHub-owned Launcher. An event other than a residue report
/// confirms nothing, so it counts as all three left.
pub open spec fn residue_of(e: StepEvent) -> (bool, bool, bool) {
    match e {
        StepEvent::Residue { plugin_files, marketplace_entry, launcher } => (plugin_files, marketplace_entry, launcher),
        _ => (true, true, true),
    }
}

/// The names of what a removal left behind, in this order: the Codex
/// registration, the Plugin files, the marketplace entry, the Launcher.
pub open spec fn residue_names(registered: bool, left: (bool, bool, bool)) -> Seq<Seq<char>> {
    let none = Seq::<Seq<char>>::empty();
    (if registered { seq!["codex_registration"@] } else { none })
        + (if left.0 { seq!["plugin_files"@] } else { none })
        + (if left.1 { seq!["marketplace_entry"@] } else { none })
        + (if left.2 { seq!["launcher"@] } else { none })
}

/// The error of a removal that left something behind.
pub open spec fn uninstall_incomplete(names: Seq<Seq<char>>) -> Seq<char> {
    "PLUGIN_UNINSTALL_INCOMPLETE|"@ + join(names, ", "@)
}

/// One step of the removal of `name`: a Plugin that Codex lists is removed
/// from Codex first; then its marketplace entry, its directory and its
/// PilotHub-owned Launcher are removed; Codex is asked again and what is
/// left is looked for, and the removal succeeds only when nothing is left,
/// else fails with `PLUGIN_UNINSTALL_INCOMPLETE` and what was left. The
/// first failure of a step ends the removal with its error.
pub open spec fn uninstall_next(name: Seq<char>, s: UninstallStateView, e: StepEvent) -> (UninstallStateView, UninstallActionView) {
    match s {
        UninstallStateOf::CheckingCodex => match event_codex(e) {
            Err(m) => uninstall_finish(Err(m)),
            Ok(b) => if listed(body_entries(b), name) is Some {
                (
                    UninstallStateOf::RemovingFromCodex,
                    uninstall_codex(CodexCommand::PluginRemove, CodexRead::Nothing, name),
                )
            } else {
                (UninstallStateOf::RemovingEntry, UninstallActionOf::RemoveMarketplaceEntry)
            },
        },
        UninstallStateOf::RemovingFromCodex => match event_codex(e) {
            Err(m) => uninstall_finish(Err("remove Plugin from Codex: "@ + m)),
            Ok(_) => (UninstallStateOf::RemovingEntry, UninstallActionOf::RemoveMarketplaceEntry),
        },
        UninstallStateOf::RemovingEntry => match event_failed(e) {
            Some(m) => uninstall_finish(Err(m)),
            None => (UninstallStateOf::RemovingFiles, UninstallActionOf::RemovePluginDir),
        },
        UninstallStateOf::RemovingFiles => match event_failed(e) {
            Some(m) => uninstall_finish(Err(m)),
            None => (UninstallStateOf::RemovingLauncher, UninstallActionOf::RemoveOwnedLauncher),
        },
        UninstallStateOf::RemovingLauncher => match event_failed(e) {
            Some(m) => uninstall_finish(Err(m)),
            None => (
                UninstallStateOf::Relisting,
                uninstall_codex(CodexCommand::PluginList, CodexRead::Plugins, name),
            ),
        },
        UninstallStateOf::Relisting => match event_codex(e) {
            Err(m) => uninstall_finish(Err(m)),
            Ok(b) => (
                UninstallStateOf::CheckingResidue { registered: listed(body_entries(b), name) is Some },
                UninstallActionOf::CheckResidue,
            ),
        },
        UninstallStateOf::CheckingResidue { registered } => match event_failed(e) {
            Some(m) => uninstall_finish(Err(m)),
            None => {
                let names = residue_names(registered, residue_of(e));
                if names.len() == 0 {
                    uninstall_finish(Ok(()))
                } else {
                    uninstall_finish(Err(uninstall_incomplete(names)))
                }
            },
        },
        UninstallStateOf::Finished { outcome } => uninstall_finish(outcome),
    }
}

/// The first state and action of the removal of `plugin_name`: refused
/// when the name is not a valid Plugin name, else ask Codex for its
/// Plugins.
pub fn uninstall_begin(plugin_name: &str) -> (r: Result<(UninstallState, UninstallAction), CodexPluginError>)
    ensures
        match plugin_name_check(plugin_name@) {
            Err(e) => (r matches Err(CodexPluginError::InvalidName { message }) && message@ == e.message()),
            Ok(_) => (r matches Ok(p) && uninstall_state_view(p.0) == UninstallStateView::CheckingCodex
                && uninstall_action_view(p.1) == uninstall_codex(
                CodexCommand::PluginList,
                CodexRead::Plugins,
                plugin_name@,
            )),
        },
{
    match validate_plugin_name(plugin_name) {
        Err(e) => Err(CodexPluginError::InvalidName { message: e.to_string() }),
        Ok(_) => {
            proof {
                reveal_strlit("");
            }
            let args = codex_command_args(CodexCommand::PluginList, plugin_name, "");
            Ok((UninstallStateOf::CheckingCodex, UninstallActionOf::RunCodex { args, reads: CodexRead::Plugins }))
        },
    }
}

/// Finish a removal.
fn uninstall_finish_with(outcome: Result<(), String>) -> (r: (UninstallState, UninstallAction))
    ensures
        (uninstall_state_view(r.0), uninstall_action_view(r.1)) == uninstall_finish(unit_outcome_view(outcome)),
{
    let again: Result<(), String> = match &outcome {
        Ok(()) => Ok(()),
        Err(e) => Err(e.clone()),
    };
    (UninstallStateOf::Finished { outcome }, UninstallActionOf::Finish { outcome: again })
}

/// The names of what a removal left behind.
fn residue_list(registered: bool, plugin_files: bool, marketplace_entry: bool, launcher: bool) -> (r: Vec<String>)
    ensures
        views(r@) == residue_names(registered, (plugin_files, marketplace_entry, launcher)),
{
    let mut r: Vec<String> = Vec::new();
    if registered {
        push_string(&mut r, owned("codex_registration"));
    }
    if plugin_files {
        push_string(&mut r, owned("plugin_files"));
    }
    if marketplace_entry {
        push_string(&mut r, owned("marketplace_entry"));
    }
    if launcher {
        push_string(&mut r, owned("launcher"));
    }
    assert(views(r@) =~= residue_names(registered, (plugin_files, marketplace_entry, launcher)));
    r
}

/// One step of the removal of `plugin_name`: the next state and action
/// after `event` in `state`.
pub fn uninstall_step(plugin_name: &str, state: UninstallState, event: StepEvent) -> (r: (UninstallState, UninstallAction))
    ensures
        (uninstall_state_view(r.0), uninstall_action_view(r.1)) == uninstall_next(
            plugin_name@,
            uninstall_state_view(state),
            event,
        ),
{
    proof {
        reveal_strlit("");
    }
    match state {
        UninstallStateOf::CheckingCodex => match event_result(event) {
            Err(m) => uninstall_finish_with(Err(m)),
            Ok(b) => {
                let found = status_in(&b, plugin_name);
                if found.is_some() {
                    let args = codex_command_args(CodexCommand::PluginRemove, plugin_name, "");
                    (UninstallStateOf::RemovingFromCodex, UninstallActionOf::RunCodex { args, reads: CodexRead::Nothing })
                } else {
                    (UninstallStateOf::RemovingEntry, UninstallActionOf::RemoveMarketplaceEntry)
                }
            },
        },
        UninstallStateOf::RemovingFromCodex => match event_result(event) {
            Err(m) => uninstall_finish_with(Err(concat_str("remove Plugin from Codex: ", m.as_str()))),
            Ok(_) => (UninstallStateOf::RemovingEntry, UninstallActionOf::RemoveMarketplaceEntry),
        },
        UninstallStateOf::RemovingEntry => match event {
            StepEvent::Failed { error } => uninstall_finish_with(Err(error)),
            _ => (UninstallStateOf::RemovingFiles, UninstallActionOf::RemovePluginDir),
        },
        UninstallStateOf::RemovingFiles => match event {
            StepEvent::Failed { error } => uninstall_finish_with(Err(error)),
            _ => (UninstallStateOf::RemovingLauncher, UninstallActionOf::RemoveOwnedLauncher),
        },
        UninstallStateOf::RemovingLauncher => match event {
            StepEvent::Failed { error } => uninstall_finish_with(Err(error)),
            _ => {
                let args = codex_command_args(CodexCommand::PluginList, plugin_name, "");
                (UninstallStateOf::Relisting, UninstallActionOf::RunCodex { args, reads: CodexRead::Plugins })
            },
        },
        UninstallStateOf::Relisting => match event_result(event) {
            Err(m) => uninstall_finish_with(Err(m)),
            Ok(b) => {
                let found = status_in(&b, plugin_name);
                (UninstallStateOf::CheckingResidue { registered: found.is_some() }, UninstallActionOf::CheckResidue)
            },
        },
        UninstallStateOf::CheckingResidue { registered } => {
            let left = match event {
                StepEvent::Failed { error } => Err(error),
                StepEvent::Residue { plugin_files, marketplace_entry, launcher } => Ok(
                    (plugin_files, marketplace_entry, launcher),
                ),
                _ => Ok((true, true, true)),
            };
            match left {
                Err(m) => uninstall_finish_with(Err(m)),
                Ok((plugin_files, marketplace_entry, launcher)) => {
                    let names = residue_list(registered, plugin_files, marketplace_entry, launcher);
                    if names.len() == 0 {
                        uninstall_finish_with(Ok(()))
                    } else {
                        let joined = join_strings(&names, ", ");
                        uninstall_finish_with(Err(concat_str("PLUGIN_UNINSTALL_INCOMPLETE|", joined.as_str())))
                    }
                },
            }
        },
        UninstallStateOf::Finished { outcome } => uninstall_finish_with(outcome),
    }
}

/// What an installation touches on disk, as abstract contents: the
/// Plugin's installed directory, its backup, the marketplace file (each
/// absent or some content) and the copy of the marketplace file taken
/// before the entry was written.
pub struct PluginDisk {
    pub target: Option<int>,
    pub backup: Option<int>,
    pub marketplace: Option<int>,
    pub snapshot: Option<Option<int>>,
}

/// The disk after action `a` is done, where the staged Plugin's content is
/// `new` and the marketplace file with the entry written is `written`:
/// moving the target to the backup, the staged copy to the target, taking
/// the copy of the marketplace file, writing the entry, removing the
/// target, moving the backup back, removing the backup, and writing the
/// copy back (removing the file when there was none).
pub open spec fn apply_install_action(d: PluginDisk, a: InstallActionView, new: int, written: int) -> PluginDisk {
    match a {
        InstallActionOf::BackupTarget => PluginDisk { target: None, backup: d.target, ..d },
        InstallActionOf::ActivateStaged => PluginDisk { target: Some(new), ..d },
        InstallActionOf::SnapshotMarketplace => PluginDisk { snapshot: Some(d.marketplace), ..d },
        InstallActionOf::WriteMarketplaceEntry => PluginDisk { marketplace: Some(written), ..d },
        InstallActionOf::RemoveTarget => PluginDisk { target: None, ..d },
        InstallActionOf::RestoreBackup => match d.backup {
            Some(b) => PluginDisk { target: Some(b), backup: None, ..d },
            None => d,
        },
        InstallActionOf::RemoveBackup => PluginDisk { backup: None, ..d },
        InstallActionOf::RestoreMarketplace => match d.snapshot {
            Some(m) => PluginDisk { marketplace: m, ..d },
            None => d,
        },
        _ => d,
    }
}

/// The event reports action `a` done on disk `d` as it happened: the file
/// operations that change the disk succeed, and the target check tells
/// whether the target exists. Codex commands, creating and filling the
/// staging directory and verifying the staged copy may report anything.
pub open spec fn honest_event(a: InstallActionView, d: PluginDisk, e: StepEvent) -> bool {
    match a {
        InstallActionOf::RunCodex { .. } => true,
        InstallActionOf::CreateStaging => true,
        InstallActionOf::CopyToStaging => true,
        InstallActionOf::VerifyStaged => true,
        InstallActionOf::CheckTarget => e matches StepEvent::TargetExists { exists } && exists == d.target is Some,
        _ => event_failed(e) is None,
    }
}

/// An installation of `name` run from state `s` with pending action `a` on
/// disk `d` with the events `evs`: the last state, action and disk, and
/// whether every event was honest.
pub open spec fn install_disk_run(
    name: Seq<char>,
    root: Seq<char>,
    s: InstallStateView,
    a: InstallActionView,
    d: PluginDisk,
    evs: Seq<StepEvent>,
    new: int,
    written: int,
) -> (InstallStateView, InstallActionView, PluginDisk, bool)
    decreases evs.len(),
{
    if evs.len() == 0 {
        (s, a, d, true)
    } else {
        let next = install_next(name, root, s, evs[0]);
        let rest = install_disk_run(
            name,
            root,
            next.0,
            next.1,
            apply_install_action(d, a, new, written),
            evs.drop_first(),
            new,
            written,
        );
        (rest.0, rest.1, rest.2, honest_event(a, d, evs[0]) && rest.3)
    }
}

/// The backup holds the previous version exactly when there was one.
pub open spec fn backup_holds(backup: bool, d: PluginDisk, d0: PluginDisk) -> bool {
    &&& backup ==> d.backup == d0.target && d0.target is Some
    &&& !backup ==> d.backup is None && d0.target is None
}

/// Where the disk stands in each state of an installation that started on
/// disk `d0` (with no backup and no copy of the marketplace file).
pub open spec fn disk_matches(s: InstallStateView, a: InstallActionView, d: PluginDisk, d0: PluginDisk, new: int, written: int) -> bool {
    let untouched = d.target == d0.target && d.backup is None && d.marketplace == d0.marketplace;
    let placed = d.target == Some(new) && d.snapshot == Some(d0.marketplace);
    match s {
        InstallStateOf::CreatingStaging => a == InstallActionView::CreateStaging && untouched,
        InstallStateOf::CopyingSource => a == InstallActionView::CopyToStaging && untouched,
        InstallStateOf::VerifyingStaged => a == InstallActionView::VerifyStaged && untouched,
        InstallStateOf::CheckingTarget => a == InstallActionView::CheckTarget && untouched,
        InstallStateOf::BackingUp => a == InstallActionView::BackupTarget && untouched && d0.target is Some,
        InstallStateOf::Activating { backup } => a == InstallActionView::ActivateStaged && d.target is None
            && backup_holds(backup, d, d0) && d.marketplace == d0.marketplace,
        InstallStateOf::Snapshotting { backup } => a == InstallActionView::SnapshotMarketplace && d.target == Some(new)
            && backup_holds(backup, d, d0) && d.marketplace == d0.marketplace,
        InstallStateOf::WritingEntry { backup } => a == InstallActionView::WriteMarketplaceEntry && placed
            && backup_holds(backup, d, d0) && d.marketplace == d0.marketplace,
        InstallStateOf::ListingMarketplaces { backup } => a is RunCodex && placed && backup_holds(backup, d, d0)
            && d.marketplace == Some(written),
        InstallStateOf::AddingMarketplace { backup } => a is RunCodex && placed && backup_holds(backup, d, d0)
            && d.marketplace == Some(written),
        InstallStateOf::AddingPlugin { backup, added } => a is RunCodex && placed && backup_holds(backup, d, d0)
            && d.marketplace == Some(written),
        InstallStateOf::ListingPlugins { backup, added } => a is RunCodex && placed && backup_holds(backup, d, d0)
            && d.marketplace == Some(written),
        InstallStateOf::UndoingTarget { backup, error, codex } => a == InstallActionView::RemoveTarget && codex is Some
            && placed && backup_holds(backup, d, d0) && d.marketplace == Some(written),
        InstallStateOf::UndoingBackup { error, codex } => a == InstallActionView::RestoreBackup && codex is Some
            && d.target is None && backup_holds(true, d, d0) && d.snapshot == Some(d0.marketplace)
            && d.marketplace == Some(written),
        InstallStateOf::RestoringMarketplace { error, added } => a == InstallActionView::RestoreMarketplace
            && d.target == d0.target && d.backup is None && d.snapshot == Some(d0.marketplace),
        InstallStateOf::Unregistering { error } => a is RunCodex && untouched,
        InstallStateOf::RemovingBackup { status } => a == InstallActionView::RemoveBackup && d.target == Some(new)
            && backup_holds(true, d, d0) && d.marketplace == Some(written),
        InstallStateOf::RemovingStaging { outcome } => a == InstallActionView::RemoveStaging && d.backup is None
            && (outcome is Ok ==> d.target == Some(new) && d.marketplace == Some(written))
            && (outcome is Err ==> d.target == d0.target && d.marketplace == d0.marketplace),
        InstallStateOf::Finished { outcome } => a == (InstallActionView::Finish { outcome }) && d.backup is None
            && (outcome is Ok ==> d.target == Some(new) && d.marketplace == Some(written))
            && (outcome is Err ==> d.target == d0.target && d.marketplace == d0.marketplace),
    }
}

#[verifier::rlimit(60)]
proof fn lemma_disk_step(
    name: Seq<char>,
    root: Seq<char>,
    s: InstallStateView,
    a: InstallActionView,
    d: PluginDisk,
    d0: PluginDisk,
    e: StepEvent,
    new: int,
    written: int,
)
    requires
        disk_matches(s, a, d, d0, new, written),
        honest_event(a, d, e),
    ensures
        disk_matches(
            install_next(name, root, s, e).0,
            install_next(name, root, s, e).1,
            apply_install_action(d, a, new, written),
            d0,
            new,
            written,
        ),
{
}

proof fn lemma_disk_run(
    name: Seq<char>,
    root: Seq<char>,
    s: InstallStateView,
    a: InstallActionView,
    d: PluginDisk,
    d0: PluginDisk,
    evs: Seq<StepEvent>,
    new: int,
    written: int,
)
    requires
        disk_matches(s, a, d, d0, new, written),
    ensures
        ({
            let r = install_disk_run(name, root, s, a, d, evs, new, written);
            r.3 ==> disk_matches(r.0, r.1, r.2, d0, new, written)
        }),
    decreases evs.len(),
{
    if evs.len() > 0 {
        let next = install_next(name, root, s, evs[0]);
        if honest_event(a, d, evs[0]) {
            lemma_disk_step(name, root, s, a, d, d0, evs[0], new, written);
            lemma_disk_run(name, root, next.0, next.1, apply_install_action(d, a, new, written), d0, evs.drop_first(), new, written);
        }
    }
}

/// Whatever Codex answers, an installation (a first one or an update) whose
/// file operations succeed ends with the disk as it promises: when it fails
/// (Codex refused it, or the staged copy did not verify), the previous
/// version of the Plugin is back in place, the marketplace file holds what
/// it held before, and no backup is left; when it succeeds, the new version
/// is in place, the marketplace file holds the written entry, and no backup
/// is left.
pub proof fn law_install_disk_outcome(name: Seq<char>, root: Seq<char>, d0: PluginDisk, evs: Seq<StepEvent>, new: int, written: int)
    requires
        d0.backup is None,
    ensures
        ({
            let r = install_disk_run(
                name,
                root,
                InstallStateView::CreatingStaging,
                InstallActionView::CreateStaging,
                d0,
                evs,
                new,
                written,
            );
            &&& (r.3 && r.1 matches InstallActionOf::Finish { outcome: Err(_) }) ==> r.2.target == d0.target
                && r.2.marketplace == d0.marketplace && r.2.backup is None
            &&& (r.3 && r.1 matches InstallActionOf::Finish { outcome: Ok(_) }) ==> r.2.target == Some(new)
                && r.2.marketplace == Some(written) && r.2.backup is None
        }),
{
    lemma_disk_run(name, root, InstallStateView::CreatingStaging, InstallActionView::CreateStaging, d0, d0, evs, new, written);
}

/// The actions a removal of `name` takes from state `s` when the events
/// `evs` come back one after another.
pub open spec fn uninstall_run(name: Seq<char>, s: UninstallStateView, evs: Seq<StepEvent>) -> Seq<UninstallActionView>
    decreases evs.len(),
{
    if evs.len() == 0 {
        Seq::empty()
    } else {
        let next = uninstall_next(name, s, evs[0]);
        seq![next.1] + uninstall_run(name, next.0, evs.drop_first())
    }
}

/// A removal succeeds only when nothing is left: a step gives `Ok` only
/// after Codex's listing no longer had the Plugin and the Plugin directory,
/// its marketplace entry and a PilotHub-owned Launcher were all found gone
/// (or once finished with `Ok`); when anything is left, the removal fails
/// with `PLUGIN_UNINSTALL_INCOMPLETE` naming it.
pub proof fn law_uninstall_leaves_nothing(name: Seq<char>, s: UninstallStateView, e: StepEvent)
    ensures
        uninstall_next(name, s, e).1 == (UninstallActionView::Finish { outcome: Ok(()) }) ==> (s
            == (UninstallStateView::Finished { outcome: Ok(()) }) || (s == (UninstallStateView::CheckingResidue {
            registered: false,
        }) && e matches StepEvent::Residue { plugin_files: false, marketplace_entry: false, launcher: false })),
        s matches UninstallStateOf::CheckingResidue { registered } ==> (event_failed(e) is None
            && residue_names(registered, residue_of(e)).len() > 0 ==> uninstall_next(name, s, e).1
            == (UninstallActionView::Finish {
            outcome: Err(uninstall_incomplete(residue_names(registered, residue_of(e)))),
        })),
{
}

/// The actions a removal of `name` takes from state `s` with the events
/// `evs`, up to where it first gives an outcome.
pub open spec fn uninstall_outcome(name: Seq<char>, s: UninstallStateView, evs: Seq<StepEvent>) -> Option<Result<(), Seq<char>>>
    decreases evs.len(),
{
    if evs.len() == 0 {
        None
    } else {
        match uninstall_next(name, s, evs[0]).1 {
            UninstallActionOf::Finish { outcome } => Some(outcome),
            _ => uninstall_outcome(name, uninstall_next(name, s, evs[0]).0, evs.drop_first()),
        }
    }
}

/// At `i`, a residue check found nothing left, right after a Codex listing
/// that no longer had the Plugin `name`.
pub open spec fn clean_check_at(name: Seq<char>, evs: Seq<StepEvent>, i: int) -> bool {
    &&& 1 <= i < evs.len()
    &&& event_codex(evs[i - 1]) is Ok
    &&& listed(body_entries(event_codex(evs[i - 1])->Ok_0), name) is None
    &&& evs[i] matches StepEvent::Residue { plugin_files: false, marketplace_entry: false, launcher: false }
}

proof fn lemma_uninstall_ok_needs_clean_check(name: Seq<char>, s: UninstallStateView, evs: Seq<StepEvent>)
    requires
        !(s is Finished),
    ensures
        uninstall_outcome(name, s, evs) == Some(Ok::<(), Seq<char>>(())) ==> (s == (UninstallStateView::CheckingResidue {
            registered: false,
        }) && evs[0] matches StepEvent::Residue { plugin_files: false, marketplace_entry: false, launcher: false })
            || exists|i: int| #[trigger] clean_check_at(name, evs, i),
    decreases evs.len(),
{
    if evs.len() > 0 {
        let next = uninstall_next(name, s, evs[0]);
        law_uninstall_leaves_nothing(name, s, evs[0]);
        match next.1 {
            UninstallActionOf::Finish { outcome } => {},
            _ => {
                let rest = evs.drop_first();
                lemma_uninstall_ok_needs_clean_check(name, next.0, rest);
                if uninstall_outcome(name, s, evs) == Some(Ok::<(), Seq<char>>(())) {
                    if next.0 == (UninstallStateView::CheckingResidue { registered: false }) {
                        assert(rest[0] == evs[1]);
                        assert(clean_check_at(name, evs, 1));
                    } else {
                        let i = choose|i: int| #[trigger] clean_check_at(name, rest, i);
                        assert(rest[i] == evs[i + 1] && rest[i - 1] == evs[i]);
                        assert(clean_check_at(name, evs, i + 1));
                    }
                }
            },
        }
    }
}

/// Whatever the events, a removal of `name` that starts by asking Codex for
/// its Plugins never reports success while Codex still lists the Plugin or
/// anything of it is left: its first outcome is `Ok` only through a residue
/// check that found the Plugin directory, its marketplace entry and a
/// PilotHub-owned Launcher gone, right after a Codex listing without the
/// Plugin.
pub proof fn law_uninstall_complete(name: Seq<char>, evs: Seq<StepEvent>)
    ensures
        uninstall_outcome(name, UninstallStateView::CheckingCodex, evs) == Some(Ok::<(), Seq<char>>(()))
            ==> exists|i: int| #[trigger] clean_check_at(name, evs, i),
{
    lemma_uninstall_ok_needs_clean_check(name, UninstallStateView::CheckingCodex, evs);
}

/// A Plugin that Codex lists is taken out of Codex first; when Codex
/// refuses, nothing else is removed and the removal fails with the refusal.
pub proof fn law_uninstall_order(name: Seq<char>, evs: Seq<StepEvent>)
    requires
        event_codex(evs[0]) is Ok,
        listed(body_entries(event_codex(evs[0])->Ok_0), name) is Some,
        evs.len() >= 2,
    ensures
        ({
            let run = uninstall_run(name, UninstallStateView::CheckingCodex, evs);
            &&& run[0] == uninstall_codex(CodexCommand::PluginRemove, CodexRead::Nothing, name)
            &&& (event_codex(evs[1]) matches Err(m) ==> run[1] == (UninstallActionView::Finish {
                outcome: Err("remove Plugin from Codex: "@ + m),
            }))
            &&& (event_codex(evs[1]) is Ok ==> run[1] == UninstallActionView::RemoveMarketplaceEntry)
        }),
{
    reveal_with_fuel(uninstall_run, 3);
    let s0 = UninstallStateView::CheckingCodex;
    let n1 = uninstall_next(name, s0, evs[0]);
    let e1 = evs.drop_first();
    let n2 = uninstall_next(name, n1.0, e1[0]);
    assert(uninstall_run(name, s0, evs) == seq![n1.1] + uninstall_run(name, n1.0, e1));
    assert(uninstall_run(name, n1.0, e1) == seq![n2.1] + uninstall_run(name, n2.0, e1.drop_first()));
    assert(e1[0] == evs[1]);
}

} // verus!
