//! Repairing a managed Codex Plugin: verify its files again, rebuild its
//! marketplace entry, register it with Codex again, read its state back and
//! settle its legacy Launcher.
use vstd::prelude::*;
use super::{
    CodexPluginAdapter, CodexPluginError, PluginInstallationStatus, PluginPreview, StatusView,
    launcher_choice,
    listed, migrate_legacy_launcher, status_view,
};
use super::install::{
    CodexCommand, CodexRead, StepEvent, body_entries, body_registered, codex_args,
    codex_command_args, error_messages, event_codex, event_failed, event_result,
    joined_error_messages, registered_in, status_in,
};
use super::manifest::{plugin_name_check, validate_plugin_name};
use crate::text::{concat_str, views};

verus! {

/// Where a repair stands: verifying the Plugin files, writing the
/// marketplace entry, asking Codex for its marketplaces, adding PilotHub's
/// marketplace, adding the Plugin, reading Codex's Plugins, looking for a
/// PilotHub-owned Launcher, removing it, or finished.
#[derive(Debug)]
pub enum RepairStateOf<S, E> {
    Verifying,
    WritingEntry,
    ListingMarketplaces,
    AddingMarketplace,
    AddingPlugin,
    ListingPlugins,
    CheckingLauncher { status: S },
    RemovingLauncher { status: S },
    Finished { outcome: Result<S, E> },
}

/// The next thing to do in a repair.
#[derive(Debug)]
pub enum RepairActionOf<S, E, L> {
    VerifyPlugin,
    WriteMarketplaceEntry,
    RunCodex { args: L, reads: CodexRead },
    CheckOwnedLauncher,
    RemoveOwnedLauncher,
    Finish { outcome: Result<S, E> },
}

/// The state of a repair.
pub type RepairState = RepairStateOf<PluginInstallationStatus, String>;

/// The state of a repair as plain values.
pub type RepairStateView = RepairStateOf<StatusView, Seq<char>>;

/// An action of a repair.
pub type RepairAction = RepairActionOf<PluginInstallationStatus, String, Vec<String>>;

/// An action of a repair as plain values.
pub type RepairActionView = RepairActionOf<StatusView, Seq<char>, Seq<Seq<char>>>;

/// The plain values of a repair outcome.
pub open spec fn repair_outcome_view(o: Result<PluginInstallationStatus, String>) -> Result<StatusView, Seq<char>> {
    match o {
        Ok(s) => Ok(status_view(s)),
        Err(e) => Err(e@),
    }
}

/// The plain values of a repair state.
pub open spec fn repair_state_view(s: RepairState) -> RepairStateView {
    match s {
        RepairStateOf::Verifying => RepairStateOf::Verifying,
        RepairStateOf::WritingEntry => RepairStateOf::WritingEntry,
        RepairStateOf::ListingMarketplaces => RepairStateOf::ListingMarketplaces,
        RepairStateOf::AddingMarketplace => RepairStateOf::AddingMarketplace,
        RepairStateOf::AddingPlugin => RepairStateOf::AddingPlugin,
        RepairStateOf::ListingPlugins => RepairStateOf::ListingPlugins,
        RepairStateOf::CheckingLauncher { status } => RepairStateOf::CheckingLauncher { status: status_view(status) },
        RepairStateOf::RemovingLauncher { status } => RepairStateOf::RemovingLauncher { status: status_view(status) },
        RepairStateOf::Finished { outcome } => RepairStateOf::Finished { outcome: repair_outcome_view(outcome) },
    }
}

/// The plain values of a repair action.
pub open spec fn repair_action_view(a: RepairAction) -> RepairActionView {
    match a {
        RepairActionOf::VerifyPlugin => RepairActionOf::VerifyPlugin,
        RepairActionOf::WriteMarketplaceEntry => RepairActionOf::WriteMarketplaceEntry,
        RepairActionOf::RunCodex { args, reads } => RepairActionOf::RunCodex { args: views(args@), reads },
        RepairActionOf::CheckOwnedLauncher => RepairActionOf::CheckOwnedLauncher,
        RepairActionOf::RemoveOwnedLauncher => RepairActionOf::RemoveOwnedLauncher,
        RepairActionOf::Finish { outcome } => RepairActionOf::Finish { outcome: repair_outcome_view(outcome) },
    }
}

/// Running a Codex command of the repair of `name` with the marketplace at
/// `root`.
pub open spec fn repair_codex(command: CodexCommand, reads: CodexRead, name: Seq<char>, root: Seq<char>) -> RepairActionView {
    RepairActionOf::RunCodex { args: codex_args(command, name, root), reads }
}

/// Finish a repair with `outcome`.
pub open spec fn repair_finish(outcome: Result<StatusView, Seq<char>>) -> (RepairStateView, RepairActionView) {
    (RepairStateOf::Finished { outcome }, RepairActionOf::Finish { outcome })
}

/// One step of the repair of `name` with the marketplace at `root`: the
/// Plugin files are verified, its marketplace entry written, PilotHub's
/// marketplace added to Codex when Codex does not list it, the Plugin added
/// and Codex's Plugins read back; a Plugin Codex then does not report fails
/// the repair. Last, the legacy Launcher is settled as listing settles it
/// (`launcher_choice`): a PilotHub-owned one is removed when Codex's own
/// entry is usable. The first failure of a step ends the repair with its
/// error.
pub open spec fn repair_next(name: Seq<char>, root: Seq<char>, s: RepairStateView, e: StepEvent) -> (RepairStateView, RepairActionView) {
    match s {
        RepairStateOf::Verifying => match event_failed(e) {
            Some(m) => repair_finish(Err("verify Codex Plugin: "@ + m)),
            None => (RepairStateOf::WritingEntry, RepairActionOf::WriteMarketplaceEntry),
        },
        RepairStateOf::WritingEntry => match event_failed(e) {
            Some(m) => repair_finish(Err(m)),
            None => (
                RepairStateOf::ListingMarketplaces,
                repair_codex(CodexCommand::MarketplaceList, CodexRead::Marketplaces, name, root),
            ),
        },
        RepairStateOf::ListingMarketplaces => match event_codex(e) {
            Err(m) => repair_finish(Err(m)),
            Ok(b) => if body_registered(b) {
                (RepairStateOf::AddingPlugin, repair_codex(CodexCommand::PluginAdd, CodexRead::Nothing, name, root))
            } else {
                (
                    RepairStateOf::AddingMarketplace,
                    repair_codex(CodexCommand::MarketplaceAdd, CodexRead::Nothing, name, root),
                )
            },
        },
        RepairStateOf::AddingMarketplace => match event_codex(e) {
            Err(m) => repair_finish(Err(m)),
            Ok(_) => (RepairStateOf::AddingPlugin, repair_codex(CodexCommand::PluginAdd, CodexRead::Nothing, name, root)),
        },
        RepairStateOf::AddingPlugin => match event_codex(e) {
            Err(m) => repair_finish(Err("install Plugin with Codex: "@ + m)),
            Ok(_) => (RepairStateOf::ListingPlugins, repair_codex(CodexCommand::PluginList, CodexRead::Plugins, name, root)),
        },
        RepairStateOf::ListingPlugins => match event_codex(e) {
            Err(m) => repair_finish(Err(m)),
            Ok(b) => match listed(body_entries(b), name) {
                Some(st) => (RepairStateOf::CheckingLauncher { status: st }, RepairActionOf::CheckOwnedLauncher),
                None => repair_finish(Err("Codex did not report "@ + name + " after repair"@)),
            },
        },
        RepairStateOf::CheckingLauncher { status } => match e {
            StepEvent::Failed { error } => repair_finish(Err(error@)),
            _ => {
                let owned = e matches StepEvent::TargetExists { exists: true };
                let (after, remove) = launcher_choice(status, owned);
                if remove {
                    (RepairStateOf::RemovingLauncher { status: after }, RepairActionOf::RemoveOwnedLauncher)
                } else {
                    repair_finish(Ok(after))
                }
            },
        },
        RepairStateOf::RemovingLauncher { status } => match event_failed(e) {
            Some(m) => repair_finish(Err(m)),
            None => repair_finish(Ok(status)),
        },
        RepairStateOf::Finished { outcome } => repair_finish(outcome),
    }
}

/// Whether a Plugin's files, read again, are still a valid Plugin: refused
/// with the joined error messages when the preview is not valid.
pub fn check_preview(preview: &PluginPreview) -> (r: Result<(), CodexPluginError>)
    ensures
        preview.validation.valid <==> r is Ok,
        !preview.validation.valid ==> (r matches Err(CodexPluginError::Invalid { messages })
            && messages@ == error_messages(preview.validation.errors@)),
{
    if preview.validation.valid {
        Ok(())
    } else {
        Err(CodexPluginError::Invalid { messages: joined_error_messages(&preview.validation.errors) })
    }
}

impl CodexPluginAdapter {
    /// Begins repairing the managed Plugin `plugin_name`: refused when the
    /// name is not a valid Plugin name, else verify its files.
    pub fn repair(&self, plugin_name: &str) -> (r: Result<(RepairState, RepairAction), CodexPluginError>)
        ensures
            match plugin_name_check(plugin_name@) {
                Err(e) => (r matches Err(CodexPluginError::InvalidName { message }) && message@ == e.message()),
                Ok(_) => (r matches Ok(p) && repair_state_view(p.0) == RepairStateView::Verifying
                    && repair_action_view(p.1) == RepairActionView::VerifyPlugin),
            },
    {
        match validate_plugin_name(plugin_name) {
            Err(e) => Err(CodexPluginError::InvalidName { message: e.to_string() }),
            Ok(_) => Ok((RepairStateOf::Verifying, RepairActionOf::VerifyPlugin)),
        }
    }
}

/// Finish a repair.
fn repair_finish_with(outcome: Result<PluginInstallationStatus, String>) -> (r: (RepairState, RepairAction))
    ensures
        (repair_state_view(r.0), repair_action_view(r.1)) == repair_finish(repair_outcome_view(outcome)),
{
    let again: Result<PluginInstallationStatus, String> = match &outcome {
        Ok(s) => Ok(super::install::copy_status(s)),
        Err(e) => Err(e.clone()),
    };
    (RepairStateOf::Finished { outcome }, RepairActionOf::Finish { outcome: again })
}

/// Running a Codex command of a repair.
fn repair_run(command: CodexCommand, reads: CodexRead, plugin_name: &str, root: &str) -> (r: RepairAction)
    ensures
        repair_action_view(r) == repair_codex(command, reads, plugin_name@, root@),
{
    RepairActionOf::RunCodex { args: codex_command_args(command, plugin_name, root), reads }
}

/// One step of the repair of `plugin_name` with the adapter's marketplace:
/// the next state and action after `event` in `state`.
pub fn repair_step(adapter: &CodexPluginAdapter, plugin_name: &str, state: RepairState, event: StepEvent) -> (r: (
    RepairState,
    RepairAction,
))
    ensures
        (repair_state_view(r.0), repair_action_view(r.1)) == repair_next(
            plugin_name@,
            adapter.paths.marketplace_root@,
            repair_state_view(state),
            event,
        ),
{
    let root = adapter.paths.marketplace_root.as_str();
    match state {
        RepairStateOf::Verifying => match event {
            StepEvent::Failed { error } => repair_finish_with(Err(concat_str("verify Codex Plugin: ", error.as_str()))),
            _ => (RepairStateOf::WritingEntry, RepairActionOf::WriteMarketplaceEntry),
        },
        RepairStateOf::WritingEntry => match event {
            StepEvent::Failed { error } => repair_finish_with(Err(error)),
            _ => (
                RepairStateOf::ListingMarketplaces,
                repair_run(CodexCommand::MarketplaceList, CodexRead::Marketplaces, plugin_name, root),
            ),
        },
        RepairStateOf::ListingMarketplaces => match event_result(event) {
            Err(m) => repair_finish_with(Err(m)),
            Ok(b) => if registered_in(&b) {
                (RepairStateOf::AddingPlugin, repair_run(CodexCommand::PluginAdd, CodexRead::Nothing, plugin_name, root))
            } else {
                (
                    RepairStateOf::AddingMarketplace,
                    repair_run(CodexCommand::MarketplaceAdd, CodexRead::Nothing, plugin_name, root),
                )
            },
        },
        RepairStateOf::AddingMarketplace => match event_result(event) {
            Err(m) => repair_finish_with(Err(m)),
            Ok(_) => (RepairStateOf::AddingPlugin, repair_run(CodexCommand::PluginAdd, CodexRead::Nothing, plugin_name, root)),
        },
        RepairStateOf::AddingPlugin => match event_result(event) {
            Err(m) => repair_finish_with(Err(concat_str("install Plugin with Codex: ", m.as_str()))),
            Ok(_) => (RepairStateOf::ListingPlugins, repair_run(CodexCommand::PluginList, CodexRead::Plugins, plugin_name, root)),
        },
        RepairStateOf::ListingPlugins => match event_result(event) {
            Err(m) => repair_finish_with(Err(m)),
            Ok(b) => match status_in(&b, plugin_name) {
                Some(st) => (RepairStateOf::CheckingLauncher { status: st }, RepairActionOf::CheckOwnedLauncher),
                None => {
                    let a = concat_str("Codex did not report ", plugin_name);
                    repair_finish_with(Err(concat_str(a.as_str(), " after repair")))
                },
            },
        },
        RepairStateOf::CheckingLauncher { status } => match event {
            StepEvent::Failed { error } => repair_finish_with(Err(error)),
            _ => {
                let owned = match event {
                    StepEvent::TargetExists { exists } => exists,
                    _ => false,
                };
                let (after, remove) = migrate_legacy_launcher(status, owned);
                if remove {
                    (RepairStateOf::RemovingLauncher { status: after }, RepairActionOf::RemoveOwnedLauncher)
                } else {
                    repair_finish_with(Ok(after))
                }
            },
        },
        RepairStateOf::RemovingLauncher { status } => match event {
            StepEvent::Failed { error } => repair_finish_with(Err(error)),
            _ => repair_finish_with(Ok(status)),
        },
        RepairStateOf::Finished { outcome } => repair_finish_with(outcome),
    }
}

/// A repair reports success only with the status Codex's listing gives for
/// the Plugin right after the Plugin was added again, settled for its
/// Launcher; and when that status says Codex's own entry is usable, a
/// PilotHub-owned Launcher is removed before the repair succeeds.
pub proof fn law_repair_settles_launcher(name: Seq<char>, root: Seq<char>, st: StatusView, e: StepEvent)
    ensures
        ({
            let next = repair_next(name, root, RepairStateOf::CheckingLauncher { status: st }, e);
            &&& (st.invocation.3 == "native"@ && e matches StepEvent::TargetExists { exists: true }) ==> next.1
                == RepairActionView::RemoveOwnedLauncher
            &&& next.1 matches RepairActionOf::Finish { outcome: Ok(out) } ==> out == launcher_choice(st, false).0
                || (out == launcher_choice(st, true).0 && st.invocation.3 != "native"@)
        }),
        ({
            let s = RepairStateView::ListingPlugins;
            let next = repair_next(name, root, s, e);
            &&& event_codex(e) matches Ok(b) ==> match listed(body_entries(b), name) {
                Some(v) => next == (RepairStateView::CheckingLauncher { status: v }, RepairActionView::CheckOwnedLauncher),
                None => next.1 matches RepairActionOf::Finish { outcome: Err(_) },
            }
        }),
{
}

} // verus!
