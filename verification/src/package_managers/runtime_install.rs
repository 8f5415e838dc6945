//! Installing a downloaded APM release archive as a transaction.
//!
//! The archive is checked against its published checksum first. A release
//! that is already unpacked is reused; otherwise the archive is extracted
//! into a fresh staging directory, the binary is located there, and the
//! staging directory becomes the release directory. The runtime marker
//! names the release only once its directory holds the binary, and a
//! failure after the staging directory exists removes it.
//!
//! As for Plugins, the decisions are made one step at a time from a state
//! and the event that the last action produced; the caller performs the
//! actions on disk.
use vstd::prelude::*;
use super::runtime::{
    archive_format, checksum_result, verify_checksum, validate_version, valid_version,
    ArchiveFormat, ManagedApmRuntime, RuntimeError,
};
use crate::digest::sha256;
use crate::ids::{is_fresh_id, lemma_fresh_id_is_name, random_id};
use crate::paths::{
    join_path, join_str, lemma_concat_name, one_level_below, strip_path_prefix, strip_prefix_path,
};
use crate::text::{chars_of, concat_str, ends_with, owned, string_of};

verus! {

/// The paths of one runtime installation: the release version and archive
/// name, the runtime root, the release directory, the staging directory and
/// the name of the binary to look for.
#[derive(Clone, Debug)]
pub struct ApmInstallPlan {
    pub version: String,
    pub archive_name: String,
    pub root: String,
    pub install_dir: String,
    pub staging_id: String,
    pub staging: String,
    pub binary_name: String,
}

/// How the last action went: done, failed with an error, whether the
/// release directory exists, or the binary found (or not) in a directory.
#[derive(Debug)]
pub enum RuntimeEvent {
    Done,
    Failed { error: String },
    Exists { exists: bool },
    Binary { path: Option<String> },
}

/// Where a runtime installation stands.
#[derive(Debug)]
pub enum ApmStateOf<S, R> {
    CreatingRoot,
    CheckingInstallDir,
    FindingInstalled,
    CreatingStaging,
    Extracting,
    FindingStaged,
    Activating { relative: S },
    WritingMarker { runtime: R },
    RemovingStaging { error: S },
    Finished { outcome: Result<R, S> },
}

/// The next thing to do: create the runtime root, look whether the release
/// directory exists, find the binary in it, create the staging directory,
/// extract the archive into it in the given format, find the binary in it,
/// move it to the release directory, write the runtime marker, remove the
/// staging directory, or give the outcome.
#[derive(Debug)]
pub enum ApmActionOf<S, R> {
    CreateRoot,
    CheckInstallDir,
    FindInstalledBinary,
    CreateStaging,
    Extract { format: ArchiveFormat },
    FindStagedBinary,
    ActivateRuntime,
    WriteMarker,
    RemoveStaging,
    Finish { outcome: Result<R, S> },
}

/// The state of a runtime installation.
pub type ApmState = ApmStateOf<String, ManagedApmRuntime>;

/// The state of a runtime installation as plain values.
pub type ApmStateView = ApmStateOf<Seq<char>, (Seq<char>, Seq<char>)>;

/// An action of a runtime installation.
pub type ApmAction = ApmActionOf<String, ManagedApmRuntime>;

/// An action of a runtime installation as plain values.
pub type ApmActionView = ApmActionOf<Seq<char>, (Seq<char>, Seq<char>)>;

/// A runtime as its version and binary path.
pub open spec fn runtime_view(r: ManagedApmRuntime) -> (Seq<char>, Seq<char>) {
    (r.version@, r.binary_path@)
}

/// The plain values of an outcome.
pub open spec fn apm_outcome_view(o: Result<ManagedApmRuntime, String>) -> Result<(Seq<char>, Seq<char>), Seq<char>> {
    match o {
        Ok(r) => Ok(runtime_view(r)),
        Err(e) => Err(e@),
    }
}

/// The plain values of a state.
pub open spec fn apm_state_view(s: ApmState) -> ApmStateView {
    match s {
        ApmStateOf::CreatingRoot => ApmStateOf::CreatingRoot,
        ApmStateOf::CheckingInstallDir => ApmStateOf::CheckingInstallDir,
        ApmStateOf::FindingInstalled => ApmStateOf::FindingInstalled,
        ApmStateOf::CreatingStaging => ApmStateOf::CreatingStaging,
        ApmStateOf::Extracting => ApmStateOf::Extracting,
        ApmStateOf::FindingStaged => ApmStateOf::FindingStaged,
        ApmStateOf::Activating { relative } => ApmStateOf::Activating { relative: relative@ },
        ApmStateOf::WritingMarker { runtime } => ApmStateOf::WritingMarker { runtime: runtime_view(runtime) },
        ApmStateOf::RemovingStaging { error } => ApmStateOf::RemovingStaging { error: error@ },
        ApmStateOf::Finished { outcome } => ApmStateOf::Finished { outcome: apm_outcome_view(outcome) },
    }
}

/// The plain values of an action.
pub open spec fn apm_action_view(a: ApmAction) -> ApmActionView {
    match a {
        ApmActionOf::CreateRoot => ApmActionOf::CreateRoot,
        ApmActionOf::CheckInstallDir => ApmActionOf::CheckInstallDir,
        ApmActionOf::FindInstalledBinary => ApmActionOf::FindInstalledBinary,
        ApmActionOf::CreateStaging => ApmActionOf::CreateStaging,
        ApmActionOf::Extract { format } => ApmActionOf::Extract { format },
        ApmActionOf::FindStagedBinary => ApmActionOf::FindStagedBinary,
        ApmActionOf::ActivateRuntime => ApmActionOf::ActivateRuntime,
        ApmActionOf::WriteMarker => ApmActionOf::WriteMarker,
        ApmActionOf::RemoveStaging => ApmActionOf::RemoveStaging,
        ApmActionOf::Finish { outcome } => ApmActionOf::Finish { outcome: apm_outcome_view(outcome) },
    }
}

/// The plan of installing `version` from `archive_name` under `root`: the
/// release directory `<root>/<version>` and the staging directory
/// `<root>/.staging-<id>` for a fresh identifier.
pub open spec fn apm_plan_matches(plan: ApmInstallPlan, version: Seq<char>, archive_name: Seq<char>, root: Seq<char>, binary_name: Seq<char>) -> bool {
    &&& plan.version@ == version
    &&& plan.archive_name@ == archive_name
    &&& plan.root@ == root
    &&& plan.install_dir@ == join_path(root, version)
    &&& is_fresh_id(plan.staging_id@)
    &&& plan.staging@ == join_path(root, ".staging-"@ + plan.staging_id@)
    &&& plan.binary_name@ == binary_name
}

/// The staging directory of a runtime installation lies one level below
/// the runtime root, so removing it never reaches outside the root.
pub proof fn law_apm_staging_below_root(plan: ApmInstallPlan, version: Seq<char>, archive_name: Seq<char>, root: Seq<char>, binary_name: Seq<char>)
    requires
        apm_plan_matches(plan, version, archive_name, root, binary_name),
    ensures
        one_level_below(plan.staging@, root),
{
    lemma_fresh_id_is_name(plan.staging_id@);
    let head = ".staging-"@;
    assert forall|i: int| 0 <= i < head.len() implies #[trigger] head[i] != '/' by {
        reveal_strlit(".staging-");
    }
    lemma_concat_name(head, plan.staging_id@);
}

/// The archive format an asset name announces.
pub open spec fn format_of(name: Seq<char>) -> Option<ArchiveFormat> {
    if ends_with(name, ".tar.gz"@) {
        Some(ArchiveFormat::TarGz)
    } else if ends_with(name, ".zip"@) {
        Some(ArchiveFormat::Zip)
    } else {
        None
    }
}

/// The error of an event.
pub open spec fn runtime_failure(e: RuntimeEvent) -> Option<Seq<char>> {
    match e {
        RuntimeEvent::Failed { error } => Some(error@),
        _ => None,
    }
}

/// The binary an event reports: its path, or the error that it is missing
/// (or that the search failed).
pub open spec fn binary_found(e: RuntimeEvent, binary_name: Seq<char>) -> Result<Seq<char>, Seq<char>> {
    match e {
        RuntimeEvent::Binary { path: Some(p) } => Ok(p@),
        RuntimeEvent::Failed { error } => Err(error@),
        _ => Err("Microsoft APM archive does not contain "@ + binary_name),
    }
}

/// Leave through the removal of the staging directory with `error`.
pub open spec fn apm_leave(error: Seq<char>) -> (ApmStateView, ApmActionView) {
    (ApmStateOf::RemovingStaging { error }, ApmActionOf::RemoveStaging)
}

/// Give the outcome.
pub open spec fn apm_finish(outcome: Result<(Seq<char>, Seq<char>), Seq<char>>) -> (ApmStateView, ApmActionView) {
    (ApmStateOf::Finished { outcome }, ApmActionOf::Finish { outcome })
}

/// One step of installing the runtime planned by `plan`: the next state and
/// action after event `e` in state `s`.
pub open spec fn apm_next(plan: ApmInstallPlan, s: ApmStateView, e: RuntimeEvent) -> (ApmStateView, ApmActionView) {
    match s {
        ApmStateOf::CreatingRoot => match runtime_failure(e) {
            Some(m) => apm_finish(Err(m)),
            None => (ApmStateOf::CheckingInstallDir, ApmActionOf::CheckInstallDir),
        },
        ApmStateOf::CheckingInstallDir => match e {
            RuntimeEvent::Exists { exists: true } => (ApmStateOf::FindingInstalled, ApmActionOf::FindInstalledBinary),
            _ => (ApmStateOf::CreatingStaging, ApmActionOf::CreateStaging),
        },
        ApmStateOf::FindingInstalled => match binary_found(e, plan.binary_name@) {
            Ok(p) => (ApmStateOf::WritingMarker { runtime: (plan.version@, p) }, ApmActionOf::WriteMarker),
            Err(m) => apm_finish(Err(m)),
        },
        ApmStateOf::CreatingStaging => match runtime_failure(e) {
            Some(m) => apm_finish(Err(m)),
            None => match format_of(plan.archive_name@) {
                Some(f) => (ApmStateOf::Extracting, ApmActionOf::Extract { format: f }),
                None => apm_leave("unsupported Microsoft APM archive format: "@ + plan.archive_name@),
            },
        },
        ApmStateOf::Extracting => match runtime_failure(e) {
            Some(m) => apm_leave(m),
            None => (ApmStateOf::FindingStaged, ApmActionOf::FindStagedBinary),
        },
        ApmStateOf::FindingStaged => match binary_found(e, plan.binary_name@) {
            Ok(p) => match strip_path_prefix(p, plan.staging@) {
                Some(rel) => (ApmStateOf::Activating { relative: rel }, ApmActionOf::ActivateRuntime),
                None => apm_leave("APM binary escaped staging directory"@),
            },
            Err(m) => apm_leave(m),
        },
        ApmStateOf::Activating { relative } => match runtime_failure(e) {
            Some(m) => apm_leave(m),
            None => (
                ApmStateOf::WritingMarker { runtime: (plan.version@, join_path(plan.install_dir@, relative)) },
                ApmActionOf::WriteMarker,
            ),
        },
        ApmStateOf::WritingMarker { runtime } => match runtime_failure(e) {
            Some(m) => apm_finish(Err(m)),
            None => apm_finish(Ok(runtime)),
        },
        ApmStateOf::RemovingStaging { error } => apm_finish(Err(error)),
        ApmStateOf::Finished { outcome } => apm_finish(outcome),
    }
}

/// The start of installing release `version` from the downloaded archive:
/// refused when the version is not a usable directory name, or when the
/// archive does not match the first word of its checksum file; else the
/// plan, and the first action, creating the runtime root.
pub fn apm_install_begin(
    version: &str,
    archive_name: &str,
    archive: &[u8],
    checksum: &str,
    root: &str,
    binary_name: &str,
) -> (r: Result<(ApmInstallPlan, ApmState, ApmAction), RuntimeError>)
    ensures
        !valid_version(version@) ==> r == Err::<(ApmInstallPlan, ApmState, ApmAction), RuntimeError>(
            RuntimeError::InvalidVersion,
        ),
        valid_version(version@) ==> match checksum_result(sha256(archive@), checksum@) {
            Err(e) => r == Err::<(ApmInstallPlan, ApmState, ApmAction), RuntimeError>(e),
            Ok(_) => (r matches Ok(t) && apm_plan_matches(t.0, version@, archive_name@, root@, binary_name@)
                && one_level_below(t.0.staging@, root@)
                && apm_state_view(t.1) == ApmStateView::CreatingRoot && apm_action_view(t.2)
                == ApmActionView::CreateRoot),
        },
{
    validate_version(version)?;
    verify_checksum(archive, checksum)?;
    let staging_id = random_id();
    let staging_name = concat_str(".staging-", staging_id.as_str());
    let plan = ApmInstallPlan {
        version: owned(version),
        archive_name: owned(archive_name),
        root: owned(root),
        install_dir: join_str(root, version),
        staging: join_str(root, staging_name.as_str()),
        staging_id,
        binary_name: owned(binary_name),
    };
    proof {
        law_apm_staging_below_root(plan, version@, archive_name@, root@, binary_name@);
    }
    Ok((plan, ApmStateOf::CreatingRoot, ApmActionOf::CreateRoot))
}

/// Give an outcome.
fn apm_finish_with(outcome: Result<ManagedApmRuntime, String>) -> (r: (ApmState, ApmAction))
    ensures
        (apm_state_view(r.0), apm_action_view(r.1)) == apm_finish(apm_outcome_view(outcome)),
{
    let again = match &outcome {
        Ok(rt) => Ok(ManagedApmRuntime { version: rt.version.clone(), binary_path: rt.binary_path.clone() }),
        Err(e) => Err(e.clone()),
    };
    (ApmStateOf::Finished { outcome }, ApmActionOf::Finish { outcome: again })
}

/// The binary an event reports.
fn binary_result(e: RuntimeEvent, binary_name: &str) -> (r: Result<String, String>)
    ensures
        match r {
            Ok(p) => binary_found(e, binary_name@) == Ok::<Seq<char>, Seq<char>>(p@),
            Err(m) => binary_found(e, binary_name@) == Err::<Seq<char>, Seq<char>>(m@),
        },
{
    match e {
        RuntimeEvent::Binary { path: Some(p) } => Ok(p),
        RuntimeEvent::Failed { error } => Err(error),
        _ => Err(concat_str("Microsoft APM archive does not contain ", binary_name)),
    }
}

/// One step of installing the runtime planned by `plan`.
pub fn apm_install_step(plan: &ApmInstallPlan, state: ApmState, event: RuntimeEvent) -> (r: (ApmState, ApmAction))
    ensures
        (apm_state_view(r.0), apm_action_view(r.1)) == apm_next(*plan, apm_state_view(state), event),
{
    match state {
        ApmStateOf::CreatingRoot => match event {
            RuntimeEvent::Failed { error } => apm_finish_with(Err(error)),
            _ => (ApmStateOf::CheckingInstallDir, ApmActionOf::CheckInstallDir),
        },
        ApmStateOf::CheckingInstallDir => match event {
            RuntimeEvent::Exists { exists: true } => (ApmStateOf::FindingInstalled, ApmActionOf::FindInstalledBinary),
            _ => (ApmStateOf::CreatingStaging, ApmActionOf::CreateStaging),
        },
        ApmStateOf::FindingInstalled => match binary_result(event, plan.binary_name.as_str()) {
            Ok(p) => (
                ApmStateOf::WritingMarker { runtime: ManagedApmRuntime { version: plan.version.clone(), binary_path: p } },
                ApmActionOf::WriteMarker,
            ),
            Err(m) => apm_finish_with(Err(m)),
        },
        ApmStateOf::CreatingStaging => match event {
            RuntimeEvent::Failed { error } => apm_finish_with(Err(error)),
            _ => match archive_format(plan.archive_name.as_str()) {
                Ok(format) => (ApmStateOf::Extracting, ApmActionOf::Extract { format }),
                Err(e) => (ApmStateOf::RemovingStaging { error: e.to_string() }, ApmActionOf::RemoveStaging),
            },
        },
        ApmStateOf::Extracting => match event {
            RuntimeEvent::Failed { error } => (ApmStateOf::RemovingStaging { error }, ApmActionOf::RemoveStaging),
            _ => (ApmStateOf::FindingStaged, ApmActionOf::FindStagedBinary),
        },
        ApmStateOf::FindingStaged => match binary_result(event, plan.binary_name.as_str()) {
            Ok(p) => {
                let pv = chars_of(p.as_str());
                let sv = chars_of(plan.staging.as_str());
                match strip_prefix_path(&pv, &sv) {
                    Some(rel) => (ApmStateOf::Activating { relative: string_of(&rel) }, ApmActionOf::ActivateRuntime),
                    None => (
                        ApmStateOf::RemovingStaging { error: owned("APM binary escaped staging directory") },
                        ApmActionOf::RemoveStaging,
                    ),
                }
            },
            Err(m) => (ApmStateOf::RemovingStaging { error: m }, ApmActionOf::RemoveStaging),
        },
        ApmStateOf::Activating { relative } => match event {
            RuntimeEvent::Failed { error } => (ApmStateOf::RemovingStaging { error }, ApmActionOf::RemoveStaging),
            _ => (
                ApmStateOf::WritingMarker {
                    runtime: ManagedApmRuntime {
                        version: plan.version.clone(),
                        binary_path: join_str(plan.install_dir.as_str(), relative.as_str()),
                    },
                },
                ApmActionOf::WriteMarker,
            ),
        },
        ApmStateOf::WritingMarker { runtime } => match event {
            RuntimeEvent::Failed { error } => apm_finish_with(Err(error)),
            _ => apm_finish_with(Ok(runtime)),
        },
        ApmStateOf::RemovingStaging { error } => apm_finish_with(Err(error)),
        ApmStateOf::Finished { outcome } => apm_finish_with(outcome),
    }
}

/// The runtime marker is written only when the release directory holds the
/// binary: right after the binary was found in an existing release
/// directory, or right after the staged copy became the release directory.
pub proof fn law_marker_after_runtime(plan: ApmInstallPlan, s: ApmStateView, e: RuntimeEvent)
    ensures
        apm_next(plan, s, e).1 is WriteMarker ==> (s is FindingInstalled && binary_found(e, plan.binary_name@) is Ok)
            || (s is Activating && runtime_failure(e) is None),
{
}

/// Once the staging directory exists, no outcome is given before it is
/// removed, unless the staged copy became the release directory: from
/// extracting, finding the staged binary or activating, a step never
/// finishes, and it either goes on or removes the staging directory.
pub proof fn law_staging_removed_on_failure(plan: ApmInstallPlan, s: ApmStateView, e: RuntimeEvent)
    requires
        s is Extracting || s is FindingStaged || s is Activating,
    ensures
        !(apm_next(plan, s, e).1 is Finish),
        apm_next(plan, s, e).0 is RemovingStaging <==> apm_next(plan, s, e).1 is RemoveStaging,
        apm_next(plan, s, e).1 is RemoveStaging || apm_next(plan, s, e).1 is FindStagedBinary
            || apm_next(plan, s, e).1 is ActivateRuntime || apm_next(plan, s, e).1 is WriteMarker,
{
}

/// The runtime marker after action `a` of the installation of `plan`: the
/// marker write puts the plan's version in it; nothing else touches it.
pub open spec fn marker_after(plan: ApmInstallPlan, marker: Option<Seq<char>>, a: ApmActionView) -> Option<Seq<char>> {
    match a {
        ApmActionOf::WriteMarker => Some(plan.version@),
        _ => marker,
    }
}

/// An installation of `plan` run from state `s` with pending action `a` and
/// runtime marker `marker`, with the events `evs`: the last state, action
/// and marker.
pub open spec fn apm_marker_run(
    plan: ApmInstallPlan,
    s: ApmStateView,
    a: ApmActionView,
    marker: Option<Seq<char>>,
    evs: Seq<RuntimeEvent>,
) -> (ApmStateView, ApmActionView, Option<Seq<char>>)
    decreases evs.len(),
{
    if evs.len() == 0 {
        (s, a, marker)
    } else {
        let next = apm_next(plan, s, evs[0]);
        apm_marker_run(plan, next.0, next.1, marker_after(plan, marker, a), evs.drop_first())
    }
}

/// The marker and the pending action agree with the state.
pub open spec fn marker_matches(plan: ApmInstallPlan, s: ApmStateView, a: ApmActionView, marker: Option<Seq<char>>) -> bool {
    &&& s matches ApmStateOf::WritingMarker { runtime } ==> a is WriteMarker && runtime.0 == plan.version@
    &&& a matches ApmActionOf::Finish { outcome } ==> s == (ApmStateView::Finished { outcome })
    &&& s matches ApmStateOf::Finished { outcome } ==> a == (ApmActionView::Finish { outcome }) && (outcome matches Ok(
        rt,
    ) ==> marker == Some(plan.version@) && rt.0 == plan.version@)
}

proof fn lemma_marker_run(
    plan: ApmInstallPlan,
    s: ApmStateView,
    a: ApmActionView,
    marker: Option<Seq<char>>,
    evs: Seq<RuntimeEvent>,
)
    requires
        marker_matches(plan, s, a, marker),
    ensures
        ({
            let r = apm_marker_run(plan, s, a, marker, evs);
            marker_matches(plan, r.0, r.1, r.2)
        }),
    decreases evs.len(),
{
    if evs.len() > 0 {
        let next = apm_next(plan, s, evs[0]);
        assert(marker_matches(plan, next.0, next.1, marker_after(plan, marker, a)));
        lemma_marker_run(plan, next.0, next.1, marker_after(plan, marker, a), evs.drop_first());
    }
}

/// Whatever the steps report, a runtime installation that succeeds has
/// written its version into the runtime marker last, and the runtime it
/// gives is of that version: the marker then names the installed runtime.
pub proof fn law_success_writes_marker(plan: ApmInstallPlan, marker: Option<Seq<char>>, evs: Seq<RuntimeEvent>)
    ensures
        ({
            let r = apm_marker_run(plan, ApmStateView::CreatingRoot, ApmActionView::CreateRoot, marker, evs);
            r.1 matches ApmActionOf::Finish { outcome: Ok(rt) } ==> r.2 == Some(plan.version@) && rt.0
                == plan.version@
        }),
{
    lemma_marker_run(plan, ApmStateView::CreatingRoot, ApmActionView::CreateRoot, marker, evs);
}

} // verus!
