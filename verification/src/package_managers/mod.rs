//! Package-manager adapters: the commands PilotHub runs, described as data.
pub mod apm;
pub mod archive;
pub mod runtime;
pub mod runtime_install;

use vstd::prelude::*;
use crate::text::{join, views};

verus! {

/// Where a package manager installs.
#[derive(Clone, Copy, Debug, PartialEq, Eq)]
pub enum PackageManagerScope {
    Project,
    Global,
}

/// The directory, scope and Agent targets of one package-manager operation.
#[derive(Clone, Debug, PartialEq, Eq)]
pub struct PackageManagerContext {
    pub working_dir: String,
    pub scope: PackageManagerScope,
    pub targets: Vec<String>,
}

/// A command line to run: program, arguments and working directory.
#[derive(Clone, Debug, PartialEq, Eq)]
pub struct PackageManagerCommand {
    pub program: String,
    pub args: Vec<String>,
    pub working_dir: String,
}

/// Whether a package manager can run, with its reported version or the
/// reason it cannot.
#[derive(Clone, Debug, PartialEq, Eq)]
pub struct PackageManagerAvailability {
    pub available: bool,
    pub version: Option<String>,
    pub message: Option<String>,
}

/// What happened when a program was asked for its version: it ran and
/// exited (with its exit status as text and its decoded output), or it could
/// not be started.
#[derive(Clone, Debug, PartialEq, Eq)]
pub enum CommandOutcome {
    Exited { success: bool, status: String, stdout: String, stderr: String },
    NotStarted { error: String },
}

/// Why a package-manager operation was refused.
#[derive(Clone, Copy, Debug, PartialEq, Eq)]
pub enum PackageManagerError {
    EmptyPackageReference,
}

impl PackageManagerError {
    /// The text of the error.
    pub open spec fn message(self) -> Seq<char> {
        match self {
            PackageManagerError::EmptyPackageReference => "package reference cannot be empty"@,
        }
    }

    /// The text of the error.
    pub fn to_string(&self) -> (r: String)
        ensures
            r@ == self.message(),
    {
        match self {
            PackageManagerError::EmptyPackageReference => crate::text::owned(
                "package reference cannot be empty",
            ),
        }
    }
}

/// The arguments that select the scope: `--global` for a global operation.
pub open spec fn scope_args(scope: PackageManagerScope) -> Seq<Seq<char>> {
    match scope {
        PackageManagerScope::Global => seq!["--global"@],
        PackageManagerScope::Project => Seq::<Seq<char>>::empty(),
    }
}

/// The arguments that select Agent targets: none for no targets, else
/// `--target` and the targets joined by commas.
pub open spec fn target_args(targets: Seq<Seq<char>>) -> Seq<Seq<char>> {
    if targets.len() == 0 {
        Seq::<Seq<char>>::empty()
    } else {
        seq!["--target"@, join(targets, ","@)]
    }
}

/// The views of a context's targets.
pub open spec fn context_targets(context: PackageManagerContext) -> Seq<Seq<char>> {
    views(context.targets@)
}

/// A package manager that PilotHub drives by building command lines.
pub trait PackageManager {
    /// The adapter's identifier.
    fn id(&self) -> &'static str;

    /// Availability, judged from what happened when the program was asked
    /// for its version.
    fn availability(&self, probe: &CommandOutcome) -> PackageManagerAvailability;

    /// The command that installs `package`.
    fn install(&self, package: &str, context: &PackageManagerContext) -> Result<
        PackageManagerCommand,
        PackageManagerError,
    >;

    /// The command that uninstalls `package`.
    fn uninstall(&self, package: &str, context: &PackageManagerContext) -> Result<
        PackageManagerCommand,
        PackageManagerError,
    >;

    /// The command that updates `package`, or every package.
    fn update(
        &self,
        package: Option<&str>,
        accept_changes: bool,
        context: &PackageManagerContext,
    ) -> Result<PackageManagerCommand, PackageManagerError>;

    /// The command that lists installed packages.
    fn list(&self, context: &PackageManagerContext) -> Result<
        PackageManagerCommand,
        PackageManagerError,
    >;

    /// The command that checks the package manager's health.
    fn doctor(&self, context: &PackageManagerContext) -> Result<
        PackageManagerCommand,
        PackageManagerError,
    >;
}

} // verus!
