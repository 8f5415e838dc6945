//! Verified core of the PilotHub extension manager.
pub mod codex_plugins;
pub mod digest;
pub mod extensions;
pub mod ids;
pub mod legacy_migration;
pub mod install_diagnostics;
pub mod package_managers;
pub mod paths;
pub mod product_feedback;
pub mod skills;
pub mod sorting;
pub mod storage_migration;
pub mod text;
