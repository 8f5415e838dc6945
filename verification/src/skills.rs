//! The stored record of an installed Skill.
use vstd::prelude::*;

verus! {

/// An installed Skill as PilotHub records it: identity, source, central
/// storage path, content hash, timestamps and status.
#[derive(Debug, Clone, PartialEq, Eq)]
pub struct SkillRecord {
    pub id: String,
    pub name: String,
    pub description: Option<String>,
    pub source_type: String,
    pub source_ref: Option<String>,
    pub source_subpath: Option<String>,
    pub source_revision: Option<String>,
    pub central_path: String,
    pub content_hash: Option<String>,
    pub created_at: i64,
    pub updated_at: i64,
    pub last_sync_at: Option<i64>,
    pub last_seen_at: i64,
    pub enabled: bool,
    pub status: String,
}

} // verus!
