//! Persisted state: the application settings, project snapshots and their
//! schema version, and the age rule of the cache cleanup.
use vstd::prelude::*;

use crate::error::{AppError, ErrorView};
use crate::text::{push_str};

verus! {

/// The user's settings.
#[derive(Debug, Clone, PartialEq, Eq)]
pub struct AppSettings {
    pub api_key: String,
    pub output_directory: String,
    pub last_opened_project_path: String,
    pub saved_translation_instruction: String,
}

impl Default for AppSettings {
    /// Settings with every field empty.
    fn default() -> (r: Self)
        ensures
            r.api_key@ == Seq::<char>::empty(),
            r.output_directory@ == Seq::<char>::empty(),
            r.last_opened_project_path@ == Seq::<char>::empty(),
            r.saved_translation_instruction@ == Seq::<char>::empty(),
    {
        AppSettings {
            api_key: String::new(),
            output_directory: String::new(),
            last_opened_project_path: String::new(),
            saved_translation_instruction: String::new(),
        }
    }
}

#[verifier::external_type_specification]
#[verifier::external_body]
pub struct ExJsonValue(serde_json::Value);

/// A saved project: its schema version, when it was exported, and the job
/// it holds (carried as JSON).
#[derive(Debug)]
pub struct ProjectSnapshot {
    pub version: u32,
    pub exported_at: String,
    pub job: serde_json::Value,
}

/// The error for a snapshot of a schema version that cannot be migrated.
pub open spec fn unsupported_version_error() -> ErrorView {
    ErrorView::Validation {
        message: "Project schema version hiện chưa được hỗ trợ để migrate."@,
        field: None,
    }
}

/// Brings a snapshot to the current schema: version 1 is current; any
/// other version is refused.
pub fn migrate_project_snapshot(snapshot: ProjectSnapshot) -> (r: Result<ProjectSnapshot, AppError>)
    ensures
        snapshot.version == 1 ==> (r matches Ok(s) && s == snapshot),
        snapshot.version != 1 ==> (r matches Err(e) && e@ == unsupported_version_error()),
{
    if snapshot.version == 1 {
        Ok(snapshot)
    } else {
        Err(
            AppError::validation(
                "Project schema version hiện chưa được hỗ trợ để migrate.".to_owned(),
                None,
            ),
        )
    }
}

/// The cutoff, in seconds since the epoch, before which cached files count
/// as old: `days` days before `now_secs`.
pub fn cache_cutoff(now_secs: u64, days: u64) -> (r: u64)
    requires
        days * 86400 <= now_secs,
    ensures
        r == now_secs - days * 86400,
{
    now_secs - days * 24 * 3600
}

/// Whether a cached file last accessed at `accessed_secs` is older than the
/// cutoff.
pub fn is_older_than(accessed_secs: u64, cutoff: u64) -> (r: bool)
    ensures
        r == (accessed_secs < cutoff),
{
    accessed_secs < cutoff
}

/// The name of a job's cached PCM file: `<job_id>.raw`.
pub fn pcm_cache_file_name(job_id: &str) -> (r: String)
    ensures
        r@ == job_id@ + ".raw"@,
{
    let mut s = String::new();
    push_str(&mut s, job_id);
    push_str(&mut s, ".raw");
    s
}

} // verus!
