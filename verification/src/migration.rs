//! Workspace schema upgrades: which migrations run for a stored schema
//! version, and how the version 3 migration settles the final body of each
//! capture. The database and file work happens in the I/O layer.
use vstd::prelude::*;
use vstd::string::*;

use crate::headers::{find_first_ci, first_header};
use crate::model::{BodySourceType, HeaderValues};
use crate::numbers::{decimal_text, u64_text};

verus! {

/// The workspace schema version this library writes.
pub const CURRENT_WORKSPACE_SCHEMA_VERSION: u32 = 3;

/// The message for a workspace written by a newer version.
pub open spec fn newer_schema_message(version: u32) -> Seq<char> {
    "workspace schema version "@ + decimal_text(version as nat) + " is newer than supported version 3"@
}

/// The migrations to run for a workspace at `version`: one per version from
/// it up to the current one, each named by the version it starts from. A
/// newer workspace is refused.
pub fn plan_migrations(version: u32) -> (r: Result<Vec<u32>, String>)
    ensures
        match r {
            Ok(steps) => version <= CURRENT_WORKSPACE_SCHEMA_VERSION && steps@.len()
                == CURRENT_WORKSPACE_SCHEMA_VERSION - version && forall|i: int|
                0 <= i < steps@.len() ==> #[trigger] steps@[i] == version + i,
            Err(m) => version > CURRENT_WORKSPACE_SCHEMA_VERSION && m@ == newer_schema_message(version),
        },
{
    if version > CURRENT_WORKSPACE_SCHEMA_VERSION {
        let mut m = String::from_str("workspace schema version ");
        let v = u64_text(version as u64);
        m.append(v.as_str());
        m.append(" is newer than supported version 3");
        return Err(m);
    }
    let mut steps: Vec<u32> = Vec::new();
    let mut v = version;
    while v < CURRENT_WORKSPACE_SCHEMA_VERSION
        invariant
            version <= v <= CURRENT_WORKSPACE_SCHEMA_VERSION,
            steps@.len() == v - version,
            forall|i: int| 0 <= i < steps@.len() ==> #[trigger] steps@[i] == version + i,
        decreases CURRENT_WORKSPACE_SCHEMA_VERSION - v,
    {
        steps.push(v);
        v = v + 1;
    }
    Ok(steps)
}

/// Running the planned migrations and recording each new version leaves the
/// workspace at the current version, whatever version it started from.
pub proof fn law_migrations_reach_current(version: u32, steps: Seq<u32>)
    requires
        version <= CURRENT_WORKSPACE_SCHEMA_VERSION,
        steps.len() == CURRENT_WORKSPACE_SCHEMA_VERSION - version,
        forall|i: int| 0 <= i < steps.len() ==> #[trigger] steps[i] == version + i,
    ensures
        steps.len() > 0 ==> steps.last() + 1 == CURRENT_WORKSPACE_SCHEMA_VERSION,
        steps.len() == 0 ==> version == CURRENT_WORKSPACE_SCHEMA_VERSION,
{
}

/// The name of a capture's legacy modified-body file.
pub open spec fn modified_body_file(capture_id: u64, side: Seq<char>) -> Seq<char> {
    decimal_text(capture_id as nat) + "-"@ + side + ".body.modified"@
}

/// The name of a capture's legacy modified-body file, `{capture}-{side}.body.modified`.
pub fn modified_body_file_name(capture_id: u64, side: &str) -> (r: String)
    ensures
        r@ == modified_body_file(capture_id, side@),
{
    let mut name = u64_text(capture_id);
    name.append("-");
    name.append(side);
    name.append(".body.modified");
    name
}

/// The asset a legacy modified body is imported as, `mig/{session}/{file}`.
pub open spec fn migration_asset(session_id: u64, file_name: Seq<char>) -> Seq<char> {
    "mig/"@ + decimal_text(session_id as nat) + "/"@ + file_name
}

/// The identifier a legacy modified body is imported under.
pub fn migration_asset_id(session_id: u64, file_name: &str) -> (r: String)
    ensures
        r@ == migration_asset(session_id, file_name@),
{
    let mut id = String::from_str("mig/");
    let s = u64_text(session_id);
    id.append(s.as_str());
    id.append("/");
    id.append(file_name);
    id
}

/// How the version 3 migration settles a capture's final body.
#[derive(Debug, Clone, PartialEq, Eq)]
pub enum FinalBodyStep {
    /// Record this source as the final body.
    Keep(BodySourceType),
    /// Keep the recorded asset if the store still has it, else import the file.
    KeepAssetIfStored(String),
    /// Import the legacy modified-body file as a new asset.
    Import,
}

/// Without a legacy modified-body file the recorded final body stays (the
/// original body when none was recorded). With one, a recorded asset is kept
/// if it still exists; otherwise the file is imported.
pub fn final_body_step(modified_file_exists: bool, recorded: Option<BodySourceType>) -> (r: FinalBodyStep)
    ensures
        !modified_file_exists ==> r == FinalBodyStep::Keep(
            match recorded {
                Some(b) => b,
                None => BodySourceType::Original,
            },
        ),
        modified_file_exists ==> match recorded {
            Some(BodySourceType::Asset { asset_id }) => r == FinalBodyStep::KeepAssetIfStored(asset_id),
            _ => r == FinalBodyStep::Import,
        },
{
    if !modified_file_exists {
        return FinalBodyStep::Keep(
            match recorded {
                Some(b) => b,
                None => BodySourceType::Original,
            },
        );
    }
    match recorded {
        Some(BodySourceType::Asset { asset_id }) => FinalBodyStep::KeepAssetIfStored(asset_id),
        _ => FinalBodyStep::Import,
    }
}

/// The content type an imported body is stored with: the first value of the
/// first `content-type` header, or empty.
pub fn imported_content_type(headers: &HeaderValues) -> (r: String)
    ensures
        r@ == match find_first_ci(headers@, "content-type"@) {
            Some(i) => if headers@[i].1.len() > 0 {
                headers@[i].1[0]
            } else {
                Seq::empty()
            },
            None => Seq::empty(),
        },
{
    match first_header(headers, "content-type") {
        Some(v) => String::from_str(v),
        None => String::new(),
    }
}

/// Whether a recorded interceptor modification survives the version 3
/// migration: snapshots and file replacements are dropped.
pub fn keeps_modification_kind(kind: Option<&str>) -> (r: bool)
    ensures
        r == match kind {
            Some(k) => k@ != "snapshot"@ && k@ != "body_replace_file"@,
            None => true,
        },
{
    match kind {
        Some(k) => !crate::text::str_eq(k, "snapshot") && !crate::text::str_eq(k, "body_replace_file"),
        None => true,
    }
}

} // verus!
