//! Report-level wire shapes and the decisions of report creation that are
//! pure: which adapter a report names, branch shapes, endpoint path
//! parameters, and the check that a report's branch and testbed belong to
//! one project. HTTP routing and persistence stay with the caller.

use vstd::prelude::*;

use crate::error::ApiError;

verus! {

/// Which adapter parses a report's raw results.
#[derive(Debug, Clone, Copy, PartialEq, Eq, Structural)]
pub enum JsonAdapter {
    Json,
    Rust,
}

/// A new branch as submitted by a caller.
#[derive(Debug, Clone)]
pub struct JsonNewBranch {
    pub project: String,
    pub name: String,
    pub slug: Option<String>,
}

/// Path parameter of the adapter endpoints.
#[derive(Debug, Clone)]
pub struct PathParams {
    pub adapter_uuid: String,
}

/// Path parameter of the report listing endpoint.
#[derive(Debug, Clone)]
pub struct GetLsParams {
    pub project: String,
}

/// A stored adapter row.
#[derive(Debug, Clone)]
pub struct QueryAdapter {
    pub id: i32,
    pub uuid: String,
    pub name: String,
}

/// The adapter wire shape; the identifier is a UUID string.
#[derive(Debug, Clone)]
pub struct Adapter {
    pub uuid: String,
    pub name: String,
}

impl Adapter {
    /// The wire shape of a stored adapter row; a stored identifier that is
    /// not a UUID is an error.
    pub fn from_query(adapter: QueryAdapter) -> (r: Result<Adapter, ApiError>)
        ensures
            match r {
                Ok(a) => crate::trusted::uuid_str_ok(adapter.uuid@) && a.uuid@ == adapter.uuid@
                    && a.name@ == adapter.name@,
                Err(e) => !crate::trusted::uuid_str_ok(adapter.uuid@) && e
                    == ApiError::InvalidUuid,
            },
    {
        if !crate::trusted::uuid_valid(adapter.uuid.as_str()) {
            return Err(ApiError::InvalidUuid);
        }
        let QueryAdapter { id: _, uuid, name } = adapter;
        Ok(Adapter { uuid, name })
    }
}

/// A report is valid only when its branch and its testbed belong to the
/// same project; then that project is the report's project.
pub fn report_project(branch_project_id: i32, testbed_project_id: i32) -> (r: Result<
    i32,
    ApiError,
>)
    ensures
        match r {
            Ok(p) => branch_project_id == testbed_project_id && p == branch_project_id,
            Err(e) => branch_project_id != testbed_project_id && e == ApiError::ProjectMismatch,
        },
{
    if branch_project_id == testbed_project_id {
        Ok(branch_project_id)
    } else {
        Err(ApiError::ProjectMismatch)
    }
}

/// The code version a report is recorded under: the version already
/// stored for the branch and hash where one exists, else the freshly
/// inserted one.
pub fn choose_version(existing: Option<i32>, inserted: i32) -> (r: i32)
    ensures
        match existing {
            Some(v) => r == v,
            None => r == inserted,
        },
{
    match existing {
        Some(v) => v,
        None => inserted,
    }
}

} // verus!
