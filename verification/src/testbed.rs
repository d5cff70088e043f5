//! Testbed records: the stored row, the wire shapes, and slug validation.
//! Database reads and writes stay with the caller; these functions do the
//! record construction and checking over plain values.

use vstd::prelude::*;

use crate::error::ApiError;
use crate::text::{dec_digits, str_to_chars, u64_to_dec_chars};
use crate::trusted::{chars_to_string, rand_u32, slug_of, slugify, uuid_new_v4_string, uuid_valid,
    uuid_str_ok};

verus! {

/// A stored testbed row.
#[derive(Debug, Clone)]
pub struct QueryTestbed {
    pub id: i32,
    pub uuid: String,
    pub project_id: i32,
    pub name: String,
    pub slug: String,
    pub os_name: Option<String>,
    pub os_version: Option<String>,
    pub runtime_name: Option<String>,
    pub runtime_version: Option<String>,
    pub cpu: Option<String>,
    pub ram: Option<String>,
    pub disk: Option<String>,
}

/// The testbed wire shape; identifiers are UUID strings.
#[derive(Debug, Clone)]
pub struct JsonTestbed {
    pub uuid: String,
    pub project: String,
    pub name: String,
    pub slug: String,
    pub os_name: Option<String>,
    pub os_version: Option<String>,
    pub runtime_name: Option<String>,
    pub runtime_version: Option<String>,
    pub cpu: Option<String>,
    pub ram: Option<String>,
    pub disk: Option<String>,
}

/// A new testbed as submitted by a caller.
#[derive(Debug, Clone)]
pub struct JsonNewTestbed {
    pub project: String,
    pub name: String,
    pub slug: Option<String>,
    pub os_name: Option<String>,
    pub os_version: Option<String>,
    pub runtime_name: Option<String>,
    pub runtime_version: Option<String>,
    pub cpu: Option<String>,
    pub ram: Option<String>,
    pub disk: Option<String>,
}

/// A testbed row ready to insert.
#[derive(Debug, Clone)]
pub struct InsertTestbed {
    pub uuid: String,
    pub project_id: i32,
    pub name: String,
    pub slug: String,
    pub os_name: Option<String>,
    pub os_version: Option<String>,
    pub runtime_name: Option<String>,
    pub runtime_version: Option<String>,
    pub cpu: Option<String>,
    pub ram: Option<String>,
    pub disk: Option<String>,
}

/// The slug a testbed gets: a submitted slug that already is in slug form
/// is kept; anything else falls back to the slug of the name.
pub open spec fn spec_chosen_slug(name: Seq<char>, slug: Option<String>) -> Seq<char> {
    match slug {
        Some(s) => if s@ == slug_of(s@) {
            s@
        } else {
            slug_of(name)
        },
        None => slug_of(name),
    }
}

/// Validate a submitted slug against the name: keep it only if it already
/// is in slug form; where the chosen slug is taken, append a random
/// decimal suffix to distinguish it.
pub fn validate_slug(name: &str, slug: Option<String>, taken: bool) -> (r: String)
    ensures
        !taken ==> r@ == spec_chosen_slug(name@, slug),
        taken ==> exists|n: u32|
            r@ == spec_chosen_slug(name@, slug) + #[trigger] dec_digits(n as int),
{
    let ghost gslug = slug;
    let base: String = match slug {
        Some(s) => {
            let canon = slugify(s.as_str());
            if s == canon {
                s
            } else {
                slugify(name)
            }
        },
        None => slugify(name),
    };
    assert(base@ == spec_chosen_slug(name@, gslug));
    if taken {
        let suffix = rand_u32();
        let digits = u64_to_dec_chars(suffix as u64);
        let mut out = str_to_chars(base.as_str());
        let ghost basev = out@;
        let mut d = digits;
        out.append(&mut d);
        let r = chars_to_string(&out);
        proof {
            assert(r@ == spec_chosen_slug(name@, gslug) + dec_digits(suffix as int));
        }
        r
    } else {
        base
    }
}

impl QueryTestbed {
    /// The wire shape of this row, given the project's UUID; a stored
    /// identifier that is not a UUID is an error.
    pub fn to_json(self, project: String) -> (r: Result<JsonTestbed, ApiError>)
        ensures
            match r {
                Ok(json) => uuid_str_ok(self.uuid@) && json.uuid@ == self.uuid@ && json.project@
                    == project@ && json.name@ == self.name@ && json.slug@ == self.slug@
                    && json.os_name == self.os_name && json.os_version == self.os_version
                    && json.runtime_name == self.runtime_name && json.runtime_version
                    == self.runtime_version && json.cpu == self.cpu && json.ram == self.ram
                    && json.disk == self.disk,
                Err(e) => !uuid_str_ok(self.uuid@) && e == ApiError::InvalidUuid,
            },
    {
        if !uuid_valid(self.uuid.as_str()) {
            return Err(ApiError::InvalidUuid);
        }
        let QueryTestbed {
            id: _,
            uuid,
            project_id: _,
            name,
            slug,
            os_name,
            os_version,
            runtime_name,
            runtime_version,
            cpu,
            ram,
            disk,
        } = self;
        Ok(
            JsonTestbed {
                uuid,
                project,
                name,
                slug,
                os_name,
                os_version,
                runtime_name,
                runtime_version,
                cpu,
                ram,
                disk,
            },
        )
    }
}

impl InsertTestbed {
    /// A row for a submitted testbed: fresh UUID, validated slug, and the
    /// project id the caller resolved; `slug_taken` says whether the
    /// chosen slug already exists for the project.
    pub fn from_json(testbed: JsonNewTestbed, project_id: i32, slug_taken: bool) -> (r:
        InsertTestbed)
        ensures
            r.uuid@.len() == 36,
            r.project_id == project_id,
            r.name@ == testbed.name@,
            !slug_taken ==> r.slug@ == spec_chosen_slug(testbed.name@, testbed.slug),
            slug_taken ==> exists|n: u32|
                r.slug@ == spec_chosen_slug(testbed.name@, testbed.slug) + #[trigger] dec_digits(
                    n as int,
                ),
            r.os_name == testbed.os_name,
            r.os_version == testbed.os_version,
            r.runtime_name == testbed.runtime_name,
            r.runtime_version == testbed.runtime_version,
            r.cpu == testbed.cpu,
            r.ram == testbed.ram,
            r.disk == testbed.disk,
    {
        let JsonNewTestbed {
            project: _,
            name,
            slug,
            os_name,
            os_version,
            runtime_name,
            runtime_version,
            cpu,
            ram,
            disk,
        } = testbed;
        let slug = validate_slug(name.as_str(), slug, slug_taken);
        InsertTestbed {
            uuid: uuid_new_v4_string(),
            project_id,
            name,
            slug,
            os_name,
            os_version,
            runtime_name,
            runtime_version,
            cpu,
            ram,
            disk,
        }
    }
}

} // verus!
