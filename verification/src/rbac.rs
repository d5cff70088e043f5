//! Organization-level role-based access model: the roles and permissions
//! and their wire names, as handed to the policy engine.

use vstd::prelude::*;

use crate::text::str_to_chars;
use crate::trusted::chars_to_string;

verus! {

pub const MEMBER_ROLE: &'static str = "member";

pub const LEADER_ROLE: &'static str = "leader";

/// An organization, carried by its identifier.
#[derive(Debug, Clone)]
pub struct Organization {
    pub id: String,
}

/// Role of a user inside an organization.
#[derive(Debug, Clone, Copy, PartialEq, Eq, Structural)]
pub enum Role {
    Member,
    Leader,
}

/// Permission checked against an organization.
#[derive(Debug, Clone, Copy, PartialEq, Eq, Structural)]
pub enum Permission {
    View,
    Create,
    Edit,
    Delete,
    Manage,
    ViewRole,
    CreateRole,
    EditRole,
    DeleteRole,
}

impl Role {
    /// Wire name of the role.
    pub fn as_str(&self) -> (r: &'static str)
        ensures
            r@ == (match *self {
                Role::Member => MEMBER_ROLE@,
                Role::Leader => LEADER_ROLE@,
            }),
    {
        match self {
            Role::Member => MEMBER_ROLE,
            Role::Leader => LEADER_ROLE,
        }
    }

    /// The role's value for the policy engine: its wire name.
    pub fn to_polar(&self) -> (r: String)
        ensures
            r@ == (match *self {
                Role::Member => MEMBER_ROLE@,
                Role::Leader => LEADER_ROLE@,
            }),
    {
        let chars = str_to_chars(self.as_str());
        chars_to_string(&chars)
    }

    /// The role named by its wire name; any other string is returned as
    /// the error, unchanged.
    pub fn from_str(s: &str) -> (r: Result<Role, String>)
        ensures
            match r {
                Ok(role) => (s@ == MEMBER_ROLE@ && role == Role::Member) || (s@ == LEADER_ROLE@
                    && role == Role::Leader),
                Err(e) => s@ != MEMBER_ROLE@ && s@ != LEADER_ROLE@ && e@ == s@,
            },
    {
        let owned = s.to_owned();
        if owned == MEMBER_ROLE.to_owned() {
            Ok(Role::Member)
        } else if owned == LEADER_ROLE.to_owned() {
            Ok(Role::Leader)
        } else {
            Err(owned)
        }
    }
}

impl Permission {
    /// Wire name of the permission.
    pub fn as_str(&self) -> (r: &'static str)
        ensures
            r@ == spec_permission_str(*self),
    {
        match self {
            Permission::View => "view",
            Permission::Create => "create",
            Permission::Edit => "edit",
            Permission::Delete => "delete",
            Permission::Manage => "manage",
            Permission::ViewRole => "view_role",
            Permission::CreateRole => "create_role",
            Permission::EditRole => "edit_role",
            Permission::DeleteRole => "delete_role",
        }
    }

    /// The permission's value for the policy engine: its wire name.
    pub fn to_polar(&self) -> (r: String)
        ensures
            r@ == spec_permission_str(*self),
    {
        let chars = str_to_chars(self.as_str());
        chars_to_string(&chars)
    }
}

/// Wire name of each permission.
pub open spec fn spec_permission_str(p: Permission) -> Seq<char> {
    match p {
        Permission::View => "view"@,
        Permission::Create => "create"@,
        Permission::Edit => "edit"@,
        Permission::Delete => "delete"@,
        Permission::Manage => "manage"@,
        Permission::ViewRole => "view_role"@,
        Permission::CreateRole => "create_role"@,
        Permission::EditRole => "edit_role"@,
        Permission::DeleteRole => "delete_role"@,
    }
}

} // verus!
