//! Roles and their well-known identifiers.
use vstd::prelude::*;

use crate::text::str_eq;

verus! {

/// Identifier of the seeded "owner" system role.
pub const ROLE_OWNER_ID: &'static str = "00000000-0000-0000-0000-000000000001";

/// Identifier of the seeded "admin" system role.
pub const ROLE_ADMIN_ID: &'static str = "00000000-0000-0000-0000-000000000002";

/// Identifier of the seeded "accountant" system role.
pub const ROLE_ACCOUNTANT_ID: &'static str = "00000000-0000-0000-0000-000000000003";

/// Identifier of the seeded "viewer" system role.
pub const ROLE_VIEWER_ID: &'static str = "00000000-0000-0000-0000-000000000004";

/// Maps a system role name to its well-known UUID string.
pub fn system_role_id(role_name: &str) -> (r: Option<&'static str>)
    ensures
        role_name@ == "owner"@ ==> r == Some(ROLE_OWNER_ID),
        role_name@ == "admin"@ ==> r == Some(ROLE_ADMIN_ID),
        role_name@ == "accountant"@ ==> r == Some(ROLE_ACCOUNTANT_ID),
        role_name@ == "viewer"@ ==> r == Some(ROLE_VIEWER_ID),
        role_name@ != "owner"@ && role_name@ != "admin"@ && role_name@ != "accountant"@
            && role_name@ != "viewer"@ ==> r is None,
{
    proof {
        reveal_strlit("owner");
        reveal_strlit("admin");
        reveal_strlit("accountant");
        reveal_strlit("viewer");
        assert("admin"@[0] != "owner"@[0]);
        assert("accountant"@.len() != "owner"@.len() && "accountant"@.len() != "admin"@.len());
        assert("viewer"@.len() != "owner"@.len() && "viewer"@.len() != "admin"@.len());
        assert("viewer"@.len() != "accountant"@.len());
    }
    if str_eq(role_name, "owner") {
        Some(ROLE_OWNER_ID)
    } else if str_eq(role_name, "admin") {
        Some(ROLE_ADMIN_ID)
    } else if str_eq(role_name, "accountant") {
        Some(ROLE_ACCOUNTANT_ID)
    } else if str_eq(role_name, "viewer") {
        Some(ROLE_VIEWER_ID)
    } else {
        None
    }
}

/// Roles: seeded system roles and custom roles of an organization.
pub struct RoleRepo;

} // verus!
