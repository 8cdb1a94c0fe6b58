//! The static user registry: a fixed directory of principals with role and
//! permission metadata, seeded once at startup and read-only afterwards.
//! The execution pipeline never consults it; a listing endpoint reads it.
use vstd::prelude::*;

verus! {

/// One principal of the registry.
pub struct User {
    pub id: u32,
    pub username: String,
    pub role: String,
    pub permissions: Vec<String>,
}

/// Seeds the registry: exactly the two fixed principals, `admin` (an
/// administrator who may read, write and execute) and `operator` (an
/// operator who may read and execute).
pub fn init_users() -> (users: Vec<User>)
    ensures
        users@.len() == 2,
        users@[0].id == 1,
        users@[0].username@ == "admin"@,
        users@[0].role@ == "administrator"@,
        users@[0].permissions@.len() == 3,
        users@[0].permissions@[0]@ == "read"@,
        users@[0].permissions@[1]@ == "write"@,
        users@[0].permissions@[2]@ == "execute"@,
        users@[1].id == 2,
        users@[1].username@ == "operator"@,
        users@[1].role@ == "operator"@,
        users@[1].permissions@.len() == 2,
        users@[1].permissions@[0]@ == "read"@,
        users@[1].permissions@[1]@ == "execute"@,
{
    let mut admin_permissions: Vec<String> = Vec::new();
    admin_permissions.push("read".to_owned());
    admin_permissions.push("write".to_owned());
    admin_permissions.push("execute".to_owned());
    let admin = User {
        id: 1,
        username: "admin".to_owned(),
        role: "administrator".to_owned(),
        permissions: admin_permissions,
    };
    let mut operator_permissions: Vec<String> = Vec::new();
    operator_permissions.push("read".to_owned());
    operator_permissions.push("execute".to_owned());
    let operator = User {
        id: 2,
        username: "operator".to_owned(),
        role: "operator".to_owned(),
        permissions: operator_permissions,
    };
    let mut users: Vec<User> = Vec::new();
    users.push(admin);
    users.push(operator);
    users
}

} // verus!
