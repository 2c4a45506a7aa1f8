//! The roles a user of the service can hold.

use vstd::prelude::*;

verus! {

#[derive(Debug, Clone, PartialEq, Eq, Structural)]
pub enum Role {
    User,
    Admin,
}

impl Role {
    /// The printable names of all roles, in declaration order.
    pub fn get_roles() -> (r: Vec<String>)
        ensures
            r@.len() == 2,
            r@[0]@ == "User"@,
            r@[1]@ == "Admin"@,
    {
        let mut roles: Vec<String> = Vec::new();
        roles.push("User".to_owned());
        roles.push("Admin".to_owned());
        roles
    }

    /// The role's printable name.
    pub fn name(&self) -> (r: &str)
        ensures
            self is User ==> r@ == "User"@,
            self is Admin ==> r@ == "Admin"@,
    {
        match self {
            Role::User => "User",
            Role::Admin => "Admin",
        }
    }
}

} // verus!
