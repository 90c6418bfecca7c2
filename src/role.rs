use vstd::prelude::*;

verus! {

/// Errors reported by the core operations.
#[derive(Clone, Copy, Debug, PartialEq, Eq, Structural)]
pub enum CoreError {
    /// The row is absent, or it belongs to another user (indistinguishable on purpose).
    NotFound,
    /// The role hierarchy does not allow the operation.
    Forbidden,
    /// A unique value (a username) is already taken.
    Conflict,
    /// A malformed value, or a request that can never be valid.
    Invalid,
    /// The store refused a required write.
    Internal,
}

/// Permission level of an account, ordered `User < Admin < Superadmin`.
#[derive(Clone, Copy, Debug, PartialEq, Eq, Structural)]
pub enum Role {
    User,
    Admin,
    Superadmin,
}

/// The textual name of a role.
pub open spec fn role_name(r: Role) -> Seq<char> {
    match r {
        Role::User => "user"@,
        Role::Admin => "admin"@,
        Role::Superadmin => "superadmin"@,
    }
}

/// The role that a name denotes, if any.
pub open spec fn role_of_name(s: Seq<char>) -> Option<Role> {
    if s == "user"@ {
        Some(Role::User)
    } else if s == "admin"@ {
        Some(Role::Admin)
    } else if s == "superadmin"@ {
        Some(Role::Superadmin)
    } else {
        None
    }
}

impl Role {
    /// Admins and superadmins.
    pub open spec fn is_elevated(self) -> bool {
        self != Role::User
    }

    /// Reads a role from its name; any other text is no role.
    pub fn parse(s: &str) -> (r: Option<Role>)
        ensures
            r == role_of_name(s@),
    {
        let t = s.to_string();
        if t == String::from_str("user") {
            Some(Role::User)
        } else if t == String::from_str("admin") {
            Some(Role::Admin)
        } else if t == String::from_str("superadmin") {
            Some(Role::Superadmin)
        } else {
            None
        }
    }

    /// The name of the role.
    pub fn as_str(&self) -> (r: String)
        ensures
            r@ == role_name(*self),
    {
        match self {
            Role::User => String::from_str("user"),
            Role::Admin => String::from_str("admin"),
            Role::Superadmin => String::from_str("superadmin"),
        }
    }
}

/// Which accounts an elevated caller may see in listings and reports.
#[derive(Clone, Copy, Debug, PartialEq, Eq, Structural)]
pub enum Visibility {
    /// Every account.
    Everyone,
    /// Only accounts with the `user` role.
    UsersOnly,
}

impl Visibility {
    /// Whether an account with role `r` is visible under this scope.
    pub open spec fn spec_shows(self, r: Role) -> bool {
        match self {
            Visibility::Everyone => true,
            Visibility::UsersOnly => r == Role::User,
        }
    }

    pub fn shows(&self, r: Role) -> (b: bool)
        ensures
            b == self.spec_shows(r),
    {
        match self {
            Visibility::Everyone => true,
            Visibility::UsersOnly => r == Role::User,
        }
    }
}

/// The visibility scope of a caller for user listings and admin reports.
pub open spec fn spec_visibility(caller: Role) -> Result<Visibility, CoreError> {
    match caller {
        Role::Superadmin => Ok(Visibility::Everyone),
        Role::Admin => Ok(Visibility::UsersOnly),
        Role::User => Err(CoreError::Forbidden),
    }
}

/// Superadmins see every account, admins only `user` accounts, anyone else is refused.
pub fn visibility(caller: Role) -> (r: Result<Visibility, CoreError>)
    ensures
        r == spec_visibility(caller),
{
    match caller {
        Role::Superadmin => Ok(Visibility::Everyone),
        Role::Admin => Ok(Visibility::UsersOnly),
        Role::User => Err(CoreError::Forbidden),
    }
}

/// Whether `caller` may delete an account whose role is `target`, change its
/// role or reset its password: a superadmin is never the target, an admin
/// only of a superadmin, a plain user of any elevated caller.
pub open spec fn spec_may_manage(caller: Role, target: Role) -> bool {
    match target {
        Role::Superadmin => false,
        Role::Admin => caller == Role::Superadmin,
        Role::User => caller.is_elevated(),
    }
}

/// Whether `caller` may act on an account whose role is `target`.
pub fn may_manage(caller: Role, target: Role) -> (b: bool)
    ensures
        b == spec_may_manage(caller, target),
{
    match target {
        Role::Superadmin => false,
        Role::Admin => caller == Role::Superadmin,
        Role::User => caller != Role::User,
    }
}

/// The role that a role change sets, or why it is refused, checked in this
/// order: changing one's own role is invalid; a plain user may change no
/// role; the new role must be a role name; the target must exist; the
/// hierarchy must allow acting on the target, and an admin may only assign
/// `user`.
pub open spec fn spec_role_change(
    caller_id: Seq<char>,
    caller: Role,
    target_id: Seq<char>,
    new_role: Seq<char>,
    target: Option<Role>,
) -> Result<Role, CoreError> {
    if caller_id == target_id {
        Err(CoreError::Invalid)
    } else if caller == Role::User {
        Err(CoreError::Forbidden)
    } else {
        match role_of_name(new_role) {
            None => Err(CoreError::Invalid),
            Some(r) => match target {
                None => Err(CoreError::NotFound),
                Some(t) => if !spec_may_manage(caller, t) || (caller == Role::Admin && r != Role::User) {
                    Err(CoreError::Forbidden)
                } else {
                    Ok(r)
                },
            },
        }
    }
}

/// Decides a role change requested by `caller_id` (with role `caller`) on the
/// account `target_id`, whose current role is `target` if it exists.
pub fn decide_role_change(
    caller_id: &String,
    caller: Role,
    target_id: &String,
    new_role: &String,
    target: Option<Role>,
) -> (r: Result<Role, CoreError>)
    ensures
        r == spec_role_change(caller_id@, caller, target_id@, new_role@, target),
{
    if *caller_id == *target_id {
        return Err(CoreError::Invalid);
    }
    if caller == Role::User {
        return Err(CoreError::Forbidden);
    }
    let r = match Role::parse(new_role.as_str()) {
        Some(r) => r,
        None => {
            return Err(CoreError::Invalid);
        },
    };
    match target {
        None => Err(CoreError::NotFound),
        Some(t) => if !may_manage(caller, t) || (caller == Role::Admin && r != Role::User) {
            Err(CoreError::Forbidden)
        } else {
            Ok(r)
        },
    }
}

} // verus!
