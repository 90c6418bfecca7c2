use vstd::prelude::*;
use crate::model::{AuthClaims, Timestamp, User};
use crate::order::{ranked, sort_by_rank};
use crate::platform::{hash_password, password_verifies, verify_password};
use crate::role::{
    decide_role_change, may_manage, spec_may_manage, spec_role_change, spec_visibility, visibility,
    CoreError, Role, Visibility,
};
use crate::store::{unique_user_ids, without_rows_of, Store, StoreModel};

verus! {

#[derive(Clone, Debug)]
pub struct RegisterRequest {
    pub username: String,
    pub password: String,
    pub full_name: String,
}

#[derive(Clone, Debug)]
pub struct LoginRequest {
    pub username: String,
    pub password: String,
}

#[derive(Clone, Debug)]
pub struct UpdateRoleRequest {
    /// The name of the new role.
    pub role: String,
}

#[derive(Clone, Debug)]
pub struct ResetPasswordRequest {
    pub new_password: String,
}

#[derive(Clone, Debug)]
pub struct UpdateProfileRequest {
    pub full_name: String,
}

/// Some account has username `name`.
pub open spec fn username_taken(users: Seq<User>, name: Seq<char>) -> bool {
    exists|i: int| 0 <= i < users.len() && (#[trigger] users[i]).username@ == name
}

/// Some account has id `id`.
pub open spec fn user_id_used(users: Seq<User>, id: Seq<char>) -> bool {
    exists|i: int| 0 <= i < users.len() && (#[trigger] users[i]).id@ == id
}

/// The position of the account `id` (meaningful where `user_id_used` holds).
pub open spec fn user_index(users: Seq<User>, id: Seq<char>) -> int {
    choose|i: int| 0 <= i < users.len() && (#[trigger] users[i]).id@ == id
}

/// The role of account `id`, if it exists.
pub open spec fn role_of_user(users: Seq<User>, id: Seq<char>) -> Option<Role> {
    if user_id_used(users, id) {
        Some(users[user_index(users, id)].role)
    } else {
        None
    }
}

/// The role that the next registered account gets: the first one is an admin.
pub open spec fn registration_role(users: Seq<User>) -> Role {
    if users.len() == 0 {
        Role::Admin
    } else {
        Role::User
    }
}

/// Position of account `id`, if it exists.
pub(crate) fn find_user(store: &Store, id: &String) -> (r: Option<usize>)
    requires
        store@.wf(),
    ensures
        r is None ==> !user_id_used(store@.users, id@),
        r matches Some(i) ==> user_id_used(store@.users, id@) && i == user_index(store@.users, id@),
{
    let mut i: usize = 0;
    while i < store.users.len()
        invariant
            0 <= i <= store.users@.len(),
            store@.wf(),
            forall|k: int| 0 <= k < i ==> (#[trigger] store.users@[k]).id@ != id@,
        decreases store.users@.len() - i,
    {
        if store.users[i].id == *id {
            proof {
                let j = user_index(store@.users, id@);
                assert(store@.users[j].id@ == store@.users[i as int].id@);
            }
            return Some(i);
        }
        i = i + 1;
    }
    None
}

proof fn lemma_unique_after_push(m: StoreModel, u: User)
    requires
        unique_user_ids(m.users),
        !user_id_used(m.users, u.id@),
    ensures
        unique_user_ids(m.users.push(u)),
{
}

/// Whether some account has username `name`.
fn username_in_use(store: &Store, name: &String) -> (b: bool)
    ensures
        b == username_taken(store@.users, name@),
{
    let mut i: usize = 0;
    while i < store.users.len()
        invariant
            0 <= i <= store.users@.len(),
            forall|k: int| 0 <= k < i ==> (#[trigger] store.users@[k]).username@ != name@,
        decreases store.users@.len() - i,
    {
        if store.users[i].username == *name {
            return true;
        }
        i = i + 1;
    }
    false
}

/// Adds an account with id `id` whose stored hash is `password_hash`. The
/// first account of an empty store is an admin, every later one a user.
///
/// An empty username is invalid; a username in use is a conflict; an id in
/// use is a refused write. In each refusal nothing changes.
pub fn add_account(
    store: &mut Store,
    username: &String,
    full_name: &String,
    password_hash: String,
    now: Timestamp,
    id: String,
) -> (r: Result<User, CoreError>)
    requires
        old(store)@.wf(),
    ensures
        final(store)@.wf(),
        username@.len() == 0 ==> r == Err::<User, CoreError>(CoreError::Invalid) && final(store)@
            == old(store)@,
        username@.len() > 0 && username_taken(old(store)@.users, username@) ==> r == Err::<
            User,
            CoreError,
        >(CoreError::Conflict) && final(store)@ == old(store)@,
        username@.len() > 0 && !username_taken(old(store)@.users, username@) && user_id_used(
            old(store)@.users,
            id@,
        ) ==> r == Err::<User, CoreError>(CoreError::Internal) && final(store)@ == old(store)@,
        username@.len() > 0 && !username_taken(old(store)@.users, username@) && !user_id_used(
            old(store)@.users,
            id@,
        ) ==> {
            &&& r == Ok::<User, CoreError>(
                User {
                    id,
                    username: *username,
                    full_name: *full_name,
                    role: registration_role(old(store)@.users),
                    password_hash,
                    created_at: now,
                    force_change_password: false,
                },
            )
            &&& final(store)@ == (StoreModel {
                users: old(store)@.users.push(r->Ok_0),
                ..old(store)@
            })
        },
{
    if username.as_str().is_empty() {
        return Err(CoreError::Invalid);
    }
    if username_in_use(store, username) {
        return Err(CoreError::Conflict);
    }
    if find_user(store, &id).is_some() {
        return Err(CoreError::Internal);
    }
    let role = if store.users.len() == 0 {
        Role::Admin
    } else {
        Role::User
    };
    let u = User {
        id,
        username: username.clone(),
        full_name: full_name.clone(),
        role,
        password_hash,
        created_at: now,
        force_change_password: false,
    };
    let ghost m = store@;
    proof {
        lemma_unique_after_push(m, u);
    }
    store.users.push(u.copy());
    assert(store@ =~= (StoreModel { users: m.users.push(u), ..m }));
    Ok(u)
}

/// Registers an account with id `id`, its password hashed with argon2, as
/// `add_account` does.
///
/// An empty username or password is invalid; a username in use is a
/// conflict; an id in use, or a failure to hash, is a refused write. In each
/// refusal nothing changes.
pub fn register(store: &mut Store, body: &RegisterRequest, now: Timestamp, id: String) -> (r: Result<
    User,
    CoreError,
>)
    requires
        old(store)@.wf(),
    ensures
        final(store)@.wf(),
        body.username@.len() == 0 || body.password@.len() == 0 ==> r == Err::<User, CoreError>(
            CoreError::Invalid,
        ) && final(store)@ == old(store)@,
        body.username@.len() > 0 && body.password@.len() > 0 && username_taken(
            old(store)@.users,
            body.username@,
        ) ==> r == Err::<User, CoreError>(CoreError::Conflict) && final(store)@ == old(store)@,
        body.username@.len() > 0 && body.password@.len() > 0 && !username_taken(
            old(store)@.users,
            body.username@,
        ) && user_id_used(old(store)@.users, id@) ==> r == Err::<User, CoreError>(
            CoreError::Internal,
        ) && final(store)@ == old(store)@,
        r is Err ==> final(store)@ == old(store)@,
        r matches Ok(u) ==> {
            &&& body.username@.len() > 0 && body.password@.len() > 0
            &&& !username_taken(old(store)@.users, body.username@)
            &&& u.id == id
            &&& u.username == body.username
            &&& u.full_name == body.full_name
            &&& u.role == registration_role(old(store)@.users)
            &&& password_verifies(body.password@, u.password_hash@)
            &&& u.created_at == now
            &&& !u.force_change_password
            &&& final(store)@ == (StoreModel { users: old(store)@.users.push(u), ..old(store)@ })
        },
{
    if body.username.as_str().is_empty() || body.password.as_str().is_empty() {
        return Err(CoreError::Invalid);
    }
    if username_in_use(store, &body.username) {
        return Err(CoreError::Conflict);
    }
    if find_user(store, &id).is_some() {
        return Err(CoreError::Internal);
    }
    let hash = match hash_password(&body.password) {
        Some(h) => h,
        None => {
            return Err(CoreError::Internal);
        },
    };
    add_account(store, &body.username, &body.full_name, hash, now, id)
}

/// The account whose username is `name` and whose stored hash the password verifies.
pub open spec fn accepts(u: User, name: Seq<char>, password: Seq<char>) -> bool {
    u.username@ == name && password_verifies(password, u.password_hash@)
}

/// The account that the credentials identify, if any.
pub fn login(store: &Store, body: &LoginRequest) -> (r: Option<User>)
    ensures
        r is None ==> forall|i: int|
            0 <= i < store@.users.len() ==> !accepts(
                #[trigger] store@.users[i],
                body.username@,
                body.password@,
            ),
        r matches Some(u) ==> exists|i: int|
            0 <= i < store@.users.len() && #[trigger] store@.users[i] == u && accepts(
                u,
                body.username@,
                body.password@,
            ),
{
    let mut i: usize = 0;
    while i < store.users.len()
        invariant
            0 <= i <= store.users@.len(),
            forall|k: int|
                0 <= k < i ==> !accepts(#[trigger] store.users@[k], body.username@, body.password@),
        decreases store.users@.len() - i,
    {
        if store.users[i].username == body.username && verify_password(
            &body.password,
            &store.users[i].password_hash,
        ) {
            let u = store.users[i].copy();
            assert(store@.users[i as int] == u);
            return Some(u);
        }
        i = i + 1;
    }
    None
}

/// Accounts visible under `scope`.
pub open spec fn user_shown(scope: Visibility) -> spec_fn(User) -> bool {
    |u: User| scope.spec_shows(u.role)
}

/// The accounts visible to `claims`, in store order.
fn visible_users(store: &Store, claims: &AuthClaims) -> (r: Result<Vec<User>, CoreError>)
    ensures
        spec_visibility(claims.role) is Err ==> r == Err::<Vec<User>, CoreError>(
            CoreError::Forbidden,
        ),
        spec_visibility(claims.role) matches Ok(scope) ==> r is Ok && r->Ok_0@ == store@.users.filter(
            user_shown(scope),
        ),
{
    let scope = match visibility(claims.role) {
        Ok(s) => s,
        Err(e) => {
            return Err(e);
        },
    };
    let mut out: Vec<User> = Vec::new();
    let mut i: usize = 0;
    while i < store.users.len()
        invariant
            0 <= i <= store.users@.len(),
            spec_visibility(claims.role) == Ok::<Visibility, CoreError>(scope),
            out@ == store.users@.subrange(0, i as int).filter(user_shown(scope)),
        decreases store.users@.len() - i,
    {
        proof {
            let s = store.users@;
            assert(s.subrange(0, i + 1) =~= s.subrange(0, i as int).push(s[i as int]));
            s.subrange(0, i as int).lemma_filter_push(s[i as int], user_shown(scope));
        }
        if scope.shows(store.users[i].role) {
            out.push(store.users[i].copy());
        }
        i = i + 1;
    }
    proof {
        assert(store.users@.subrange(0, store.users@.len() as int) =~= store.users@);
    }
    Ok(out)
}

/// Lists accounts, newest first: every one for a superadmin, the `user`
/// accounts for an admin; a plain user is refused.
pub fn get_users(store: &Store, claims: &AuthClaims) -> (r: Result<Vec<User>, CoreError>)
    ensures
        spec_visibility(claims.role) is Err ==> r == Err::<Vec<User>, CoreError>(
            CoreError::Forbidden,
        ),
        spec_visibility(claims.role) matches Ok(scope) ==> r is Ok && ranked(r->Ok_0@)
            && r->Ok_0@.to_multiset() == store@.users.filter(user_shown(scope)).to_multiset(),
{
    match visible_users(store, claims) {
        Ok(list) => Ok(sort_by_rank(&list)),
        Err(e) => Err(e),
    }
}

/// Deletes account `user_id`, with every row it owns, where the hierarchy lets
/// the caller act on it. A missing account is not found; a protected one is
/// forbidden. Either way nothing changes.
pub fn delete_user(store: &mut Store, claims: &AuthClaims, user_id: &String) -> (r: Result<
    (),
    CoreError,
>)
    requires
        old(store)@.wf(),
    ensures
        final(store)@.wf(),
        !user_id_used(old(store)@.users, user_id@) ==> r == Err::<(), CoreError>(
            CoreError::NotFound,
        ) && final(store)@ == old(store)@,
        user_id_used(old(store)@.users, user_id@) && !spec_may_manage(
            claims.role,
            old(store)@.users[user_index(old(store)@.users, user_id@)].role,
        ) ==> r == Err::<(), CoreError>(CoreError::Forbidden) && final(store)@ == old(store)@,
        user_id_used(old(store)@.users, user_id@) && spec_may_manage(
            claims.role,
            old(store)@.users[user_index(old(store)@.users, user_id@)].role,
        ) ==> r == Ok::<(), CoreError>(()) && final(store)@ == without_rows_of(
            StoreModel {
                users: old(store)@.users.remove(user_index(old(store)@.users, user_id@)),
                ..old(store)@
            },
            user_id@,
        ),
{
    let i = match find_user(store, user_id) {
        Some(i) => i,
        None => {
            return Err(CoreError::NotFound);
        },
    };
    if !may_manage(claims.role, store.users[i].role) {
        return Err(CoreError::Forbidden);
    }
    let ghost m = store@;
    store.users.remove(i);
    proof {
        assert(store@ =~= (StoreModel { users: m.users.remove(i as int), ..m }));
        assert forall|a: int, b: int|
            0 <= a < store@.users.len() && 0 <= b < store@.users.len() && #[trigger] store@.users[a].id@
                == #[trigger] store@.users[b].id@ implies a == b by {
            let aa = if a < i { a } else { a + 1 };
            let bb = if b < i { b } else { b + 1 };
            assert(store@.users[a] == m.users[aa]);
            assert(store@.users[b] == m.users[bb]);
            assert(m.users[aa].id@ == m.users[bb].id@);
        }
    }
    store.drop_rows_of(user_id);
    Ok(())
}

/// Replaces the account at `i` by `u`, which keeps its id.
fn replace_user(store: &mut Store, i: usize, u: User)
    requires
        old(store)@.wf(),
        i < old(store)@.users.len(),
        u.id == old(store)@.users[i as int].id,
    ensures
        final(store)@.wf(),
        final(store)@ == (StoreModel { users: old(store)@.users.update(i as int, u), ..old(store)@ }),
{
    let ghost m = store@;
    store.users.set(i, u);
    proof {
        assert(store@ =~= (StoreModel { users: m.users.update(i as int, u), ..m }));
        assert forall|a: int, b: int|
            0 <= a < store@.users.len() && 0 <= b < store@.users.len() && #[trigger] store@.users[a].id@
                == #[trigger] store@.users[b].id@ implies a == b by {
            assert(store@.users[a].id == m.users[a].id);
            assert(store@.users[b].id == m.users[b].id);
        }
    }
}

/// Sets the role of account `user_id` as `spec_role_change` decides; a refusal
/// changes nothing.
pub fn update_role(
    store: &mut Store,
    claims: &AuthClaims,
    user_id: &String,
    body: &UpdateRoleRequest,
) -> (r: Result<(), CoreError>)
    requires
        old(store)@.wf(),
    ensures
        final(store)@.wf(),
        spec_role_change(
            claims.sub@,
            claims.role,
            user_id@,
            body.role@,
            role_of_user(old(store)@.users, user_id@),
        ) matches Err(e) ==> r == Err::<(), CoreError>(e) && final(store)@ == old(store)@,
        spec_role_change(
            claims.sub@,
            claims.role,
            user_id@,
            body.role@,
            role_of_user(old(store)@.users, user_id@),
        ) matches Ok(nr) ==> {
            let i = user_index(old(store)@.users, user_id@);
            &&& r == Ok::<(), CoreError>(())
            &&& final(store)@ == (StoreModel {
                users: old(store)@.users.update(i, User { role: nr, ..old(store)@.users[i] }),
                ..old(store)@
            })
        },
{
    let idx = find_user(store, user_id);
    let current = match idx {
        Some(i) => Some(store.users[i].role),
        None => None,
    };
    let nr = match decide_role_change(&claims.sub, claims.role, user_id, &body.role, current) {
        Ok(nr) => nr,
        Err(e) => {
            return Err(e);
        },
    };
    let i = idx.unwrap();
    let mut u = store.users[i].copy();
    u.role = nr;
    replace_user(store, i, u);
    Ok(())
}

/// Stores `password_hash` for account `user_id` and asks for a change at next
/// login, where the hierarchy lets the caller act on it. A missing account is
/// not found and a protected one forbidden; either way nothing changes.
pub fn set_password(store: &mut Store, claims: &AuthClaims, user_id: &String, password_hash: String) -> (r:
    Result<(), CoreError>)
    requires
        old(store)@.wf(),
    ensures
        final(store)@.wf(),
        !user_id_used(old(store)@.users, user_id@) ==> r == Err::<(), CoreError>(
            CoreError::NotFound,
        ) && final(store)@ == old(store)@,
        user_id_used(old(store)@.users, user_id@) && !spec_may_manage(
            claims.role,
            old(store)@.users[user_index(old(store)@.users, user_id@)].role,
        ) ==> r == Err::<(), CoreError>(CoreError::Forbidden) && final(store)@ == old(store)@,
        user_id_used(old(store)@.users, user_id@) && spec_may_manage(
            claims.role,
            old(store)@.users[user_index(old(store)@.users, user_id@)].role,
        ) ==> {
            let i = user_index(old(store)@.users, user_id@);
            &&& r == Ok::<(), CoreError>(())
            &&& final(store)@ == (StoreModel {
                users: old(store)@.users.update(
                    i,
                    User { password_hash, force_change_password: true, ..old(store)@.users[i] },
                ),
                ..old(store)@
            })
        },
{
    let i = match find_user(store, user_id) {
        Some(i) => i,
        None => {
            return Err(CoreError::NotFound);
        },
    };
    if !may_manage(claims.role, store.users[i].role) {
        return Err(CoreError::Forbidden);
    }
    let mut u = store.users[i].copy();
    u.password_hash = password_hash;
    u.force_change_password = true;
    replace_user(store, i, u);
    Ok(())
}

/// Gives account `user_id` a new argon2 hash of `body.new_password` and asks
/// for a change at next login, where the hierarchy lets the caller act on it.
/// A missing account is not found, a protected one forbidden, a failure to
/// hash a refused write; each refusal changes nothing.
pub fn reset_password(
    store: &mut Store,
    claims: &AuthClaims,
    user_id: &String,
    body: &ResetPasswordRequest,
) -> (r: Result<(), CoreError>)
    requires
        old(store)@.wf(),
    ensures
        final(store)@.wf(),
        !user_id_used(old(store)@.users, user_id@) ==> r == Err::<(), CoreError>(
            CoreError::NotFound,
        ),
        user_id_used(old(store)@.users, user_id@) && !spec_may_manage(
            claims.role,
            old(store)@.users[user_index(old(store)@.users, user_id@)].role,
        ) ==> r == Err::<(), CoreError>(CoreError::Forbidden),
        r is Err ==> final(store)@ == old(store)@,
        r is Ok ==> {
            let i = user_index(old(store)@.users, user_id@);
            let u = final(store)@.users[i];
            &&& user_id_used(old(store)@.users, user_id@)
            &&& spec_may_manage(claims.role, old(store)@.users[i].role)
            &&& final(store)@ == (StoreModel {
                users: old(store)@.users.update(i, u),
                ..old(store)@
            })
            &&& u == (User {
                password_hash: u.password_hash,
                force_change_password: true,
                ..old(store)@.users[i]
            })
            &&& password_verifies(body.new_password@, u.password_hash@)
        },
{
    let i = match find_user(store, user_id) {
        Some(i) => i,
        None => {
            return Err(CoreError::NotFound);
        },
    };
    if !may_manage(claims.role, store.users[i].role) {
        return Err(CoreError::Forbidden);
    }
    let hash = match hash_password(&body.new_password) {
        Some(h) => h,
        None => {
            return Err(CoreError::Internal);
        },
    };
    set_password(store, claims, user_id, hash)
}

/// Sets the caller's own full name. A caller without an account is not found.
pub fn update_profile(store: &mut Store, caller: &String, body: &UpdateProfileRequest) -> (r: Result<
    (),
    CoreError,
>)
    requires
        old(store)@.wf(),
    ensures
        final(store)@.wf(),
        !user_id_used(old(store)@.users, caller@) ==> r == Err::<(), CoreError>(
            CoreError::NotFound,
        ) && final(store)@ == old(store)@,
        user_id_used(old(store)@.users, caller@) ==> {
            let i = user_index(old(store)@.users, caller@);
            &&& r == Ok::<(), CoreError>(())
            &&& final(store)@ == (StoreModel {
                users: old(store)@.users.update(
                    i,
                    User { full_name: body.full_name, ..old(store)@.users[i] },
                ),
                ..old(store)@
            })
        },
{
    let i = match find_user(store, caller) {
        Some(i) => i,
        None => {
            return Err(CoreError::NotFound);
        },
    };
    let mut u = store.users[i].copy();
    u.full_name = body.full_name.clone();
    replace_user(store, i, u);
    Ok(())
}

} // verus!
