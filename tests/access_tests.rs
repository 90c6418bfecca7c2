use time_tracker::model::AuthClaims;
use time_tracker::platform::fresh;
use time_tracker::role::{decide_role_change, may_manage, visibility, CoreError, Role, Visibility};
use time_tracker::store::Store;
use time_tracker::tasks::{create_task, CreateTaskRequest};
use time_tracker::timer::start_timer;
use time_tracker::users::{
    add_account, delete_user, set_password, get_users, login, register, reset_password, update_profile, update_role,
    LoginRequest, RegisterRequest, ResetPasswordRequest, UpdateProfileRequest, UpdateRoleRequest,
};

fn s(x: &str) -> String {
    x.to_string()
}

fn claims(id: &str, role: Role) -> AuthClaims {
    AuthClaims { sub: s(id), role, exp: 0 }
}

fn reg(store: &mut Store, name: &str, id: &str) {
    let body = RegisterRequest { username: s(name), password: s("pw-") + name, full_name: s(name) };
    register(store, &body, 0, s(id)).unwrap();
}

fn set_role(store: &mut Store, id: &str, role: Role) {
    for u in store.users.iter_mut() {
        if u.id == id {
            u.role = role;
        }
    }
}

#[test]
fn admin_cannot_change_own_role() {
    let mut store = Store::new();
    reg(&mut store, "root", "a1");
    assert_eq!(store.users[0].role, Role::Admin);
    let r = update_role(&mut store, &claims("a1", Role::Admin), &s("a1"), &UpdateRoleRequest { role: s("user") });
    assert!(matches!(r, Err(CoreError::Invalid)));
    assert_eq!(store.users[0].role, Role::Admin);
    let missing = decide_role_change(&s("x"), Role::Admin, &s("x"), &s("user"), None);
    assert!(matches!(missing, Err(CoreError::Invalid)));
}

#[test]
fn first_account_is_admin_then_users() {
    let mut store = Store::new();
    reg(&mut store, "root", "a1");
    reg(&mut store, "bob", "u1");
    assert_eq!(store.users[0].role, Role::Admin);
    assert_eq!(store.users[1].role, Role::User);
    let dup = RegisterRequest { username: s("bob"), password: s("x"), full_name: s("B") };
    assert!(matches!(register(&mut store, &dup, 0, s("u9")), Err(CoreError::Conflict)));
    let same_id = RegisterRequest { username: s("carl"), password: s("x"), full_name: s("C") };
    assert!(matches!(register(&mut store, &same_id, 0, s("u1")), Err(CoreError::Internal)));
    assert_eq!(store.users.len(), 2);
}

#[test]
fn login_checks_the_argon2_hash() {
    let mut store = Store::new();
    reg(&mut store, "bob", "u1");
    assert_ne!(store.users[0].password_hash, "pw-bob");
    assert!(store.users[0].password_hash.starts_with("$argon2"));
    let ok = login(&store, &LoginRequest { username: s("bob"), password: s("pw-bob") });
    assert_eq!(ok.unwrap().id, "u1");
    assert!(login(&store, &LoginRequest { username: s("bob"), password: s("wrong") }).is_none());
    assert!(login(&store, &LoginRequest { username: s("eve"), password: s("pw-bob") }).is_none());
}

#[test]
fn reset_password_forces_a_change() {
    let mut store = Store::new();
    reg(&mut store, "root", "a1");
    reg(&mut store, "bob", "u1");
    reset_password(&mut store, &claims("a1", Role::Admin), &s("u1"), &ResetPasswordRequest { new_password: s("fresh") }).unwrap();
    assert!(store.users[1].force_change_password);
    assert!(login(&store, &LoginRequest { username: s("bob"), password: s("fresh") }).is_some());
    assert!(login(&store, &LoginRequest { username: s("bob"), password: s("pw-bob") }).is_none());
    let r = reset_password(&mut store, &claims("u1", Role::User), &s("a1"), &ResetPasswordRequest { new_password: s("x") });
    assert!(matches!(r, Err(CoreError::Forbidden)));
    let r = reset_password(&mut store, &claims("a1", Role::Admin), &s("zz"), &ResetPasswordRequest { new_password: s("x") });
    assert!(matches!(r, Err(CoreError::NotFound)));
}

#[test]
fn admin_cannot_touch_admins_or_superadmins() {
    let mut store = Store::new();
    reg(&mut store, "root", "a1");
    reg(&mut store, "other", "a2");
    reg(&mut store, "boss", "s1");
    reg(&mut store, "bob", "u1");
    set_role(&mut store, "a2", Role::Admin);
    set_role(&mut store, "s1", Role::Superadmin);
    let admin = claims("a1", Role::Admin);
    assert!(matches!(delete_user(&mut store, &admin, &s("a2")), Err(CoreError::Forbidden)));
    assert!(matches!(delete_user(&mut store, &admin, &s("s1")), Err(CoreError::Forbidden)));
    let demote = UpdateRoleRequest { role: s("user") };
    assert!(matches!(update_role(&mut store, &admin, &s("a2"), &demote), Err(CoreError::Forbidden)));
    assert!(matches!(update_role(&mut store, &admin, &s("s1"), &demote), Err(CoreError::Forbidden)));
    let promote = UpdateRoleRequest { role: s("admin") };
    assert!(matches!(update_role(&mut store, &admin, &s("u1"), &promote), Err(CoreError::Forbidden)));
    assert!(matches!(update_role(&mut store, &admin, &s("a2"), &promote), Err(CoreError::Forbidden)));
    assert!(matches!(update_role(&mut store, &admin, &s("zz"), &demote), Err(CoreError::NotFound)));
    let bad = UpdateRoleRequest { role: s("root") };
    assert!(matches!(update_role(&mut store, &claims("s1", Role::Superadmin), &s("u1"), &bad), Err(CoreError::Invalid)));
    assert_eq!(store.users.len(), 4);
}

#[test]
fn superadmin_acts_on_any_non_superadmin() {
    let mut store = Store::new();
    reg(&mut store, "root", "a1");
    reg(&mut store, "boss", "s1");
    reg(&mut store, "boss2", "s2");
    reg(&mut store, "bob", "u1");
    set_role(&mut store, "s1", Role::Superadmin);
    set_role(&mut store, "s2", Role::Superadmin);
    let sup = claims("s1", Role::Superadmin);
    update_role(&mut store, &sup, &s("u1"), &UpdateRoleRequest { role: s("admin") }).unwrap();
    assert_eq!(store.users[3].role, Role::Admin);
    delete_user(&mut store, &sup, &s("a1")).unwrap();
    assert_eq!(store.users.len(), 3);
    assert!(matches!(delete_user(&mut store, &sup, &s("s2")), Err(CoreError::Forbidden)));
    assert!(matches!(delete_user(&mut store, &sup, &s("zz")), Err(CoreError::NotFound)));
    let plain = claims("u9", Role::User);
    assert!(matches!(delete_user(&mut store, &plain, &s("u1")), Err(CoreError::Forbidden)));
}

#[test]
fn user_listing_depends_on_role() {
    let mut store = Store::new();
    reg(&mut store, "root", "a1");
    reg(&mut store, "bob", "u1");
    reg(&mut store, "boss", "s1");
    set_role(&mut store, "s1", Role::Superadmin);
    assert_eq!(get_users(&store, &claims("s1", Role::Superadmin)).unwrap().len(), 3);
    let seen = get_users(&store, &claims("a1", Role::Admin)).unwrap();
    assert_eq!(seen.len(), 1);
    assert_eq!(seen[0].id, "u1");
    assert!(matches!(get_users(&store, &claims("u1", Role::User)), Err(CoreError::Forbidden)));
    assert_eq!(visibility(Role::Admin), Ok(Visibility::UsersOnly));
    assert!(Visibility::UsersOnly.shows(Role::User));
    assert!(!Visibility::UsersOnly.shows(Role::Admin));
}

#[test]
fn hierarchy_rules() {
    assert!(!may_manage(Role::Superadmin, Role::Superadmin));
    assert!(may_manage(Role::Superadmin, Role::Admin));
    assert!(!may_manage(Role::Admin, Role::Admin));
    assert!(may_manage(Role::Admin, Role::User));
    assert!(!may_manage(Role::User, Role::User));
}

#[test]
fn role_names_round_trip() {
    for r in [Role::User, Role::Admin, Role::Superadmin] {
        assert_eq!(Role::parse(&r.as_str()), Some(r));
    }
    assert_eq!(Role::parse("Admin"), None);
    assert_eq!(Role::User.as_str(), "user");
}

#[test]
fn profile_update_sets_full_name() {
    let mut store = Store::new();
    reg(&mut store, "bob", "u1");
    update_profile(&mut store, &s("u1"), &UpdateProfileRequest { full_name: s("Bob B") }).unwrap();
    assert_eq!(store.users[0].full_name, "Bob B");
    assert!(matches!(update_profile(&mut store, &s("zz"), &UpdateProfileRequest { full_name: s("x") }), Err(CoreError::NotFound)));
}

#[test]
fn fresh_ids_differ() {
    let a = fresh();
    let b = fresh();
    assert_ne!(a.id, b.id);
    assert_ne!(a.id, a.spare_id);
    assert_eq!(a.id.len(), 36);
    assert!(a.now > 1_600_000_000);
}

#[test]
fn deleting_an_account_removes_its_rows() {
    let mut store = Store::new();
    reg(&mut store, "root", "a1");
    reg(&mut store, "bob", "u1");
    let req = CreateTaskRequest {
        title: s("t"),
        description: None,
        category: None,
        priority: None,
        project_id: None,
        start_date: None,
        due_date: None,
    };
    create_task(&mut store, &s("u1"), &req, 0, s("T1")).unwrap();
    create_task(&mut store, &s("a1"), &req, 0, s("T2")).unwrap();
    start_timer(&mut store, &s("u1"), s("T1"), s(""), 0, s("tm1"), s("e0")).unwrap();
    delete_user(&mut store, &claims("a1", Role::Admin), &s("u1")).unwrap();
    assert_eq!(store.users.len(), 1);
    assert_eq!(store.tasks.len(), 1);
    assert_eq!(store.tasks[0].id, "T2");
    assert!(store.timers.is_empty());
}

#[test]
fn registration_needs_name_and_password() {
    let mut store = Store::new();
    let no_name = RegisterRequest { username: s(""), password: s("pw"), full_name: s("X") };
    assert!(matches!(register(&mut store, &no_name, 0, s("u1")), Err(CoreError::Invalid)));
    let no_pw = RegisterRequest { username: s("x"), password: s(""), full_name: s("X") };
    assert!(matches!(register(&mut store, &no_pw, 0, s("u1")), Err(CoreError::Invalid)));
    assert!(store.users.is_empty());
}

#[test]
fn add_account_stores_the_given_hash() {
    let mut store = Store::new();
    let u = add_account(&mut store, &s("root"), &s("Root"), s("h1"), 3, s("a1")).unwrap();
    assert_eq!(u.password_hash, "h1");
    assert_eq!(u.role, Role::Admin);
    let v = add_account(&mut store, &s("bob"), &s("Bob"), s("h2"), 4, s("u1")).unwrap();
    assert_eq!(v.role, Role::User);
    assert!(matches!(add_account(&mut store, &s("bob"), &s("B"), s("h"), 0, s("u2")), Err(CoreError::Conflict)));
    assert!(matches!(add_account(&mut store, &s(""), &s("B"), s("h"), 0, s("u2")), Err(CoreError::Invalid)));
    set_password(&mut store, &claims("a1", Role::Admin), &s("u1"), s("h3")).unwrap();
    assert_eq!(store.users[1].password_hash, "h3");
    assert!(store.users[1].force_change_password);
    let r = set_password(&mut store, &claims("a1", Role::Admin), &s("a1"), s("h4"));
    assert!(matches!(r, Err(CoreError::Forbidden)));
    assert_eq!(store.users[0].password_hash, "h1");
}
