use delta::accounts::{
    assign_staff, inspect_all, inspect_user, joined, list_staff, list_users, map_user_inspect, select_users,
    set_user_cosmetics, set_user_flags, staff_fetch_count, staff_permissions_catalog, staff_query_ids,
    user_is_staff, user_matches_query, users_fetch_count, DataAssignStaff, DataSetUserCosmetics, DataSetUserFlags,
    StaffListQuery, UsersListQuery,
};
use delta::error::ApiError;
use delta::users::{PlatformAdminRole, User, UserCosmetics, UserProfile};

fn user(id: &str, name: &str) -> User {
    User {
        id: id.to_owned(),
        username: name.to_owned(),
        discriminator: "0001".to_owned(),
        display_name: None,
        privileged: false,
        platform_admin_role: None,
        platform_permissions: None,
        badges: None,
        flags: None,
        profile: None,
        bot: false,
    }
}

fn owner() -> User {
    let mut u = user("owner", "owner");
    u.platform_admin_role = Some(PlatformAdminRole::PlatformOwner);
    u
}

#[test]
fn searches_match_id_username_or_display_name() {
    let mut u = user("01ABC", "Alice");
    u.display_name = Some("The Queen".to_owned());
    assert!(user_matches_query(&u, None));
    assert!(user_matches_query(&u, Some("   ")));
    assert!(user_matches_query(&u, Some(" alice ")));
    assert!(user_matches_query(&u, Some("abc")));
    assert!(user_matches_query(&u, Some("QUEEN")));
    assert!(!user_matches_query(&u, Some("bob")));
}

#[test]
fn staff_are_recognised_by_privilege_role_or_badge() {
    let mut u = user("u", "u");
    assert!(!user_is_staff(&u));
    u.badges = Some(1 << 12);
    assert!(user_is_staff(&u));
    u.badges = Some(1 << 11);
    assert!(user_is_staff(&u));
    u.badges = Some(1 << 10);
    assert!(!user_is_staff(&u));
    u.platform_admin_role = Some(PlatformAdminRole::Analyst);
    assert!(user_is_staff(&u));
}

#[test]
fn inspection_reads_flags_and_grants() {
    let mut u = user("u", "name");
    u.flags = Some(-1);
    u.platform_permissions = Some(vec!["reports.read".to_owned()]);
    let v = map_user_inspect(u, 7);
    assert_eq!(v.flags, u32::MAX);
    assert_eq!(v.badges, 7);
    assert_eq!(v.platform_permissions, vec!["reports.read".to_owned()]);
    let v = map_user_inspect(user("w", "w"), 0);
    assert_eq!(v.flags, 0);
    assert!(v.platform_permissions.is_empty());
    assert!(matches!(inspect_user(&user("x", "x"), user("w", "w"), 0), Err(ApiError::NotPrivileged)));
    assert_eq!(inspect_user(&owner(), user("w", "w"), 3).unwrap().badges, 3);
    let all = inspect_all(vec![user("a", "a"), user("b", "b")], vec![1, 2]);
    assert_eq!(all[1].id, "b");
    assert_eq!(all[1].badges, 2);
}

#[test]
fn user_searches_page_the_matches() {
    let recent = vec![user("1", "ann"), user("2", "bob"), user("3", "anna"), user("4", "annabel")];
    let q = UsersListQuery { q: Some("ann".to_owned()), limit: Some(2) };
    let found = list_users(&owner(), &q, recent).unwrap();
    assert_eq!(found.iter().map(|u| u.id.as_str()).collect::<Vec<_>>(), vec!["1", "3"]);
    assert_eq!(users_fetch_count(&q), 6);
    assert_eq!(users_fetch_count(&UsersListQuery { q: None, limit: None }), 450);
    assert_eq!(users_fetch_count(&UsersListQuery { q: None, limit: Some(400) }), 500);
    assert!(matches!(list_users(&user("x", "x"), &q, vec![]), Err(ApiError::NotPrivileged)));
}

#[test]
fn staff_searches_keep_only_staff() {
    let mut s1 = user("1", "mod");
    s1.privileged = true;
    let plain = user("2", "mod2");
    let mut s3 = user("3", "other");
    s3.badges = Some(4096);
    let q = StaffListQuery { ids: Some(" 1, 3 ,,".to_owned()), q: None, limit: None };
    assert_eq!(staff_query_ids(&q), vec!["1".to_owned(), "3".to_owned()]);
    assert!(staff_query_ids(&StaffListQuery { ids: None, q: None, limit: None }).is_empty());
    assert_eq!(staff_fetch_count(&q), 500);
    assert_eq!(staff_fetch_count(&StaffListQuery { ids: None, q: None, limit: Some(10) }), 40);
    let found = list_staff(&owner(), &q, vec![s1, plain, s3]).unwrap();
    assert_eq!(found.iter().map(|u| u.id.as_str()).collect::<Vec<_>>(), vec!["1", "3"]);
    let only = select_users(vec![user("a", "zed"), user("b", "zed")], &Some("ZED".to_owned()), false, 1);
    assert_eq!(only.len(), 1);
}

#[test]
fn flags_are_set_and_noted() {
    let (changed, note) = set_user_flags(&owner(), "t1", user("t1", "t"), DataSetUserFlags { flags: 4 }).unwrap();
    assert_eq!(changed.flags, Some(4));
    assert_eq!(note.action, "user.flags.set");
    assert_eq!(note.target, "t1");
    assert_eq!(note.metadata.get("flags"), Some(&"4".to_owned()));
    let (changed, _) = set_user_flags(&owner(), "t1", user("t1", "t"), DataSetUserFlags { flags: u32::MAX }).unwrap();
    assert_eq!(changed.flags, Some(-1));
    let mut agent = user("a", "a");
    agent.platform_admin_role = Some(PlatformAdminRole::Analyst);
    assert!(matches!(set_user_flags(&agent, "t1", user("t1", "t"), DataSetUserFlags { flags: 1 }), Err(ApiError::NotPrivileged)));
}

#[test]
fn cosmetics_given_replace_the_old_ones() {
    let mut target = user("t", "t");
    target.profile = Some(UserProfile {
        cosmetics: Some(UserCosmetics { nameplate: Some("gold".to_owned()), role_colour: Some("red".to_owned()), font: None, animation: None }),
    });
    let data = DataSetUserCosmetics { nameplate: None, role_colour: Some("blue".to_owned()), font: Some("mono".to_owned()), animation: None };
    let (changed, note) = set_user_cosmetics(&owner(), "t", target, data).unwrap();
    let c = changed.profile.unwrap().cosmetics.unwrap();
    assert_eq!(c.nameplate.as_deref(), Some("gold"));
    assert_eq!(c.role_colour.as_deref(), Some("blue"));
    assert_eq!(c.font.as_deref(), Some("mono"));
    assert_eq!(c.animation, None);
    assert_eq!(note.action, "user.cosmetics.set");
    assert_eq!(note.metadata.get("nameplate"), Some(&"gold".to_owned()));
    assert_eq!(note.metadata.get("role_colour"), Some(&"blue".to_owned()));
    let (_, note) = set_user_cosmetics(&owner(), "u", user("u", "u"), DataSetUserCosmetics { nameplate: None, role_colour: None, font: None, animation: None }).unwrap();
    assert_eq!(note.metadata.get("nameplate"), Some(&"none".to_owned()));
}

#[test]
fn staff_roles_are_assigned_by_owners_only() {
    let data = || DataAssignStaff { platform_admin_role: Some(PlatformAdminRole::SafetyAdmin), platform_permissions: Some(vec!["audit.read".to_owned(), "feature:x".to_owned()]) };
    let (changed, note) = assign_staff(&owner(), "t", user("t", "t"), data()).unwrap();
    assert_eq!(changed.platform_admin_role, Some(PlatformAdminRole::SafetyAdmin));
    assert_eq!(note.action, "staff.assign");
    assert_eq!(note.metadata.get("role"), Some(&"SafetyAdmin".to_owned()));
    assert_eq!(note.metadata.get("permissions"), Some(&"audit.read,feature:x".to_owned()));
    let mut admin = user("s", "s");
    admin.platform_admin_role = Some(PlatformAdminRole::SafetyAdmin);
    assert!(matches!(assign_staff(&admin, "t", user("t", "t"), data()), Err(ApiError::NotPrivileged)));
    let bad = DataAssignStaff { platform_admin_role: None, platform_permissions: Some(vec!["root".to_owned()]) };
    match assign_staff(&owner(), "t", user("t", "t"), bad) {
        Err(ApiError::FailedValidation { error }) => assert_eq!(error, "Unknown platform permission: root"),
        other => panic!("unexpected {:?}", other.map(|(u, _)| u.id)),
    }
    let mut target = user("t", "t");
    target.platform_admin_role = Some(PlatformAdminRole::Analyst);
    let keep = DataAssignStaff { platform_admin_role: None, platform_permissions: None };
    let (changed, note) = assign_staff(&owner(), "t", target, keep).unwrap();
    assert_eq!(changed.platform_admin_role, Some(PlatformAdminRole::Analyst));
    assert_eq!(note.metadata.get("permissions"), Some(&"None".to_owned()));
    assert_eq!(joined(&vec!["a".to_owned()]), "a");
    assert_eq!(joined(&vec![]), "");
}

#[test]
fn the_catalog_is_read_by_staff() {
    let mut reader = user("r", "r");
    reader.platform_permissions = Some(vec!["staff.read".to_owned()]);
    let c = staff_permissions_catalog(&reader).unwrap();
    assert_eq!(c.catalog.len(), 22);
    assert!(c.role_templates.contains_key("Analyst"));
    assert!(matches!(staff_permissions_catalog(&user("x", "x")), Err(ApiError::NotPrivileged)));
}
