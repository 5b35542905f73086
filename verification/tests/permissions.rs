use delta::permissions::{
    effective_permission_set, ensure_owner_delegation, ensure_permission, ensure_platform_owner, has_permission,
    in_catalog, permission_catalog, role_name, role_template_of, role_templates, validate_permissions,
    PERM_AUDIT_READ, PERM_REPORTS_READ, PERM_STAFF_READ, PERM_SYSTEM_KILL_SWITCH_WRITE, PERM_USERS_FLAGS_WRITE,
};
use delta::error::ApiError;
use delta::users::{PlatformAdminRole, User};

fn user(id: &str) -> User {
    User {
        id: id.to_owned(),
        username: format!("{id}_name"),
        discriminator: "0001".to_owned(),
        display_name: None,
        privileged: false,
        platform_admin_role: None,
        platform_permissions: None,
        badges: None,
        flags: None,
        profile: None,
        bot: false,
    }
}

#[test]
fn validates_known_permissions() {
    let values = vec![
        PERM_REPORTS_READ.to_owned(),
        PERM_USERS_FLAGS_WRITE.to_owned(),
        "feature:profile_v3".to_owned(),
    ];
    assert!(validate_permissions(&values).is_ok());
}

#[test]
fn rejects_unknown_permissions() {
    let values = vec!["unknown.permission".to_owned()];
    assert!(validate_permissions(&values).is_err());
}

#[test]
fn role_templates_include_owner() {
    let templates = role_templates();
    assert!(templates.contains_key("PlatformOwner"));
    assert!(
        templates
            .get("PlatformOwner")
            .map(|values| values.contains(&PERM_SYSTEM_KILL_SWITCH_WRITE.to_owned()))
            .unwrap_or(false)
    );
}

#[test]
fn unknown_permission_is_named_in_the_error() {
    let values = vec![PERM_AUDIT_READ.to_owned(), "nope".to_owned(), "also.nope".to_owned()];
    match validate_permissions(&values) {
        Err(ApiError::FailedValidation { error }) => assert_eq!(error, "Unknown platform permission: nope"),
        other => panic!("unexpected {other:?}"),
    }
}

#[test]
fn catalog_lists_every_permission_with_the_wildcard_last() {
    let c = permission_catalog();
    assert_eq!(c.len(), 22);
    assert_eq!(c[0], "reports.read");
    assert_eq!(c[21], "feature:*");
    assert!(in_catalog("policy.read"));
    assert!(!in_catalog("policy.write"));
}

#[test]
fn templates_hold_the_documented_roles() {
    let templates = role_templates();
    assert_eq!(templates.len(), 4);
    assert_eq!(role_template_of(PlatformAdminRole::PlatformOwner).len(), 21);
    assert_eq!(role_template_of(PlatformAdminRole::SafetyAdmin).len(), 15);
    assert_eq!(role_template_of(PlatformAdminRole::SupportAgent).len(), 11);
    assert_eq!(role_template_of(PlatformAdminRole::Analyst).len(), 6);
    assert_eq!(role_name(PlatformAdminRole::SupportAgent), "SupportAgent");
    for role in [
        PlatformAdminRole::PlatformOwner,
        PlatformAdminRole::SafetyAdmin,
        PlatformAdminRole::SupportAgent,
        PlatformAdminRole::Analyst,
    ] {
        assert!(validate_permissions(&role_template_of(role)).is_ok());
    }
}

#[test]
fn owner_and_privileged_hold_everything() {
    let mut owner = user("owner");
    owner.platform_admin_role = Some(PlatformAdminRole::PlatformOwner);
    assert!(has_permission(&owner, "anything.at.all"));
    let mut old_admin = user("admin");
    old_admin.privileged = true;
    assert!(has_permission(&old_admin, PERM_SYSTEM_KILL_SWITCH_WRITE));
    assert!(ensure_platform_owner(&old_admin).is_ok());
}

#[test]
fn roles_and_grants_decide_permissions() {
    let mut analyst = user("analyst");
    analyst.platform_admin_role = Some(PlatformAdminRole::Analyst);
    assert!(has_permission(&analyst, PERM_STAFF_READ));
    assert!(!has_permission(&analyst, PERM_USERS_FLAGS_WRITE));
    assert!(matches!(ensure_permission(&analyst, PERM_USERS_FLAGS_WRITE), Err(ApiError::NotPrivileged)));
    analyst.platform_permissions = Some(vec![PERM_USERS_FLAGS_WRITE.to_owned(), "feature:*".to_owned()]);
    assert!(has_permission(&analyst, PERM_USERS_FLAGS_WRITE));
    assert!(has_permission(&analyst, "feature:anything"));
    assert!(!has_permission(&analyst, "featureless"));
    let set = effective_permission_set(&analyst);
    assert_eq!(set.len(), 8);
}

#[test]
fn feature_grants_need_the_wildcard_or_the_grant() {
    let mut u = user("u");
    u.platform_permissions = Some(vec!["feature:one".to_owned()]);
    assert!(has_permission(&u, "feature:one"));
    assert!(!has_permission(&u, "feature:two"));
}

#[test]
fn delegation_needs_an_owner_and_known_grants() {
    let plain = user("plain");
    assert!(matches!(ensure_owner_delegation(&plain, &[]), Err(ApiError::NotPrivileged)));
    let mut owner = user("owner");
    owner.platform_admin_role = Some(PlatformAdminRole::PlatformOwner);
    assert!(ensure_owner_delegation(&owner, &[PERM_AUDIT_READ.to_owned()]).is_ok());
    assert!(matches!(
        ensure_owner_delegation(&owner, &["bogus".to_owned()]),
        Err(ApiError::FailedValidation { .. })
    ));
}
