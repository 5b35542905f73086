use delta::error::ApiError;
use delta::restrictions::{
    apply_restriction_changes, current_unix_millis, decode_restrictions, encode_restrictions, get_user_restrictions,
    parse_setting_bool, parse_setting_optional, restriction_setting_keys, set_user_restrictions, set_user_restrictions_at,
    unix_millis_of, DataSetUserRestrictions, UserRestrictionState, UserSettings,
};
use delta::strmap::StrMap;
use delta::users::{PlatformAdminRole, User};

fn user(role: Option<PlatformAdminRole>) -> User {
    User {
        id: "staff".to_owned(),
        username: "staff".to_owned(),
        discriminator: "0001".to_owned(),
        display_name: None,
        privileged: false,
        platform_admin_role: role,
        platform_permissions: None,
        badges: None,
        flags: None,
        profile: None,
        bot: false,
    }
}

fn settings(pairs: &[(&str, &str)]) -> UserSettings {
    let mut m = StrMap::new();
    for (k, v) in pairs {
        m.insert((*k).to_owned(), (1, (*v).to_owned()));
    }
    m
}

fn state() -> UserRestrictionState {
    UserRestrictionState {
        user_id: "u1".to_owned(),
        profile_locked: true,
        username_frozen_until: Some("2030-01-01".to_owned()),
        display_name_frozen_until: None,
        media_quarantined: false,
        profile_visibility_limited: true,
    }
}

fn no_changes() -> DataSetUserRestrictions {
    DataSetUserRestrictions {
        profile_locked: None,
        username_frozen_until: None,
        display_name_frozen_until: None,
        media_quarantined: None,
        profile_visibility_limited: None,
    }
}

#[test]
fn the_reserved_keys() {
    let keys = restriction_setting_keys();
    assert_eq!(keys.len(), 5);
    assert_eq!(keys[0], "admin:restriction:profile_locked");
    assert_eq!(keys[4], "admin:restriction:profile_visibility_limited");
}

#[test]
fn settings_read_as_flags_and_texts() {
    let s = settings(&[("a", " TRUE "), ("b", "yes"), ("c", "  "), ("d", " 2030 ")]);
    assert!(parse_setting_bool(&s, "a"));
    assert!(!parse_setting_bool(&s, "b"));
    assert!(!parse_setting_bool(&s, "missing"));
    assert_eq!(parse_setting_optional(&s, "c"), None);
    assert_eq!(parse_setting_optional(&s, "d"), Some("2030".to_owned()));
    assert_eq!(parse_setting_optional(&s, "missing"), None);
}

#[test]
fn restrictions_survive_a_write_and_a_read() {
    let written = encode_restrictions(77, &state());
    assert_eq!(written.len(), 5);
    assert_eq!(written.get("admin:restriction:profile_locked"), Some(&(77, "true".to_owned())));
    assert_eq!(written.get("admin:restriction:display_name_frozen_until"), Some(&(77, String::new())));
    assert_eq!(written.get("admin:restriction:media_quarantined"), Some(&(77, "false".to_owned())));
    let back = decode_restrictions("u1".to_owned(), &written);
    assert_eq!(back.user_id, "u1");
    assert!(back.profile_locked);
    assert_eq!(back.username_frozen_until.as_deref(), Some("2030-01-01"));
    assert_eq!(back.display_name_frozen_until, None);
    assert!(!back.media_quarantined);
    assert!(back.profile_visibility_limited);
}

#[test]
fn given_restrictions_replace_the_current_ones() {
    let mut data = no_changes();
    data.profile_locked = Some(false);
    data.display_name_frozen_until = Some("soon".to_owned());
    let s = apply_restriction_changes(state(), data);
    assert!(!s.profile_locked);
    assert_eq!(s.display_name_frozen_until.as_deref(), Some("soon"));
    assert_eq!(s.username_frozen_until.as_deref(), Some("2030-01-01"));
    assert!(s.profile_visibility_limited);
}

#[test]
fn setting_restrictions_needs_the_permission() {
    let current = encode_restrictions(5, &state());
    let admin = user(Some(PlatformAdminRole::SafetyAdmin));
    let mut data = no_changes();
    data.media_quarantined = Some(true);
    let (s, written, note) = set_user_restrictions_at(&admin, "u1", &current, data, 99).unwrap();
    assert!(s.media_quarantined);
    assert!(s.profile_locked);
    assert_eq!(written.get("admin:restriction:media_quarantined"), Some(&(99, "true".to_owned())));
    assert_eq!(note.action, "user.restrictions.set");
    assert_eq!(note.target, "u1");
    assert_eq!(note.metadata.get("media_quarantined"), Some(&"true".to_owned()));
    assert_eq!(note.metadata.get("profile_visibility_limited"), Some(&"true".to_owned()));
    let agent = user(Some(PlatformAdminRole::SupportAgent));
    assert!(matches!(set_user_restrictions_at(&agent, "u1", &current, no_changes(), 1), Err(ApiError::NotPrivileged)));
    let (_, written, _) = set_user_restrictions(&admin, "u1", &current, no_changes()).unwrap();
    assert!(written.get("admin:restriction:profile_locked").unwrap().0 > 1_600_000_000_000);
    let read = get_user_restrictions(&agent, "u1".to_owned(), &current).unwrap();
    assert!(read.profile_locked);
    assert!(matches!(get_user_restrictions(&user(None), "u1".to_owned(), &current), Err(ApiError::NotPrivileged)));
}

#[test]
fn the_clock_reads_in_unix_milliseconds() {
    assert!(current_unix_millis() > 1_600_000_000_000);
    assert_eq!(unix_millis_of(None), 0);
    assert_eq!(unix_millis_of(Some(1234)), 1234);
    assert_eq!(unix_millis_of(Some(u128::from(u64::MAX) + 1)), 0);
}
