use delta::rollout::{default_features, parse_csv, staff_features, RolloutState};
use delta::system::features;
use delta::users::{PlatformAdminRole, User};

fn user(id: &str) -> User {
    User {
        id: id.to_owned(),
        username: id.to_owned(),
        discriminator: "0001".to_owned(),
        display_name: None,
        privileged: false,
        platform_admin_role: None,
        platform_permissions: None,
        badges: None,
        flags: None,
        profile: None,
        bot: false,
    }
}

#[test]
fn comma_lists_are_trimmed_and_blanks_dropped() {
    assert_eq!(parse_csv(" a, b ,,c ,"), vec!["a".to_owned(), "b".to_owned(), "c".to_owned()]);
    assert!(parse_csv("").is_empty());
    assert!(parse_csv(" , ").is_empty());
}

#[test]
fn defaults_switch_on_the_shipped_features() {
    let d = default_features();
    assert_eq!(d.len(), 9);
    assert_eq!(d.get("stickers_v1"), Some(&true));
    assert_eq!(d.get("soundboard_v1"), Some(&true));
    assert_eq!(d.get("nope"), None);
}

#[test]
fn configuration_disables_and_overrides_win_in_order() {
    let mut st = RolloutState::from_config("0", "profile_v2, stickers_v1", "", "");
    assert!(!st.emergency_kill_switch());
    let g = st.global_features();
    assert_eq!(g.get("profile_v2"), Some(&false));
    assert_eq!(g.get("profile_v3"), Some(&true));
    st.set_global_feature("profile_v2".to_owned(), true);
    st.set_global_feature("brand_new".to_owned(), false);
    let g = st.global_features();
    assert_eq!(g.get("profile_v2"), Some(&true));
    assert_eq!(g.get("brand_new"), Some(&false));
}

#[test]
fn kill_switch_blocks_every_feature() {
    let mut st = RolloutState::from_config("1", "", "", "");
    assert!(st.emergency_kill_switch());
    let u = user("u1");
    assert!(!st.user_has_feature(&u, "profile_v2"));
    st.set_emergency_kill_switch(false);
    assert!(st.user_has_feature(&u, "profile_v2"));
    assert!(!RolloutState::from_config("true", "", "", "").emergency_kill_switch());
}

#[test]
fn promoted_users_and_grants_receive_features() {
    let st = RolloutState::from_config("0", "", "u7, u8", "beta_x,beta_y");
    let mut u = user("u7");
    u.platform_permissions = Some(vec!["feature:beta_y".to_owned(), "feature:solo".to_owned(), "reports.read".to_owned()]);
    assert_eq!(st.promoted_features(&u), vec!["beta_y".to_owned(), "solo".to_owned(), "beta_x".to_owned()]);
    assert!(st.user_has_feature(&u, "beta_x"));
    assert!(st.user_has_feature(&u, "solo"));
    let other = user("u9");
    assert!(st.promoted_features(&other).is_empty());
    assert!(!st.user_has_feature(&other, "beta_x"));
}

#[test]
fn staff_receive_the_staff_features_even_when_disabled() {
    let st = RolloutState::from_config("0", "admin_panel_v1", "", "");
    let mut staff = user("s");
    staff.platform_admin_role = Some(PlatformAdminRole::Analyst);
    assert!(st.user_has_feature(&staff, "admin_panel_v1"));
    assert!(!st.user_has_feature(&user("p"), "admin_panel_v1"));
    assert!(!staff_features().is_empty());
    let e = st.effective_features(&staff);
    assert_eq!(e.get("admin_panel_v1"), Some(&true));
}

#[test]
fn the_feature_matrix_shows_the_state() {
    let st = RolloutState::from_config("0", "server_theming_v1", "", "");
    let u = user("x");
    let m = features(&u, &st).unwrap();
    assert!(!m.emergency_kill_switch);
    assert_eq!(m.global.get("server_theming_v1"), Some(&false));
    assert!(m.promoted.is_empty());
    assert_eq!(m.effective.get("profile_v3"), Some(&true));
}

#[test]
fn reloading_the_lists_keeps_the_switches() {
    let mut st = RolloutState::from_config("1", "profile_v2", "", "");
    st.set_global_feature("custom".to_owned(), true);
    st.reload_lists("profile_v3", "u1", "beta");
    assert!(st.emergency_kill_switch());
    let g = st.global_features();
    assert_eq!(g.get("profile_v2"), Some(&true));
    assert_eq!(g.get("profile_v3"), Some(&false));
    assert_eq!(g.get("custom"), Some(&true));
    assert_eq!(st.promoted_features(&user("u1")), vec!["beta".to_owned()]);
}

#[test]
fn the_kill_switch_reads_back_as_last_set() {
    let mut st = RolloutState::from_config("1", "", "", "");
    assert!(st.emergency_kill_switch());
    st.set_global_feature("voice".to_owned(), false);
    st.reload_lists("", "", "");
    assert!(st.emergency_kill_switch());
    st.set_emergency_kill_switch(false);
    st.set_global_feature("voice".to_owned(), true);
    st.reload_lists("x", "", "");
    assert!(!st.emergency_kill_switch());
    st.set_emergency_kill_switch(true);
    assert!(st.emergency_kill_switch());
    assert!(!RolloutState::from_config("true", "", "", "").emergency_kill_switch());
}
