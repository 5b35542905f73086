use delta::audit::{AuditEntry, AuditLog};
use std::collections::hash_map::DefaultHasher;
use std::hash::{Hash, Hasher};
use delta::error::ApiError;
use delta::rollout::RolloutState;
use delta::strmap::StrMap;
use delta::system::{
    audit_chain_hash, email_system_snapshot, export_audit_log, get_audit_log, get_system_email, get_system_features,
    sensitive_audit_feed, set_system_email, set_system_feature, set_system_kill_switch, AuditExportQuery, DataSetEmailSystem,
    DataSetFeature, DataSetKillSwitch,
};
use delta::users::{PlatformAdminRole, User};

fn user(role: Option<PlatformAdminRole>) -> User {
    User {
        id: "staff".to_owned(),
        username: "staff".to_owned(),
        discriminator: "0001".to_owned(),
        display_name: None,
        privileged: false,
        platform_admin_role: role,
        platform_permissions: None,
        badges: None,
        flags: None,
        profile: None,
        bot: false,
    }
}

fn no_overrides() -> DataSetEmailSystem {
    DataSetEmailSystem { support_address: None, sender_name: None, reset_base_url: None, require_captcha: None }
}

#[test]
fn email_settings_default_until_overridden() {
    let e = email_system_snapshot(&no_overrides(), "");
    assert!(!e.smtp_enabled);
    assert_eq!(e.support_address, "support@localhost");
    assert_eq!(e.sender_name, ".Comms Support");
    assert_eq!(e.reset_base_url, "https://localhost/login");
    assert!(!e.require_captcha);
    let e = email_system_snapshot(&no_overrides(), "smtp.example.org");
    assert!(e.smtp_enabled);
    assert_eq!(e.smtp_host, "smtp.example.org");
}

#[test]
fn email_overrides_are_set_and_recorded() {
    let owner = user(Some(PlatformAdminRole::PlatformOwner));
    let mut log = AuditLog::new();
    let mut overrides = no_overrides();
    let data = DataSetEmailSystem { support_address: Some("help@x.org".to_owned()), sender_name: None, reset_base_url: None, require_captcha: Some(true) };
    let e = set_system_email(&mut log, &owner, &mut overrides, data, "mx").unwrap();
    assert_eq!(e.support_address, "help@x.org");
    assert_eq!(e.sender_name, ".Comms Support");
    assert!(e.require_captcha);
    let entry = &log.list()[0];
    assert_eq!(entry.action, "system.email.set");
    assert_eq!(entry.target, "global");
    assert_eq!(entry.metadata.get("support_address"), Some(&"help@x.org".to_owned()));
    assert_eq!(entry.metadata.get("sender_name"), Some(&"(unchanged)".to_owned()));
    let analyst = user(Some(PlatformAdminRole::Analyst));
    assert_eq!(get_system_email(&analyst, &overrides, "").unwrap().support_address, "help@x.org");
    assert!(matches!(set_system_email(&mut log, &analyst, &mut overrides, no_overrides(), ""), Err(ApiError::NotPrivileged)));
    assert_eq!(log.len(), 1);
}

#[test]
fn feature_switches_and_the_kill_switch() {
    let owner = user(Some(PlatformAdminRole::PlatformOwner));
    let mut log = AuditLog::new();
    let mut st = RolloutState::from_config("0", "", "", "");
    let r = set_system_feature(&mut log, &owner, &mut st, DataSetFeature { feature: "profile_v2".to_owned(), enabled: false }).unwrap();
    assert_eq!(r.global.get("profile_v2"), Some(&false));
    let r = set_system_kill_switch(&mut log, &owner, &mut st, DataSetKillSwitch { enabled: true }).unwrap();
    assert!(r.emergency_kill_switch);
    let entries = log.list();
    assert_eq!(entries[0].action, "system.feature.set");
    assert_eq!(entries[0].target, "profile_v2");
    assert_eq!(entries[0].metadata.get("enabled"), Some(&"false".to_owned()));
    assert_eq!(entries[1].action, "system.kill_switch");
    assert_eq!(entries[1].metadata.get("enabled"), Some(&"true".to_owned()));
    let analyst = user(Some(PlatformAdminRole::Analyst));
    assert!(get_system_features(&analyst, &st).unwrap().emergency_kill_switch);
    assert!(matches!(set_system_kill_switch(&mut log, &analyst, &mut st, DataSetKillSwitch { enabled: false }), Err(ApiError::NotPrivileged)));
    assert!(st.emergency_kill_switch());
}

fn log_with_entries() -> AuditLog {
    let mut log = AuditLog::new();
    log.record("a1".to_owned(), "staff.assign".to_owned(), "u1".to_owned(), StrMap::new());
    log.record("a2".to_owned(), "report.review".to_owned(), "r1".to_owned(), StrMap::new());
    log.record("a1".to_owned(), "report.action".to_owned(), "r1".to_owned(), StrMap::new());
    log
}

#[test]
fn the_audit_log_is_read_and_exported() {
    let log = log_with_entries();
    let analyst = user(Some(PlatformAdminRole::Analyst));
    assert_eq!(get_audit_log(&analyst, &log).unwrap().entries.len(), 3);
    let q = AuditExportQuery { actor_id: None, action_prefix: Some("report.".to_owned()), target: Some("r1".to_owned()), limit: Some(1) };
    let e = export_audit_log(&analyst, &log, q).unwrap();
    assert_eq!(e.entries.len(), 1);
    assert_eq!(e.entries[0].action, "report.review");
    assert_eq!(e.chain_hash.len(), 16);
    assert!(e.chain_hash.chars().all(|c| c.is_ascii_hexdigit() && !c.is_ascii_uppercase()));
    let all = export_audit_log(&analyst, &log, AuditExportQuery { actor_id: Some("a1".to_owned()), action_prefix: None, target: None, limit: None }).unwrap();
    assert_eq!(all.entries.len(), 2);
    assert_eq!(audit_chain_hash(&all.entries), all.chain_hash);
    assert_ne!(audit_chain_hash(&e.entries), audit_chain_hash(&all.entries));
    let feed = sensitive_audit_feed(&analyst, &log).unwrap();
    assert_eq!(feed.entries.iter().map(|e| e.action.as_str()).collect::<Vec<_>>(), vec!["staff.assign", "report.action"]);
    assert!(matches!(get_audit_log(&user(None), &log), Err(ApiError::NotPrivileged)));
}

fn entry(id: &str, actor: &str, action: &str, target: &str, meta: StrMap<String>) -> AuditEntry {
    AuditEntry {
        id: id.to_owned(),
        timestamp: "2024-05-02T08:30:00+00:00".to_owned(),
        actor_id: actor.to_owned(),
        action: action.to_owned(),
        target: target.to_owned(),
        metadata: meta,
    }
}

fn std_chain_hash(entries: &[AuditEntry]) -> String {
    let mut h = DefaultHasher::new();
    for e in entries {
        e.id.hash(&mut h);
        e.timestamp.hash(&mut h);
        e.actor_id.hash(&mut h);
        e.action.hash(&mut h);
        e.target.hash(&mut h);
    }
    format!("{:016x}", h.finish())
}

#[test]
fn the_chain_hash_is_the_standard_hash_of_the_five_fields() {
    assert_eq!(audit_chain_hash(&Vec::new()), format!("{:016x}", DefaultHasher::new().finish()));
    let entries = vec![entry("01A", "a1", "report.review", "r1", StrMap::new()), entry("01B", "a2", "staff.assign", "u1", StrMap::new())];
    assert_eq!(audit_chain_hash(&entries), std_chain_hash(&entries));
    let mut noted = StrMap::new();
    noted.insert("reason".to_owned(), "spam".to_owned());
    let same_fields = vec![entry("01A", "a1", "report.review", "r1", noted), entry("01B", "a2", "staff.assign", "u1", StrMap::new())];
    assert_eq!(audit_chain_hash(&same_fields), audit_chain_hash(&entries));
    let other_target = vec![entry("01A", "a1", "report.review", "r2", StrMap::new()), entry("01B", "a2", "staff.assign", "u1", StrMap::new())];
    assert_ne!(audit_chain_hash(&other_target), audit_chain_hash(&entries));
    let swapped = vec![entry("01B", "a2", "staff.assign", "u1", StrMap::new()), entry("01A", "a1", "report.review", "r1", StrMap::new())];
    assert_ne!(audit_chain_hash(&swapped), audit_chain_hash(&entries));
}

#[test]
fn the_export_hash_covers_the_exported_entries() {
    let log = log_with_entries();
    let analyst = user(Some(PlatformAdminRole::Analyst));
    let e = export_audit_log(&analyst, &log, AuditExportQuery { actor_id: None, action_prefix: None, target: Some("r1".to_owned()), limit: None }).unwrap();
    assert_eq!(e.entries.len(), 2);
    assert_eq!(e.chain_hash, std_chain_hash(&e.entries));
}
