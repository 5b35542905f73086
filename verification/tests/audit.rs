use delta::audit::{select_entries, timeline_entries, AuditLog, EntryFilter, AUDIT_LOG_CAPACITY};
use delta::strmap::StrMap;

fn meta(k: &str, v: &str) -> StrMap<String> {
    let mut m = StrMap::new();
    m.insert(k.to_owned(), v.to_owned());
    m
}

#[test]
fn entries_carry_fresh_ulids_and_rfc3339_times() {
    let mut log = AuditLog::new();
    log.record("a".to_owned(), "x".to_owned(), "t".to_owned(), StrMap::new());
    log.record("a".to_owned(), "x".to_owned(), "t".to_owned(), StrMap::new());
    let entries = log.list();
    let a = &entries[0].id;
    assert_eq!(a.chars().count(), 26);
    assert!(a.chars().all(|c| c.is_ascii_digit() || (c.is_ascii_uppercase() && !"ILOU".contains(c))));
    assert_ne!(entries[0].id, entries[1].id);
    let t = &entries[0].timestamp;
    assert!(t.len() >= 20);
    assert_eq!(&t[4..5], "-");
    assert!(t.contains('T'));
}

#[test]
fn entry_times_are_utc_rfc3339_text() {
    let mut log = AuditLog::new();
    log.record("a".to_owned(), "x".to_owned(), "t".to_owned(), StrMap::new());
    let t = &log.list()[0].timestamp;
    assert!(t.chars().count() >= 25);
    assert!(t.ends_with("+00:00"));
    assert_eq!(&t[10..11], "T");
}

#[test]
fn recording_appends_an_entry() {
    let mut log = AuditLog::new();
    assert_eq!(log.len(), 0);
    log.record("actor".to_owned(), "report.review".to_owned(), "r1".to_owned(), meta("status", "Created"));
    let entries = log.list();
    assert_eq!(entries.len(), 1);
    assert_eq!(entries[0].actor_id, "actor");
    assert_eq!(entries[0].action, "report.review");
    assert_eq!(entries[0].target, "r1");
    assert_eq!(entries[0].metadata.get("status"), Some(&"Created".to_owned()));
    assert_eq!(entries[0].id.len(), 26);
}

#[test]
fn the_log_keeps_only_the_latest_entries() {
    let mut log = AuditLog::new();
    for i in 0..(AUDIT_LOG_CAPACITY + 3) {
        log.record("a".to_owned(), "x".to_owned(), i.to_string(), StrMap::new());
    }
    let entries = log.list();
    assert_eq!(entries.len(), 500);
    assert_eq!(entries[0].target, "3");
    assert_eq!(entries[499].target, "502");
}

#[test]
fn queries_select_by_actor_prefix_and_target() {
    let mut log = AuditLog::new();
    log.record("a1".to_owned(), "staff.assign".to_owned(), "u1".to_owned(), StrMap::new());
    log.record("a2".to_owned(), "report.action".to_owned(), "r1".to_owned(), StrMap::new());
    log.record("a1".to_owned(), "report.review".to_owned(), "r1".to_owned(), StrMap::new());
    log.record("a1".to_owned(), "user.flags.set".to_owned(), "u2".to_owned(), StrMap::new());
    let f = EntryFilter::Query { actor_id: Some("a1".to_owned()), action_prefix: Some("report.".to_owned()), target: None };
    let out = select_entries(log.list(), &f, 10);
    assert_eq!(out.len(), 1);
    assert_eq!(out[0].action, "report.review");
    let limited = select_entries(log.list(), &EntryFilter::Query { actor_id: None, action_prefix: None, target: None }, 2);
    assert_eq!(limited.len(), 2);
    assert_eq!(limited[1].action, "report.action");
    let sensitive = select_entries(log.list(), &EntryFilter::Sensitive, 10);
    assert_eq!(sensitive.iter().map(|e| e.action.as_str()).collect::<Vec<_>>(), vec!["staff.assign", "report.action"]);
    let timeline = timeline_entries(log.list(), "r1".to_owned());
    assert_eq!(timeline.len(), 2);
}
