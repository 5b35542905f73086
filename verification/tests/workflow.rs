use delta::audit::AuditLog;
use delta::error::ApiError;
use delta::reports::{ContentReportReason, Report, ReportPriority, ReportSeverity, ReportStatus, ReportStatusString, ReportedContent, Snapshot};
use delta::store::ReferenceDb;
use delta::users::{PlatformAdminRole, User};
use delta::workflow::{
    get_report, report_action, report_action_at, report_snapshots, report_timeline, review_report, review_report_at,
    DataReportAction, DataReviewReport,
};
use iso8601_timestamp::Timestamp;

fn user(id: &str, role: Option<PlatformAdminRole>) -> User {
    User {
        id: id.to_owned(),
        username: id.to_owned(),
        discriminator: "0001".to_owned(),
        display_name: None,
        privileged: false,
        platform_admin_role: role,
        platform_permissions: None,
        badges: None,
        flags: None,
        profile: None,
        bot: false,
    }
}

fn report(id: &str) -> Report {
    Report {
        id: id.to_owned(),
        author_id: "author".to_owned(),
        content: ReportedContent::Message { id: "m1".to_owned(), report_reason: ContentReportReason::SpamAbuse },
        additional_context: "ctx".to_owned(),
        report_context: None,
        reporter_metadata: None,
        severity: ReportSeverity::High,
        priority: ReportPriority::Normal,
        risk_score: Some(40),
        confidence_score: None,
        dedupe_key: None,
        related_report_ids: Vec::new(),
        created_at: None,
        updated_at: None,
        last_transition_at: None,
        resolved_at: None,
        sla_deadline: None,
        breach_state: false,
        status: ReportStatus::Created,
        notes: "old notes".to_owned(),
        assignee_id: None,
        reviewer_id: None,
    }
}

fn at(s: &str) -> Timestamp {
    Timestamp::parse(s).unwrap()
}

fn db_with(id: &str) -> ReferenceDb {
    let mut db = ReferenceDb::new();
    db.insert_report(&report(id)).unwrap();
    db
}

fn review(status: ReportStatusString) -> DataReviewReport {
    DataReviewReport { status, notes: None, assignee_id: None, rejection_reason: None, resolution_reason: None }
}

fn action(name: &str) -> DataReportAction {
    DataReportAction { action: name.to_owned(), reason: None, assignee_id: None, merge_into: None }
}

#[test]
fn a_review_into_review_assigns_the_staff_member() {
    let mut db = db_with("r1");
    let mut log = AuditLog::new();
    let staff = user("s1", Some(PlatformAdminRole::SafetyAdmin));
    let now = at("2024-05-01T12:00:00Z");
    let mut data = review(ReportStatusString::InReview);
    data.notes = Some("looking".to_owned());
    let r = review_report_at(&mut db, &mut log, &staff, "r1", data, now).unwrap();
    assert!(matches!(r.status, ReportStatus::InReview { assigned_at: Some(t) } if t == now));
    assert_eq!(r.assignee_id.as_deref(), Some("s1"));
    assert_eq!(r.reviewer_id.as_deref(), Some("s1"));
    assert_eq!(r.notes, "looking");
    let stored = db.fetch_report("r1").unwrap();
    assert_eq!(stored.assignee_id.as_deref(), Some("s1"));
    let entries = log.list();
    assert_eq!(entries.len(), 1);
    assert_eq!(entries[0].action, "report.review");
    assert_eq!(entries[0].target, "r1");
    assert_eq!(
        entries[0].metadata.get("status"),
        Some(&"InReview { assigned_at: Some(Timestamp(\"2024-05-01T12:00:00.000000000Z\")) }".to_owned())
    );
}

#[test]
fn a_review_keeps_the_assignee_unless_given() {
    let mut db = db_with("r1");
    let mut log = AuditLog::new();
    let staff = user("s1", Some(PlatformAdminRole::SafetyAdmin));
    let now = at("2024-05-01T12:00:00Z");
    let r = review_report_at(&mut db, &mut log, &staff, "r1", review(ReportStatusString::Escalated), now).unwrap();
    assert_eq!(r.assignee_id, None);
    assert_eq!(r.notes, "old notes");
    let mut data = review(ReportStatusString::Resolved);
    data.assignee_id = Some("s9".to_owned());
    let r = review_report_at(&mut db, &mut log, &staff, "r1", data, now).unwrap();
    assert_eq!(r.assignee_id.as_deref(), Some("s9"));
    assert_eq!(r.resolved_at, Some(now));
}

#[test]
fn refused_reviews_change_nothing() {
    let mut db = db_with("r1");
    let mut log = AuditLog::new();
    let now = at("2024-05-01T12:00:00Z");
    let analyst = user("a1", Some(PlatformAdminRole::Analyst));
    assert!(matches!(review_report_at(&mut db, &mut log, &analyst, "r1", review(ReportStatusString::Resolved), now), Err(ApiError::NotPrivileged)));
    let staff = user("s1", Some(PlatformAdminRole::SupportAgent));
    assert!(matches!(review_report_at(&mut db, &mut log, &staff, "nope", review(ReportStatusString::Resolved), now), Err(ApiError::NotFound)));
    match review_report_at(&mut db, &mut log, &staff, "r1", review(ReportStatusString::Rejected), now) {
        Err(ApiError::FailedValidation { error }) => assert_eq!(error, "rejection_reason is required"),
        other => panic!("unexpected {other:?}"),
    }
    assert!(matches!(db.fetch_report("r1").unwrap().status, ReportStatus::Created));
    assert_eq!(log.len(), 0);
}

#[test]
fn a_review_reads_the_clock() {
    let mut db = db_with("r1");
    let mut log = AuditLog::new();
    let staff = user("s1", Some(PlatformAdminRole::PlatformOwner));
    let r = review_report(&mut db, &mut log, &staff, "r1", review(ReportStatusString::Escalated)).unwrap();
    assert!(r.updated_at.unwrap() > at("2020-01-01T00:00:00Z"));
}

#[test]
fn taking_a_report_into_review() {
    let mut db = db_with("r1");
    let mut log = AuditLog::new();
    let staff = user("s1", Some(PlatformAdminRole::SupportAgent));
    let now = at("2024-05-02T08:30:00Z");
    let r = report_action_at(&mut db, &mut log, &staff, "r1", action("ack"), now).unwrap();
    assert!(matches!(r.status, ReportStatus::InReview { .. }));
    assert_eq!(r.assignee_id.as_deref(), Some("s1"));
    assert_eq!(r.reviewer_id.as_deref(), Some("s1"));
    let entries = log.list();
    assert_eq!(entries[0].action, "report.action");
    assert_eq!(entries[0].metadata.get("action"), Some(&"ack".to_owned()));
    assert_eq!(entries[0].metadata.get("reason"), Some(&"none".to_owned()));
}

#[test]
fn closing_rejecting_and_reopening() {
    let mut db = db_with("r1");
    let mut log = AuditLog::new();
    let owner = user("o", Some(PlatformAdminRole::PlatformOwner));
    let now = at("2024-05-02T08:30:00Z");
    let mut close = action("close_no_action");
    close.reason = Some("duplicate of older".to_owned());
    let r = report_action_at(&mut db, &mut log, &owner, "r1", close, now).unwrap();
    assert!(matches!(r.status, ReportStatus::Resolved { .. }));
    assert_eq!(r.notes, "No action closure reason: duplicate of older");
    assert_eq!(r.resolved_at, Some(now));
    let r = report_action_at(&mut db, &mut log, &owner, "r1", action("reopen"), now).unwrap();
    assert!(matches!(r.status, ReportStatus::Created));
    assert_eq!(r.resolved_at, None);
    match report_action_at(&mut db, &mut log, &owner, "r1", action("reject"), now) {
        Err(ApiError::FailedValidation { error }) => assert_eq!(error, "reason is required for reject"),
        other => panic!("unexpected {other:?}"),
    }
    let mut reject = action("reject");
    reject.reason = Some("not abuse".to_owned());
    let r = report_action_at(&mut db, &mut log, &owner, "r1", reject, now).unwrap();
    assert!(matches!(&r.status, ReportStatus::Rejected { rejection_reason, .. } if rejection_reason == "not abuse"));
    assert_eq!(log.len(), 3);
    assert_eq!(log.list()[2].metadata.get("reason"), Some(&"not abuse".to_owned()));
}

#[test]
fn merging_and_asking_for_information() {
    let mut db = db_with("r1");
    let mut log = AuditLog::new();
    let owner = user("o", Some(PlatformAdminRole::PlatformOwner));
    let now = at("2024-05-02T08:30:00Z");
    match report_action_at(&mut db, &mut log, &owner, "r1", action("merge_duplicate"), now) {
        Err(ApiError::FailedValidation { error }) => assert_eq!(error, "merge_into is required for merge_duplicate"),
        other => panic!("unexpected {other:?}"),
    }
    let mut merge = action("merge_duplicate");
    merge.merge_into = Some("r0".to_owned());
    report_action_at(&mut db, &mut log, &owner, "r1", merge, now).unwrap();
    let mut again = action("merge_duplicate");
    again.merge_into = Some("r0".to_owned());
    report_action_at(&mut db, &mut log, &owner, "r1", again, now).unwrap();
    let mut itself = action("merge_duplicate");
    itself.merge_into = Some("r1".to_owned());
    let r = report_action_at(&mut db, &mut log, &owner, "r1", itself, now).unwrap();
    assert_eq!(r.related_report_ids, vec!["r0".to_owned()]);
    let mut info = action("request_more_info");
    info.reason = Some("which message?".to_owned());
    let r = report_action_at(&mut db, &mut log, &owner, "r1", info, now).unwrap();
    assert_eq!(r.notes, "Requested additional info: which message?");
    assert!(matches!(r.status, ReportStatus::Created));
}

#[test]
fn unknown_actions_and_missing_permissions_are_refused() {
    let mut db = db_with("r1");
    let mut log = AuditLog::new();
    let owner = user("o", Some(PlatformAdminRole::PlatformOwner));
    let now = at("2024-05-02T08:30:00Z");
    match report_action_at(&mut db, &mut log, &owner, "r1", action("explode"), now) {
        Err(ApiError::FailedValidation { error }) => assert_eq!(error, "Unknown report action: explode"),
        other => panic!("unexpected {other:?}"),
    }
    let agent = user("a", Some(PlatformAdminRole::SupportAgent));
    assert!(matches!(report_action_at(&mut db, &mut log, &agent, "r1", action("escalate"), now), Err(ApiError::NotPrivileged)));
    assert!(matches!(report_action_at(&mut db, &mut log, &owner, "zz", action("ack"), now), Err(ApiError::NotFound)));
    assert_eq!(log.len(), 0);
    let r = report_action(&mut db, &mut log, &owner, "r1", action("escalate_tier2")).unwrap();
    assert!(matches!(r.status, ReportStatus::Escalated { .. }));
}

#[test]
fn reading_reports_timelines_and_snapshots() {
    let mut db = db_with("r1");
    db.insert_snapshot(&Snapshot { id: "s1".to_owned(), report_id: "r1".to_owned(), content: "{}".to_owned() }).unwrap();
    db.insert_snapshot(&Snapshot { id: "s2".to_owned(), report_id: "r2".to_owned(), content: "{}".to_owned() }).unwrap();
    let mut log = AuditLog::new();
    let owner = user("o", Some(PlatformAdminRole::PlatformOwner));
    let analyst = user("a", Some(PlatformAdminRole::Analyst));
    let agent = user("g", Some(PlatformAdminRole::SupportAgent));
    report_action_at(&mut db, &mut log, &owner, "r1", action("ack"), at("2024-05-02T08:30:00Z")).unwrap();
    assert_eq!(get_report(&db, &analyst, "r1").unwrap().id, "r1");
    assert!(matches!(get_report(&db, &analyst, "r9"), Err(ApiError::NotFound)));
    assert!(matches!(get_report(&db, &user("x", None), "r1"), Err(ApiError::NotPrivileged)));
    let t = report_timeline(&log, &analyst, "r1".to_owned()).unwrap();
    assert_eq!(t.report_id, "r1");
    assert_eq!(t.entries.len(), 1);
    assert!(report_timeline(&log, &user("x", None), "r1".to_owned()).is_err());
    let s = report_snapshots(&db, &agent, "r1".to_owned()).unwrap();
    assert_eq!(s.snapshots.len(), 1);
    assert_eq!(s.snapshots[0].id, "s1");
}

#[test]
fn only_status_changes_stamp_the_transition_time() {
    let mut db = db_with("r1");
    let mut log = AuditLog::new();
    let owner = user("o", Some(PlatformAdminRole::PlatformOwner));
    let first = at("2024-05-02T08:30:00Z");
    let mut merge = action("merge_duplicate");
    merge.merge_into = Some("r0".to_owned());
    let r = report_action_at(&mut db, &mut log, &owner, "r1", merge, first).unwrap();
    assert_eq!(r.last_transition_at, None);
    assert_eq!(r.updated_at, Some(first));
    let mut info = action("request_more_info");
    info.reason = Some("which message?".to_owned());
    let r = report_action_at(&mut db, &mut log, &owner, "r1", info, first).unwrap();
    assert_eq!(r.last_transition_at, None);
    let r = report_action_at(&mut db, &mut log, &owner, "r1", action("escalate"), first).unwrap();
    assert_eq!(r.last_transition_at, Some(first));
    let later = at("2024-05-03T09:00:00Z");
    let mut info = action("request_more_info");
    info.reason = Some("any logs?".to_owned());
    let r = report_action_at(&mut db, &mut log, &owner, "r1", info, later).unwrap();
    assert_eq!(r.last_transition_at, Some(first));
    assert_eq!(r.updated_at, Some(later));
    let r = report_action_at(&mut db, &mut log, &owner, "r1", action("resolve"), later).unwrap();
    assert_eq!(r.last_transition_at, Some(later));
}
