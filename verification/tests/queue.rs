use delta::error::ApiError;
use delta::queue::{list_reports, reports_dashboard, sort_queue, queue_order, text_le, QueueOrder, ReportQueueQuery};
use delta::reports::{ContentReportReason, Report, ReportPriority, ReportSeverity, ReportStatus, ReportedContent};
use delta::store::ReferenceDb;
use delta::users::{PlatformAdminRole, User};

fn staff() -> User {
    User {
        id: "staff".to_owned(),
        username: "staff".to_owned(),
        discriminator: "0001".to_owned(),
        display_name: None,
        privileged: false,
        platform_admin_role: Some(PlatformAdminRole::Analyst),
        platform_permissions: None,
        badges: None,
        flags: None,
        profile: None,
        bot: false,
    }
}

fn report(id: &str, severity: ReportSeverity, priority: ReportPriority, risk: Option<u8>, status: ReportStatus) -> Report {
    Report {
        id: id.to_owned(),
        author_id: "author".to_owned(),
        content: ReportedContent::Message { id: "m".to_owned(), report_reason: ContentReportReason::Raid },
        additional_context: String::new(),
        report_context: None,
        reporter_metadata: None,
        severity,
        priority,
        risk_score: risk,
        confidence_score: None,
        dedupe_key: None,
        related_report_ids: Vec::new(),
        created_at: None,
        updated_at: None,
        last_transition_at: None,
        resolved_at: None,
        sla_deadline: None,
        breach_state: false,
        status,
        notes: String::new(),
        assignee_id: if id == "b" { Some("mod1".to_owned()) } else { None },
        reviewer_id: None,
    }
}

fn query() -> ReportQueueQuery {
    ReportQueueQuery {
        status: None,
        severity: None,
        priority: None,
        assignee_id: None,
        reviewer_id: None,
        limit: None,
        offset: None,
        sort: None,
    }
}

fn db() -> ReferenceDb {
    let mut db = ReferenceDb::new();
    db.insert_report(&report("a", ReportSeverity::Low, ReportPriority::Urgent, Some(10), ReportStatus::Created)).unwrap();
    db.insert_report(&report("c", ReportSeverity::High, ReportPriority::Low, None, ReportStatus::Escalated { escalated_at: None })).unwrap();
    db.insert_report(&report("b", ReportSeverity::High, ReportPriority::High, Some(90), ReportStatus::Created)).unwrap();
    db.insert_report(&report("d", ReportSeverity::Critical, ReportPriority::Normal, Some(50), ReportStatus::Resolved { closed_at: None })).unwrap();
    db
}

fn ids(v: &[Report]) -> Vec<&str> {
    v.iter().map(|r| r.id.as_str()).collect()
}

#[test]
fn the_queue_is_newest_first_by_default() {
    let r = list_reports(&db(), &staff(), &query()).unwrap();
    assert_eq!(r.total, 4);
    assert_eq!(ids(&r.reports), vec!["d", "c", "b", "a"]);
}

#[test]
fn the_queue_orders_by_risk_priority_or_age() {
    let mut q = query();
    q.sort = Some("risk_desc".to_owned());
    assert_eq!(ids(&list_reports(&db(), &staff(), &q).unwrap().reports), vec!["b", "d", "a", "c"]);
    q.sort = Some("priority_desc".to_owned());
    assert_eq!(ids(&list_reports(&db(), &staff(), &q).unwrap().reports), vec!["a", "b", "d", "c"]);
    q.sort = Some("oldest".to_owned());
    assert_eq!(ids(&list_reports(&db(), &staff(), &q).unwrap().reports), vec!["a", "b", "c", "d"]);
}

#[test]
fn the_queue_filters_then_pages() {
    let mut q = query();
    q.severity = Some("high".to_owned());
    let r = list_reports(&db(), &staff(), &q).unwrap();
    assert_eq!(ids(&r.reports), vec!["c", "b"]);
    q.status = Some("created".to_owned());
    assert_eq!(ids(&list_reports(&db(), &staff(), &q).unwrap().reports), vec!["b"]);
    let mut q = query();
    q.assignee_id = Some("mod1".to_owned());
    assert_eq!(ids(&list_reports(&db(), &staff(), &q).unwrap().reports), vec!["b"]);
    let mut q = query();
    q.offset = Some(1);
    q.limit = Some(2);
    let r = list_reports(&db(), &staff(), &q).unwrap();
    assert_eq!(r.total, 4);
    assert_eq!(ids(&r.reports), vec!["c", "b"]);
    q.limit = Some(0);
    assert_eq!(list_reports(&db(), &staff(), &q).unwrap().reports.len(), 1);
    q.offset = Some(10);
    assert!(list_reports(&db(), &staff(), &q).unwrap().reports.is_empty());
}

#[test]
fn the_queue_refuses_bad_filters_and_outsiders() {
    let mut q = query();
    q.priority = Some("asap".to_owned());
    match list_reports(&db(), &staff(), &q) {
        Err(ApiError::FailedValidation { error }) => assert_eq!(error, "Invalid priority filter: asap"),
        other => panic!("unexpected {:?}", other.map(|r| r.total)),
    }
    let mut outsider = staff();
    outsider.platform_admin_role = None;
    assert!(matches!(list_reports(&db(), &outsider, &query()), Err(ApiError::NotPrivileged)));
}

#[test]
fn the_dashboard_counts_by_status() {
    let d = reports_dashboard(&db(), &staff()).unwrap();
    assert_eq!(d.total, 4);
    assert_eq!(d.created, 2);
    assert_eq!(d.escalated, 1);
    assert_eq!(d.resolved, 1);
    assert_eq!(d.in_review, 0);
    assert_eq!(d.rejected, 0);
    assert_eq!(d.created + d.in_review + d.escalated + d.resolved + d.rejected, d.total);
}

#[test]
fn sorting_keeps_ties_in_order() {
    let v = vec![
        report("x1", ReportSeverity::Low, ReportPriority::High, None, ReportStatus::Created),
        report("x2", ReportSeverity::Low, ReportPriority::Low, None, ReportStatus::Created),
        report("x3", ReportSeverity::Low, ReportPriority::High, None, ReportStatus::Created),
    ];
    let sorted = sort_queue(v, QueueOrder::PriorityDesc);
    assert_eq!(ids(&sorted), vec!["x1", "x3", "x2"]);
    assert_eq!(queue_order(Some("bogus")), QueueOrder::Newest);
    assert!(text_le("01A", "01B"));
    assert!(!text_le("b", "a"));
    assert!(text_le("ab", "abc"));
}
