use delta::error::ApiError;
use delta::reports::{
    apply_report_status, apply_report_status_at, default_report_priority, default_report_severity, kind_of,
    parse_priority, parse_severity, parse_status, report_action_permission, ContentReportReason, Report,
    ReportPriority, ReportSeverity, ReportStatus, ReportStatusString, ReportedContent,
};
use delta::workflow::status_debug;
use iso8601_timestamp::Timestamp;

fn report(id: &str) -> Report {
    Report {
        id: id.to_owned(),
        author_id: "author".to_owned(),
        content: ReportedContent::Message { id: "m1".to_owned(), report_reason: ContentReportReason::SpamAbuse },
        additional_context: String::new(),
        report_context: None,
        reporter_metadata: None,
        severity: ReportSeverity::Medium,
        priority: ReportPriority::Normal,
        risk_score: None,
        confidence_score: None,
        dedupe_key: None,
        related_report_ids: Vec::new(),
        created_at: None,
        updated_at: None,
        last_transition_at: None,
        resolved_at: None,
        sla_deadline: None,
        breach_state: false,
        status: ReportStatus::Created,
        notes: String::new(),
        assignee_id: None,
        reviewer_id: None,
    }
}

fn at(s: &str) -> Timestamp {
    Timestamp::parse(s).unwrap()
}

#[test]
fn defaults_are_medium_and_normal() {
    assert_eq!(default_report_severity(), ReportSeverity::Medium);
    assert_eq!(default_report_priority(), ReportPriority::Normal);
}

#[test]
fn filters_accept_both_spellings() {
    assert_eq!(parse_severity(Some("critical")).unwrap(), Some(ReportSeverity::Critical));
    assert_eq!(parse_severity(Some("High")).unwrap(), Some(ReportSeverity::High));
    assert_eq!(parse_severity(None).unwrap(), None);
    assert_eq!(parse_priority(Some("urgent")).unwrap(), Some(ReportPriority::Urgent));
    assert_eq!(parse_status(Some("in-review")).unwrap(), Some(ReportStatusString::InReview));
    assert_eq!(parse_status(Some("Rejected")).unwrap(), Some(ReportStatusString::Rejected));
}

#[test]
fn unknown_filters_are_named_in_the_error() {
    match parse_severity(Some("HIGH")) {
        Err(ApiError::FailedValidation { error }) => assert_eq!(error, "Invalid severity filter: HIGH"),
        other => panic!("unexpected {other:?}"),
    }
    match parse_priority(Some("soon")) {
        Err(ApiError::FailedValidation { error }) => assert_eq!(error, "Invalid priority filter: soon"),
        other => panic!("unexpected {other:?}"),
    }
    match parse_status(Some("closed")) {
        Err(ApiError::FailedValidation { error }) => assert_eq!(error, "Invalid status filter: closed"),
        other => panic!("unexpected {other:?}"),
    }
}

#[test]
fn actions_map_to_their_permissions() {
    assert_eq!(report_action_permission("ack"), "reports.assign");
    assert_eq!(report_action_permission("in_review"), "reports.assign");
    assert_eq!(report_action_permission("escalate_tier2"), "reports.escalate");
    assert_eq!(report_action_permission("close_no_action"), "reports.resolve");
    assert_eq!(report_action_permission("reject"), "reports.reject");
    assert_eq!(report_action_permission("merge_duplicate"), "reports.actions.write");
    assert_eq!(report_action_permission("something_else"), "reports.actions.write");
}

#[test]
fn transitions_stamp_the_times() {
    let now = at("2024-05-01T12:00:00Z");
    let mut r = report("r1");
    apply_report_status_at(&mut r, ReportStatusString::Escalated, None, now).unwrap();
    assert!(matches!(r.status, ReportStatus::Escalated { escalated_at: Some(t) } if t == now));
    assert_eq!(r.last_transition_at, Some(now));
    assert_eq!(r.updated_at, Some(now));
    assert_eq!(r.resolved_at, None);
    apply_report_status_at(&mut r, ReportStatusString::Resolved, None, now).unwrap();
    assert_eq!(r.resolved_at, Some(now));
    assert_eq!(kind_of(&r.status), ReportStatusString::Resolved);
}

#[test]
fn a_rejection_needs_a_reason() {
    let now = at("2024-05-01T12:00:00Z");
    let mut r = report("r1");
    match apply_report_status_at(&mut r, ReportStatusString::Rejected, Some("   ".to_owned()), now) {
        Err(ApiError::FailedValidation { error }) => assert_eq!(error, "rejection_reason is required"),
        other => panic!("unexpected {other:?}"),
    }
    assert!(matches!(r.status, ReportStatus::Created));
    assert_eq!(r.resolved_at, Some(now));
    apply_report_status_at(&mut r, ReportStatusString::Rejected, Some("spam".to_owned()), now).unwrap();
    assert!(matches!(&r.status, ReportStatus::Rejected { rejection_reason, .. } if rejection_reason == "spam"));
}

#[test]
fn transitions_at_the_current_time_read_the_clock() {
    let mut r = report("r1");
    apply_report_status(&mut r, ReportStatusString::InReview, None).unwrap();
    let t = r.last_transition_at.unwrap();
    assert!(t > at("2020-01-01T00:00:00Z"));
    assert_eq!(r.updated_at, Some(t));
}

#[test]
fn statuses_read_as_their_debug_text() {
    let now = at("2024-05-01T12:00:00Z");
    assert_eq!(status_debug(&ReportStatus::Created), "Created");
    let s = ReportStatus::InReview { assigned_at: Some(now) };
    assert_eq!(status_debug(&s), format!("{:?}", s));
    assert_eq!(status_debug(&s), "InReview { assigned_at: Some(Timestamp(\"2024-05-01T12:00:00.000000000Z\")) }");
    let rejected = ReportStatus::Rejected { rejection_reason: "said \"no\"".to_owned(), closed_at: None };
    assert_eq!(status_debug(&rejected), "Rejected { rejection_reason: \"said \\\"no\\\"\", closed_at: None }");
    assert_eq!(status_debug(&ReportStatus::Resolved { closed_at: None }), "Resolved { closed_at: None }");
}
