use delta::error::ApiError;
use delta::filing::{
    check_report_request, dedupe_key, file_report_at, plan_snapshots, report_content, report_context_for, DataReportContent, FoundContent,
    SnapshotSource,
};
use delta::reports::{
    ContentReportReason, ReportContext, ReportPriority, ReportSeverity, ReportStatus, ReportedContent, UserReportReason,
};
use delta::store::ReferenceDb;
use delta::users::User;
use iso8601_timestamp::Timestamp;

fn user(id: &str) -> User {
    User {
        id: id.to_owned(),
        username: id.to_owned(),
        discriminator: "0001".to_owned(),
        display_name: None,
        privileged: false,
        platform_admin_role: None,
        platform_permissions: None,
        badges: None,
        flags: None,
        profile: None,
        bot: false,
    }
}

fn data(context: &str) -> DataReportContent {
    DataReportContent {
        content: ReportedContent::Message { id: "m1".to_owned(), report_reason: ContentReportReason::Harassment },
        additional_context: context.to_owned(),
        severity: None,
        priority: Some(ReportPriority::High),
        risk_score: Some(101),
        confidence_score: Some(100),
        reporter_metadata: None,
    }
}

fn message_by(author: &str) -> FoundContent {
    FoundContent::Message { author_id: author.to_owned(), channel_id: "c1".to_owned(), attachment_count: 2 }
}

fn at(s: &str) -> Timestamp {
    Timestamp::parse(s).unwrap()
}

fn context() -> ReportContext {
    ReportContext::Message { message_id: "m1".to_owned(), channel_id: Some("c1".to_owned()), server_id: None, attachment_count: 2 }
}

#[test]
fn requests_are_checked_before_lookup() {
    let u = user("u1");
    assert!(check_report_request(&u, &data("fine")).is_ok());
    let long = "x".repeat(1001);
    assert!(matches!(check_report_request(&u, &data(&long)), Err(ApiError::FailedValidation { .. })));
    let exactly = "é".repeat(1000);
    assert!(check_report_request(&u, &data(&exactly)).is_ok());
    let mut bot = user("b1");
    bot.bot = true;
    assert!(matches!(check_report_request(&bot, &data("x")), Err(ApiError::IsBot)));
}

#[test]
fn nobody_reports_themselves() {
    let u = user("u1");
    let content = ReportedContent::Message { id: "m1".to_owned(), report_reason: ContentReportReason::Illegal };
    assert!(matches!(report_context_for(&u, &content, &message_by("u1")), Err(ApiError::CannotReportYourself)));
    let c = report_context_for(&u, &content, &message_by("u2")).unwrap();
    assert!(matches!(c, ReportContext::Message { ref message_id, channel_id: Some(ref ch), server_id: None, attachment_count: 2 } if message_id == "m1" && ch == "c1"));
    let me = ReportedContent::User { id: "u1".to_owned(), report_reason: UserReportReason::Impersonation, message_id: None };
    assert!(matches!(report_context_for(&u, &me, &FoundContent::User { user_id: "u1".to_owned() }), Err(ApiError::CannotReportYourself)));
    let server = ReportedContent::Server { id: "s1".to_owned(), report_reason: ContentReportReason::Raid };
    let c = report_context_for(&u, &server, &FoundContent::Server { owner_id: "u1".to_owned() }).unwrap();
    assert!(matches!(c, ReportContext::Server { ref server_id, owner_id: Some(ref o) } if server_id == "s1" && o == "u1"));
}

#[test]
fn the_collapse_key_ignores_case_and_surrounding_space() {
    assert_eq!(dedupe_key("u1", &data("  Spam LINKS ")), "u1::Message:m1::spam links");
    let server = DataReportContent {
        content: ReportedContent::Server { id: "s9".to_owned(), report_reason: ContentReportReason::Raid },
        ..data("")
    };
    assert_eq!(dedupe_key("u2", &server), "u2::Server:s9::");
}

#[test]
fn a_new_report_is_filed_with_its_snapshots() {
    let mut db = ReferenceDb::new();
    let u = user("u1");
    let now = at("2024-06-01T10:00:00Z");
    let later = at("2024-06-01T10:00:01Z");
    let r = file_report_at(
        &mut db, &u, data(" Hi "), context(), vec!["{\"a\":1}".to_owned()], "R1".to_owned(), vec!["S1".to_owned()], now, later,
    )
    .unwrap()
    .unwrap();
    assert_eq!(r.id, "R1");
    assert_eq!(r.severity, ReportSeverity::Medium);
    assert_eq!(r.priority, ReportPriority::High);
    assert_eq!(r.risk_score, None);
    assert_eq!(r.confidence_score, Some(100));
    assert_eq!(r.dedupe_key.as_deref(), Some("u1::Message:m1::hi"));
    assert_eq!(r.created_at, Some(now));
    assert_eq!(r.last_transition_at, Some(later));
    assert_eq!(r.updated_at, None);
    assert!(matches!(r.status, ReportStatus::Created));
    assert_eq!(db.fetch_report("R1").unwrap().author_id, "u1");
    let snaps = db.fetch_snapshots_by_report("R1").unwrap();
    assert_eq!(snaps.len(), 1);
    assert_eq!(snaps[0].id, "S1");
    assert_eq!(snaps[0].content, "{\"a\":1}");
}

#[test]
fn a_repeated_report_collapses_into_the_open_one() {
    let mut db = ReferenceDb::new();
    let u = user("u1");
    let now = at("2024-06-01T10:00:00Z");
    file_report_at(&mut db, &u, data("spam"), context(), vec![], "R1".to_owned(), vec![], now, now).unwrap();
    let later = at("2024-06-01T11:00:00Z");
    let r = file_report_at(&mut db, &u, data(" SPAM "), context(), vec!["x".to_owned()], "R2".to_owned(), vec!["S2".to_owned()], later, later).unwrap();
    assert!(r.is_none());
    assert!(matches!(db.fetch_report("R2"), Err(ApiError::NotFound)));
    let first = db.fetch_report("R1").unwrap();
    assert_eq!(first.related_report_ids, vec!["R2".to_owned()]);
    assert_eq!(first.updated_at, Some(later));
    assert!(db.fetch_snapshots_by_report("R2").unwrap().is_empty());
    let other = file_report_at(&mut db, &user("u2"), data("spam"), context(), vec![], "R3".to_owned(), vec![], later, later).unwrap();
    assert!(other.is_some());
}

#[test]
fn a_closed_report_does_not_collapse_new_ones() {
    let mut db = ReferenceDb::new();
    let u = user("u1");
    let now = at("2024-06-01T10:00:00Z");
    let mut first = file_report_at(&mut db, &u, data("spam"), context(), vec![], "R1".to_owned(), vec![], now, now).unwrap().unwrap();
    first.status = ReportStatus::Resolved { closed_at: Some(now) };
    db.update_report("R1", &first).unwrap();
    let r = file_report_at(&mut db, &u, data("spam"), context(), vec![], "R2".to_owned(), vec![], now, now).unwrap();
    assert!(r.is_some());
}

#[test]
fn taken_ids_are_the_stores_refusal() {
    let mut db = ReferenceDb::new();
    let u = user("u1");
    let now = at("2024-06-01T10:00:00Z");
    let twice = file_report_at(&mut db, &u, data("a"), context(), vec!["x".to_owned(), "y".to_owned()], "R1".to_owned(), vec!["S".to_owned(), "S".to_owned()], now, now);
    assert!(matches!(twice, Err(ApiError::DatabaseError { ref collection, .. }) if collection == "snapshot"));
    assert!(matches!(db.fetch_report("R1"), Err(ApiError::NotFound)));
    let kept = db.fetch_snapshots_by_report("R1").unwrap();
    assert_eq!(kept.len(), 1);
    assert_eq!(kept[0].content, "x");
    let taken = file_report_at(&mut db, &u, data("b"), context(), vec!["z".to_owned()], "R2".to_owned(), vec!["S".to_owned()], now, now);
    assert!(matches!(taken, Err(ApiError::DatabaseError { ref collection, .. }) if collection == "snapshot"));
    let mut other = ReferenceDb::new();
    file_report_at(&mut other, &u, data("c"), context(), vec![], "R9".to_owned(), vec![], now, now).unwrap();
    let again = file_report_at(&mut other, &user("u5"), data("c"), context(), vec![], "R9".to_owned(), vec![], now, now);
    assert!(matches!(again, Err(ApiError::DatabaseError { ref collection, .. }) if collection == "report"));
}

#[test]
fn filing_with_fresh_ids_and_the_clock() {
    let mut db = ReferenceDb::new();
    let u = user("u1");
    let primary = source("message m1", &["a1", "a2"]);
    let stray = Some(source("other", &["g"]));
    let r = report_content(&mut db, &u, data("abuse"), &message_by("u2"), &primary, &stray).unwrap().unwrap();
    assert_eq!(r.id.len(), 26);
    let snaps = db.fetch_snapshots_by_report(&r.id).unwrap();
    assert_eq!(snaps.len(), 1);
    assert_eq!(snaps[0].content, "message m1");
    assert_eq!(snaps[0].id.len(), 26);
    assert!(matches!(r.report_context, Some(ReportContext::Message { attachment_count: 2, .. })));
    assert!(matches!(report_content(&mut db, &u, data("abuse"), &message_by("u1"), &primary, &None), Err(ApiError::CannotReportYourself)));
    let again = report_content(&mut db, &u, data("ABUSE"), &message_by("u2"), &primary, &None).unwrap();
    assert!(again.is_none());
}

fn source(content: &str, files: &[&str]) -> SnapshotSource {
    SnapshotSource { content: content.to_owned(), files: files.iter().map(|f| (*f).to_owned()).collect() }
}

#[test]
fn a_report_keeps_the_linked_message_only_for_a_user_that_names_one() {
    let linked_user = ReportedContent::User { id: "u2".to_owned(), report_reason: UserReportReason::SpamAbuse, message_id: Some("m9".to_owned()) };
    let (snaps, files) = plan_snapshots(&linked_user, &source("user u2", &["avatar"]), &Some(source("message m9", &["a1", "a2"])));
    assert_eq!(snaps, vec!["user u2".to_owned(), "message m9".to_owned()]);
    assert_eq!(files, vec!["avatar".to_owned(), "a1".to_owned(), "a2".to_owned()]);
    let (snaps, files) = plan_snapshots(&linked_user, &source("user u2", &["avatar"]), &None);
    assert_eq!(snaps, vec!["user u2".to_owned()]);
    assert_eq!(files, vec!["avatar".to_owned()]);
    let plain_user = ReportedContent::User { id: "u2".to_owned(), report_reason: UserReportReason::SpamAbuse, message_id: None };
    let (snaps, _) = plan_snapshots(&plain_user, &source("user u2", &[]), &Some(source("message m9", &["a1"])));
    assert_eq!(snaps, vec!["user u2".to_owned()]);
    let message = ReportedContent::Message { id: "m1".to_owned(), report_reason: ContentReportReason::SpamAbuse };
    let (snaps, files) = plan_snapshots(&message, &source("message m1", &["f"]), &Some(source("other", &["g"])));
    assert_eq!(snaps, vec!["message m1".to_owned()]);
    assert_eq!(files, vec!["f".to_owned()]);
}

#[test]
fn a_user_report_keeps_the_linked_message_with_the_new_report() {
    let mut db = ReferenceDb::new();
    let u = user("u1");
    let mut d = data("impersonating me");
    d.content = ReportedContent::User { id: "u2".to_owned(), report_reason: UserReportReason::Impersonation, message_id: Some("m9".to_owned()) };
    let found = FoundContent::User { user_id: "u2".to_owned() };
    let r = report_content(&mut db, &u, d, &found, &source("user u2", &[]), &Some(source("message m9", &["a1"]))).unwrap().unwrap();
    let snaps = db.fetch_snapshots_by_report(&r.id).unwrap();
    assert_eq!(snaps.iter().map(|s| s.content.as_str()).collect::<Vec<_>>(), vec!["user u2", "message m9"]);
    assert!(snaps.iter().all(|s| s.report_id == r.id));
    assert_ne!(snaps[0].id, snaps[1].id);
    let mut d = data("spam bot");
    d.content = ReportedContent::User { id: "u3".to_owned(), report_reason: UserReportReason::Impersonation, message_id: Some("m404".to_owned()) };
    let found = FoundContent::User { user_id: "u3".to_owned() };
    let r = report_content(&mut db, &u, d, &found, &source("user u3", &[]), &None).unwrap().unwrap();
    assert_eq!(db.fetch_snapshots_by_report(&r.id).unwrap().len(), 1);
}
