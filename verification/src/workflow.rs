//! The moderation workflow: staff reviews of reports and the workflow actions
//! on them, each stored and recorded in the audit log.
use vstd::prelude::*;

use iso8601_timestamp::Timestamp;

use crate::audit::{entry_selected, lemma_same_entries_filter, logged, same_entries, timeline_entries, AuditEntry, AuditLog, EntryFilter};
use crate::error::ApiError;
use crate::permissions::{ensure_permission, spec_has_permission, PERM_REPORTS_READ, PERM_REPORTS_REVIEW, PERM_REPORTS_TIMELINE_READ};
use crate::reports::{
    apply_report_status_at, is_present_text, keeps_case, now_utc, present_text, report_action_permission,
    same_report, spec_action_permission, status_for, Report, ReportStatus, ReportStatusString, Snapshot,
};
use crate::store::{report_replaced, snapshots_of, stored_report, ReferenceDb};
use crate::strmap::StrMap;
use crate::text::{concat, owned, str_eq};
use crate::users::{holds, views, User};

verus! {

/// What `format!("{:?}", t)` writes for the timestamp `t`.
pub uninterp spec fn timestamp_debug_text(t: Timestamp) -> Seq<char>;

/// The `Debug` text of a timestamp.
///
/// Formats `t` with `<iso8601_timestamp::Timestamp as Debug>::fmt`, which the
/// crate writes as `Timestamp("…")` around the nanosecond ISO 8601 text; the
/// result is named `timestamp_debug_text`, a function of `t` alone.
#[verifier::external_body]
fn timestamp_debug(t: &Timestamp) -> (s: String)
    ensures
        s@ == timestamp_debug_text(*t),
{
    format!("{:?}", t)
}

/// What `format!("{:?}", s)` writes for the text `s`: quoted, with escapes.
pub uninterp spec fn quoted_text(s: Seq<char>) -> Seq<char>;

/// The `Debug` text of a string.
///
/// Formats `s` with `<str as Debug>::fmt`, which quotes it and escapes what
/// `char::escape_debug` escapes; the result is named `quoted_text`, a function
/// of the text alone.
#[verifier::external_body]
fn quoted(s: &str) -> (r: String)
    ensures
        r@ == quoted_text(s@),
{
    format!("{:?}", s)
}

/// The `Debug` text of an optional timestamp.
pub open spec fn time_text(t: Option<Timestamp>) -> Seq<char> {
    match t {
        None => "None"@,
        Some(t) => "Some("@ + timestamp_debug_text(t) + ")"@,
    }
}

/// The `Debug` text of a status, as the audit log records it.
pub open spec fn status_text(s: ReportStatus) -> Seq<char> {
    match s {
        ReportStatus::Created => "Created"@,
        ReportStatus::InReview { assigned_at } => "InReview { assigned_at: "@ + time_text(assigned_at) + " }"@,
        ReportStatus::Escalated { escalated_at } => "Escalated { escalated_at: "@ + time_text(escalated_at) + " }"@,
        ReportStatus::Rejected { rejection_reason, closed_at } => "Rejected { rejection_reason: "@ + quoted_text(rejection_reason@)
            + ", closed_at: "@ + time_text(closed_at) + " }"@,
        ReportStatus::Resolved { closed_at } => "Resolved { closed_at: "@ + time_text(closed_at) + " }"@,
    }
}

fn time_debug(t: &Option<Timestamp>) -> (s: String)
    ensures
        s@ == time_text(*t),
{
    match t {
        None => owned("None"),
        Some(t) => {
            let inner = timestamp_debug(t);
            let head = concat("Some(", inner.as_str());
            concat(head.as_str(), ")")
        },
    }
}

/// The `Debug` text of a status.
pub fn status_debug(s: &ReportStatus) -> (t: String)
    ensures
        t@ == status_text(*s),
{
    match s {
        ReportStatus::Created => owned("Created"),
        ReportStatus::InReview { assigned_at } => {
            let a = concat("InReview { assigned_at: ", time_debug(assigned_at).as_str());
            concat(a.as_str(), " }")
        },
        ReportStatus::Escalated { escalated_at } => {
            let a = concat("Escalated { escalated_at: ", time_debug(escalated_at).as_str());
            concat(a.as_str(), " }")
        },
        ReportStatus::Rejected { rejection_reason, closed_at } => {
            let a = concat("Rejected { rejection_reason: ", quoted(rejection_reason.as_str()).as_str());
            let b = concat(a.as_str(), ", closed_at: ");
            let c = concat(b.as_str(), time_debug(closed_at).as_str());
            concat(c.as_str(), " }")
        },
        ReportStatus::Resolved { closed_at } => {
            let a = concat("Resolved { closed_at: ", time_debug(closed_at).as_str());
            concat(a.as_str(), " }")
        },
    }
}

/// A review of a report: the status it moves to, with optional notes, assignee
/// and reasons.
pub struct DataReviewReport {
    pub status: ReportStatusString,
    pub notes: Option<String>,
    pub assignee_id: Option<String>,
    pub rejection_reason: Option<String>,
    pub resolution_reason: Option<String>,
}

/// Whether `after` is `before` once the staff member `staff` has applied the
/// review `data` at `now`.
///
/// The status moves as `status_for` says; `staff` is recorded in `reviewer_id`;
/// notes that are given replace the old ones. An assignee that is given is
/// taken, and a report moved into review without one is assigned to `staff`;
/// otherwise the assignee stays.
pub open spec fn reviewed(before: Report, after: Report, data: DataReviewReport, staff: String, now: Timestamp) -> bool {
    let status = status_for(data.status, now, data.rejection_reason);
    &&& after.status == status
    &&& after.last_transition_at == Some(now)
    &&& after.updated_at == Some(now)
    &&& after.resolved_at == (if data.status == ReportStatusString::Resolved || data.status == ReportStatusString::Rejected {
        Some(now)
    } else {
        before.resolved_at
    })
    &&& keeps_case(before, after)
    &&& after.related_report_ids@ == before.related_report_ids@
    &&& after.reviewer_id == Some(staff)
    &&& after.notes == (match data.notes {
        Some(n) => n,
        None => before.notes,
    })
    &&& after.assignee_id == (if data.assignee_id is Some || status is InReview {
        match data.assignee_id {
            Some(a) => Some(a),
            None => Some(staff),
        }
    } else {
        before.assignee_id
    })
}

/// What a review of the report `id` by `user` at `now` does, `r` being its answer.
///
/// Without the review permission it is refused; a report that is not stored is
/// `NotFound`; a rejection without a reason that is not blank is a validation
/// error. A refused review changes nothing. Otherwise the stored report is
/// replaced by the reviewed one, which is answered, and the review is recorded
/// in the audit log with the new status.
pub open spec fn review_outcome(db0: ReferenceDb, db1: ReferenceDb, log0: Seq<AuditEntry>, log1: Seq<AuditEntry>, user: User, id: Seq<char>, data: DataReviewReport, now: Timestamp, r: Result<Report, ApiError>) -> bool {
    let allowed = spec_has_permission(user, PERM_REPORTS_REVIEW@);
    let stored = stored_report(db0, id);
    let reason_ok = data.status != ReportStatusString::Rejected || present_text(data.rejection_reason);
    &&& !allowed ==> (r matches Err(e) && e is NotPrivileged)
    &&& allowed && stored is None ==> (r matches Err(e) && e is NotFound)
    &&& allowed && stored is Some && !reason_ok ==> (r matches Err(e) && e.is_validation("rejection_reason is required"@))
    &&& r is Err ==> db1 == db0 && log1 == log0
    &&& allowed && stored is Some && reason_ok ==> (r matches Ok(after) && {
        &&& reviewed(stored->Some_0, after, data, user.id, now)
        &&& report_replaced(db0, db1, id, after)
        &&& logged(log0, log1, user.id@, "report.review"@, id, map!["status"@ => status_text(after.status)])
    })
}

/// Applies the review `data` of the report `id` by `user` at time `now`, as
/// `review_outcome` states.
pub fn review_report_at(db: &mut ReferenceDb, log: &mut AuditLog, user: &User, id: &str, data: DataReviewReport, now: Timestamp) -> (r: Result<Report, ApiError>)
    requires
        old(db).wf(),
    ensures
        final(db).wf(),
        review_outcome(*old(db), *final(db), old(log).view(), final(log).view(), *user, id@, data, now, r),
{
    match ensure_permission(user, PERM_REPORTS_REVIEW) {
        Ok(()) => {},
        Err(e) => return Err(e),
    }
    let mut report = match db.fetch_report(id) {
        Ok(rep) => rep,
        Err(e) => return Err(e),
    };
    match apply_report_status_at(&mut report, data.status, data.rejection_reason, now) {
        Ok(()) => {},
        Err(e) => return Err(e),
    }
    report.reviewer_id = Some(user.id.clone());
    match data.notes {
        Some(notes) => {
            report.notes = notes;
        },
        None => {},
    }
    let in_review = match report.status {
        ReportStatus::InReview { .. } => true,
        _ => false,
    };
    if data.assignee_id.is_some() || in_review {
        report.assignee_id = match data.assignee_id {
            Some(a) => Some(a),
            None => Some(user.id.clone()),
        };
    }
    let mut meta: StrMap<String> = StrMap::new();
    meta.insert(owned("status"), status_debug(&report.status));
    log.record(user.id.clone(), owned("report.review"), owned(id), meta);
    match db.update_report(id, &report) {
        Ok(()) => {},
        Err(e) => return Err(e),
    }
    Ok(report)
}

/// Applies the review `data` of the report `id` by `user` at the current time,
/// as `review_outcome` states for the time that was read.
pub fn review_report(db: &mut ReferenceDb, log: &mut AuditLog, user: &User, id: &str, data: DataReviewReport) -> (r: Result<Report, ApiError>)
    requires
        old(db).wf(),
    ensures
        final(db).wf(),
        exists|now: Timestamp| #[trigger] review_outcome(*old(db), *final(db), old(log).view(), final(log).view(), *user, id@, data, now, r),
{
    let now = now_utc();
    review_report_at(db, log, user, id, data, now)
}

/// A workflow action on a report, with its optional reason, assignee and
/// report to merge into.
pub struct DataReportAction {
    pub action: String,
    pub reason: Option<String>,
    pub assignee_id: Option<String>,
    pub merge_into: Option<String>,
}

/// The workflow actions that exist.
pub open spec fn known_action(a: Seq<char>) -> bool {
    ||| a == "ack"@
    ||| a == "in_review"@
    ||| a == "escalate"@
    ||| a == "escalate_tier2"@
    ||| a == "resolve"@
    ||| a == "close_no_action"@
    ||| a == "reject"@
    ||| a == "reopen"@
    ||| a == "merge_duplicate"@
    ||| a == "request_more_info"@
}

/// The validation error that the action `data` meets, if any: a rejection
/// without a reason, a merge without a report to merge into (each not blank),
/// or an action that does not exist.
pub open spec fn action_refusal(data: DataReportAction) -> Option<Seq<char>> {
    let a = data.action@;
    if a == "reject"@ && !present_text(data.reason) {
        Some("reason is required for reject"@)
    } else if a == "merge_duplicate"@ && !present_text(data.merge_into) {
        Some("merge_into is required for merge_duplicate"@)
    } else if !known_action(a) {
        Some("Unknown report action: "@ + a)
    } else {
        None
    }
}

/// The status that the action `a` leaves on a report whose status was `before`.
pub open spec fn action_status(a: Seq<char>, reason: Option<String>, before: ReportStatus, now: Timestamp) -> ReportStatus {
    if a == "ack"@ || a == "in_review"@ {
        ReportStatus::InReview { assigned_at: Some(now) }
    } else if a == "escalate"@ || a == "escalate_tier2"@ {
        ReportStatus::Escalated { escalated_at: Some(now) }
    } else if a == "resolve"@ || a == "close_no_action"@ {
        ReportStatus::Resolved { closed_at: Some(now) }
    } else if a == "reject"@ {
        ReportStatus::Rejected { rejection_reason: reason->Some_0, closed_at: Some(now) }
    } else if a == "reopen"@ {
        ReportStatus::Created
    } else {
        before
    }
}

/// Whether `after` is `before` once `actor` has taken the action `data` on the
/// report `id` at `now` (an action that `action_refusal` lets through).
///
/// Every action stamps the update time and records the actor in `reviewer_id`;
/// the transition time is stamped by the actions that move the status (all but
/// a merge and a request for more information, which keep it). Taking a report
/// into review assigns it to the given assignee, else to the actor; closing
/// actions set the resolution time, reopening clears it;
/// closing without action and asking for more information note the reason when
/// one is given; a merge adds the report to merge into to the related reports,
/// unless it is the report itself or already there.
pub open spec fn acted(before: Report, after: Report, data: DataReportAction, actor: String, id: Seq<char>, now: Timestamp) -> bool {
    let a = data.action@;
    let merge = data.merge_into->Some_0;
    &&& after.updated_at == Some(now)
    &&& after.last_transition_at == (if a == "merge_duplicate"@ || a == "request_more_info"@ {
        before.last_transition_at
    } else {
        Some(now)
    })
    &&& after.reviewer_id == Some(actor)
    &&& keeps_case(before, after)
    &&& after.status == action_status(a, data.reason, before.status, now)
    &&& after.resolved_at == (if a == "resolve"@ || a == "close_no_action"@ || a == "reject"@ {
        Some(now)
    } else if a == "reopen"@ {
        None
    } else {
        before.resolved_at
    })
    &&& after.assignee_id == (if a == "ack"@ || a == "in_review"@ {
        match data.assignee_id {
            Some(x) => Some(x),
            None => Some(actor),
        }
    } else {
        before.assignee_id
    })
    &&& after.notes@ == (if a == "close_no_action"@ && data.reason is Some {
        "No action closure reason: "@ + data.reason->Some_0@
    } else if a == "request_more_info"@ && data.reason is Some {
        "Requested additional info: "@ + data.reason->Some_0@
    } else {
        before.notes@
    })
    &&& after.related_report_ids@ == (if a == "merge_duplicate"@ && merge@ != id && !views(before.related_report_ids@).contains(merge@) {
        before.related_report_ids@.push(merge)
    } else {
        before.related_report_ids@
    })
}

/// The names of the workflow actions are told apart by their lengths, and the
/// two pairs of equal length by one character.
proof fn lemma_action_names()
    ensures
        "ack"@.len() == 3,
        "in_review"@.len() == 9,
        "escalate"@.len() == 8,
        "escalate_tier2"@.len() == 14,
        "resolve"@.len() == 7,
        "close_no_action"@.len() == 15,
        "reject"@.len() == 6,
        "reopen"@.len() == 6,
        "merge_duplicate"@.len() == 15,
        "request_more_info"@.len() == 17,
        "reject"@[2] != "reopen"@[2],
        "close_no_action"@[0] != "merge_duplicate"@[0],
{
    reveal_strlit("ack");
    reveal_strlit("in_review");
    reveal_strlit("escalate");
    reveal_strlit("escalate_tier2");
    reveal_strlit("resolve");
    reveal_strlit("close_no_action");
    reveal_strlit("reject");
    reveal_strlit("reopen");
    reveal_strlit("merge_duplicate");
    reveal_strlit("request_more_info");
}

/// What the workflow action `data` on the report `id` by `user` at `now` does,
/// `r` being its answer.
///
/// It needs the permission that `spec_action_permission` names for the action;
/// a report that is not stored is `NotFound`; an action that `action_refusal`
/// refuses is a validation error with that message. A refused action changes
/// nothing. Otherwise the stored report is replaced by the acted one, which is
/// answered, and the action is recorded in the audit log with its reason, or
/// `none`.
pub open spec fn action_outcome(db0: ReferenceDb, db1: ReferenceDb, log0: Seq<AuditEntry>, log1: Seq<AuditEntry>, user: User, id: Seq<char>, data: DataReportAction, now: Timestamp, r: Result<Report, ApiError>) -> bool {
    let allowed = spec_has_permission(user, spec_action_permission(data.action@));
    let stored = stored_report(db0, id);
    &&& !allowed ==> (r matches Err(e) && e is NotPrivileged)
    &&& allowed && stored is None ==> (r matches Err(e) && e is NotFound)
    &&& allowed && stored is Some && action_refusal(data) is Some ==> (r matches Err(e) && e.is_validation(action_refusal(data)->Some_0))
    &&& r is Err ==> db1 == db0 && log1 == log0
    &&& allowed && stored is Some && action_refusal(data) is None ==> (r matches Ok(after) && {
        &&& acted(stored->Some_0, after, data, user.id, id, now)
        &&& report_replaced(db0, db1, id, after)
        &&& logged(log0, log1, user.id@, "report.action"@, id, map![
            "action"@ => data.action@,
            "reason"@ => (match data.reason {
                Some(x) => x@,
                None => "none"@,
            }),
        ])
    })
}

/// Takes the workflow action `data` on the report `id` as `user` at time `now`,
/// as `action_outcome` states.
pub fn report_action_at(db: &mut ReferenceDb, log: &mut AuditLog, user: &User, id: &str, data: DataReportAction, now: Timestamp) -> (r: Result<Report, ApiError>)
    requires
        old(db).wf(),
    ensures
        final(db).wf(),
        action_outcome(*old(db), *final(db), old(log).view(), final(log).view(), *user, id@, data, now, r),
{
    proof {
        lemma_action_names();
    }
    let permission = report_action_permission(data.action.as_str());
    match ensure_permission(user, permission) {
        Ok(()) => {},
        Err(e) => return Err(e),
    }
    let mut report = match db.fetch_report(id) {
        Ok(rep) => rep,
        Err(e) => return Err(e),
    };
    report.updated_at = Some(now);
    let a = data.action.as_str();
    let moves_status = !str_eq(a, "merge_duplicate") && !str_eq(a, "request_more_info");
    if moves_status {
        report.last_transition_at = Some(now);
    }
    if str_eq(a, "ack") || str_eq(a, "in_review") {
        report.status = ReportStatus::InReview { assigned_at: Some(now) };
        report.assignee_id = match &data.assignee_id {
            Some(x) => Some(x.clone()),
            None => Some(user.id.clone()),
        };
    } else if str_eq(a, "escalate") || str_eq(a, "escalate_tier2") {
        report.status = ReportStatus::Escalated { escalated_at: Some(now) };
    } else if str_eq(a, "resolve") {
        report.status = ReportStatus::Resolved { closed_at: Some(now) };
        report.resolved_at = Some(now);
    } else if str_eq(a, "close_no_action") {
        report.status = ReportStatus::Resolved { closed_at: Some(now) };
        report.resolved_at = Some(now);
        match &data.reason {
            Some(reason) => {
                report.notes = concat("No action closure reason: ", reason.as_str());
            },
            None => {},
        }
    } else if str_eq(a, "reject") {
        if !is_present_text(&data.reason) {
            return Err(ApiError::FailedValidation { error: owned("reason is required for reject") });
        }
        let reason = match &data.reason {
            Some(x) => x.clone(),
            None => String::new(),
        };
        report.status = ReportStatus::Rejected { rejection_reason: reason, closed_at: Some(now) };
        report.resolved_at = Some(now);
    } else if str_eq(a, "reopen") {
        report.status = ReportStatus::Created;
        report.resolved_at = None;
    } else if str_eq(a, "merge_duplicate") {
        if !is_present_text(&data.merge_into) {
            return Err(ApiError::FailedValidation { error: owned("merge_into is required for merge_duplicate") });
        }
        let merge = match &data.merge_into {
            Some(x) => x.clone(),
            None => String::new(),
        };
        if !str_eq(merge.as_str(), id) && !holds(&report.related_report_ids, merge.as_str()) {
            report.related_report_ids.push(merge);
        }
    } else if str_eq(a, "request_more_info") {
        match &data.reason {
            Some(reason) => {
                report.notes = concat("Requested additional info: ", reason.as_str());
            },
            None => {},
        }
    } else {
        return Err(ApiError::FailedValidation { error: concat("Unknown report action: ", a) });
    }
    report.reviewer_id = Some(user.id.clone());
    match db.update_report(id, &report) {
        Ok(()) => {},
        Err(e) => return Err(e),
    }
    let mut meta: StrMap<String> = StrMap::new();
    meta.insert(owned("action"), data.action.clone());
    let reason_text = match &data.reason {
        Some(x) => x.clone(),
        None => owned("none"),
    };
    meta.insert(owned("reason"), reason_text);
    log.record(user.id.clone(), owned("report.action"), owned(id), meta);
    Ok(report)
}

/// Takes the workflow action `data` on the report `id` as `user` at the current
/// time, as `action_outcome` states for the time that was read.
pub fn report_action(db: &mut ReferenceDb, log: &mut AuditLog, user: &User, id: &str, data: DataReportAction) -> (r: Result<Report, ApiError>)
    requires
        old(db).wf(),
    ensures
        final(db).wf(),
        exists|now: Timestamp| #[trigger] action_outcome(*old(db), *final(db), old(log).view(), final(log).view(), *user, id@, data, now, r),
{
    let now = now_utc();
    report_action_at(db, log, user, id, data, now)
}

/// The report stored under `id`, as `user` reads it; needs the report-reading
/// permission, and a report that is not stored is `NotFound`.
pub fn get_report(db: &ReferenceDb, user: &User, id: &str) -> (r: Result<Report, ApiError>)
    requires
        db.wf(),
    ensures
        !spec_has_permission(*user, PERM_REPORTS_READ@) ==> (r matches Err(e) && e is NotPrivileged),
        spec_has_permission(*user, PERM_REPORTS_READ@) && stored_report(*db, id@) is None ==> (r matches Err(e) && e is NotFound),
        spec_has_permission(*user, PERM_REPORTS_READ@) && stored_report(*db, id@) is Some ==> (r matches Ok(rep)
            && same_report(stored_report(*db, id@)->Some_0, rep)),
{
    match ensure_permission(user, PERM_REPORTS_READ) {
        Ok(()) => {},
        Err(e) => return Err(e),
    }
    db.fetch_report(id)
}

/// The audit entries that concern one report.
pub struct ReportTimelineResponse {
    pub report_id: String,
    pub entries: Vec<AuditEntry>,
}

/// The audit entries whose target is the report `id`, oldest first, as `user`
/// reads them; needs the timeline-reading permission.
pub fn report_timeline(log: &AuditLog, user: &User, id: String) -> (r: Result<ReportTimelineResponse, ApiError>)
    ensures
        !spec_has_permission(*user, PERM_REPORTS_TIMELINE_READ@) ==> (r matches Err(e) && e is NotPrivileged),
        spec_has_permission(*user, PERM_REPORTS_TIMELINE_READ@) ==> (r matches Ok(v) && v.report_id == id
            && same_entries(v.entries@, log.view().filter(|e: AuditEntry| e.target@ == id@))),
{
    match ensure_permission(user, PERM_REPORTS_TIMELINE_READ) {
        Ok(()) => {},
        Err(e) => return Err(e),
    }
    let all = log.list();
    let ghost listed = all@;
    let entries = timeline_entries(all, id.clone());
    proof {
        let f = EntryFilter::Query { actor_id: None, action_prefix: None, target: Some(id) };
        lemma_same_entries_filter(listed, log.view(), f);
        assert((|e: AuditEntry| entry_selected(f, e)) =~= (|e: AuditEntry| e.target@ == id@));
    }
    Ok(ReportTimelineResponse { report_id: id, entries })
}

/// The saved snapshots of one report.
pub struct ReportSnapshotsResponse {
    pub report_id: String,
    pub snapshots: Vec<Snapshot>,
}

/// The snapshots taken for the report `id`, in storage order, as `user` reads
/// them; needs the report-reading permission.
pub fn report_snapshots(db: &ReferenceDb, user: &User, id: String) -> (r: Result<ReportSnapshotsResponse, ApiError>)
    requires
        db.wf(),
    ensures
        !spec_has_permission(*user, PERM_REPORTS_READ@) ==> (r matches Err(e) && e is NotPrivileged),
        spec_has_permission(*user, PERM_REPORTS_READ@) ==> (r matches Ok(v) && v.report_id == id
            && v.snapshots@ == snapshots_of(*db, id@)),
{
    match ensure_permission(user, PERM_REPORTS_READ) {
        Ok(()) => {},
        Err(e) => return Err(e),
    }
    let snapshots = match db.fetch_snapshots_by_report(id.as_str()) {
        Ok(v) => v,
        Err(e) => return Err(e),
    };
    Ok(ReportSnapshotsResponse { report_id: id, snapshots })
}

/// A review is read back: after a review that succeeds, the report stored
/// under its id holds the values of the reviewed report that was answered.
pub proof fn law_review_read_back(db0: ReferenceDb, db1: ReferenceDb, log0: Seq<AuditEntry>, log1: Seq<AuditEntry>, user: User, id: Seq<char>, data: DataReviewReport, now: Timestamp, r: Result<Report, ApiError>)
    requires
        review_outcome(db0, db1, log0, log1, user, id, data, now, r),
        r is Ok,
    ensures
        stored_report(db1, id) matches Some(x) && same_report(x, r->Ok_0),
        db1.spec_reports().dom() == db0.spec_reports().dom(),
{
    assert(db1.spec_reports().dom() =~= db0.spec_reports().dom());
}

/// A workflow action is read back: after an action that succeeds, the report
/// stored under its id holds the values of the acted report that was answered.
pub proof fn law_action_read_back(db0: ReferenceDb, db1: ReferenceDb, log0: Seq<AuditEntry>, log1: Seq<AuditEntry>, user: User, id: Seq<char>, data: DataReportAction, now: Timestamp, r: Result<Report, ApiError>)
    requires
        action_outcome(db0, db1, log0, log1, user, id, data, now, r),
        r is Ok,
    ensures
        stored_report(db1, id) matches Some(x) && same_report(x, r->Ok_0),
        db1.spec_reports().dom() == db0.spec_reports().dom(),
{
    assert(db1.spec_reports().dom() =~= db0.spec_reports().dom());
}

/// A refused review changes nothing: neither the store nor the audit log.
pub proof fn law_refused_review_changes_nothing(db0: ReferenceDb, db1: ReferenceDb, log0: Seq<AuditEntry>, log1: Seq<AuditEntry>, user: User, id: Seq<char>, data: DataReviewReport, now: Timestamp, r: Result<Report, ApiError>)
    requires
        review_outcome(db0, db1, log0, log1, user, id, data, now, r),
        r is Err,
    ensures
        db1 == db0,
        log1 == log0,
{
}

/// A refused workflow action changes nothing: neither the store nor the audit log.
pub proof fn law_refused_action_changes_nothing(db0: ReferenceDb, db1: ReferenceDb, log0: Seq<AuditEntry>, log1: Seq<AuditEntry>, user: User, id: Seq<char>, data: DataReportAction, now: Timestamp, r: Result<Report, ApiError>)
    requires
        action_outcome(db0, db1, log0, log1, user, id, data, now, r),
        r is Err,
    ensures
        db1 == db0,
        log1 == log0,
{
}

/// Each workflow action is taken behind its own permission: taking a report
/// into review (`ack`, `in_review`) needs `reports.assign`, escalating
/// (`escalate`, `escalate_tier2`) needs `reports.escalate`, resolving and
/// closing without action (`resolve`, `close_no_action`) need
/// `reports.resolve`, rejecting needs `reports.reject`, and every other action
/// needs `reports.actions.write`. A caller without that permission is refused
/// as not privileged, and a caller with it never is.
pub proof fn law_action_permissions(db0: ReferenceDb, db1: ReferenceDb, log0: Seq<AuditEntry>, log1: Seq<AuditEntry>, user: User, id: Seq<char>, data: DataReportAction, now: Timestamp, r: Result<Report, ApiError>)
    requires
        action_outcome(db0, db1, log0, log1, user, id, data, now, r),
    ensures
        (data.action@ == "ack"@ || data.action@ == "in_review"@)
            ==> ((r is Err && r->Err_0 is NotPrivileged) <==> !spec_has_permission(user, "reports.assign"@)),
        (data.action@ == "escalate"@ || data.action@ == "escalate_tier2"@)
            ==> ((r is Err && r->Err_0 is NotPrivileged) <==> !spec_has_permission(user, "reports.escalate"@)),
        (data.action@ == "resolve"@ || data.action@ == "close_no_action"@)
            ==> ((r is Err && r->Err_0 is NotPrivileged) <==> !spec_has_permission(user, "reports.resolve"@)),
        data.action@ == "reject"@
            ==> ((r is Err && r->Err_0 is NotPrivileged) <==> !spec_has_permission(user, "reports.reject"@)),
        !(data.action@ == "ack"@ || data.action@ == "in_review"@ || data.action@ == "escalate"@
            || data.action@ == "escalate_tier2"@ || data.action@ == "resolve"@ || data.action@ == "close_no_action"@
            || data.action@ == "reject"@)
            ==> ((r is Err && r->Err_0 is NotPrivileged) <==> !spec_has_permission(user, "reports.actions.write"@)),
{
    lemma_action_names();
}

/// Whoever holds `reports.resolve` resolves a stored report, or closes it
/// without action: the answer is the report, now resolved at `now`, with its
/// resolution time `now`.
pub proof fn law_resolver_resolves(db0: ReferenceDb, db1: ReferenceDb, log0: Seq<AuditEntry>, log1: Seq<AuditEntry>, user: User, id: Seq<char>, data: DataReportAction, now: Timestamp, r: Result<Report, ApiError>)
    requires
        action_outcome(db0, db1, log0, log1, user, id, data, now, r),
        data.action@ == "resolve"@ || data.action@ == "close_no_action"@,
        spec_has_permission(user, "reports.resolve"@),
        db0.spec_reports().contains_key(id),
    ensures
        r matches Ok(after) && after.status == (ReportStatus::Resolved { closed_at: Some(now) })
            && after.resolved_at == Some(now),
{
    lemma_action_names();
}

} // verus!
