//! Moderation reports: the report model, its lifecycle transitions, and the
//! parsing of the moderation queue's filters.
use vstd::prelude::*;

use iso8601_timestamp::Timestamp;

use crate::error::ApiError;
use crate::permissions::{
    PERM_REPORTS_ACTIONS_WRITE, PERM_REPORTS_ASSIGN, PERM_REPORTS_ESCALATE, PERM_REPORTS_REJECT,
    PERM_REPORTS_RESOLVE,
};
use crate::strmap::Duplicate;
use crate::text::{concat, str_eq, trim, trimmed};

verus! {

#[verifier::external_type_specification]
#[verifier::external_body]
pub struct ExTimestamp(Timestamp);

/// The current time.
///
/// Calls `iso8601_timestamp::Timestamp::now_utc()`, which reads the system
/// clock; nothing is stated of the value.
#[verifier::external_body]
pub(crate) fn now_utc() -> (t: Timestamp) {
    Timestamp::now_utc()
}

/// Severity assigned to a report.
#[derive(Debug, Clone, Copy, PartialEq, Eq, Structural)]
pub enum ReportSeverity {
    Low,
    Medium,
    High,
    Critical,
}

/// Priority used to order the moderation queue.
#[derive(Debug, Clone, Copy, PartialEq, Eq, Structural)]
pub enum ReportPriority {
    Low,
    Normal,
    High,
    Urgent,
}

/// Reason for reporting a message or a server.
#[derive(Debug, Clone, Copy, PartialEq, Eq, Structural)]
pub enum ContentReportReason {
    NoneSpecified,
    Illegal,
    IllegalGoods,
    IllegalExtortion,
    IllegalPornography,
    IllegalHacking,
    ExtremeViolence,
    PromotesHarm,
    UnsolicitedSpam,
    Raid,
    SpamAbuse,
    ScamsFraud,
    Malware,
    Harassment,
}

/// Reason for reporting a user.
#[derive(Debug, Clone, Copy, PartialEq, Eq, Structural)]
pub enum UserReportReason {
    NoneSpecified,
    UnsolicitedSpam,
    SpamAbuse,
    InappropriateProfile,
    Impersonation,
    BanEvasion,
    Underage,
}

/// The content being reported.
#[derive(Debug)]
pub enum ReportedContent {
    Message { id: String, report_reason: ContentReportReason },
    Server { id: String, report_reason: ContentReportReason },
    User { id: String, report_reason: UserReportReason, message_id: Option<String> },
}

/// Metadata that the reporting client sent along.
#[derive(Debug)]
pub struct ReporterMetadata {
    pub client_platform: Option<String>,
    pub locale: Option<String>,
    pub app_version: Option<String>,
    pub network_fingerprint_hash: Option<String>,
}

/// Structured context of a report, by kind of content.
#[derive(Debug)]
pub enum ReportContext {
    Message { message_id: String, channel_id: Option<String>, server_id: Option<String>, attachment_count: usize },
    Server { server_id: String, owner_id: Option<String> },
    User { user_id: String, linked_message_id: Option<String> },
}

/// Where a report stands in its lifecycle.
#[derive(Debug)]
pub enum ReportStatus {
    /// Waiting for triage.
    Created,
    /// Assigned and being reviewed.
    InReview { assigned_at: Option<Timestamp> },
    /// Escalated to supervisors.
    Escalated { escalated_at: Option<Timestamp> },
    /// Closed as rejected.
    Rejected { rejection_reason: String, closed_at: Option<Timestamp> },
    /// Closed as actioned.
    Resolved { closed_at: Option<Timestamp> },
}

/// Just the kind of a status.
#[derive(Debug, Clone, Copy, PartialEq, Eq, Structural)]
pub enum ReportStatusString {
    Created,
    InReview,
    Escalated,
    Rejected,
    Resolved,
}

/// A moderation report.
#[derive(Debug)]
pub struct Report {
    pub id: String,
    pub author_id: String,
    pub content: ReportedContent,
    pub additional_context: String,
    pub report_context: Option<ReportContext>,
    pub reporter_metadata: Option<ReporterMetadata>,
    pub severity: ReportSeverity,
    pub priority: ReportPriority,
    pub risk_score: Option<u8>,
    pub confidence_score: Option<u8>,
    pub dedupe_key: Option<String>,
    pub related_report_ids: Vec<String>,
    pub created_at: Option<Timestamp>,
    pub updated_at: Option<Timestamp>,
    pub last_transition_at: Option<Timestamp>,
    pub resolved_at: Option<Timestamp>,
    pub sla_deadline: Option<Timestamp>,
    pub breach_state: bool,
    pub status: ReportStatus,
    pub notes: String,
    pub assignee_id: Option<String>,
    pub reviewer_id: Option<String>,
}

/// The severity a report has when none is given.
pub fn default_report_severity() -> (s: ReportSeverity)
    ensures
        s == ReportSeverity::Medium,
{
    ReportSeverity::Medium
}

/// The priority a report has when none is given.
pub fn default_report_priority() -> (p: ReportPriority)
    ensures
        p == ReportPriority::Normal,
{
    ReportPriority::Normal
}

/// The kind of a status.
pub open spec fn status_kind(s: ReportStatus) -> ReportStatusString {
    match s {
        ReportStatus::Created => ReportStatusString::Created,
        ReportStatus::InReview { .. } => ReportStatusString::InReview,
        ReportStatus::Escalated { .. } => ReportStatusString::Escalated,
        ReportStatus::Rejected { .. } => ReportStatusString::Rejected,
        ReportStatus::Resolved { .. } => ReportStatusString::Resolved,
    }
}

/// The kind of a status.
pub fn kind_of(s: &ReportStatus) -> (k: ReportStatusString)
    ensures
        k == status_kind(*s),
{
    match s {
        ReportStatus::Created => ReportStatusString::Created,
        ReportStatus::InReview { .. } => ReportStatusString::InReview,
        ReportStatus::Escalated { .. } => ReportStatusString::Escalated,
        ReportStatus::Rejected { .. } => ReportStatusString::Rejected,
        ReportStatus::Resolved { .. } => ReportStatusString::Resolved,
    }
}

/// Whether a report with this status is still open (not closed).
pub open spec fn is_open(s: ReportStatus) -> bool {
    match s {
        ReportStatus::Created | ReportStatus::InReview { .. } | ReportStatus::Escalated { .. } => true,
        _ => false,
    }
}

/// The severity a filter text names, in either of its two spellings.
pub open spec fn spec_severity_named(raw: Seq<char>) -> Option<ReportSeverity> {
    if raw == "Low"@ || raw == "low"@ {
        Some(ReportSeverity::Low)
    } else if raw == "Medium"@ || raw == "medium"@ {
        Some(ReportSeverity::Medium)
    } else if raw == "High"@ || raw == "high"@ {
        Some(ReportSeverity::High)
    } else if raw == "Critical"@ || raw == "critical"@ {
        Some(ReportSeverity::Critical)
    } else {
        None
    }
}

/// The priority a filter text names, in either of its two spellings.
pub open spec fn spec_priority_named(raw: Seq<char>) -> Option<ReportPriority> {
    if raw == "Low"@ || raw == "low"@ {
        Some(ReportPriority::Low)
    } else if raw == "Normal"@ || raw == "normal"@ {
        Some(ReportPriority::Normal)
    } else if raw == "High"@ || raw == "high"@ {
        Some(ReportPriority::High)
    } else if raw == "Urgent"@ || raw == "urgent"@ {
        Some(ReportPriority::Urgent)
    } else {
        None
    }
}

/// The status a filter text names, in any of its spellings.
pub open spec fn spec_status_named(raw: Seq<char>) -> Option<ReportStatusString> {
    if raw == "Created"@ || raw == "created"@ {
        Some(ReportStatusString::Created)
    } else if raw == "InReview"@ || raw == "in_review"@ || raw == "inreview"@ || raw == "in-review"@ {
        Some(ReportStatusString::InReview)
    } else if raw == "Escalated"@ || raw == "escalated"@ {
        Some(ReportStatusString::Escalated)
    } else if raw == "Resolved"@ || raw == "resolved"@ {
        Some(ReportStatusString::Resolved)
    } else if raw == "Rejected"@ || raw == "rejected"@ {
        Some(ReportStatusString::Rejected)
    } else {
        None
    }
}

/// The answer of a filter parser: absent gives no filter, a known name its
/// value, anything else the validation error `label` followed by the text.
pub open spec fn parsed_filter<T>(raw: Option<&str>, named: spec_fn(Seq<char>) -> Option<T>, label: Seq<char>, r: Result<Option<T>, ApiError>) -> bool {
    match raw {
        None => r == Ok::<Option<T>, ApiError>(None),
        Some(s) => match named(s@) {
            Some(v) => r == Ok::<Option<T>, ApiError>(Some(v)),
            None => r matches Err(e) && e.is_validation(label + s@),
        },
    }
}

/// Reads a severity filter.
pub fn parse_severity(raw: Option<&str>) -> (r: Result<Option<ReportSeverity>, ApiError>)
    ensures
        parsed_filter(raw, |s: Seq<char>| spec_severity_named(s), "Invalid severity filter: "@, r),
{
    match raw {
        None => Ok(None),
        Some(s) => {
            if str_eq(s, "Low") || str_eq(s, "low") {
                Ok(Some(ReportSeverity::Low))
            } else if str_eq(s, "Medium") || str_eq(s, "medium") {
                Ok(Some(ReportSeverity::Medium))
            } else if str_eq(s, "High") || str_eq(s, "high") {
                Ok(Some(ReportSeverity::High))
            } else if str_eq(s, "Critical") || str_eq(s, "critical") {
                Ok(Some(ReportSeverity::Critical))
            } else {
                Err(ApiError::FailedValidation { error: concat("Invalid severity filter: ", s) })
            }
        },
    }
}

/// Reads a priority filter.
pub fn parse_priority(raw: Option<&str>) -> (r: Result<Option<ReportPriority>, ApiError>)
    ensures
        parsed_filter(raw, |s: Seq<char>| spec_priority_named(s), "Invalid priority filter: "@, r),
{
    match raw {
        None => Ok(None),
        Some(s) => {
            if str_eq(s, "Low") || str_eq(s, "low") {
                Ok(Some(ReportPriority::Low))
            } else if str_eq(s, "Normal") || str_eq(s, "normal") {
                Ok(Some(ReportPriority::Normal))
            } else if str_eq(s, "High") || str_eq(s, "high") {
                Ok(Some(ReportPriority::High))
            } else if str_eq(s, "Urgent") || str_eq(s, "urgent") {
                Ok(Some(ReportPriority::Urgent))
            } else {
                Err(ApiError::FailedValidation { error: concat("Invalid priority filter: ", s) })
            }
        },
    }
}

/// Reads a status filter.
pub fn parse_status(raw: Option<&str>) -> (r: Result<Option<ReportStatusString>, ApiError>)
    ensures
        parsed_filter(raw, |s: Seq<char>| spec_status_named(s), "Invalid status filter: "@, r),
{
    match raw {
        None => Ok(None),
        Some(s) => {
            if str_eq(s, "Created") || str_eq(s, "created") {
                Ok(Some(ReportStatusString::Created))
            } else if str_eq(s, "InReview") || str_eq(s, "in_review") || str_eq(s, "inreview") || str_eq(s, "in-review") {
                Ok(Some(ReportStatusString::InReview))
            } else if str_eq(s, "Escalated") || str_eq(s, "escalated") {
                Ok(Some(ReportStatusString::Escalated))
            } else if str_eq(s, "Resolved") || str_eq(s, "resolved") {
                Ok(Some(ReportStatusString::Resolved))
            } else if str_eq(s, "Rejected") || str_eq(s, "rejected") {
                Ok(Some(ReportStatusString::Rejected))
            } else {
                Err(ApiError::FailedValidation { error: concat("Invalid status filter: ", s) })
            }
        },
    }
}

/// The permission that a workflow action needs.
pub open spec fn spec_action_permission(action: Seq<char>) -> Seq<char> {
    if action == "ack"@ || action == "in_review"@ {
        PERM_REPORTS_ASSIGN@
    } else if action == "escalate_tier2"@ || action == "escalate"@ {
        PERM_REPORTS_ESCALATE@
    } else if action == "resolve"@ || action == "close_no_action"@ {
        PERM_REPORTS_RESOLVE@
    } else if action == "reject"@ {
        PERM_REPORTS_REJECT@
    } else {
        PERM_REPORTS_ACTIONS_WRITE@
    }
}

/// The permission that a workflow action needs; unknown actions need the
/// general workflow permission.
pub fn report_action_permission(action: &str) -> (p: &'static str)
    ensures
        p@ == spec_action_permission(action@),
{
    if str_eq(action, "ack") || str_eq(action, "in_review") {
        PERM_REPORTS_ASSIGN
    } else if str_eq(action, "escalate_tier2") || str_eq(action, "escalate") {
        PERM_REPORTS_ESCALATE
    } else if str_eq(action, "resolve") || str_eq(action, "close_no_action") {
        PERM_REPORTS_RESOLVE
    } else if str_eq(action, "reject") {
        PERM_REPORTS_REJECT
    } else {
        PERM_REPORTS_ACTIONS_WRITE
    }
}

/// A text that is present and not blank.
pub open spec fn present_text(t: Option<String>) -> bool {
    t matches Some(s) && trim(s@).len() > 0
}

/// Whether `t` is present and not blank.
pub fn is_present_text(t: &Option<String>) -> (b: bool)
    ensures
        b == present_text(*t),
{
    match t {
        Some(s) => trimmed(s.as_str()).unicode_len() > 0,
        None => false,
    }
}

/// The status a transition to `kind` sets at time `now`; a rejection carries `reason`.
pub open spec fn status_for(kind: ReportStatusString, now: Timestamp, reason: Option<String>) -> ReportStatus {
    match kind {
        ReportStatusString::Created => ReportStatus::Created,
        ReportStatusString::InReview => ReportStatus::InReview { assigned_at: Some(now) },
        ReportStatusString::Escalated => ReportStatus::Escalated { escalated_at: Some(now) },
        ReportStatusString::Resolved => ReportStatus::Resolved { closed_at: Some(now) },
        ReportStatusString::Rejected => ReportStatus::Rejected { rejection_reason: reason->Some_0, closed_at: Some(now) },
    }
}

/// Whether `after` keeps every field of `before` that no workflow step changes.
pub open spec fn keeps_case(before: Report, after: Report) -> bool {
    &&& after.id == before.id
    &&& after.author_id == before.author_id
    &&& after.content == before.content
    &&& after.additional_context == before.additional_context
    &&& after.report_context == before.report_context
    &&& after.reporter_metadata == before.reporter_metadata
    &&& after.severity == before.severity
    &&& after.priority == before.priority
    &&& after.risk_score == before.risk_score
    &&& after.confidence_score == before.confidence_score
    &&& after.dedupe_key == before.dedupe_key
    &&& after.created_at == before.created_at
    &&& after.sla_deadline == before.sla_deadline
    &&& after.breach_state == before.breach_state
}

/// Whether the transition of `before` to status `kind` at `now` gives `after`,
/// `ok` saying whether it succeeded.
///
/// The transition and update times become `now`; a closing transition also
/// sets the resolution time. A rejection needs a reason that is not blank:
/// without one the status is left as it was (the times have then already been
/// set). Nothing else changes.
pub open spec fn status_applied(before: Report, after: Report, kind: ReportStatusString, rejection_reason: Option<String>, now: Timestamp, ok: bool) -> bool {
    &&& after.last_transition_at == Some(now)
    &&& after.updated_at == Some(now)
    &&& after.resolved_at == (if kind == ReportStatusString::Resolved || kind == ReportStatusString::Rejected { Some(now) } else { before.resolved_at })
    &&& ok == (kind != ReportStatusString::Rejected || present_text(rejection_reason))
    &&& ok ==> after.status == status_for(kind, now, rejection_reason)
    &&& !ok ==> after.status == before.status
    &&& keeps_case(before, after)
    &&& after.related_report_ids == before.related_report_ids
    &&& after.notes == before.notes
    &&& after.assignee_id == before.assignee_id
    &&& after.reviewer_id == before.reviewer_id
}

/// Moves `report` to status `kind` at time `now`, as `status_applied` states.
pub fn apply_report_status_at(report: &mut Report, kind: ReportStatusString, rejection_reason: Option<String>, now: Timestamp) -> (r: Result<(), ApiError>)
    ensures
        status_applied(*old(report), *final(report), kind, rejection_reason, now, r is Ok),
        r matches Err(e) ==> e.is_validation("rejection_reason is required"@),
{
    report.last_transition_at = Some(now);
    report.updated_at = Some(now);
    match kind {
        ReportStatusString::Created => {
            report.status = ReportStatus::Created;
        },
        ReportStatusString::InReview => {
            report.status = ReportStatus::InReview { assigned_at: Some(now) };
        },
        ReportStatusString::Escalated => {
            report.status = ReportStatus::Escalated { escalated_at: Some(now) };
        },
        ReportStatusString::Resolved => {
            report.resolved_at = Some(now);
            report.status = ReportStatus::Resolved { closed_at: Some(now) };
        },
        ReportStatusString::Rejected => {
            report.resolved_at = Some(now);
            if !is_present_text(&rejection_reason) {
                return Err(ApiError::FailedValidation { error: "rejection_reason is required".to_owned() });
            }
            let reason = match rejection_reason {
                Some(s) => s,
                None => String::new(),
            };
            report.status = ReportStatus::Rejected { rejection_reason: reason, closed_at: Some(now) };
        },
    }
    Ok(())
}

/// Moves `report` to status `kind` at the current time, as `status_applied`
/// states for the time that was read (the new transition time).
pub fn apply_report_status(report: &mut Report, kind: ReportStatusString, rejection_reason: Option<String>) -> (r: Result<(), ApiError>)
    ensures
        final(report).last_transition_at matches Some(now)
            && status_applied(*old(report), *final(report), kind, rejection_reason, now, r is Ok),
        r matches Err(e) ==> e.is_validation("rejection_reason is required"@),
{
    let now = now_utc();
    apply_report_status_at(report, kind, rejection_reason, now)
}

/// A copy of an optional text.
pub fn copy_opt(o: &Option<String>) -> (r: Option<String>)
    ensures
        r == *o,
{
    match o {
        Some(s) => Some(s.clone()),
        None => None,
    }
}

/// A copy of a list of texts.
pub fn copy_strings(v: &Vec<String>) -> (r: Vec<String>)
    ensures
        r@ == v@,
{
    let mut r: Vec<String> = Vec::new();
    let mut i: usize = 0;
    while i < v.len()
        invariant
            i <= v@.len(),
            r@ == v@.subrange(0, i as int),
        decreases v@.len() - i,
    {
        r.push(v[i].clone());
        i = i + 1;
        assert(r@ =~= v@.subrange(0, i as int));
    }
    assert(r@ =~= v@);
    r
}

impl Duplicate for ReportedContent {
    open spec fn same_value(&self, other: &Self) -> bool {
        *self == *other
    }

    fn duplicate(&self) -> (r: Self) {
        match self {
            ReportedContent::Message { id, report_reason } => ReportedContent::Message { id: id.clone(), report_reason: *report_reason },
            ReportedContent::Server { id, report_reason } => ReportedContent::Server { id: id.clone(), report_reason: *report_reason },
            ReportedContent::User { id, report_reason, message_id } => ReportedContent::User {
                id: id.clone(),
                report_reason: *report_reason,
                message_id: copy_opt(message_id),
            },
        }
    }
}

impl Duplicate for ReporterMetadata {
    open spec fn same_value(&self, other: &Self) -> bool {
        *self == *other
    }

    fn duplicate(&self) -> (r: Self) {
        ReporterMetadata {
            client_platform: copy_opt(&self.client_platform),
            locale: copy_opt(&self.locale),
            app_version: copy_opt(&self.app_version),
            network_fingerprint_hash: copy_opt(&self.network_fingerprint_hash),
        }
    }
}

impl Duplicate for ReportContext {
    open spec fn same_value(&self, other: &Self) -> bool {
        *self == *other
    }

    fn duplicate(&self) -> (r: Self) {
        match self {
            ReportContext::Message { message_id, channel_id, server_id, attachment_count } => ReportContext::Message {
                message_id: message_id.clone(),
                channel_id: copy_opt(channel_id),
                server_id: copy_opt(server_id),
                attachment_count: *attachment_count,
            },
            ReportContext::Server { server_id, owner_id } => ReportContext::Server { server_id: server_id.clone(), owner_id: copy_opt(owner_id) },
            ReportContext::User { user_id, linked_message_id } => ReportContext::User {
                user_id: user_id.clone(),
                linked_message_id: copy_opt(linked_message_id),
            },
        }
    }
}

impl Duplicate for ReportStatus {
    open spec fn same_value(&self, other: &Self) -> bool {
        *self == *other
    }

    fn duplicate(&self) -> (r: Self) {
        match self {
            ReportStatus::Created => ReportStatus::Created,
            ReportStatus::InReview { assigned_at } => ReportStatus::InReview { assigned_at: *assigned_at },
            ReportStatus::Escalated { escalated_at } => ReportStatus::Escalated { escalated_at: *escalated_at },
            ReportStatus::Rejected { rejection_reason, closed_at } => ReportStatus::Rejected {
                rejection_reason: rejection_reason.clone(),
                closed_at: *closed_at,
            },
            ReportStatus::Resolved { closed_at } => ReportStatus::Resolved { closed_at: *closed_at },
        }
    }
}

/// Two reports that hold the same values (their lists of related reports compared by contents).
pub open spec fn same_report(a: Report, b: Report) -> bool {
    &&& a.id == b.id
    &&& a.author_id == b.author_id
    &&& a.content == b.content
    &&& a.additional_context == b.additional_context
    &&& a.report_context == b.report_context
    &&& a.reporter_metadata == b.reporter_metadata
    &&& a.severity == b.severity
    &&& a.priority == b.priority
    &&& a.risk_score == b.risk_score
    &&& a.confidence_score == b.confidence_score
    &&& a.dedupe_key == b.dedupe_key
    &&& a.related_report_ids@ == b.related_report_ids@
    &&& a.created_at == b.created_at
    &&& a.updated_at == b.updated_at
    &&& a.last_transition_at == b.last_transition_at
    &&& a.resolved_at == b.resolved_at
    &&& a.sla_deadline == b.sla_deadline
    &&& a.breach_state == b.breach_state
    &&& a.status == b.status
    &&& a.notes == b.notes
    &&& a.assignee_id == b.assignee_id
    &&& a.reviewer_id == b.reviewer_id
}

impl Duplicate for Report {
    open spec fn same_value(&self, other: &Self) -> bool {
        same_report(*self, *other)
    }

    fn duplicate(&self) -> (r: Self) {
        Report {
            id: self.id.clone(),
            author_id: self.author_id.clone(),
            content: self.content.duplicate(),
            additional_context: self.additional_context.clone(),
            report_context: match &self.report_context {
                Some(c) => Some(c.duplicate()),
                None => None,
            },
            reporter_metadata: match &self.reporter_metadata {
                Some(m) => Some(m.duplicate()),
                None => None,
            },
            severity: self.severity,
            priority: self.priority,
            risk_score: self.risk_score,
            confidence_score: self.confidence_score,
            dedupe_key: copy_opt(&self.dedupe_key),
            related_report_ids: copy_strings(&self.related_report_ids),
            created_at: self.created_at,
            updated_at: self.updated_at,
            last_transition_at: self.last_transition_at,
            resolved_at: self.resolved_at,
            sla_deadline: self.sla_deadline,
            breach_state: self.breach_state,
            status: self.status.duplicate(),
            notes: self.notes.clone(),
            assignee_id: copy_opt(&self.assignee_id),
            reviewer_id: copy_opt(&self.reviewer_id),
        }
    }
}

/// A saved copy of reported content, taken when the report was filed.
#[derive(Debug)]
pub struct Snapshot {
    pub id: String,
    pub report_id: String,
    /// The content as it was, in its serialised form.
    pub content: String,
}

impl Duplicate for Snapshot {
    open spec fn same_value(&self, other: &Self) -> bool {
        *self == *other
    }

    fn duplicate(&self) -> (r: Self) {
        Snapshot { id: self.id.clone(), report_id: self.report_id.clone(), content: self.content.clone() }
    }
}

} // verus!
