//! Filing a report of content: the checks a report must pass, the key by
//! which repeated reports of one author collapse, and the storing of a new
//! report with the snapshots of what it reports.
use vstd::prelude::*;

use iso8601_timestamp::Timestamp;

use crate::audit::new_ulid_string;
use crate::error::ApiError;
use crate::reports::{
    copy_strings, is_open, keeps_case, now_utc, same_report, Report, ReportContext, ReportPriority,
    ReportSeverity, ReportStatus, ReportedContent, ReporterMetadata, Snapshot, };
use crate::store::{report_replaced, ReferenceDb};
use crate::strmap::Duplicate;
use crate::text::{ascii_lowercase, concat, lower_seq, owned, str_eq, trim, trimmed};
use crate::users::{holds, views, User};

verus! {

/// The longest additional context a report may carry, in characters.
pub const MAX_ADDITIONAL_CONTEXT: usize = 1000;

/// The message of the validation error for an overlong additional context.
pub const CONTEXT_TOO_LONG: &'static str = "additional_context: length must be at most 1000 characters";

/// A report as its author files it.
pub struct DataReportContent {
    /// What is reported.
    pub content: ReportedContent,
    /// The author's description, at most 1000 characters.
    pub additional_context: String,
    /// A severity hint from the client.
    pub severity: Option<ReportSeverity>,
    /// A priority hint from the client.
    pub priority: Option<ReportPriority>,
    /// A risk score from 0 to 100 from heuristic clients.
    pub risk_score: Option<u8>,
    /// A confidence score from 0 to 100 from heuristic clients.
    pub confidence_score: Option<u8>,
    pub reporter_metadata: Option<ReporterMetadata>,
}

/// The checks made before the reported content is looked up: the additional
/// context is at most 1000 characters long, and bots may not file reports.
pub fn check_report_request(user: &User, data: &DataReportContent) -> (r: Result<(), ApiError>)
    ensures
        data.additional_context@.len() > MAX_ADDITIONAL_CONTEXT ==> (r matches Err(e) && e.is_validation(CONTEXT_TOO_LONG@)),
        data.additional_context@.len() <= MAX_ADDITIONAL_CONTEXT && user.bot ==> (r matches Err(e) && e is IsBot),
        r is Ok <==> (data.additional_context@.len() <= MAX_ADDITIONAL_CONTEXT && !user.bot),
{
    if data.additional_context.unicode_len() > MAX_ADDITIONAL_CONTEXT {
        return Err(ApiError::FailedValidation { error: owned(CONTEXT_TOO_LONG) });
    }
    if user.bot {
        return Err(ApiError::IsBot);
    }
    Ok(())
}

/// What the reported content was found to be when it was looked up.
pub enum FoundContent {
    /// A message, with its author, its channel and its number of attachments.
    Message { author_id: String, channel_id: String, attachment_count: usize },
    /// A server, with its owner.
    Server { owner_id: String },
    /// A user account.
    User { user_id: String },
}

/// Whether `found` is of the kind of `content`.
pub open spec fn found_matches(content: ReportedContent, found: FoundContent) -> bool {
    match content {
        ReportedContent::Message { .. } => found is Message,
        ReportedContent::Server { .. } => found is Server,
        ReportedContent::User { .. } => found is User,
    }
}

/// Whether the reporter `user` is the author of the reported message, or the reported user.
pub open spec fn reports_self(user: User, found: FoundContent) -> bool {
    match found {
        FoundContent::Message { author_id, .. } => author_id@ == user.id@,
        FoundContent::Server { .. } => false,
        FoundContent::User { user_id } => user_id@ == user.id@,
    }
}

/// The structured context of a report of `content`, found as `found`.
pub open spec fn spec_report_context(content: ReportedContent, found: FoundContent) -> ReportContext {
    match content {
        ReportedContent::Message { id, .. } => match found {
            FoundContent::Message { channel_id, attachment_count, .. } => ReportContext::Message {
                message_id: id,
                channel_id: Some(channel_id),
                server_id: None,
                attachment_count,
            },
            _ => ReportContext::Message { message_id: id, channel_id: None, server_id: None, attachment_count: 0 },
        },
        ReportedContent::Server { id, .. } => match found {
            FoundContent::Server { owner_id } => ReportContext::Server { server_id: id, owner_id: Some(owner_id) },
            _ => ReportContext::Server { server_id: id, owner_id: None },
        },
        ReportedContent::User { id, message_id, .. } => ReportContext::User { user_id: id, linked_message_id: message_id },
    }
}

/// The context of a report of `content` by `user`, found as `found`; a user
/// may not report their own message, nor themselves.
pub fn report_context_for(user: &User, content: &ReportedContent, found: &FoundContent) -> (r: Result<ReportContext, ApiError>)
    requires
        found_matches(*content, *found),
    ensures
        reports_self(*user, *found) ==> (r matches Err(e) && e is CannotReportYourself),
        !reports_self(*user, *found) ==> r == Ok::<ReportContext, ApiError>(spec_report_context(*content, *found)),
{
    match content {
        ReportedContent::Message { id, .. } => match found {
            FoundContent::Message { author_id, channel_id, attachment_count } => {
                if str_eq(author_id.as_str(), user.id.as_str()) {
                    return Err(ApiError::CannotReportYourself);
                }
                Ok(ReportContext::Message {
                    message_id: id.clone(),
                    channel_id: Some(channel_id.clone()),
                    server_id: None,
                    attachment_count: *attachment_count,
                })
            },
            _ => Ok(ReportContext::Message { message_id: id.clone(), channel_id: None, server_id: None, attachment_count: 0 }),
        },
        ReportedContent::Server { id, .. } => match found {
            FoundContent::Server { owner_id } => Ok(ReportContext::Server { server_id: id.clone(), owner_id: Some(owner_id.clone()) }),
            _ => Ok(ReportContext::Server { server_id: id.clone(), owner_id: None }),
        },
        ReportedContent::User { id, message_id, .. } => {
            match found {
                FoundContent::User { user_id } => {
                    if str_eq(user_id.as_str(), user.id.as_str()) {
                        return Err(ApiError::CannotReportYourself);
                    }
                },
                _ => {},
            }
            let linked = match message_id {
                Some(m) => Some(m.clone()),
                None => None,
            };
            Ok(ReportContext::User { user_id: id.clone(), linked_message_id: linked })
        },
    }
}

/// The kind and id of reported content, as the collapse key writes them.
pub open spec fn content_key(c: ReportedContent) -> Seq<char> {
    match c {
        ReportedContent::Message { id, .. } => "Message:"@ + id@,
        ReportedContent::Server { id, .. } => "Server:"@ + id@,
        ReportedContent::User { id, .. } => "User:"@ + id@,
    }
}

/// The key under which reports by `author` of the same content with the same
/// context (trimmed, in ASCII lower case) collapse into one.
pub open spec fn spec_dedupe_key(author: Seq<char>, data: DataReportContent) -> Seq<char> {
    author + "::"@ + content_key(data.content) + "::"@ + lower_seq(trim(data.additional_context@))
}

/// The collapse key of the report `data` by `author`.
pub fn dedupe_key(author: &str, data: &DataReportContent) -> (k: String)
    ensures
        k@ == spec_dedupe_key(author@, *data),
{
    let kind = match &data.content {
        ReportedContent::Message { id, .. } => concat("Message:", id.as_str()),
        ReportedContent::Server { id, .. } => concat("Server:", id.as_str()),
        ReportedContent::User { id, .. } => concat("User:", id.as_str()),
    };
    let context = trimmed(data.additional_context.as_str());
    let lowered = ascii_lowercase(context.as_str());
    let a = concat(author, "::");
    let b = concat(a.as_str(), kind.as_str());
    let c = concat(b.as_str(), "::");
    concat(c.as_str(), lowered.as_str())
}

/// Whether a new report by `author` with collapse key `key` collapses into `r`:
/// an open report by the same author under the same key.
pub open spec fn collapses_into(r: Report, author: Seq<char>, key: Seq<char>) -> bool {
    &&& r.author_id@ == author
    &&& (r.dedupe_key matches Some(k) && k@ == key)
    &&& is_open(r.status)
}

/// Whether `i` is the first of `rows` that a new report collapses into.
pub open spec fn is_first_collapse(rows: Seq<Report>, i: int, author: Seq<char>, key: Seq<char>) -> bool {
    &&& 0 <= i < rows.len()
    &&& collapses_into(rows[i], author, key)
    &&& forall|j: int| 0 <= j < i ==> !collapses_into(#[trigger] rows[j], author, key)
}

/// Whether a new report collapses into none of `rows`.
pub open spec fn collapses_into_none(rows: Seq<Report>, author: Seq<char>, key: Seq<char>) -> bool {
    forall|j: int| 0 <= j < rows.len() ==> !collapses_into(#[trigger] rows[j], author, key)
}

/// The first of `reports` that a new report by `author` under `key` collapses into.
fn find_collapse(reports: &Vec<Report>, author: &str, key: &str) -> (r: Option<usize>)
    ensures
        r matches Some(i) ==> is_first_collapse(reports@, i as int, author@, key@),
        r is None ==> collapses_into_none(reports@, author@, key@),
{
    let mut i: usize = 0;
    while i < reports.len()
        invariant
            i <= reports@.len(),
            forall|j: int| 0 <= j < i ==> !collapses_into(#[trigger] reports@[j], author@, key@),
        decreases reports@.len() - i,
    {
        let r = &reports[i];
        let same_key = match &r.dedupe_key {
            Some(k) => str_eq(k.as_str(), key),
            None => false,
        };
        let open = match r.status {
            ReportStatus::Created => true,
            ReportStatus::InReview { .. } => true,
            ReportStatus::Escalated { .. } => true,
            _ => false,
        };
        if str_eq(r.author_id.as_str(), author) && same_key && open {
            return Some(i);
        }
        i = i + 1;
    }
    None
}

/// Whether `after` is `before` once the new report `id` has collapsed into it
/// at `now`: `id` joins the related reports unless it is there already, and the
/// update time becomes `now`; nothing else changes.
pub open spec fn collapsed(before: Report, after: Report, id: String, now: Timestamp) -> bool {
    &&& keeps_case(before, after)
    &&& after.status == before.status
    &&& after.notes == before.notes
    &&& after.assignee_id == before.assignee_id
    &&& after.reviewer_id == before.reviewer_id
    &&& after.last_transition_at == before.last_transition_at
    &&& after.resolved_at == before.resolved_at
    &&& after.updated_at == Some(now)
    &&& after.related_report_ids@ == (if views(before.related_report_ids@).contains(id@) {
        before.related_report_ids@
    } else {
        before.related_report_ids@.push(id)
    })
}

/// A score kept only when it is at most 100.
pub open spec fn score_within(s: Option<u8>) -> Option<u8> {
    match s {
        Some(v) => if v <= 100 { Some(v) } else { None },
        None => None,
    }
}

/// Whether `r` is the new report `id` filed by `author` as `data`, with context
/// `context` and collapse key `key`, created at `created` and entering its
/// first status at `transition`.
///
/// The severity defaults to medium and the priority to normal; scores above
/// 100 are dropped; the report starts created, with no notes, no assignee, no
/// `reviewer_id` and no related reports.
pub open spec fn is_new_report(r: Report, id: String, author: String, data: DataReportContent, context: ReportContext, key: Seq<char>, created: Timestamp, transition: Timestamp) -> bool {
    &&& r.id == id
    &&& r.author_id == author
    &&& r.content == data.content
    &&& r.additional_context == data.additional_context
    &&& r.report_context == Some(context)
    &&& r.reporter_metadata == data.reporter_metadata
    &&& r.severity == (match data.severity {
        Some(s) => s,
        None => ReportSeverity::Medium,
    })
    &&& r.priority == (match data.priority {
        Some(p) => p,
        None => ReportPriority::Normal,
    })
    &&& r.risk_score == score_within(data.risk_score)
    &&& r.confidence_score == score_within(data.confidence_score)
    &&& (r.dedupe_key matches Some(k) && k@ == key)
    &&& r.related_report_ids@.len() == 0
    &&& r.created_at == Some(created)
    &&& r.updated_at is None
    &&& r.last_transition_at == Some(transition)
    &&& r.resolved_at is None
    &&& r.sla_deadline is None
    &&& !r.breach_state
    &&& r.status == ReportStatus::Created
    &&& r.notes@.len() == 0
    &&& r.assignee_id is None
    &&& r.reviewer_id is None
}

/// The snapshots of the new report `report_id`: the `j`-th holds `contents[j]` under `ids[j]`.
pub open spec fn new_snapshots(ids: Seq<String>, report_id: String, contents: Seq<String>) -> Seq<Snapshot> {
    Seq::new(contents.len(), |j: int| Snapshot { id: ids[j], report_id, content: contents[j] })
}

/// The snapshots `m` once each of `s` is stored under its id, in order.
pub open spec fn with_snapshots(m: Map<Seq<char>, Snapshot>, s: Seq<Snapshot>) -> Map<Seq<char>, Snapshot>
    decreases s.len(),
{
    if s.len() == 0 {
        m
    } else {
        with_snapshots(m, s.drop_last()).insert(s.last().id@, s.last())
    }
}

/// Whether the snapshot ids `ids` are distinct and none is stored in `db`.
pub open spec fn snapshot_ids_fresh(db: ReferenceDb, ids: Seq<String>) -> bool {
    &&& views(ids).no_duplicates()
    &&& forall|j: int| 0 <= j < ids.len() ==> !db.spec_snapshots().contains_key(#[trigger] ids[j]@)
}

/// Whether `j` is where storing the snapshots with ids `ids` is refused: the
/// first `j` ids are distinct and not stored in `db`, and the next one is stored
/// or repeats one of them.
pub open spec fn is_refused_at(db: ReferenceDb, ids: Seq<String>, j: int) -> bool {
    &&& 0 <= j < ids.len()
    &&& snapshot_ids_fresh(db, ids.take(j))
    &&& !snapshot_ids_fresh(db, ids.take(j + 1))
}

/// A prefix of fresh ids is fresh.
proof fn lemma_fresh_prefix(db: ReferenceDb, ids: Seq<String>, a: int, b: int)
    requires
        0 <= b <= a <= ids.len(),
        snapshot_ids_fresh(db, ids.take(a)),
    ensures
        snapshot_ids_fresh(db, ids.take(b)),
{
    let ta = ids.take(a);
    let tb = ids.take(b);
    assert forall|j: int| 0 <= j < tb.len() implies !db.spec_snapshots().contains_key(#[trigger] tb[j]@) by {
        assert(tb[j] == ta[j]);
    }
    assert forall|i: int, k: int| 0 <= i < k < views(tb).len() implies views(tb)[i] != views(tb)[k] by {
        assert(views(tb)[i] == views(ta)[i] && views(tb)[k] == views(ta)[k]);
    }
}

proof fn lemma_with_snapshots_keys(m: Map<Seq<char>, Snapshot>, s: Seq<Snapshot>, k: Seq<char>)
    ensures
        with_snapshots(m, s).contains_key(k) <==> (m.contains_key(k) || exists|j: int| 0 <= j < s.len() && (#[trigger] s[j]).id@ == k),
    decreases s.len(),
{
    if s.len() > 0 {
        lemma_with_snapshots_keys(m, s.drop_last(), k);
        if exists|j: int| 0 <= j < s.len() && (#[trigger] s[j]).id@ == k {
            let j = choose|j: int| 0 <= j < s.len() && (#[trigger] s[j]).id@ == k;
            if j < s.len() - 1 {
                assert(s.drop_last()[j] == s[j]);
            }
        }
        if exists|j: int| 0 <= j < s.drop_last().len() && (#[trigger] s.drop_last()[j]).id@ == k {
            let j = choose|j: int| 0 <= j < s.drop_last().len() && (#[trigger] s.drop_last()[j]).id@ == k;
            assert(s[j] == s.drop_last()[j]);
        }
    }
}

/// What filing the report `data` by `user` does, `r` being its answer: with
/// the context `context`, the snapshot contents `snapshots`, the id `id` for
/// the new report, the ids `sids` for its snapshots, and the clock read as
/// `now` and then as `transition`.
///
/// When an open report by the same author under the same collapse key is
/// stored, the first such report takes the new id among its related reports
/// (as `collapsed` states), no new report is filed, and the answer is
/// `Ok(None)`; if that report's own id is not a stored key the update is
/// `NotFound`. Otherwise the snapshots are stored in order, then the new report
/// (as `is_new_report` states), which is answered; a snapshot id that is
/// already stored or repeated, or a report id that is already stored, is the
/// store's refusal; a refused filing leaves the reports as they were, and the
/// snapshots before the refused one stay stored.
pub open spec fn file_outcome(db0: ReferenceDb, db1: ReferenceDb, user: User, data: DataReportContent, context: ReportContext, snapshots: Seq<String>, id: String, sids: Seq<String>, now: Timestamp, transition: Timestamp, r: Result<Option<Report>, ApiError>) -> bool {
    let key = spec_dedupe_key(user.id@, data);
    let rows = db0.spec_report_rows();
    &&& forall|i: int| #[trigger] is_first_collapse(rows, i, user.id@, key) ==> {
        let t = rows[i];
        &&& db0.spec_reports().contains_key(t.id@) ==> {
            &&& r == Ok::<Option<Report>, ApiError>(None)
            &&& report_replaced(db0, db1, t.id@, db1.spec_reports()[t.id@])
            &&& collapsed(t, db1.spec_reports()[t.id@], id, now)
        }
        &&& !db0.spec_reports().contains_key(t.id@) ==> (r matches Err(e) && e is NotFound && db1 == db0)
    }
    &&& collapses_into_none(rows, user.id@, key) ==> {
        let fresh = snapshot_ids_fresh(db0, sids);
        let held = db0.spec_reports().contains_key(id@);
        &&& !fresh ==> (r matches Err(e) && e.is_database("insert"@, "snapshot"@))
        &&& forall|j: int| #[trigger] is_refused_at(db0, sids, j)
            ==> db1.spec_snapshots() == with_snapshots(db0.spec_snapshots(), new_snapshots(sids, id, snapshots).take(j))
        &&& fresh ==> db1.spec_snapshots() == with_snapshots(db0.spec_snapshots(), new_snapshots(sids, id, snapshots))
        &&& fresh && held ==> (r matches Err(e) && e.is_database("insert"@, "report"@))
        &&& fresh && !held ==> (r matches Ok(Some(rep)) && {
            &&& is_new_report(rep, id, user.id, data, context, key, now, transition)
            &&& db1.spec_reports() == db0.spec_reports().insert(id@, db1.spec_reports()[id@])
            &&& same_report(db1.spec_reports()[id@], rep)
            &&& db1.spec_report_keys() == db0.spec_report_keys().push(id@)
            &&& db1.spec_report_rows() == db0.spec_report_rows().push(db1.spec_reports()[id@])
        })
        &&& r is Err ==> db1.spec_reports() == db0.spec_reports()
    }
    &&& db1.spec_stickers() == db0.spec_stickers()
    &&& db1.spec_clips() == db0.spec_clips()
}

/// Files the report `data` by `user`, as `file_outcome` states for the given
/// ids and clock readings.
pub fn file_report_at(db: &mut ReferenceDb, user: &User, data: DataReportContent, context: ReportContext, snapshots: Vec<String>, id: String, snapshot_ids: Vec<String>, now: Timestamp, transition: Timestamp) -> (r: Result<Option<Report>, ApiError>)
    requires
        old(db).wf(),
        snapshot_ids@.len() == snapshots@.len(),
    ensures
        final(db).wf(),
        file_outcome(*old(db), *final(db), *user, data, context, snapshots@, id, snapshot_ids@, now, transition, r),
{
    let ghost db0 = *db;
    let ghost rows = db0.spec_report_rows();
    let key = dedupe_key(user.id.as_str(), &data);
    let existing = match db.fetch_reports_by_status(None) {
        Ok(v) => v,
        Err(e) => return Err(e),
    };
    proof {
        crate::store::lemma_all_reports(db0);
        assert forall|j: int| #![trigger existing@[j]] #![trigger rows[j]] 0 <= j < rows.len() implies collapses_into(existing@[j], user.id@, key@) == collapses_into(rows[j], user.id@, key@) by {
            assert(same_report(existing@[j], rows[j]));
        }
    }
    match find_collapse(&existing, user.id.as_str(), key.as_str()) {
        Some(i) => {
            let mut target = existing[i].duplicate();
            proof {
                assert(same_report(existing@[i as int], rows[i as int]));
                assert(is_first_collapse(rows, i as int, user.id@, key@));
            }
            if !holds(&target.related_report_ids, id.as_str()) {
                target.related_report_ids.push(id);
            }
            target.updated_at = Some(now);
            let target_id = target.id.clone();
            match db.update_report(target_id.as_str(), &target) {
                Ok(()) => {},
                Err(e) => return Err(e),
            }
            return Ok(None);
        },
        None => {},
    }
    proof {
        assert(collapses_into_none(rows, user.id@, key@));
    }
    let ghost all_new = new_snapshots(snapshot_ids@, id, snapshots@);
    let ghost sids = snapshot_ids@;
    let ghost contents0 = snapshots@;
    let n = snapshots.len();
    let mut j: usize = 0;
    while j < n
        invariant
            db.wf(),
            j <= n,
            n == contents0.len(),
            sids.len() == n,
            contents0 == snapshots@,
            sids == snapshot_ids@,
            all_new == new_snapshots(sids, id, contents0),
            db.spec_snapshots() == with_snapshots(db0.spec_snapshots(), all_new.take(j as int)),
            db.spec_reports() == db0.spec_reports(),
            db.spec_report_keys() == db0.spec_report_keys(),
            db.spec_report_rows() == db0.spec_report_rows(),
            db.spec_stickers() == db0.spec_stickers(),
            db.spec_clips() == db0.spec_clips(),
            views(sids.take(j as int)).no_duplicates(),
            forall|k: int| 0 <= k < j ==> !db0.spec_snapshots().contains_key(#[trigger] sids[k]@),
            db0 == *old(db),
            rows == db0.spec_report_rows(),
            key@ == spec_dedupe_key(user.id@, data),
            collapses_into_none(rows, user.id@, key@),
        decreases n - j,
    {
        let snapshot = Snapshot { id: snapshot_ids[j].clone(), report_id: id.clone(), content: snapshots[j].clone() };
        proof {
            assert(snapshot == all_new[j as int]);
            lemma_with_snapshots_keys(db0.spec_snapshots(), all_new.take(j as int), snapshot.id@);
        }
        match db.insert_snapshot(&snapshot) {
            Ok(()) => {},
            Err(e) => {
                proof {
                    if db0.spec_snapshots().contains_key(snapshot.id@) {
                        assert(db0.spec_snapshots().contains_key(sids[j as int]@));
                    } else {
                        let k = choose|k: int| 0 <= k < all_new.take(j as int).len() && (#[trigger] all_new.take(j as int)[k]).id@ == snapshot.id@;
                        assert(views(sids)[k] == views(sids)[j as int]);
                    }
                    assert(!snapshot_ids_fresh(db0, sids));
                    let t = sids.take(j as int);
                    assert forall|k: int| 0 <= k < t.len() implies !db0.spec_snapshots().contains_key(#[trigger] t[k]@) by {
                        assert(t[k] == sids[k]);
                    }
                    assert(snapshot_ids_fresh(db0, t));
                    let t1 = sids.take(j + 1);
                    if db0.spec_snapshots().contains_key(snapshot.id@) {
                        assert(t1[j as int] == sids[j as int]);
                    } else {
                        let k = choose|k: int| 0 <= k < all_new.take(j as int).len() && (#[trigger] all_new.take(j as int)[k]).id@ == snapshot.id@;
                        assert(views(t1)[k] == views(t1)[j as int]);
                    }
                    assert(!snapshot_ids_fresh(db0, t1));
                    assert(is_refused_at(db0, sids, j as int));
                    assert forall|j2: int| #[trigger] is_refused_at(db0, sids, j2) implies j2 == j by {
                        if j2 < j {
                            lemma_fresh_prefix(db0, sids, j as int, j2 + 1);
                        } else if j2 > j {
                            lemma_fresh_prefix(db0, sids, j2, j + 1);
                        }
                    }
                }
                return Err(e);
            },
        }
        proof {
            assert(all_new.take(j + 1).drop_last() =~= all_new.take(j as int));
            assert(all_new.take(j + 1).last() == snapshot);
            assert(views(sids.take(j + 1)) =~= views(sids.take(j as int)).push(sids[j as int]@));
            assert forall|k: int| 0 <= k < j implies views(sids.take(j as int))[k] != sids[j as int]@ by {
                if views(sids.take(j as int))[k] == sids[j as int]@ {
                    assert(all_new.take(j as int)[k].id@ == snapshot.id@);
                }
            }
        }
        j = j + 1;
    }
    proof {
        assert(all_new.take(n as int) =~= all_new);
        assert(sids.take(n as int) =~= sids);
        assert(snapshot_ids_fresh(db0, sids));
        assert forall|j2: int| !#[trigger] is_refused_at(db0, sids, j2) by {
            if 0 <= j2 < n {
                lemma_fresh_prefix(db0, sids, n as int, j2 + 1);
            }
        }
    }
    let severity = match data.severity {
        Some(s) => s,
        None => ReportSeverity::Medium,
    };
    let priority = match data.priority {
        Some(p) => p,
        None => ReportPriority::Normal,
    };
    let risk_score = match data.risk_score {
        Some(v) => if v <= 100 { Some(v) } else { None },
        None => None,
    };
    let confidence_score = match data.confidence_score {
        Some(v) => if v <= 100 { Some(v) } else { None },
        None => None,
    };
    let report = Report {
        id,
        author_id: user.id.clone(),
        content: data.content,
        additional_context: data.additional_context,
        report_context: Some(context),
        reporter_metadata: data.reporter_metadata,
        severity,
        priority,
        risk_score,
        confidence_score,
        dedupe_key: Some(key),
        related_report_ids: Vec::new(),
        created_at: Some(now),
        updated_at: None,
        last_transition_at: Some(transition),
        resolved_at: None,
        sla_deadline: None,
        breach_state: false,
        status: ReportStatus::Created,
        notes: String::new(),
        assignee_id: None,
        reviewer_id: None,
    };
    match db.insert_report(&report) {
        Ok(()) => {},
        Err(e) => return Err(e),
    }
    Ok(Some(report))
}

/// The saved form of a piece of found content, and the attachments it refers to.
pub struct SnapshotSource {
    pub content: String,
    pub files: Vec<String>,
}

/// Whether a report of `content` keeps the message it links to: only a report
/// of a user that names a message does.
pub open spec fn keeps_linked(content: ReportedContent) -> bool {
    content matches ReportedContent::User { message_id: Some(_), .. }
}

/// The snapshots kept with a report of `content`: the saved form of the
/// reported content (`primary`), followed by that of the linked message
/// (`linked`) when the report keeps one and it was found.
pub open spec fn planned_snapshots(content: ReportedContent, primary: SnapshotSource, linked: Option<SnapshotSource>) -> Seq<String> {
    if keeps_linked(content) && linked is Some {
        seq![primary.content, linked->Some_0.content]
    } else {
        seq![primary.content]
    }
}

/// The attachments marked as reported with a report of `content`: those of
/// the reported content, followed by those of the linked message when the
/// report keeps one and it was found.
pub open spec fn planned_files(content: ReportedContent, primary: SnapshotSource, linked: Option<SnapshotSource>) -> Seq<String> {
    if keeps_linked(content) && linked is Some {
        primary.files@ + linked->Some_0.files@
    } else {
        primary.files@
    }
}

/// The snapshots to keep with a report of `content`, and the attachments to
/// mark as reported, as `planned_snapshots` and `planned_files` say.
pub fn plan_snapshots(content: &ReportedContent, primary: &SnapshotSource, linked: &Option<SnapshotSource>) -> (r: (Vec<String>, Vec<String>))
    ensures
        r.0@ == planned_snapshots(*content, *primary, *linked),
        r.1@ == planned_files(*content, *primary, *linked),
{
    let keep = match content {
        ReportedContent::User { message_id: Some(_), .. } => true,
        _ => false,
    };
    let mut files = copy_strings(&primary.files);
    let mut snapshots: Vec<String> = Vec::new();
    snapshots.push(primary.content.clone());
    if keep {
        match linked {
            Some(m) => {
                let mut more = copy_strings(&m.files);
                snapshots.push(m.content.clone());
                files.append(&mut more);
            },
            None => {},
        }
    }
    (snapshots, files)
}

/// Fresh ULIDs, `n` of them.
fn new_ids(n: usize) -> (ids: Vec<String>)
    ensures
        ids@.len() == n,
        forall|j: int| 0 <= j < n ==> (#[trigger] ids@[j])@.len() == 26,
{
    let mut ids: Vec<String> = Vec::new();
    let mut i: usize = 0;
    while i < n
        invariant
            i <= n,
            ids@.len() == i,
            forall|j: int| 0 <= j < i ==> (#[trigger] ids@[j])@.len() == 26,
        decreases n - i,
    {
        ids.push(new_ulid_string());
        i = i + 1;
    }
    ids
}

/// Files the report `data` by `user` of content found as `found`, whose saved
/// form and attachments are `primary`, with those of the message that a user
/// report links to in `linked` when that message was found.
///
/// The request is checked as `check_report_request` states, then the reporter
/// as `report_context_for` states; a refused request changes nothing. Then the
/// report is filed as `file_outcome` states, under a fresh ULID (26
/// characters), with the snapshots that `planned_snapshots` lists, each under
/// a fresh ULID and carrying the new report's id, and the clock read twice.
pub fn report_content(db: &mut ReferenceDb, user: &User, data: DataReportContent, found: &FoundContent, primary: &SnapshotSource, linked: &Option<SnapshotSource>) -> (r: Result<Option<Report>, ApiError>)
    requires
        old(db).wf(),
        found_matches(data.content, *found),
    ensures
        final(db).wf(),
        data.additional_context@.len() > MAX_ADDITIONAL_CONTEXT ==> (r matches Err(e) && e.is_validation(CONTEXT_TOO_LONG@)),
        data.additional_context@.len() <= MAX_ADDITIONAL_CONTEXT && user.bot ==> (r matches Err(e) && e is IsBot),
        data.additional_context@.len() <= MAX_ADDITIONAL_CONTEXT && !user.bot && reports_self(*user, *found) ==> (r matches Err(e) && e is CannotReportYourself),
        (data.additional_context@.len() > MAX_ADDITIONAL_CONTEXT || user.bot || reports_self(*user, *found)) ==> *final(db) == *old(db),
        data.additional_context@.len() <= MAX_ADDITIONAL_CONTEXT && !user.bot && !reports_self(*user, *found) ==> exists|id: String, sids: Seq<String>, now: Timestamp, transition: Timestamp|
            #[trigger] file_outcome(*old(db), *final(db), *user, data, spec_report_context(data.content, *found), planned_snapshots(data.content, *primary, *linked), id, sids, now, transition, r)
            && sids.len() == planned_snapshots(data.content, *primary, *linked).len() && id@.len() == 26
            && forall|j: int| 0 <= j < sids.len() ==> (#[trigger] sids[j])@.len() == 26,
{
    match check_report_request(user, &data) {
        Ok(()) => {},
        Err(e) => return Err(e),
    }
    let context = match report_context_for(user, &data.content, found) {
        Ok(c) => c,
        Err(e) => return Err(e),
    };
    let (snapshots, _files) = plan_snapshots(&data.content, primary, linked);
    let id = new_ulid_string();
    let snapshot_ids = new_ids(snapshots.len());
    let now = now_utc();
    let transition = now_utc();
    let ghost sids = snapshot_ids@;
    let r = file_report_at(db, user, data, context, snapshots, id, snapshot_ids, now, transition);
    proof {
        assert(sids.len() == snapshots@.len());
    }
    r
}

/// Each of the snapshots `s`, whose ids are distinct, is found under its id
/// once they are all stored.
proof fn lemma_with_snapshots_values(m: Map<Seq<char>, Snapshot>, s: Seq<Snapshot>, j: int)
    requires
        0 <= j < s.len(),
        forall|a: int, b: int| 0 <= a < b < s.len() ==> (#[trigger] s[a]).id@ != (#[trigger] s[b]).id@,
    ensures
        with_snapshots(m, s).contains_key(s[j].id@),
        with_snapshots(m, s)[s[j].id@] == s[j],
    decreases s.len(),
{
    if j < s.len() - 1 {
        let t = s.drop_last();
        assert forall|a: int, b: int| 0 <= a < b < t.len() implies (#[trigger] t[a]).id@ != (#[trigger] t[b]).id@ by {
            assert(t[a] == s[a] && t[b] == s[b]);
        }
        lemma_with_snapshots_values(m, t, j);
        assert(t[j] == s[j]);
        assert(s[j].id@ != s[s.len() - 1].id@);
    }
}

/// A new report keeps the snapshots of what it reports: when filing adds a
/// new report (no open report collapses it, its snapshot ids are fresh and its
/// id is not stored), the answer is that report, and the store gains one
/// snapshot per planned content and nothing else. The `j`-th is stored under
/// its id `sids[j]`, holds the `j`-th planned content and carries the new
/// report's id. There is one such snapshot, or two when a user report names a
/// message that was found.
pub proof fn law_new_report_snapshots(db0: ReferenceDb, db1: ReferenceDb, user: User, data: DataReportContent, context: ReportContext, primary: SnapshotSource, linked: Option<SnapshotSource>, id: String, sids: Seq<String>, now: Timestamp, transition: Timestamp, r: Result<Option<Report>, ApiError>, k: Seq<char>)
    requires
        file_outcome(db0, db1, user, data, context, planned_snapshots(data.content, primary, linked), id, sids, now, transition, r),
        sids.len() == planned_snapshots(data.content, primary, linked).len(),
        collapses_into_none(db0.spec_report_rows(), user.id@, spec_dedupe_key(user.id@, data)),
        snapshot_ids_fresh(db0, sids),
        !db0.spec_reports().contains_key(id@),
    ensures
        r matches Ok(Some(rep)) && rep.id == id,
        sids.len() == (if keeps_linked(data.content) && linked is Some { 2int } else { 1int }),
        db1.spec_snapshots().contains_key(k) <==> (db0.spec_snapshots().contains_key(k) || exists|j: int| 0 <= j < sids.len() && (#[trigger] sids[j])@ == k),
        forall|j: int| 0 <= j < sids.len() ==> db1.spec_snapshots().contains_key((#[trigger] sids[j])@)
            && db1.spec_snapshots()[sids[j]@] == (Snapshot { id: sids[j], report_id: id, content: planned_snapshots(data.content, primary, linked)[j] }),
{
    let contents = planned_snapshots(data.content, primary, linked);
    let made = new_snapshots(sids, id, contents);
    lemma_with_snapshots_keys(db0.spec_snapshots(), made, k);
    if exists|j: int| 0 <= j < made.len() && (#[trigger] made[j]).id@ == k {
        let j = choose|j: int| 0 <= j < made.len() && (#[trigger] made[j]).id@ == k;
        assert(sids[j]@ == k);
    }
    if exists|j: int| 0 <= j < sids.len() && (#[trigger] sids[j])@ == k {
        let j = choose|j: int| 0 <= j < sids.len() && (#[trigger] sids[j])@ == k;
        assert(made[j].id@ == k);
    }
    assert forall|a: int, b: int| 0 <= a < b < made.len() implies (#[trigger] made[a]).id@ != (#[trigger] made[b]).id@ by {
        assert(views(sids)[a] == sids[a]@ && views(sids)[b] == sids[b]@);
    }
    assert forall|j: int| 0 <= j < sids.len() implies db1.spec_snapshots().contains_key((#[trigger] sids[j])@)
        && db1.spec_snapshots()[sids[j]@] == (Snapshot { id: sids[j], report_id: id, content: contents[j] }) by {
        lemma_with_snapshots_values(db0.spec_snapshots(), made, j);
    }
}

/// A repeated report collapses: when its author already has an open report of
/// the same content under the same collapse key, and that report's id is a
/// stored key, filing adds no report; the set of stored reports keeps its ids
/// and the answer is `Ok(None)`.
pub proof fn law_repeat_report_collapses(db0: ReferenceDb, db1: ReferenceDb, user: User, data: DataReportContent, context: ReportContext, snapshots: Seq<String>, id: String, sids: Seq<String>, now: Timestamp, transition: Timestamp, r: Result<Option<Report>, ApiError>, i: int)
    requires
        file_outcome(db0, db1, user, data, context, snapshots, id, sids, now, transition, r),
        is_first_collapse(db0.spec_report_rows(), i, user.id@, spec_dedupe_key(user.id@, data)),
        db0.spec_reports().contains_key(db0.spec_report_rows()[i].id@),
    ensures
        r == Ok::<Option<Report>, ApiError>(None),
        db1.spec_report_keys() == db0.spec_report_keys(),
        db1.spec_reports().dom() == db0.spec_reports().dom(),
        views(db1.spec_reports()[db0.spec_report_rows()[i].id@].related_report_ids@).contains(id@),
{
    let t = db0.spec_report_rows()[i];
    let after = db1.spec_reports()[t.id@];
    assert(db1.spec_reports().dom() =~= db0.spec_reports().dom());
    if !views(t.related_report_ids@).contains(id@) {
        assert(views(after.related_report_ids@)[t.related_report_ids@.len() as int] == id@);
    }
}

/// Some report of `rows` that a new one collapses into makes one of them the first.
proof fn lemma_first_collapse_exists(rows: Seq<Report>, i: int, author: Seq<char>, key: Seq<char>)
    requires
        0 <= i < rows.len(),
        collapses_into(rows[i], author, key),
    ensures
        exists|j: int| #[trigger] is_first_collapse(rows, j, author, key),
    decreases i,
{
    if exists|j: int| 0 <= j < i && collapses_into(#[trigger] rows[j], author, key) {
        let j = choose|j: int| 0 <= j < i && collapses_into(#[trigger] rows[j], author, key);
        lemma_first_collapse_exists(rows, j, author, key);
    } else {
        assert(is_first_collapse(rows, i, author, key));
    }
}

/// A repeat of an open report collapses: when a stored report by the same
/// author under the same collapse key is created, in review or escalated,
/// filing stores no new report and keeps the set of stored reports; the answer
/// is `Ok(None)`, or `NotFound` when the report it collapses into is not held
/// under its own id (then nothing changes).
pub proof fn law_open_repeat_collapses(db0: ReferenceDb, db1: ReferenceDb, user: User, data: DataReportContent, context: ReportContext, snapshots: Seq<String>, id: String, sids: Seq<String>, now: Timestamp, transition: Timestamp, r: Result<Option<Report>, ApiError>, i: int)
    requires
        file_outcome(db0, db1, user, data, context, snapshots, id, sids, now, transition, r),
        0 <= i < db0.spec_report_rows().len(),
        db0.spec_report_rows()[i].author_id@ == user.id@,
        db0.spec_report_rows()[i].dedupe_key matches Some(k) && k@ == spec_dedupe_key(user.id@, data),
        db0.spec_report_rows()[i].status is Created || db0.spec_report_rows()[i].status is InReview
            || db0.spec_report_rows()[i].status is Escalated,
    ensures
        r == Ok::<Option<Report>, ApiError>(None) || (r matches Err(e) && e is NotFound),
        db1.spec_report_keys() == db0.spec_report_keys(),
        db1.spec_reports().dom() == db0.spec_reports().dom(),
        (forall|j: int| 0 <= j < db0.spec_report_rows().len() ==> db0.spec_reports().contains_key(#[trigger] db0.spec_report_rows()[j].id@))
            ==> r == Ok::<Option<Report>, ApiError>(None),
{
    let rows = db0.spec_report_rows();
    let key = spec_dedupe_key(user.id@, data);
    assert(collapses_into(rows[i], user.id@, key));
    lemma_first_collapse_exists(rows, i, user.id@, key);
    let j = choose|j: int| #[trigger] is_first_collapse(rows, j, user.id@, key);
    if db0.spec_reports().contains_key(rows[j].id@) {
        law_repeat_report_collapses(db0, db1, user, data, context, snapshots, id, sids, now, transition, r, j);
    }
}

} // verus!
