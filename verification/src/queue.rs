//! The moderation queue: which reports a staff member sees, in which order,
//! and the queue-level counts.
use vstd::prelude::*;

use crate::error::ApiError;
use crate::permissions::{ensure_permission, spec_has_permission, PERM_REPORTS_READ};
use crate::reports::{
    parse_priority, parse_severity, parse_status, spec_priority_named, spec_severity_named,
    spec_status_named, status_kind, Report, ReportPriority, ReportSeverity, ReportStatusString,
};
use crate::store::{reports_with_status, same_reports, ReferenceDb};
use crate::text::str_eq;
use crate::users::User;

verus! {

/// Lexicographic order of texts by code point, as `Ord` on `String` orders them.
pub open spec fn lex_le(a: Seq<char>, b: Seq<char>) -> bool
    decreases a.len(),
{
    if a.len() == 0 {
        true
    } else if b.len() == 0 {
        false
    } else if a[0] < b[0] {
        true
    } else if a[0] > b[0] {
        false
    } else {
        lex_le(a.drop_first(), b.drop_first())
    }
}

/// Any two texts are ordered one way or the other.
pub proof fn lemma_lex_total(a: Seq<char>, b: Seq<char>)
    ensures
        lex_le(a, b) || lex_le(b, a),
    decreases a.len(),
{
    if a.len() > 0 && b.len() > 0 && a[0] == b[0] {
        lemma_lex_total(a.drop_first(), b.drop_first());
    }
}

/// Texts ordered both ways are equal.
pub proof fn lemma_lex_antisymmetric(a: Seq<char>, b: Seq<char>)
    requires
        lex_le(a, b),
        lex_le(b, a),
    ensures
        a == b,
    decreases a.len(),
{
    if a.len() > 0 {
        assert(b.len() > 0);
        lemma_lex_antisymmetric(a.drop_first(), b.drop_first());
        assert(a =~= seq![a[0]] + a.drop_first());
        assert(b =~= seq![b[0]] + b.drop_first());
    } else {
        assert(b.len() == 0);
        assert(a =~= b);
    }
}

/// The order is transitive.
pub proof fn lemma_lex_transitive(a: Seq<char>, b: Seq<char>, c: Seq<char>)
    requires
        lex_le(a, b),
        lex_le(b, c),
    ensures
        lex_le(a, c),
    decreases a.len(),
{
    if a.len() > 0 && b.len() > 0 && c.len() > 0 && a[0] == b[0] && b[0] == c[0] {
        lemma_lex_transitive(a.drop_first(), b.drop_first(), c.drop_first());
    }
}

/// Orders `a` and `b` as `lex_le` does.
pub fn text_le(a: &str, b: &str) -> (r: bool)
    ensures
        r == lex_le(a@, b@),
{
    let n = a.unicode_len();
    let m = b.unicode_len();
    let mut i: usize = 0;
    assert(a@.skip(0) =~= a@);
    assert(b@.skip(0) =~= b@);
    while i < n && i < m
        invariant
            n == a@.len(),
            m == b@.len(),
            i <= n,
            i <= m,
            a@.subrange(0, i as int) == b@.subrange(0, i as int),
            lex_le(a@, b@) == lex_le(a@.skip(i as int), b@.skip(i as int)),
        decreases n - i,
    {
        let x = a.get_char(i);
        let y = b.get_char(i);
        proof {
            assert(a@.skip(i as int)[0] == x);
            assert(b@.skip(i as int)[0] == y);
        }
        if x < y {
            return true;
        }
        if x > y {
            return false;
        }
        proof {
            assert(a@.skip(i as int).drop_first() =~= a@.skip(i + 1));
            assert(b@.skip(i as int).drop_first() =~= b@.skip(i + 1));
            assert(a@.subrange(0, i + 1) =~= a@.subrange(0, i as int).push(x));
            assert(b@.subrange(0, i + 1) =~= b@.subrange(0, i as int).push(y));
        }
        i = i + 1;
    }
    proof {
        assert(a@.skip(i as int).len() == n - i);
    }
    i == n
}

/// How the queue is ordered.
#[derive(Debug, Clone, Copy, PartialEq, Eq, Structural)]
pub enum QueueOrder {
    /// Highest risk score first; a report without a score counts lowest.
    RiskDesc,
    /// Most urgent priority first.
    PriorityDesc,
    /// Lowest id (oldest) first.
    Oldest,
    /// Highest id (newest) first.
    Newest,
}

/// The order a sort text names; anything else is newest first.
pub open spec fn spec_queue_order(sort: Option<Seq<char>>) -> QueueOrder {
    match sort {
        Some(s) => if s == "risk_desc"@ {
            QueueOrder::RiskDesc
        } else if s == "priority_desc"@ {
            QueueOrder::PriorityDesc
        } else if s == "oldest"@ {
            QueueOrder::Oldest
        } else {
            QueueOrder::Newest
        },
        None => QueueOrder::Newest,
    }
}

/// The order a sort text names.
pub fn queue_order(sort: Option<&str>) -> (o: QueueOrder)
    ensures
        o == spec_queue_order(match sort { Some(s) => Some(s@), None => None }),
{
    match sort {
        Some(s) => if str_eq(s, "risk_desc") {
            QueueOrder::RiskDesc
        } else if str_eq(s, "priority_desc") {
            QueueOrder::PriorityDesc
        } else if str_eq(s, "oldest") {
            QueueOrder::Oldest
        } else {
            QueueOrder::Newest
        },
        None => QueueOrder::Newest,
    }
}

/// The rank of a priority, lowest first.
pub open spec fn priority_rank(p: ReportPriority) -> int {
    match p {
        ReportPriority::Low => 0,
        ReportPriority::Normal => 1,
        ReportPriority::High => 2,
        ReportPriority::Urgent => 3,
    }
}

/// A risk score as a number, an absent score below every present one.
pub open spec fn risk_value(r: Option<u8>) -> int {
    match r {
        Some(v) => v as int,
        None => -1,
    }
}

/// Whether `a` may stand before `b` in the queue under `order`.
pub open spec fn queue_le(order: QueueOrder, a: Report, b: Report) -> bool {
    match order {
        QueueOrder::RiskDesc => risk_value(a.risk_score) >= risk_value(b.risk_score),
        QueueOrder::PriorityDesc => priority_rank(a.priority) >= priority_rank(b.priority),
        QueueOrder::Oldest => lex_le(a.id@, b.id@),
        QueueOrder::Newest => lex_le(b.id@, a.id@),
    }
}

proof fn lemma_queue_total(order: QueueOrder, a: Report, b: Report)
    ensures
        queue_le(order, a, b) || queue_le(order, b, a),
{
    lemma_lex_total(a.id@, b.id@);
}

proof fn lemma_queue_transitive(order: QueueOrder, a: Report, b: Report, c: Report)
    requires
        queue_le(order, a, b),
        queue_le(order, b, c),
    ensures
        queue_le(order, a, c),
{
    match order {
        QueueOrder::Oldest => lemma_lex_transitive(a.id@, b.id@, c.id@),
        QueueOrder::Newest => lemma_lex_transitive(c.id@, b.id@, a.id@),
        _ => {},
    }
}

fn rank_of(p: ReportPriority) -> (r: u8)
    ensures
        r as int == priority_rank(p),
{
    match p {
        ReportPriority::Low => 0,
        ReportPriority::Normal => 1,
        ReportPriority::High => 2,
        ReportPriority::Urgent => 3,
    }
}

/// Whether `a` may stand before `b` under `order`.
pub fn queue_before(order: QueueOrder, a: &Report, b: &Report) -> (r: bool)
    ensures
        r == queue_le(order, *a, *b),
{
    match order {
        QueueOrder::RiskDesc => {
            let x: i16 = match a.risk_score {
                Some(v) => v as i16,
                None => -1,
            };
            let y: i16 = match b.risk_score {
                Some(v) => v as i16,
                None => -1,
            };
            x >= y
        },
        QueueOrder::PriorityDesc => rank_of(a.priority) >= rank_of(b.priority),
        QueueOrder::Oldest => text_le(a.id.as_str(), b.id.as_str()),
        QueueOrder::Newest => text_le(b.id.as_str(), a.id.as_str()),
    }
}

/// Whether `s` is in queue order.
pub open spec fn queue_sorted(order: QueueOrder, s: Seq<Report>) -> bool {
    forall|i: int, j: int| 0 <= i < j < s.len() ==> queue_le(order, #[trigger] s[i], #[trigger] s[j])
}

proof fn lemma_push_multiset<A>(s: Seq<A>, x: A)
    ensures
        s.push(x).to_multiset() == s.to_multiset().insert(x),
{
    s.to_multiset_ensures();
}

proof fn lemma_insert_multiset<A>(s: Seq<A>, p: int, x: A)
    requires
        0 <= p <= s.len(),
    ensures
        s.insert(p, x).to_multiset() == s.to_multiset().insert(x),
{
    broadcast use vstd::multiset::group_multiset_axioms;

    let a = s.take(p);
    let b = s.skip(p);
    assert(s.insert(p, x) =~= a + (seq![x] + b));
    assert(s =~= a + b);
    vstd::seq_lib::lemma_multiset_commutative(a, seq![x] + b);
    vstd::seq_lib::lemma_multiset_commutative(seq![x], b);
    vstd::seq_lib::lemma_multiset_commutative(a, b);
    Seq::<A>::empty().to_multiset_ensures();
    assert(seq![x] =~= Seq::<A>::empty().push(x));
    assert(s.insert(p, x).to_multiset() =~= s.to_multiset().insert(x));
}

/// Where `x` joins the ordered `s`: after every leading report of `s` that may
/// stand before it, so before the first that must come after it.
pub open spec fn insert_position(order: QueueOrder, s: Seq<Report>, x: Report) -> nat
    decreases s.len(),
{
    if s.len() == 0 || !queue_le(order, s[0], x) {
        0
    } else {
        1 + insert_position(order, s.drop_first(), x)
    }
}

/// `s` put in queue order by inserting each report in turn after every report
/// that may stand before it: reports that compare equal keep their order.
pub open spec fn queue_sort(order: QueueOrder, s: Seq<Report>) -> Seq<Report>
    decreases s.len(),
{
    if s.len() == 0 {
        Seq::empty()
    } else {
        let t = queue_sort(order, s.drop_last());
        t.insert(insert_position(order, t, s.last()) as int, s.last())
    }
}

proof fn lemma_insert_position(order: QueueOrder, s: Seq<Report>, x: Report, p: int)
    requires
        0 <= p <= s.len(),
        forall|k: int| 0 <= k < p ==> queue_le(order, #[trigger] s[k], x),
        p == s.len() || !queue_le(order, s[p], x),
    ensures
        insert_position(order, s, x) == p,
    decreases s.len(),
{
    if p > 0 {
        assert(queue_le(order, s[0], x));
        let t = s.drop_first();
        assert forall|k: int| 0 <= k < p - 1 implies queue_le(order, #[trigger] t[k], x) by {
            assert(t[k] == s[k + 1]);
        }
        if p < s.len() {
            assert(t[p - 1] == s[p]);
        }
        lemma_insert_position(order, t, x, p - 1);
    }
}

proof fn lemma_insert_position_bounds(order: QueueOrder, s: Seq<Report>, x: Report)
    ensures
        insert_position(order, s, x) <= s.len(),
        forall|k: int| 0 <= k < insert_position(order, s, x) ==> queue_le(order, #[trigger] s[k], x),
        insert_position(order, s, x) < s.len() ==> !queue_le(order, s[insert_position(order, s, x) as int], x),
    decreases s.len(),
{
    if s.len() > 0 && queue_le(order, s[0], x) {
        let t = s.drop_first();
        lemma_insert_position_bounds(order, t, x);
        let p = insert_position(order, s, x) as int;
        assert forall|k: int| 0 <= k < p implies queue_le(order, #[trigger] s[k], x) by {
            if k > 0 {
                assert(s[k] == t[k - 1]);
            }
        }
        if p < s.len() {
            assert(s[p] == t[p - 1]);
        }
    }
}

/// Inserting `x` where it joins an ordered list keeps the list ordered.
proof fn lemma_insert_sorted(order: QueueOrder, before: Seq<Report>, x: Report)
    requires
        queue_sorted(order, before),
    ensures
        queue_sorted(order, before.insert(insert_position(order, before, x) as int, x)),
{
    lemma_insert_position_bounds(order, before, x);
    let p = insert_position(order, before, x) as int;
    let out = before.insert(p, x);
    if p < before.len() {
        lemma_queue_total(order, before[p], x);
    }
    assert forall|a: int, b: int| 0 <= a < b < out.len() implies queue_le(order, #[trigger] out[a], #[trigger] out[b]) by {
        if a < p && b < p {
            assert(out[a] == before[a] && out[b] == before[b]);
        } else if a < p && b == p {
        } else if a < p && b > p {
            assert(out[a] == before[a] && out[b] == before[b - 1]);
            assert(queue_le(order, before[a], x));
            assert(queue_le(order, x, before[p]));
            if b - 1 > p {
                assert(queue_le(order, before[p], before[b - 1]));
                lemma_queue_transitive(order, x, before[p], before[b - 1]);
            }
            lemma_queue_transitive(order, before[a], x, before[b - 1]);
        } else if a == p {
            assert(out[b] == before[b - 1]);
            if b - 1 > p {
                assert(queue_le(order, before[p], before[b - 1]));
                lemma_queue_transitive(order, x, before[p], before[b - 1]);
            }
        } else {
            assert(out[a] == before[a - 1] && out[b] == before[b - 1]);
        }
    }
}

/// The queue order is a sort: its result is in queue order and holds the same
/// reports, each as often.
pub proof fn law_queue_sort_sorts(order: QueueOrder, s: Seq<Report>)
    ensures
        queue_sorted(order, queue_sort(order, s)),
        queue_sort(order, s).to_multiset() == s.to_multiset(),
        queue_sort(order, s).len() == s.len(),
    decreases s.len(),
{
    if s.len() == 0 {
        s.to_multiset_ensures();
        Seq::<Report>::empty().to_multiset_ensures();
        assert(s =~= Seq::<Report>::empty());
    } else {
        let t = queue_sort(order, s.drop_last());
        law_queue_sort_sorts(order, s.drop_last());
        lemma_insert_sorted(order, t, s.last());
        lemma_insert_position_bounds(order, t, s.last());
        lemma_insert_multiset(t, insert_position(order, t, s.last()) as int, s.last());
        lemma_push_multiset(s.drop_last(), s.last());
        assert(s.drop_last().push(s.last()) =~= s);
    }
}

/// Puts `reports` in queue order, as `queue_sort` does: reports that compare
/// equal keep their relative order.
pub fn sort_queue(reports: Vec<Report>, order: QueueOrder) -> (out: Vec<Report>)
    ensures
        out@ == queue_sort(order, reports@),
        queue_sorted(order, out@),
        out@.to_multiset() == reports@.to_multiset(),
{
    let ghost all = reports@;
    let mut rest = reports;
    let mut out: Vec<Report> = Vec::new();
    let n = rest.len();
    let mut i: usize = 0;
    proof {
        assert(all.take(0) =~= Seq::<Report>::empty());
        assert(out@ =~= Seq::<Report>::empty());
        assert(all.skip(0) =~= all);
    }
    while i < n
        invariant
            n == all.len(),
            i <= n,
            rest@ == all.skip(i as int),
            out@ == queue_sort(order, all.take(i as int)),
        decreases n - i,
    {
        let x = rest.remove(0);
        // find the first position whose report must come after `x`
        let mut p: usize = 0;
        while p < out.len() && queue_before(order, &out[p], &x)
            invariant
                p <= out@.len(),
                forall|k: int| 0 <= k < p ==> queue_le(order, #[trigger] out@[k], x),
            decreases out@.len() - p,
        {
            p = p + 1;
        }
        let ghost before = out@;
        proof {
            lemma_insert_position(order, before, x, p as int);
            assert(all.skip(i as int)[0] == x);
            assert(all.take(i + 1).drop_last() =~= all.take(i as int));
            assert(all.take(i + 1).last() == x);
        }
        out.insert(p, x);
        proof {
            assert(rest@ =~= all.skip(i + 1));
        }
        i = i + 1;
    }
    assert(all.take(n as int) =~= all);
    proof {
        law_queue_sort_sorts(order, all);
    }
    out
}

/// The moderation queue's query.
pub struct ReportQueueQuery {
    /// Status filter, by name.
    pub status: Option<String>,
    /// Severity filter, by name.
    pub severity: Option<String>,
    /// Priority filter, by name.
    pub priority: Option<String>,
    pub assignee_id: Option<String>,
    pub reviewer_id: Option<String>,
    pub limit: Option<usize>,
    pub offset: Option<usize>,
    /// Order by name: `risk_desc`, `priority_desc`, `oldest`; newest first otherwise.
    pub sort: Option<String>,
}

/// One page of the moderation queue.
pub struct ReportQueueResponse {
    pub reports: Vec<Report>,
    /// How many reports passed the filters, before paging.
    pub total: usize,
}

/// Whether an optional id of a report equals the wanted id, when one is wanted.
pub open spec fn id_filter_ok(want: Option<String>, have: Option<String>) -> bool {
    want matches Some(w) ==> (have matches Some(h) && h@ == w@)
}

/// Whether `r` passes the queue's filters.
pub open spec fn queue_match(q: ReportQueueQuery, severity: Option<ReportSeverity>, priority: Option<ReportPriority>, r: Report) -> bool {
    &&& (severity matches Some(s) ==> r.severity == s)
    &&& (priority matches Some(p) ==> r.priority == p)
    &&& id_filter_ok(q.assignee_id, r.assignee_id)
    &&& id_filter_ok(q.reviewer_id, r.reviewer_id)
}

fn id_filter_passes(want: &Option<String>, have: &Option<String>) -> (b: bool)
    ensures
        b == id_filter_ok(*want, *have),
{
    match want {
        None => true,
        Some(w) => match have {
            Some(h) => str_eq(h.as_str(), w.as_str()),
            None => false,
        },
    }
}

/// The page size the queue uses: the requested limit, 150 when none is given, kept within 1 to 500.
pub open spec fn queue_limit(limit: Option<usize>) -> int {
    let l = match limit {
        Some(l) => l as int,
        None => 150,
    };
    if l < 1 {
        1
    } else if l > 500 {
        500
    } else {
        l
    }
}

/// The items of `s` after the first `offset`, at most `limit` of them.
pub open spec fn page<A>(s: Seq<A>, offset: int, limit: int) -> Seq<A> {
    let start = if offset < s.len() { offset } else { s.len() as int };
    let rest = s.skip(start);
    if rest.len() > limit {
        rest.take(limit)
    } else {
        rest
    }
}

/// The reports of `reports` that pass the filters, in the same order.
pub fn filter_queue(reports: Vec<Report>, q: &ReportQueueQuery, severity: Option<ReportSeverity>, priority: Option<ReportPriority>) -> (out: Vec<Report>)
    ensures
        out@ == reports@.filter(|r: Report| queue_match(*q, severity, priority, r)),
{
    let ghost all = reports@;
    let ghost p = |r: Report| queue_match(*q, severity, priority, r);
    let mut rest = reports;
    let mut out: Vec<Report> = Vec::new();
    let n = rest.len();
    let mut i: usize = 0;
    proof {
        assert(all.skip(0) =~= all);
        assert(all.take(0) =~= Seq::<Report>::empty());
        reveal(Seq::filter);
    }
    while i < n
        invariant
            n == all.len(),
            i <= n,
            rest@ == all.skip(i as int),
            p == (|r: Report| queue_match(*q, severity, priority, r)),
            out@ == all.take(i as int).filter(p),
        decreases n - i,
    {
        let r = rest.remove(0);
        proof {
            assert(all.take(i + 1).drop_last() =~= all.take(i as int));
            assert(all.skip(i as int)[0] == r);
            assert(all.take(i + 1).last() == r);
            reveal(Seq::filter);
        }
        let severity_ok = match severity {
            Some(s) => r.severity == s,
            None => true,
        };
        let priority_ok = match priority {
            Some(pr) => r.priority == pr,
            None => true,
        };
        let keep = severity_ok && priority_ok && id_filter_passes(&q.assignee_id, &r.assignee_id) && id_filter_passes(&q.reviewer_id, &r.reviewer_id);
        if keep {
            out.push(r);
        }
        proof {
            assert(rest@ =~= all.skip(i + 1));
        }
        i = i + 1;
    }
    assert(all.take(n as int) =~= all);
    out
}

/// The items of `v` after the first `offset`, at most `limit` of them.
pub fn take_page(v: Vec<Report>, offset: usize, limit: usize) -> (out: Vec<Report>)
    ensures
        out@ == page(v@, offset as int, limit as int),
{
    let ghost all = v@;
    let mut rest = v;
    let n = rest.len();
    let start = if offset < n { offset } else { n };
    let mut i: usize = 0;
    while i < start
        invariant
            i <= start <= n,
            n == all.len(),
            rest@ == all.skip(i as int),
        decreases start - i,
    {
        rest.remove(0);
        assert(rest@ =~= all.skip(i + 1));
        i = i + 1;
    }
    if rest.len() > limit {
        rest.truncate(limit);
    }
    proof {
        let r = all.skip(start as int);
        if r.len() > limit {
            assert(rest@ =~= r.take(limit as int));
        }
    }
    rest
}

/// The page size the queue uses.
pub fn clamp_limit(limit: Option<usize>, default: usize, lo: usize, hi: usize) -> (l: usize)
    requires
        lo <= hi,
    ensures
        l as int == ({
            let x = match limit { Some(l) => l as int, None => default as int };
            if x < lo { lo as int } else if x > hi { hi as int } else { x }
        }),
{
    let x = match limit {
        Some(l) => l,
        None => default,
    };
    if x < lo {
        lo
    } else if x > hi {
        hi
    } else {
        x
    }
}

/// The sort text of a query, as text.
pub open spec fn sort_text(q: ReportQueueQuery) -> Option<Seq<char>> {
    match q.sort {
        Some(s) => Some(s@),
        None => None,
    }
}

/// The offset of a query; none means the start.
pub open spec fn offset_of(q: ReportQueueQuery) -> int {
    match q.offset {
        Some(o) => o as int,
        None => 0,
    }
}

/// The reports of `s` that pass the queue's filters, in the same order.
pub open spec fn queue_kept(q: ReportQueueQuery, severity: Option<ReportSeverity>, priority: Option<ReportPriority>, s: Seq<Report>) -> Seq<Report> {
    s.filter(|r: Report| queue_match(q, severity, priority, r))
}

/// Whether `resp` is the page that `q` asks for of the reports `kept`: their
/// count, and the page of them put in the order that `q` names.
pub open spec fn is_queue_page(q: ReportQueueQuery, kept: Seq<Report>, resp: ReportQueueResponse) -> bool {
    &&& resp.total == kept.len()
    &&& resp.reports@ == page(queue_sort(spec_queue_order(sort_text(q)), kept), offset_of(q), queue_limit(q.limit))
}

/// Filters, orders and pages `reports` for the queue.
pub fn select_queue(reports: Vec<Report>, q: &ReportQueueQuery, severity: Option<ReportSeverity>, priority: Option<ReportPriority>) -> (resp: ReportQueueResponse)
    ensures
        is_queue_page(*q, queue_kept(*q, severity, priority, reports@), resp),
{
    let kept = filter_queue(reports, q, severity, priority);
    let ghost kept_seq = kept@;
    let order = queue_order(match &q.sort {
        Some(s) => Some(s.as_str()),
        None => None,
    });
    assert(order == spec_queue_order(sort_text(*q)));
    let sorted = sort_queue(kept, order);
    let total = sorted.len();
    proof {
        law_queue_sort_sorts(order, kept_seq);
    }
    let offset = match q.offset {
        Some(o) => o,
        None => 0,
    };
    let limit = clamp_limit(q.limit, 150, 1, 500);
    let page_reports = take_page(sorted, offset, limit);
    let resp = ReportQueueResponse { reports: page_reports, total };
    proof {
        assert(kept_seq == queue_kept(*q, severity, priority, reports@));
    }
    resp
}

/// What the status filter of `q` selects: `Some(None)` when none is given,
/// `Some(Some(k))` when it names `k`, and `None` when it names nothing known.
pub open spec fn status_filter(q: ReportQueueQuery) -> Option<Option<ReportStatusString>> {
    match q.status {
        None => Some(None),
        Some(s) => match spec_status_named(s@) {
            Some(k) => Some(Some(k)),
            None => None,
        },
    }
}

/// What the severity filter of `q` selects, as `status_filter` does.
pub open spec fn severity_filter(q: ReportQueueQuery) -> Option<Option<ReportSeverity>> {
    match q.severity {
        None => Some(None),
        Some(s) => match spec_severity_named(s@) {
            Some(k) => Some(Some(k)),
            None => None,
        },
    }
}

/// What the priority filter of `q` selects, as `status_filter` does.
pub open spec fn priority_filter(q: ReportQueueQuery) -> Option<Option<ReportPriority>> {
    match q.priority {
        None => Some(None),
        Some(s) => match spec_priority_named(s@) {
            Some(k) => Some(Some(k)),
            None => None,
        },
    }
}

/// Whether `resp` answers the query `q` on the store `db`, its filters read as
/// `status`, `severity` and `priority`: the stored reports of that status, the
/// page of those that pass the other filters.
pub open spec fn answers_queue(db: ReferenceDb, q: ReportQueueQuery, status: Option<ReportStatusString>, severity: Option<ReportSeverity>, priority: Option<ReportPriority>, resp: ReportQueueResponse) -> bool {
    exists|fetched: Seq<Report>| #![trigger queue_kept(q, severity, priority, fetched)]
        same_reports(fetched, reports_with_status(db, status))
        && is_queue_page(q, queue_kept(q, severity, priority, fetched), resp)
}

/// The moderation queue as the staff member `user` asks for it.
///
/// Needs the report-reading permission. The status, severity and priority
/// filters are read in that order, the first that names nothing known giving
/// the validation error; then the stored reports are filtered, ordered and paged.
pub fn list_reports(db: &ReferenceDb, user: &User, q: &ReportQueueQuery) -> (r: Result<ReportQueueResponse, ApiError>)
    requires
        db.wf(),
    ensures
        !spec_has_permission(*user, PERM_REPORTS_READ@) ==> (r matches Err(e) && e is NotPrivileged),
        spec_has_permission(*user, PERM_REPORTS_READ@) ==> ({
            let status = status_filter(*q);
            let sev = severity_filter(*q);
            let pri = priority_filter(*q);
            &&& status is None ==> (r matches Err(e) && e.is_validation("Invalid status filter: "@ + q.status->Some_0@))
            &&& status is Some && sev is None ==> (r matches Err(e) && e.is_validation("Invalid severity filter: "@ + q.severity->Some_0@))
            &&& status is Some && sev is Some && pri is None ==> (r matches Err(e) && e.is_validation("Invalid priority filter: "@ + q.priority->Some_0@))
            &&& status is Some && sev is Some && pri is Some ==> (r matches Ok(resp)
                && answers_queue(*db, *q, status->Some_0, sev->Some_0, pri->Some_0, resp))
        }),
{
    ensure_permission(user, PERM_REPORTS_READ)?;
    let status = match parse_status(match &q.status {
        Some(s) => Some(s.as_str()),
        None => None,
    }) {
        Ok(s) => s,
        Err(e) => return Err(e),
    };
    let severity = match parse_severity(match &q.severity {
        Some(s) => Some(s.as_str()),
        None => None,
    }) {
        Ok(s) => s,
        Err(e) => return Err(e),
    };
    let priority = match parse_priority(match &q.priority {
        Some(s) => Some(s.as_str()),
        None => None,
    }) {
        Ok(p) => p,
        Err(e) => return Err(e),
    };
    let fetched = match db.fetch_reports_by_status(status) {
        Ok(v) => v,
        Err(e) => return Err(e),
    };
    let ghost fetched_seq = fetched@;
    let resp = select_queue(fetched, q, severity, priority);
    proof {
        assert(status_filter(*q) == Some(status));
        assert(severity_filter(*q) == Some(severity));
        assert(priority_filter(*q) == Some(priority));
        assert(same_reports(fetched_seq, reports_with_status(*db, status)));
        assert(is_queue_page(*q, queue_kept(*q, severity, priority, fetched_seq), resp));
        assert(answers_queue(*db, *q, status, severity, priority, resp));
    }
    Ok(resp)
}

/// Counts of the queue by status.
pub struct ReportDashboardResponse {
    pub total: usize,
    pub created: usize,
    pub in_review: usize,
    pub escalated: usize,
    pub resolved: usize,
    pub rejected: usize,
}

/// How many reports of `s` have status kind `k`.
pub open spec fn count_kind(s: Seq<Report>, k: ReportStatusString) -> nat {
    s.filter(|r: Report| status_kind(r.status) == k).len()
}

/// The dashboard adds up: every report has exactly one status kind, so the
/// counts by status add up to the total.
pub proof fn law_counts_add_up(s: Seq<Report>)
    ensures
        count_kind(s, ReportStatusString::Created) + count_kind(s, ReportStatusString::InReview) + count_kind(s, ReportStatusString::Escalated)
            + count_kind(s, ReportStatusString::Resolved) + count_kind(s, ReportStatusString::Rejected) == s.len(),
    decreases s.len(),
{
    reveal(Seq::filter);
    if s.len() > 0 {
        law_counts_add_up(s.drop_last());
    }
}

/// Counts the reports of `reports` by status kind.
pub fn count_by_status(reports: &Vec<Report>) -> (d: ReportDashboardResponse)
    ensures
        d.total == reports@.len(),
        d.created == count_kind(reports@, ReportStatusString::Created),
        d.in_review == count_kind(reports@, ReportStatusString::InReview),
        d.escalated == count_kind(reports@, ReportStatusString::Escalated),
        d.resolved == count_kind(reports@, ReportStatusString::Resolved),
        d.rejected == count_kind(reports@, ReportStatusString::Rejected),
{
    let mut created: usize = 0;
    let mut in_review: usize = 0;
    let mut escalated: usize = 0;
    let mut resolved: usize = 0;
    let mut rejected: usize = 0;
    let mut i: usize = 0;
    proof {
        reveal(Seq::filter);
        assert(reports@.take(0) =~= Seq::<Report>::empty());
    }
    while i < reports.len()
        invariant
            i <= reports@.len(),
            created == count_kind(reports@.take(i as int), ReportStatusString::Created),
            in_review == count_kind(reports@.take(i as int), ReportStatusString::InReview),
            escalated == count_kind(reports@.take(i as int), ReportStatusString::Escalated),
            resolved == count_kind(reports@.take(i as int), ReportStatusString::Resolved),
            rejected == count_kind(reports@.take(i as int), ReportStatusString::Rejected),
        decreases reports@.len() - i,
    {
        let ghost t = reports@.take(i + 1);
        proof {
            assert(t.drop_last() =~= reports@.take(i as int));
            assert(t.last() == reports@[i as int]);
            reveal(Seq::filter);
            law_counts_add_up(reports@.take(i as int));
            assert(reports@.take(i as int).len() == i);
        }
        match &reports[i].status {
            crate::reports::ReportStatus::Created => created = created + 1,
            crate::reports::ReportStatus::InReview { .. } => in_review = in_review + 1,
            crate::reports::ReportStatus::Escalated { .. } => escalated = escalated + 1,
            crate::reports::ReportStatus::Resolved { .. } => resolved = resolved + 1,
            crate::reports::ReportStatus::Rejected { .. } => rejected = rejected + 1,
        }
        i = i + 1;
    }
    assert(reports@.take(reports@.len() as int) =~= reports@);
    ReportDashboardResponse { total: reports.len(), created, in_review, escalated, resolved, rejected }
}

/// The queue's counts by status, for the staff member `user`; needs the report-reading permission.
pub fn reports_dashboard(db: &ReferenceDb, user: &User) -> (r: Result<ReportDashboardResponse, ApiError>)
    requires
        db.wf(),
    ensures
        !spec_has_permission(*user, PERM_REPORTS_READ@) ==> (r matches Err(e) && e is NotPrivileged),
        spec_has_permission(*user, PERM_REPORTS_READ@) ==> (r matches Ok(d) && {
            let all = db.spec_report_rows();
            &&& d.total == all.len()
            &&& d.created == count_kind(all, ReportStatusString::Created)
            &&& d.in_review == count_kind(all, ReportStatusString::InReview)
            &&& d.escalated == count_kind(all, ReportStatusString::Escalated)
            &&& d.resolved == count_kind(all, ReportStatusString::Resolved)
            &&& d.rejected == count_kind(all, ReportStatusString::Rejected)
        }),
{
    ensure_permission(user, PERM_REPORTS_READ)?;
    let reports = match db.fetch_reports_by_status(None) {
        Ok(v) => v,
        Err(e) => return Err(e),
    };
    proof {
        let all = db.spec_report_rows();
        crate::store::lemma_all_reports(*db);
        lemma_same_counts(reports@, all);
    }
    Ok(count_by_status(&reports))
}

proof fn lemma_same_counts(a: Seq<Report>, b: Seq<Report>)
    requires
        same_reports(a, b),
    ensures
        forall|k: ReportStatusString| #[trigger] count_kind(a, k) == count_kind(b, k),
    decreases a.len(),
{
    if a.len() > 0 {
        let a0 = a.drop_last();
        let b0 = b.drop_last();
        assert(same_reports(a0, b0)) by {
            assert forall|i: int| 0 <= i < a0.len() implies crate::reports::same_report(#[trigger] a0[i], b0[i]) by {
                assert(crate::reports::same_report(a[i], b[i]));
            }
        }
        lemma_same_counts(a0, b0);
        assert(crate::reports::same_report(a[a.len() - 1], b[b.len() - 1]));
        assert(a.last().status == b.last().status);
        assert forall|k: ReportStatusString| #[trigger] count_kind(a, k) == count_kind(b, k) by {
            reveal(Seq::filter);
            assert(count_kind(a0, k) == count_kind(b0, k));
        }
    } else {
        assert forall|k: ReportStatusString| #[trigger] count_kind(a, k) == count_kind(b, k) by {
            reveal(Seq::filter);
        }
    }
}

/// A page of the queue is bounded: it holds at most the page size (itself at
/// most 500) and at most the number of reports that passed the filters.
pub proof fn law_queue_page_bounded(q: ReportQueueQuery, kept: Seq<Report>, resp: ReportQueueResponse)
    requires
        is_queue_page(q, kept, resp),
    ensures
        resp.reports@.len() <= queue_limit(q.limit),
        queue_limit(q.limit) <= 500,
        resp.reports@.len() <= resp.total,
{
    law_queue_sort_sorts(spec_queue_order(sort_text(q)), kept);
}

} // verus!
