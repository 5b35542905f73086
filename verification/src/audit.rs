//! The staff audit log: a bounded record of control-plane actions, and the
//! views that staff read of it.
use vstd::prelude::*;

use crate::strmap::StrMap;
use crate::text::{starts_with, str_eq};

verus! {

/// The most entries the log keeps; older ones are dropped first.
pub const AUDIT_LOG_CAPACITY: usize = 500;

/// The Crockford base-32 alphabet in which ULIDs are written.
pub open spec fn is_ulid_char(c: char) -> bool {
    ('0' <= c && c <= '9') || ('A' <= c && c <= 'Z' && c != 'I' && c != 'L' && c != 'O' && c != 'U')
}

/// A fresh ULID in its text form.
///
/// Calls `ulid::Ulid::new()` and `Ulid::to_string()`. The value depends on the
/// clock and on chance, so only its shape is stated: 26 characters of the
/// Crockford base-32 alphabet, as the crate's `base32::encode` writes them.
#[verifier::external_body]
pub(crate) fn new_ulid_string() -> (s: String)
    ensures
        s@.len() == 26,
        forall|i: int| 0 <= i < 26 ==> is_ulid_char(#[trigger] s@[i]),
{
    ulid::Ulid::new().to_string()
}

/// Whether `s` has the shape of a UTC time in the RFC 3339 text that chrono
/// writes: at least 25 characters (a date of at least four year digits, the
/// time to the second), ending in the offset `+00:00`.
pub open spec fn is_utc_rfc3339(s: Seq<char>) -> bool {
    s.len() >= 25 && s.subrange(s.len() - 6, s.len() as int) == "+00:00"@
}

/// The current time as RFC 3339 text.
///
/// Calls `chrono::Utc::now()` and `DateTime::to_rfc3339()`. The value depends on
/// the clock, so only its shape is stated: chrono writes the date, `T`, the time
/// to the second with any fraction, and for UTC the offset `+00:00` (not `Z`).
#[verifier::external_body]
pub(crate) fn now_rfc3339() -> (s: String)
    ensures
        is_utc_rfc3339(s@),
{
    chrono::Utc::now().to_rfc3339()
}

/// One recorded action.
pub struct AuditEntry {
    pub id: String,
    pub timestamp: String,
    pub actor_id: String,
    pub action: String,
    pub target: String,
    pub metadata: StrMap<String>,
}

/// A copy of a text map.
pub fn copy_text_map(m: &StrMap<String>) -> (r: StrMap<String>)
    requires
        m.wf(),
    ensures
        r.wf(),
        r.spec_entries() == m.spec_entries(),
{
    let mut r: StrMap<String> = StrMap::new();
    let entries = m.entries();
    let mut i: usize = 0;
    while i < entries.len()
        invariant
            entries@ == m.spec_entries(),
            crate::strmap::keys_distinct(m.spec_entries()),
            i <= entries@.len(),
            r.wf(),
            r.spec_entries() == entries@.subrange(0, i as int),
        decreases entries@.len() - i,
    {
        let k = entries[i].0.clone();
        let v = entries[i].1.clone();
        proof {
            crate::strmap::lemma_pairs_to_map(r.spec_entries());
            if r.view().contains_key(k@) {
                let j = choose|j: int| 0 <= j < r.spec_entries().len() && r.spec_entries()[j].0@ == k@;
                assert(entries@[j].0@ == entries@[i as int].0@);
            }
        }
        r.insert(k, v);
        assert(r.spec_entries() =~= entries@.subrange(0, i + 1));
        i = i + 1;
    }
    assert(entries@.subrange(0, entries@.len() as int) =~= entries@);
    r
}

impl AuditEntry {
    /// Well-formedness: the metadata map holds each key once.
    pub open spec fn wf(&self) -> bool {
        self.metadata.wf()
    }

    /// A copy of this entry.
    pub fn duplicate(&self) -> (r: AuditEntry)
        requires
            self.wf(),
        ensures
            r.wf(),
            r.id == self.id,
            r.timestamp == self.timestamp,
            r.actor_id == self.actor_id,
            r.action == self.action,
            r.target == self.target,
            r.metadata.spec_entries() == self.metadata.spec_entries(),
    {
        AuditEntry {
            id: self.id.clone(),
            timestamp: self.timestamp.clone(),
            actor_id: self.actor_id.clone(),
            action: self.action.clone(),
            target: self.target.clone(),
            metadata: copy_text_map(&self.metadata),
        }
    }
}

/// Two entries that hold the same values.
pub open spec fn same_entry(a: AuditEntry, b: AuditEntry) -> bool {
    a.id == b.id && a.timestamp == b.timestamp && a.actor_id == b.actor_id && a.action == b.action && a.target == b.target
        && a.metadata.spec_entries() == b.metadata.spec_entries()
}

/// Two lists of entries that hold the same values in the same order.
pub open spec fn same_entries(a: Seq<AuditEntry>, b: Seq<AuditEntry>) -> bool {
    a.len() == b.len() && forall|i: int| 0 <= i < a.len() ==> same_entry(#[trigger] a[i], b[i])
}

/// The last `n` items of `s`, or all of them when there are fewer.
pub open spec fn keep_last<A>(s: Seq<A>, n: nat) -> Seq<A> {
    if s.len() > n {
        s.skip(s.len() - n)
    } else {
        s
    }
}

/// The audit log, oldest entry first.
pub struct AuditLog {
    entries: Vec<AuditEntry>,
}

impl AuditLog {
    #[verifier::type_invariant]
    spec fn inv(self) -> bool {
        &&& self.entries@.len() <= AUDIT_LOG_CAPACITY
        &&& forall|i: int| 0 <= i < self.entries@.len() ==> (#[trigger] self.entries@[i]).wf()
    }

    /// The entries, oldest first.
    pub closed spec fn view(&self) -> Seq<AuditEntry> {
        self.entries@
    }

    /// The number of entries, which never exceeds the capacity.
    pub fn len(&self) -> (n: usize)
        ensures
            n == self.view().len(),
            n <= AUDIT_LOG_CAPACITY,
    {
        proof {
            use_type_invariant(self);
        }
        self.entries.len()
    }

    /// An empty log.
    pub fn new() -> (log: Self)
        ensures
            log.view().len() == 0,
    {
        AuditLog { entries: Vec::new() }
    }

    /// Appends `entry`, then drops the oldest entries beyond the capacity.
    pub fn record_entry(&mut self, entry: AuditEntry)
        requires
            entry.wf(),
        ensures
            final(self).view() == keep_last(old(self).view().push(entry), AUDIT_LOG_CAPACITY as nat),
            final(self).view().len() <= AUDIT_LOG_CAPACITY,
    {
        proof {
            use_type_invariant(&*self);
        }
        let mut entries: Vec<AuditEntry> = Vec::new();
        std::mem::swap(&mut entries, &mut self.entries);
        let ghost all = entries@.push(entry);
        entries.push(entry);
        if entries.len() > AUDIT_LOG_CAPACITY {
            let drain_count = entries.len() - AUDIT_LOG_CAPACITY;
            let mut kept: Vec<AuditEntry> = Vec::new();
            let mut rest = entries;
            // the old log held at most the capacity, so one entry goes
            assert(drain_count == 1);
            rest.remove(0);
            kept.append(&mut rest);
            assert(kept@ =~= all.skip(all.len() - AUDIT_LOG_CAPACITY));
            self.entries = kept;
        } else {
            self.entries = entries;
        }
    }

    /// Records an action by `actor_id` on `target`, under a fresh ULID and the
    /// current time as UTC RFC 3339 text.
    pub fn record(&mut self, actor_id: String, action: String, target: String, metadata: StrMap<String>)
        requires
            metadata.wf(),
        ensures
            final(self).view().len() >= 1,
            ({
                let e = final(self).view().last();
                &&& e.actor_id == actor_id
                &&& e.action == action
                &&& e.target == target
                &&& e.metadata == metadata
                &&& e.id@.len() == 26
                &&& forall|i: int| 0 <= i < 26 ==> is_ulid_char(#[trigger] e.id@[i])
                &&& is_utc_rfc3339(e.timestamp@)
            }),
            final(self).view().drop_last() == keep_last(old(self).view(), (AUDIT_LOG_CAPACITY - 1) as nat),
    {
        let id = new_ulid_string();
        let timestamp = now_rfc3339();
        let ghost before = self.view();
        proof {
            use_type_invariant(&*self);
        }
        let entry = AuditEntry { id, timestamp, actor_id, action, target, metadata };
        let ghost e = entry;
        self.record_entry(entry);
        proof {
            let all = before.push(e);
            if all.len() > AUDIT_LOG_CAPACITY {
                assert(self.view().drop_last() =~= before.skip(before.len() - (AUDIT_LOG_CAPACITY - 1)));
            } else {
                assert(self.view().drop_last() =~= before);
            }
        }
    }

    /// A copy of every entry, oldest first.
    pub fn list(&self) -> (out: Vec<AuditEntry>)
        ensures
            same_entries(out@, self.view()),
            forall|i: int| 0 <= i < out@.len() ==> (#[trigger] out@[i]).wf(),
    {
        proof {
            use_type_invariant(self);
        }
        let mut out: Vec<AuditEntry> = Vec::new();
        let mut i: usize = 0;
        while i < self.entries.len()
            invariant
                i <= self.entries@.len(),
                forall|j: int| 0 <= j < self.entries@.len() ==> (#[trigger] self.entries@[j]).wf(),
                same_entries(out@, self.entries@.subrange(0, i as int)),
                forall|j: int| 0 <= j < out@.len() ==> (#[trigger] out@[j]).wf(),
            decreases self.entries@.len() - i,
        {
            let d = self.entries[i].duplicate();
            out.push(d);
            i = i + 1;
        }
        out
    }
}

/// An action to record in the audit log once the change it describes is stored.
pub struct AuditNote {
    pub action: String,
    pub target: String,
    pub metadata: StrMap<String>,
}

/// Whether `note` is the action `action` on `target` whose metadata holds the texts of `meta`.
pub open spec fn note_is(note: AuditNote, action: Seq<char>, target: Seq<char>, meta: Map<Seq<char>, Seq<char>>) -> bool {
    &&& note.action@ == action
    &&& note.target@ == target
    &&& note.metadata.wf()
    &&& note.metadata@.dom() == meta.dom()
    &&& forall|k: Seq<char>| #[trigger] meta.contains_key(k) ==> note.metadata@[k]@ == meta[k]
}

/// Whether the log `after` is `before` with one entry more, by `actor` with
/// `action` on `target`, whose metadata holds the texts of `meta`.
pub open spec fn logged(before: Seq<AuditEntry>, after: Seq<AuditEntry>, actor: Seq<char>, action: Seq<char>, target: Seq<char>, meta: Map<Seq<char>, Seq<char>>) -> bool {
    &&& after.len() >= 1
    &&& after.drop_last() == keep_last(before, (AUDIT_LOG_CAPACITY - 1) as nat)
    &&& after.last().actor_id@ == actor
    &&& after.last().action@ == action
    &&& after.last().target@ == target
    &&& after.last().metadata@.dom() == meta.dom()
    &&& forall|k: Seq<char>| #[trigger] meta.contains_key(k) ==> after.last().metadata@[k]@ == meta[k]
}

/// Which entries a read of the log selects.
pub enum EntryFilter {
    /// Entries that match each of the given fields: the same actor, an action
    /// that starts with the prefix, the same target.
    Query { actor_id: Option<String>, action_prefix: Option<String>, target: Option<String> },
    /// Entries of sensitive kinds: staff, system, restriction, cosmetic and report-workflow actions.
    Sensitive,
}

/// The action prefixes that mark an entry as sensitive.
pub open spec fn sensitive_prefixes() -> Seq<Seq<char>> {
    seq!["staff."@, "system."@, "user.restrictions"@, "user.cosmetics"@, "report.action"@]
}

/// Whether `e` is selected by `f`.
pub open spec fn entry_selected(f: EntryFilter, e: AuditEntry) -> bool {
    match f {
        EntryFilter::Query { actor_id, action_prefix, target } => {
            &&& (actor_id matches Some(a) ==> e.actor_id@ == a@)
            &&& (action_prefix matches Some(p) ==> p@.is_prefix_of(e.action@))
            &&& (target matches Some(t) ==> e.target@ == t@)
        },
        EntryFilter::Sensitive => exists|i: int| 0 <= i < sensitive_prefixes().len() && #[trigger] sensitive_prefixes()[i].is_prefix_of(e.action@),
    }
}

fn opt_eq(want: &Option<String>, have: &String) -> (b: bool)
    ensures
        b == (want matches Some(w) ==> have@ == w@),
{
    match want {
        Some(w) => str_eq(have.as_str(), w.as_str()),
        None => true,
    }
}

/// Whether `e` is selected by `f`.
pub fn is_selected(f: &EntryFilter, e: &AuditEntry) -> (b: bool)
    ensures
        b == entry_selected(*f, *e),
{
    match f {
        EntryFilter::Query { actor_id, action_prefix, target } => {
            let prefix_ok = match action_prefix {
                Some(p) => starts_with(e.action.as_str(), p.as_str()),
                None => true,
            };
            opt_eq(actor_id, &e.actor_id) && prefix_ok && opt_eq(target, &e.target)
        },
        EntryFilter::Sensitive => {
            let prefixes: Vec<&'static str> = vec!["staff.", "system.", "user.restrictions", "user.cosmetics", "report.action"];
            assert(prefixes@.map_values(|s: &str| s@) =~= sensitive_prefixes());
            let mut i: usize = 0;
            while i < prefixes.len()
                invariant
                    i <= prefixes@.len(),
                    prefixes@.map_values(|s: &str| s@) == sensitive_prefixes(),
                    *f is Sensitive,
                    forall|j: int| 0 <= j < i ==> !(#[trigger] sensitive_prefixes()[j]).is_prefix_of(e.action@),
                decreases prefixes@.len() - i,
            {
                proof {
                    assert(prefixes@.map_values(|s: &str| s@)[i as int] == prefixes@[i as int]@);
                }
                if starts_with(e.action.as_str(), prefixes[i]) {
                    proof {
                        assert(prefixes@.map_values(|s: &str| s@)[i as int] == prefixes@[i as int]@);
                        assert(sensitive_prefixes()[i as int].is_prefix_of(e.action@));
                        assert(*f is Sensitive);
                        assert(entry_selected(*f, *e));
                    }
                    return true;
                }
                i = i + 1;
            }
            false
        },
    }
}

/// The entries of `entries` that `f` selects, in order, at most `limit` of them.
pub fn select_entries(entries: Vec<AuditEntry>, f: &EntryFilter, limit: usize) -> (out: Vec<AuditEntry>)
    ensures
        out@ == ({
            let kept = entries@.filter(|e: AuditEntry| entry_selected(*f, e));
            if kept.len() > limit { kept.take(limit as int) } else { kept }
        }),
{
    let ghost all = entries@;
    let ghost p = |e: AuditEntry| entry_selected(*f, e);
    let mut rest = entries;
    let mut out: Vec<AuditEntry> = Vec::new();
    let n = rest.len();
    let mut i: usize = 0;
    while i < n && out.len() < limit
        invariant
            n == all.len(),
            i <= n,
            rest@ == all.skip(i as int),
            out@ == all.take(i as int).filter(p),
            out@.len() <= limit,
            p == (|e: AuditEntry| entry_selected(*f, e)),
        decreases n - i,
    {
        let e = rest.remove(0);
        proof {
            assert(all.take(i + 1).drop_last() =~= all.take(i as int));
            assert(all.take(i + 1).last() == e);
            reveal(Seq::filter);
        }
        if is_selected(f, &e) {
            out.push(e);
        }
        proof {
            assert(rest@ =~= all.skip(i + 1));
        }
        i = i + 1;
    }
    proof {
        let kept = all.filter(p);
        if i == n {
            assert(all.take(n as int) =~= all);
        } else {
            // the limit was reached: the rest cannot change the first `limit` selected entries
            assert(out@.len() == limit);
            lemma_filter_prefix(all, p, i as int);
            assert(kept.take(limit as int) =~= out@);
        }
    }
    out
}

/// Filtering a prefix of `s` gives a prefix of filtering `s`.
pub proof fn lemma_filter_prefix<A>(s: Seq<A>, p: spec_fn(A) -> bool, i: int)
    requires
        0 <= i <= s.len(),
    ensures
        s.take(i).filter(p).len() <= s.filter(p).len(),
        s.filter(p).take(s.take(i).filter(p).len() as int) == s.take(i).filter(p),
    decreases s.len() - i,
{
    if i == s.len() {
        assert(s.take(i) =~= s);
    } else {
        lemma_filter_prefix(s, p, i + 1);
        reveal(Seq::filter);
        assert(s.take(i + 1).drop_last() =~= s.take(i));
        let a = s.take(i).filter(p);
        let b = s.take(i + 1).filter(p);
        assert(b.take(a.len() as int) =~= a);
        assert(s.filter(p).take(a.len() as int) =~= b.take(a.len() as int));
    }
}

/// The entries that concern `target`, as the report timeline lists them.
pub fn timeline_entries(entries: Vec<AuditEntry>, target: String) -> (out: Vec<AuditEntry>)
    ensures
        out@ == entries@.filter(|e: AuditEntry| e.target@ == target@),
{
    let ghost t = target;
    let f = EntryFilter::Query { actor_id: None, action_prefix: None, target: Some(target) };
    let n = entries.len();
    let ghost all = entries@;
    let out = select_entries(entries, &f, n);
    proof {
        assert((|e: AuditEntry| entry_selected(f, e)) =~= (|e: AuditEntry| e.target@ == t@));
        all.lemma_filter_len(|e: AuditEntry| entry_selected(f, e));
    }
    out
}

/// Entries that hold the same values are selected alike, so filtering two
/// lists of the same entries gives lists of the same entries.
pub proof fn lemma_same_entries_filter(a: Seq<AuditEntry>, b: Seq<AuditEntry>, f: EntryFilter)
    requires
        same_entries(a, b),
    ensures
        same_entries(a.filter(|e: AuditEntry| entry_selected(f, e)), b.filter(|e: AuditEntry| entry_selected(f, e))),
    decreases a.len(),
{
    reveal(Seq::filter);
    if a.len() > 0 {
        let a0 = a.drop_last();
        let b0 = b.drop_last();
        assert(same_entries(a0, b0)) by {
            assert forall|i: int| 0 <= i < a0.len() implies same_entry(#[trigger] a0[i], b0[i]) by {
                assert(same_entry(a[i], b[i]));
            }
        }
        lemma_same_entries_filter(a0, b0, f);
        assert(same_entry(a[a.len() - 1], b[b.len() - 1]));
        assert(entry_selected(f, a.last()) == entry_selected(f, b.last()));
        let p = |e: AuditEntry| entry_selected(f, e);
        let fa = a0.filter(p);
        let fb = b0.filter(p);
        if p(a.last()) {
            assert forall|i: int| 0 <= i < fa.len() + 1 implies same_entry(#[trigger] fa.push(a.last())[i], fb.push(b.last())[i]) by {
                if i < fa.len() {
                    assert(same_entry(fa[i], fb[i]));
                }
            }
        }
    }
}

/// The first `n` of two lists of the same entries are lists of the same entries.
pub proof fn lemma_same_entries_take(a: Seq<AuditEntry>, b: Seq<AuditEntry>, n: int)
    requires
        same_entries(a, b),
        0 <= n <= a.len(),
    ensures
        same_entries(a.take(n), b.take(n)),
{
    assert forall|i: int| 0 <= i < n implies same_entry(#[trigger] a.take(n)[i], b.take(n)[i]) by {
        assert(same_entry(a[i], b[i]));
    }
}

/// The sensitive feed selects exactly the entries whose action starts with
/// `staff.`, `system.`, `user.restrictions`, `user.cosmetics` or
/// `report.action`. So the actions that the staff, system, restriction,
/// cosmetics and workflow-action operations record are sensitive, and reviews
/// and flag changes are not.
pub proof fn law_sensitive_actions(e: AuditEntry)
    ensures
        entry_selected(EntryFilter::Sensitive, e) <==> (
            "staff."@.is_prefix_of(e.action@) || "system."@.is_prefix_of(e.action@)
            || "user.restrictions"@.is_prefix_of(e.action@) || "user.cosmetics"@.is_prefix_of(e.action@)
            || "report.action"@.is_prefix_of(e.action@)),
        e.action@ == "user.cosmetics.set"@ ==> entry_selected(EntryFilter::Sensitive, e),
        e.action@ == "user.restrictions.set"@ ==> entry_selected(EntryFilter::Sensitive, e),
        e.action@ == "staff.assign"@ ==> entry_selected(EntryFilter::Sensitive, e),
        e.action@ == "system.feature.set"@ ==> entry_selected(EntryFilter::Sensitive, e),
        e.action@ == "system.kill_switch"@ ==> entry_selected(EntryFilter::Sensitive, e),
        e.action@ == "system.email.set"@ ==> entry_selected(EntryFilter::Sensitive, e),
        e.action@ == "report.action"@ ==> entry_selected(EntryFilter::Sensitive, e),
        e.action@ == "report.review"@ ==> !entry_selected(EntryFilter::Sensitive, e),
        e.action@ == "user.flags.set"@ ==> !entry_selected(EntryFilter::Sensitive, e),
{
    let p = sensitive_prefixes();
    assert(p[0] == "staff."@ && p[1] == "system."@ && p[2] == "user.restrictions"@ && p[3] == "user.cosmetics"@ && p[4] == "report.action"@);
    if entry_selected(EntryFilter::Sensitive, e) {
        let i = choose|i: int| 0 <= i < p.len() && #[trigger] p[i].is_prefix_of(e.action@);
        assert(i == 0 || i == 1 || i == 2 || i == 3 || i == 4);
    }
    if "staff."@.is_prefix_of(e.action@) { assert(p[0].is_prefix_of(e.action@)); }
    if "system."@.is_prefix_of(e.action@) { assert(p[1].is_prefix_of(e.action@)); }
    if "user.restrictions"@.is_prefix_of(e.action@) { assert(p[2].is_prefix_of(e.action@)); }
    if "user.cosmetics"@.is_prefix_of(e.action@) { assert(p[3].is_prefix_of(e.action@)); }
    if "report.action"@.is_prefix_of(e.action@) { assert(p[4].is_prefix_of(e.action@)); }
    reveal_strlit("staff.");
    reveal_strlit("system.");
    reveal_strlit("user.restrictions");
    reveal_strlit("user.cosmetics");
    reveal_strlit("report.action");
    reveal_strlit("user.cosmetics.set");
    reveal_strlit("user.restrictions.set");
    reveal_strlit("staff.assign");
    reveal_strlit("system.feature.set");
    reveal_strlit("system.kill_switch");
    reveal_strlit("system.email.set");
    reveal_strlit("report.review");
    reveal_strlit("user.flags.set");
    let a = e.action@;
    if a == "report.review"@ {
        assert(!"report.action"@.is_prefix_of(a)) by {
            assert(a.subrange(0, 13)[7] != "report.action"@[7]);
        }
        assert(!"staff."@.is_prefix_of(a)) by { assert(a.subrange(0, 6)[0] != "staff."@[0]); }
        assert(!"system."@.is_prefix_of(a)) by { assert(a.subrange(0, 7)[0] != "system."@[0]); }
        assert(!"user.restrictions"@.is_prefix_of(a));
        assert(!"user.cosmetics"@.is_prefix_of(a));
    }
    if a == "user.flags.set"@ {
        assert(!"report.action"@.is_prefix_of(a)) by { assert(a.subrange(0, 13)[0] != "report.action"@[0]); }
        assert(!"staff."@.is_prefix_of(a)) by { assert(a.subrange(0, 6)[0] != "staff."@[0]); }
        assert(!"system."@.is_prefix_of(a)) by { assert(a.subrange(0, 7)[0] != "system."@[0]); }
        assert(!"user.restrictions"@.is_prefix_of(a));
        assert(!"user.cosmetics"@.is_prefix_of(a)) by { assert(a.subrange(0, 14)[5] != "user.cosmetics"@[5]); }
    }
}

} // verus!
