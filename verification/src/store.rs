//! The in-memory store of reports, snapshots, stickers and soundboard clips,
//! each collection keyed by id.
use vstd::prelude::*;

use crate::customisation::{owned_by, EmojiParent, SoundboardClip, Sticker};
use crate::error::ApiError;
use crate::reports::{kind_of, same_report, status_kind, Report, ReportStatusString, Snapshot};
use crate::strmap::{entry_keys, entry_values, Duplicate, StrMap};
use crate::text::{owned, str_eq};

verus! {

/// Whether a report with status kind `k` passes the optional status filter.
pub open spec fn status_matches(filter: Option<ReportStatusString>, r: Report) -> bool {
    match filter {
        None => true,
        Some(k) => status_kind(r.status) == k,
    }
}

/// Two lists of reports that hold the same values in the same order.
pub open spec fn same_reports(a: Seq<Report>, b: Seq<Report>) -> bool {
    a.len() == b.len() && forall|i: int| 0 <= i < a.len() ==> same_report(#[trigger] a[i], b[i])
}

/// `db_error` is the store's refusal of `operation` on `collection`.
fn db_error(operation: &str, collection: &str) -> (e: ApiError)
    ensures
        e.is_database(operation@, collection@),
{
    ApiError::DatabaseError { operation: owned(operation), collection: owned(collection) }
}

/// The store.
pub struct ReferenceDb {
    reports: StrMap<Report>,
    snapshots: StrMap<Snapshot>,
    stickers: StrMap<Sticker>,
    soundboard_clips: StrMap<SoundboardClip>,
}

impl ReferenceDb {
    /// Well-formedness: each collection holds each key once.
    pub closed spec fn wf(self) -> bool {
        &&& self.reports.wf()
        &&& self.snapshots.wf()
        &&& self.stickers.wf()
        &&& self.soundboard_clips.wf()
        &&& forall|k: Seq<char>| #[trigger] self.snapshots.view().contains_key(k) ==> self.snapshots.view()[k].id@ == k
        &&& forall|k: Seq<char>| #[trigger] self.stickers.view().contains_key(k) ==> self.stickers.view()[k].id@ == k
        &&& forall|k: Seq<char>| #[trigger] self.soundboard_clips.view().contains_key(k) ==> self.soundboard_clips.view()[k].id@ == k
    }

    /// Each stored snapshot, sticker and clip is held under its own id.
    pub proof fn lemma_keys_are_ids(&self)
        requires
            self.wf(),
        ensures
            forall|k: Seq<char>| #[trigger] self.spec_snapshots().contains_key(k) ==> self.spec_snapshots()[k].id@ == k,
            forall|k: Seq<char>| #[trigger] self.spec_stickers().contains_key(k) ==> self.spec_stickers()[k].id@ == k,
            forall|k: Seq<char>| #[trigger] self.spec_clips().contains_key(k) ==> self.spec_clips()[k].id@ == k,
    {
    }

    /// The reports, by key.
    pub closed spec fn spec_reports(self) -> Map<Seq<char>, Report> {
        self.reports.view()
    }

    /// The reports in the order their keys were first stored.
    pub closed spec fn spec_report_rows(self) -> Seq<Report> {
        entry_values(self.reports.spec_entries())
    }

    /// The snapshots, by key.
    pub closed spec fn spec_snapshots(self) -> Map<Seq<char>, Snapshot> {
        self.snapshots.view()
    }

    /// The snapshots in the order their keys were first stored.
    pub closed spec fn spec_snapshot_rows(self) -> Seq<Snapshot> {
        entry_values(self.snapshots.spec_entries())
    }

    /// The stickers, by key.
    pub closed spec fn spec_stickers(self) -> Map<Seq<char>, Sticker> {
        self.stickers.view()
    }

    /// The stickers in the order their keys were first stored.
    pub closed spec fn spec_sticker_rows(self) -> Seq<Sticker> {
        entry_values(self.stickers.spec_entries())
    }

    /// The soundboard clips, by key.
    pub closed spec fn spec_clips(self) -> Map<Seq<char>, SoundboardClip> {
        self.soundboard_clips.view()
    }

    /// The soundboard clips in the order their keys were first stored.
    pub closed spec fn spec_clip_rows(self) -> Seq<SoundboardClip> {
        entry_values(self.soundboard_clips.spec_entries())
    }

    /// The keys of the reports, in the order they were first stored.
    pub closed spec fn spec_report_keys(self) -> Seq<Seq<char>> {
        entry_keys(self.reports.spec_entries())
    }

    /// The keys of the stickers, in the order they were first stored.
    pub closed spec fn spec_sticker_keys(self) -> Seq<Seq<char>> {
        entry_keys(self.stickers.spec_entries())
    }

    /// The keys of the soundboard clips, in the order they were first stored.
    pub closed spec fn spec_clip_keys(self) -> Seq<Seq<char>> {
        entry_keys(self.soundboard_clips.spec_entries())
    }

    /// The keys of the snapshots, in the order they were first stored.
    pub closed spec fn spec_snapshot_keys(self) -> Seq<Seq<char>> {
        entry_keys(self.snapshots.spec_entries())
    }

    /// The rows of each collection are what it holds under its keys, in key order.
    pub proof fn lemma_rows(&self)
        requires
            self.wf(),
        ensures
            self.spec_report_keys().no_duplicates(),
            self.spec_report_rows().len() == self.spec_report_keys().len(),
            forall|i: int| 0 <= i < self.spec_report_keys().len() ==> self.spec_reports().contains_key(#[trigger] self.spec_report_keys()[i]) && self.spec_reports()[self.spec_report_keys()[i]] == self.spec_report_rows()[i],
            forall|k: Seq<char>| #[trigger] self.spec_reports().contains_key(k) <==> self.spec_report_keys().contains(k),
            self.spec_sticker_keys().no_duplicates(),
            self.spec_sticker_rows().len() == self.spec_sticker_keys().len(),
            forall|i: int| 0 <= i < self.spec_sticker_keys().len() ==> self.spec_stickers().contains_key(#[trigger] self.spec_sticker_keys()[i]) && self.spec_stickers()[self.spec_sticker_keys()[i]] == self.spec_sticker_rows()[i],
            forall|k: Seq<char>| #[trigger] self.spec_stickers().contains_key(k) <==> self.spec_sticker_keys().contains(k),
            self.spec_clip_keys().no_duplicates(),
            self.spec_clip_rows().len() == self.spec_clip_keys().len(),
            forall|i: int| 0 <= i < self.spec_clip_keys().len() ==> self.spec_clips().contains_key(#[trigger] self.spec_clip_keys()[i]) && self.spec_clips()[self.spec_clip_keys()[i]] == self.spec_clip_rows()[i],
            forall|k: Seq<char>| #[trigger] self.spec_clips().contains_key(k) <==> self.spec_clip_keys().contains(k),
            self.spec_snapshot_keys().no_duplicates(),
            self.spec_snapshot_rows().len() == self.spec_snapshot_keys().len(),
            forall|i: int| 0 <= i < self.spec_snapshot_keys().len() ==> self.spec_snapshots().contains_key(#[trigger] self.spec_snapshot_keys()[i]) && self.spec_snapshots()[self.spec_snapshot_keys()[i]] == self.spec_snapshot_rows()[i],
            forall|k: Seq<char>| #[trigger] self.spec_snapshots().contains_key(k) <==> self.spec_snapshot_keys().contains(k),
    {
        self.reports.lemma_entries();
        self.stickers.lemma_entries();
        self.soundboard_clips.lemma_entries();
        self.snapshots.lemma_entries();
    }

    /// An empty store.
    pub fn new() -> (db: Self)
        ensures
            db.wf(),
            db.spec_reports() == Map::<Seq<char>, Report>::empty(),
            db.spec_snapshots() == Map::<Seq<char>, Snapshot>::empty(),
            db.spec_stickers() == Map::<Seq<char>, Sticker>::empty(),
            db.spec_clips() == Map::<Seq<char>, SoundboardClip>::empty(),
            db.spec_report_rows().len() == 0,
            db.spec_snapshot_rows().len() == 0,
            db.spec_sticker_rows().len() == 0,
            db.spec_clip_rows().len() == 0,
    {
        let db = ReferenceDb { reports: StrMap::new(), snapshots: StrMap::new(), stickers: StrMap::new(), soundboard_clips: StrMap::new() };
        assert(entry_values(db.reports.spec_entries()) =~= Seq::<Report>::empty());
        assert(entry_values(db.snapshots.spec_entries()) =~= Seq::<Snapshot>::empty());
        assert(entry_values(db.stickers.spec_entries()) =~= Seq::<Sticker>::empty());
        assert(entry_values(db.soundboard_clips.spec_entries()) =~= Seq::<SoundboardClip>::empty());
        db
    }

    /// Stores a copy of `report` under its id; an id already held is refused.
    pub fn insert_report(&mut self, report: &Report) -> (r: Result<(), ApiError>)
        requires
            old(self).wf(),
        ensures
            final(self).wf(),
            old(self).spec_reports().contains_key(report.id@) ==> (r matches Err(e) && e.is_database("insert"@, "report"@) && *final(self) == *old(self)),
            !old(self).spec_reports().contains_key(report.id@) ==> {
                &&& r is Ok
                &&& final(self).spec_reports() == old(self).spec_reports().insert(report.id@, final(self).spec_reports()[report.id@])
                &&& same_report(final(self).spec_reports()[report.id@], *report)
                &&& final(self).spec_report_keys() == old(self).spec_report_keys().push(report.id@)
                &&& final(self).spec_report_rows() == old(self).spec_report_rows().push(final(self).spec_reports()[report.id@])
                &&& final(self).spec_stickers() == old(self).spec_stickers()
                &&& final(self).spec_clips() == old(self).spec_clips()
                &&& final(self).spec_snapshots() == old(self).spec_snapshots()
            },
    {
        if self.reports.contains_key(report.id.as_str()) {
            return Err(db_error("insert", "report"));
        }
        let copy = report.duplicate();
        let ghost c = copy;
        self.reports.insert(report.id.clone(), copy);
        proof {
            assert(entry_keys(self.reports.spec_entries()) =~= entry_keys(old(self).reports.spec_entries()).push(report.id@));
            assert(entry_values(self.reports.spec_entries()) =~= entry_values(old(self).reports.spec_entries()).push(c));
        }
        Ok(())
    }

    /// A copy of the report stored under `id`, or `NotFound`.
    pub fn fetch_report(&self, id: &str) -> (r: Result<Report, ApiError>)
        requires
            self.wf(),
        ensures
            self.spec_reports().contains_key(id@) ==> (r matches Ok(rep) && same_report(self.spec_reports()[id@], rep)),
            !self.spec_reports().contains_key(id@) ==> (r matches Err(e) && e is NotFound),
    {
        match self.reports.get_copy(id) {
            Some(rep) => Ok(rep),
            None => Err(ApiError::NotFound),
        }
    }

    /// Copies of the stored reports whose status passes `status`, in storage order.
    pub fn fetch_reports_by_status(&self, status: Option<ReportStatusString>) -> (r: Result<Vec<Report>, ApiError>)
        requires
            self.wf(),
        ensures
            r matches Ok(v) && same_reports(v@, reports_with_status(*self, status)),
    {
        let entries = self.reports.entries();
        let ghost rows = self.spec_report_rows();
        let ghost p = |rep: Report| status_matches(status, rep);
        let mut out: Vec<Report> = Vec::new();
        let mut i: usize = 0;
        while i < entries.len()
            invariant
                entries@ == self.reports.spec_entries(),
                rows == entry_values(entries@),
                i <= entries@.len(),
                p == (|rep: Report| status_matches(status, rep)),
                same_reports(out@, rows.take(i as int).filter(p)),
            decreases entries@.len() - i,
        {
            let rep = &entries[i].1;
            proof {
                assert(rows.take(i + 1).drop_last() =~= rows.take(i as int));
                assert(rows.take(i + 1).last() == *rep);
                reveal(Seq::filter);
            }
            let pass = match status {
                None => true,
                Some(k) => kind_of(&rep.status) == k,
            };
            if pass {
                let c = rep.duplicate();
                out.push(c);
            }
            i = i + 1;
        }
        assert(rows.take(entries@.len() as int) =~= rows);
        Ok(out)
    }

    /// Replaces the report stored under `id` with a copy of `report`; an id not held is `NotFound`.
    pub fn update_report(&mut self, id: &str, report: &Report) -> (r: Result<(), ApiError>)
        requires
            old(self).wf(),
        ensures
            final(self).wf(),
            !old(self).spec_reports().contains_key(id@) ==> (r matches Err(e) && e is NotFound && *final(self) == *old(self)),
            old(self).spec_reports().contains_key(id@) ==> r is Ok && report_replaced(*old(self), *final(self), id@, *report),
    {
        if !self.reports.contains_key(id) {
            return Err(ApiError::NotFound);
        }
        let copy = report.duplicate();
        self.reports.insert(owned(id), copy);
        Ok(())
    }

    /// Stores a copy of `snapshot` under its id; an id already held is refused.
    pub fn insert_snapshot(&mut self, snapshot: &Snapshot) -> (r: Result<(), ApiError>)
        requires
            old(self).wf(),
        ensures
            final(self).wf(),
            old(self).spec_snapshots().contains_key(snapshot.id@) ==> (r matches Err(e) && e.is_database("insert"@, "snapshot"@) && *final(self) == *old(self)),
            !old(self).spec_snapshots().contains_key(snapshot.id@) ==> {
                &&& r is Ok
                &&& final(self).spec_snapshots() == old(self).spec_snapshots().insert(snapshot.id@, *snapshot)
                &&& final(self).spec_snapshot_keys() == old(self).spec_snapshot_keys().push(snapshot.id@)
                &&& final(self).spec_snapshot_rows() == old(self).spec_snapshot_rows().push(*snapshot)
                &&& final(self).spec_reports() == old(self).spec_reports()
                &&& final(self).spec_report_keys() == old(self).spec_report_keys()
                &&& final(self).spec_report_rows() == old(self).spec_report_rows()
                &&& final(self).spec_stickers() == old(self).spec_stickers()
                &&& final(self).spec_clips() == old(self).spec_clips()
            },
    {
        if self.snapshots.contains_key(snapshot.id.as_str()) {
            return Err(db_error("insert", "snapshot"));
        }
        let copy = snapshot.duplicate();
        self.snapshots.insert(snapshot.id.clone(), copy);
        proof {
            assert(entry_keys(self.snapshots.spec_entries()) =~= entry_keys(old(self).snapshots.spec_entries()).push(snapshot.id@));
            assert(entry_values(self.snapshots.spec_entries()) =~= entry_values(old(self).snapshots.spec_entries()).push(*snapshot));
        }
        Ok(())
    }

    /// Copies of the snapshots taken for `report_id`, in storage order.
    pub fn fetch_snapshots_by_report(&self, report_id: &str) -> (r: Result<Vec<Snapshot>, ApiError>)
        requires
            self.wf(),
        ensures
            r matches Ok(v) && v@ == snapshots_of(*self, report_id@),
    {
        let entries = self.snapshots.entries();
        let ghost rows = self.spec_snapshot_rows();
        let ghost p = |sn: Snapshot| sn.report_id@ == report_id@;
        let mut out: Vec<Snapshot> = Vec::new();
        let mut i: usize = 0;
        while i < entries.len()
            invariant
                entries@ == self.snapshots.spec_entries(),
                rows == entry_values(entries@),
                i <= entries@.len(),
                p == (|sn: Snapshot| sn.report_id@ == report_id@),
                out@ == rows.take(i as int).filter(p),
            decreases entries@.len() - i,
        {
            let sn = &entries[i].1;
            proof {
                assert(rows.take(i + 1).drop_last() =~= rows.take(i as int));
                assert(rows.take(i + 1).last() == *sn);
                reveal(Seq::filter);
            }
            if str_eq(sn.report_id.as_str(), report_id) {
                out.push(sn.duplicate());
            }
            i = i + 1;
        }
        assert(rows.take(entries@.len() as int) =~= rows);
        Ok(out)
    }

    /// Stores a copy of `sticker` under its id; an id already held is refused.
    pub fn insert_sticker(&mut self, sticker: &Sticker) -> (r: Result<(), ApiError>)
        requires
            old(self).wf(),
        ensures
            final(self).wf(),
            old(self).spec_stickers().contains_key(sticker.id@) ==> (r matches Err(e) && e.is_database("insert"@, "sticker"@) && *final(self) == *old(self)),
            !old(self).spec_stickers().contains_key(sticker.id@) ==> {
                &&& r is Ok
                &&& final(self).spec_stickers() == old(self).spec_stickers().insert(sticker.id@, *sticker)
                &&& final(self).spec_sticker_keys() == old(self).spec_sticker_keys().push(sticker.id@)
                &&& final(self).spec_sticker_rows() == old(self).spec_sticker_rows().push(*sticker)
                &&& final(self).spec_reports() == old(self).spec_reports()
                &&& final(self).spec_clips() == old(self).spec_clips()
                &&& final(self).spec_snapshots() == old(self).spec_snapshots()
            },
    {
        if self.stickers.contains_key(sticker.id.as_str()) {
            return Err(db_error("insert", "sticker"));
        }
        let copy = sticker.duplicate();
        self.stickers.insert(sticker.id.clone(), copy);
        proof {
            assert(entry_keys(self.stickers.spec_entries()) =~= entry_keys(old(self).stickers.spec_entries()).push(sticker.id@));
            assert(entry_values(self.stickers.spec_entries()) =~= entry_values(old(self).stickers.spec_entries()).push(*sticker));
        }
        Ok(())
    }

    /// A copy of the sticker stored under `id`, or `NotFound`.
    pub fn fetch_sticker(&self, id: &str) -> (r: Result<Sticker, ApiError>)
        requires
            self.wf(),
        ensures
            self.spec_stickers().contains_key(id@) ==> r == Ok::<Sticker, ApiError>(self.spec_stickers()[id@]),
            !self.spec_stickers().contains_key(id@) ==> (r matches Err(e) && e is NotFound),
    {
        match self.stickers.get_copy(id) {
            Some(st) => Ok(st),
            None => Err(ApiError::NotFound),
        }
    }

    /// Copies of the stickers owned by the server `parent_id`, in storage order.
    pub fn fetch_stickers_by_parent_id(&self, parent_id: &str) -> (r: Result<Vec<Sticker>, ApiError>)
        requires
            self.wf(),
        ensures
            r matches Ok(v) && v@ == stickers_of(*self, parent_id@),
    {
        let entries = self.stickers.entries();
        let ghost rows = self.spec_sticker_rows();
        let ghost p = |st: Sticker| owned_by(st.parent, parent_id@);
        let mut out: Vec<Sticker> = Vec::new();
        let mut i: usize = 0;
        while i < entries.len()
            invariant
                entries@ == self.stickers.spec_entries(),
                rows == entry_values(entries@),
                i <= entries@.len(),
                p == (|st: Sticker| owned_by(st.parent, parent_id@)),
                out@ == rows.take(i as int).filter(p),
            decreases entries@.len() - i,
        {
            let st = &entries[i].1;
            proof {
                assert(rows.take(i + 1).drop_last() =~= rows.take(i as int));
                assert(rows.take(i + 1).last() == *st);
                reveal(Seq::filter);
            }
            let owned_here = match &st.parent {
                EmojiParent::Server { id } => str_eq(id.as_str(), parent_id),
                EmojiParent::Detached => false,
            };
            if owned_here {
                out.push(st.duplicate());
            }
            i = i + 1;
        }
        assert(rows.take(entries@.len() as int) =~= rows);
        Ok(out)
    }

    /// Detaches the stored sticker with the id of `sticker` from its server; an id not held is `NotFound`.
    pub fn detach_sticker(&mut self, sticker: &Sticker) -> (r: Result<(), ApiError>)
        requires
            old(self).wf(),
        ensures
            final(self).wf(),
            !old(self).spec_stickers().contains_key(sticker.id@) ==> (r matches Err(e) && e is NotFound && *final(self) == *old(self)),
            old(self).spec_stickers().contains_key(sticker.id@) ==> {
                let before = old(self).spec_stickers()[sticker.id@];
                &&& r is Ok
                &&& final(self).spec_stickers() == old(self).spec_stickers().insert(sticker.id@, Sticker { parent: EmojiParent::Detached, ..before })
                &&& final(self).spec_sticker_keys() == old(self).spec_sticker_keys()
                &&& final(self).spec_reports() == old(self).spec_reports()
                &&& final(self).spec_clips() == old(self).spec_clips()
                &&& final(self).spec_snapshots() == old(self).spec_snapshots()
            },
    {
        match self.stickers.get_copy(sticker.id.as_str()) {
            Some(mut st) => {
                st.parent = EmojiParent::Detached;
                self.stickers.insert(sticker.id.clone(), st);
                Ok(())
            },
            None => Err(ApiError::NotFound),
        }
    }

    /// Stores a copy of `clip` under its id; an id already held is refused.
    pub fn insert_soundboard_clip(&mut self, clip: &SoundboardClip) -> (r: Result<(), ApiError>)
        requires
            old(self).wf(),
        ensures
            final(self).wf(),
            old(self).spec_clips().contains_key(clip.id@) ==> (r matches Err(e) && e.is_database("insert"@, "soundboard_clip"@) && *final(self) == *old(self)),
            !old(self).spec_clips().contains_key(clip.id@) ==> {
                &&& r is Ok
                &&& final(self).spec_clips() == old(self).spec_clips().insert(clip.id@, *clip)
                &&& final(self).spec_clip_keys() == old(self).spec_clip_keys().push(clip.id@)
                &&& final(self).spec_clip_rows() == old(self).spec_clip_rows().push(*clip)
                &&& final(self).spec_reports() == old(self).spec_reports()
                &&& final(self).spec_stickers() == old(self).spec_stickers()
                &&& final(self).spec_snapshots() == old(self).spec_snapshots()
            },
    {
        if self.soundboard_clips.contains_key(clip.id.as_str()) {
            return Err(db_error("insert", "soundboard_clip"));
        }
        let copy = clip.duplicate();
        self.soundboard_clips.insert(clip.id.clone(), copy);
        proof {
            assert(entry_keys(self.soundboard_clips.spec_entries()) =~= entry_keys(old(self).soundboard_clips.spec_entries()).push(clip.id@));
            assert(entry_values(self.soundboard_clips.spec_entries()) =~= entry_values(old(self).soundboard_clips.spec_entries()).push(*clip));
        }
        Ok(())
    }

    /// A copy of the clip stored under `id`, or `NotFound`.
    pub fn fetch_soundboard_clip(&self, id: &str) -> (r: Result<SoundboardClip, ApiError>)
        requires
            self.wf(),
        ensures
            self.spec_clips().contains_key(id@) ==> r == Ok::<SoundboardClip, ApiError>(self.spec_clips()[id@]),
            !self.spec_clips().contains_key(id@) ==> (r matches Err(e) && e is NotFound),
    {
        match self.soundboard_clips.get_copy(id) {
            Some(c) => Ok(c),
            None => Err(ApiError::NotFound),
        }
    }

    /// Copies of the clips owned by the server `parent_id`, in storage order.
    pub fn fetch_soundboard_by_parent_id(&self, parent_id: &str) -> (r: Result<Vec<SoundboardClip>, ApiError>)
        requires
            self.wf(),
        ensures
            r matches Ok(v) && v@ == clips_of(*self, parent_id@),
    {
        let entries = self.soundboard_clips.entries();
        let ghost rows = self.spec_clip_rows();
        let ghost p = |c: SoundboardClip| owned_by(c.parent, parent_id@);
        let mut out: Vec<SoundboardClip> = Vec::new();
        let mut i: usize = 0;
        while i < entries.len()
            invariant
                entries@ == self.soundboard_clips.spec_entries(),
                rows == entry_values(entries@),
                i <= entries@.len(),
                p == (|c: SoundboardClip| owned_by(c.parent, parent_id@)),
                out@ == rows.take(i as int).filter(p),
            decreases entries@.len() - i,
        {
            let c = &entries[i].1;
            proof {
                assert(rows.take(i + 1).drop_last() =~= rows.take(i as int));
                assert(rows.take(i + 1).last() == *c);
                reveal(Seq::filter);
            }
            let owned_here = match &c.parent {
                EmojiParent::Server { id } => str_eq(id.as_str(), parent_id),
                EmojiParent::Detached => false,
            };
            if owned_here {
                out.push(c.duplicate());
            }
            i = i + 1;
        }
        assert(rows.take(entries@.len() as int) =~= rows);
        Ok(out)
    }

    /// Detaches the stored clip with the id of `clip` from its server; an id not held is `NotFound`.
    pub fn detach_soundboard_clip(&mut self, clip: &SoundboardClip) -> (r: Result<(), ApiError>)
        requires
            old(self).wf(),
        ensures
            final(self).wf(),
            !old(self).spec_clips().contains_key(clip.id@) ==> (r matches Err(e) && e is NotFound && *final(self) == *old(self)),
            old(self).spec_clips().contains_key(clip.id@) ==> {
                let before = old(self).spec_clips()[clip.id@];
                &&& r is Ok
                &&& final(self).spec_clips() == old(self).spec_clips().insert(clip.id@, SoundboardClip { parent: EmojiParent::Detached, ..before })
                &&& final(self).spec_clip_keys() == old(self).spec_clip_keys()
                &&& final(self).spec_reports() == old(self).spec_reports()
                &&& final(self).spec_stickers() == old(self).spec_stickers()
                &&& final(self).spec_snapshots() == old(self).spec_snapshots()
            },
    {
        match self.soundboard_clips.get_copy(clip.id.as_str()) {
            Some(mut c) => {
                c.parent = EmojiParent::Detached;
                self.soundboard_clips.insert(clip.id.clone(), c);
                Ok(())
            },
            None => Err(ApiError::NotFound),
        }
    }
}

/// The stored stickers that the server `server` owns, in storage order.
pub open spec fn stickers_of(db: ReferenceDb, server: Seq<char>) -> Seq<Sticker> {
    db.spec_sticker_rows().filter(|st: Sticker| owned_by(st.parent, server))
}

/// The stored clips that the server `server` owns, in storage order.
pub open spec fn clips_of(db: ReferenceDb, server: Seq<char>) -> Seq<SoundboardClip> {
    db.spec_clip_rows().filter(|c: SoundboardClip| owned_by(c.parent, server))
}

/// The stored snapshots taken for `report_id`, in storage order.
pub open spec fn snapshots_of(db: ReferenceDb, report_id: Seq<char>) -> Seq<Snapshot> {
    db.spec_snapshot_rows().filter(|sn: Snapshot| sn.report_id@ == report_id)
}

/// The stored reports whose status passes `status`, in storage order.
pub open spec fn reports_with_status(db: ReferenceDb, status: Option<ReportStatusString>) -> Seq<Report> {
    db.spec_report_rows().filter(|rep: Report| status_matches(status, rep))
}

/// Whether `after` is `before` with the report under `id` replaced by one that
/// holds the values of `report`, and nothing else changed.
pub open spec fn report_replaced(before: ReferenceDb, after: ReferenceDb, id: Seq<char>, report: Report) -> bool {
    &&& after.spec_reports() == before.spec_reports().insert(id, after.spec_reports()[id])
    &&& same_report(after.spec_reports()[id], report)
    &&& after.spec_report_keys() == before.spec_report_keys()
    &&& after.spec_stickers() == before.spec_stickers()
    &&& after.spec_clips() == before.spec_clips()
    &&& after.spec_snapshots() == before.spec_snapshots()
}

/// Filtering with a predicate that holds of everything keeps everything.
pub proof fn lemma_filter_all<A>(s: Seq<A>, p: spec_fn(A) -> bool)
    requires
        forall|x: A| #[trigger] p(x),
    ensures
        s.filter(p) == s,
    decreases s.len(),
{
    reveal(Seq::filter);
    if s.len() > 0 {
        lemma_filter_all(s.drop_last(), p);
        assert(s.drop_last().push(s.last()) =~= s);
    }
}

/// Without a status filter, every stored report is read.
pub proof fn lemma_all_reports(db: ReferenceDb)
    ensures
        reports_with_status(db, None) == db.spec_report_rows(),
{
    lemma_filter_all(db.spec_report_rows(), |rep: Report| status_matches(None, rep));
}

/// What `fetch_report` answers for `id`: the stored report, if any.
pub open spec fn stored_report(db: ReferenceDb, id: Seq<char>) -> Option<Report> {
    if db.spec_reports().contains_key(id) {
        Some(db.spec_reports()[id])
    } else {
        None
    }
}

/// A stored report is read back: after `insert_report(r)` succeeds, fetching
/// `r.id` gives a report with the values of `r`, and every other id reads as before.
pub proof fn law_report_read_back(before: ReferenceDb, after: ReferenceDb, r: Report, stored: Report)
    requires
        !before.spec_reports().contains_key(r.id@),
        after.spec_reports() == before.spec_reports().insert(r.id@, stored),
        same_report(stored, r),
    ensures
        stored_report(after, r.id@) matches Some(x) && same_report(x, r),
        forall|k: Seq<char>| k != r.id@ ==> #[trigger] stored_report(after, k) == stored_report(before, k),
{
}

/// An update is read back: after `update_report(id, r)` succeeds, fetching `id`
/// gives a report with the values of `r`; the set of stored ids is unchanged.
pub proof fn law_report_update_read_back(before: ReferenceDb, after: ReferenceDb, id: Seq<char>, r: Report, stored: Report)
    requires
        before.spec_reports().contains_key(id),
        after.spec_reports() == before.spec_reports().insert(id, stored),
        same_report(stored, r),
    ensures
        stored_report(after, id) matches Some(x) && same_report(x, r),
        after.spec_reports().dom() == before.spec_reports().dom(),
{
    assert(after.spec_reports().dom() =~= before.spec_reports().dom());
}

/// A detached sticker is no longer listed for any server.
pub proof fn law_detached_sticker_unlisted(after: ReferenceDb, sticker_id: Seq<char>, server: Seq<char>)
    requires
        after.wf(),
        after.spec_stickers().contains_key(sticker_id),
        after.spec_stickers()[sticker_id].parent == EmojiParent::Detached,
    ensures
        forall|i: int| 0 <= i < stickers_of(after, server).len() ==> (#[trigger] stickers_of(after, server)[i]).id@ != sticker_id,
{
    let rows = after.spec_sticker_rows();
    let p = |st: Sticker| owned_by(st.parent, server);
    after.lemma_rows();
    after.lemma_keys_are_ids();
    assert forall|i: int| 0 <= i < rows.filter(p).len() implies (#[trigger] rows.filter(p)[i]).id@ != sticker_id by {
        let x = rows.filter(p)[i];
        rows.lemma_filter_pred(p, i);
        assert(rows.filter(p).contains(x));
        rows.lemma_filter_contains_rev(p, x);
        let j = choose|j: int| 0 <= j < rows.len() && rows[j] == x;
        let k = after.spec_sticker_keys()[j];
        assert(after.spec_stickers()[k] == rows[j]);
        if k == sticker_id {
            assert(!owned_by(x.parent, server));
        } else {
            assert(x.id@ == k);
        }
    }
}

/// A detached clip is no longer listed for any server.
pub proof fn law_detached_clip_unlisted(after: ReferenceDb, clip_id: Seq<char>, server: Seq<char>)
    requires
        after.wf(),
        after.spec_clips().contains_key(clip_id),
        after.spec_clips()[clip_id].parent == EmojiParent::Detached,
    ensures
        forall|i: int| 0 <= i < clips_of(after, server).len() ==> (#[trigger] clips_of(after, server)[i]).id@ != clip_id,
{
    let rows = after.spec_clip_rows();
    let p = |c: SoundboardClip| owned_by(c.parent, server);
    after.lemma_rows();
    after.lemma_keys_are_ids();
    assert forall|i: int| 0 <= i < rows.filter(p).len() implies (#[trigger] rows.filter(p)[i]).id@ != clip_id by {
        let x = rows.filter(p)[i];
        rows.lemma_filter_pred(p, i);
        assert(rows.filter(p).contains(x));
        rows.lemma_filter_contains_rev(p, x);
        let j = choose|j: int| 0 <= j < rows.len() && rows[j] == x;
        let k = after.spec_clip_keys()[j];
        assert(after.spec_clips()[k] == rows[j]);
        if k == clip_id {
            assert(!owned_by(x.parent, server));
        } else {
            assert(x.id@ == k);
        }
    }
}

/// A stored sticker that its server owns is listed for that server.
pub proof fn law_owned_sticker_listed(db: ReferenceDb, sticker_id: Seq<char>, server: Seq<char>)
    requires
        db.wf(),
        db.spec_stickers().contains_key(sticker_id),
        owned_by(db.spec_stickers()[sticker_id].parent, server),
    ensures
        stickers_of(db, server).contains(db.spec_stickers()[sticker_id]),
{
    let rows = db.spec_sticker_rows();
    let p = |st: Sticker| owned_by(st.parent, server);
    db.lemma_rows();
    let j = choose|j: int| 0 <= j < db.spec_sticker_keys().len() && db.spec_sticker_keys()[j] == sticker_id;
    assert(rows[j] == db.spec_stickers()[sticker_id]);
    assert(p(rows[j]));
    rows.lemma_filter_contains(p, j);
}

} // verus!
