//! Feature rollout: the default switches, operator overrides, the emergency
//! kill switch, promoted cohorts, and what each user ends up with.
use vstd::prelude::*;

use crate::permissions::FEATURE_PREFIX;
use crate::strmap::{pairs_to_map, StrMap};
use crate::text::{owned, starts_with, str_eq, trim, trimmed};
use crate::users::{explicit_permissions, holds, owned_all, views, User};

verus! {

/// The pieces of `s` between commas, as `str::split(',')` yields them (always at least one).
pub open spec fn split_commas(s: Seq<char>) -> Seq<Seq<char>>
    decreases s.len(),
{
    if s.len() == 0 {
        seq![Seq::<char>::empty()]
    } else {
        let p = split_commas(s.drop_last());
        if s.last() == ',' {
            p.push(Seq::<char>::empty())
        } else {
            p.update(p.len() - 1, p.last().push(s.last()))
        }
    }
}

/// A trimmed piece when it is not empty.
pub open spec fn kept_item(p: Seq<char>) -> Option<Seq<char>> {
    if trim(p).len() > 0 {
        Some(trim(p))
    } else {
        None
    }
}

/// The items of a comma-separated list: each piece trimmed, the empty ones dropped.
pub open spec fn csv_items(s: Seq<char>) -> Seq<Seq<char>> {
    split_commas(s).filter_map(|p: Seq<char>| kept_item(p))
}

proof fn lemma_split_nonempty(s: Seq<char>)
    ensures
        split_commas(s).len() >= 1,
    decreases s.len(),
{
    if s.len() > 0 {
        lemma_split_nonempty(s.drop_last());
    }
}

/// Splits `raw` on commas, trims each piece and drops the empty ones.
pub fn parse_csv(raw: &str) -> (out: Vec<String>)
    ensures
        views(out@) == csv_items(raw@),
{
    let n = raw.unicode_len();
    let mut out: Vec<String> = Vec::new();
    let mut start: usize = 0;
    let mut i: usize = 0;
    let ghost f = |p: Seq<char>| kept_item(p);
    while i < n
        invariant
            n == raw@.len(),
            start <= i <= n,
            f == (|p: Seq<char>| kept_item(p)),
            split_commas(raw@.subrange(0, i as int)).len() >= 1,
            split_commas(raw@.subrange(0, i as int)).last() == raw@.subrange(start as int, i as int),
            views(out@) == split_commas(raw@.subrange(0, i as int)).drop_last().filter_map(f),
        decreases n - i,
    {
        let ghost pre = raw@.subrange(0, i as int);
        let ghost post = raw@.subrange(0, i + 1);
        proof {
            assert(post.drop_last() =~= pre);
            lemma_split_nonempty(pre);
        }
        let c = raw.get_char(i);
        if c == ',' {
            let piece = trimmed(raw.substring_char(start, i));
            let ghost before = out@;
            if piece.unicode_len() > 0 {
                out.push(piece);
            }
            proof {
                let sp = split_commas(pre);
                assert(split_commas(post) == sp.push(Seq::<char>::empty()));
                assert(split_commas(post).drop_last() =~= sp);
                assert(sp.drop_last().push(sp.last()) =~= sp);
                assert(sp.filter_map(f) == sp.drop_last().filter_map(f) + (match f(sp.last()) { Some(x) => seq![x], None => Seq::empty() }));
                if piece@.len() > 0 {
                    assert(views(out@) =~= views(before).push(piece@));
                    assert(views(out@) =~= sp.filter_map(f));
                } else {
                    assert(views(out@) =~= sp.filter_map(f));
                }
                assert(split_commas(post).last() =~= raw@.subrange(i + 1, i + 1));
            }
            start = i + 1;
        } else {
            proof {
                let sp = split_commas(pre);
                assert(split_commas(post) == sp.update(sp.len() - 1, sp.last().push(c)));
                assert(split_commas(post).drop_last() =~= sp.drop_last());
                assert(split_commas(post).last() =~= raw@.subrange(start as int, i + 1));
            }
        }
        i = i + 1;
    }
    let piece = trimmed(raw.substring_char(start, n));
    let ghost before = out@;
    if piece.unicode_len() > 0 {
        out.push(piece);
    }
    proof {
        let sp = split_commas(raw@.subrange(0, n as int));
        assert(raw@.subrange(0, n as int) =~= raw@);
        assert(sp.drop_last().push(sp.last()) =~= sp);
        assert(sp.filter_map(f) == sp.drop_last().filter_map(f) + (match f(sp.last()) { Some(x) => seq![x], None => Seq::empty() }));
        if piece@.len() > 0 {
            assert(views(out@) =~= views(before).push(piece@));
        }
        assert(views(out@) =~= sp.filter_map(f));
    }
    out
}

/// The features that are switched on by default.
pub open spec fn default_feature_keys() -> Seq<Seq<char>> {
    seq![
        "profile_v2"@,
        "profile_v3"@,
        "admin_panel_v1"@,
        "admin_reports_v2"@,
        "staff_permissions_v2"@,
        "user_cosmetics_admin_v1"@,
        "server_theming_v1"@,
        "stickers_v1"@,
        "soundboard_v1"@,
    ]
}

/// The features that every staff member and privileged account has.
pub open spec fn staff_feature_keys() -> Seq<Seq<char>> {
    seq!["admin_panel_v1"@, "profile_v2"@, "profile_v3"@, "server_theming_v1"@]
}

/// `m` with every key of `keys` set to `v`.
pub open spec fn set_keys(m: Map<Seq<char>, bool>, keys: Seq<Seq<char>>, v: bool) -> Map<Seq<char>, bool>
    decreases keys.len(),
{
    if keys.len() == 0 {
        m
    } else {
        set_keys(m, keys.drop_last(), v).insert(keys.last(), v)
    }
}

/// Keys of `keys` are set to `v`; other keys keep what `m` held.
pub proof fn lemma_set_keys(m: Map<Seq<char>, bool>, keys: Seq<Seq<char>>, v: bool)
    ensures
        forall|k: Seq<char>| #[trigger] keys.contains(k) ==> set_keys(m, keys, v).contains_key(k) && set_keys(m, keys, v)[k] == v,
        forall|k: Seq<char>| !keys.contains(k) ==> (#[trigger] set_keys(m, keys, v).contains_key(k) == m.contains_key(k)) && (m.contains_key(k) ==> set_keys(m, keys, v)[k] == m[k]),
    decreases keys.len(),
{
    if keys.len() > 0 {
        let t = keys.drop_last();
        lemma_set_keys(m, t, v);
        assert(set_keys(m, keys, v) == set_keys(m, t, v).insert(keys.last(), v));
        assert forall|k: Seq<char>| #[trigger] keys.contains(k) implies set_keys(m, keys, v).contains_key(k) && set_keys(m, keys, v)[k] == v by {
            if k != keys.last() {
                let i = choose|i: int| 0 <= i < keys.len() && keys[i] == k;
                assert(t[i] == k);
                assert(t.contains(k));
            }
        }
        assert forall|k: Seq<char>| !keys.contains(k) implies (#[trigger] set_keys(m, keys, v).contains_key(k) == m.contains_key(k)) && (m.contains_key(k) ==> set_keys(m, keys, v)[k] == m[k]) by {
            assert(k != keys[keys.len() - 1]);
            if t.contains(k) {
                let i = choose|i: int| 0 <= i < t.len() && t[i] == k;
                assert(keys[i] == k);
            }
            assert(!t.contains(k));
        }
    }
}

/// The default switches: every default feature on.
pub open spec fn spec_default_features() -> Map<Seq<char>, bool> {
    set_keys(Map::empty(), default_feature_keys(), true)
}

/// Sets each key of `keys` to `v` in `m`.
fn insert_all(m: &mut StrMap<bool>, keys: &Vec<String>, v: bool)
    requires
        old(m).wf(),
    ensures
        final(m).wf(),
        final(m).view() == set_keys(old(m).view(), views(keys@), v),
{
    let mut i: usize = 0;
    while i < keys.len()
        invariant
            i <= keys@.len(),
            m.wf(),
            m.view() == set_keys(old(m).view(), views(keys@).subrange(0, i as int), v),
        decreases keys@.len() - i,
    {
        m.insert(keys[i].clone(), v);
        proof {
            assert(views(keys@).subrange(0, i + 1).drop_last() =~= views(keys@).subrange(0, i as int));
        }
        i = i + 1;
    }
    assert(views(keys@).subrange(0, keys@.len() as int) =~= views(keys@));
}

/// The default switches: every default feature on.
pub fn default_features() -> (m: StrMap<bool>)
    ensures
        m.wf(),
        m.view() == spec_default_features(),
        m.view() == map![
            "profile_v2"@ => true,
            "profile_v3"@ => true,
            "admin_panel_v1"@ => true,
            "admin_reports_v2"@ => true,
            "staff_permissions_v2"@ => true,
            "user_cosmetics_admin_v1"@ => true,
            "server_theming_v1"@ => true,
            "stickers_v1"@ => true,
            "soundboard_v1"@ => true,
        ],
{
    proof {
        law_shipped_default_switches();
    }
    let keys: Vec<&'static str> = vec![
        "profile_v2",
        "profile_v3",
        "admin_panel_v1",
        "admin_reports_v2",
        "staff_permissions_v2",
        "user_cosmetics_admin_v1",
        "server_theming_v1",
        "stickers_v1",
        "soundboard_v1",
    ];
    assert(keys@.map_values(|s: &str| s@) =~= default_feature_keys());
    let owned_keys = owned_all(&keys);
    let mut m: StrMap<bool> = StrMap::new();
    insert_all(&mut m, &owned_keys, true);
    m
}

/// The features that staff always have.
pub fn staff_features() -> (v: Vec<String>)
    ensures
        views(v@) == staff_feature_keys(),
{
    let keys: Vec<&'static str> = vec!["admin_panel_v1", "profile_v2", "profile_v3", "server_theming_v1"];
    assert(keys@.map_values(|s: &str| s@) =~= staff_feature_keys());
    owned_all(&keys)
}

/// Rollout state: the switches operators set at run time, and the lists
/// read from the service's configuration.
pub struct RolloutState {
    overrides: StrMap<bool>,
    kill_switch: bool,
    global_disable: Vec<String>,
    promote_user_ids: Vec<String>,
    promote_keys: Vec<String>,
}

/// A per-feature grant names the feature after the prefix.
pub open spec fn feature_grant(p: Seq<char>) -> Option<Seq<char>> {
    if FEATURE_PREFIX@.is_prefix_of(p) {
        Some(p.skip(FEATURE_PREFIX@.len() as int))
    } else {
        None
    }
}

/// `out` followed by each key of `keys` that is not already there.
pub open spec fn append_missing(out: Seq<Seq<char>>, keys: Seq<Seq<char>>) -> Seq<Seq<char>>
    decreases keys.len(),
{
    if keys.len() == 0 {
        out
    } else {
        let r = append_missing(out, keys.drop_last());
        if r.contains(keys.last()) {
            r
        } else {
            r.push(keys.last())
        }
    }
}

/// Whether `u` counts as staff for feature purposes.
pub open spec fn is_staff_admin(u: User) -> bool {
    u.privileged || u.platform_admin_role is Some
}

impl RolloutState {
    #[verifier::type_invariant]
    spec fn inv(self) -> bool {
        self.overrides.wf()
    }

    /// The operator overrides, by feature.
    pub closed spec fn spec_overrides(self) -> Map<Seq<char>, bool> {
        self.overrides.view()
    }

    /// Whether the emergency kill switch is on.
    pub closed spec fn spec_kill_switch(self) -> bool {
        self.kill_switch
    }

    /// The features switched off for everyone by configuration.
    pub closed spec fn spec_global_disable(self) -> Seq<Seq<char>> {
        views(self.global_disable@)
    }

    /// The users who are promoted to the promoted features.
    pub closed spec fn spec_promote_user_ids(self) -> Seq<Seq<char>> {
        views(self.promote_user_ids@)
    }

    /// The features that promoted users receive.
    pub closed spec fn spec_promote_keys(self) -> Seq<Seq<char>> {
        views(self.promote_keys@)
    }

    /// The switches that hold for everyone: the defaults, the configured
    /// disables, then the operator overrides, each later one winning.
    pub open spec fn spec_global_features(self) -> Map<Seq<char>, bool> {
        set_keys(spec_default_features(), self.spec_global_disable(), false).union_prefer_right(self.spec_overrides())
    }

    /// The features promoted for `u`: their per-feature grants, then (for a user
    /// of the promoted cohort) each promoted key not yet listed.
    pub open spec fn spec_promoted_features(self, u: User) -> Seq<Seq<char>> {
        let granted = explicit_permissions(u).filter_map(|p: Seq<char>| feature_grant(p));
        if self.spec_promote_user_ids().contains(u.id@) {
            append_missing(granted, self.spec_promote_keys())
        } else {
            granted
        }
    }

    /// The features in force for `u`: the global switches, the promoted features
    /// switched on, and for staff the staff features switched on.
    pub open spec fn spec_effective_features(self, u: User) -> Map<Seq<char>, bool> {
        let m = set_keys(self.spec_global_features(), self.spec_promoted_features(u), true);
        if is_staff_admin(u) {
            set_keys(m, staff_feature_keys(), true)
        } else {
            m
        }
    }

    /// Whether `u` may use `key`: never while the kill switch is on, else as the
    /// effective features say (a feature they do not list is off).
    pub open spec fn spec_user_has_feature(self, u: User, key: Seq<char>) -> bool {
        !self.spec_kill_switch() && self.spec_effective_features(u).contains_key(key) && self.spec_effective_features(u)[key]
    }

    /// A state with no overrides, from the given start-up values.
    pub fn new(kill_switch: bool, global_disable: Vec<String>, promote_user_ids: Vec<String>, promote_keys: Vec<String>) -> (s: Self)
        ensures
            s.spec_overrides() == Map::<Seq<char>, bool>::empty(),
            s.spec_kill_switch() == kill_switch,
            s.spec_global_disable() == views(global_disable@),
            s.spec_promote_user_ids() == views(promote_user_ids@),
            s.spec_promote_keys() == views(promote_keys@),
    {
        RolloutState { overrides: StrMap::new(), kill_switch, global_disable, promote_user_ids, promote_keys }
    }

    /// A state from the raw configuration texts: the kill switch is on when its
    /// text is exactly `1`; the lists are comma-separated.
    pub fn from_config(kill_switch: &str, global_disable: &str, promote_user_ids: &str, promote_keys: &str) -> (s: Self)
        ensures
            s.spec_overrides() == Map::<Seq<char>, bool>::empty(),
            s.spec_kill_switch() == (kill_switch@ == "1"@),
            s.spec_global_disable() == csv_items(global_disable@),
            s.spec_promote_user_ids() == csv_items(promote_user_ids@),
            s.spec_promote_keys() == csv_items(promote_keys@),
    {
        let kill = str_eq(kill_switch, "1");
        RolloutState::new(kill, parse_csv(global_disable), parse_csv(promote_user_ids), parse_csv(promote_keys))
    }

    /// Reads the configured lists again from their raw texts, as the service
    /// does before each use; the overrides and the kill switch stay.
    pub fn reload_lists(&mut self, global_disable: &str, promote_user_ids: &str, promote_keys: &str)
        ensures
            final(self).spec_overrides() == old(self).spec_overrides(),
            final(self).spec_kill_switch() == old(self).spec_kill_switch(),
            final(self).spec_global_disable() == csv_items(global_disable@),
            final(self).spec_promote_user_ids() == csv_items(promote_user_ids@),
            final(self).spec_promote_keys() == csv_items(promote_keys@),
    {
        proof {
            use_type_invariant(&*self);
        }
        self.global_disable = parse_csv(global_disable);
        self.promote_user_ids = parse_csv(promote_user_ids);
        self.promote_keys = parse_csv(promote_keys);
    }

    /// Whether the emergency kill switch is on.
    pub fn emergency_kill_switch(&self) -> (b: bool)
        ensures
            b == self.spec_kill_switch(),
    {
        self.kill_switch
    }

    /// Turns the emergency kill switch on or off; nothing else changes.
    pub fn set_emergency_kill_switch(&mut self, enabled: bool)
        ensures
            final(self).spec_kill_switch() == enabled,
            final(self).spec_overrides() == old(self).spec_overrides(),
            final(self).spec_global_disable() == old(self).spec_global_disable(),
            final(self).spec_promote_user_ids() == old(self).spec_promote_user_ids(),
            final(self).spec_promote_keys() == old(self).spec_promote_keys(),
    {
        proof {
            use_type_invariant(&*self);
        }
        self.kill_switch = enabled;
    }

    /// Overrides `feature` for everyone; nothing else changes.
    pub fn set_global_feature(&mut self, feature: String, enabled: bool)
        ensures
            final(self).spec_overrides() == old(self).spec_overrides().insert(feature@, enabled),
            final(self).spec_kill_switch() == old(self).spec_kill_switch(),
            final(self).spec_global_disable() == old(self).spec_global_disable(),
            final(self).spec_promote_user_ids() == old(self).spec_promote_user_ids(),
            final(self).spec_promote_keys() == old(self).spec_promote_keys(),
    {
        proof {
            use_type_invariant(&*self);
        }
        let mut overrides = StrMap::new();
        std::mem::swap(&mut overrides, &mut self.overrides);
        overrides.insert(feature, enabled);
        self.overrides = overrides;
    }

    /// The switches that hold for everyone.
    pub fn global_features(&self) -> (m: StrMap<bool>)
        ensures
            m.wf(),
            m.view() == self.spec_global_features(),
    {
        proof {
            use_type_invariant(self);
        }
        let mut map = default_features();
        insert_all(&mut map, &self.global_disable, false);
        let ghost base = map.view();
        let entries = self.overrides.entries();
        let mut i: usize = 0;
        while i < entries.len()
            invariant
                entries@ == self.overrides.spec_entries(),
                i <= entries@.len(),
                map.wf(),
                map.view() == base.union_prefer_right(pairs_to_map(entries@.subrange(0, i as int))),
            decreases entries@.len() - i,
        {
            let k = entries[i].0.clone();
            let v = entries[i].1;
            map.insert(k, v);
            proof {
                let s = entries@.subrange(0, i + 1);
                assert(s.drop_last() =~= entries@.subrange(0, i as int));
                assert(map.view() =~= base.union_prefer_right(pairs_to_map(s)));
            }
            i = i + 1;
        }
        assert(entries@.subrange(0, entries@.len() as int) =~= entries@);
        map
    }

    /// The features promoted for `user`.
    pub fn promoted_features(&self, user: &User) -> (out: Vec<String>)
        ensures
            views(out@) == self.spec_promoted_features(*user),
    {
        let mut out: Vec<String> = Vec::new();
        let perms: Vec<String> = match &user.platform_permissions {
            Some(p) => p.clone(),
            None => Vec::new(),
        };
        proof {
            if user.platform_permissions is Some {
                assert(perms@ =~= user.platform_permissions->Some_0@);
            }
            assert(views(perms@) == explicit_permissions(*user));
        }
        let ghost f = |p: Seq<char>| feature_grant(p);
        let plen = FEATURE_PREFIX.unicode_len();
        let mut i: usize = 0;
        while i < perms.len()
            invariant
                i <= perms@.len(),
                plen == FEATURE_PREFIX@.len(),
                f == (|p: Seq<char>| feature_grant(p)),
                views(out@) == views(perms@).subrange(0, i as int).filter_map(f),
            decreases perms@.len() - i,
        {
            let p = &perms[i];
            let ghost before = out@;
            let ghost sub = views(perms@).subrange(0, i + 1);
            proof {
                assert(sub.drop_last() =~= views(perms@).subrange(0, i as int));
                assert(sub.last() == p@);
            }
            if starts_with(p.as_str(), FEATURE_PREFIX) {
                let n = p.unicode_len();
                let rest = owned(p.as_str().substring_char(plen, n));
                out.push(rest);
                proof {
                    assert(views(out@) =~= views(before).push(rest@));
                    assert(rest@ =~= p@.skip(plen as int));
                }
            }
            i = i + 1;
        }
        assert(views(perms@).subrange(0, perms@.len() as int) =~= views(perms@));
        let mut in_cohort = false;
        let mut j: usize = 0;
        while j < self.promote_user_ids.len()
            invariant
                j <= self.promote_user_ids@.len(),
                in_cohort == views(self.promote_user_ids@).subrange(0, j as int).contains(user.id@),
            decreases self.promote_user_ids@.len() - j,
        {
            let hit = str_eq(self.promote_user_ids[j].as_str(), user.id.as_str());
            proof {
                let sub = views(self.promote_user_ids@).subrange(0, j + 1);
                assert(sub =~= views(self.promote_user_ids@).subrange(0, j as int).push(self.promote_user_ids@[j as int]@));
                if hit {
                    assert(sub[j as int] == user.id@);
                }
                if in_cohort {
                    let k = choose|k: int| 0 <= k < j && views(self.promote_user_ids@).subrange(0, j as int)[k] == user.id@;
                    assert(sub[k] == user.id@);
                }
                if sub.contains(user.id@) && !hit {
                    let k = choose|k: int| 0 <= k < j + 1 && sub[k] == user.id@;
                    assert(k < j);
                    assert(views(self.promote_user_ids@).subrange(0, j as int)[k] == user.id@);
                }
            }
            in_cohort = in_cohort || hit;
            j = j + 1;
        }
        assert(views(self.promote_user_ids@).subrange(0, self.promote_user_ids@.len() as int) =~= views(self.promote_user_ids@));
        if in_cohort {
            let ghost granted = views(out@);
            let keys = &self.promote_keys;
            let mut k: usize = 0;
            while k < keys.len()
                invariant
                    k <= keys@.len(),
                    keys@ == self.promote_keys@,
                    views(out@) == append_missing(granted, views(keys@).subrange(0, k as int)),
                decreases keys@.len() - k,
            {
                let key = &keys[k];
                let ghost sub = views(keys@).subrange(0, k + 1);
                proof {
                    assert(sub.drop_last() =~= views(keys@).subrange(0, k as int));
                    assert(sub.last() == key@);
                }
                if !holds(&out, key.as_str()) {
                    let ghost before = out@;
                    out.push(key.clone());
                    proof {
                        assert(views(out@) =~= views(before).push(key@));
                    }
                }
                k = k + 1;
            }
            assert(views(keys@).subrange(0, keys@.len() as int) =~= views(keys@));
        }
        out
    }

    /// The features in force for `user`.
    pub fn effective_features(&self, user: &User) -> (m: StrMap<bool>)
        ensures
            m.wf(),
            m.view() == self.spec_effective_features(*user),
    {
        let mut effective = self.global_features();
        let promoted = self.promoted_features(user);
        insert_all(&mut effective, &promoted, true);
        let staff_admin = user.privileged || user.platform_admin_role.is_some();
        if staff_admin {
            let keys = staff_features();
            insert_all(&mut effective, &keys, true);
        }
        effective
    }

    /// Whether `user` may use `key`.
    pub fn user_has_feature(&self, user: &User, key: &str) -> (b: bool)
        ensures
            b == self.spec_user_has_feature(*user, key@),
    {
        if self.emergency_kill_switch() {
            return false;
        }
        let effective = self.effective_features(user);
        match effective.get(key) {
            Some(v) => *v,
            None => false,
        }
    }
}

/// An override is read back: after `set_global_feature(k, v)`, the global
/// switches hold `v` for `k`, and every other feature keeps its switch.
pub proof fn law_override_read_back(before: RolloutState, after: RolloutState, k: Seq<char>, v: bool)
    requires
        after.spec_overrides() == before.spec_overrides().insert(k, v),
        after.spec_global_disable() == before.spec_global_disable(),
    ensures
        after.spec_global_features().contains_key(k),
        after.spec_global_features()[k] == v,
        forall|other: Seq<char>| other != k ==> (#[trigger] after.spec_global_features().contains_key(other) == before.spec_global_features().contains_key(other))
            && (before.spec_global_features().contains_key(other) ==> after.spec_global_features()[other] == before.spec_global_features()[other]),
{
}

/// The emergency kill switch after the calls `calls` on a state whose switch
/// was configured as `configured`: `Some(b)` stands for
/// `set_emergency_kill_switch(b)`, `None` for a call that leaves the switch
/// alone (`set_global_feature`, `reload_lists`). It is the value last set, or
/// the configured one when none was set.
pub open spec fn switch_after(configured: bool, calls: Seq<Option<bool>>) -> bool
    decreases calls.len(),
{
    if calls.len() == 0 {
        configured
    } else {
        match calls.last() {
            Some(b) => b,
            None => switch_after(configured, calls.drop_last()),
        }
    }
}

/// Whether `after` is `before` once the call `c` has been made, as far as the
/// kill switch goes: `Some(b)` sets it to `b`, `None` keeps it.
pub open spec fn switch_step(before: RolloutState, after: RolloutState, c: Option<bool>) -> bool {
    match c {
        Some(b) => after.spec_kill_switch() == b,
        None => after.spec_kill_switch() == before.spec_kill_switch(),
    }
}

/// The emergency kill switch reads back as last set: a state built by
/// `from_config` with the switch text `kill`, then taken through the calls
/// `calls` (the states in between being `states`), reads the value of the last
/// `set_emergency_kill_switch`, or `kill == "1"` when it was never set.
pub proof fn law_kill_switch_read_back(kill: Seq<char>, states: Seq<RolloutState>, calls: Seq<Option<bool>>)
    requires
        states.len() == calls.len() + 1,
        states[0].spec_kill_switch() == (kill == "1"@),
        forall|i: int| 0 <= i < calls.len() ==> switch_step(#[trigger] states[i], states[i + 1], calls[i]),
    ensures
        states.last().spec_kill_switch() == switch_after(kill == "1"@, calls),
    decreases calls.len(),
{
    if calls.len() > 0 {
        let n = calls.len() - 1;
        let s0 = states.drop_last();
        let c0 = calls.drop_last();
        assert forall|i: int| 0 <= i < c0.len() implies switch_step(#[trigger] s0[i], s0[i + 1], c0[i]) by {
            assert(switch_step(states[i], states[i + 1], calls[i]));
        }
        law_kill_switch_read_back(kill, s0, c0);
        assert(switch_step(states[n], states[n + 1], calls[n]));
    }
}

/// While the emergency kill switch is on, no user has any feature.
pub proof fn law_kill_switch_blocks_all(st: RolloutState, u: User, k: Seq<char>)
    requires
        st.spec_kill_switch(),
    ensures
        !st.spec_user_has_feature(u, k),
{
}

/// Staff always have the staff features while the kill switch is off,
/// whatever the global switches say.
pub proof fn law_staff_features_on(st: RolloutState, u: User, k: Seq<char>)
    requires
        !st.spec_kill_switch(),
        is_staff_admin(u),
        staff_feature_keys().contains(k),
    ensures
        st.spec_user_has_feature(u, k),
{
    let m = set_keys(st.spec_global_features(), st.spec_promoted_features(u), true);
    lemma_set_keys(m, staff_feature_keys(), true);
}

/// A promoted feature is on for its user while the kill switch is off.
pub proof fn law_promoted_features_on(st: RolloutState, u: User, k: Seq<char>)
    requires
        !st.spec_kill_switch(),
        st.spec_promoted_features(u).contains(k),
    ensures
        st.spec_user_has_feature(u, k),
{
    let m = set_keys(st.spec_global_features(), st.spec_promoted_features(u), true);
    lemma_set_keys(st.spec_global_features(), st.spec_promoted_features(u), true);
    lemma_set_keys(m, staff_feature_keys(), true);
}

/// A default feature that configuration does not disable and no operator
/// overrides is on for everyone.
pub proof fn law_default_feature_on(st: RolloutState, k: Seq<char>)
    requires
        default_feature_keys().contains(k),
        !st.spec_global_disable().contains(k),
        !st.spec_overrides().contains_key(k),
    ensures
        st.spec_global_features().contains_key(k),
        st.spec_global_features()[k],
{
    lemma_set_keys(Map::empty(), default_feature_keys(), true);
    lemma_set_keys(spec_default_features(), st.spec_global_disable(), false);
}

/// The shipped default switches: exactly `profile_v2`, `profile_v3`,
/// `admin_panel_v1`, `admin_reports_v2`, `staff_permissions_v2`,
/// `user_cosmetics_admin_v1`, `server_theming_v1`, `stickers_v1` and
/// `soundboard_v1`, each on.
pub proof fn law_shipped_default_switches()
    ensures
        spec_default_features() == map![
            "profile_v2"@ => true,
            "profile_v3"@ => true,
            "admin_panel_v1"@ => true,
            "admin_reports_v2"@ => true,
            "staff_permissions_v2"@ => true,
            "user_cosmetics_admin_v1"@ => true,
            "server_theming_v1"@ => true,
            "stickers_v1"@ => true,
            "soundboard_v1"@ => true,
        ],
{
    let keys = default_feature_keys();
    let want = map![
        "profile_v2"@ => true,
        "profile_v3"@ => true,
        "admin_panel_v1"@ => true,
        "admin_reports_v2"@ => true,
        "staff_permissions_v2"@ => true,
        "user_cosmetics_admin_v1"@ => true,
        "server_theming_v1"@ => true,
        "stickers_v1"@ => true,
        "soundboard_v1"@ => true,
    ];
    lemma_set_keys(Map::empty(), keys, true);
    assert forall|k: Seq<char>| #[trigger] want.contains_key(k) <==> keys.contains(k) by {
        if want.contains_key(k) {
            if k == "profile_v2"@ { assert(keys[0] == k); }
            if k == "profile_v3"@ { assert(keys[1] == k); }
            if k == "admin_panel_v1"@ { assert(keys[2] == k); }
            if k == "admin_reports_v2"@ { assert(keys[3] == k); }
            if k == "staff_permissions_v2"@ { assert(keys[4] == k); }
            if k == "user_cosmetics_admin_v1"@ { assert(keys[5] == k); }
            if k == "server_theming_v1"@ { assert(keys[6] == k); }
            if k == "stickers_v1"@ { assert(keys[7] == k); }
            if k == "soundboard_v1"@ { assert(keys[8] == k); }
        }
        if keys.contains(k) {
            let i = choose|i: int| 0 <= i < keys.len() && keys[i] == k;
            assert(i == 0 || i == 1 || i == 2 || i == 3 || i == 4 || i == 5 || i == 6 || i == 7 || i == 8);
        }
    }
    assert(spec_default_features() =~= want);
}

/// Each shipped default feature is on for every user while the kill switch is
/// off, unless configuration disables it or an operator overrides it.
pub proof fn law_shipped_defaults_on(st: RolloutState, u: User, k: Seq<char>)
    requires
        k == "profile_v2"@ || k == "profile_v3"@ || k == "admin_panel_v1"@ || k == "admin_reports_v2"@
            || k == "staff_permissions_v2"@ || k == "user_cosmetics_admin_v1"@ || k == "server_theming_v1"@
            || k == "stickers_v1"@ || k == "soundboard_v1"@,
        !st.spec_kill_switch(),
        !st.spec_global_disable().contains(k),
        !st.spec_overrides().contains_key(k),
    ensures
        st.spec_user_has_feature(u, k),
{
    law_shipped_default_switches();
    assert(spec_default_features().contains_key(k));
    lemma_set_keys(Map::empty(), default_feature_keys(), true);
    assert(default_feature_keys().contains(k));
    law_default_feature_on(st, k);
    let g = st.spec_global_features();
    let m = set_keys(g, st.spec_promoted_features(u), true);
    lemma_set_keys(g, st.spec_promoted_features(u), true);
    if st.spec_promoted_features(u).contains(k) {
        assert(m.contains_key(k) && m[k]);
    } else {
        assert(m.contains_key(k) == g.contains_key(k));
        assert(m.contains_key(k) && m[k]);
    }
    lemma_set_keys(m, staff_feature_keys(), true);
    let staff = staff_feature_keys();
    if staff.contains(k) {
        assert(set_keys(m, staff, true).contains_key(k));
    } else {
        assert(set_keys(m, staff, true).contains_key(k) == m.contains_key(k));
    }
}

/// A feature that configuration disables and no operator overrides is off for everyone.
pub proof fn law_disabled_feature_off(st: RolloutState, k: Seq<char>)
    requires
        st.spec_global_disable().contains(k),
        !st.spec_overrides().contains_key(k),
    ensures
        st.spec_global_features().contains_key(k),
        !st.spec_global_features()[k],
{
    lemma_set_keys(spec_default_features(), st.spec_global_disable(), false);
}

} // verus!
