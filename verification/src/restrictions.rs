//! Account restrictions, kept among an account's settings under reserved keys,
//! each setting stamped with the time it was written.
use vstd::prelude::*;

use std::time::{Duration, SystemTime, UNIX_EPOCH};

use crate::audit::{note_is, AuditNote};
use crate::error::ApiError;
use crate::permissions::{ensure_permission, spec_has_permission, PERM_USERS_READ, PERM_USERS_RESTRICTIONS_WRITE};
use crate::strmap::StrMap;
use crate::text::{eq_ignore_ascii_case, lower_seq, owned, trim, trimmed};
use crate::users::{views, User};

verus! {

pub const RESTRICTION_PROFILE_LOCKED: &'static str = "admin:restriction:profile_locked";
pub const RESTRICTION_USERNAME_FROZEN_UNTIL: &'static str = "admin:restriction:username_frozen_until";
pub const RESTRICTION_DISPLAY_NAME_FROZEN_UNTIL: &'static str = "admin:restriction:display_name_frozen_until";
pub const RESTRICTION_MEDIA_QUARANTINED: &'static str = "admin:restriction:media_quarantined";
pub const RESTRICTION_PROFILE_VISIBILITY_LIMITED: &'static str = "admin:restriction:profile_visibility_limited";

/// An account's settings: for each key, the time it was written (Unix
/// milliseconds) and its text.
pub type UserSettings = StrMap<(i64, String)>;

/// The keys under which restrictions are kept.
pub open spec fn restriction_keys() -> Seq<Seq<char>> {
    seq![
        RESTRICTION_PROFILE_LOCKED@,
        RESTRICTION_USERNAME_FROZEN_UNTIL@,
        RESTRICTION_DISPLAY_NAME_FROZEN_UNTIL@,
        RESTRICTION_MEDIA_QUARANTINED@,
        RESTRICTION_PROFILE_VISIBILITY_LIMITED@,
    ]
}

/// The keys under which restrictions are kept.
pub fn restriction_setting_keys() -> (v: Vec<String>)
    ensures
        views(v@) == restriction_keys(),
{
    let v = vec![
        owned(RESTRICTION_PROFILE_LOCKED),
        owned(RESTRICTION_USERNAME_FROZEN_UNTIL),
        owned(RESTRICTION_DISPLAY_NAME_FROZEN_UNTIL),
        owned(RESTRICTION_MEDIA_QUARANTINED),
        owned(RESTRICTION_PROFILE_VISIBILITY_LIMITED),
    ];
    assert(views(v@) =~= restriction_keys());
    v
}

#[verifier::external_type_specification]
#[verifier::external_body]
pub struct ExSystemTime(SystemTime);

/// The system clock's current time.
///
/// Calls `SystemTime::now()`; nothing is stated of the value.
#[verifier::external_body]
fn system_now() -> (t: SystemTime) {
    SystemTime::now()
}

/// The time elapsed from the Unix epoch to `t`, or `None` when `t` is earlier.
///
/// Calls `SystemTime::duration_since(UNIX_EPOCH)`, whose error case is a time
/// before the epoch; the clock may be adjusted, so nothing is stated of the value.
#[verifier::external_body]
fn since_epoch(t: SystemTime) -> (d: Option<Duration>) {
    t.duration_since(UNIX_EPOCH).ok()
}

/// What `Duration::as_millis` answers for `d`: its whole milliseconds.
pub uninterp spec fn whole_millis(d: Duration) -> u128;

/// The whole milliseconds of `d`.
///
/// Calls `Duration::as_millis`, a function of `d` alone, named `whole_millis`.
#[verifier::external_body]
fn duration_millis(d: Duration) -> (m: u128)
    ensures
        m == whole_millis(d),
{
    d.as_millis()
}

/// Unix milliseconds as a signed number: a time before the epoch reads as 0,
/// and the count is cut to its low 64 bits.
pub fn unix_millis_of(elapsed: Option<u128>) -> (m: i64)
    ensures
        m == (match elapsed {
            Some(ms) => ms as i64,
            None => 0,
        }),
{
    match elapsed {
        Some(ms) => ms as i64,
        None => 0,
    }
}

/// The Unix milliseconds of a clock reading that lies `elapsed` after the epoch
/// (`None` when it lies before): the whole milliseconds cut to their low 64
/// bits, or 0.
pub open spec fn millis_since_epoch(elapsed: Option<Duration>) -> i64 {
    match elapsed {
        Some(d) => whole_millis(d) as i64,
        None => 0,
    }
}

/// The current time in Unix milliseconds, 0 when the clock reads before the epoch.
///
/// The clock's reading is not stated; the result is the Unix milliseconds of
/// that reading, as `millis_since_epoch` gives them.
pub fn current_unix_millis() -> (m: i64)
    ensures
        exists|elapsed: Option<Duration>| #[trigger] millis_since_epoch(elapsed) == m,
{
    let now = system_now();
    let reading = since_epoch(now);
    let ghost read = reading;
    let elapsed = match reading {
        Some(d) => Some(duration_millis(d)),
        None => None,
    };
    let m = unix_millis_of(elapsed);
    assert(millis_since_epoch(read) == m);
    m
}

/// Whether the setting `key` of `m` reads as on: its text, trimmed, is `true`
/// in any ASCII case.
pub open spec fn setting_on(m: Map<Seq<char>, (i64, String)>, key: Seq<char>) -> bool {
    m.contains_key(key) && lower_seq(trim(m[key].1@)) == "true"@
}

/// The text of the setting `key` of `m`, trimmed, when it is there and not blank.
pub open spec fn setting_text(m: Map<Seq<char>, (i64, String)>, key: Seq<char>) -> Option<Seq<char>> {
    if m.contains_key(key) && trim(m[key].1@).len() > 0 {
        Some(trim(m[key].1@))
    } else {
        None
    }
}

proof fn lemma_true_text()
    ensures
        lower_seq("true"@) == "true"@,
        "true"@.len() == 4,
{
    reveal_strlit("true");
    assert(lower_seq("true"@) =~= "true"@);
}

/// Whether the setting `key` of `settings` reads as on.
pub fn parse_setting_bool(settings: &UserSettings, key: &str) -> (b: bool)
    requires
        settings.wf(),
    ensures
        b == setting_on(settings@, key@),
{
    proof {
        lemma_true_text();
    }
    match settings.get(key) {
        Some(entry) => {
            let t = trimmed(entry.1.as_str());
            eq_ignore_ascii_case(t.as_str(), "true")
        },
        None => false,
    }
}

/// The text of the setting `key` of `settings`, trimmed, when it is there and not blank.
pub fn parse_setting_optional(settings: &UserSettings, key: &str) -> (r: Option<String>)
    requires
        settings.wf(),
    ensures
        opt_view(r) == setting_text(settings@, key@),
{
    match settings.get(key) {
        Some(entry) => {
            let t = trimmed(entry.1.as_str());
            if t.unicode_len() == 0 {
                None
            } else {
                Some(t)
            }
        },
        None => None,
    }
}

/// The text of an optional string.
pub open spec fn opt_view(o: Option<String>) -> Option<Seq<char>> {
    match o {
        Some(s) => Some(s@),
        None => None,
    }
}

/// The restrictions on an account.
pub struct UserRestrictionState {
    pub user_id: String,
    pub profile_locked: bool,
    pub username_frozen_until: Option<String>,
    pub display_name_frozen_until: Option<String>,
    pub media_quarantined: bool,
    pub profile_visibility_limited: bool,
}

/// Whether `s` is what the settings `m` of the account `user_id` say of its restrictions.
pub open spec fn decodes_to(m: Map<Seq<char>, (i64, String)>, user_id: String, s: UserRestrictionState) -> bool {
    &&& s.user_id == user_id
    &&& s.profile_locked == setting_on(m, RESTRICTION_PROFILE_LOCKED@)
    &&& opt_view(s.username_frozen_until) == setting_text(m, RESTRICTION_USERNAME_FROZEN_UNTIL@)
    &&& opt_view(s.display_name_frozen_until) == setting_text(m, RESTRICTION_DISPLAY_NAME_FROZEN_UNTIL@)
    &&& s.media_quarantined == setting_on(m, RESTRICTION_MEDIA_QUARANTINED@)
    &&& s.profile_visibility_limited == setting_on(m, RESTRICTION_PROFILE_VISIBILITY_LIMITED@)
}

/// The restrictions that the settings of the account `user_id` hold.
pub fn decode_restrictions(user_id: String, settings: &UserSettings) -> (s: UserRestrictionState)
    requires
        settings.wf(),
    ensures
        decodes_to(settings@, user_id, s),
{
    UserRestrictionState {
        user_id,
        profile_locked: parse_setting_bool(settings, RESTRICTION_PROFILE_LOCKED),
        username_frozen_until: parse_setting_optional(settings, RESTRICTION_USERNAME_FROZEN_UNTIL),
        display_name_frozen_until: parse_setting_optional(settings, RESTRICTION_DISPLAY_NAME_FROZEN_UNTIL),
        media_quarantined: parse_setting_bool(settings, RESTRICTION_MEDIA_QUARANTINED),
        profile_visibility_limited: parse_setting_bool(settings, RESTRICTION_PROFILE_VISIBILITY_LIMITED),
    }
}

/// A flag as `bool::to_string` writes it.
pub open spec fn bool_text(b: bool) -> Seq<char> {
    if b {
        "true"@
    } else {
        "false"@
    }
}

/// An optional text, the empty text when absent.
pub open spec fn text_or_empty(t: Option<String>) -> Seq<char> {
    match t {
        Some(s) => s@,
        None => Seq::empty(),
    }
}

/// Whether `m` holds exactly the restriction settings of `s`, each stamped `timestamp`.
pub open spec fn encodes_to(m: Map<Seq<char>, (i64, String)>, timestamp: i64, s: UserRestrictionState) -> bool {
    &&& m.dom() == restriction_keys().to_set()
    &&& forall|k: Seq<char>| #[trigger] m.contains_key(k) ==> m[k].0 == timestamp
    &&& m[RESTRICTION_PROFILE_LOCKED@].1@ == bool_text(s.profile_locked)
    &&& m[RESTRICTION_USERNAME_FROZEN_UNTIL@].1@ == text_or_empty(s.username_frozen_until)
    &&& m[RESTRICTION_DISPLAY_NAME_FROZEN_UNTIL@].1@ == text_or_empty(s.display_name_frozen_until)
    &&& m[RESTRICTION_MEDIA_QUARANTINED@].1@ == bool_text(s.media_quarantined)
    &&& m[RESTRICTION_PROFILE_VISIBILITY_LIMITED@].1@ == bool_text(s.profile_visibility_limited)
}

fn flag_text(b: bool) -> (s: String)
    ensures
        s@ == bool_text(b),
{
    if b {
        owned("true")
    } else {
        owned("false")
    }
}

fn copy_or_empty(t: &Option<String>) -> (s: String)
    ensures
        s@ == text_or_empty(*t),
{
    match t {
        Some(x) => x.clone(),
        None => String::new(),
    }
}

proof fn lemma_keys_distinct()
    ensures
        RESTRICTION_PROFILE_LOCKED@.len() == 32,
        RESTRICTION_USERNAME_FROZEN_UNTIL@.len() == 39,
        RESTRICTION_DISPLAY_NAME_FROZEN_UNTIL@.len() == 43,
        RESTRICTION_MEDIA_QUARANTINED@.len() == 35,
        RESTRICTION_PROFILE_VISIBILITY_LIMITED@.len() == 44,
{
    reveal_strlit("admin:restriction:profile_locked");
    reveal_strlit("admin:restriction:username_frozen_until");
    reveal_strlit("admin:restriction:display_name_frozen_until");
    reveal_strlit("admin:restriction:media_quarantined");
    reveal_strlit("admin:restriction:profile_visibility_limited");
}

/// The settings that hold the restrictions `state`, each stamped `timestamp`.
pub fn encode_restrictions(timestamp: i64, state: &UserRestrictionState) -> (m: UserSettings)
    ensures
        m.wf(),
        encodes_to(m@, timestamp, *state),
{
    proof {
        lemma_keys_distinct();
    }
    let mut m: UserSettings = StrMap::new();
    m.insert(owned(RESTRICTION_PROFILE_LOCKED), (timestamp, flag_text(state.profile_locked)));
    m.insert(owned(RESTRICTION_USERNAME_FROZEN_UNTIL), (timestamp, copy_or_empty(&state.username_frozen_until)));
    m.insert(owned(RESTRICTION_DISPLAY_NAME_FROZEN_UNTIL), (timestamp, copy_or_empty(&state.display_name_frozen_until)));
    m.insert(owned(RESTRICTION_MEDIA_QUARANTINED), (timestamp, flag_text(state.media_quarantined)));
    m.insert(owned(RESTRICTION_PROFILE_VISIBILITY_LIMITED), (timestamp, flag_text(state.profile_visibility_limited)));
    proof {
        assert(m@.dom() =~= restriction_keys().to_set());
    }
    m
}

/// Whether an optional text is kept as it is by a write and a read: absent, or
/// already trimmed and not blank.
pub open spec fn kept_text(t: Option<String>) -> bool {
    t matches Some(x) ==> trim(x@) == x@ && x@.len() > 0
}

proof fn lemma_flag_texts()
    ensures
        lower_seq(trim(bool_text(true))) == "true"@,
        lower_seq(trim(bool_text(false))) != "true"@,
{
    reveal_strlit("true");
    reveal_strlit("false");
    let t = "true"@;
    let f = "false"@;
    assert(untouched_by_trim(t));
    assert(untouched_by_trim(f));
    assert(lower_seq(t) =~= t);
    assert(lower_seq(f).len() == 5);
}

/// `s` starts and ends with a character that is not white space, so trimming keeps it.
spec fn untouched_by_trim(s: Seq<char>) -> bool {
    s.len() > 0 && !crate::text::is_ws(s[0]) && !crate::text::is_ws(s.last()) && trim(s) == s
}

/// Restrictions read back: the settings written for `s` (at any time) read as
/// `s` again, when its optional texts are absent or already trimmed and not blank.
pub proof fn law_restrictions_round_trip(m: Map<Seq<char>, (i64, String)>, timestamp: i64, s: UserRestrictionState, d: UserRestrictionState)
    requires
        encodes_to(m, timestamp, s),
        decodes_to(m, s.user_id, d),
        kept_text(s.username_frozen_until),
        kept_text(s.display_name_frozen_until),
    ensures
        d.user_id == s.user_id,
        d.profile_locked == s.profile_locked,
        opt_view(d.username_frozen_until) == opt_view(s.username_frozen_until),
        opt_view(d.display_name_frozen_until) == opt_view(s.display_name_frozen_until),
        d.media_quarantined == s.media_quarantined,
        d.profile_visibility_limited == s.profile_visibility_limited,
{
    lemma_flag_texts();
    lemma_keys_distinct();
    assert(restriction_keys().to_set().contains(RESTRICTION_PROFILE_LOCKED@));
    assert(restriction_keys()[1] == RESTRICTION_USERNAME_FROZEN_UNTIL@);
    assert(restriction_keys()[2] == RESTRICTION_DISPLAY_NAME_FROZEN_UNTIL@);
    assert(restriction_keys()[3] == RESTRICTION_MEDIA_QUARANTINED@);
    assert(restriction_keys()[4] == RESTRICTION_PROFILE_VISIBILITY_LIMITED@);
    assert(m.contains_key(RESTRICTION_USERNAME_FROZEN_UNTIL@));
    assert(m.contains_key(RESTRICTION_DISPLAY_NAME_FROZEN_UNTIL@));
    assert(m.contains_key(RESTRICTION_MEDIA_QUARANTINED@));
    assert(m.contains_key(RESTRICTION_PROFILE_VISIBILITY_LIMITED@));
    assert(trim(Seq::<char>::empty()) =~= Seq::<char>::empty());
}

/// New restrictions of an account; each one given replaces the old one.
pub struct DataSetUserRestrictions {
    pub profile_locked: Option<bool>,
    pub username_frozen_until: Option<String>,
    pub display_name_frozen_until: Option<String>,
    pub media_quarantined: Option<bool>,
    pub profile_visibility_limited: Option<bool>,
}

/// A flag that is given, else the old one.
pub open spec fn flag_or(new: Option<bool>, old: bool) -> bool {
    match new {
        Some(v) => v,
        None => old,
    }
}

/// The restrictions `current` once the given ones of `data` replace theirs.
pub open spec fn restrictions_changed(current: UserRestrictionState, data: DataSetUserRestrictions) -> UserRestrictionState {
    UserRestrictionState {
        user_id: current.user_id,
        profile_locked: flag_or(data.profile_locked, current.profile_locked),
        username_frozen_until: if data.username_frozen_until is Some { data.username_frozen_until } else { current.username_frozen_until },
        display_name_frozen_until: if data.display_name_frozen_until is Some { data.display_name_frozen_until } else { current.display_name_frozen_until },
        media_quarantined: flag_or(data.media_quarantined, current.media_quarantined),
        profile_visibility_limited: flag_or(data.profile_visibility_limited, current.profile_visibility_limited),
    }
}

/// Applies the given restrictions of `data` to `current`.
pub fn apply_restriction_changes(current: UserRestrictionState, data: DataSetUserRestrictions) -> (r: UserRestrictionState)
    ensures
        r == restrictions_changed(current, data),
        r.user_id == current.user_id,
        r.profile_locked == (match data.profile_locked { Some(v) => v, None => current.profile_locked }),
        r.username_frozen_until == (match data.username_frozen_until { Some(t) => Some(t), None => current.username_frozen_until }),
        r.display_name_frozen_until == (match data.display_name_frozen_until { Some(t) => Some(t), None => current.display_name_frozen_until }),
        r.media_quarantined == (match data.media_quarantined { Some(v) => v, None => current.media_quarantined }),
        r.profile_visibility_limited == (match data.profile_visibility_limited { Some(v) => v, None => current.profile_visibility_limited }),
{
    let mut r = current;
    if let Some(v) = data.profile_locked {
        r.profile_locked = v;
    }
    if data.username_frozen_until.is_some() {
        r.username_frozen_until = data.username_frozen_until;
    }
    if data.display_name_frozen_until.is_some() {
        r.display_name_frozen_until = data.display_name_frozen_until;
    }
    if let Some(v) = data.media_quarantined {
        r.media_quarantined = v;
    }
    if let Some(v) = data.profile_visibility_limited {
        r.profile_visibility_limited = v;
    }
    r
}

/// What setting the restrictions `data` of the account `id`, whose settings are
/// `settings`, by `user` at the time `timestamp` decides, `r` being the answer.
///
/// Needs the restriction-writing permission. The current restrictions are read
/// from the settings, the given ones replace theirs, and the answer holds the
/// resulting restrictions, the settings to store for them (each stamped
/// `timestamp`), and the note to record once they are stored, which holds the
/// three flags.
pub open spec fn restrictions_outcome(user: User, id: Seq<char>, settings: Map<Seq<char>, (i64, String)>, data: DataSetUserRestrictions, timestamp: i64, r: Result<(UserRestrictionState, UserSettings, AuditNote), ApiError>) -> bool {
    &&& !spec_has_permission(user, PERM_USERS_RESTRICTIONS_WRITE@) ==> (r matches Err(e) && e is NotPrivileged)
    &&& spec_has_permission(user, PERM_USERS_RESTRICTIONS_WRITE@) ==> (r matches Ok((state, written, note)) && {
        &&& state.user_id@ == id
        &&& exists|current: UserRestrictionState| #[trigger] decodes_to(settings, current.user_id, current) && current.user_id@ == id
            && state == restrictions_changed(current, data)
        &&& written.wf()
        &&& encodes_to(written@, timestamp, state)
        &&& note_is(note, "user.restrictions.set"@, id, map![
            "profile_locked"@ => bool_text(state.profile_locked),
            "media_quarantined"@ => bool_text(state.media_quarantined),
            "profile_visibility_limited"@ => bool_text(state.profile_visibility_limited),
        ])
    })
}

/// A restriction given in a request is the one that results, and the one
/// written: for each flag that `data` gives, the answer holds it and its
/// setting reads `true` or `false`; for each freeze that `data` gives, the
/// answer holds it and its setting holds its text.
pub proof fn law_given_restrictions_win(user: User, id: Seq<char>, settings: Map<Seq<char>, (i64, String)>, data: DataSetUserRestrictions, timestamp: i64, r: Result<(UserRestrictionState, UserSettings, AuditNote), ApiError>)
    requires
        restrictions_outcome(user, id, settings, data, timestamp, r),
        r is Ok,
    ensures
        r matches Ok((state, written, note)) && {
            &&& (data.profile_locked matches Some(v) ==> state.profile_locked == v
                && written@["admin:restriction:profile_locked"@].1@ == (if v { "true"@ } else { "false"@ }))
            &&& (data.media_quarantined matches Some(v) ==> state.media_quarantined == v
                && written@["admin:restriction:media_quarantined"@].1@ == (if v { "true"@ } else { "false"@ }))
            &&& (data.profile_visibility_limited matches Some(v) ==> state.profile_visibility_limited == v
                && written@["admin:restriction:profile_visibility_limited"@].1@ == (if v { "true"@ } else { "false"@ }))
            &&& (data.username_frozen_until matches Some(t) ==> state.username_frozen_until == Some(t)
                && written@["admin:restriction:username_frozen_until"@].1@ == t@)
            &&& (data.display_name_frozen_until matches Some(t) ==> state.display_name_frozen_until == Some(t)
                && written@["admin:restriction:display_name_frozen_until"@].1@ == t@)
        },
{
}

/// Decides the restrictions `data` of the account `id` by `user` at the time
/// `timestamp`, as `restrictions_outcome` states.
pub fn set_user_restrictions_at(user: &User, id: &str, settings: &UserSettings, data: DataSetUserRestrictions, timestamp: i64) -> (r: Result<(UserRestrictionState, UserSettings, AuditNote), ApiError>)
    requires
        settings.wf(),
    ensures
        restrictions_outcome(*user, id@, settings@, data, timestamp, r),
{
    match ensure_permission(user, PERM_USERS_RESTRICTIONS_WRITE) {
        Ok(()) => {},
        Err(e) => return Err(e),
    }
    let current = decode_restrictions(owned(id), settings);
    let ghost c = current;
    let state = apply_restriction_changes(current, data);
    let written = encode_restrictions(timestamp, &state);
    let mut metadata: StrMap<String> = StrMap::new();
    metadata.insert(owned("profile_locked"), flag_text(state.profile_locked));
    metadata.insert(owned("media_quarantined"), flag_text(state.media_quarantined));
    metadata.insert(owned("profile_visibility_limited"), flag_text(state.profile_visibility_limited));
    let note = AuditNote { action: owned("user.restrictions.set"), target: owned(id), metadata };
    proof {
        reveal_strlit("profile_locked");
        reveal_strlit("media_quarantined");
        reveal_strlit("profile_visibility_limited");
        assert(note.metadata@.dom() =~= map![
            "profile_locked"@ => Seq::<char>::empty(),
            "media_quarantined"@ => Seq::<char>::empty(),
            "profile_visibility_limited"@ => Seq::<char>::empty(),
        ].dom());
        assert(decodes_to(settings@, c.user_id, c));
    }
    Ok((state, written, note))
}

/// Decides the restrictions `data` of the account `id` by `user` at the
/// current time, as `restrictions_outcome` states for the time that was read.
pub fn set_user_restrictions(user: &User, id: &str, settings: &UserSettings, data: DataSetUserRestrictions) -> (r: Result<(UserRestrictionState, UserSettings, AuditNote), ApiError>)
    requires
        settings.wf(),
    ensures
        exists|timestamp: i64| #[trigger] restrictions_outcome(*user, id@, settings@, data, timestamp, r),
{
    let timestamp = current_unix_millis();
    set_user_restrictions_at(user, id, settings, data, timestamp)
}

/// The restrictions of the account `id`, whose settings are `settings`, as
/// `user` reads them; needs the account-reading permission.
pub fn get_user_restrictions(user: &User, id: String, settings: &UserSettings) -> (r: Result<UserRestrictionState, ApiError>)
    requires
        settings.wf(),
    ensures
        !spec_has_permission(*user, PERM_USERS_READ@) ==> (r matches Err(e) && e is NotPrivileged),
        spec_has_permission(*user, PERM_USERS_READ@) ==> (r matches Ok(s) && decodes_to(settings@, id, s)),
{
    match ensure_permission(user, PERM_USERS_READ) {
        Ok(()) => {},
        Err(e) => return Err(e),
    }
    Ok(decode_restrictions(id, settings))
}

} // verus!
