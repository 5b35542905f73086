//! Staff tooling on accounts: finding users and staff, inspecting them, and
//! deciding the changes to their flags, cosmetics and staff roles.
use vstd::prelude::*;

use crate::audit::{note_is, AuditNote};
use crate::error::ApiError;
use crate::permissions::{
    ensure_owner_delegation, ensure_permission, is_platform_owner, known_permission, names_first_unknown,
    spec_has_permission, spec_role_name, role_name, PERM_STAFF_READ, PERM_USERS_COSMETICS_WRITE,
    PERM_USERS_FLAGS_WRITE, PERM_USERS_READ,
};
use crate::queue::clamp_limit;
use crate::reports::copy_opt;
use crate::strmap::StrMap;
use crate::text::{concat, contains_lowered, decimal, decimal_text, has_infix, lower_seq, lowered_chars, owned, trim, trimmed};
use crate::users::{PlatformAdminRole, User, UserCosmetics, UserProfile};

verus! {

/// Whether `u` matches the search text `query`: no query, or one that is blank
/// once trimmed, matches everyone; otherwise the id, the username or the
/// display name holds it, ignoring ASCII case.
pub open spec fn spec_user_matches(u: User, query: Option<Seq<char>>) -> bool {
    match query {
        None => true,
        Some(raw) => {
            let needle = lower_seq(trim(raw));
            ||| needle.len() == 0
            ||| has_infix(lower_seq(u.id@), needle)
            ||| has_infix(lower_seq(u.username@), needle)
            ||| (u.display_name matches Some(d) && has_infix(lower_seq(d@), needle))
        },
    }
}

/// Whether `user` matches the search text `query`.
pub fn user_matches_query(user: &User, query: Option<&str>) -> (b: bool)
    ensures
        b == spec_user_matches(*user, match query { Some(q) => Some(q@), None => None }),
{
    let raw = match query {
        None => return true,
        Some(raw) => raw,
    };
    let t = trimmed(raw);
    let needle = lowered_chars(t.as_str());
    if needle.len() == 0 {
        return true;
    }
    if contains_lowered(user.id.as_str(), &needle) || contains_lowered(user.username.as_str(), &needle) {
        return true;
    }
    match &user.display_name {
        Some(d) => contains_lowered(d.as_str(), &needle),
        None => false,
    }
}

/// The badge of platform administrators.
pub const BADGE_COMMS_ADMIN: i32 = 2048;
/// The badge of platform staff.
pub const BADGE_COMMS_STAFF: i32 = 4096;

/// Whether `u` counts as staff: privileged, holding a staff role, or wearing
/// the administrator or staff badge.
pub open spec fn spec_user_is_staff(u: User) -> bool {
    let badges = match u.badges {
        Some(b) => b,
        None => 0,
    };
    ||| u.privileged
    ||| u.platform_admin_role is Some
    ||| (badges & BADGE_COMMS_ADMIN) != 0
    ||| (badges & BADGE_COMMS_STAFF) != 0
}

/// Whether `user` counts as staff.
pub fn user_is_staff(user: &User) -> (b: bool)
    ensures
        b == spec_user_is_staff(*user),
{
    let badges = match user.badges {
        Some(b) => b,
        None => 0,
    };
    user.privileged || user.platform_admin_role.is_some() || (badges & BADGE_COMMS_ADMIN) != 0 || (badges
        & BADGE_COMMS_STAFF) != 0
}

/// What staff see of an account.
pub struct UserInspectResponse {
    pub id: String,
    pub username: String,
    pub discriminator: String,
    pub display_name: Option<String>,
    pub privileged: bool,
    pub platform_admin_role: Option<PlatformAdminRole>,
    pub platform_permissions: Vec<String>,
    pub badges: u32,
    pub flags: u32,
}

/// The account flags as staff see them: absent flags read as 0, the bits kept as they are.
pub open spec fn flags_seen(flags: Option<i32>) -> u32 {
    match flags {
        Some(f) => f as u32,
        None => 0,
    }
}

/// What staff see of `user`, whose badges are `badges`.
pub fn map_user_inspect(user: User, badges: u32) -> (r: UserInspectResponse)
    ensures
        r.id == user.id,
        r.username == user.username,
        r.discriminator == user.discriminator,
        r.display_name == user.display_name,
        r.privileged == user.privileged,
        r.platform_admin_role == user.platform_admin_role,
        r.platform_permissions@ == (match user.platform_permissions {
            Some(p) => p@,
            None => Seq::empty(),
        }),
        r.badges == badges,
        r.flags == flags_seen(user.flags),
{
    let flags: u32 = match user.flags {
        Some(f) => f as u32,
        None => 0,
    };
    let platform_permissions = match user.platform_permissions {
        Some(p) => p,
        None => Vec::new(),
    };
    UserInspectResponse {
        id: user.id,
        username: user.username,
        discriminator: user.discriminator,
        display_name: user.display_name,
        privileged: user.privileged,
        platform_admin_role: user.platform_admin_role,
        platform_permissions,
        badges,
        flags,
    }
}

/// A search of the accounts.
pub struct UsersListQuery {
    pub q: Option<String>,
    pub limit: Option<usize>,
}

/// A search of the staff, by a comma-separated list of ids or among the recent accounts.
pub struct StaffListQuery {
    pub ids: Option<String>,
    pub q: Option<String>,
    pub limit: Option<usize>,
}

/// The text of an optional query string.
pub open spec fn query_text(q: Option<String>) -> Option<Seq<char>> {
    match q {
        Some(s) => Some(s@),
        None => None,
    }
}

/// The page size of a search: the requested limit, 150 when none is given, kept within 1 to 500.
pub open spec fn search_limit(limit: Option<usize>) -> int {
    let l = match limit {
        Some(l) => l as int,
        None => 150,
    };
    if l < 1 {
        1
    } else if l > 500 {
        500
    } else {
        l
    }
}

/// Whether `u` is listed by a search for `query`, among staff only when `staff_only`.
pub open spec fn listed(u: User, query: Option<Seq<char>>, staff_only: bool) -> bool {
    (!staff_only || spec_user_is_staff(u)) && spec_user_matches(u, query)
}

/// The first `limit` of `s`, or all of it when it is shorter.
pub open spec fn first_n<A>(s: Seq<A>, limit: int) -> Seq<A> {
    if s.len() > limit {
        s.take(limit)
    } else {
        s
    }
}

/// The accounts of `users` that a search for `query` lists, in order, at most `limit` of them.
pub fn select_users(users: Vec<User>, query: &Option<String>, staff_only: bool, limit: usize) -> (out: Vec<User>)
    ensures
        out@ == first_n(users@.filter(|u: User| listed(u, query_text(*query), staff_only)), limit as int),
{
    let ghost all = users@;
    let ghost p = |u: User| listed(u, query_text(*query), staff_only);
    let mut rest = users;
    let mut out: Vec<User> = Vec::new();
    let n = rest.len();
    let mut i: usize = 0;
    while i < n && out.len() < limit
        invariant
            n == all.len(),
            i <= n,
            rest@ == all.skip(i as int),
            out@ == all.take(i as int).filter(p),
            out@.len() <= limit,
            p == (|u: User| listed(u, query_text(*query), staff_only)),
        decreases n - i,
    {
        let u = rest.remove(0);
        proof {
            assert(all.take(i + 1).drop_last() =~= all.take(i as int));
            assert(all.take(i + 1).last() == u);
            reveal(Seq::filter);
        }
        let q = match query {
            Some(s) => Some(s.as_str()),
            None => None,
        };
        let keep = (!staff_only || user_is_staff(&u)) && user_matches_query(&u, q);
        if keep {
            out.push(u);
        }
        proof {
            assert(rest@ =~= all.skip(i + 1));
        }
        i = i + 1;
    }
    proof {
        let kept = all.filter(p);
        if i == n {
            assert(all.take(n as int) =~= all);
        } else {
            assert(out@.len() == limit);
            crate::audit::lemma_filter_prefix(all, p, i as int);
            assert(kept.take(limit as int) =~= out@);
        }
    }
    out
}

/// How many recent accounts a search of the accounts reads: three times the page size, at most 500.
pub fn users_fetch_count(query: &UsersListQuery) -> (n: usize)
    ensures
        n == (if 3 * search_limit(query.limit) < 500 { 3 * search_limit(query.limit) } else { 500 }),
{
    let limit = clamp_limit(query.limit, 150, 1, 500);
    if limit * 3 < 500 {
        limit * 3
    } else {
        500
    }
}

/// The accounts that a search by `user` lists among `recent`, the recent accounts.
///
/// Needs the account-reading permission.
pub fn list_users(user: &User, query: &UsersListQuery, recent: Vec<User>) -> (r: Result<Vec<User>, ApiError>)
    ensures
        !spec_has_permission(*user, PERM_USERS_READ@) ==> (r matches Err(e) && e is NotPrivileged),
        spec_has_permission(*user, PERM_USERS_READ@) ==> (r matches Ok(v)
            && v@ == first_n(recent@.filter(|u: User| listed(u, query_text(query.q), false)), search_limit(query.limit))),
{
    match ensure_permission(user, PERM_USERS_READ) {
        Ok(()) => {},
        Err(e) => return Err(e),
    }
    let limit = clamp_limit(query.limit, 150, 1, 500);
    Ok(select_users(recent, &query.q, false, limit))
}

/// The ids a search of the staff asks for: the comma-separated list, each
/// trimmed, the blank ones dropped.
pub fn staff_query_ids(query: &StaffListQuery) -> (ids: Vec<String>)
    ensures
        crate::users::views(ids@) == crate::rollout::csv_items(match query.ids {
            Some(s) => s@,
            None => Seq::empty(),
        }),
{
    match &query.ids {
        Some(s) => crate::rollout::parse_csv(s.as_str()),
        None => {
            let out = crate::rollout::parse_csv("");
            proof {
                reveal_strlit("");
            }
            out
        },
    }
}

/// How many recent accounts a search of the staff without ids reads: four
/// times the page size, at most 500.
pub fn staff_fetch_count(query: &StaffListQuery) -> (n: usize)
    ensures
        n == (if 4 * search_limit(query.limit) < 500 { 4 * search_limit(query.limit) } else { 500 }),
{
    let limit = clamp_limit(query.limit, 150, 1, 500);
    if limit * 4 < 500 {
        limit * 4
    } else {
        500
    }
}

/// The staff that a search by `user` lists among `fetched`, the accounts read
/// for it (those named by the ids, or the recent ones).
///
/// Needs the staff-reading permission.
pub fn list_staff(user: &User, query: &StaffListQuery, fetched: Vec<User>) -> (r: Result<Vec<User>, ApiError>)
    ensures
        !spec_has_permission(*user, PERM_STAFF_READ@) ==> (r matches Err(e) && e is NotPrivileged),
        spec_has_permission(*user, PERM_STAFF_READ@) ==> (r matches Ok(v)
            && v@ == first_n(fetched@.filter(|u: User| listed(u, query_text(query.q), true)), search_limit(query.limit))),
{
    match ensure_permission(user, PERM_STAFF_READ) {
        Ok(()) => {},
        Err(e) => return Err(e),
    }
    let limit = clamp_limit(query.limit, 150, 1, 500);
    Ok(select_users(fetched, &query.q, true, limit))
}

/// What `user` sees of the account `target`, whose badges are `badges`; needs
/// the account-reading permission.
pub fn inspect_user(user: &User, target: User, badges: u32) -> (r: Result<UserInspectResponse, ApiError>)
    ensures
        !spec_has_permission(*user, PERM_USERS_READ@) ==> (r matches Err(e) && e is NotPrivileged),
        spec_has_permission(*user, PERM_USERS_READ@) ==> (r matches Ok(v) && v.id == target.id && v.flags == flags_seen(target.flags)
            && v.badges == badges && v.platform_admin_role == target.platform_admin_role),
{
    match ensure_permission(user, PERM_USERS_READ) {
        Ok(()) => {},
        Err(e) => return Err(e),
    }
    Ok(map_user_inspect(target, badges))
}

/// New moderation flags of an account.
pub struct DataSetUserFlags {
    pub flags: u32,
}

/// Sets the moderation flags of the account `target` (stored under `id`) to
/// `data.flags`, as `user`; the answer is the changed account and the note to
/// record once it is stored.
///
/// Needs the flag-writing permission. The flags are kept as the same bits in a
/// signed field.
pub fn set_user_flags(user: &User, id: &str, target: User, data: DataSetUserFlags) -> (r: Result<(User, AuditNote), ApiError>)
    ensures
        !spec_has_permission(*user, PERM_USERS_FLAGS_WRITE@) ==> (r matches Err(e) && e is NotPrivileged),
        spec_has_permission(*user, PERM_USERS_FLAGS_WRITE@) ==> (r matches Ok((changed, note)) && {
            &&& changed == (User { flags: Some(data.flags as i32), ..target })
            &&& note_is(note, "user.flags.set"@, id@, map!["flags"@ => decimal_text(data.flags as nat)])
        }),
{
    match ensure_permission(user, PERM_USERS_FLAGS_WRITE) {
        Ok(()) => {},
        Err(e) => return Err(e),
    }
    let mut changed = target;
    changed.flags = Some(data.flags as i32);
    let mut metadata: StrMap<String> = StrMap::new();
    metadata.insert(owned("flags"), decimal(data.flags as u64));
    let note = AuditNote { action: owned("user.flags.set"), target: owned(id), metadata };
    proof {
        assert(note.metadata@.dom() =~= map!["flags"@ => decimal_text(data.flags as nat)].dom());
    }
    Ok((changed, note))
}

/// New cosmetics of an account; each one given replaces the old one.
pub struct DataSetUserCosmetics {
    pub nameplate: Option<String>,
    pub role_colour: Option<String>,
    pub font: Option<String>,
    pub animation: Option<String>,
}

/// `new` when it is given, else `old`.
pub open spec fn given_or<T>(new: Option<T>, old: Option<T>) -> Option<T> {
    if new is Some {
        new
    } else {
        old
    }
}

/// The cosmetics of the profile `profile`, none when it has none.
pub open spec fn cosmetics_of(profile: Option<UserProfile>) -> UserCosmetics {
    match profile {
        Some(p) => match p.cosmetics {
            Some(c) => c,
            None => UserCosmetics { nameplate: None, role_colour: None, font: None, animation: None },
        },
        None => UserCosmetics { nameplate: None, role_colour: None, font: None, animation: None },
    }
}

/// The cosmetics once `data` is applied to those of `profile`.
pub open spec fn merged_cosmetics(profile: Option<UserProfile>, data: DataSetUserCosmetics) -> UserCosmetics {
    let c = cosmetics_of(profile);
    UserCosmetics {
        nameplate: given_or(data.nameplate, c.nameplate),
        role_colour: given_or(data.role_colour, c.role_colour),
        font: given_or(data.font, c.font),
        animation: given_or(data.animation, c.animation),
    }
}

/// An optional text as the audit log records it, `none` when absent.
pub open spec fn text_or_none(t: Option<String>) -> Seq<char> {
    match t {
        Some(s) => s@,
        None => "none"@,
    }
}

fn copy_cosmetics(c: &UserCosmetics) -> (r: UserCosmetics)
    ensures
        r == *c,
{
    UserCosmetics {
        nameplate: copy_opt(&c.nameplate),
        role_colour: copy_opt(&c.role_colour),
        font: copy_opt(&c.font),
        animation: copy_opt(&c.animation),
    }
}

fn copy_or_none(t: &Option<String>) -> (s: String)
    ensures
        s@ == text_or_none(*t),
{
    match t {
        Some(x) => x.clone(),
        None => owned("none"),
    }
}

/// Applies the cosmetics `data` to the account `target` (stored under `id`), as
/// `user`; the answer is the changed account and the note to record once it is
/// stored.
///
/// Needs the cosmetics-writing permission. The note holds the nameplate and
/// role colour that result, or `none`.
pub fn set_user_cosmetics(user: &User, id: &str, target: User, data: DataSetUserCosmetics) -> (r: Result<(User, AuditNote), ApiError>)
    ensures
        !spec_has_permission(*user, PERM_USERS_COSMETICS_WRITE@) ==> (r matches Err(e) && e is NotPrivileged),
        spec_has_permission(*user, PERM_USERS_COSMETICS_WRITE@) ==> (r matches Ok((changed, note)) && {
            let c = merged_cosmetics(target.profile, data);
            &&& changed == (User { profile: Some(UserProfile { cosmetics: Some(c) }), ..target })
            &&& note_is(note, "user.cosmetics.set"@, id@, map![
                "nameplate"@ => text_or_none(c.nameplate),
                "role_colour"@ => text_or_none(c.role_colour),
            ])
        }),
{
    match ensure_permission(user, PERM_USERS_COSMETICS_WRITE) {
        Ok(()) => {},
        Err(e) => return Err(e),
    }
    let mut changed = target;
    let old = match &changed.profile {
        Some(p) => match &p.cosmetics {
            Some(c) => copy_cosmetics(c),
            None => UserCosmetics { nameplate: None, role_colour: None, font: None, animation: None },
        },
        None => UserCosmetics { nameplate: None, role_colour: None, font: None, animation: None },
    };
    let mut cosmetics = old;
    if data.nameplate.is_some() {
        cosmetics.nameplate = data.nameplate;
    }
    if data.role_colour.is_some() {
        cosmetics.role_colour = data.role_colour;
    }
    if data.font.is_some() {
        cosmetics.font = data.font;
    }
    if data.animation.is_some() {
        cosmetics.animation = data.animation;
    }
    let mut metadata: StrMap<String> = StrMap::new();
    metadata.insert(owned("nameplate"), copy_or_none(&cosmetics.nameplate));
    metadata.insert(owned("role_colour"), copy_or_none(&cosmetics.role_colour));
    changed.profile = Some(UserProfile { cosmetics: Some(cosmetics) });
    let note = AuditNote { action: owned("user.cosmetics.set"), target: owned(id), metadata };
    proof {
        reveal_strlit("nameplate");
        reveal_strlit("role_colour");
        assert(note.metadata@.dom() =~= map![
            "nameplate"@ => Seq::<char>::empty(),
            "role_colour"@ => Seq::<char>::empty(),
        ].dom());
    }
    Ok((changed, note))
}

/// A staff role and permission grants to assign to an account; what is absent
/// stays as it is.
pub struct DataAssignStaff {
    pub platform_admin_role: Option<PlatformAdminRole>,
    pub platform_permissions: Option<Vec<String>>,
}

/// The permissions that an assignment grants, none when it leaves them as they are.
pub open spec fn requested_permissions(data: DataAssignStaff) -> Seq<String> {
    match data.platform_permissions {
        Some(p) => p@,
        None => Seq::empty(),
    }
}

/// The texts joined with commas between them.
pub open spec fn join_commas(s: Seq<Seq<char>>) -> Seq<char>
    decreases s.len(),
{
    if s.len() == 0 {
        Seq::empty()
    } else if s.len() == 1 {
        s[0]
    } else {
        join_commas(s.drop_last()).push(',') + s.last()
    }
}

/// The texts of `v` joined with commas between them.
pub fn joined(v: &Vec<String>) -> (s: String)
    ensures
        s@ == join_commas(crate::users::views(v@)),
{
    let mut out = String::new();
    let mut i: usize = 0;
    proof {
        reveal_strlit(",");
    }
    while i < v.len()
        invariant
            i <= v@.len(),
            out@ == join_commas(crate::users::views(v@.take(i as int))),
            ","@ == seq![','],
        decreases v@.len() - i,
    {
        let ghost before = crate::users::views(v@.take(i as int));
        let ghost after = crate::users::views(v@.take(i + 1));
        proof {
            assert(after.drop_last() =~= before);
            assert(after.last() == v@[i as int]@);
        }
        if i == 0 {
            out = v[0].clone();
            proof {
                assert(after =~= seq![v@[0]@]);
            }
        } else {
            let with_comma = concat(out.as_str(), ",");
            out = concat(with_comma.as_str(), v[i].as_str());
        }
        i = i + 1;
    }
    proof {
        assert(v@.take(v@.len() as int) =~= v@);
    }
    out
}

/// A staff role as the audit log records it, `None` when absent.
pub open spec fn role_text(r: Option<PlatformAdminRole>) -> Seq<char> {
    match r {
        Some(r) => spec_role_name(r),
        None => "None"@,
    }
}

/// Permission grants as the audit log records them, `None` when absent.
pub open spec fn grants_text(p: Option<Vec<String>>) -> Seq<char> {
    match p {
        Some(v) => join_commas(crate::users::views(v@)),
        None => "None"@,
    }
}

/// Assigns the staff role and grants `data` to the account `target` (stored
/// under `id`), as `user`; the answer is the changed account and the note to
/// record once it is stored.
///
/// Only a platform owner may delegate, and only permissions that are known
/// (the first unknown one is named in the error); only an owner may make
/// another owner. What is absent from `data` stays as it is. The note holds the
/// resulting role and grants, or `None`.
pub fn assign_staff(user: &User, id: &str, target: User, data: DataAssignStaff) -> (r: Result<(User, AuditNote), ApiError>)
    ensures
        !is_platform_owner(*user) ==> (r matches Err(e) && e is NotPrivileged),
        is_platform_owner(*user) && !(forall|i: int| 0 <= i < requested_permissions(data).len() ==> known_permission(#[trigger] requested_permissions(data)[i]@))
            ==> (r matches Err(e) && names_first_unknown(requested_permissions(data), e)),
        is_platform_owner(*user) && (forall|i: int| 0 <= i < requested_permissions(data).len() ==> known_permission(#[trigger] requested_permissions(data)[i]@))
            ==> (r matches Ok((changed, note)) && {
            &&& changed == (User {
                platform_admin_role: given_or(data.platform_admin_role, target.platform_admin_role),
                platform_permissions: given_or(data.platform_permissions, target.platform_permissions),
                ..target
            })
            &&& note_is(note, "staff.assign"@, id@, map![
                "role"@ => role_text(changed.platform_admin_role),
                "permissions"@ => grants_text(changed.platform_permissions),
            ])
        }),
{
    let none: Vec<String> = Vec::new();
    let requested = match &data.platform_permissions {
        Some(p) => p.as_slice(),
        None => none.as_slice(),
    };
    assert(requested@ =~= requested_permissions(data));
    match ensure_owner_delegation(user, requested) {
        Ok(()) => {},
        Err(e) => return Err(e),
    }
    let makes_owner = match data.platform_admin_role {
        Some(PlatformAdminRole::PlatformOwner) => true,
        _ => false,
    };
    let is_owner = match user.platform_admin_role {
        Some(PlatformAdminRole::PlatformOwner) => true,
        _ => false,
    };
    if makes_owner && !is_owner && !user.privileged {
        return Err(ApiError::NotPrivileged);
    }
    match &data.platform_permissions {
        Some(p) => match crate::permissions::validate_permissions(p.as_slice()) {
            Ok(()) => {},
            Err(e) => return Err(e),
        },
        None => {},
    }
    let mut changed = target;
    if data.platform_admin_role.is_some() {
        changed.platform_admin_role = data.platform_admin_role;
    }
    if data.platform_permissions.is_some() {
        changed.platform_permissions = data.platform_permissions;
    }
    let role = match changed.platform_admin_role {
        Some(r) => owned(role_name(r)),
        None => owned("None"),
    };
    let grants = match &changed.platform_permissions {
        Some(v) => joined(v),
        None => owned("None"),
    };
    let mut metadata: StrMap<String> = StrMap::new();
    metadata.insert(owned("role"), role);
    metadata.insert(owned("permissions"), grants);
    let note = AuditNote { action: owned("staff.assign"), target: owned(id), metadata };
    proof {
        reveal_strlit("role");
        reveal_strlit("permissions");
        assert(note.metadata@.dom() =~= map![
            "role"@ => Seq::<char>::empty(),
            "permissions"@ => Seq::<char>::empty(),
        ].dom());
    }
    Ok((changed, note))
}

/// A page of accounts as staff see them.
pub struct UsersListResponse {
    pub users: Vec<UserInspectResponse>,
}

/// A page of staff accounts as staff see them.
pub struct StaffListResponse {
    pub users: Vec<UserInspectResponse>,
}

/// What staff see of each of `users`, whose badges are `badges`, in order.
pub fn inspect_all(users: Vec<User>, badges: Vec<u32>) -> (out: Vec<UserInspectResponse>)
    requires
        users@.len() == badges@.len(),
    ensures
        out@.len() == users@.len(),
        forall|i: int| 0 <= i < out@.len() ==> (#[trigger] out@[i]).id == users@[i].id && out@[i].badges == badges@[i]
            && out@[i].flags == flags_seen(users@[i].flags),
{
    let ghost all = users@;
    let mut rest = users;
    let mut out: Vec<UserInspectResponse> = Vec::new();
    let n = rest.len();
    let mut i: usize = 0;
    while i < n
        invariant
            n == all.len(),
            n == badges@.len(),
            i <= n,
            rest@ == all.skip(i as int),
            out@.len() == i,
            forall|j: int| 0 <= j < i ==> (#[trigger] out@[j]).id == all[j].id && out@[j].badges == badges@[j]
                && out@[j].flags == flags_seen(all[j].flags),
        decreases n - i,
    {
        let u = rest.remove(0);
        proof {
            assert(all.skip(i as int)[0] == u);
        }
        out.push(map_user_inspect(u, badges[i]));
        proof {
            assert(rest@ =~= all.skip(i + 1));
        }
        i = i + 1;
    }
    out
}

/// The permission catalog and the role templates, as staff see them.
pub struct StaffPermissionsCatalogResponse {
    pub catalog: Vec<String>,
    pub role_templates: StrMap<Vec<String>>,
}

/// The permission catalog and the role templates, as `user` reads them; needs
/// the staff-reading permission.
pub fn staff_permissions_catalog(user: &User) -> (r: Result<StaffPermissionsCatalogResponse, ApiError>)
    ensures
        !spec_has_permission(*user, PERM_STAFF_READ@) ==> (r matches Err(e) && e is NotPrivileged),
        spec_has_permission(*user, PERM_STAFF_READ@) ==> (r matches Ok(v) && {
            &&& crate::users::views(v.catalog@) == crate::permissions::catalog()
            &&& v.role_templates.wf()
            &&& forall|role: PlatformAdminRole| #[trigger] v.role_templates@.contains_key(spec_role_name(role))
                && crate::users::views(v.role_templates@[spec_role_name(role)]@) == crate::permissions::role_template(role)
            &&& forall|k: Seq<char>| #[trigger] v.role_templates@.contains_key(k) ==> exists|role: PlatformAdminRole| spec_role_name(role) == k
        }),
{
    match ensure_permission(user, PERM_STAFF_READ) {
        Ok(()) => {},
        Err(e) => return Err(e),
    }
    let names = crate::permissions::permission_catalog();
    let catalog = crate::users::owned_all(&names);
    Ok(StaffPermissionsCatalogResponse { catalog, role_templates: crate::permissions::role_templates() })
}

} // verus!
