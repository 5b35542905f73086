//! Control-plane permissions: the catalog, the role templates, and the checks
//! that guard every staff action.
use vstd::prelude::*;

use crate::error::ApiError;
use crate::strmap::StrMap;
use crate::text::{concat, owned, starts_with, str_eq};
use crate::users::{explicit_permissions, holds, owned_all, views, PlatformAdminRole, User};

verus! {

pub const PERM_REPORTS_READ: &'static str = "reports.read";
pub const PERM_REPORTS_REVIEW: &'static str = "reports.review";
pub const PERM_REPORTS_ASSIGN: &'static str = "reports.assign";
pub const PERM_REPORTS_ESCALATE: &'static str = "reports.escalate";
pub const PERM_REPORTS_RESOLVE: &'static str = "reports.resolve";
pub const PERM_REPORTS_REJECT: &'static str = "reports.reject";
pub const PERM_REPORTS_TIMELINE_READ: &'static str = "reports.timeline.read";
pub const PERM_REPORTS_ACTIONS_WRITE: &'static str = "reports.actions.write";
pub const PERM_USERS_READ: &'static str = "users.read";
pub const PERM_USERS_FLAGS_WRITE: &'static str = "users.flags.write";
pub const PERM_USERS_COSMETICS_WRITE: &'static str = "users.cosmetics.write";
pub const PERM_USERS_RESTRICTIONS_WRITE: &'static str = "users.restrictions.write";
pub const PERM_USERS_RECOVERY_TRIGGER: &'static str = "users.recovery.trigger";
pub const PERM_STAFF_READ: &'static str = "staff.read";
pub const PERM_STAFF_ROLE_MANAGE: &'static str = "staff.role.manage";
pub const PERM_STAFF_PERMISSIONS_MANAGE: &'static str = "staff.permissions.manage";
pub const PERM_SYSTEM_FEATURES_WRITE: &'static str = "system.features.write";
pub const PERM_SYSTEM_KILL_SWITCH_WRITE: &'static str = "system.kill_switch.write";
pub const PERM_SYSTEM_EMAIL_WRITE: &'static str = "system.email.write";
pub const PERM_AUDIT_READ: &'static str = "audit.read";
pub const PERM_POLICY_READ: &'static str = "policy.read";
/// Grants every permission whose name starts with [`FEATURE_PREFIX`].
pub const FEATURE_WILDCARD: &'static str = "feature:*";
/// The prefix of per-feature grants.
pub const FEATURE_PREFIX: &'static str = "feature:";

/// Every permission the control plane knows, the feature wildcard last.
pub open spec fn catalog() -> Seq<Seq<char>> {
    seq![
        PERM_REPORTS_READ@,
        PERM_REPORTS_REVIEW@,
        PERM_REPORTS_ASSIGN@,
        PERM_REPORTS_ESCALATE@,
        PERM_REPORTS_RESOLVE@,
        PERM_REPORTS_REJECT@,
        PERM_REPORTS_TIMELINE_READ@,
        PERM_REPORTS_ACTIONS_WRITE@,
        PERM_USERS_READ@,
        PERM_USERS_FLAGS_WRITE@,
        PERM_USERS_COSMETICS_WRITE@,
        PERM_USERS_RESTRICTIONS_WRITE@,
        PERM_USERS_RECOVERY_TRIGGER@,
        PERM_STAFF_READ@,
        PERM_STAFF_ROLE_MANAGE@,
        PERM_STAFF_PERMISSIONS_MANAGE@,
        PERM_SYSTEM_FEATURES_WRITE@,
        PERM_SYSTEM_KILL_SWITCH_WRITE@,
        PERM_SYSTEM_EMAIL_WRITE@,
        PERM_AUDIT_READ@,
        PERM_POLICY_READ@,
        FEATURE_WILDCARD@,
    ]
}

/// The permissions a role carries by default.
pub open spec fn role_template(r: PlatformAdminRole) -> Seq<Seq<char>> {
    match r {
        PlatformAdminRole::PlatformOwner => catalog().drop_last(),
        PlatformAdminRole::SafetyAdmin => seq![
            PERM_REPORTS_READ@,
            PERM_REPORTS_REVIEW@,
            PERM_REPORTS_ASSIGN@,
            PERM_REPORTS_ESCALATE@,
            PERM_REPORTS_RESOLVE@,
            PERM_REPORTS_REJECT@,
            PERM_REPORTS_TIMELINE_READ@,
            PERM_REPORTS_ACTIONS_WRITE@,
            PERM_USERS_READ@,
            PERM_USERS_FLAGS_WRITE@,
            PERM_USERS_COSMETICS_WRITE@,
            PERM_USERS_RESTRICTIONS_WRITE@,
            PERM_STAFF_READ@,
            PERM_AUDIT_READ@,
            PERM_POLICY_READ@,
        ],
        PlatformAdminRole::SupportAgent => seq![
            PERM_REPORTS_READ@,
            PERM_REPORTS_REVIEW@,
            PERM_REPORTS_ASSIGN@,
            PERM_REPORTS_RESOLVE@,
            PERM_REPORTS_REJECT@,
            PERM_REPORTS_TIMELINE_READ@,
            PERM_USERS_READ@,
            PERM_USERS_FLAGS_WRITE@,
            PERM_USERS_RECOVERY_TRIGGER@,
            PERM_AUDIT_READ@,
            PERM_POLICY_READ@,
        ],
        PlatformAdminRole::Analyst => seq![
            PERM_REPORTS_READ@,
            PERM_REPORTS_TIMELINE_READ@,
            PERM_USERS_READ@,
            PERM_STAFF_READ@,
            PERM_AUDIT_READ@,
            PERM_POLICY_READ@,
        ],
    }
}

/// The name under which a role's template is listed (the role's `Debug` name).
pub open spec fn spec_role_name(r: PlatformAdminRole) -> Seq<char> {
    match r {
        PlatformAdminRole::PlatformOwner => "PlatformOwner"@,
        PlatformAdminRole::SafetyAdmin => "SafetyAdmin"@,
        PlatformAdminRole::SupportAgent => "SupportAgent"@,
        PlatformAdminRole::Analyst => "Analyst"@,
    }
}

/// Whether a permission entry may be granted: a per-feature grant or a catalog entry.
pub open spec fn known_permission(p: Seq<char>) -> bool {
    FEATURE_PREFIX@.is_prefix_of(p) || catalog().contains(p)
}

/// The permissions a user holds: their role's template together with their explicit grants.
pub open spec fn effective_permissions(u: User) -> Set<Seq<char>> {
    let template = match u.platform_admin_role {
        Some(r) => role_template(r).to_set(),
        None => Set::empty(),
    };
    template.union(explicit_permissions(u).to_set())
}

/// Whether `u` is the platform's owner: a privileged account or one with the owner role.
pub open spec fn is_platform_owner(u: User) -> bool {
    u.privileged || u.platform_admin_role == Some(PlatformAdminRole::PlatformOwner)
}

/// Whether `u` holds permission `p`.
pub open spec fn spec_has_permission(u: User, p: Seq<char>) -> bool {
    is_platform_owner(u) || effective_permissions(u).contains(p) || (FEATURE_PREFIX@.is_prefix_of(p)
        && effective_permissions(u).contains(FEATURE_WILDCARD@))
}

/// The permission catalog, in order.
pub fn permission_catalog() -> (v: Vec<&'static str>)
    ensures
        v@.map_values(|s: &str| s@) == catalog(),
{
    let v: Vec<&'static str> = vec![
        PERM_REPORTS_READ,
        PERM_REPORTS_REVIEW,
        PERM_REPORTS_ASSIGN,
        PERM_REPORTS_ESCALATE,
        PERM_REPORTS_RESOLVE,
        PERM_REPORTS_REJECT,
        PERM_REPORTS_TIMELINE_READ,
        PERM_REPORTS_ACTIONS_WRITE,
        PERM_USERS_READ,
        PERM_USERS_FLAGS_WRITE,
        PERM_USERS_COSMETICS_WRITE,
        PERM_USERS_RESTRICTIONS_WRITE,
        PERM_USERS_RECOVERY_TRIGGER,
        PERM_STAFF_READ,
        PERM_STAFF_ROLE_MANAGE,
        PERM_STAFF_PERMISSIONS_MANAGE,
        PERM_SYSTEM_FEATURES_WRITE,
        PERM_SYSTEM_KILL_SWITCH_WRITE,
        PERM_SYSTEM_EMAIL_WRITE,
        PERM_AUDIT_READ,
        PERM_POLICY_READ,
        FEATURE_WILDCARD,
    ];
    assert(v@.map_values(|s: &str| s@) =~= catalog());
    v
}

/// The default permissions of `role`.
pub fn role_template_of(role: PlatformAdminRole) -> (out: Vec<String>)
    ensures
        views(out@) == role_template(role),
{
    let v: Vec<&'static str> = match role {
        PlatformAdminRole::PlatformOwner => {
            let mut c = permission_catalog();
            c.pop();
            assert(c@.map_values(|s: &str| s@) =~= catalog().drop_last());
            c
        },
        PlatformAdminRole::SafetyAdmin => {
            let v: Vec<&'static str> = vec![
                PERM_REPORTS_READ,
                PERM_REPORTS_REVIEW,
                PERM_REPORTS_ASSIGN,
                PERM_REPORTS_ESCALATE,
                PERM_REPORTS_RESOLVE,
                PERM_REPORTS_REJECT,
                PERM_REPORTS_TIMELINE_READ,
                PERM_REPORTS_ACTIONS_WRITE,
                PERM_USERS_READ,
                PERM_USERS_FLAGS_WRITE,
                PERM_USERS_COSMETICS_WRITE,
                PERM_USERS_RESTRICTIONS_WRITE,
                PERM_STAFF_READ,
                PERM_AUDIT_READ,
                PERM_POLICY_READ,
            ];
            assert(v@.map_values(|s: &str| s@) =~= role_template(role));
            v
        },
        PlatformAdminRole::SupportAgent => {
            let v: Vec<&'static str> = vec![
                PERM_REPORTS_READ,
                PERM_REPORTS_REVIEW,
                PERM_REPORTS_ASSIGN,
                PERM_REPORTS_RESOLVE,
                PERM_REPORTS_REJECT,
                PERM_REPORTS_TIMELINE_READ,
                PERM_USERS_READ,
                PERM_USERS_FLAGS_WRITE,
                PERM_USERS_RECOVERY_TRIGGER,
                PERM_AUDIT_READ,
                PERM_POLICY_READ,
            ];
            assert(v@.map_values(|s: &str| s@) =~= role_template(role));
            v
        },
        PlatformAdminRole::Analyst => {
            let v: Vec<&'static str> = vec![
                PERM_REPORTS_READ,
                PERM_REPORTS_TIMELINE_READ,
                PERM_USERS_READ,
                PERM_STAFF_READ,
                PERM_AUDIT_READ,
                PERM_POLICY_READ,
            ];
            assert(v@.map_values(|s: &str| s@) =~= role_template(role));
            v
        },
    };
    owned_all(&v)
}

/// The name of `role` as it is listed among the templates.
pub fn role_name(role: PlatformAdminRole) -> (s: &'static str)
    ensures
        s@ == spec_role_name(role),
{
    match role {
        PlatformAdminRole::PlatformOwner => "PlatformOwner",
        PlatformAdminRole::SafetyAdmin => "SafetyAdmin",
        PlatformAdminRole::SupportAgent => "SupportAgent",
        PlatformAdminRole::Analyst => "Analyst",
    }
}

/// The role templates, keyed by role name.
pub fn role_templates() -> (m: StrMap<Vec<String>>)
    ensures
        m.wf(),
        forall|r: PlatformAdminRole| #[trigger] m.view().contains_key(spec_role_name(r)) && views(m.view()[spec_role_name(r)]@) == role_template(r),
        forall|k: Seq<char>| #[trigger] m.view().contains_key(k) ==> exists|r: PlatformAdminRole| spec_role_name(r) == k,
{
    proof {
        reveal_strlit("PlatformOwner");
        reveal_strlit("SafetyAdmin");
        reveal_strlit("SupportAgent");
        reveal_strlit("Analyst");
    }
    let mut m: StrMap<Vec<String>> = StrMap::new();
    let t1 = role_template_of(PlatformAdminRole::PlatformOwner);
    let t2 = role_template_of(PlatformAdminRole::SafetyAdmin);
    let t3 = role_template_of(PlatformAdminRole::SupportAgent);
    let t4 = role_template_of(PlatformAdminRole::Analyst);
    let ghost (g1, g2, g3, g4) = (t1, t2, t3, t4);
    m.insert(owned(role_name(PlatformAdminRole::PlatformOwner)), t1);
    m.insert(owned(role_name(PlatformAdminRole::SafetyAdmin)), t2);
    m.insert(owned(role_name(PlatformAdminRole::SupportAgent)), t3);
    m.insert(owned(role_name(PlatformAdminRole::Analyst)), t4);
    proof {
        let n1 = spec_role_name(PlatformAdminRole::PlatformOwner);
        let n2 = spec_role_name(PlatformAdminRole::SafetyAdmin);
        let n3 = spec_role_name(PlatformAdminRole::SupportAgent);
        let n4 = spec_role_name(PlatformAdminRole::Analyst);
        assert(m.view() == Map::<Seq<char>, Vec<String>>::empty().insert(n1, g1).insert(n2, g2).insert(n3, g3).insert(n4, g4));
        assert(n1.len() == 13 && n2.len() == 11 && n3.len() == 12 && n4.len() == 7);
        assert(n1 != n2 && n1 != n3 && n1 != n4 && n2 != n3 && n2 != n4 && n3 != n4);
        assert forall|r: PlatformAdminRole| #[trigger] m.view().contains_key(spec_role_name(r)) && views(m.view()[spec_role_name(r)]@) == role_template(r) by {
            match r {
                PlatformAdminRole::PlatformOwner => {},
                PlatformAdminRole::SafetyAdmin => {},
                PlatformAdminRole::SupportAgent => {},
                PlatformAdminRole::Analyst => {},
            }
        }
        assert forall|k: Seq<char>| #[trigger] m.view().contains_key(k) implies exists|r: PlatformAdminRole| spec_role_name(r) == k by {
            if k == n1 {
                assert(spec_role_name(PlatformAdminRole::PlatformOwner) == k);
            } else if k == n2 {
                assert(spec_role_name(PlatformAdminRole::SafetyAdmin) == k);
            } else if k == n3 {
                assert(spec_role_name(PlatformAdminRole::SupportAgent) == k);
            } else {
                assert(spec_role_name(PlatformAdminRole::Analyst) == k);
            }
        }
    }
    m
}

/// Whether `p` is listed in the catalog.
pub fn in_catalog(p: &str) -> (b: bool)
    ensures
        b == catalog().contains(p@),
{
    let c = permission_catalog();
    let mut i: usize = 0;
    while i < c.len()
        invariant
            c@.map_values(|s: &str| s@) == catalog(),
            i <= c@.len(),
            forall|j: int| 0 <= j < i ==> catalog()[j] != p@,
        decreases c@.len() - i,
    {
        if str_eq(c[i], p) {
            proof {
                assert(catalog()[i as int] == p@);
            }
            return true;
        }
        i = i + 1;
    }
    false
}

/// `e` is the validation error that names the first entry of `entries` that may not be granted.
pub open spec fn names_first_unknown(entries: Seq<String>, e: ApiError) -> bool {
    exists|i: int|
        0 <= i < entries.len() && !known_permission(entries[i]@) && (forall|j: int| 0 <= j < i ==> known_permission(#[trigger] entries[j]@))
            && e.is_validation("Unknown platform permission: "@ + entries[i]@)
}

/// Checks that every entry is a per-feature grant or a catalog permission.
/// The first entry that is neither is named in the error.
pub fn validate_permissions(entries: &[String]) -> (r: Result<(), ApiError>)
    ensures
        r is Ok <==> forall|i: int| 0 <= i < entries@.len() ==> known_permission(#[trigger] entries@[i]@),
        r matches Err(e) ==> names_first_unknown(entries@, e),
{
    let mut i: usize = 0;
    while i < entries.len()
        invariant
            i <= entries@.len(),
            forall|j: int| 0 <= j < i ==> known_permission(#[trigger] entries@[j]@),
        decreases entries@.len() - i,
    {
        let entry = &entries[i];
        if !starts_with(entry.as_str(), FEATURE_PREFIX) && !in_catalog(entry.as_str()) {
            let msg = concat("Unknown platform permission: ", entry.as_str());
            return Err(ApiError::FailedValidation { error: msg });
        }
        i = i + 1;
    }
    Ok(())
}

/// Adds to `out` each item of `items` that it does not hold yet.
fn add_missing(out: &mut Vec<String>, items: &Vec<String>)
    requires
        views(old(out)@).no_duplicates(),
    ensures
        views(final(out)@).no_duplicates(),
        views(final(out)@).to_set() == views(old(out)@).to_set().union(views(items@).to_set()),
{
    let ghost start = views(out@).to_set();
    let mut i: usize = 0;
    while i < items.len()
        invariant
            i <= items@.len(),
            views(out@).no_duplicates(),
            views(out@).to_set() == start.union(views(items@).subrange(0, i as int).to_set()),
        decreases items@.len() - i,
    {
        let item = &items[i];
        let ghost before = views(out@);
        if !holds(out, item.as_str()) {
            out.push(item.clone());
            proof {
                assert(views(out@) =~= before.push(item@));
                before.lemma_push_to_set_commute(item@);
            }
        }
        proof {
            let sub = views(items@).subrange(0, i as int);
            assert(views(items@).subrange(0, i + 1) =~= sub.push(item@));
            sub.lemma_push_to_set_commute(item@);
            assert(views(out@).to_set() =~= start.union(views(items@).subrange(0, i + 1).to_set()));
        }
        i = i + 1;
    }
    assert(views(items@).subrange(0, items@.len() as int) =~= views(items@));
}

/// The permissions `user` holds, each once: the role template, then the explicit grants.
pub fn effective_permission_set(user: &User) -> (out: Vec<String>)
    ensures
        views(out@).to_set() == effective_permissions(*user),
        views(out@).no_duplicates(),
{
    let mut out: Vec<String> = Vec::new();
    let template = match user.platform_admin_role {
        Some(role) => role_template_of(role),
        None => Vec::new(),
    };
    proof {
        assert(views(out@).to_set() =~= Set::<Seq<char>>::empty());
    }
    add_missing(&mut out, &template);
    match &user.platform_permissions {
        Some(p) => add_missing(&mut out, p),
        None => {},
    }
    proof {
        assert(views(out@).to_set() =~= effective_permissions(*user));
    }
    out
}

/// Whether `user` holds `permission`: the owner holds all; others hold their
/// effective set, and the feature wildcard covers every per-feature grant.
pub fn has_permission(user: &User, permission: &str) -> (b: bool)
    ensures
        b == spec_has_permission(*user, permission@),
{
    if user.privileged {
        return true;
    }
    if matches!(user.platform_admin_role, Some(PlatformAdminRole::PlatformOwner)) {
        return true;
    }
    let set = effective_permission_set(user);
    if holds(&set, permission) {
        return true;
    }
    if starts_with(permission, FEATURE_PREFIX) && holds(&set, FEATURE_WILDCARD) {
        return true;
    }
    false
}

/// `Ok` when `user` holds `permission`, else `NotPrivileged`.
pub fn ensure_permission(user: &User, permission: &str) -> (r: Result<(), ApiError>)
    ensures
        r is Ok <==> spec_has_permission(*user, permission@),
        r matches Err(e) ==> e is NotPrivileged,
{
    if has_permission(user, permission) {
        Ok(())
    } else {
        Err(ApiError::NotPrivileged)
    }
}

/// `Ok` when `user` is the platform's owner, else `NotPrivileged`.
pub fn ensure_platform_owner(user: &User) -> (r: Result<(), ApiError>)
    ensures
        r is Ok <==> is_platform_owner(*user),
        r matches Err(e) ==> e is NotPrivileged,
{
    if user.privileged || matches!(user.platform_admin_role, Some(PlatformAdminRole::PlatformOwner)) {
        Ok(())
    } else {
        Err(ApiError::NotPrivileged)
    }
}

/// The owner may delegate `permissions` when each of them may be granted.
/// A caller who is not the owner is refused before the list is looked at.
pub fn ensure_owner_delegation(user: &User, permissions: &[String]) -> (r: Result<(), ApiError>)
    ensures
        r is Ok <==> is_platform_owner(*user) && forall|i: int| 0 <= i < permissions@.len() ==> known_permission(#[trigger] permissions@[i]@),
        !is_platform_owner(*user) ==> (r matches Err(e) && e is NotPrivileged),
        is_platform_owner(*user) ==> (r matches Err(e) ==> names_first_unknown(permissions@, e)),
{
    ensure_platform_owner(user)?;
    validate_permissions(permissions)?;
    Ok(())
}

/// The platform's owner holds every permission.
pub proof fn law_owner_holds_every_permission(u: User, p: Seq<char>)
    requires
        is_platform_owner(u),
    ensures
        spec_has_permission(u, p),
{
}

/// Every permission that a role template grants is known, so a template passes
/// the check that delegated grants must pass.
pub proof fn law_templates_are_known(r: PlatformAdminRole, i: int)
    requires
        0 <= i < role_template(r).len(),
    ensures
        known_permission(role_template(r)[i]),
{
    let c = catalog();
    let t = role_template(r);
    match r {
        PlatformAdminRole::PlatformOwner => {
            assert(c[i] == t[i]);
        },
        PlatformAdminRole::SafetyAdmin => {
            if i == 0 {
                assert(c[0] == t[i]);
            } else if i == 1 {
                assert(c[1] == t[i]);
            } else if i == 2 {
                assert(c[2] == t[i]);
            } else if i == 3 {
                assert(c[3] == t[i]);
            } else if i == 4 {
                assert(c[4] == t[i]);
            } else if i == 5 {
                assert(c[5] == t[i]);
            } else if i == 6 {
                assert(c[6] == t[i]);
            } else if i == 7 {
                assert(c[7] == t[i]);
            } else if i == 8 {
                assert(c[8] == t[i]);
            } else if i == 9 {
                assert(c[9] == t[i]);
            } else if i == 10 {
                assert(c[10] == t[i]);
            } else if i == 11 {
                assert(c[11] == t[i]);
            } else if i == 12 {
                assert(c[13] == t[i]);
            } else if i == 13 {
                assert(c[19] == t[i]);
            } else if i == 14 {
                assert(c[20] == t[i]);
            }
        },
        PlatformAdminRole::SupportAgent => {
            if i == 0 {
                assert(c[0] == t[i]);
            } else if i == 1 {
                assert(c[1] == t[i]);
            } else if i == 2 {
                assert(c[2] == t[i]);
            } else if i == 3 {
                assert(c[4] == t[i]);
            } else if i == 4 {
                assert(c[5] == t[i]);
            } else if i == 5 {
                assert(c[6] == t[i]);
            } else if i == 6 {
                assert(c[8] == t[i]);
            } else if i == 7 {
                assert(c[9] == t[i]);
            } else if i == 8 {
                assert(c[12] == t[i]);
            } else if i == 9 {
                assert(c[19] == t[i]);
            } else if i == 10 {
                assert(c[20] == t[i]);
            }
        },
        PlatformAdminRole::Analyst => {
            if i == 0 {
                assert(c[0] == t[i]);
            } else if i == 1 {
                assert(c[6] == t[i]);
            } else if i == 2 {
                assert(c[8] == t[i]);
            } else if i == 3 {
                assert(c[13] == t[i]);
            } else if i == 4 {
                assert(c[19] == t[i]);
            } else if i == 5 {
                assert(c[20] == t[i]);
            }
        },
    }
}

} // verus!
