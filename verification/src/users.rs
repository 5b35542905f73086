//! Accounts as the control plane sees them.
use vstd::prelude::*;

use crate::text::{owned, str_eq};

verus! {

/// A staff role on the platform's control plane.
#[derive(Debug, Clone, Copy, PartialEq, Eq, Structural)]
pub enum PlatformAdminRole {
    PlatformOwner,
    SafetyAdmin,
    SupportAgent,
    Analyst,
}

/// Cosmetic profile decorations that staff may set on an account.
#[derive(Debug, Clone)]
pub struct UserCosmetics {
    pub nameplate: Option<String>,
    pub role_colour: Option<String>,
    pub font: Option<String>,
    pub animation: Option<String>,
}

/// The profile of an account.
#[derive(Debug, Clone)]
pub struct UserProfile {
    pub cosmetics: Option<UserCosmetics>,
}

/// An account.
#[derive(Debug, Clone)]
pub struct User {
    pub id: String,
    pub username: String,
    pub discriminator: String,
    pub display_name: Option<String>,
    /// Whether the account is a platform administrator of the old kind, who may do anything.
    pub privileged: bool,
    pub platform_admin_role: Option<PlatformAdminRole>,
    /// Permissions granted to the account one by one.
    pub platform_permissions: Option<Vec<String>>,
    pub badges: Option<i32>,
    pub flags: Option<i32>,
    pub profile: Option<UserProfile>,
    /// Whether the account is a bot.
    pub bot: bool,
}

/// The texts of a sequence of strings.
pub open spec fn views(v: Seq<String>) -> Seq<Seq<char>> {
    v.map_values(|s: String| s@)
}

/// The explicitly granted permissions of `u`, an absent list read as empty.
pub open spec fn explicit_permissions(u: User) -> Seq<Seq<char>> {
    match u.platform_permissions {
        Some(p) => views(p@),
        None => Seq::empty(),
    }
}

/// Whether `v` holds the text `p`.
pub fn holds(v: &Vec<String>, p: &str) -> (b: bool)
    ensures
        b == views(v@).contains(p@),
{
    let mut i: usize = 0;
    while i < v.len()
        invariant
            i <= v@.len(),
            forall|j: int| 0 <= j < i ==> views(v@)[j] != p@,
        decreases v@.len() - i,
    {
        if str_eq(v[i].as_str(), p) {
            proof {
                assert(views(v@)[i as int] == p@);
            }
            return true;
        }
        i = i + 1;
    }
    false
}

/// Owned copies of a list of texts.
pub fn owned_all(src: &Vec<&'static str>) -> (out: Vec<String>)
    ensures
        views(out@) == src@.map_values(|s: &str| s@),
{
    let mut out: Vec<String> = Vec::new();
    let mut i: usize = 0;
    while i < src.len()
        invariant
            i <= src@.len(),
            views(out@) == src@.map_values(|s: &str| s@).subrange(0, i as int),
        decreases src@.len() - i,
    {
        let ghost prev = out@;
        let o = owned(src[i]);
        out.push(o);
        proof {
            assert(views(out@) =~= views(prev).push(src@[i as int]@));
            assert(src@.map_values(|s: &str| s@).subrange(0, i + 1) =~= src@.map_values(|s: &str| s@).subrange(0, i as int).push(src@[i as int]@));
        }
        i = i + 1;
    }
    assert(views(out@) =~= src@.map_values(|s: &str| s@));
    out
}

} // verus!
