//! The control plane's system settings and audit reads: the feature switches,
//! the emergency kill switch, the support e-mail settings, and the views and
//! export of the audit log.
use vstd::prelude::*;

use std::collections::hash_map::DefaultHasher;
use std::hash::{Hash, Hasher};

use crate::audit::{
    entry_selected, same_entry, lemma_same_entries_filter, lemma_same_entries_take, logged, same_entries, AuditEntry, AuditLog,
    EntryFilter, select_entries,
};
use crate::accounts::first_n;
use crate::error::ApiError;
use crate::permissions::{
    ensure_permission, spec_has_permission, PERM_AUDIT_READ, PERM_POLICY_READ, PERM_SYSTEM_EMAIL_WRITE,
    PERM_SYSTEM_FEATURES_WRITE, PERM_SYSTEM_KILL_SWITCH_WRITE,
};
use crate::queue::clamp_limit;
use crate::reports::copy_opt;
use crate::restrictions::bool_text;
use crate::rollout::RolloutState;
use crate::strmap::StrMap;
use crate::text::{hex_digits, hex_text, owned};
use vstd::std_specs::hash::DefaultHasherAdditionalSpecFns;
use crate::users::{views, User};

verus! {

/// The feature switches as staff see them.
pub struct SystemFeaturesResponse {
    pub emergency_kill_switch: bool,
    pub global: StrMap<bool>,
}

/// Whether `r` shows the switches of `state`.
pub open spec fn shows_features(r: SystemFeaturesResponse, state: RolloutState) -> bool {
    &&& r.emergency_kill_switch == state.spec_kill_switch()
    &&& r.global.wf()
    &&& r.global@ == state.spec_global_features()
}

fn features_of(state: &RolloutState) -> (r: SystemFeaturesResponse)
    ensures
        shows_features(r, *state),
{
    SystemFeaturesResponse { emergency_kill_switch: state.emergency_kill_switch(), global: state.global_features() }
}

/// The feature switches, as `user` reads them; needs the policy-reading permission.
pub fn get_system_features(user: &User, state: &RolloutState) -> (r: Result<SystemFeaturesResponse, ApiError>)
    ensures
        !spec_has_permission(*user, PERM_POLICY_READ@) ==> (r matches Err(e) && e is NotPrivileged),
        spec_has_permission(*user, PERM_POLICY_READ@) ==> (r matches Ok(v) && shows_features(v, *state)),
{
    match ensure_permission(user, PERM_POLICY_READ) {
        Ok(()) => {},
        Err(e) => return Err(e),
    }
    Ok(features_of(state))
}

/// A global switch for one feature.
pub struct DataSetFeature {
    pub feature: String,
    pub enabled: bool,
}

/// The emergency kill switch's new position.
pub struct DataSetKillSwitch {
    pub enabled: bool,
}

/// Whether `after` is `before` with only its overrides changed, to `overrides`.
pub open spec fn switches_set(before: RolloutState, after: RolloutState, overrides: Map<Seq<char>, bool>, kill_switch: bool) -> bool {
    &&& after.spec_overrides() == overrides
    &&& after.spec_kill_switch() == kill_switch
    &&& after.spec_global_disable() == before.spec_global_disable()
    &&& after.spec_promote_user_ids() == before.spec_promote_user_ids()
    &&& after.spec_promote_keys() == before.spec_promote_keys()
}

/// Switches `data.feature` on or off for everyone, as `user`, and records it.
///
/// Needs the feature-writing permission; a refusal changes nothing. The answer
/// shows the switches after the change.
pub fn set_system_feature(log: &mut AuditLog, user: &User, state: &mut RolloutState, data: DataSetFeature) -> (r: Result<SystemFeaturesResponse, ApiError>)
    ensures
        !spec_has_permission(*user, PERM_SYSTEM_FEATURES_WRITE@) ==> (r matches Err(e) && e is NotPrivileged
            && *final(state) == *old(state) && final(log).view() == old(log).view()),
        spec_has_permission(*user, PERM_SYSTEM_FEATURES_WRITE@) ==> (r matches Ok(v) && {
            &&& switches_set(*old(state), *final(state), old(state).spec_overrides().insert(data.feature@, data.enabled), old(state).spec_kill_switch())
            &&& shows_features(v, *final(state))
            &&& logged(old(log).view(), final(log).view(), user.id@, "system.feature.set"@, data.feature@, map!["enabled"@ => bool_text(data.enabled)])
        }),
{
    match ensure_permission(user, PERM_SYSTEM_FEATURES_WRITE) {
        Ok(()) => {},
        Err(e) => return Err(e),
    }
    let feature = data.feature.clone();
    state.set_global_feature(data.feature, data.enabled);
    let mut metadata: StrMap<String> = StrMap::new();
    metadata.insert(owned("enabled"), flag_text(data.enabled));
    log.record(user.id.clone(), owned("system.feature.set"), feature, metadata);
    proof {
        reveal_strlit("enabled");
    }
    Ok(features_of(state))
}

fn flag_text(b: bool) -> (s: String)
    ensures
        s@ == bool_text(b),
{
    if b {
        owned("true")
    } else {
        owned("false")
    }
}

/// Turns the emergency kill switch on or off, as `user`, and records it.
///
/// Needs the kill-switch permission; a refusal changes nothing. The answer
/// shows the switches after the change.
pub fn set_system_kill_switch(log: &mut AuditLog, user: &User, state: &mut RolloutState, data: DataSetKillSwitch) -> (r: Result<SystemFeaturesResponse, ApiError>)
    ensures
        !spec_has_permission(*user, PERM_SYSTEM_KILL_SWITCH_WRITE@) ==> (r matches Err(e) && e is NotPrivileged
            && *final(state) == *old(state) && final(log).view() == old(log).view()),
        spec_has_permission(*user, PERM_SYSTEM_KILL_SWITCH_WRITE@) ==> (r matches Ok(v) && {
            &&& switches_set(*old(state), *final(state), old(state).spec_overrides(), data.enabled)
            &&& shows_features(v, *final(state))
            &&& logged(old(log).view(), final(log).view(), user.id@, "system.kill_switch"@, "global"@, map!["enabled"@ => bool_text(data.enabled)])
        }),
{
    match ensure_permission(user, PERM_SYSTEM_KILL_SWITCH_WRITE) {
        Ok(()) => {},
        Err(e) => return Err(e),
    }
    state.set_emergency_kill_switch(data.enabled);
    let mut metadata: StrMap<String> = StrMap::new();
    metadata.insert(owned("enabled"), flag_text(data.enabled));
    log.record(user.id.clone(), owned("system.kill_switch"), owned("global"), metadata);
    proof {
        reveal_strlit("enabled");
    }
    Ok(features_of(state))
}

/// The support e-mail settings as staff see them.
pub struct EmailSystemResponse {
    pub smtp_enabled: bool,
    pub smtp_host: String,
    pub support_address: String,
    pub sender_name: String,
    pub reset_base_url: String,
    pub require_captcha: bool,
}

/// Overrides of the support e-mail settings; what is absent keeps its default.
pub struct DataSetEmailSystem {
    pub support_address: Option<String>,
    pub sender_name: Option<String>,
    pub reset_base_url: Option<String>,
    pub require_captcha: Option<bool>,
}

/// An override's text, else the default `d`.
pub open spec fn text_or(t: Option<String>, d: Seq<char>) -> Seq<char> {
    match t {
        Some(s) => s@,
        None => d,
    }
}

fn copy_or(t: &Option<String>, d: &str) -> (s: String)
    ensures
        s@ == text_or(*t, d@),
{
    match t {
        Some(x) => x.clone(),
        None => owned(d),
    }
}

/// Whether `r` shows the support e-mail settings: the overrides `overrides`
/// over the defaults, with the mail server `smtp_host` (mail is on when one is set).
pub open spec fn shows_email(r: EmailSystemResponse, overrides: DataSetEmailSystem, smtp_host: Seq<char>) -> bool {
    &&& r.smtp_enabled == (smtp_host.len() > 0)
    &&& r.smtp_host@ == smtp_host
    &&& r.support_address@ == text_or(overrides.support_address, "support@localhost"@)
    &&& r.sender_name@ == text_or(overrides.sender_name, ".Comms Support"@)
    &&& r.reset_base_url@ == text_or(overrides.reset_base_url, "https://localhost/login"@)
    &&& r.require_captcha == (match overrides.require_captcha {
        Some(v) => v,
        None => false,
    })
}

/// The support e-mail settings, from the overrides and the mail server's host.
pub fn email_system_snapshot(overrides: &DataSetEmailSystem, smtp_host: &str) -> (r: EmailSystemResponse)
    ensures
        shows_email(r, *overrides, smtp_host@),
{
    EmailSystemResponse {
        smtp_enabled: smtp_host.unicode_len() > 0,
        smtp_host: owned(smtp_host),
        support_address: copy_or(&overrides.support_address, "support@localhost"),
        sender_name: copy_or(&overrides.sender_name, ".Comms Support"),
        reset_base_url: copy_or(&overrides.reset_base_url, "https://localhost/login"),
        require_captcha: match overrides.require_captcha {
            Some(v) => v,
            None => false,
        },
    }
}

/// The support e-mail settings, as `user` reads them; needs the policy-reading permission.
pub fn get_system_email(user: &User, overrides: &DataSetEmailSystem, smtp_host: &str) -> (r: Result<EmailSystemResponse, ApiError>)
    ensures
        !spec_has_permission(*user, PERM_POLICY_READ@) ==> (r matches Err(e) && e is NotPrivileged),
        spec_has_permission(*user, PERM_POLICY_READ@) ==> (r matches Ok(v) && shows_email(v, *overrides, smtp_host@)),
{
    match ensure_permission(user, PERM_POLICY_READ) {
        Ok(()) => {},
        Err(e) => return Err(e),
    }
    Ok(email_system_snapshot(overrides, smtp_host))
}

/// The overrides `current` once the given ones of `data` replace theirs.
pub open spec fn email_changed(current: DataSetEmailSystem, data: DataSetEmailSystem) -> DataSetEmailSystem {
    DataSetEmailSystem {
        support_address: if data.support_address is Some { data.support_address } else { current.support_address },
        sender_name: if data.sender_name is Some { data.sender_name } else { current.sender_name },
        reset_base_url: if data.reset_base_url is Some { data.reset_base_url } else { current.reset_base_url },
        require_captcha: if data.require_captcha is Some { data.require_captcha } else { current.require_captcha },
    }
}

/// Replaces the given support e-mail overrides, as `user`, and records it.
///
/// Needs the e-mail-writing permission; a refusal changes nothing. The record
/// holds the new support address and sender name, or `(unchanged)`; the answer
/// shows the settings after the change.
pub fn set_system_email(log: &mut AuditLog, user: &User, overrides: &mut DataSetEmailSystem, data: DataSetEmailSystem, smtp_host: &str) -> (r: Result<EmailSystemResponse, ApiError>)
    ensures
        !spec_has_permission(*user, PERM_SYSTEM_EMAIL_WRITE@) ==> (r matches Err(e) && e is NotPrivileged
            && *final(overrides) == *old(overrides) && final(log).view() == old(log).view()),
        spec_has_permission(*user, PERM_SYSTEM_EMAIL_WRITE@) ==> (r matches Ok(v) && {
            &&& *final(overrides) == email_changed(*old(overrides), data)
            &&& shows_email(v, *final(overrides), smtp_host@)
            &&& logged(old(log).view(), final(log).view(), user.id@, "system.email.set"@, "global"@, map![
                "support_address"@ => text_or(data.support_address, "(unchanged)"@),
                "sender_name"@ => text_or(data.sender_name, "(unchanged)"@),
            ])
        }),
{
    match ensure_permission(user, PERM_SYSTEM_EMAIL_WRITE) {
        Ok(()) => {},
        Err(e) => return Err(e),
    }
    if data.support_address.is_some() {
        overrides.support_address = copy_opt(&data.support_address);
    }
    if data.sender_name.is_some() {
        overrides.sender_name = copy_opt(&data.sender_name);
    }
    if data.reset_base_url.is_some() {
        overrides.reset_base_url = copy_opt(&data.reset_base_url);
    }
    if data.require_captcha.is_some() {
        overrides.require_captcha = data.require_captcha;
    }
    let mut metadata: StrMap<String> = StrMap::new();
    metadata.insert(owned("support_address"), copy_or(&data.support_address, "(unchanged)"));
    metadata.insert(owned("sender_name"), copy_or(&data.sender_name, "(unchanged)"));
    log.record(user.id.clone(), owned("system.email.set"), owned("global"), metadata);
    proof {
        reveal_strlit("support_address");
        reveal_strlit("sender_name");
    }
    Ok(email_system_snapshot(overrides, smtp_host))
}

/// The audit log as staff read it.
pub struct AuditLogResponse {
    pub entries: Vec<AuditEntry>,
}

/// Every entry of the audit log, oldest first, as `user` reads it; needs the
/// audit-reading permission.
pub fn get_audit_log(user: &User, log: &AuditLog) -> (r: Result<AuditLogResponse, ApiError>)
    ensures
        !spec_has_permission(*user, PERM_AUDIT_READ@) ==> (r matches Err(e) && e is NotPrivileged),
        spec_has_permission(*user, PERM_AUDIT_READ@) ==> (r matches Ok(v) && same_entries(v.entries@, log.view())),
{
    match ensure_permission(user, PERM_AUDIT_READ) {
        Ok(()) => {},
        Err(e) => return Err(e),
    }
    Ok(AuditLogResponse { entries: log.list() })
}

/// The entries of sensitive kinds, oldest first, as `user` reads them; needs
/// the audit-reading permission.
pub fn sensitive_audit_feed(user: &User, log: &AuditLog) -> (r: Result<AuditLogResponse, ApiError>)
    ensures
        !spec_has_permission(*user, PERM_AUDIT_READ@) ==> (r matches Err(e) && e is NotPrivileged),
        spec_has_permission(*user, PERM_AUDIT_READ@) ==> (r matches Ok(v)
            && same_entries(v.entries@, log.view().filter(|e: AuditEntry| entry_selected(EntryFilter::Sensitive, e)))),
{
    match ensure_permission(user, PERM_AUDIT_READ) {
        Ok(()) => {},
        Err(e) => return Err(e),
    }
    let all = log.list();
    let ghost listed = all@;
    let n = all.len();
    let f = EntryFilter::Sensitive;
    let entries = select_entries(all, &f, n);
    proof {
        listed.lemma_filter_len(|e: AuditEntry| entry_selected(f, e));
        lemma_same_entries_filter(listed, log.view(), f);
    }
    Ok(AuditLogResponse { entries })
}

/// A query of the audit log's export.
pub struct AuditExportQuery {
    pub actor_id: Option<String>,
    pub action_prefix: Option<String>,
    pub target: Option<String>,
    pub limit: Option<usize>,
}

/// The audit log's export: the selected entries and a hash over them.
pub struct AuditExportResponse {
    pub entries: Vec<AuditEntry>,
    pub chain_hash: String,
}

/// What `<str as Hash>::hash` feeds a hasher for the text `s`.
pub uninterp spec fn text_writes(s: Seq<char>) -> Seq<Seq<u8>>;

/// What the chain hash writes for the entry `e`: its id, time, actor, action
/// and target, in that order.
pub open spec fn entry_writes(e: AuditEntry) -> Seq<Seq<u8>> {
    text_writes(e.id@) + text_writes(e.timestamp@) + text_writes(e.actor_id@) + text_writes(e.action@)
        + text_writes(e.target@)
}

/// What the chain hash writes for the entries `s`, one entry after another.
pub open spec fn chain_writes(s: Seq<AuditEntry>) -> Seq<Seq<u8>>
    decreases s.len(),
{
    if s.len() == 0 {
        Seq::empty()
    } else {
        chain_writes(s.drop_last()) + entry_writes(s.last())
    }
}

/// The chain hash of the entries `s`: the standard hasher's result over what
/// `chain_writes` writes, as 16 lower-case hexadecimal digits.
pub open spec fn chain_hash_text(s: Seq<AuditEntry>) -> Seq<char> {
    hex_text(DefaultHasher::spec_finish(chain_writes(s)) as nat, 16)
}

/// Whether the entries `a` and `b` agree on the fields the chain hash reads.
pub open spec fn hashed_fields_agree(a: AuditEntry, b: AuditEntry) -> bool {
    a.id@ == b.id@ && a.timestamp@ == b.timestamp@ && a.actor_id@ == b.actor_id@ && a.action@ == b.action@
        && a.target@ == b.target@
}

/// Feeds the text `s` to the hasher.
///
/// Calls `<String as Hash>::hash`. What it feeds the hasher depends on the text
/// alone (equal texts hash alike, as `Hash` requires of every type); std does
/// not document the bytes, so they are named `text_writes`.
#[verifier::external_body]
fn hash_text(h: &mut DefaultHasher, s: &String)
    ensures
        final(h)@ == old(h)@ + text_writes(s@),
{
    s.hash(h)
}

/// A hash over the id, time, actor, action and target of each of `entries`,
/// in order, written as 16 lower-case hexadecimal digits.
pub fn audit_chain_hash(entries: &Vec<AuditEntry>) -> (s: String)
    ensures
        s@ == chain_hash_text(entries@),
{
    let mut hasher = DefaultHasher::new();
    let mut i: usize = 0;
    while i < entries.len()
        invariant
            i <= entries@.len(),
            hasher@ == chain_writes(entries@.take(i as int)),
        decreases entries@.len() - i,
    {
        let e = &entries[i];
        hash_text(&mut hasher, &e.id);
        hash_text(&mut hasher, &e.timestamp);
        hash_text(&mut hasher, &e.actor_id);
        hash_text(&mut hasher, &e.action);
        hash_text(&mut hasher, &e.target);
        proof {
            assert(entries@.take(i + 1).drop_last() =~= entries@.take(i as int));
            assert(entries@.take(i + 1).last() == entries@[i as int]);
            assert(hasher@ =~= chain_writes(entries@.take(i + 1)));
        }
        i = i + 1;
    }
    proof {
        assert(entries@.take(i as int) =~= entries@);
    }
    let n = hasher.finish();
    hex_digits(n, 16)
}

/// Two lists of entries that agree, entry by entry, on the id, time, actor,
/// action and target get the same chain hash, whatever their metadata.
pub proof fn law_chain_hash_reads_five_fields(a: Seq<AuditEntry>, b: Seq<AuditEntry>)
    requires
        a.len() == b.len(),
        forall|i: int| 0 <= i < a.len() ==> hashed_fields_agree(#[trigger] a[i], b[i]),
    ensures
        chain_writes(a) == chain_writes(b),
        chain_hash_text(a) == chain_hash_text(b),
    decreases a.len(),
{
    if a.len() > 0 {
        law_chain_hash_reads_five_fields(a.drop_last(), b.drop_last());
        assert(hashed_fields_agree(a[a.len() - 1], b[b.len() - 1]));
        assert(entry_writes(a.last()) == entry_writes(b.last()));
    }
}

/// The filter of an export query.
pub open spec fn export_filter(q: AuditExportQuery) -> EntryFilter {
    EntryFilter::Query { actor_id: q.actor_id, action_prefix: q.action_prefix, target: q.target }
}

/// The number of entries an export holds at most: the requested limit, 500
/// when none is given, kept within 1 to 5000.
pub open spec fn export_limit(limit: Option<usize>) -> int {
    let l = match limit {
        Some(l) => l as int,
        None => 500,
    };
    if l < 1 {
        1
    } else if l > 5000 {
        5000
    } else {
        l
    }
}

/// The audit log's export, as `user` asks for it with `query`: the entries
/// that match the query (same actor, action starting with the prefix, same
/// target, each when given), oldest first, at most the limit of them, and a
/// hash over them. Needs the audit-reading permission.
pub fn export_audit_log(user: &User, log: &AuditLog, query: AuditExportQuery) -> (r: Result<AuditExportResponse, ApiError>)
    ensures
        !spec_has_permission(*user, PERM_AUDIT_READ@) ==> (r matches Err(e) && e is NotPrivileged),
        spec_has_permission(*user, PERM_AUDIT_READ@) ==> (r matches Ok(v) && {
            &&& same_entries(v.entries@, first_n(log.view().filter(|e: AuditEntry| entry_selected(export_filter(query), e)), export_limit(query.limit)))
            &&& v.chain_hash@ == chain_hash_text(v.entries@)
            &&& v.chain_hash@ == chain_hash_text(first_n(log.view().filter(|e: AuditEntry| entry_selected(export_filter(query), e)), export_limit(query.limit)))
        }),
{
    match ensure_permission(user, PERM_AUDIT_READ) {
        Ok(()) => {},
        Err(e) => return Err(e),
    }
    let limit = clamp_limit(query.limit, 500, 1, 5000);
    let all = log.list();
    let ghost listed = all@;
    let f = EntryFilter::Query { actor_id: query.actor_id, action_prefix: query.action_prefix, target: query.target };
    let entries = select_entries(all, &f, limit);
    proof {
        let p = |e: AuditEntry| entry_selected(f, e);
        lemma_same_entries_filter(listed, log.view(), f);
        if listed.filter(p).len() > limit {
            lemma_same_entries_take(listed.filter(p), log.view().filter(p), limit as int);
        }
    }
    let chain_hash = audit_chain_hash(&entries);
    proof {
        let chosen = first_n(log.view().filter(|e: AuditEntry| entry_selected(export_filter(query), e)), export_limit(query.limit));
        assert forall|i: int| 0 <= i < entries@.len() implies hashed_fields_agree(#[trigger] entries@[i], chosen[i]) by {
            assert(same_entry(entries@[i], chosen[i]));
        }
        law_chain_hash_reads_five_fields(entries@, chosen);
    }
    Ok(AuditExportResponse { entries, chain_hash })
}

/// The feature matrix a user receives.
pub struct FeaturesResponse {
    pub emergency_kill_switch: bool,
    pub global: StrMap<bool>,
    pub promoted: Vec<String>,
    pub effective: StrMap<bool>,
}

/// The feature matrix of `user`: the kill switch, the global switches, the
/// features promoted for the user and those in force for them.
pub fn features(user: &User, state: &RolloutState) -> (r: Result<FeaturesResponse, ApiError>)
    ensures
        r matches Ok(v) && {
            &&& v.emergency_kill_switch == state.spec_kill_switch()
            &&& v.global.wf() && v.global@ == state.spec_global_features()
            &&& views(v.promoted@) == state.spec_promoted_features(*user)
            &&& v.effective.wf() && v.effective@ == state.spec_effective_features(*user)
        },
{
    let global = state.global_features();
    let promoted = state.promoted_features(user);
    let effective = state.effective_features(user);
    let emergency_kill_switch = state.emergency_kill_switch();
    Ok(FeaturesResponse { emergency_kill_switch, global, promoted, effective })
}

} // verus!
