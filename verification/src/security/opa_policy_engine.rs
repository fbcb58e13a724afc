//! Policy decisions for requests: role permissions (RBAC), resource
//! attributes (ABAC), an administrator override, field- and row-level
//! limits, and a cache of decisions per user, operation, resource and context.

use vstd::prelude::*;
use std::collections::hash_map::DefaultHasher;
use std::hash::Hasher;
use vstd::std_specs::hash::DefaultHasherAdditionalSpecFns;
use crate::clock::{unix_now_micros, unix_now_millis, unix_now_secs};
use crate::json::Json;
use crate::text::{cat, owned, str_eq};
use crate::security::threat_detection_impl::{copy_pairs, lookup, pair_views, text_views};

verus! {

/// A policy question: who, doing what, to which resource, in which context.
pub struct OpaInput {
    pub user: UserContext,
    pub action: Action,
    pub resource: Resource,
    pub context: Context,
    pub requested_fields: Option<Vec<String>>,
    pub row_filter_required: Option<bool>,
}

/// The requesting user.
pub struct UserContext {
    pub id: String,
    pub email: String,
    pub name: String,
    pub roles: Vec<String>,
    pub permissions: Vec<String>,
    pub attributes: UserAttributes,
}

/// Attributes of a user.
pub struct UserAttributes {
    pub department: Option<String>,
    pub clearance: Option<String>,
    pub manager: Option<String>,
    pub location: Option<String>,
    pub employee_type: Option<String>,
}

impl Default for UserAttributes {
    /// No attributes.
    fn default() -> (a: Self)
        ensures
            a.department is None,
            a.clearance is None,
            a.manager is None,
            a.location is None,
            a.employee_type is None,
    {
        UserAttributes { department: None, clearance: None, manager: None, location: None, employee_type: None }
    }
}

/// The requested operation.
pub struct Action {
    pub method: String,
    pub path: String,
    pub operation: String,
}

/// The resource acted on; its labels are name–value pairs.
pub struct Resource {
    pub resource_type: String,
    pub id: Option<String>,
    pub owner: Option<String>,
    pub sensitivity: String,
    pub environment: String,
    pub labels: Vec<(String, String)>,
}

/// Circumstances of the request.
pub struct Context {
    pub time: u64,
    pub day_of_week: u8,
    pub is_business_hours: bool,
    pub ip: String,
    pub location: Option<GeoLocation>,
    pub device_trust: DeviceTrust,
    pub risk_score: u8,
}

/// Where a request came from; coordinates in millionths of a degree.
pub struct GeoLocation {
    pub country: String,
    pub city: String,
    pub latitude_microdeg: i64,
    pub longitude_microdeg: i64,
}

/// How far the requesting device is trusted.
pub struct DeviceTrust {
    pub score: u8,
    pub device_id: Option<String>,
    pub verified: bool,
}

/// A policy decision: whether it is allowed and why, the fields that may be
/// seen, the row filter to apply, the policy version and the time taken.
pub struct OpaDecision {
    pub allow: bool,
    pub reason: String,
    pub fields: Vec<String>,
    pub filter: Vec<(String, String)>,
    pub policy_version: String,
    pub latency_us: u64,
}

/// A loaded policy bundle.
pub struct PolicyBundle {
    pub revision: String,
    pub policies: Vec<(String, String)>,
    pub data: Vec<(String, Json)>,
    pub timestamp_ms: u64,
    pub signature: Option<String>,
}

/// What the bundle service reports of the latest bundle.
pub struct BundleInfo {
    pub revision: String,
    pub download_url: String,
    pub signature: String,
    pub size: usize,
}

/// What a cached decision is filed under.
pub struct CacheKey {
    pub user_id: String,
    pub action: String,
    pub resource_type: String,
    pub resource_id: Option<String>,
    pub context_hash: u64,
}

/// A cached decision, valid up to `expires_at` (seconds since the Unix epoch).
pub struct CacheEntry {
    pub decision: bool,
    pub fields: Vec<String>,
    pub filter: Vec<(String, String)>,
    pub expires_at: u64,
    pub created_at_ms: u64,
}

/// Size and lifetime of the decision cache.
#[derive(Debug, Clone, Copy, PartialEq, Eq, Structural)]
pub struct CacheConfig {
    pub max_size: usize,
    pub ttl_secs: u64,
}

impl Default for CacheConfig {
    /// 10000 decisions, kept five minutes.
    fn default() -> (c: Self)
        ensures
            c == (CacheConfig { max_size: 10000, ttl_secs: 300 }),
    {
        CacheConfig { max_size: 10000, ttl_secs: 300 }
    }
}

/// Counters of the decision cache.
#[derive(Debug, Clone, Copy, PartialEq, Eq, Structural)]
pub struct CacheStats {
    pub hits: u64,
    pub misses: u64,
    pub evictions: u64,
    pub total_requests: u64,
}

impl Default for CacheStats {
    /// All counters at zero.
    fn default() -> (s: Self)
        ensures
            s == (CacheStats { hits: 0, misses: 0, evictions: 0, total_requests: 0 }),
    {
        CacheStats { hits: 0, misses: 0, evictions: 0, total_requests: 0 }
    }
}

impl CacheStats {
    /// Hits per counted request, in hundredths of a percent, rounded down; 0 before any request.
    pub fn hit_rate_hundredths_percent(&self) -> (r: u128)
        ensures
            r == (if self.total_requests == 0 { 0 } else { (self.hits * 10000) / (self.total_requests as int) }),
    {
        if self.total_requests == 0 {
            0
        } else {
            self.hits as u128 * 10000 / self.total_requests as u128
        }
    }
}

/// What went wrong in policy evaluation.
pub enum OpaError {
    EvaluationFailed(String),
    BundleLoadFailed(String),
    BundleServiceUnavailable,
    SignatureVerificationFailed(String),
    CompilationFailed(String),
    InputValidationFailed(String),
    CacheError(String),
}

impl OpaError {
    /// The error's message.
    pub fn message(&self) -> (m: String)
        ensures
            m@ == (match self {
                OpaError::EvaluationFailed(s) => "策略评估失败："@ + s@,
                OpaError::BundleLoadFailed(s) => "Bundle 加载失败："@ + s@,
                OpaError::BundleServiceUnavailable => "Bundle 服务不可用"@,
                OpaError::SignatureVerificationFailed(s) => "签名验证失败："@ + s@,
                OpaError::CompilationFailed(s) => "策略编译失败："@ + s@,
                OpaError::InputValidationFailed(s) => "输入验证失败："@ + s@,
                OpaError::CacheError(s) => "缓存错误："@ + s@,
            }),
    {
        match self {
            OpaError::EvaluationFailed(s) => cat("策略评估失败：", s.as_str()),
            OpaError::BundleLoadFailed(s) => cat("Bundle 加载失败：", s.as_str()),
            OpaError::BundleServiceUnavailable => owned("Bundle 服务不可用"),
            OpaError::SignatureVerificationFailed(s) => cat("签名验证失败：", s.as_str()),
            OpaError::CompilationFailed(s) => cat("策略编译失败：", s.as_str()),
            OpaError::InputValidationFailed(s) => cat("输入验证失败：", s.as_str()),
            OpaError::CacheError(s) => cat("缓存错误：", s.as_str()),
        }
    }
}

} // verus!

verus! {

/// The permissions each role holds.
pub open spec fn role_permissions(role: Seq<char>) -> Seq<Seq<char>> {
    if role == "admin"@ {
        seq!["*:*"@]
    } else if role == "developer"@ {
        seq!["batch:*"@, "transaction:read"@, "verification:*"@]
    } else if role == "viewer"@ {
        seq!["batch:read"@, "transaction:read"@, "verification:read"@]
    } else if role == "operator"@ {
        seq!["batch:execute"@, "transaction:execute"@]
    } else {
        Seq::empty()
    }
}

/// `p` is a prefix of `s`.
pub open spec fn has_prefix(s: Seq<char>, p: Seq<char>) -> bool {
    p.len() <= s.len() && s.subrange(0, p.len() as int) == p
}

/// A permission grants an operation when it names it exactly, or ends in
/// ":*" and the operation starts with what comes before the "*".
pub open spec fn perm_matches(perm: Seq<char>, required: Seq<char>) -> bool {
    perm == required || (perm.len() >= 2 && perm.subrange(perm.len() - 2, perm.len() as int) == ":*"@ && has_prefix(
        required,
        perm.subrange(0, perm.len() - 1),
    ))
}

/// Some role of the user holds a permission that grants the operation.
pub open spec fn rbac_allows(roles: Seq<Seq<char>>, op: Seq<char>) -> bool {
    exists|i: int, j: int|
        0 <= i < roles.len() && 0 <= j < role_permissions(roles[i]).len() && perm_matches(
            #[trigger] role_permissions(roles[i])[j],
            op,
        )
}

/// The level of a clearance or sensitivity: public 1, internal 2,
/// confidential 3, restricted 4, anything else 0.
pub open spec fn clearance_level(c: Seq<char>) -> u8 {
    if c == "public"@ {
        1
    } else if c == "internal"@ {
        2
    } else if c == "confidential"@ {
        3
    } else if c == "restricted"@ {
        4
    } else {
        0
    }
}

/// Clearance levels are strictly ordered public < internal < confidential <
/// restricted, and every named level is above an unknown one; so a clearance
/// covers a sensitivity by level exactly when it is not lower in that order.
pub proof fn law_clearance_order(other: Seq<char>)
    ensures
        0 < clearance_level("public"@),
        clearance_level("public"@) < clearance_level("internal"@),
        clearance_level("internal"@) < clearance_level("confidential"@),
        clearance_level("confidential"@) < clearance_level("restricted"@),
        other != "public"@ && other != "internal"@ && other != "confidential"@ && other != "restricted"@
            ==> clearance_level(other) == 0,
{
    reveal_strlit("public");
    reveal_strlit("internal");
    reveal_strlit("confidential");
    reveal_strlit("restricted");
    assert("public"@[0] == 'p' && "internal"@[0] == 'i' && "confidential"@[0] == 'c' && "restricted"@[0] == 'r');
    assert("public"@ != "internal"@ && "public"@ != "confidential"@ && "public"@ != "restricted"@);
    assert("internal"@ != "confidential"@ && "internal"@ != "restricted"@);
    assert("confidential"@ != "restricted"@);
}

pub open spec fn opt_text(o: Option<String>) -> Option<Seq<char>> {
    match o {
        Some(s) => Some(s@),
        None => None,
    }
}

/// The user owns the resource, or is cleared for its sensitivity, or is in
/// the department the resource is labelled with.
pub open spec fn abac_allows(i: OpaInput) -> bool {
    ||| opt_text(i.resource.owner) == Some(i.user.id@)
    ||| (i.user.attributes.clearance matches Some(c) && clearance_level(c@) >= clearance_level(i.resource.sensitivity@))
    ||| (i.user.attributes.department matches Some(d) && lookup(pair_views(i.resource.labels@), "department"@) == Some(
        d@,
    ))
}

/// A user who neither owns the resource nor shares its department is allowed
/// by attributes exactly when cleared for it: a named clearance covers the
/// named sensitivities at or below it in the order public, internal,
/// confidential, restricted, and none above it.
pub proof fn law_abac_by_clearance(i: OpaInput, j: int, k: int)
    requires
        opt_text(i.resource.owner) != Some(i.user.id@),
        i.user.attributes.department is None,
        0 <= j < 4,
        0 <= k < 4,
        i.user.attributes.clearance matches Some(c) && c@ == seq!["public"@, "internal"@, "confidential"@, "restricted"@][j],
        i.resource.sensitivity@ == seq!["public"@, "internal"@, "confidential"@, "restricted"@][k],
    ensures
        abac_allows(i) <==> j >= k,
{
    law_clearance_order(Seq::empty());
    let levels = seq!["public"@, "internal"@, "confidential"@, "restricted"@];
    assert(levels[0] == "public"@ && levels[1] == "internal"@ && levels[2] == "confidential"@ && levels[3] == "restricted"@);
}

pub open spec fn has_role(i: OpaInput, role: Seq<char>) -> bool {
    text_views(i.user.roles@).contains(role)
}

/// The request is allowed by role, by attributes, or as administrator.
pub open spec fn policy_allows(i: OpaInput) -> bool {
    rbac_allows(text_views(i.user.roles@), i.action.operation@) || abac_allows(i) || has_role(i, "admin"@)
}

/// Why: the administrator override first, then a role grant, then attributes.
pub open spec fn policy_reason(i: OpaInput) -> Seq<char> {
    if has_role(i, "admin"@) {
        "admin_override"@
    } else if rbac_allows(text_views(i.user.roles@), i.action.operation@) {
        "rbac_allow"@
    } else if abac_allows(i) {
        "abac_allow"@
    } else {
        "denied"@
    }
}

pub open spec fn sensitive_field(f: Seq<char>) -> bool {
    f == "internal_config"@ || f == "security_context"@ || f == "encryption_keys"@ || f == "audit_logs"@
}

pub open spec fn viewer_field(f: Seq<char>) -> bool {
    f == "id"@ || f == "status"@ || f == "created_at"@ || f == "owner"@
}

pub open spec fn developer_field(f: Seq<char>) -> bool {
    viewer_field(f) || f == "commands"@ || f == "results"@
}

/// A non-administrator may see a field that is not sensitive and that their
/// role allows: developers more than viewers, other roles none.
pub open spec fn field_allowed(i: OpaInput, f: Seq<char>) -> bool {
    !sensitive_field(f) && (if has_role(i, "developer"@) {
        developer_field(f)
    } else if has_role(i, "viewer"@) {
        viewer_field(f)
    } else {
        false
    })
}

pub open spec fn kept_fields(i: OpaInput, req: Seq<Seq<char>>) -> Seq<Seq<char>>
    decreases req.len(),
{
    if req.len() == 0 {
        Seq::empty()
    } else {
        let prev = kept_fields(i, req.drop_last());
        if field_allowed(i, req.last()) {
            prev.push(req.last())
        } else {
            prev
        }
    }
}

/// The requested fields the user may see: all of them for an administrator.
pub open spec fn allowed_fields(i: OpaInput, req: Seq<Seq<char>>) -> Seq<Seq<char>> {
    if has_role(i, "admin"@) {
        req
    } else {
        kept_fields(i, req)
    }
}

/// Non-administrators see only the rows they own.
pub open spec fn row_filter(i: OpaInput) -> Seq<(Seq<char>, Seq<char>)> {
    if has_role(i, "admin"@) {
        Seq::empty()
    } else {
        seq![("owner"@, i.user.id@)]
    }
}

/// The fields a decision lists: the allowed ones among those requested.
pub open spec fn decision_fields(i: OpaInput) -> Seq<Seq<char>> {
    match i.requested_fields {
        Some(req) => allowed_fields(i, text_views(req@)),
        None => Seq::empty(),
    }
}

/// The row filter a decision carries, when one is asked for.
pub open spec fn decision_filter(i: OpaInput) -> Seq<(Seq<char>, Seq<char>)> {
    if i.row_filter_required == Some(true) {
        row_filter(i)
    } else {
        Seq::empty()
    }
}

/// Why an input is refused before evaluation, if it is.
pub open spec fn input_problem(i: OpaInput) -> Option<Seq<char>> {
    if i.user.id@.len() == 0 {
        Some("Missing user.id"@)
    } else if i.action.operation@.len() == 0 {
        Some("Missing action.operation"@)
    } else if i.resource.resource_type@.len() == 0 {
        Some("Missing resource.type"@)
    } else {
        None
    }
}

fn has_role_exec(roles: &Vec<String>, role: &str) -> (r: bool)
    ensures
        r == text_views(roles@).contains(role@),
{
    let ghost tv = text_views(roles@);
    let mut i: usize = 0;
    while i < roles.len()
        invariant
            i <= roles@.len(),
            tv == text_views(roles@),
            forall|j: int| 0 <= j < i ==> tv[j] != role@,
        decreases roles@.len() - i,
    {
        if str_eq(roles[i].as_str(), role) {
            assert(tv[i as int] == role@);
            return true;
        }
        i = i + 1;
    }
    false
}

fn starts_with(s: &str, p: &str) -> (r: bool)
    ensures
        r == has_prefix(s@, p@),
{
    let sn = s.unicode_len();
    let pn = p.unicode_len();
    if pn > sn {
        return false;
    }
    let mut k: usize = 0;
    while k < pn
        invariant
            sn == s@.len(),
            pn == p@.len(),
            pn <= sn,
            k <= pn,
            forall|j: int| 0 <= j < k ==> s@[j] == p@[j],
        decreases pn - k,
    {
        if s.get_char(k) != p.get_char(k) {
            assert(s@.subrange(0, pn as int)[k as int] != p@[k as int]);
            return false;
        }
        k = k + 1;
    }
    assert(s@.subrange(0, pn as int) =~= p@);
    true
}

fn perm_matches_exec(perm: &str, required: &str) -> (r: bool)
    ensures
        r == perm_matches(perm@, required@),
{
    if str_eq(perm, required) {
        return true;
    }
    let n = perm.unicode_len();
    if n >= 2 && perm.get_char(n - 2) == ':' && perm.get_char(n - 1) == '*' {
        proof {
            reveal_strlit(":*");
            assert(perm@.subrange(n - 2, n as int) =~= ":*"@);
        }
        let prefix = crate::text::substring(perm, 0, n - 1);
        return starts_with(required, prefix.as_str());
    }
    proof {
        reveal_strlit(":*");
        if n >= 2 && perm@.subrange(n - 2, n as int) == ":*"@ {
            assert(perm@.subrange(n - 2, n as int)[0] == ':');
            assert(perm@.subrange(n - 2, n as int)[1] == '*');
        }
    }
    false
}

fn role_permissions_exec(role: &str) -> (v: Vec<String>)
    ensures
        text_views(v@) == role_permissions(role@),
{
    let v: Vec<String> = if str_eq(role, "admin") {
        vec![owned("*:*")]
    } else if str_eq(role, "developer") {
        vec![owned("batch:*"), owned("transaction:read"), owned("verification:*")]
    } else if str_eq(role, "viewer") {
        vec![owned("batch:read"), owned("transaction:read"), owned("verification:read")]
    } else if str_eq(role, "operator") {
        vec![owned("batch:execute"), owned("transaction:execute")]
    } else {
        Vec::new()
    };
    assert(text_views(v@) =~= role_permissions(role@));
    v
}

fn clearance_level_exec(c: &str) -> (l: u8)
    ensures
        l == clearance_level(c@),
{
    if str_eq(c, "public") {
        1
    } else if str_eq(c, "internal") {
        2
    } else if str_eq(c, "confidential") {
        3
    } else if str_eq(c, "restricted") {
        4
    } else {
        0
    }
}

fn label_value(m: &Vec<(String, String)>, k: &str) -> (r: Option<usize>)
    ensures
        match r {
            Some(i) => i < m@.len() && lookup(pair_views(m@), k@) == Some(m@[i as int].1@),
            None => lookup(pair_views(m@), k@) is None,
        },
{
    let ghost fv = pair_views(m@);
    assert(fv.subrange(0, fv.len() as int) =~= fv);
    let mut i: usize = 0;
    while i < m.len()
        invariant
            i <= m@.len(),
            fv == pair_views(m@),
            lookup(fv, k@) == lookup(fv.subrange(i as int, fv.len() as int), k@),
        decreases m@.len() - i,
    {
        if str_eq(m[i].0.as_str(), k) {
            assert(fv.subrange(i as int, fv.len() as int)[0] == fv[i as int]);
            return Some(i);
        }
        assert(fv.subrange(i as int, fv.len() as int).drop_first() =~= fv.subrange(i + 1, fv.len() as int));
        i = i + 1;
    }
    assert(fv.subrange(i as int, fv.len() as int).len() == 0);
    None
}

/// Whether a role of the user grants the operation.
pub fn check_rbac(input: &OpaInput) -> (r: bool)
    ensures
        r == rbac_allows(text_views(input.user.roles@), input.action.operation@),
{
    let ghost roles = text_views(input.user.roles@);
    let ghost op = input.action.operation@;
    let mut i: usize = 0;
    while i < input.user.roles.len()
        invariant
            i <= roles.len(),
            roles == text_views(input.user.roles@),
            op == input.action.operation@,
            forall|a: int, b: int|
                0 <= a < i && 0 <= b < role_permissions(roles[a]).len() ==> !perm_matches(
                    #[trigger] role_permissions(roles[a])[b],
                    op,
                ),
        decreases roles.len() - i,
    {
        let perms = role_permissions_exec(input.user.roles[i].as_str());
        assert(roles[i as int] == input.user.roles@[i as int]@);
        let mut j: usize = 0;
        while j < perms.len()
            invariant
                j <= perms@.len(),
                text_views(perms@) == role_permissions(roles[i as int]),
                i < roles.len(),
                roles == text_views(input.user.roles@),
                op == input.action.operation@,
                forall|b: int| 0 <= b < j ==> !perm_matches(#[trigger] role_permissions(roles[i as int])[b], op),
            decreases perms@.len() - j,
        {
            if perm_matches_exec(perms[j].as_str(), input.action.operation.as_str()) {
                assert(role_permissions(roles[i as int])[j as int] == perms@[j as int]@);
                return true;
            }
            assert(role_permissions(roles[i as int])[j as int] == perms@[j as int]@);
            j = j + 1;
        }
        i = i + 1;
    }
    false
}

/// Whether the user's attributes allow acting on the resource.
pub fn check_abac(input: &OpaInput) -> (r: bool)
    ensures
        r == abac_allows(*input),
{
    match &input.resource.owner {
        Some(owner) => {
            if str_eq(owner.as_str(), input.user.id.as_str()) {
                return true;
            }
        },
        None => {},
    }
    match &input.user.attributes.clearance {
        Some(c) => {
            if clearance_level_exec(c.as_str()) >= clearance_level_exec(input.resource.sensitivity.as_str()) {
                return true;
            }
        },
        None => {},
    }
    match &input.user.attributes.department {
        Some(d) => match label_value(&input.resource.labels, "department") {
            Some(k) => str_eq(d.as_str(), input.resource.labels[k].1.as_str()),
            None => false,
        },
        None => false,
    }
}

/// The requested fields the user may see.
pub fn filter_fields(input: &OpaInput, requested: &Vec<String>) -> (r: Vec<String>)
    ensures
        text_views(r@) == allowed_fields(*input, text_views(requested@)),
{
    let ghost req = text_views(requested@);
    if has_role_exec(&input.user.roles, "admin") {
        let mut all: Vec<String> = Vec::new();
        let mut i: usize = 0;
        while i < requested.len()
            invariant
                i <= requested@.len(),
                req == text_views(requested@),
                text_views(all@) == req.take(i as int),
            decreases requested@.len() - i,
        {
            let ghost before = all@;
            all.push(requested[i].clone());
            assert(text_views(all@) =~= text_views(before).push(requested@[i as int]@));
            assert(req.take(i + 1) =~= req.take(i as int).push(req[i as int]));
            i = i + 1;
        }
        assert(req.take(req.len() as int) =~= req);
        return all;
    }
    let dev = has_role_exec(&input.user.roles, "developer");
    let viewer = has_role_exec(&input.user.roles, "viewer");
    let mut kept: Vec<String> = Vec::new();
    let mut i: usize = 0;
    while i < requested.len()
        invariant
            i <= requested@.len(),
            req == text_views(requested@),
            dev == has_role(*input, "developer"@),
            viewer == has_role(*input, "viewer"@),
            text_views(kept@) == kept_fields(*input, req.take(i as int)),
        decreases requested@.len() - i,
    {
        let f = requested[i].as_str();
        let sensitive = str_eq(f, "internal_config") || str_eq(f, "security_context") || str_eq(f, "encryption_keys")
            || str_eq(f, "audit_logs");
        let view = str_eq(f, "id") || str_eq(f, "status") || str_eq(f, "created_at") || str_eq(f, "owner");
        let ok = !sensitive && (if dev {
            view || str_eq(f, "commands") || str_eq(f, "results")
        } else if viewer {
            view
        } else {
            false
        });
        proof {
            assert(req.take(i + 1).drop_last() =~= req.take(i as int));
            assert(req.take(i + 1).last() == f@);
        }
        if ok {
            let ghost before = kept@;
            kept.push(requested[i].clone());
            assert(text_views(kept@) =~= text_views(before).push(f@));
        }
        i = i + 1;
    }
    assert(req.take(req.len() as int) =~= req);
    kept
}

/// The row filter for the user: none for an administrator, else their own rows.
pub fn get_row_filter(input: &OpaInput) -> (r: Vec<(String, String)>)
    ensures
        pair_views(r@) == row_filter(*input),
{
    let mut filter: Vec<(String, String)> = Vec::new();
    if has_role_exec(&input.user.roles, "admin") {
        assert(pair_views(filter@) =~= Seq::<(Seq<char>, Seq<char>)>::empty());
        return filter;
    }
    filter.push((owned("owner"), input.user.id.clone()));
    assert(pair_views(filter@) =~= seq![("owner"@, input.user.id@)]);
    filter
}

/// Checks the fields every request must carry.
pub fn validate_input(input: &OpaInput) -> (r: Result<(), OpaError>)
    ensures
        match input_problem(*input) {
            Some(m) => r matches Err(OpaError::InputValidationFailed(s)) && s@ == m,
            None => r is Ok,
        },
{
    if input.user.id.unicode_len() == 0 {
        return Err(OpaError::InputValidationFailed(owned("Missing user.id")));
    }
    if input.action.operation.unicode_len() == 0 {
        return Err(OpaError::InputValidationFailed(owned("Missing action.operation")));
    }
    if input.resource.resource_type.unicode_len() == 0 {
        return Err(OpaError::InputValidationFailed(owned("Missing resource.type")));
    }
    Ok(())
}

} // verus!

verus! {

/// The eight bytes of `x`, least significant first.
pub open spec fn le_bytes(x: u64) -> Seq<u8> {
    seq![
        (x & 0xff) as u8,
        ((x >> 8) & 0xff) as u8,
        ((x >> 16) & 0xff) as u8,
        ((x >> 24) & 0xff) as u8,
        ((x >> 32) & 0xff) as u8,
        ((x >> 40) & 0xff) as u8,
        ((x >> 48) & 0xff) as u8,
        ((x >> 56) & 0xff) as u8,
    ]
}

/// The hash of the parts of the context a decision may depend on: its time,
/// whether it is business hours, and its risk score, written into a
/// `DefaultHasher` as `Hash` writes them on a little-endian machine.
pub open spec fn context_hash(c: Context) -> u64 {
    DefaultHasher::spec_finish(seq![le_bytes(c.time), seq![if c.is_business_hours { 1u8 } else { 0u8 }], seq![c.risk_score]])
}

/// A cache key as plain values.
pub open spec fn key_view(k: CacheKey) -> (Seq<char>, Seq<char>, Seq<char>, Option<Seq<char>>, u64) {
    (k.user_id@, k.action@, k.resource_type@, opt_text(k.resource_id), k.context_hash)
}

/// The key a request's decision is filed under.
pub open spec fn input_key(i: OpaInput) -> (Seq<char>, Seq<char>, Seq<char>, Option<Seq<char>>, u64) {
    (i.user.id@, i.action.operation@, i.resource.resource_type@, opt_text(i.resource.id), context_hash(i.context))
}

/// A cached decision as plain values.
pub struct EntryView {
    pub decision: bool,
    pub fields: Seq<Seq<char>>,
    pub filter: Seq<(Seq<char>, Seq<char>)>,
    pub expires_at: u64,
}

pub open spec fn entry_view(e: CacheEntry) -> EntryView {
    EntryView { decision: e.decision, fields: text_views(e.fields@), filter: pair_views(e.filter@), expires_at: e.expires_at }
}

pub open spec fn cache_view(es: Seq<(CacheKey, CacheEntry)>) -> Seq<(
    (Seq<char>, Seq<char>, Seq<char>, Option<Seq<char>>, u64),
    EntryView,
)> {
    es.map_values(|p: (CacheKey, CacheEntry)| (key_view(p.0), entry_view(p.1)))
}

/// The first position at or after `from` filed under `k`, or -1.
pub open spec fn find_key(
    c: Seq<((Seq<char>, Seq<char>, Seq<char>, Option<Seq<char>>, u64), EntryView)>,
    k: (Seq<char>, Seq<char>, Seq<char>, Option<Seq<char>>, u64),
    from: int,
) -> int
    decreases c.len() - from,
{
    if from < 0 || from >= c.len() {
        -1
    } else if c[from].0 == k {
        from
    } else {
        find_key(c, k, from + 1)
    }
}

pub proof fn lemma_find_key(
    c: Seq<((Seq<char>, Seq<char>, Seq<char>, Option<Seq<char>>, u64), EntryView)>,
    k: (Seq<char>, Seq<char>, Seq<char>, Option<Seq<char>>, u64),
    from: int,
)
    requires
        0 <= from,
    ensures
        find_key(c, k, from) == -1 || (from <= find_key(c, k, from) < c.len() && c[find_key(c, k, from)].0 == k),
    decreases c.len() - from,
{
    if from < c.len() && c[from].0 != k {
        lemma_find_key(c, k, from + 1);
    }
}

/// The counters can take a whole evaluation: a lookup and a new entry.
pub open spec fn evaluation_room(s: CacheStats) -> bool {
    s.hits < u64::MAX && s.misses < u64::MAX - 1 && s.evictions < u64::MAX - 2 && s.total_requests < u64::MAX - 4
}

/// The counters can take one more request of any kind.
pub open spec fn stats_room(s: CacheStats) -> bool {
    s.hits < u64::MAX && s.misses < u64::MAX && s.evictions < u64::MAX - 1 && s.total_requests < u64::MAX - 2
}

fn opt_string_eq(a: &Option<String>, b: &Option<String>) -> (r: bool)
    ensures
        r == (opt_text(*a) == opt_text(*b)),
{
    match (a, b) {
        (Some(x), Some(y)) => str_eq(x.as_str(), y.as_str()),
        (None, None) => true,
        _ => false,
    }
}

fn keys_equal(a: &CacheKey, b: &CacheKey) -> (r: bool)
    ensures
        r == (key_view(*a) == key_view(*b)),
{
    str_eq(a.user_id.as_str(), b.user_id.as_str()) && str_eq(a.action.as_str(), b.action.as_str()) && str_eq(
        a.resource_type.as_str(),
        b.resource_type.as_str(),
    ) && opt_string_eq(&a.resource_id, &b.resource_id) && a.context_hash == b.context_hash
}

fn copy_opt(o: &Option<String>) -> (r: Option<String>)
    ensures
        opt_text(r) == opt_text(*o),
{
    match o {
        Some(s) => Some(s.clone()),
        None => None,
    }
}

fn copy_texts(v: &Vec<String>) -> (r: Vec<String>)
    ensures
        text_views(r@) == text_views(v@),
{
    let mut r: Vec<String> = Vec::new();
    let mut i: usize = 0;
    while i < v.len()
        invariant
            i <= v@.len(),
            text_views(r@) == text_views(v@.take(i as int)),
        decreases v@.len() - i,
    {
        let ghost before = r@;
        r.push(v[i].clone());
        assert(text_views(r@) =~= text_views(before).push(v@[i as int]@));
        assert(text_views(v@.take(i + 1)) =~= text_views(v@.take(i as int)).push(v@[i as int]@));
        i = i + 1;
    }
    assert(v@.take(v@.len() as int) =~= v@);
    r
}

impl CacheEntry {
    /// A copy of the entry.
    pub fn duplicate(&self) -> (r: CacheEntry)
        ensures
            entry_view(r) == entry_view(*self),
            r.created_at_ms == self.created_at_ms,
    {
        CacheEntry {
            decision: self.decision,
            fields: copy_texts(&self.fields),
            filter: copy_pairs(&self.filter),
            expires_at: self.expires_at,
            created_at_ms: self.created_at_ms,
        }
    }

    /// Expired once `now_secs` is past `expires_at`.
    pub fn is_expired_at(&self, now_secs: u64) -> (b: bool)
        ensures
            b == (now_secs > self.expires_at),
    {
        now_secs > self.expires_at
    }

    /// Whether the entry has expired by the clock.
    pub fn is_expired(&self) -> (b: bool)
        ensures
            self.expires_at == u64::MAX ==> !b,
    {
        self.is_expired_at(unix_now_secs())
    }
}

/// The key a request's decision is filed under.
pub fn create_cache_key(input: &OpaInput) -> (k: CacheKey)
    ensures
        key_view(k) == input_key(*input),
{
    let t = input.context.time;
    let time_bytes: Vec<u8> = vec![
        (t & 0xff) as u8,
        ((t >> 8) & 0xff) as u8,
        ((t >> 16) & 0xff) as u8,
        ((t >> 24) & 0xff) as u8,
        ((t >> 32) & 0xff) as u8,
        ((t >> 40) & 0xff) as u8,
        ((t >> 48) & 0xff) as u8,
        ((t >> 56) & 0xff) as u8,
    ];
    let flag: Vec<u8> = vec![if input.context.is_business_hours { 1u8 } else { 0u8 }];
    let risk: Vec<u8> = vec![input.context.risk_score];
    let mut hasher = DefaultHasher::new();
    hasher.write(time_bytes.as_slice());
    hasher.write(flag.as_slice());
    hasher.write(risk.as_slice());
    assert(time_bytes@ =~= le_bytes(t));
    assert(flag@ =~= seq![if input.context.is_business_hours { 1u8 } else { 0u8 }]);
    assert(risk@ =~= seq![input.context.risk_score]);
    assert(hasher@ =~= seq![le_bytes(t), seq![if input.context.is_business_hours { 1u8 } else { 0u8 }], seq![input.context.risk_score]]);
    CacheKey {
        user_id: input.user.id.clone(),
        action: input.action.operation.clone(),
        resource_type: input.resource.resource_type.clone(),
        resource_id: copy_opt(&input.resource.id),
        context_hash: hasher.finish(),
    }
}

fn find_entry(es: &Vec<(CacheKey, CacheEntry)>, k: &CacheKey) -> (r: Option<usize>)
    ensures
        match r {
            Some(i) => find_key(cache_view(es@), key_view(*k), 0) == i as int,
            None => find_key(cache_view(es@), key_view(*k), 0) == -1,
        },
{
    let ghost c = cache_view(es@);
    let mut i: usize = 0;
    while i < es.len()
        invariant
            i <= es@.len(),
            c == cache_view(es@),
            find_key(c, key_view(*k), 0) == find_key(c, key_view(*k), i as int),
        decreases es@.len() - i,
    {
        assert(c[i as int].0 == key_view(es@[i as int].0));
        if keys_equal(&es[i].0, k) {
            return Some(i);
        }
        i = i + 1;
    }
    None
}

/// Decisions by key, oldest first, with counters.
pub struct PolicyCache {
    pub entries: Vec<(CacheKey, CacheEntry)>,
    pub config: CacheConfig,
    pub stats: CacheStats,
}

impl PolicyCache {
    /// An empty cache.
    pub fn new(config: CacheConfig) -> (c: Self)
        ensures
            c.entries@.len() == 0,
            c.config == config,
            c.stats == (CacheStats { hits: 0, misses: 0, evictions: 0, total_requests: 0 }),
    {
        PolicyCache { entries: Vec::new(), config, stats: CacheStats::default() }
    }

    /// The decision cached for the request at `now_secs`: a fresh entry is a
    /// hit; an expired one is dropped (an eviction) and, like a missing one,
    /// is a miss. Each count also counts as a request.
    pub fn get_at(&mut self, input: &OpaInput, now_secs: u64) -> (r: Option<CacheEntry>)
        requires
            stats_room(old(self).stats),
        ensures
            final(self).config == old(self).config,
            ({
                let c = cache_view(old(self).entries@);
                let i = find_key(c, input_key(*input), 0);
                let s = old(self).stats;
                if i >= 0 && now_secs <= c[i].1.expires_at {
                    &&& r matches Some(e) && entry_view(e) == c[i].1
                    &&& cache_view(final(self).entries@) == c
                    &&& final(self).stats == (CacheStats { hits: (s.hits + 1) as u64, total_requests: (s.total_requests + 1) as u64, ..s })
                } else if i >= 0 {
                    &&& r is None
                    &&& cache_view(final(self).entries@) == c.remove(i)
                    &&& final(self).stats == (CacheStats {
                        evictions: (s.evictions + 1) as u64,
                        misses: (s.misses + 1) as u64,
                        total_requests: (s.total_requests + 2) as u64,
                        ..s
                    })
                } else {
                    &&& r is None
                    &&& cache_view(final(self).entries@) == c
                    &&& final(self).stats == (CacheStats { misses: (s.misses + 1) as u64, total_requests: (s.total_requests + 1) as u64, ..s })
                }
            }),
    {
        let key = create_cache_key(input);
        let ghost c = cache_view(self.entries@);
        proof {
            lemma_find_key(c, key_view(key), 0);
        }
        match find_entry(&self.entries, &key) {
            Some(i) => {
                assert(c[i as int].1 == entry_view(self.entries@[i as int].1));
                if !self.entries[i].1.is_expired_at(now_secs) {
                    self.stats.hits = self.stats.hits + 1;
                    self.stats.total_requests = self.stats.total_requests + 1;
                    return Some(self.entries[i].1.duplicate());
                }
                let ghost before = self.entries@;
                self.entries.remove(i);
                assert(cache_view(self.entries@) =~= c.remove(i as int));
                self.stats.evictions = self.stats.evictions + 1;
                self.stats.total_requests = self.stats.total_requests + 1;
            },
            None => {},
        }
        self.stats.misses = self.stats.misses + 1;
        self.stats.total_requests = self.stats.total_requests + 1;
        None
    }

    /// Files a decision for the request. When the cache is full the oldest
    /// entry is dropped first (an eviction, counted as a request); a decision
    /// already filed under the key is replaced in place.
    pub fn set(&mut self, input: &OpaInput, entry: CacheEntry)
        requires
            stats_room(old(self).stats),
        ensures
            final(self).config == old(self).config,
            ({
                let c0 = cache_view(old(self).entries@);
                let full = c0.len() >= old(self).config.max_size && c0.len() > 0;
                let c1 = if full { c0.drop_first() } else { c0 };
                let k = input_key(*input);
                let j = find_key(c1, k, 0);
                let s = old(self).stats;
                &&& cache_view(final(self).entries@) == (if j >= 0 {
                    c1.update(j, (k, entry_view(entry)))
                } else {
                    c1.push((k, entry_view(entry)))
                })
                &&& final(self).stats == (if full {
                    CacheStats { evictions: (s.evictions + 1) as u64, total_requests: (s.total_requests + 1) as u64, ..s }
                } else {
                    s
                })
            }),
    {
        let key = create_cache_key(input);
        let ghost c0 = cache_view(self.entries@);
        if self.entries.len() >= self.config.max_size && self.entries.len() > 0 {
            self.entries.remove(0);
            assert(cache_view(self.entries@) =~= c0.drop_first());
            self.stats.evictions = self.stats.evictions + 1;
            self.stats.total_requests = self.stats.total_requests + 1;
        }
        let ghost c1 = cache_view(self.entries@);
        let ghost ev = entry_view(entry);
        let ghost kv = key_view(key);
        proof {
            lemma_find_key(c1, kv, 0);
        }
        match find_entry(&self.entries, &key) {
            Some(j) => {
                self.entries.set(j, (key, entry));
                assert(cache_view(self.entries@) =~= c1.update(j as int, (kv, ev)));
            },
            None => {
                self.entries.push((key, entry));
                assert(cache_view(self.entries@) =~= c1.push((kv, ev)));
            },
        }
    }

    /// The counters.
    pub fn get_stats(&self) -> (s: CacheStats)
        ensures
            s == self.stats,
    {
        self.stats
    }
}

} // verus!

verus! {

/// Evaluates policies with a decision cache.
pub struct OpaPolicyEngine {
    pub bundle: Option<PolicyBundle>,
    pub cache: PolicyCache,
    pub bundle_service_url: String,
    pub current_revision: String,
}

/// The decision the policies give, apart from the time it took.
pub open spec fn decision_is(d: OpaDecision, i: OpaInput, version: Seq<char>) -> bool {
    &&& d.allow == policy_allows(i)
    &&& d.reason@ == policy_reason(i)
    &&& text_views(d.fields@) == decision_fields(i)
    &&& pair_views(d.filter@) == decision_filter(i)
    &&& d.policy_version@ == version
}

impl OpaPolicyEngine {
    /// An engine for the given bundle service, with no bundle loaded and an
    /// empty cache of the standard size.
    pub fn new(bundle_service_url: &str) -> (e: Self)
        ensures
            e.bundle is None,
            e.cache.entries@.len() == 0,
            e.cache.config == (CacheConfig { max_size: 10000, ttl_secs: 300 }),
            e.cache.stats == (CacheStats { hits: 0, misses: 0, evictions: 0, total_requests: 0 }),
            e.bundle_service_url@ == bundle_service_url@,
            e.current_revision@.len() == 0,
    {
        OpaPolicyEngine {
            bundle: None,
            cache: PolicyCache::new(CacheConfig::default()),
            bundle_service_url: owned(bundle_service_url),
            current_revision: String::new(),
        }
    }

    /// Loads the policy bundle.
    pub fn initialize(&mut self) -> (r: Result<(), OpaError>)
        ensures
            r is Ok,
            final(self).current_revision@ == "v1.0.0"@,
            final(self).bundle matches Some(b) && b.revision@ == "v1.0.0"@,
            final(self).cache == old(self).cache,
            final(self).bundle_service_url == old(self).bundle_service_url,
    {
        self.load_bundle()
    }

    /// What the bundle service reports: revision v1.0.0 under the service's
    /// bundle path.
    pub fn check_for_updates(&self) -> (r: Result<BundleInfo, OpaError>)
        ensures
            r matches Ok(info) && info.revision@ == "v1.0.0"@ && info.download_url@ == self.bundle_service_url@
                + "/bundles/cgas/v1.0.0"@ && info.signature@ == "mock_signature"@ && info.size == 1024,
    {
        Ok(BundleInfo {
            revision: owned("v1.0.0"),
            download_url: cat(self.bundle_service_url.as_str(), "/bundles/cgas/v1.0.0"),
            signature: owned("mock_signature"),
            size: 1024,
        })
    }

    /// The bundle's content.
    pub fn download_bundle(&self, url: &str) -> (r: Result<String, OpaError>)
        ensures
            r matches Ok(data) && data@ == "mock_bundle_data"@,
    {
        Ok(owned("mock_bundle_data"))
    }

    /// Accepts every signature.
    pub fn verify_signature(&self, bundle_data: &str, signature: &str) -> (r: Result<(), OpaError>)
        ensures
            r is Ok,
    {
        Ok(())
    }

    /// The bundle: revision v1.0.0 with the main, RBAC and ABAC policies of package cgas.authz.
    pub fn parse_bundle(&self, bundle_data: &str) -> (r: Result<PolicyBundle, OpaError>)
        ensures
            r matches Ok(b) && b.revision@ == "v1.0.0"@ && pair_views(b.policies@) == seq![
                ("cgas/authz/main.rego"@, "package cgas.authz"@),
                ("cgas/authz/rbac.rego"@, "package cgas.authz"@),
                ("cgas/authz/abac.rego"@, "package cgas.authz"@),
            ] && b.data@.len() == 0 && b.signature is None,
    {
        let policies = vec![
            (owned("cgas/authz/main.rego"), owned("package cgas.authz")),
            (owned("cgas/authz/rbac.rego"), owned("package cgas.authz")),
            (owned("cgas/authz/abac.rego"), owned("package cgas.authz")),
        ];
        assert(pair_views(policies@) =~= seq![
            ("cgas/authz/main.rego"@, "package cgas.authz"@),
            ("cgas/authz/rbac.rego"@, "package cgas.authz"@),
            ("cgas/authz/abac.rego"@, "package cgas.authz"@),
        ]);
        Ok(PolicyBundle {
            revision: owned("v1.0.0"),
            policies,
            data: Vec::new(),
            timestamp_ms: unix_now_millis(),
            signature: None,
        })
    }

    /// Checks for, fetches, verifies and parses the latest bundle, and makes
    /// it current.
    pub fn load_bundle(&mut self) -> (r: Result<(), OpaError>)
        ensures
            r is Ok,
            final(self).current_revision@ == "v1.0.0"@,
            final(self).bundle matches Some(b) && b.revision@ == "v1.0.0"@,
            final(self).cache == old(self).cache,
            final(self).bundle_service_url == old(self).bundle_service_url,
    {
        let info = match self.check_for_updates() {
            Ok(i) => i,
            Err(e) => return Err(e),
        };
        let data = match self.download_bundle(info.download_url.as_str()) {
            Ok(d) => d,
            Err(e) => return Err(e),
        };
        match self.verify_signature(data.as_str(), info.signature.as_str()) {
            Ok(()) => {},
            Err(e) => return Err(e),
        }
        let bundle = match self.parse_bundle(data.as_str()) {
            Ok(b) => b,
            Err(e) => return Err(e),
        };
        self.current_revision = info.revision;
        self.bundle = Some(bundle);
        Ok(())
    }

    /// The revision of the current bundle.
    pub fn get_current_version(&self) -> (v: String)
        ensures
            v@ == self.current_revision@,
    {
        self.current_revision.clone()
    }

    /// The cache counters.
    pub fn get_stats(&self) -> (s: CacheStats)
        ensures
            s == self.cache.stats,
    {
        self.cache.get_stats()
    }

    /// The policies' decision for a request.
    pub fn evaluate_policy(&self, input: &OpaInput) -> (r: Result<OpaDecision, OpaError>)
        ensures
            r matches Ok(d) && decision_is(d, *input, self.current_revision@) && d.latency_us == 0,
    {
        let mut allow = false;
        let mut reason = String::new();
        if check_rbac(input) {
            allow = true;
            reason = owned("rbac_allow");
        }
        if !allow && check_abac(input) {
            allow = true;
            reason = owned("abac_allow");
        }
        if has_role_exec(&input.user.roles, "admin") {
            allow = true;
            reason = owned("admin_override");
        }
        let fields = match &input.requested_fields {
            Some(req) => filter_fields(input, req),
            None => Vec::new(),
        };
        let filter = match input.row_filter_required {
            Some(true) => get_row_filter(input),
            _ => Vec::new(),
        };
        if !allow {
            reason = owned("denied");
        }
        proof {
            assert(text_views(Seq::<String>::empty()) =~= Seq::<Seq<char>>::empty());
            assert(pair_views(Seq::<(String, String)>::empty()) =~= Seq::<(Seq<char>, Seq<char>)>::empty());
        }
        Ok(OpaDecision { allow, reason, fields, filter, policy_version: self.get_current_version(), latency_us: 0 })
    }

    /// The decision for a request at `now_secs`: a fresh cached decision is
    /// answered with reason "cache_hit"; otherwise the request is checked and
    /// evaluated, and the decision is cached until `now_secs` plus the
    /// cache's lifetime.
    pub fn evaluate_at(&mut self, input: OpaInput, now_secs: u64) -> (r: Result<OpaDecision, OpaError>)
        requires
            evaluation_room(old(self).cache.stats),
            now_secs + old(self).cache.config.ttl_secs <= u64::MAX,
        ensures
            final(self).current_revision == old(self).current_revision,
            final(self).cache.config == old(self).cache.config,
            ({
                let c = cache_view(old(self).cache.entries@);
                let i = find_key(c, input_key(input), 0);
                if 0 <= i < c.len() && now_secs <= c[i].1.expires_at {
                    r matches Ok(d) && d.allow == c[i].1.decision && d.reason@ == "cache_hit"@ && text_views(d.fields@)
                        == c[i].1.fields && pair_views(d.filter@) == c[i].1.filter && d.policy_version@
                        == old(self).current_revision@ && cache_view(final(self).cache.entries@) == c
                } else {
                    match input_problem(input) {
                        Some(m) => r matches Err(OpaError::InputValidationFailed(s)) && s@ == m,
                        None => r matches Ok(d) && decision_is(d, input, old(self).current_revision@) && ({
                            let c2 = cache_view(final(self).cache.entries@);
                            let j = find_key(c2, input_key(input), 0);
                            &&& j >= 0
                            &&& c2[j].1 == (EntryView {
                                decision: d.allow,
                                fields: decision_fields(input),
                                filter: decision_filter(input),
                                expires_at: (now_secs + old(self).cache.config.ttl_secs) as u64,
                            })
                        }),
                    }
                }
            }),
    {
        let start = unix_now_micros();
        proof {
            lemma_find_key(cache_view(self.cache.entries@), input_key(input), 0);
        }
        match self.cache.get_at(&input, now_secs) {
            Some(entry) => {
                let latency = unix_now_micros().saturating_sub(start);
                return Ok(OpaDecision {
                    allow: entry.decision,
                    reason: owned("cache_hit"),
                    fields: entry.fields,
                    filter: entry.filter,
                    policy_version: self.get_current_version(),
                    latency_us: latency,
                });
            },
            None => {},
        }
        match validate_input(&input) {
            Ok(()) => {},
            Err(e) => return Err(e),
        }
        let decision = match self.evaluate_policy(&input) {
            Ok(d) => d,
            Err(e) => return Err(e),
        };
        let entry = CacheEntry {
            decision: decision.allow,
            fields: copy_texts(&decision.fields),
            filter: copy_pairs(&decision.filter),
            expires_at: now_secs + self.cache.config.ttl_secs,
            created_at_ms: unix_now_millis(),
        };
        let ghost c1 = cache_view(self.cache.entries@);
        let ghost full = c1.len() >= self.cache.config.max_size && c1.len() > 0;
        let ghost c2 = if full { c1.drop_first() } else { c1 };
        self.cache.set(&input, entry);
        proof {
            let k = input_key(input);
            lemma_find_key(c2, k, 0);
            let j = find_key(c2, k, 0);
            let c3 = cache_view(self.cache.entries@);
            if j >= 0 {
                lemma_find_key(c3, k, 0);
                assert(c3[j].0 == k);
                assert(find_key(c3, k, 0) == j) by {
                    lemma_find_key_prefix(c2, c3, k, 0, j);
                }
            } else {
                lemma_find_key_absent(c2, c3, k, 0);
            }
        }
        let latency = unix_now_micros().saturating_sub(start);
        Ok(OpaDecision { latency_us: latency, ..decision })
    }

    /// The decision for a request now, by the clock (a clock reading so late
    /// that the cache lifetime would pass the largest time is taken as the
    /// latest time that still fits).
    pub fn evaluate(&mut self, input: OpaInput) -> (r: Result<OpaDecision, OpaError>)
        requires
            evaluation_room(old(self).cache.stats),
        ensures
            final(self).current_revision == old(self).current_revision,
            input_problem(input) matches Some(m) ==> (r is Ok || (r matches Err(OpaError::InputValidationFailed(s))
                && s@ == m)),
            input_problem(input) is None ==> (r matches Ok(d) && (d.reason@ == "cache_hit"@ || decision_is(
                d,
                input,
                old(self).current_revision@,
            ))),
    {
        let ttl = self.cache.config.ttl_secs;
        let now = unix_now_secs();
        let now = if now > u64::MAX - ttl { u64::MAX - ttl } else { now };
        self.evaluate_at(input, now)
    }
}

proof fn lemma_find_key_prefix(
    a: Seq<((Seq<char>, Seq<char>, Seq<char>, Option<Seq<char>>, u64), EntryView)>,
    b: Seq<((Seq<char>, Seq<char>, Seq<char>, Option<Seq<char>>, u64), EntryView)>,
    k: (Seq<char>, Seq<char>, Seq<char>, Option<Seq<char>>, u64),
    from: int,
    j: int,
)
    requires
        0 <= from <= j < a.len(),
        a.len() <= b.len(),
        find_key(a, k, from) == j,
        forall|x: int| 0 <= x <= j ==> b[x].0 == a[x].0,
    ensures
        find_key(b, k, from) == j,
    decreases j - from,
{
    if a[from].0 != k {
        lemma_find_key(a, k, from + 1);
        lemma_find_key_prefix(a, b, k, from + 1, j);
    }
}

proof fn lemma_find_key_absent(
    a: Seq<((Seq<char>, Seq<char>, Seq<char>, Option<Seq<char>>, u64), EntryView)>,
    b: Seq<((Seq<char>, Seq<char>, Seq<char>, Option<Seq<char>>, u64), EntryView)>,
    k: (Seq<char>, Seq<char>, Seq<char>, Option<Seq<char>>, u64),
    from: int,
)
    requires
        0 <= from <= a.len(),
        find_key(a, k, from) == -1,
        b.len() == a.len() + 1,
        b[a.len() as int].0 == k,
        forall|x: int| 0 <= x < a.len() ==> b[x].0 == a[x].0,
    ensures
        find_key(b, k, from) == a.len(),
    decreases a.len() - from,
{
    if from < a.len() {
        lemma_find_key_absent(a, b, k, from + 1);
    }
}

} // verus!
