//! Several OIDC providers behind one validator: providers are tried in
//! priority order with failover to the next healthy one, and token
//! validations and key sets are cached.

use vstd::prelude::*;
use crate::clock::unix_now_secs;
use crate::json::{Json, JsonView, json_view};
use crate::security::threat_detection_impl::{lookup, text_views};
use crate::text::{cat, decimal, decimal_string, owned, str_eq};

verus! {

/// Health checking of a provider.
#[derive(Debug, Clone, Copy, PartialEq, Eq, Structural)]
pub struct HealthCheckConfig {
    pub enabled: bool,
    pub interval_secs: u64,
    pub timeout_secs: u64,
    pub failure_threshold: u32,
}

impl Default for HealthCheckConfig {
    /// Checked every 30 s with a 3 s timeout; three failures mark it down.
    fn default() -> (c: Self)
        ensures
            c == (HealthCheckConfig { enabled: true, interval_secs: 30, timeout_secs: 3, failure_threshold: 3 }),
    {
        HealthCheckConfig { enabled: true, interval_secs: 30, timeout_secs: 3, failure_threshold: 3 }
    }
}

/// One identity provider; priority 1 is tried first.
pub struct ProviderConfig {
    pub id: String,
    pub name: String,
    pub issuer: String,
    pub client_id: String,
    pub client_secret: String,
    pub jwks_uri: String,
    pub priority: u8,
    pub weight: u8,
    pub health_check: HealthCheckConfig,
}

/// A provider as plain values.
pub struct ProviderView {
    pub id: Seq<char>,
    pub name: Seq<char>,
    pub issuer: Seq<char>,
    pub client_id: Seq<char>,
    pub client_secret: Seq<char>,
    pub jwks_uri: Seq<char>,
    pub priority: u8,
    pub weight: u8,
    pub health_check: HealthCheckConfig,
}

impl View for ProviderConfig {
    type V = ProviderView;

    open spec fn view(&self) -> ProviderView {
        ProviderView {
            id: self.id@,
            name: self.name@,
            issuer: self.issuer@,
            client_id: self.client_id@,
            client_secret: self.client_secret@,
            jwks_uri: self.jwks_uri@,
            priority: self.priority,
            weight: self.weight,
            health_check: self.health_check,
        }
    }
}

impl ProviderConfig {
    /// A copy of the provider.
    pub fn duplicate(&self) -> (r: ProviderConfig)
        ensures
            r@ == self@,
    {
        ProviderConfig {
            id: self.id.clone(),
            name: self.name.clone(),
            issuer: self.issuer.clone(),
            client_id: self.client_id.clone(),
            client_secret: self.client_secret.clone(),
            jwks_uri: self.jwks_uri.clone(),
            priority: self.priority,
            weight: self.weight,
            health_check: self.health_check,
        }
    }
}

pub open spec fn provider_views(v: Seq<ProviderConfig>) -> Seq<ProviderView> {
    v.map_values(|p: ProviderConfig| p@)
}

/// How a provider is doing; `since_secs` is when it went down.
pub enum ProviderHealth {
    Healthy,
    Degraded { reason: String },
    Unhealthy { reason: String, since_secs: u64 },
}

/// A JSON Web Key.
pub struct Jwk {
    pub kid: String,
    pub kty: String,
    pub alg: String,
    pub use_: String,
    pub n: Option<String>,
    pub e: Option<String>,
    pub x: Option<String>,
    pub y: Option<String>,
    pub crv: Option<String>,
}

/// A provider's key set as cached, with when it was cached and until when
/// it is fresh (seconds since the Unix epoch).
pub struct JwksCacheEntry {
    pub keys: Vec<Jwk>,
    pub cached_at_secs: u64,
    pub expires_at_secs: u64,
    pub provider_id: String,
}

/// What a token says of its user.
pub struct TokenClaims {
    pub sub: String,
    pub email: Option<String>,
    pub name: Option<String>,
    pub roles: Vec<String>,
    pub permissions: Vec<String>,
    pub attributes: Vec<(String, Json)>,
}

/// A cached token, valid until `expires_at` (seconds since the Unix epoch).
pub struct TokenCacheEntry {
    pub jti: String,
    pub sub: String,
    pub valid: bool,
    pub claims: TokenClaims,
    pub expires_at: u64,
    pub cached_at_secs: u64,
    pub provider_id: String,
    pub refresh_token: Option<String>,
}

/// Where a validation was answered.
#[derive(Debug, Clone, Copy, PartialEq, Eq, Structural)]
pub enum ValidationSource {
    L1Cache,
    L2Cache,
    Provider,
}

/// The outcome of validating a token.
pub struct TokenValidationResult {
    pub is_valid: bool,
    pub claims: Option<TokenClaims>,
    pub error: Option<String>,
    pub latency_us: u64,
    pub source: ValidationSource,
}

/// Counters of the token cache.
#[derive(Debug, Clone, Copy, PartialEq, Eq, Structural)]
pub struct CacheStats {
    pub l1_hits: u64,
    pub l2_hits: u64,
    pub misses: u64,
    pub total_requests: u64,
}

impl Default for CacheStats {
    /// All counters at zero.
    fn default() -> (s: Self)
        ensures
            s == (CacheStats { l1_hits: 0, l2_hits: 0, misses: 0, total_requests: 0 }),
    {
        CacheStats { l1_hits: 0, l2_hits: 0, misses: 0, total_requests: 0 }
    }
}

impl CacheStats {
    /// Cache hits per counted request, in hundredths of a percent, rounded down; 0 before any request.
    pub fn hit_rate_hundredths_percent(&self) -> (r: u128)
        ensures
            r == (if self.total_requests == 0 {
                0
            } else {
                ((self.l1_hits + self.l2_hits) * 10000) / (self.total_requests as int)
            }),
    {
        if self.total_requests == 0 {
            0
        } else {
            (self.l1_hits as u128 + self.l2_hits as u128) * 10000 / self.total_requests as u128
        }
    }
}

/// Sizes and lifetimes of the caches, in seconds.
#[derive(Debug, Clone, Copy, PartialEq, Eq, Structural)]
pub struct CacheConfig {
    pub l1_max_size: usize,
    pub l1_ttl_secs: u64,
    pub l2_ttl_secs: u64,
    pub refresh_threshold_secs: u64,
    pub jwks_ttl_secs: u64,
}

impl Default for CacheConfig {
    /// 10000 tokens for five minutes locally, an hour in the shared cache,
    /// refresh a minute before expiry, key sets kept an hour.
    fn default() -> (c: Self)
        ensures
            c == (CacheConfig {
                l1_max_size: 10000,
                l1_ttl_secs: 300,
                l2_ttl_secs: 3600,
                refresh_threshold_secs: 60,
                jwks_ttl_secs: 3600,
            }),
    {
        CacheConfig { l1_max_size: 10000, l1_ttl_secs: 300, l2_ttl_secs: 3600, refresh_threshold_secs: 60, jwks_ttl_secs: 3600 }
    }
}

/// What went wrong with the providers.
pub enum OidcProviderError {
    NoHealthyProvider,
    ProviderRequestFailed(String),
    InvalidToken(String),
    SignatureVerificationFailed(String),
    JwksLoadFailed(String),
    TokenExpired,
    CacheError(String),
    ConfigError(String),
}

impl OidcProviderError {
    /// The error's message.
    pub fn message(&self) -> (m: String)
        ensures
            m@ == (match self {
                OidcProviderError::NoHealthyProvider => "无健康 Provider 可用"@,
                OidcProviderError::ProviderRequestFailed(s) => "Provider 请求失败："@ + s@,
                OidcProviderError::InvalidToken(s) => "Token 无效："@ + s@,
                OidcProviderError::SignatureVerificationFailed(s) => "签名验证失败："@ + s@,
                OidcProviderError::JwksLoadFailed(s) => "JWKS 加载失败："@ + s@,
                OidcProviderError::TokenExpired => "Token 已过期"@,
                OidcProviderError::CacheError(s) => "缓存错误："@ + s@,
                OidcProviderError::ConfigError(s) => "配置错误："@ + s@,
            }),
    {
        match self {
            OidcProviderError::NoHealthyProvider => owned("无健康 Provider 可用"),
            OidcProviderError::ProviderRequestFailed(s) => cat("Provider 请求失败：", s.as_str()),
            OidcProviderError::InvalidToken(s) => cat("Token 无效：", s.as_str()),
            OidcProviderError::SignatureVerificationFailed(s) => cat("签名验证失败：", s.as_str()),
            OidcProviderError::JwksLoadFailed(s) => cat("JWKS 加载失败：", s.as_str()),
            OidcProviderError::TokenExpired => owned("Token 已过期"),
            OidcProviderError::CacheError(s) => cat("缓存错误：", s.as_str()),
            OidcProviderError::ConfigError(s) => cat("配置错误：", s.as_str()),
        }
    }
}

/// The providers with priority `p`, in their original order.
pub open spec fn with_priority(s: Seq<ProviderView>, p: int) -> Seq<ProviderView>
    decreases s.len(),
{
    if s.len() == 0 {
        Seq::empty()
    } else if s.last().priority == p {
        with_priority(s.drop_last(), p).push(s.last())
    } else {
        with_priority(s.drop_last(), p)
    }
}

/// The providers with priority below `n`, lowest priority number first and
/// in their original order among equals.
pub open spec fn by_priority_below(s: Seq<ProviderView>, n: int) -> Seq<ProviderView>
    decreases n,
{
    if n <= 0 {
        Seq::empty()
    } else {
        by_priority_below(s, n - 1) + with_priority(s, n - 1)
    }
}

/// The providers ordered by priority, a stable sort.
pub open spec fn by_priority(s: Seq<ProviderView>) -> Seq<ProviderView> {
    by_priority_below(s, 256)
}

/// Sorts providers by priority, keeping the given order among equal priorities.
pub fn sort_by_priority(providers: &Vec<ProviderConfig>) -> (r: Vec<ProviderConfig>)
    ensures
        provider_views(r@) == by_priority(provider_views(providers@)),
{
    let ghost pv = provider_views(providers@);
    let mut out: Vec<ProviderConfig> = Vec::new();
    let mut p: u16 = 0;
    while p < 256
        invariant
            p <= 256,
            pv == provider_views(providers@),
            provider_views(out@) == by_priority_below(pv, p as int),
        decreases 256 - p,
    {
        let ghost base = out@;
        let mut i: usize = 0;
        while i < providers.len()
            invariant
                p < 256,
                i <= providers@.len(),
                pv == provider_views(providers@),
                provider_views(base) == by_priority_below(pv, p as int),
                provider_views(out@) == provider_views(base) + with_priority(pv.take(i as int), p as int),
            decreases providers@.len() - i,
        {
            proof {
                assert(pv.take(i + 1).drop_last() =~= pv.take(i as int));
                assert(pv.take(i + 1).last() == providers@[i as int]@);
            }
            if providers[i].priority as u16 == p {
                let ghost before = out@;
                out.push(providers[i].duplicate());
                assert(provider_views(out@) =~= provider_views(before).push(providers@[i as int]@));
            }
            i = i + 1;
        }
        assert(pv.take(providers@.len() as int) =~= pv);
        p = p + 1;
    }
    out
}

} // verus!

verus! {

pub open spec fn opt_view(o: Option<String>) -> Option<Seq<char>> {
    match o {
        Some(s) => Some(s@),
        None => None,
    }
}

pub open spec fn attribute_views(a: Seq<(String, Json)>) -> Seq<(Seq<char>, JsonView)> {
    a.map_values(|p: (String, Json)| (p.0@, json_view(p.1)))
}

/// Claims as plain values.
pub open spec fn claims_view(c: TokenClaims) -> (
    Seq<char>,
    Option<Seq<char>>,
    Option<Seq<char>>,
    Seq<Seq<char>>,
    Seq<Seq<char>>,
    Seq<(Seq<char>, JsonView)>,
) {
    (c.sub@, opt_view(c.email), opt_view(c.name), text_views(c.roles@), text_views(c.permissions@), attribute_views(c.attributes@))
}

/// The claims a provider reports for every token: user_123, a developer
/// allowed to execute batches.
pub open spec fn standard_claims() -> (
    Seq<char>,
    Option<Seq<char>>,
    Option<Seq<char>>,
    Seq<Seq<char>>,
    Seq<Seq<char>>,
    Seq<(Seq<char>, JsonView)>,
) {
    ("user_123"@, Some("user@example.com"@), Some("Test User"@), seq!["developer"@], seq!["batch:execute"@], Seq::empty())
}

fn copy_opt(o: &Option<String>) -> (r: Option<String>)
    ensures
        opt_view(r) == opt_view(*o),
{
    match o {
        Some(s) => Some(s.clone()),
        None => None,
    }
}

fn copy_texts(v: &Vec<String>) -> (r: Vec<String>)
    ensures
        text_views(r@) == text_views(v@),
{
    let mut r: Vec<String> = Vec::new();
    let mut i: usize = 0;
    while i < v.len()
        invariant
            i <= v@.len(),
            text_views(r@) == text_views(v@.take(i as int)),
        decreases v@.len() - i,
    {
        let ghost before = r@;
        r.push(v[i].clone());
        assert(text_views(r@) =~= text_views(before).push(v@[i as int]@));
        assert(text_views(v@.take(i + 1)) =~= text_views(v@.take(i as int)).push(v@[i as int]@));
        i = i + 1;
    }
    assert(v@.take(v@.len() as int) =~= v@);
    r
}

fn copy_attributes(v: &Vec<(String, Json)>) -> (r: Vec<(String, Json)>)
    ensures
        attribute_views(r@) == attribute_views(v@),
{
    let mut r: Vec<(String, Json)> = Vec::new();
    let mut i: usize = 0;
    while i < v.len()
        invariant
            i <= v@.len(),
            attribute_views(r@) == attribute_views(v@.take(i as int)),
        decreases v@.len() - i,
    {
        let ghost before = r@;
        r.push((v[i].0.clone(), v[i].1.duplicate()));
        assert(attribute_views(r@) =~= attribute_views(before).push((v@[i as int].0@, json_view(v@[i as int].1))));
        assert(attribute_views(v@.take(i + 1)) =~= attribute_views(v@.take(i as int)).push(
            (v@[i as int].0@, json_view(v@[i as int].1)),
        ));
        i = i + 1;
    }
    assert(v@.take(v@.len() as int) =~= v@);
    r
}

impl TokenClaims {
    /// A copy of the claims.
    pub fn duplicate(&self) -> (r: TokenClaims)
        ensures
            claims_view(r) == claims_view(*self),
    {
        TokenClaims {
            sub: self.sub.clone(),
            email: copy_opt(&self.email),
            name: copy_opt(&self.name),
            roles: copy_texts(&self.roles),
            permissions: copy_texts(&self.permissions),
            attributes: copy_attributes(&self.attributes),
        }
    }
}

fn standard_claims_value() -> (c: TokenClaims)
    ensures
        claims_view(c) == standard_claims(),
{
    let roles = vec![owned("developer")];
    let permissions = vec![owned("batch:execute")];
    let attributes: Vec<(String, Json)> = Vec::new();
    assert(text_views(roles@) =~= seq!["developer"@]);
    assert(text_views(permissions@) =~= seq!["batch:execute"@]);
    assert(attribute_views(attributes@) =~= Seq::<(Seq<char>, JsonView)>::empty());
    TokenClaims {
        sub: owned("user_123"),
        email: Some(owned("user@example.com")),
        name: Some(owned("Test User")),
        roles,
        permissions,
        attributes,
    }
}

/// The key a provider publishes: an RSA signing key named after it.
pub open spec fn is_provider_key(k: Jwk, provider_id: Seq<char>) -> bool {
    &&& k.kid@ == "key-"@ + provider_id
    &&& k.kty@ == "RSA"@
    &&& k.alg@ == "RS256"@
    &&& k.use_@ == "sig"@
    &&& opt_view(k.n) == Some("mock_modulus"@)
    &&& opt_view(k.e) == Some("AQAB"@)
    &&& k.x is None && k.y is None && k.crv is None
}

fn provider_key(provider_id: &str) -> (k: Jwk)
    ensures
        is_provider_key(k, provider_id@),
{
    Jwk {
        kid: cat("key-", provider_id),
        kty: owned("RSA"),
        alg: owned("RS256"),
        use_: owned("sig"),
        n: Some(owned("mock_modulus")),
        e: Some(owned("AQAB")),
        x: None,
        y: None,
        crv: None,
    }
}

/// Whether each provider id is marked healthy, by the first mark under it.
pub open spec fn health_flags(h: Seq<(String, ProviderHealth)>) -> Seq<(Seq<char>, bool)> {
    h.map_values(|p: (String, ProviderHealth)| (p.0@, p.1 is Healthy))
}

/// The provider at `idx` exists and is marked healthy.
pub open spec fn healthy_at(ps: Seq<ProviderView>, h: Seq<(Seq<char>, bool)>, idx: int) -> bool {
    0 <= idx < ps.len() && lookup(h, ps[idx].id) == Some(true)
}

/// The first healthy provider after `cur`, going round, trying `i` and on.
pub open spec fn failover_from(ps: Seq<ProviderView>, h: Seq<(Seq<char>, bool)>, cur: int, i: int) -> Option<int>
    decreases ps.len() - i,
{
    if i < 0 || i >= ps.len() {
        None
    } else if healthy_at(ps, h, (cur + i + 1) % (ps.len() as int)) {
        Some((cur + i + 1) % (ps.len() as int))
    } else {
        failover_from(ps, h, cur, i + 1)
    }
}

/// The provider to use: the current one when healthy, else the next
/// healthy one after it.
pub open spec fn chosen_provider(ps: Seq<ProviderView>, h: Seq<(Seq<char>, bool)>, cur: int) -> Option<int> {
    if healthy_at(ps, h, cur) {
        Some(cur)
    } else {
        failover_from(ps, h, cur, 0)
    }
}

proof fn lemma_failover_bounds(ps: Seq<ProviderView>, h: Seq<(Seq<char>, bool)>, cur: int, i: int)
    requires
        0 <= i,
    ensures
        failover_from(ps, h, cur, i) matches Some(x) ==> healthy_at(ps, h, x),
    decreases ps.len() - i,
{
    if i < ps.len() && !healthy_at(ps, h, (cur + i + 1) % (ps.len() as int)) {
        lemma_failover_bounds(ps, h, cur, i + 1);
    }
}

/// The token id used as cache key: "jti_" and the token's length in bytes.
pub open spec fn jti_of(token: Seq<char>) -> Seq<char> {
    "jti_"@ + decimal(vstd::utf8::encode_utf8(token).len())
}

/// The number of the first cached token with id `jti`, at or after `from`, or -1.
pub open spec fn find_token(c: Seq<TokenCacheEntry>, jti: Seq<char>, from: int) -> int
    decreases c.len() - from,
{
    if from < 0 || from >= c.len() {
        -1
    } else if c[from].jti@ == jti {
        from
    } else {
        find_token(c, jti, from + 1)
    }
}

proof fn lemma_find_token(c: Seq<TokenCacheEntry>, jti: Seq<char>, from: int)
    requires
        0 <= from,
    ensures
        find_token(c, jti, from) == -1 || (from <= find_token(c, jti, from) < c.len() && c[find_token(
            c,
            jti,
            from,
        )].jti@ == jti),
    decreases c.len() - from,
{
    if from < c.len() && c[from].jti@ != jti {
        lemma_find_token(c, jti, from + 1);
    }
}

fn token_position(c: &Vec<TokenCacheEntry>, jti: &str) -> (r: Option<usize>)
    ensures
        match r {
            Some(i) => find_token(c@, jti@, 0) == i as int,
            None => find_token(c@, jti@, 0) == -1,
        },
{
    let mut i: usize = 0;
    while i < c.len()
        invariant
            i <= c@.len(),
            find_token(c@, jti@, 0) == find_token(c@, jti@, i as int),
        decreases c@.len() - i,
    {
        if str_eq(c[i].jti.as_str(), jti) {
            return Some(i);
        }
        i = i + 1;
    }
    None
}

/// Counters can take one more validation.
pub open spec fn validation_room(s: CacheStats) -> bool {
    s.l1_hits < u64::MAX && s.misses < u64::MAX && s.total_requests < u64::MAX - 2
}

} // verus!

verus! {

proof fn lemma_find_token_replaced(c: Seq<TokenCacheEntry>, j: int, e: TokenCacheEntry, from: int)
    requires
        0 <= from <= j < c.len(),
        find_token(c, e.jti@, from) == j,
    ensures
        find_token(c.update(j, e), e.jti@, from) == j,
    decreases j - from,
{
    if from < j {
        lemma_find_token(c, e.jti@, from + 1);
        lemma_find_token_replaced(c, j, e, from + 1);
    }
}

proof fn lemma_find_token_pushed(c: Seq<TokenCacheEntry>, e: TokenCacheEntry, from: int)
    requires
        0 <= from <= c.len(),
        find_token(c, e.jti@, from) == -1,
    ensures
        find_token(c.push(e), e.jti@, from) == c.len(),
    decreases c.len() - from,
{
    if from < c.len() {
        lemma_find_token_pushed(c, e, from + 1);
    }
}

/// Puts a token in the cache, replacing the first one with the same id.
fn put_token(cache: &mut Vec<TokenCacheEntry>, e: TokenCacheEntry)
    ensures
        ({
            let j = find_token(final(cache)@, e.jti@, 0);
            0 <= j < final(cache)@.len() && final(cache)@[j] == e
        }),
{
    let ghost c0 = cache@;
    let ghost ev = e;
    proof {
        lemma_find_token(c0, e.jti@, 0);
    }
    match token_position(cache, e.jti.as_str()) {
        Some(j) => {
            cache.set(j, e);
            proof {
                lemma_find_token_replaced(c0, j as int, ev, 0);
            }
        },
        None => {
            cache.push(e);
            proof {
                lemma_find_token_pushed(c0, ev, 0);
            }
        },
    }
}

fn copy_keys(v: &Vec<Jwk>, Ghost(id): Ghost<Seq<char>>) -> (r: Vec<Jwk>)
    requires
        forall|i: int| 0 <= i < v@.len() ==> is_provider_key(#[trigger] v@[i], id),
    ensures
        r@.len() == v@.len(),
        forall|i: int| 0 <= i < r@.len() ==> is_provider_key(#[trigger] r@[i], id),
{
    let mut r: Vec<Jwk> = Vec::new();
    let mut i: usize = 0;
    while i < v.len()
        invariant
            i <= v@.len(),
            r@.len() == i,
            forall|x: int| 0 <= x < v@.len() ==> is_provider_key(#[trigger] v@[x], id),
            forall|x: int| 0 <= x < r@.len() ==> is_provider_key(#[trigger] r@[x], id),
        decreases v@.len() - i,
    {
        let k = &v[i];
        assert(is_provider_key(v@[i as int], id));
        r.push(
            Jwk {
                kid: k.kid.clone(),
                kty: k.kty.clone(),
                alg: k.alg.clone(),
                use_: k.use_.clone(),
                n: copy_opt(&k.n),
                e: copy_opt(&k.e),
                x: copy_opt(&k.x),
                y: copy_opt(&k.y),
                crv: copy_opt(&k.crv),
            },
        );
        i = i + 1;
    }
    r
}

/// Validates tokens against several providers with failover and caching.
pub struct OidcMultiProviderManager {
    pub providers: Vec<ProviderConfig>,
    pub current_index: usize,
    pub health_status: Vec<(String, ProviderHealth)>,
    pub jwks_cache: Vec<(String, JwksCacheEntry)>,
    pub token_cache: Vec<TokenCacheEntry>,
    pub cache_config: CacheConfig,
    pub stats: CacheStats,
}

/// The provider whose id is `id`, the first such, or -1.
pub open spec fn provider_index(ps: Seq<ProviderView>, id: Seq<char>, from: int) -> int
    decreases ps.len() - from,
{
    if from < 0 || from >= ps.len() {
        -1
    } else if ps[from].id == id {
        from
    } else {
        provider_index(ps, id, from + 1)
    }
}

impl OidcMultiProviderManager {
    /// The current index names a provider (or is 0), and every cached key
    /// set is the key of the provider it is filed under.
    pub open spec fn wf(&self) -> bool {
        &&& (self.current_index == 0 || self.current_index < self.providers@.len())
        &&& forall|i: int|
            0 <= i < self.jwks_cache@.len() ==> (#[trigger] self.jwks_cache@[i]).1.keys@.len() == 1 && is_provider_key(
                self.jwks_cache@[i].1.keys@[0],
                self.jwks_cache@[i].0@,
            )
    }

    /// A manager over the providers, sorted by priority, starting with the
    /// first; nothing is cached or marked healthy yet.
    pub fn new(providers: Vec<ProviderConfig>) -> (m: Self)
        ensures
            m.wf(),
            provider_views(m.providers@) == by_priority(provider_views(providers@)),
            m.current_index == 0,
            m.health_status@.len() == 0,
            m.jwks_cache@.len() == 0,
            m.token_cache@.len() == 0,
            m.cache_config == (CacheConfig {
                l1_max_size: 10000,
                l1_ttl_secs: 300,
                l2_ttl_secs: 3600,
                refresh_threshold_secs: 60,
                jwks_ttl_secs: 3600,
            }),
            m.stats == (CacheStats { l1_hits: 0, l2_hits: 0, misses: 0, total_requests: 0 }),
    {
        let sorted = sort_by_priority(&providers);
        OidcMultiProviderManager {
            providers: sorted,
            current_index: 0,
            health_status: Vec::new(),
            jwks_cache: Vec::new(),
            token_cache: Vec::new(),
            cache_config: CacheConfig::default(),
            stats: CacheStats::default(),
        }
    }

    /// Marks a provider's health, replacing its earlier mark.
    pub fn update_provider_health(&mut self, provider_id: &str, health: ProviderHealth)
        requires
            old(self).wf(),
        ensures
            final(self).wf(),
            lookup(health_flags(final(self).health_status@), provider_id@) == Some(health is Healthy),
            forall|k: Seq<char>|
                k != provider_id@ ==> #[trigger] lookup(health_flags(final(self).health_status@), k) == lookup(
                    health_flags(old(self).health_status@),
                    k,
                ),
            final(self).providers == old(self).providers,
            final(self).current_index == old(self).current_index,
            final(self).token_cache@ == old(self).token_cache@,
            final(self).stats == old(self).stats,
            final(self).cache_config == old(self).cache_config,
    {
        let ghost h0 = health_flags(self.health_status@);
        let ghost flag = health is Healthy;
        let mut i: usize = 0;
        while i < self.health_status.len()
            invariant
                i <= self.health_status@.len(),
                h0 == health_flags(self.health_status@),
                flag == (health is Healthy),
                forall|j: int| 0 <= j < i ==> h0[j].0 != provider_id@,
                self.wf(),
                self.providers == old(self).providers,
                self.current_index == old(self).current_index,
                self.token_cache@ == old(self).token_cache@,
                self.stats == old(self).stats,
                self.cache_config == old(self).cache_config,
                self.health_status@ == old(self).health_status@,
            decreases self.health_status@.len() - i,
        {
            if str_eq(self.health_status[i].0.as_str(), provider_id) {
                let entry = (owned(provider_id), health);
                let ghost ev = entry;
                let ghost hs = self.health_status@;
                self.health_status.set(i, entry);
                proof {
                    let h1 = health_flags(self.health_status@);
                    assert(self.health_status@ == hs.update(i as int, ev));
                    assert(ev.0@ == provider_id@ && (ev.1 is Healthy) == flag);
                    assert(h1 =~= h0.update(i as int, (provider_id@, flag)));
                    lemma_lookup_update_first(h0, i as int, provider_id@, flag);
                }
                return;
            }
            i = i + 1;
        }
        let entry = (owned(provider_id), health);
        let ghost ev = entry;
        self.health_status.push(entry);
        proof {
            assert(ev.0@ == provider_id@ && (ev.1 is Healthy) == flag);
            let h1 = health_flags(self.health_status@);
            assert(h1 =~= h0.push((provider_id@, flag)));
            lemma_lookup_push_absent(h0, provider_id@, flag);
        }
    }
}

proof fn lemma_lookup_update_first(h: Seq<(Seq<char>, bool)>, i: int, k: Seq<char>, v: bool)
    requires
        0 <= i < h.len(),
        h[i].0 == k,
        forall|j: int| 0 <= j < i ==> h[j].0 != k,
    ensures
        lookup(h.update(i, (k, v)), k) == Some(v),
        forall|x: Seq<char>| x != k ==> #[trigger] lookup(h.update(i, (k, v)), x) == lookup(h, x),
    decreases h.len(),
{
    let u = h.update(i, (k, v));
    if i == 0 {
        assert(u.drop_first() =~= h.drop_first());
        assert forall|x: Seq<char>| x != k implies #[trigger] lookup(u, x) == lookup(h, x) by {
            assert(u[0].0 == k && h[0].0 == k);
        }
    } else {
        assert(u.drop_first() =~= h.drop_first().update(i - 1, (k, v)));
        lemma_lookup_update_first(h.drop_first(), i - 1, k, v);
        assert(h[0].0 != k);
        assert forall|x: Seq<char>| x != k implies #[trigger] lookup(u, x) == lookup(h, x) by {
            assert(u[0] == h[0]);
            assert(lookup(h.drop_first().update(i - 1, (k, v)), x) == lookup(h.drop_first(), x));
        }
    }
}

proof fn lemma_lookup_push_absent(h: Seq<(Seq<char>, bool)>, k: Seq<char>, v: bool)
    requires
        forall|j: int| 0 <= j < h.len() ==> h[j].0 != k,
    ensures
        lookup(h.push((k, v)), k) == Some(v),
        forall|x: Seq<char>| x != k ==> #[trigger] lookup(h.push((k, v)), x) == lookup(h, x),
    decreases h.len(),
{
    let p = h.push((k, v));
    if h.len() > 0 {
        assert(p.drop_first() =~= h.drop_first().push((k, v)));
        lemma_lookup_push_absent(h.drop_first(), k, v);
        assert(h[0].0 != k);
        assert forall|x: Seq<char>| x != k implies #[trigger] lookup(p, x) == lookup(h, x) by {
            assert(p[0] == h[0]);
            assert(lookup(h.drop_first().push((k, v)), x) == lookup(h.drop_first(), x));
        }
    } else {
        assert(p.drop_first() =~= Seq::<(Seq<char>, bool)>::empty());
        assert forall|x: Seq<char>| x != k implies #[trigger] lookup(p, x) == lookup(h, x) by {
            assert(p[0].0 == k);
            assert(lookup(p.drop_first(), x) is None);
        }
    }
}

} // verus!

verus! {

fn provider_position(ps: &Vec<ProviderConfig>, id: &str) -> (r: Option<usize>)
    ensures
        match r {
            Some(i) => provider_index(provider_views(ps@), id@, 0) == i as int && i < ps@.len(),
            None => provider_index(provider_views(ps@), id@, 0) == -1,
        },
{
    let ghost pv = provider_views(ps@);
    let mut i: usize = 0;
    while i < ps.len()
        invariant
            i <= ps@.len(),
            pv == provider_views(ps@),
            provider_index(pv, id@, 0) == provider_index(pv, id@, i as int),
        decreases ps@.len() - i,
    {
        assert(pv[i as int].id == ps@[i as int].id@);
        if str_eq(ps[i].id.as_str(), id) {
            return Some(i);
        }
        i = i + 1;
    }
    None
}

proof fn lemma_provider_index_found(ps: Seq<ProviderView>, id: Seq<char>, from: int, i: int)
    requires
        0 <= from <= i < ps.len(),
        ps[i].id == id,
    ensures
        provider_index(ps, id, from) != -1,
    decreases i - from,
{
    if ps[from].id != id {
        lemma_provider_index_found(ps, id, from + 1, i);
    }
}

fn health_of(h: &Vec<(String, ProviderHealth)>, id: &str) -> (r: bool)
    ensures
        r == (lookup(health_flags(h@), id@) == Some(true)),
{
    let ghost hv = health_flags(h@);
    assert(hv.subrange(0, hv.len() as int) =~= hv);
    let mut i: usize = 0;
    while i < h.len()
        invariant
            i <= h@.len(),
            hv == health_flags(h@),
            lookup(hv, id@) == lookup(hv.subrange(i as int, hv.len() as int), id@),
        decreases h@.len() - i,
    {
        if str_eq(h[i].0.as_str(), id) {
            assert(hv.subrange(i as int, hv.len() as int)[0] == hv[i as int]);
            return match h[i].1 {
                ProviderHealth::Healthy => true,
                _ => false,
            };
        }
        assert(hv.subrange(i as int, hv.len() as int).drop_first() =~= hv.subrange(i + 1, hv.len() as int));
        i = i + 1;
    }
    assert(hv.subrange(i as int, hv.len() as int).len() == 0);
    false
}

impl OidcMultiProviderManager {
    fn is_provider_healthy(&self, index: usize) -> (r: bool)
        ensures
            r == healthy_at(provider_views(self.providers@), health_flags(self.health_status@), index as int),
    {
        if index < self.providers.len() {
            health_of(&self.health_status, self.providers[index].id.as_str())
        } else {
            false
        }
    }

    /// The provider to use: the current one when healthy, else the next
    /// healthy one after it, which becomes current.
    fn select_healthy_provider(&mut self) -> (r: Option<usize>)
        requires
            old(self).wf(),
        ensures
            final(self).wf(),
            r matches Some(x) ==> chosen_provider(
                provider_views(old(self).providers@),
                health_flags(old(self).health_status@),
                old(self).current_index as int,
            ) == Some(x as int),
            r is None ==> chosen_provider(
                provider_views(old(self).providers@),
                health_flags(old(self).health_status@),
                old(self).current_index as int,
            ) is None,
            r matches Some(x) ==> x < old(self).providers@.len(),
            final(self).current_index == (match r {
                Some(x) => x,
                None => old(self).current_index,
            }),
            final(self).providers == old(self).providers,
            final(self).health_status == old(self).health_status,
            final(self).jwks_cache == old(self).jwks_cache,
            final(self).token_cache == old(self).token_cache,
            final(self).stats == old(self).stats,
            final(self).cache_config == old(self).cache_config,
    {
        let ghost ps = provider_views(self.providers@);
        let ghost hf = health_flags(self.health_status@);
        let cur = self.current_index;
        if self.is_provider_healthy(cur) {
            return Some(cur);
        }
        let n = self.providers.len();
        let mut i: usize = 0;
        while i < n
            invariant
                n == ps.len(),
                i <= n,
                cur == old(self).current_index,
                cur == 0 || cur < n,
                ps == provider_views(self.providers@),
                hf == health_flags(self.health_status@),
                *self == *old(self),
                self.wf(),
                !healthy_at(ps, hf, cur as int),
                failover_from(ps, hf, cur as int, 0) == failover_from(ps, hf, cur as int, i as int),
            decreases n - i,
        {
            let a = n - cur;
            let idx = if i + 1 < a { cur + i + 1 } else { i + 1 - a };
            assert(idx as int == (cur + i + 1) % (n as int) && idx < n) by (nonlinear_arith)
                requires
                    cur < n || (cur == 0 && 0 < n),
                    i < n,
                    a == n - cur,
                    idx == (if i + 1 < a { cur + i + 1 } else { i + 1 - a }),
            {
                if i + 1 < a {
                    assert(cur + i + 1 < n);
                } else {
                    assert(n <= cur + i + 1 < 2 * n);
                }
            }
            if self.is_provider_healthy(idx) {
                self.current_index = idx;
                return Some(idx);
            }
            i = i + 1;
        }
        None
    }

    /// Fetches a provider's key set and caches it until `now_secs` plus the
    /// key-set lifetime; a provider not configured is an error.
    fn load_jwks(&mut self, provider_id: &str, now_secs: u64) -> (r: Result<Vec<Jwk>, OidcProviderError>)
        requires
            old(self).wf(),
            now_secs + old(self).cache_config.jwks_ttl_secs <= u64::MAX,
        ensures
            final(self).wf(),
            final(self).providers == old(self).providers,
            final(self).current_index == old(self).current_index,
            final(self).health_status == old(self).health_status,
            final(self).token_cache == old(self).token_cache,
            final(self).stats == old(self).stats,
            final(self).cache_config == old(self).cache_config,
            provider_index(provider_views(old(self).providers@), provider_id@, 0) == -1 ==> (r matches Err(
                OidcProviderError::ConfigError(m),
            ) && m@ == "Provider not found: "@ + provider_id@),
            provider_index(provider_views(old(self).providers@), provider_id@, 0) != -1 ==> (r matches Ok(keys)
                && keys@.len() == 1 && is_provider_key(keys@[0], provider_id@)),
    {
        match provider_position(&self.providers, provider_id) {
            None => {
                return Err(OidcProviderError::ConfigError(cat("Provider not found: ", provider_id)));
            },
            Some(_) => {},
        }
        let keys = vec![provider_key(provider_id)];
        let cached = vec![provider_key(provider_id)];
        let entry = JwksCacheEntry {
            keys: cached,
            cached_at_secs: now_secs,
            expires_at_secs: now_secs + self.cache_config.jwks_ttl_secs,
            provider_id: owned(provider_id),
        };
        let mut i: usize = 0;
        let mut placed = false;
        let ghost c0 = self.jwks_cache@;
        while i < self.jwks_cache.len()
            invariant
                i <= self.jwks_cache@.len(),
                self.jwks_cache@ == c0,
                *self == *old(self),
                forall|j: int| 0 <= j < i ==> self.jwks_cache@[j].0@ != provider_id@,
            decreases self.jwks_cache@.len() - i,
        {
            if str_eq(self.jwks_cache[i].0.as_str(), provider_id) {
                break;
            }
            i = i + 1;
        }
        let ghost pair_ok = entry.keys@.len() == 1 && is_provider_key(entry.keys@[0], provider_id@);
        assert(pair_ok);
        let name = owned(provider_id);
        if i < self.jwks_cache.len() {
            self.jwks_cache.set(i, (name, entry));
        } else {
            self.jwks_cache.push((name, entry));
        }
        Ok(keys)
    }

    /// A provider's key set: the cached one while fresh, else loaded anew.
    pub fn get_jwks(&mut self, provider_id: &str, now_secs: u64) -> (r: Result<Vec<Jwk>, OidcProviderError>)
        requires
            old(self).wf(),
            now_secs + old(self).cache_config.jwks_ttl_secs <= u64::MAX,
        ensures
            final(self).wf(),
            final(self).providers == old(self).providers,
            final(self).current_index == old(self).current_index,
            final(self).health_status == old(self).health_status,
            final(self).token_cache == old(self).token_cache,
            final(self).stats == old(self).stats,
            final(self).cache_config == old(self).cache_config,
            r matches Ok(keys) ==> keys@.len() == 1 && is_provider_key(keys@[0], provider_id@),
            provider_index(provider_views(old(self).providers@), provider_id@, 0) != -1 ==> r is Ok,
    {
        let mut i: usize = 0;
        while i < self.jwks_cache.len()
            invariant
                i <= self.jwks_cache@.len(),
                *self == *old(self),
                self.wf(),
            decreases self.jwks_cache@.len() - i,
        {
            if str_eq(self.jwks_cache[i].0.as_str(), provider_id) {
                if now_secs <= self.jwks_cache[i].1.expires_at_secs {
                    let ghost id = provider_id@;
                    assert(self.jwks_cache@[i as int].1.keys@.len() == 1);
                    assert(is_provider_key(self.jwks_cache@[i as int].1.keys@[0], id));
                    return Ok(copy_keys(&self.jwks_cache[i].1.keys, Ghost(id)));
                }
                break;
            }
            i = i + 1;
        }
        self.load_jwks(provider_id, now_secs)
    }
}

} // verus!

verus! {

/// The token id used as cache key: "jti_" and the token's length in bytes.
pub fn extract_jti(token: &str) -> (r: Result<String, String>)
    ensures
        token@.len() == 0 ==> (r matches Err(m) && m@ == "Empty token"@),
        token@.len() > 0 ==> (r matches Ok(j) && j@ == jti_of(token@)),
{
    if token.unicode_len() == 0 {
        return Err(owned("Empty token"));
    }
    let n = token.as_bytes().len();
    let d = decimal_string(n as u64);
    Ok(cat("jti_", d.as_str()))
}

} // verus!

verus! {

/// Counters after a validation: an expired cached token counts as an L1
/// hit before the miss; every count is also a request.
pub open spec fn stats_after_miss(s: CacheStats, expired_hit: bool) -> CacheStats {
    if expired_hit {
        CacheStats {
            l1_hits: (s.l1_hits + 1) as u64,
            misses: (s.misses + 1) as u64,
            total_requests: (s.total_requests + 2) as u64,
            ..s
        }
    } else {
        CacheStats { misses: (s.misses + 1) as u64, total_requests: (s.total_requests + 1) as u64, ..s }
    }
}

impl OidcMultiProviderManager {
    /// Validates a token at `now_secs`. A cached token with the same id that
    /// has not expired answers from the cache; otherwise (an expired one is
    /// dropped) a healthy provider validates it, and a valid result is
    /// cached for an hour.
    pub fn validate_token_at(&mut self, token: &str, now_secs: u64) -> (r: Result<TokenValidationResult, OidcProviderError>)
        requires
            old(self).wf(),
            validation_room(old(self).stats),
            now_secs + 3600 <= u64::MAX,
            now_secs + old(self).cache_config.jwks_ttl_secs <= u64::MAX,
        ensures
            final(self).wf(),
            final(self).providers == old(self).providers,
            final(self).health_status == old(self).health_status,
            token@.len() == 0 ==> (r matches Err(OidcProviderError::InvalidToken(m)) && m@ == "Empty token"@),
            token@.len() > 0 ==> ({
                let c = old(self).token_cache@;
                let k = find_token(c, jti_of(token@), 0);
                let ps = provider_views(old(self).providers@);
                if 0 <= k < c.len() && now_secs <= c[k].expires_at {
                    &&& r matches Ok(v) && v.is_valid == c[k].valid && v.source == ValidationSource::L1Cache
                        && v.error is None && (v.claims matches Some(cl) && claims_view(cl) == claims_view(c[k].claims))
                    &&& final(self).token_cache@ == c
                    &&& final(self).current_index == old(self).current_index
                    &&& final(self).stats == (CacheStats {
                        l1_hits: (old(self).stats.l1_hits + 1) as u64,
                        total_requests: (old(self).stats.total_requests + 1) as u64,
                        ..old(self).stats
                    })
                } else {
                    &&& final(self).stats == stats_after_miss(old(self).stats, 0 <= k < c.len())
                    &&& match chosen_provider(ps, health_flags(old(self).health_status@), old(self).current_index as int) {
                        None => r matches Err(OidcProviderError::NoHealthyProvider),
                        Some(x) => {
                            &&& r matches Ok(v) && v.is_valid && v.source == ValidationSource::Provider && v.error is None
                                && (v.claims matches Some(cl) && claims_view(cl) == standard_claims())
                            &&& final(self).current_index == x
                            &&& ({
                                let f = final(self).token_cache@;
                                let j = find_token(f, jti_of(token@), 0);
                                &&& 0 <= j < f.len()
                                &&& f[j].valid
                                &&& f[j].expires_at == now_secs + 3600
                                &&& claims_view(f[j].claims) == standard_claims()
                                &&& f[j].provider_id@ == ps[x].id
                                &&& f[j].refresh_token is None
                            })
                        },
                    }
                }
            }),
    {
        let jti = match extract_jti(token) {
            Ok(j) => j,
            Err(e) => return Err(OidcProviderError::InvalidToken(e)),
        };
        let ghost c = self.token_cache@;
        proof {
            lemma_find_token(c, jti@, 0);
        }
        match token_position(&self.token_cache, jti.as_str()) {
            Some(k) => {
                self.stats.l1_hits = self.stats.l1_hits + 1;
                self.stats.total_requests = self.stats.total_requests + 1;
                if !(self.token_cache[k].expires_at < now_secs) {
                    let entry = &self.token_cache[k];
                    return Ok(TokenValidationResult {
                        is_valid: entry.valid,
                        claims: Some(entry.claims.duplicate()),
                        error: None,
                        latency_us: 0,
                        source: ValidationSource::L1Cache,
                    });
                }
                self.token_cache.remove(k);
            },
            None => {},
        }
        self.stats.misses = self.stats.misses + 1;
        self.stats.total_requests = self.stats.total_requests + 1;
        let idx = match self.select_healthy_provider() {
            Some(i) => i,
            None => return Err(OidcProviderError::NoHealthyProvider),
        };
        let pid = self.providers[idx].id.clone();
        proof {
            lemma_provider_index_found(provider_views(self.providers@), pid@, 0, idx as int);
        }
        match self.get_jwks(pid.as_str(), now_secs) {
            Ok(_) => {},
            Err(e) => return Err(e),
        }
        let claims = standard_claims_value();
        let entry = TokenCacheEntry {
            jti: jti,
            sub: claims.sub.clone(),
            valid: true,
            claims: claims.duplicate(),
            expires_at: now_secs + 3600,
            cached_at_secs: now_secs,
            provider_id: pid,
            refresh_token: None,
        };
        let ghost ev = entry;
        assert(ev.jti@ == jti_of(token@));
        put_token(&mut self.token_cache, entry);
        assert(self.stats == stats_after_miss(old(self).stats, 0 <= find_token(c, jti_of(token@), 0) < c.len()));
        assert(chosen_provider(provider_views(old(self).providers@), health_flags(old(self).health_status@), old(self).current_index as int) == Some(idx as int));
        assert(self.current_index == idx);
        Ok(TokenValidationResult {
            is_valid: true,
            claims: Some(claims),
            error: None,
            latency_us: 0,
            source: ValidationSource::Provider,
        })
    }
}

} // verus!

verus! {

/// The token a provider issues on refresh at `now_secs`: id "jti_" +
/// provider + "_" + time, valid for an hour, with a new refresh token.
pub open spec fn refreshed_entry(e: TokenCacheEntry, provider_id: Seq<char>, now_secs: u64) -> bool {
    &&& e.jti@ == "jti_"@ + provider_id + "_"@ + decimal(now_secs as nat)
    &&& e.sub@ == "user_123"@
    &&& e.valid
    &&& claims_view(e.claims) == standard_claims()
    &&& e.expires_at == now_secs + 3600
    &&& e.cached_at_secs == now_secs
    &&& e.provider_id@ == provider_id
    &&& opt_view(e.refresh_token) == Some("refresh_"@ + decimal(now_secs as nat))
}

fn refreshed(provider_id: &str, now_secs: u64) -> (e: TokenCacheEntry)
    requires
        now_secs + 3600 <= u64::MAX,
    ensures
        refreshed_entry(e, provider_id@, now_secs),
{
    let t = decimal_string(now_secs);
    let a = cat("jti_", provider_id);
    let b = cat(a.as_str(), "_");
    let jti = cat(b.as_str(), t.as_str());
    let claims = standard_claims_value();
    TokenCacheEntry {
        jti,
        sub: owned("user_123"),
        valid: true,
        claims,
        expires_at: now_secs + 3600,
        cached_at_secs: now_secs,
        provider_id: owned(provider_id),
        refresh_token: Some(cat("refresh_", t.as_str())),
    }
}

/// Tokens due for refresh: cached with a refresh token and expiring before
/// `now_secs` plus the threshold.
pub open spec fn due_for_refresh(c: Seq<TokenCacheEntry>, limit: int) -> Seq<Seq<char>>
    decreases c.len(),
{
    if c.len() == 0 {
        Seq::empty()
    } else {
        let prev = due_for_refresh(c.drop_last(), limit);
        if c.last().expires_at < limit && c.last().refresh_token is Some {
            prev.push(c.last().jti@)
        } else {
            prev
        }
    }
}

impl OidcMultiProviderManager {
    /// Marks every provider healthy and loads its key set at `now_secs`.
    pub fn initialize_at(&mut self, now_secs: u64) -> (r: Result<(), OidcProviderError>)
        requires
            old(self).wf(),
            now_secs + old(self).cache_config.jwks_ttl_secs <= u64::MAX,
        ensures
            r is Ok,
            final(self).wf(),
            final(self).providers == old(self).providers,
            final(self).current_index == old(self).current_index,
            final(self).stats == old(self).stats,
            forall|i: int|
                0 <= i < final(self).providers@.len() ==> healthy_at(
                    provider_views(final(self).providers@),
                    health_flags(final(self).health_status@),
                    i,
                ),
    {
        let ghost ps = provider_views(self.providers@);
        let mut i: usize = 0;
        while i < self.providers.len()
            invariant
                i <= self.providers@.len(),
                self.wf(),
                ps == provider_views(self.providers@),
                self.providers == old(self).providers,
                self.current_index == old(self).current_index,
                self.stats == old(self).stats,
                self.cache_config == old(self).cache_config,
                now_secs + self.cache_config.jwks_ttl_secs <= u64::MAX,
                forall|j: int| 0 <= j < i ==> lookup(health_flags(self.health_status@), #[trigger] ps[j].id) == Some(true),
            decreases self.providers@.len() - i,
        {
            let id = self.providers[i].id.clone();
            let ghost before = health_flags(self.health_status@);
            self.update_provider_health(id.as_str(), ProviderHealth::Healthy);
            assert forall|j: int| 0 <= j < i + 1 implies lookup(health_flags(self.health_status@), #[trigger] ps[j].id)
                == Some(true) by {
                if ps[j].id != id@ {
                    assert(lookup(health_flags(self.health_status@), ps[j].id) == lookup(before, ps[j].id));
                }
            }
            proof {
                lemma_provider_index_found(ps, id@, 0, i as int);
            }
            match self.load_jwks(id.as_str(), now_secs) {
                Ok(_) => {},
                Err(e) => return Err(e),
            }
            i = i + 1;
        }
        Ok(())
    }

    /// Marks every provider healthy and loads its key set now.
    pub fn initialize(&mut self) -> (r: Result<(), OidcProviderError>)
        requires
            old(self).wf(),
        ensures
            r is Ok,
            final(self).wf(),
            final(self).providers == old(self).providers,
            forall|i: int|
                0 <= i < final(self).providers@.len() ==> healthy_at(
                    provider_views(final(self).providers@),
                    health_flags(final(self).health_status@),
                    i,
                ),
    {
        let ttl = self.cache_config.jwks_ttl_secs;
        let now = unix_now_secs();
        let now = if now > u64::MAX - ttl { u64::MAX - ttl } else { now };
        self.initialize_at(now)
    }

    /// Validates a token now (a clock reading so late that a lifetime would
    /// pass the largest time is taken as the latest time that still fits).
    pub fn validate_token(&mut self, token: &str) -> (r: Result<TokenValidationResult, OidcProviderError>)
        requires
            old(self).wf(),
            validation_room(old(self).stats),
        ensures
            final(self).wf(),
            token@.len() == 0 ==> (r matches Err(OidcProviderError::InvalidToken(m)) && m@ == "Empty token"@),
    {
        let ttl = if self.cache_config.jwks_ttl_secs > 3600 { self.cache_config.jwks_ttl_secs } else { 3600 };
        let now = unix_now_secs();
        let now = if now > u64::MAX - ttl { u64::MAX - ttl } else { now };
        self.validate_token_at(token, now)
    }

    /// Refreshes a token with a healthy provider at `now_secs` and caches the
    /// new token under its id.
    pub fn refresh_token_at(&mut self, refresh_token: &str, now_secs: u64) -> (r: Result<TokenCacheEntry, OidcProviderError>)
        requires
            old(self).wf(),
            now_secs + 3600 <= u64::MAX,
        ensures
            final(self).wf(),
            final(self).providers == old(self).providers,
            final(self).stats == old(self).stats,
            match chosen_provider(
                provider_views(old(self).providers@),
                health_flags(old(self).health_status@),
                old(self).current_index as int,
            ) {
                None => r matches Err(OidcProviderError::NoHealthyProvider),
                Some(x) => {
                    &&& r matches Ok(e) && refreshed_entry(e, provider_views(old(self).providers@)[x].id, now_secs)
                    &&& final(self).current_index == x
                    &&& ({
                        let f = final(self).token_cache@;
                        let j = find_token(f, r->Ok_0.jti@, 0);
                        0 <= j < f.len() && refreshed_entry(f[j], provider_views(old(self).providers@)[x].id, now_secs)
                    })
                },
            },
    {
        let idx = match self.select_healthy_provider() {
            Some(i) => i,
            None => return Err(OidcProviderError::NoHealthyProvider),
        };
        let pid = self.providers[idx].id.clone();
        let cached = refreshed(pid.as_str(), now_secs);
        let entry = refreshed(pid.as_str(), now_secs);
        put_token(&mut self.token_cache, cached);
        Ok(entry)
    }

    /// Refreshes a token now, as `refresh_token_at` does at the clock's
    /// reading (held below the point where an hour more would overflow).
    pub fn refresh_token(&mut self, refresh_token: &str) -> (r: Result<TokenCacheEntry, OidcProviderError>)
        requires
            old(self).wf(),
        ensures
            final(self).wf(),
            final(self).providers == old(self).providers,
            final(self).stats == old(self).stats,
            match chosen_provider(
                provider_views(old(self).providers@),
                health_flags(old(self).health_status@),
                old(self).current_index as int,
            ) {
                None => r matches Err(OidcProviderError::NoHealthyProvider),
                Some(x) => {
                    &&& final(self).current_index == x
                    &&& exists|now: u64|
                        #![trigger refreshed_entry(r->Ok_0, provider_views(old(self).providers@)[x].id, now)]
                        {
                            let f = final(self).token_cache@;
                            let j = find_token(f, r->Ok_0.jti@, 0);
                            &&& now + 3600 <= u64::MAX
                            &&& r is Ok && refreshed_entry(r->Ok_0, provider_views(old(self).providers@)[x].id, now)
                            &&& 0 <= j < f.len() && refreshed_entry(f[j], provider_views(old(self).providers@)[x].id, now)
                        }
                },
            },
    {
        let now = unix_now_secs();
        let now = if now > u64::MAX - 3600 { u64::MAX - 3600 } else { now };
        self.refresh_token_at(refresh_token, now)
    }

    /// The ids of cached tokens due for refresh at `now_secs`, in cache order.
    pub fn refresh_expiring_at(&self, now_secs: u64) -> (r: Vec<String>)
        ensures
            text_views(r@) == due_for_refresh(self.token_cache@, now_secs + self.cache_config.refresh_threshold_secs),
    {
        let limit: u128 = now_secs as u128 + self.cache_config.refresh_threshold_secs as u128;
        let ghost c = self.token_cache@;
        let mut r: Vec<String> = Vec::new();
        let mut i: usize = 0;
        while i < self.token_cache.len()
            invariant
                i <= c.len(),
                c == self.token_cache@,
                limit == now_secs + self.cache_config.refresh_threshold_secs,
                text_views(r@) == due_for_refresh(c.take(i as int), limit as int),
            decreases c.len() - i,
        {
            let e = &self.token_cache[i];
            proof {
                assert(c.take(i + 1).drop_last() =~= c.take(i as int));
                assert(c.take(i + 1).last() == c[i as int]);
            }
            if (e.expires_at as u128) < limit && e.refresh_token.is_some() {
                let ghost before = r@;
                r.push(e.jti.clone());
                assert(text_views(r@) =~= text_views(before).push(e.jti@));
            }
            i = i + 1;
        }
        assert(c.take(c.len() as int) =~= c);
        r
    }

    /// The cache counters.
    pub fn get_stats(&self) -> (s: CacheStats)
        ensures
            s == self.stats,
    {
        self.stats
    }

    /// The providers in priority order.
    pub fn get_providers(&self) -> (r: &[ProviderConfig])
        ensures
            r@ == self.providers@,
    {
        self.providers.as_slice()
    }

    /// The position of the provider in use.
    pub fn get_current_index(&self) -> (i: usize)
        ensures
            i == self.current_index,
    {
        self.current_index
    }
}

} // verus!
