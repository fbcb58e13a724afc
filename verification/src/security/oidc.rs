//! OpenID Connect sign-in for a zero-trust setup: the authorization URL,
//! the code flow against the provider (answered locally here), and a cache
//! of validated tokens.

use vstd::prelude::*;
use vstd::utf8::encode_utf8;
use crate::clock::unix_now_millis;
use crate::text::{cat, owned};

verus! {

/// Where the provider is and who the client is.
pub struct OidcConfig {
    pub issuer_url: String,
    pub auth_endpoint: String,
    pub token_endpoint: String,
    pub jwks_endpoint: String,
    pub client_id: String,
    pub client_secret: String,
    pub redirect_uri: String,
    pub scopes: Vec<String>,
}

impl Default for OidcConfig {
    /// Empty endpoints and credentials; the `openid` and `profile` scopes.
    fn default() -> (c: Self)
        ensures
            c.issuer_url@.len() == 0,
            c.auth_endpoint@.len() == 0,
            c.token_endpoint@.len() == 0,
            c.jwks_endpoint@.len() == 0,
            c.client_id@.len() == 0,
            c.client_secret@.len() == 0,
            c.redirect_uri@.len() == 0,
            c.scopes@.map_values(|s: String| s@) == seq!["openid"@, "profile"@],
    {
        let mut scopes: Vec<String> = Vec::new();
        scopes.push(owned("openid"));
        scopes.push(owned("profile"));
        assert(scopes@.map_values(|s: String| s@) =~= seq!["openid"@, "profile"@]);
        OidcConfig {
            issuer_url: String::new(),
            auth_endpoint: String::new(),
            token_endpoint: String::new(),
            jwks_endpoint: String::new(),
            client_id: String::new(),
            client_secret: String::new(),
            redirect_uri: String::new(),
            scopes,
        }
    }
}

/// A JSON web key.
pub struct Jwk {
    pub kid: String,
    pub kty: String,
    pub alg: String,
    pub use_: String,
    pub n: Option<String>,
    pub e: Option<String>,
}

/// The provider's keys, when they were loaded (milliseconds since the epoch)
/// and for how long they stay valid.
pub struct JwksCache {
    pub keys: Vec<Jwk>,
    pub last_updated_ms: u64,
    pub ttl_secs: u64,
}

/// A token known to be valid until `expires_at_ms`.
pub struct CachedToken {
    pub access_token: String,
    pub id_token: String,
    pub expires_at_ms: u64,
}

/// Validated tokens, by access token.
pub struct TokenCache {
    pub tokens: Vec<(String, CachedToken)>,
}

/// The first cached entry for `token`.
pub open spec fn cached_index(tokens: Seq<(String, CachedToken)>, token: Seq<char>, i: int) -> Option<int>
    decreases tokens.len() - i,
{
    if i < 0 || i >= tokens.len() {
        None
    } else if tokens[i].0@ == token {
        Some(i)
    } else {
        cached_index(tokens, token, i + 1)
    }
}

impl TokenCache {
    pub fn new() -> (c: Self)
        ensures
            c.tokens@.len() == 0,
    {
        TokenCache { tokens: Vec::new() }
    }

    /// The token is cached and has not expired at `now_ms`.
    pub fn is_valid_at(&self, token: &str, now_ms: u64) -> (b: bool)
        ensures
            b == (cached_index(self.tokens@, token@, 0) matches Some(i) && now_ms < self.tokens@[i].1.expires_at_ms),
    {
        let mut i: usize = 0;
        while i < self.tokens.len()
            invariant
                i <= self.tokens@.len(),
                cached_index(self.tokens@, token@, 0) == cached_index(self.tokens@, token@, i as int),
            decreases self.tokens@.len() - i,
        {
            if crate::text::str_eq(self.tokens[i].0.as_str(), token) {
                return now_ms < self.tokens[i].1.expires_at_ms;
            }
            i = i + 1;
        }
        false
    }

    /// How many tokens are cached.
    pub fn size(&self) -> (n: usize)
        ensures
            n == self.tokens@.len(),
    {
        self.tokens.len()
    }
}

/// Tokens issued by the provider.
pub struct OidcToken {
    pub access_token: String,
    pub id_token: String,
    pub token_type: String,
    pub expires_in: u64,
    pub refresh_token: Option<String>,
    pub scope: String,
}

/// What the provider says of the user.
pub struct OidcUserInfo {
    pub sub: String,
    pub name: Option<String>,
    pub email: Option<String>,
    pub email_verified: Option<bool>,
    pub picture: Option<String>,
    pub roles: Option<Vec<String>>,
}

/// The redirect that carries the authorization code.
pub struct OidcAuthRequest {
    pub code: String,
    pub state: String,
    pub redirect_uri: String,
}

/// A signed-in user's tokens and profile.
pub struct OidcAuthResponse {
    pub access_token: String,
    pub id_token: String,
    pub token_type: String,
    pub expires_in: u64,
    pub user_info: OidcUserInfo,
}

/// Whether the keys are loaded and how many tokens are cached.
#[derive(Debug, Clone, Copy, PartialEq, Eq, Structural)]
pub struct OidcStats {
    pub jwks_cached: bool,
    pub tokens_cached: usize,
}

/// Why sign-in failed.
#[derive(Debug)]
pub enum OidcError {
    HttpError(String),
    InvalidToken(String),
    SignatureVerificationFailed(String),
    IssuerMismatch(String),
    AudienceMismatch(String),
    TokenExpired,
    JwksLoadFailed(String),
    UserInfoFetchFailed(String),
}

/// A byte that URL encoding keeps as it is: an ASCII letter or digit, `-`, `.`, `_` or `~`.
pub open spec fn url_safe(b: u8) -> bool {
    (48 <= b <= 57) || (65 <= b <= 90) || (97 <= b <= 122) || b == 45 || b == 46 || b == 95 || b == 126
}

/// The uppercase hex digit of a value below 16.
pub open spec fn hex_upper(d: u8) -> char {
    if d < 10 {
        (48 + d) as char
    } else {
        (55 + d) as char
    }
}

/// Percent-encoding of bytes: safe bytes as themselves, every other byte
/// as `%` and two uppercase hex digits.
pub open spec fn url_encoded(bytes: Seq<u8>) -> Seq<char>
    decreases bytes.len(),
{
    if bytes.len() == 0 {
        seq![]
    } else {
        let b = bytes.last();
        url_encoded(bytes.drop_last()) + if url_safe(b) {
            seq![b as char]
        } else {
            seq!['%', hex_upper(b / 16), hex_upper(b % 16)]
        }
    }
}

/// `urlencoding::encode`: percent-encodes the UTF-8 bytes of `s`, keeping
/// ASCII letters, digits, `-`, `.`, `_` and `~`.
#[verifier::external_body]
fn url_encode(s: &str) -> (r: String)
    ensures
        r@ == url_encoded(encode_utf8(s@)),
{
    urlencoding::encode(s).into_owned()
}

/// The scopes joined with single spaces.
pub open spec fn joined_scopes(scopes: Seq<Seq<char>>) -> Seq<char>
    decreases scopes.len(),
{
    if scopes.len() == 0 {
        seq![]
    } else if scopes.len() == 1 {
        scopes[0]
    } else {
        joined_scopes(scopes.drop_last()) + seq![' '] + scopes.last()
    }
}

/// The authorization URL for `state`.
pub open spec fn authorization_url(c: OidcConfig, state: Seq<char>) -> Seq<char> {
    let scopes = c.scopes@.map_values(|s: String| s@);
    c.auth_endpoint@ + "?response_type=code&client_id="@ + c.client_id@ + "&redirect_uri="@ + url_encoded(
        encode_utf8(c.redirect_uri@),
    ) + "&state="@ + url_encoded(encode_utf8(state)) + if scopes.len() == 0 {
        seq![]
    } else {
        "&scope="@ + url_encoded(encode_utf8(joined_scopes(scopes)))
    }
}

/// The tokens the provider hands out for an authorization code.
pub open spec fn issued_token(access: Seq<char>, id: Seq<char>, refresh: Seq<char>, t: OidcToken) -> bool {
    &&& t.access_token@ == access
    &&& t.id_token@ == id
    &&& t.token_type@ == "Bearer"@
    &&& t.expires_in == 3600
    &&& t.refresh_token matches Some(r) && r@ == refresh
    &&& t.scope@ == "openid profile"@
}

/// The profile the provider reports.
pub open spec fn reported_user(u: OidcUserInfo) -> bool {
    &&& u.sub@ == "user_123"@
    &&& u.name matches Some(n) && n@ == "Test User"@
    &&& u.email matches Some(e) && e@ == "test@example.com"@
    &&& u.email_verified == Some(true)
    &&& u.picture is None
    &&& u.roles matches Some(rs) && rs@.map_values(|s: String| s@) == seq!["user"@]
}

/// Signs users in against one provider.
pub struct OidcAuthenticator {
    pub config: OidcConfig,
    pub jwks_cache: Option<JwksCache>,
    pub token_cache: TokenCache,
}

fn issue_token(access: &str, id: &str, refresh: &str) -> (t: OidcToken)
    ensures
        issued_token(access@, id@, refresh@, t),
{
    OidcToken {
        access_token: owned(access),
        id_token: owned(id),
        token_type: owned("Bearer"),
        expires_in: 3600,
        refresh_token: Some(owned(refresh)),
        scope: owned("openid profile"),
    }
}

impl OidcAuthenticator {
    /// An authenticator with no keys loaded and no tokens cached.
    pub fn new(config: OidcConfig) -> (a: Self)
        ensures
            a.config == config,
            a.jwks_cache is None,
            a.token_cache.tokens@.len() == 0,
    {
        OidcAuthenticator { config, jwks_cache: None, token_cache: TokenCache::new() }
    }

    /// Discovers the provider and loads its keys: an empty key set, valid for an hour.
    pub fn initialize(&mut self) -> (r: Result<(), OidcError>)
        ensures
            r is Ok,
            final(self).jwks_cache matches Some(j) && j.keys@.len() == 0 && j.ttl_secs == 3600,
            final(self).config == old(self).config,
            final(self).token_cache == old(self).token_cache,
    {
        self.discover_provider();
        self.load_jwks();
        Ok(())
    }

    fn discover_provider(&mut self) -> (r: Result<(), OidcError>)
        ensures
            r is Ok,
            *final(self) == *old(self),
    {
        Ok(())
    }

    fn load_jwks(&mut self) -> (r: Result<(), OidcError>)
        ensures
            r is Ok,
            final(self).jwks_cache matches Some(j) && j.keys@.len() == 0 && j.ttl_secs == 3600,
            final(self).config == old(self).config,
            final(self).token_cache == old(self).token_cache,
    {
        self.jwks_cache = Some(JwksCache { keys: Vec::new(), last_updated_ms: unix_now_millis(), ttl_secs: 3600 });
        Ok(())
    }

    fn exchange_code_for_token(&self, request: &OidcAuthRequest) -> (t: OidcToken)
        ensures
            issued_token("mock_access_token"@, "mock_id_token"@, "mock_refresh_token"@, t),
    {
        issue_token("mock_access_token", "mock_id_token", "mock_refresh_token")
    }

    fn verify_jwt_signature(&self, id_token: &str) -> (r: Result<(), OidcError>)
        ensures
            id_token@.len() == 0 ==> (r matches Err(OidcError::InvalidToken(m)) && m@ == "Empty token"@),
            id_token@.len() > 0 ==> r is Ok,
    {
        if id_token.unicode_len() == 0 {
            return Err(OidcError::InvalidToken(owned("Empty token")));
        }
        Ok(())
    }

    /// Checks the ID token: its signature (an empty token is refused); the
    /// issuer, audience and expiry are accepted as they are.
    fn validate_id_token(&self, id_token: &str) -> (r: Result<(), OidcError>)
        ensures
            id_token@.len() == 0 ==> (r matches Err(OidcError::InvalidToken(m)) && m@ == "Empty token"@),
            id_token@.len() > 0 ==> r is Ok,
    {
        self.verify_jwt_signature(id_token)
    }

    fn get_user_info(&self, access_token: &str) -> (u: OidcUserInfo)
        ensures
            reported_user(u),
    {
        let mut roles: Vec<String> = Vec::new();
        roles.push(owned("user"));
        assert(roles@.map_values(|s: String| s@) =~= seq!["user"@]);
        OidcUserInfo {
            sub: owned("user_123"),
            name: Some(owned("Test User")),
            email: Some(owned("test@example.com")),
            email_verified: Some(true),
            picture: None,
            roles: Some(roles),
        }
    }

    /// The code flow: trades the code for tokens, checks the ID token and
    /// fetches the user's profile.
    pub fn authenticate(&self, request: &OidcAuthRequest) -> (r: Result<OidcAuthResponse, OidcError>)
        ensures
            r matches Ok(resp) && resp.access_token@ == "mock_access_token"@ && resp.id_token@ == "mock_id_token"@
                && resp.token_type@ == "Bearer"@ && resp.expires_in == 3600 && reported_user(resp.user_info),
    {
        let token = self.exchange_code_for_token(request);
        proof {
            reveal_strlit("mock_id_token");
        }
        match self.validate_id_token(token.id_token.as_str()) {
            Err(e) => {
                return Err(e);
            },
            Ok(()) => {},
        }
        let user_info = self.get_user_info(token.access_token.as_str());
        Ok(
            OidcAuthResponse {
                access_token: token.access_token,
                id_token: token.id_token,
                token_type: token.token_type,
                expires_in: token.expires_in,
                user_info,
            },
        )
    }

    /// Whether an access token is valid: a cached unexpired token is; any
    /// other is accepted too, since no introspection is made.
    pub fn validate_access_token_at(&self, access_token: &str, now_ms: u64) -> (r: Result<bool, OidcError>)
        ensures
            r matches Ok(b) && b,
    {
        if self.token_cache.is_valid_at(access_token, now_ms) {
            return Ok(true);
        }
        Ok(true)
    }

    /// Whether an access token is valid now.
    pub fn validate_access_token(&self, access_token: &str) -> (r: Result<bool, OidcError>)
        ensures
            r matches Ok(b) && b,
    {
        self.validate_access_token_at(access_token, unix_now_millis())
    }

    /// New tokens for a refresh token.
    pub fn refresh_token(&self, refresh_token: &str) -> (r: Result<OidcToken, OidcError>)
        ensures
            r matches Ok(t) && issued_token("new_mock_access_token"@, "new_mock_id_token"@, "new_mock_refresh_token"@, t),
    {
        Ok(issue_token("new_mock_access_token", "new_mock_id_token", "new_mock_refresh_token"))
    }

    /// The URL that sends the user to the provider's sign-in page.
    pub fn get_authorization_url(&self, state: &str) -> (url: String)
        ensures
            url@ == authorization_url(self.config, state@),
    {
        let mut url = String::from_str(self.config.auth_endpoint.as_str());
        url.append("?response_type=code&client_id=");
        url.append(self.config.client_id.as_str());
        url.append("&redirect_uri=");
        let r = url_encode(self.config.redirect_uri.as_str());
        url.append(r.as_str());
        url.append("&state=");
        let s = url_encode(state);
        url.append(s.as_str());
        if self.config.scopes.len() > 0 {
            url.append("&scope=");
            let joined = join_scopes(&self.config.scopes);
            let j = url_encode(joined.as_str());
            url.append(j.as_str());
        }
        url
    }

    pub fn get_stats(&self) -> (s: OidcStats)
        ensures
            s.jwks_cached == self.jwks_cache is Some,
            s.tokens_cached == self.token_cache.tokens@.len(),
    {
        OidcStats { jwks_cached: self.jwks_cache.is_some(), tokens_cached: self.token_cache.size() }
    }
}

fn join_scopes(scopes: &Vec<String>) -> (r: String)
    ensures
        r@ == joined_scopes(scopes@.map_values(|s: String| s@)),
{
    let ghost sv = scopes@.map_values(|s: String| s@);
    let mut r = String::new();
    let mut i: usize = 0;
    while i < scopes.len()
        invariant
            sv == scopes@.map_values(|s: String| s@),
            i <= scopes@.len(),
            r@ == joined_scopes(sv.subrange(0, i as int)),
        decreases scopes@.len() - i,
    {
        if i > 0 {
            crate::text::push_char(&mut r, ' ');
        }
        r.append(scopes[i].as_str());
        proof {
            let t = sv.subrange(0, i + 1);
            assert(t.drop_last() =~= sv.subrange(0, i as int));
            assert(t.last() == scopes@[i as int]@);
            if i == 0 {
                assert(sv.subrange(0, 0).len() == 0);
            }
        }
        i = i + 1;
    }
    assert(sv.subrange(0, scopes@.len() as int) =~= sv);
    r
}

} // verus!
