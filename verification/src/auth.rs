//! API authentication: rate-limit tiers, API keys and the `Authorization` header.
use vstd::prelude::*;
use dashmap::DashMap;
use crate::text::{has_prefix, str_starts_with};

verus! {

/// Rate limiting tiers.
#[derive(PartialEq, Eq, Structural, Clone, Copy, Debug)]
pub enum RateLimitTier {
    Anonymous,
    ApiKey,
    Premium,
}

/// Requests per minute a tier allows.
pub open spec fn tier_requests(t: RateLimitTier) -> u64 {
    match t {
        RateLimitTier::Anonymous => 60,
        RateLimitTier::ApiKey => 600,
        RateLimitTier::Premium => 6000,
    }
}

/// WebSocket connections a tier allows.
pub open spec fn tier_connections(t: RateLimitTier) -> u32 {
    match t {
        RateLimitTier::Anonymous => 1,
        RateLimitTier::ApiKey => 10,
        RateLimitTier::Premium => 100,
    }
}

/// The order of the tiers, lowest first.
pub open spec fn tier_rank(t: RateLimitTier) -> int {
    match t {
        RateLimitTier::Anonymous => 0,
        RateLimitTier::ApiKey => 1,
        RateLimitTier::Premium => 2,
    }
}

impl RateLimitTier {
    /// Requests allowed per minute.
    pub fn requests_per_minute(&self) -> (n: u64)
        ensures
            n == tier_requests(*self),
    {
        match self {
            RateLimitTier::Anonymous => 60,
            RateLimitTier::ApiKey => 600,
            RateLimitTier::Premium => 6000,
        }
    }

    /// Concurrent WebSocket connections allowed.
    pub fn websocket_connections(&self) -> (n: u32)
        ensures
            n == tier_connections(*self),
    {
        match self {
            RateLimitTier::Anonymous => 1,
            RateLimitTier::ApiKey => 10,
            RateLimitTier::Premium => 100,
        }
    }

    /// The tier's name, as it is written in tokens.
    pub fn name(&self) -> (s: &'static str)
        ensures
            *self == RateLimitTier::Anonymous ==> s@ == "Anonymous"@,
            *self == RateLimitTier::ApiKey ==> s@ == "ApiKey"@,
            *self == RateLimitTier::Premium ==> s@ == "Premium"@,
    {
        match self {
            RateLimitTier::Anonymous => "Anonymous",
            RateLimitTier::ApiKey => "ApiKey",
            RateLimitTier::Premium => "Premium",
        }
    }
}

/// A higher tier never gets fewer requests or connections.
pub proof fn law_tier_limits_grow(a: RateLimitTier, b: RateLimitTier)
    requires
        tier_rank(a) < tier_rank(b),
    ensures
        tier_requests(a) < tier_requests(b),
        tier_connections(a) < tier_connections(b),
{
}

/// Authentication claims carried by a JWT.
pub struct Claims {
    pub sub: String,
    pub tier: RateLimitTier,
    pub iat: u64,
    pub exp: u64,
}

/// Seconds a generated token stays valid.
pub const TOKEN_LIFETIME_SECS: u64 = 86400;

/// The claims of a token issued to `user_id` at `now` (seconds): valid for a day.
pub fn token_claims(user_id: &str, tier: RateLimitTier, now: u64) -> (c: Claims)
    requires
        now + TOKEN_LIFETIME_SECS <= u64::MAX,
    ensures
        c.sub@ == user_id@,
        c.tier == tier,
        c.iat == now,
        c.exp == now + TOKEN_LIFETIME_SECS,
{
    Claims { sub: String::from_str(user_id), tier, iat: now, exp: now + TOKEN_LIFETIME_SECS }
}

/// API key structure.
pub struct ApiKey {
    pub key: String,
    pub tier: RateLimitTier,
    pub owner: String,
}

/// What a map from API key to key record holds.
pub uninterp spec fn api_key_map(m: DashMap<String, ApiKey>) -> Map<Seq<char>, ApiKey>;

/// `DashMap::new`: an empty key map.
#[verifier::external_body]
fn keys_new() -> (m: DashMap<String, ApiKey>)
    ensures
        api_key_map(m) == no_keys(),
{
    DashMap::new()
}

/// `DashMap::insert`: stores `value` under `key`, replacing any earlier record.
#[verifier::external_body]
fn keys_insert(m: &mut DashMap<String, ApiKey>, key: String, value: ApiKey)
    ensures
        api_key_map(*final(m)) == api_key_map(*old(m)).insert(key@, value),
{
    m.insert(key, value);
}

/// `DashMap::get`, keeping the record's tier: the tier stored under `key`, if any.
#[verifier::external_body]
fn keys_get_tier(m: &DashMap<String, ApiKey>, key: &str) -> (r: Option<RateLimitTier>)
    ensures
        api_key_map(*m).dom().contains(key@) ==> r == Some(api_key_map(*m)[key@].tier),
        !api_key_map(*m).dom().contains(key@) ==> r is None,
{
    m.get(key).map(|k| k.tier)
}

/// The map that holds no key.
pub open spec fn no_keys() -> Map<Seq<char>, ApiKey> {
    Map::empty()
}

/// The API key that every new authentication state accepts.
pub open spec fn default_key() -> Seq<char> {
    "test-api-key-001"@
}

/// Authentication state: the JWT secret and the known API keys.
pub struct AuthState {
    jwt_secret: String,
    api_keys: DashMap<String, ApiKey>,
}

impl AuthState {
    /// Known API keys.
    pub closed spec fn keys(&self) -> Map<Seq<char>, ApiKey> {
        api_key_map(self.api_keys)
    }

    /// The JWT signing secret.
    pub closed spec fn secret(&self) -> Seq<char> {
        self.jwt_secret@
    }

    /// A state with the given secret that knows one test key, of tier `ApiKey`.
    pub fn new(jwt_secret: String) -> (s: AuthState)
        ensures
            s.secret() == jwt_secret@,
            s.keys().dom() == set![default_key()],
            s.keys()[default_key()].tier == RateLimitTier::ApiKey,
            s.keys()[default_key()].key@ == default_key(),
            s.keys()[default_key()].owner@ == "test@example.com"@,
    {
        let mut api_keys = keys_new();
        keys_insert(
            &mut api_keys,
            String::from_str("test-api-key-001"),
            ApiKey {
                key: String::from_str("test-api-key-001"),
                tier: RateLimitTier::ApiKey,
                owner: String::from_str("test@example.com"),
            },
        );
        assert(api_key_map(api_keys).dom() =~= set![default_key()]);
        AuthState { jwt_secret, api_keys }
    }

    /// The JWT signing secret.
    pub fn jwt_secret(&self) -> (s: &str)
        ensures
            s@ == self.secret(),
    {
        self.jwt_secret.as_str()
    }

    /// The tier of an API key, if it is known.
    pub fn validate_api_key(&self, key: &str) -> (r: Option<RateLimitTier>)
        ensures
            self.keys().dom().contains(key@) ==> r == Some(self.keys()[key@].tier),
            !self.keys().dom().contains(key@) ==> r is None,
    {
        keys_get_tier(&self.api_keys, key)
    }
}

/// What an `Authorization` header carries.
pub enum AuthHeader {
    /// `Bearer <token>`: a JWT.
    Bearer(String),
    /// `ApiKey <key>`: an API key.
    ApiKey(String),
    /// No header, or another scheme.
    Other,
}

/// The part of `s` after its first seven characters.
pub open spec fn after_scheme(s: Seq<char>) -> Seq<char> {
    s.subrange(7, s.len() as int)
}

/// How a header value reads: a `Bearer ` or `ApiKey ` prefix, then the credential.
pub open spec fn header_kind(h: Option<Seq<char>>) -> AuthHeaderKind {
    match h {
        Some(s) => if has_prefix(s, "Bearer "@) {
            AuthHeaderKind::Bearer(after_scheme(s))
        } else if has_prefix(s, "ApiKey "@) {
            AuthHeaderKind::ApiKey(after_scheme(s))
        } else {
            AuthHeaderKind::Other
        },
        None => AuthHeaderKind::Other,
    }
}

/// The mathematical form of `AuthHeader`.
pub enum AuthHeaderKind {
    Bearer(Seq<char>),
    ApiKey(Seq<char>),
    Other,
}

impl AuthHeader {
    /// The header's mathematical form.
    pub open spec fn kind(&self) -> AuthHeaderKind {
        match self {
            AuthHeader::Bearer(t) => AuthHeaderKind::Bearer(t@),
            AuthHeader::ApiKey(k) => AuthHeaderKind::ApiKey(k@),
            AuthHeader::Other => AuthHeaderKind::Other,
        }
    }
}

/// Reads an `Authorization` header value (`None` when absent or not text).
pub fn parse_authorization(header: Option<&str>) -> (r: AuthHeader)
    ensures
        r.kind() == header_kind(match header {
            Some(s) => Some(s@),
            None => None,
        }),
{
    match header {
        Some(h) => {
            proof {
                reveal_strlit("Bearer ");
                reveal_strlit("ApiKey ");
            }
            if str_starts_with(h, "Bearer ") {
                let n = h.unicode_len();
                let token = h.substring_char(7, n);
                AuthHeader::Bearer(String::from_str(token))
            } else if str_starts_with(h, "ApiKey ") {
                let n = h.unicode_len();
                let key = h.substring_char(7, n);
                AuthHeader::ApiKey(String::from_str(key))
            } else {
                AuthHeader::Other
            }
        },
        None => AuthHeader::Other,
    }
}

/// The request is refused with 401.
#[derive(PartialEq, Eq, Structural, Clone, Copy, Debug)]
pub struct Unauthorized;

/// A request admitted under tier `t`.
pub open spec fn ok_tier(t: RateLimitTier) -> Result<RateLimitTier, Unauthorized> {
    Ok(t)
}

/// A refused request.
pub open spec fn refused() -> Result<RateLimitTier, Unauthorized> {
    Err(Unauthorized)
}

/// The tier a request runs under: anonymous without credentials, the key's
/// tier for a known API key, the token's tier for a valid token (`token_tier`
/// is the outcome of validating the bearer token, when there is one).
pub fn request_tier(state: &AuthState, header: &AuthHeader, token_tier: Option<RateLimitTier>) -> (r: Result<RateLimitTier, Unauthorized>)
    ensures
        header.kind() is Other ==> r == ok_tier(RateLimitTier::Anonymous),
        header.kind() is Bearer ==> (match token_tier {
            Some(t) => r == ok_tier(t),
            None => r == refused(),
        }),
        header.kind() matches AuthHeaderKind::ApiKey(k) ==> (if state.keys().dom().contains(k) {
            r == ok_tier(state.keys()[k].tier)
        } else {
            r == refused()
        }),
{
    match header {
        AuthHeader::Bearer(_) => match token_tier {
            Some(t) => Ok(t),
            None => Err(Unauthorized),
        },
        AuthHeader::ApiKey(k) => match state.validate_api_key(k.as_str()) {
            Some(t) => Ok(t),
            None => Err(Unauthorized),
        },
        AuthHeader::Other => Ok(RateLimitTier::Anonymous),
    }
}

/// The tier of a request whose extensions carry none.
pub fn default_request_tier(tier: Option<RateLimitTier>) -> (t: RateLimitTier)
    ensures
        t == (match tier {
            Some(x) => x,
            None => RateLimitTier::Anonymous,
        }),
{
    match tier {
        Some(x) => x,
        None => RateLimitTier::Anonymous,
    }
}

} // verus!
