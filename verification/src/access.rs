//! Authorization: API tiers, access policies, permissions and per-tier limits.
use vstd::prelude::*;
use crate::text::str_eq;
use crate::auth::{AuthHeader, AuthHeaderKind};

verus! {

/// Subscription tiers of the public API.
#[derive(PartialEq, Eq, Structural, Clone, Copy, Debug)]
pub enum ApiTier {
    Free,
    Pro,
    Enterprise,
}

/// Claims of an authenticated caller.
pub struct Claims {
    pub sub: String,
    pub exp: usize,
    pub iat: usize,
    pub roles: Vec<String>,
    pub permissions: Vec<String>,
    pub org_id: Option<String>,
    pub tier: ApiTier,
}

/// Per-caller rate limit answer: requests left and when the window resets (milliseconds).
pub struct RateLimitInfo {
    pub requests_remaining: u32,
    pub window_reset_ms: i64,
}

/// What a handler knows of its caller.
pub struct AuthContext {
    pub user_id: String,
    pub roles: Vec<String>,
    pub permissions: Vec<String>,
    pub tier: ApiTier,
    pub rate_limit: RateLimitInfo,
}

/// Request metadata available to policies.
pub struct RequestContext {
    pub ip: String,
    pub user_agent: Option<String>,
    pub request_path: String,
}

/// Authentication and authorization failures.
#[derive(PartialEq, Eq, Structural, Clone, Copy, Debug)]
pub enum AuthError {
    InvalidToken,
    InvalidApiKey,
    TokenRevoked,
    UnknownKey,
    JwksFetchFailed,
    JwksParseFailed,
    InvalidKey,
    Unauthorized,
}

impl AuthError {
    /// The error's message.
    pub fn message(&self) -> (s: &'static str)
        ensures
            *self == AuthError::InvalidToken ==> s@ == "Invalid token"@,
            *self == AuthError::InvalidApiKey ==> s@ == "Invalid API key"@,
            *self == AuthError::TokenRevoked ==> s@ == "Token has been revoked"@,
            *self == AuthError::UnknownKey ==> s@ == "Unknown signing key"@,
            *self == AuthError::JwksFetchFailed ==> s@ == "Failed to fetch JWKS"@,
            *self == AuthError::JwksParseFailed ==> s@ == "Failed to parse JWKS"@,
            *self == AuthError::InvalidKey ==> s@ == "Invalid key format"@,
            *self == AuthError::Unauthorized ==> s@ == "Unauthorized"@,
    {
        match self {
            AuthError::InvalidToken => "Invalid token",
            AuthError::InvalidApiKey => "Invalid API key",
            AuthError::TokenRevoked => "Token has been revoked",
            AuthError::UnknownKey => "Unknown signing key",
            AuthError::JwksFetchFailed => "Failed to fetch JWKS",
            AuthError::JwksParseFailed => "Failed to parse JWKS",
            AuthError::InvalidKey => "Invalid key format",
            AuthError::Unauthorized => "Unauthorized",
        }
    }
}

/// A condition of an access policy.
pub enum Condition {
    Role(String),
    Permission(String),
    Tier(ApiTier),
    /// Local hour of day within `start..=end`.
    TimeRange { start: u8, end: u8 },
}

/// Who may perform `action` on `resource`: every condition must hold.
pub struct Policy {
    pub resource: String,
    pub action: String,
    pub conditions: Vec<Condition>,
}

/// A caller of tier `have` meets a tier condition `need`: Enterprise meets
/// every tier, Pro meets Pro and Free, Free meets Free.
pub open spec fn tier_meets(have: ApiTier, need: ApiTier) -> bool {
    match (have, need) {
        (ApiTier::Enterprise, _) => true,
        (ApiTier::Pro, ApiTier::Pro) => true,
        (ApiTier::Pro, ApiTier::Free) => true,
        (ApiTier::Free, ApiTier::Free) => true,
        _ => false,
    }
}

/// The names in a list of strings.
pub open spec fn names(v: Seq<String>) -> Seq<Seq<char>> {
    v.map_values(|s: String| s@)
}

/// Whether a condition holds for these claims at local hour `hour`.
pub open spec fn condition_holds(c: Condition, roles: Seq<Seq<char>>, perms: Seq<Seq<char>>, tier: ApiTier, hour: u8) -> bool {
    match c {
        Condition::Role(r) => roles.contains(r@),
        Condition::Permission(p) => perms.contains(p@),
        Condition::Tier(t) => tier_meets(tier, t),
        Condition::TimeRange { start, end } => hour >= start && hour <= end,
    }
}

/// The first policy for `resource` and `action`, from index `i` on.
pub open spec fn first_policy_from(ps: Seq<Policy>, resource: Seq<char>, action: Seq<char>, i: int) -> Option<int>
    decreases ps.len() - i,
{
    if i >= ps.len() || i < 0 {
        None
    } else if ps[i].resource@ == resource && ps[i].action@ == action {
        Some(i)
    } else {
        first_policy_from(ps, resource, action, i + 1)
    }
}

/// The decision of a policy list: the first policy for the resource and
/// action decides, by all its conditions; with none, access is denied.
pub open spec fn decide(ps: Seq<Policy>, claims: Claims, resource: Seq<char>, action: Seq<char>, hour: u8) -> bool {
    let f = first_policy_from(ps, resource, action, 0);
    f is Some && all_conditions_hold(ps[f->0].conditions@, claims, hour)
}

/// Every condition in `cs` holds for the claims at local hour `hour`.
pub open spec fn all_conditions_hold(cs: Seq<Condition>, claims: Claims, hour: u8) -> bool {
    forall|j: int| 0 <= j < cs.len() ==> condition_holds(
        #[trigger] cs[j],
        names(claims.roles@),
        names(claims.permissions@),
        claims.tier,
        hour,
    )
}

/// Whether `v` holds a string equal to `s`.
pub fn contains_str(v: &Vec<String>, s: &str) -> (r: bool)
    ensures
        r == names(v@).contains(s@),
{
    let mut i: usize = 0;
    while i < v.len()
        invariant
            i <= v@.len(),
            forall|k: int| 0 <= k < i ==> v@[k]@ != s@,
        decreases v.len() - i,
    {
        if str_eq(v[i].as_str(), s) {
            assert(names(v@)[i as int] == s@);
            return true;
        }
        i = i + 1;
    }
    assert forall|k: int| 0 <= k < names(v@).len() implies names(v@)[k] != s@ by {
        assert(names(v@)[k] == v@[k]@);
    }
    false
}

/// Whether a tier condition is met.
pub fn tier_satisfies(have: ApiTier, need: ApiTier) -> (r: bool)
    ensures
        r == tier_meets(have, need),
{
    match (have, need) {
        (ApiTier::Enterprise, _) => true,
        (ApiTier::Pro, ApiTier::Pro) => true,
        (ApiTier::Pro, ApiTier::Free) => true,
        (ApiTier::Free, ApiTier::Free) => true,
        _ => false,
    }
}

/// Holds the access policies.
pub struct PolicyEngine {
    policies: Vec<Policy>,
}

impl PolicyEngine {
    /// The policies, in the order they are consulted.
    pub closed spec fn policies(&self) -> Seq<Policy> {
        self.policies@
    }

    /// The built-in policies: reading readings needs `readings:read`; writing
    /// them needs `readings:write` and the Pro tier; simulating plumes needs
    /// `plume:simulate` and the Enterprise tier.
    pub fn new() -> (e: PolicyEngine)
        ensures
            e.policies().len() == 3,
            e.policies()[0].resource@ == "readings"@ && e.policies()[0].action@ == "read"@,
            e.policies()[0].conditions@.len() == 1,
            e.policies()[0].conditions@[0] matches Condition::Permission(p) && p@ == "readings:read"@,
            e.policies()[1].resource@ == "readings"@ && e.policies()[1].action@ == "write"@,
            e.policies()[1].conditions@.len() == 2,
            e.policies()[1].conditions@[0] matches Condition::Permission(p) && p@ == "readings:write"@,
            e.policies()[1].conditions@[1] == Condition::Tier(ApiTier::Pro),
            e.policies()[2].resource@ == "plume"@ && e.policies()[2].action@ == "simulate"@,
            e.policies()[2].conditions@.len() == 2,
            e.policies()[2].conditions@[0] matches Condition::Permission(p) && p@ == "plume:simulate"@,
            e.policies()[2].conditions@[1] == Condition::Tier(ApiTier::Enterprise),
    {
        let mut policies: Vec<Policy> = Vec::new();
        let mut c0: Vec<Condition> = Vec::new();
        c0.push(Condition::Permission(String::from_str("readings:read")));
        policies.push(Policy {
            resource: String::from_str("readings"),
            action: String::from_str("read"),
            conditions: c0,
        });
        let mut c1: Vec<Condition> = Vec::new();
        c1.push(Condition::Permission(String::from_str("readings:write")));
        c1.push(Condition::Tier(ApiTier::Pro));
        policies.push(Policy {
            resource: String::from_str("readings"),
            action: String::from_str("write"),
            conditions: c1,
        });
        let mut c2: Vec<Condition> = Vec::new();
        c2.push(Condition::Permission(String::from_str("plume:simulate")));
        c2.push(Condition::Tier(ApiTier::Enterprise));
        policies.push(Policy {
            resource: String::from_str("plume"),
            action: String::from_str("simulate"),
            conditions: c2,
        });
        PolicyEngine { policies }
    }

    /// Whether one condition holds for the claims at local hour `hour`.
    fn check_condition(c: &Condition, claims: &Claims, hour: u8) -> (r: bool)
        ensures
            r == condition_holds(*c, names(claims.roles@), names(claims.permissions@), claims.tier, hour),
    {
        match c {
            Condition::Role(role) => contains_str(&claims.roles, role.as_str()),
            Condition::Permission(perm) => contains_str(&claims.permissions, perm.as_str()),
            Condition::Tier(t) => tier_satisfies(claims.tier, *t),
            Condition::TimeRange { start, end } => hour >= *start && hour <= *end,
        }
    }

    /// Decides whether the claims allow `action` on `resource` at local hour
    /// `hour`: the first matching policy decides; with none, access is denied.
    pub fn evaluate(&self, claims: &Claims, resource: &str, action: &str, hour: u8) -> (r: Result<bool, AuthError>)
        ensures
            r matches Ok(b) && b == decide(self.policies(), *claims, resource@, action@, hour),
    {
        let mut i: usize = 0;
        while i < self.policies.len()
            invariant
                i <= self.policies@.len(),
                first_policy_from(self.policies@, resource@, action@, 0) == first_policy_from(
                    self.policies@,
                    resource@,
                    action@,
                    i as int,
                ),
            decreases self.policies.len() - i,
        {
            let p = &self.policies[i];
            if str_eq(p.resource.as_str(), resource) && str_eq(p.action.as_str(), action) {
                let mut j: usize = 0;
                while j < p.conditions.len()
                    invariant
                        i < self.policies@.len(),
                        *p == self.policies@[i as int],
                        p.resource@ == resource@,
                        p.action@ == action@,
                        first_policy_from(self.policies@, resource@, action@, 0) == first_policy_from(
                            self.policies@,
                            resource@,
                            action@,
                            i as int,
                        ),
                        j <= p.conditions@.len(),
                        forall|k: int| 0 <= k < j ==> condition_holds(
                            #[trigger] p.conditions@[k],
                            names(claims.roles@),
                            names(claims.permissions@),
                            claims.tier,
                            hour,
                        ),
                    decreases p.conditions.len() - j,
                {
                    if !Self::check_condition(&p.conditions[j], claims, hour) {
                        proof {
                            assert(first_policy_from(self.policies@, resource@, action@, i as int) == Some(i as int));
                            assert(!condition_holds(
                                self.policies@[i as int].conditions@[j as int],
                                names(claims.roles@),
                                names(claims.permissions@),
                                claims.tier,
                                hour,
                            ));
                        }
                        return Ok(false);
                    }
                    j = j + 1;
                }
                return Ok(true);
            }
            i = i + 1;
        }
        Ok(false)
    }
}

/// With the built-in policies, access to an action no policy names is denied,
/// and simulating plumes is never allowed below the Enterprise tier.
pub proof fn law_default_deny(e: PolicyEngine, claims: Claims, hour: u8)
    requires
        e.policies().len() == 3,
        e.policies()[2].resource@ == "plume"@ && e.policies()[2].action@ == "simulate"@,
        e.policies()[2].conditions@.len() == 2,
        e.policies()[2].conditions@[1] == Condition::Tier(ApiTier::Enterprise),
        !(e.policies()[0].resource@ == "plume"@ && e.policies()[0].action@ == "simulate"@),
        !(e.policies()[1].resource@ == "plume"@ && e.policies()[1].action@ == "simulate"@),
        claims.tier != ApiTier::Enterprise,
    ensures
        !decide(e.policies(), claims, "plume"@, "simulate"@, hour),
{
    let ps = e.policies();
    assert(first_policy_from(ps, "plume"@, "simulate"@, 2) == Some(2int));
    assert(first_policy_from(ps, "plume"@, "simulate"@, 1) == Some(2int));
    assert(first_policy_from(ps, "plume"@, "simulate"@, 0) == Some(2int));
    let c1 = ps[2].conditions@[1];
    assert(!condition_holds(c1, names(claims.roles@), names(claims.permissions@), claims.tier, hour));
    assert(!(forall|j: int| 0 <= j < ps[2].conditions@.len() ==> condition_holds(
        #[trigger] ps[2].conditions@[j],
        names(claims.roles@),
        names(claims.permissions@),
        claims.tier,
        hour,
    )));
}

/// Tier conditions are ordered: a caller who meets a tier also meets every lower one.
pub proof fn law_tiers_ordered(have: ApiTier, need: ApiTier)
    ensures
        tier_meets(have, need) && need == ApiTier::Pro ==> tier_meets(have, ApiTier::Free),
        tier_meets(have, need) && need == ApiTier::Enterprise ==> tier_meets(have, ApiTier::Pro),
        tier_meets(ApiTier::Enterprise, need),
        tier_meets(have, have),
{
}

/// Allowed when the caller holds the permission or the `admin` role; else 403.
pub fn require_permission(claims: &Claims, permission: &str) -> (r: Result<(), AuthError>)
    ensures
        r is Ok <==> (names(claims.permissions@).contains(permission@) || names(claims.roles@).contains("admin"@)),
        r is Err ==> (r matches Err(e) && e == AuthError::Unauthorized),
{
    if contains_str(&claims.permissions, permission) || contains_str(&claims.roles, "admin") {
        Ok(())
    } else {
        Err(AuthError::Unauthorized)
    }
}

/// Requests per window and window length (seconds) for a tier.
pub open spec fn tier_quota(tier: ApiTier) -> (u32, i64) {
    match tier {
        ApiTier::Free => (100, 60),
        ApiTier::Pro => (1000, 60),
        ApiTier::Enterprise => (10000, 60),
    }
}

/// The rate limit answer for a caller of `tier` at `now_ms`.
pub fn check_rate_limit(tier: ApiTier, now_ms: i64) -> (info: RateLimitInfo)
    requires
        now_ms + 60000 <= i64::MAX,
    ensures
        info.requests_remaining == tier_quota(tier).0,
        info.window_reset_ms == now_ms + tier_quota(tier).1 * 1000,
{
    let (n, secs): (u32, i64) = match tier {
        ApiTier::Free => (100, 60),
        ApiTier::Pro => (1000, 60),
        ApiTier::Enterprise => (10000, 60),
    };
    RateLimitInfo { requests_remaining: n, window_reset_ms: now_ms + secs * 1000 }
}

/// Credentials a request presents.
pub enum Credentials {
    Bearer(String),
    ApiKey(String),
}

/// The credentials of a request; any header but `Bearer` or `ApiKey`, or none, is refused.
pub fn credentials_of(header: AuthHeader) -> (r: Result<Credentials, AuthError>)
    ensures
        header.kind() matches AuthHeaderKind::Bearer(t) ==> (r matches Ok(Credentials::Bearer(s)) && s@ == t),
        header.kind() matches AuthHeaderKind::ApiKey(k) ==> (r matches Ok(Credentials::ApiKey(s)) && s@ == k),
        header.kind() is Other ==> (r matches Err(e) && e == AuthError::Unauthorized),
{
    match header {
        AuthHeader::Bearer(t) => Ok(Credentials::Bearer(t)),
        AuthHeader::ApiKey(k) => Ok(Credentials::ApiKey(k)),
        AuthHeader::Other => Err(AuthError::Unauthorized),
    }
}

/// A stored API key's owner, roles and tier (creation time in milliseconds).
pub struct ApiKeyInfo {
    pub user_id: String,
    pub roles: Vec<String>,
    pub tier: ApiTier,
    pub created_at_ms: i64,
}

/// The authentication service's local state: access policies and API keys
/// (the key list starts empty).
pub struct AuthService {
    policy_engine: PolicyEngine,
    api_keys: Vec<(String, ApiKeyInfo)>,
}

/// The index of the first entry keyed `key`.
pub open spec fn key_index(keys: Seq<(String, ApiKeyInfo)>, key: Seq<char>) -> Option<int> {
    if exists|i: int| 0 <= i < keys.len() && keys[i].0@ == key {
        Some(choose|i: int| 0 <= i < keys.len() && keys[i].0@ == key && (forall|j: int| 0 <= j < i ==> keys[j].0@ != key))
    } else {
        None
    }
}

impl AuthService {
    /// The access policies.
    pub closed spec fn engine(&self) -> PolicyEngine {
        self.policy_engine
    }

    /// The API keys, in order.
    pub closed spec fn keys(&self) -> Seq<(String, ApiKeyInfo)> {
        self.api_keys@
    }

    /// A service with the built-in policies and no API keys.
    pub fn new() -> (s: AuthService)
        ensures
            s.keys().len() == 0,
            s.engine().policies().len() == 3,
    {
        AuthService { policy_engine: PolicyEngine::new(), api_keys: Vec::new() }
    }

    /// Claims for an API key: its owner and roles, no permissions, a token that never expires.
    pub fn authenticate_api_key(&self, api_key: &str) -> (r: Result<Claims, AuthError>)
        ensures
            key_index(self.keys(), api_key@) is None ==> (r matches Err(e) && e == AuthError::InvalidApiKey),
            key_index(self.keys(), api_key@) matches Some(i) ==> (r matches Ok(c) && {
                let info = self.keys()[i].1;
                &&& c.sub@ == info.user_id@
                &&& c.exp == usize::MAX
                &&& c.iat == 0
                &&& names(c.roles@) == names(info.roles@)
                &&& c.permissions@.len() == 0
                &&& c.org_id is None
                &&& c.tier == info.tier
            }),
    {
        let mut i: usize = 0;
        while i < self.api_keys.len()
            invariant
                i <= self.api_keys@.len(),
                forall|j: int| 0 <= j < i ==> self.api_keys@[j].0@ != api_key@,
            decreases self.api_keys.len() - i,
        {
            if str_eq(self.api_keys[i].0.as_str(), api_key) {
                let info = &self.api_keys[i].1;
                let roles = clone_strings(&info.roles);
                proof {
                    let ks = self.api_keys@;
                    assert(exists|k: int| 0 <= k < ks.len() && ks[k].0@ == api_key@);
                    let c = choose|k: int| 0 <= k < ks.len() && ks[k].0@ == api_key@ && (forall|j: int| 0 <= j < k ==> ks[j].0@ != api_key@);
                    assert(c == i as int) by {
                        if c < i {
                        } else if c > i {
                        }
                    }
                }
                return Ok(Claims {
                    sub: info.user_id.clone(),
                    exp: usize::MAX,
                    iat: 0,
                    roles,
                    permissions: Vec::new(),
                    org_id: None,
                    tier: info.tier,
                });
            }
            i = i + 1;
        }
        Err(AuthError::InvalidApiKey)
    }

    /// Whether the claims allow `action` on `resource` at local hour `hour`.
    pub fn authorize(&self, claims: &Claims, resource: &str, action: &str, hour: u8) -> (r: Result<bool, AuthError>)
        ensures
            r matches Ok(b) && b == decide(self.engine().policies(), *claims, resource@, action@, hour),
    {
        self.policy_engine.evaluate(claims, resource, action, hour)
    }
}

/// Copies a list of strings.
pub fn clone_strings(v: &Vec<String>) -> (r: Vec<String>)
    ensures
        names(r@) == names(v@),
{
    let mut r: Vec<String> = Vec::new();
    let mut i: usize = 0;
    while i < v.len()
        invariant
            i <= v@.len(),
            r@ == v@.subrange(0, i as int),
        decreases v.len() - i,
    {
        let s = v[i].clone();
        r.push(s);
        i = i + 1;
        assert(r@ =~= v@.subrange(0, i as int));
    }
    assert(v@.subrange(0, v@.len() as int) =~= v@);
    r
}

} // verus!
