//! Settings of the single handlers.

use vstd::prelude::*;
use crate::duplicate::Duplicate;
use crate::table::Table;
use crate::ast::proxy::{Expr, ExprV};

verus! {

/// A fixed response.
#[derive(Debug, PartialEq, Eq)]
pub struct ResponseConfig {
    pub status: u16,
    pub body: Option<Expr>,
    pub headers: Table<String>,
}

/// The mathematical value of a [`ResponseConfig`].
#[verifier::ext_equal]
pub struct ResponseConfigV {
    pub status: u16,
    pub body: Option<ExprV>,
    pub headers: Map<Seq<char>, Seq<char>>,
}

impl DeepView for ResponseConfig {
    type V = ResponseConfigV;

    open spec fn deep_view(&self) -> ResponseConfigV {
        ResponseConfigV {
            status: self.status.deep_view(),
            body: self.body.deep_view(),
            headers: self.headers.deep_view(),
        }
    }
}

impl Duplicate for ResponseConfig {
    fn duplicate(&self) -> Self {
        ResponseConfig {
            status: self.status.duplicate(),
            body: self.body.duplicate(),
            headers: self.headers.duplicate(),
        }
    }
}

/// A redirect.
#[derive(Debug, PartialEq, Eq)]
pub struct RedirectConfig {
    pub to: String,
    pub code: u16,
}

/// The mathematical value of a [`RedirectConfig`].
#[verifier::ext_equal]
pub struct RedirectConfigV {
    pub to: Seq<char>,
    pub code: u16,
}

impl DeepView for RedirectConfig {
    type V = RedirectConfigV;

    open spec fn deep_view(&self) -> RedirectConfigV {
        RedirectConfigV {
            to: self.to.deep_view(),
            code: self.code.deep_view(),
        }
    }
}

impl Duplicate for RedirectConfig {
    fn duplicate(&self) -> Self {
        RedirectConfig {
            to: self.to.duplicate(),
            code: self.code.duplicate(),
        }
    }
}

/// Files served from a directory.
#[derive(Debug, PartialEq, Eq)]
pub struct FileServerConfig {
    pub root: String,
    pub index: Vec<String>,
    pub browse: bool,
    pub compress: bool,
}

/// The mathematical value of a [`FileServerConfig`].
#[verifier::ext_equal]
pub struct FileServerConfigV {
    pub root: Seq<char>,
    pub index: Seq<Seq<char>>,
    pub browse: bool,
    pub compress: bool,
}

impl DeepView for FileServerConfig {
    type V = FileServerConfigV;

    open spec fn deep_view(&self) -> FileServerConfigV {
        FileServerConfigV {
            root: self.root.deep_view(),
            index: self.index.deep_view(),
            browse: self.browse.deep_view(),
            compress: self.compress.deep_view(),
        }
    }
}

impl Duplicate for FileServerConfig {
    fn duplicate(&self) -> Self {
        FileServerConfig {
            root: self.root.duplicate(),
            index: self.index.duplicate(),
            browse: self.browse.duplicate(),
            compress: self.compress.duplicate(),
        }
    }
}

/// Response header operations.
#[derive(Debug, PartialEq, Eq)]
pub struct HeadersConfig {
    pub set: Table<String>,
    pub add: Table<String>,
    pub remove: Vec<String>,
}

/// The mathematical value of a [`HeadersConfig`].
#[verifier::ext_equal]
pub struct HeadersConfigV {
    pub set: Map<Seq<char>, Seq<char>>,
    pub add: Map<Seq<char>, Seq<char>>,
    pub remove: Seq<Seq<char>>,
}

impl DeepView for HeadersConfig {
    type V = HeadersConfigV;

    open spec fn deep_view(&self) -> HeadersConfigV {
        HeadersConfigV {
            set: self.set.deep_view(),
            add: self.add.deep_view(),
            remove: self.remove.deep_view(),
        }
    }
}

impl Duplicate for HeadersConfig {
    fn duplicate(&self) -> Self {
        HeadersConfig {
            set: self.set.duplicate(),
            add: self.add.duplicate(),
            remove: self.remove.duplicate(),
        }
    }
}

impl HeadersConfigV {
    /// Nothing configured.
    pub open spec fn unset() -> HeadersConfigV {
        HeadersConfigV {
            set: Map::<Seq<char>, Seq<char>>::empty(),
            add: Map::<Seq<char>, Seq<char>>::empty(),
            remove: Seq::<Seq<char>>::empty(),
        }
    }
}

impl HeadersConfig {
    /// Nothing configured.
    pub fn unset() -> (r: HeadersConfig)
        ensures
            r.deep_view() == HeadersConfigV::unset(),
    {
        let r = HeadersConfig {
            set: Table::new(),
            add: Table::new(),
            remove: Vec::new(),
        };
        assert(r.deep_view() =~= HeadersConfigV::unset());
        r
    }
}

/// How stored passwords are hashed.
#[derive(Debug, Clone, Copy, PartialEq, Eq, Structural)]
pub enum BasicAuthAlgorithm {
    Bcrypt,
    Argon2id,
}

impl DeepView for BasicAuthAlgorithm {
    type V = BasicAuthAlgorithm;

    open spec fn deep_view(&self) -> BasicAuthAlgorithm {
        *self
    }
}

impl Duplicate for BasicAuthAlgorithm {
    fn duplicate(&self) -> Self {
        *self
    }
}

/// Accounts for basic authentication; no algorithm leaves the scheme to each password.
#[derive(Debug, PartialEq, Eq)]
pub struct BasicAuthConfig {
    pub realm: Option<String>,
    pub algorithm: Option<BasicAuthAlgorithm>,
    pub credentials: Vec<(String, String)>,
}

/// The mathematical value of a [`BasicAuthConfig`].
#[verifier::ext_equal]
pub struct BasicAuthConfigV {
    pub realm: Option<Seq<char>>,
    pub algorithm: Option<BasicAuthAlgorithm>,
    pub credentials: Seq<(Seq<char>, Seq<char>)>,
}

impl DeepView for BasicAuthConfig {
    type V = BasicAuthConfigV;

    open spec fn deep_view(&self) -> BasicAuthConfigV {
        BasicAuthConfigV {
            realm: self.realm.deep_view(),
            algorithm: self.algorithm.deep_view(),
            credentials: self.credentials.deep_view(),
        }
    }
}

impl Duplicate for BasicAuthConfig {
    fn duplicate(&self) -> Self {
        BasicAuthConfig {
            realm: self.realm.duplicate(),
            algorithm: self.algorithm.duplicate(),
            credentials: self.credentials.duplicate(),
        }
    }
}

/// What requests are counted by.
#[derive(Debug, PartialEq, Eq)]
pub enum RateLimitKey {
    Ip,
    Global,
    Route,
    ApiKey,
    Tenant(String),
    Header(String),
}

/// The mathematical value of a [`RateLimitKey`].
#[verifier::ext_equal]
pub enum RateLimitKeyV {
    Ip,
    Global,
    Route,
    ApiKey,
    Tenant(Seq<char>),
    Header(Seq<char>),
}

impl DeepView for RateLimitKey {
    type V = RateLimitKeyV;

    open spec fn deep_view(&self) -> RateLimitKeyV {
        match self {
            RateLimitKey::Ip => RateLimitKeyV::Ip,
            RateLimitKey::Global => RateLimitKeyV::Global,
            RateLimitKey::Route => RateLimitKeyV::Route,
            RateLimitKey::ApiKey => RateLimitKeyV::ApiKey,
            RateLimitKey::Tenant(a) => RateLimitKeyV::Tenant(a.deep_view()),
            RateLimitKey::Header(a) => RateLimitKeyV::Header(a.deep_view()),
        }
    }
}

impl Duplicate for RateLimitKey {
    fn duplicate(&self) -> Self {
        match self {
            RateLimitKey::Ip => RateLimitKey::Ip,
            RateLimitKey::Global => RateLimitKey::Global,
            RateLimitKey::Route => RateLimitKey::Route,
            RateLimitKey::ApiKey => RateLimitKey::ApiKey,
            RateLimitKey::Tenant(a) => RateLimitKey::Tenant(a.duplicate()),
            RateLimitKey::Header(a) => RateLimitKey::Header(a.duplicate()),
        }
    }
}

/// A local rate limit.
#[derive(Debug, PartialEq, Eq)]
pub struct RateLimitConfig {
    pub requests: u64,
    pub window_ms: u64,
    pub burst: u64,
    pub key: RateLimitKey,
    pub dry_run: bool,
}

/// The mathematical value of a [`RateLimitConfig`].
#[verifier::ext_equal]
pub struct RateLimitConfigV {
    pub requests: u64,
    pub window_ms: u64,
    pub burst: u64,
    pub key: RateLimitKeyV,
    pub dry_run: bool,
}

impl DeepView for RateLimitConfig {
    type V = RateLimitConfigV;

    open spec fn deep_view(&self) -> RateLimitConfigV {
        RateLimitConfigV {
            requests: self.requests.deep_view(),
            window_ms: self.window_ms.deep_view(),
            burst: self.burst.deep_view(),
            key: self.key.deep_view(),
            dry_run: self.dry_run.deep_view(),
        }
    }
}

impl Duplicate for RateLimitConfig {
    fn duplicate(&self) -> Self {
        RateLimitConfig {
            requests: self.requests.duplicate(),
            window_ms: self.window_ms.duplicate(),
            burst: self.burst.duplicate(),
            key: self.key.duplicate(),
            dry_run: self.dry_run.duplicate(),
        }
    }
}

/// A request path rewrite.
#[derive(Debug, PartialEq, Eq)]
pub struct RewriteConfig {
    pub replace: Option<String>,
    pub regex: Option<String>,
    pub regex_replace: Option<String>,
    pub strip_prefix: Option<String>,
    pub strip_suffix: Option<String>,
    /// Written as `uri` rather than `rewrite`.
    pub uri_directive: bool,
}

/// The mathematical value of a [`RewriteConfig`].
#[verifier::ext_equal]
pub struct RewriteConfigV {
    pub replace: Option<Seq<char>>,
    pub regex: Option<Seq<char>>,
    pub regex_replace: Option<Seq<char>>,
    pub strip_prefix: Option<Seq<char>>,
    pub strip_suffix: Option<Seq<char>>,
    pub uri_directive: bool,
}

impl DeepView for RewriteConfig {
    type V = RewriteConfigV;

    open spec fn deep_view(&self) -> RewriteConfigV {
        RewriteConfigV {
            replace: self.replace.deep_view(),
            regex: self.regex.deep_view(),
            regex_replace: self.regex_replace.deep_view(),
            strip_prefix: self.strip_prefix.deep_view(),
            strip_suffix: self.strip_suffix.deep_view(),
            uri_directive: self.uri_directive.deep_view(),
        }
    }
}

impl Duplicate for RewriteConfig {
    fn duplicate(&self) -> Self {
        RewriteConfig {
            replace: self.replace.duplicate(),
            regex: self.regex.duplicate(),
            regex_replace: self.regex_replace.duplicate(),
            strip_prefix: self.strip_prefix.duplicate(),
            strip_suffix: self.strip_suffix.duplicate(),
            uri_directive: self.uri_directive.duplicate(),
        }
    }
}

impl RewriteConfigV {
    /// Nothing configured.
    pub open spec fn unset() -> RewriteConfigV {
        RewriteConfigV {
            replace: None,
            regex: None,
            regex_replace: None,
            strip_prefix: None,
            strip_suffix: None,
            uri_directive: false,
        }
    }
}

impl RewriteConfig {
    /// Nothing configured.
    pub fn unset() -> (r: RewriteConfig)
        ensures
            r.deep_view() == RewriteConfigV::unset(),
    {
        let r = RewriteConfig {
            replace: None,
            regex: None,
            regex_replace: None,
            strip_prefix: None,
            strip_suffix: None,
            uri_directive: false,
        };
        assert(r.deep_view() =~= RewriteConfigV::unset());
        r
    }
}

/// Cross-origin rules.
#[derive(Debug, PartialEq, Eq)]
pub struct CorsConfig {
    pub allowed_origins: Vec<String>,
    pub allowed_methods: Vec<String>,
    pub allowed_headers: Vec<String>,
    pub exposed_headers: Vec<String>,
    pub allow_credentials: bool,
    pub max_age: Option<u64>,
}

/// The mathematical value of a [`CorsConfig`].
#[verifier::ext_equal]
pub struct CorsConfigV {
    pub allowed_origins: Seq<Seq<char>>,
    pub allowed_methods: Seq<Seq<char>>,
    pub allowed_headers: Seq<Seq<char>>,
    pub exposed_headers: Seq<Seq<char>>,
    pub allow_credentials: bool,
    pub max_age: Option<u64>,
}

impl DeepView for CorsConfig {
    type V = CorsConfigV;

    open spec fn deep_view(&self) -> CorsConfigV {
        CorsConfigV {
            allowed_origins: self.allowed_origins.deep_view(),
            allowed_methods: self.allowed_methods.deep_view(),
            allowed_headers: self.allowed_headers.deep_view(),
            exposed_headers: self.exposed_headers.deep_view(),
            allow_credentials: self.allow_credentials.deep_view(),
            max_age: self.max_age.deep_view(),
        }
    }
}

impl Duplicate for CorsConfig {
    fn duplicate(&self) -> Self {
        CorsConfig {
            allowed_origins: self.allowed_origins.duplicate(),
            allowed_methods: self.allowed_methods.duplicate(),
            allowed_headers: self.allowed_headers.duplicate(),
            exposed_headers: self.exposed_headers.duplicate(),
            allow_credentials: self.allow_credentials.duplicate(),
            max_age: self.max_age.duplicate(),
        }
    }
}

impl CorsConfigV {
    /// Nothing configured.
    pub open spec fn unset() -> CorsConfigV {
        CorsConfigV {
            allowed_origins: Seq::<Seq<char>>::empty(),
            allowed_methods: Seq::<Seq<char>>::empty(),
            allowed_headers: Seq::<Seq<char>>::empty(),
            exposed_headers: Seq::<Seq<char>>::empty(),
            allow_credentials: false,
            max_age: None,
        }
    }
}

impl CorsConfig {
    /// Nothing configured.
    pub fn unset() -> (r: CorsConfig)
        ensures
            r.deep_view() == CorsConfigV::unset(),
    {
        let r = CorsConfig {
            allowed_origins: Vec::new(),
            allowed_methods: Vec::new(),
            allowed_headers: Vec::new(),
            exposed_headers: Vec::new(),
            allow_credentials: false,
            max_age: None,
        };
        assert(r.deep_view() =~= CorsConfigV::unset());
        r
    }
}

/// Allow and deny rules.
#[derive(Debug, PartialEq, Eq)]
pub struct AccessControlConfig {
    pub allowed_ips: Vec<String>,
    pub denied_ips: Vec<String>,
    pub allowed_referers: Vec<String>,
    pub denied_referers: Vec<String>,
    pub allowed_user_agents: Vec<String>,
    pub denied_user_agents: Vec<String>,
}

/// The mathematical value of a [`AccessControlConfig`].
#[verifier::ext_equal]
pub struct AccessControlConfigV {
    pub allowed_ips: Seq<Seq<char>>,
    pub denied_ips: Seq<Seq<char>>,
    pub allowed_referers: Seq<Seq<char>>,
    pub denied_referers: Seq<Seq<char>>,
    pub allowed_user_agents: Seq<Seq<char>>,
    pub denied_user_agents: Seq<Seq<char>>,
}

impl DeepView for AccessControlConfig {
    type V = AccessControlConfigV;

    open spec fn deep_view(&self) -> AccessControlConfigV {
        AccessControlConfigV {
            allowed_ips: self.allowed_ips.deep_view(),
            denied_ips: self.denied_ips.deep_view(),
            allowed_referers: self.allowed_referers.deep_view(),
            denied_referers: self.denied_referers.deep_view(),
            allowed_user_agents: self.allowed_user_agents.deep_view(),
            denied_user_agents: self.denied_user_agents.deep_view(),
        }
    }
}

impl Duplicate for AccessControlConfig {
    fn duplicate(&self) -> Self {
        AccessControlConfig {
            allowed_ips: self.allowed_ips.duplicate(),
            denied_ips: self.denied_ips.duplicate(),
            allowed_referers: self.allowed_referers.duplicate(),
            denied_referers: self.denied_referers.duplicate(),
            allowed_user_agents: self.allowed_user_agents.duplicate(),
            denied_user_agents: self.denied_user_agents.duplicate(),
        }
    }
}

impl AccessControlConfigV {
    /// Nothing configured.
    pub open spec fn unset() -> AccessControlConfigV {
        AccessControlConfigV {
            allowed_ips: Seq::<Seq<char>>::empty(),
            denied_ips: Seq::<Seq<char>>::empty(),
            allowed_referers: Seq::<Seq<char>>::empty(),
            denied_referers: Seq::<Seq<char>>::empty(),
            allowed_user_agents: Seq::<Seq<char>>::empty(),
            denied_user_agents: Seq::<Seq<char>>::empty(),
        }
    }
}

impl AccessControlConfig {
    /// Nothing configured.
    pub fn unset() -> (r: AccessControlConfig)
        ensures
            r.deep_view() == AccessControlConfigV::unset(),
    {
        let r = AccessControlConfig {
            allowed_ips: Vec::new(),
            denied_ips: Vec::new(),
            allowed_referers: Vec::new(),
            denied_referers: Vec::new(),
            allowed_user_agents: Vec::new(),
            denied_user_agents: Vec::new(),
        };
        assert(r.deep_view() =~= AccessControlConfigV::unset());
        r
    }
}

/// An error raised on purpose.
#[derive(Debug, PartialEq, Eq)]
pub struct ErrorConfig {
    pub status: u16,
    pub message: Option<String>,
}

/// The mathematical value of a [`ErrorConfig`].
#[verifier::ext_equal]
pub struct ErrorConfigV {
    pub status: u16,
    pub message: Option<Seq<char>>,
}

impl DeepView for ErrorConfig {
    type V = ErrorConfigV;

    open spec fn deep_view(&self) -> ErrorConfigV {
        ErrorConfigV {
            status: self.status.deep_view(),
            message: self.message.deep_view(),
        }
    }
}

impl Duplicate for ErrorConfig {
    fn duplicate(&self) -> Self {
        ErrorConfig {
            status: self.status.duplicate(),
            message: self.message.duplicate(),
        }
    }
}

} // verus!
