//! Matchers, handlers and sites, which nest.

use crate::ast::handler::{
    AccessControlConfig, AccessControlConfigV, BasicAuthConfig, BasicAuthConfigV, CorsConfig,
    CorsConfigV, ErrorConfig, ErrorConfigV, FileServerConfig, FileServerConfigV, HeadersConfig,
    HeadersConfigV, RateLimitConfig, RateLimitConfigV, RedirectConfig, RedirectConfigV,
    ResponseConfig, ResponseConfigV, RewriteConfig, RewriteConfigV,
};
use crate::ast::log::{LogBlock, LogBlockV, LoggingBlock, LoggingBlockV};
use crate::ast::matcher::{
    HeaderMatcher, HeaderMatcherV, HttpMethod, PathMatcher, PathMatcherV, QueryMatcher,
    QueryMatcherV,
};
use crate::ast::options::{
    AdminDirective, AdminDirectiveV, AutoHttpsMode, DnsProvider, DnsProviderV, MetricsOptions,
    PreferredChains, PreferredChainsV, Protocol,
};
use crate::ast::proxy::{
    ProxyConfig, ProxyConfigV, ResponseHandlerConfig, ResponseHandlerConfigV,
};
use crate::ast::server::{
    CompressionAlgo, ListenAddr, ListenAddrV, ResourceLimitsConfig, TlsDirective, TlsDirectiveV,
};
use crate::duplicate::Duplicate;
use crate::syntax::{Directive, DirectiveV};
use crate::table::Table;
use vstd::prelude::*;

verus! {

/// A condition on a request.
#[derive(Debug, PartialEq, Eq)]
pub enum Matcher {
    Path(PathMatcher),
    Named(String),
    And(Box<Matcher>, Box<Matcher>),
    Or(Box<Matcher>, Box<Matcher>),
    Not(Box<Matcher>),
    Header(HeaderMatcher),
    Query(QueryMatcher),
    Method(Vec<HttpMethod>),
    Host(Vec<String>),
    RemoteIp(Vec<String>),
    Protocol(Vec<String>),
}

/// The mathematical value of a [`Matcher`].
#[verifier::ext_equal]
pub enum MatcherV {
    Path(PathMatcherV),
    Named(Seq<char>),
    And(Box<MatcherV>, Box<MatcherV>),
    Or(Box<MatcherV>, Box<MatcherV>),
    Not(Box<MatcherV>),
    Header(HeaderMatcherV),
    Query(QueryMatcherV),
    Method(Seq<HttpMethod>),
    Host(Seq<Seq<char>>),
    RemoteIp(Seq<Seq<char>>),
    Protocol(Seq<Seq<char>>),
}

/// The mathematical value of a matcher.
pub open spec fn matcher_view(m: Matcher) -> MatcherV
    decreases m,
{
    match m {
        Matcher::Path(a) => MatcherV::Path(a.deep_view()),
        Matcher::Named(a) => MatcherV::Named(a.deep_view()),
        Matcher::And(a, b) => MatcherV::And(Box::new(matcher_view(*a)), Box::new(matcher_view(*b))),
        Matcher::Or(a, b) => MatcherV::Or(Box::new(matcher_view(*a)), Box::new(matcher_view(*b))),
        Matcher::Not(a) => MatcherV::Not(Box::new(matcher_view(*a))),
        Matcher::Header(a) => MatcherV::Header(a.deep_view()),
        Matcher::Query(a) => MatcherV::Query(a.deep_view()),
        Matcher::Method(a) => MatcherV::Method(a.deep_view()),
        Matcher::Host(a) => MatcherV::Host(a.deep_view()),
        Matcher::RemoteIp(a) => MatcherV::RemoteIp(a.deep_view()),
        Matcher::Protocol(a) => MatcherV::Protocol(a.deep_view()),
    }
}

impl DeepView for Matcher {
    type V = MatcherV;

    open spec fn deep_view(&self) -> MatcherV {
        matcher_view(*self)
    }
}

/// Copies a matcher.
pub fn copy_matcher(m: &Matcher) -> (r: Matcher)
    ensures
        matcher_view(r) == matcher_view(*m),
    decreases m,
{
    match m {
        Matcher::Path(a) => Matcher::Path(a.duplicate()),
        Matcher::Named(a) => Matcher::Named(a.duplicate()),
        Matcher::And(a, b) => Matcher::And(Box::new(copy_matcher(a)), Box::new(copy_matcher(b))),
        Matcher::Or(a, b) => Matcher::Or(Box::new(copy_matcher(a)), Box::new(copy_matcher(b))),
        Matcher::Not(a) => Matcher::Not(Box::new(copy_matcher(a))),
        Matcher::Header(a) => Matcher::Header(a.duplicate()),
        Matcher::Query(a) => Matcher::Query(a.duplicate()),
        Matcher::Method(a) => Matcher::Method(a.duplicate()),
        Matcher::Host(a) => Matcher::Host(a.duplicate()),
        Matcher::RemoteIp(a) => Matcher::RemoteIp(a.duplicate()),
        Matcher::Protocol(a) => Matcher::Protocol(a.duplicate()),
    }
}

impl Duplicate for Matcher {
    fn duplicate(&self) -> Self {
        copy_matcher(self)
    }
}

/// What is done with a request.
#[derive(Debug, PartialEq, Eq)]
pub enum Handler {
    Proxy(Box<ProxyConfig>),
    Respond(ResponseConfig),
    Redirect(RedirectConfig),
    FileServer(FileServerConfig),
    Headers(HeadersConfig),
    BasicAuth(BasicAuthConfig),
    RateLimit(RateLimitConfig),
    Rewrite(RewriteConfig),
    Cors(CorsConfig),
    AccessControl(AccessControlConfig),
    /// The first candidate that exists becomes the path.
    TryFiles(Vec<String>),
    Error(ErrorConfig),
    /// Variables for later handlers.
    Vars(Table<String>),
    /// Steps taken on the responses of later handlers.
    Intercept(Vec<ResponseHandlerConfig>),
    /// The response is rendered as a template.
    Templates,
    /// The request is not logged.
    LogSkip,
    /// A handler that is loaded by name.
    Plugin(String),
    /// The elements run one after the other.
    Pipeline(Vec<HandlerElement>),
    /// A group of elements in directive order.
    Handle(Vec<HandlerElement>),
    /// A group that first strips a path prefix.
    HandlePath(String, Vec<HandlerElement>),
    /// Of these elements the first whose matcher holds runs, and no other.
    HandleGroup(Vec<HandlerElement>),
}

/// A handler behind an optional matcher.
#[derive(Debug, PartialEq, Eq)]
pub struct HandlerElement {
    pub matcher: Option<Matcher>,
    pub handler: Handler,
}

/// The mathematical value of a [`Handler`].
#[verifier::ext_equal]
pub enum HandlerV {
    Proxy(ProxyConfigV),
    Respond(ResponseConfigV),
    Redirect(RedirectConfigV),
    FileServer(FileServerConfigV),
    Headers(HeadersConfigV),
    BasicAuth(BasicAuthConfigV),
    RateLimit(RateLimitConfigV),
    Rewrite(RewriteConfigV),
    Cors(CorsConfigV),
    AccessControl(AccessControlConfigV),
    TryFiles(Seq<Seq<char>>),
    Error(ErrorConfigV),
    Vars(Map<Seq<char>, Seq<char>>),
    Intercept(Seq<ResponseHandlerConfigV>),
    Templates,
    LogSkip,
    Plugin(Seq<char>),
    Pipeline(Seq<HandlerElementV>),
    Handle(Seq<HandlerElementV>),
    HandlePath(Seq<char>, Seq<HandlerElementV>),
    HandleGroup(Seq<HandlerElementV>),
}

/// The mathematical value of a [`HandlerElement`].
#[verifier::ext_equal]
pub struct HandlerElementV {
    pub matcher: Option<MatcherV>,
    pub handler: HandlerV,
}

/// The mathematical value of a handler.
pub open spec fn handler_view(h: Handler) -> HandlerV
    decreases h,
{
    match h {
        Handler::Proxy(a) => HandlerV::Proxy(a.deep_view()),
        Handler::Respond(a) => HandlerV::Respond(a.deep_view()),
        Handler::Redirect(a) => HandlerV::Redirect(a.deep_view()),
        Handler::FileServer(a) => HandlerV::FileServer(a.deep_view()),
        Handler::Headers(a) => HandlerV::Headers(a.deep_view()),
        Handler::BasicAuth(a) => HandlerV::BasicAuth(a.deep_view()),
        Handler::RateLimit(a) => HandlerV::RateLimit(a.deep_view()),
        Handler::Rewrite(a) => HandlerV::Rewrite(a.deep_view()),
        Handler::Cors(a) => HandlerV::Cors(a.deep_view()),
        Handler::AccessControl(a) => HandlerV::AccessControl(a.deep_view()),
        Handler::TryFiles(a) => HandlerV::TryFiles(a.deep_view()),
        Handler::Error(a) => HandlerV::Error(a.deep_view()),
        Handler::Vars(a) => HandlerV::Vars(a.deep_view()),
        Handler::Intercept(a) => HandlerV::Intercept(a.deep_view()),
        Handler::Templates => HandlerV::Templates,
        Handler::LogSkip => HandlerV::LogSkip,
        Handler::Plugin(a) => HandlerV::Plugin(a.deep_view()),
        Handler::Pipeline(a) => HandlerV::Pipeline(elements_view(a@)),
        Handler::Handle(a) => HandlerV::Handle(elements_view(a@)),
        Handler::HandlePath(a, b) => HandlerV::HandlePath(a.deep_view(), elements_view(b@)),
        Handler::HandleGroup(a) => HandlerV::HandleGroup(elements_view(a@)),
    }
}

/// The mathematical value of a handler behind a matcher.
pub open spec fn element_view(e: HandlerElement) -> HandlerElementV
    decreases e,
{
    HandlerElementV { matcher: e.matcher.deep_view(), handler: handler_view(e.handler) }
}

/// The mathematical value of a list of handlers.
pub open spec fn elements_view(s: Seq<HandlerElement>) -> Seq<HandlerElementV>
    decreases s,
{
    Seq::new(
        s.len(),
        |i: int|
            if 0 <= i < s.len() {
                element_view(s[i])
            } else {
                arbitrary()
            },
    )
}

impl DeepView for Handler {
    type V = HandlerV;

    open spec fn deep_view(&self) -> HandlerV {
        handler_view(*self)
    }
}

impl DeepView for HandlerElement {
    type V = HandlerElementV;

    open spec fn deep_view(&self) -> HandlerElementV {
        element_view(*self)
    }
}

/// The two ways to view a list of elements agree.
pub proof fn lemma_elements_view(v: Vec<HandlerElement>)
    ensures
        v.deep_view() == elements_view(v@),
{
    assert(v.deep_view() =~= elements_view(v@));
}

/// Copies a handler.
pub fn copy_handler(h: &Handler) -> (r: Handler)
    ensures
        handler_view(r) == handler_view(*h),
    decreases h,
{
    match h {
        Handler::Proxy(a) => Handler::Proxy(a.duplicate()),
        Handler::Respond(a) => Handler::Respond(a.duplicate()),
        Handler::Redirect(a) => Handler::Redirect(a.duplicate()),
        Handler::FileServer(a) => Handler::FileServer(a.duplicate()),
        Handler::Headers(a) => Handler::Headers(a.duplicate()),
        Handler::BasicAuth(a) => Handler::BasicAuth(a.duplicate()),
        Handler::RateLimit(a) => Handler::RateLimit(a.duplicate()),
        Handler::Rewrite(a) => Handler::Rewrite(a.duplicate()),
        Handler::Cors(a) => Handler::Cors(a.duplicate()),
        Handler::AccessControl(a) => Handler::AccessControl(a.duplicate()),
        Handler::TryFiles(a) => Handler::TryFiles(a.duplicate()),
        Handler::Error(a) => Handler::Error(a.duplicate()),
        Handler::Vars(a) => Handler::Vars(a.duplicate()),
        Handler::Intercept(a) => Handler::Intercept(a.duplicate()),
        Handler::Templates => Handler::Templates,
        Handler::LogSkip => Handler::LogSkip,
        Handler::Plugin(a) => Handler::Plugin(a.duplicate()),
        Handler::Pipeline(a) => Handler::Pipeline(copy_elements(a)),
        Handler::Handle(a) => Handler::Handle(copy_elements(a)),
        Handler::HandlePath(a, b) => Handler::HandlePath(a.duplicate(), copy_elements(b)),
        Handler::HandleGroup(a) => Handler::HandleGroup(copy_elements(a)),
    }
}

/// Copies a handler behind a matcher.
pub fn copy_element(e: &HandlerElement) -> (r: HandlerElement)
    ensures
        element_view(r) == element_view(*e),
    decreases e,
{
    HandlerElement { matcher: e.matcher.duplicate(), handler: copy_handler(&e.handler) }
}

/// Copies a list of handlers.
pub fn copy_elements(list: &Vec<HandlerElement>) -> (r: Vec<HandlerElement>)
    ensures
        elements_view(r@) == elements_view(list@),
    decreases list,
{
    let mut out: Vec<HandlerElement> = Vec::new();
    let mut i: usize = 0;
    while i < list.len()
        invariant
            i <= list.len(),
            out@.len() == i,
            forall|j: int| 0 <= j < i ==> element_view(out@[j]) == element_view(list@[j]),
        decreases list.len() - i,
    {
        out.push(copy_element(&list[i]));
        i += 1;
    }
    assert(elements_view(out@) =~= elements_view(list@));
    out
}

impl Duplicate for Handler {
    fn duplicate(&self) -> Self {
        copy_handler(self)
    }
}

impl Duplicate for HandlerElement {
    fn duplicate(&self) -> Self {
        copy_element(self)
    }
}

/// A route: where it applies and what it does.
#[derive(Debug, PartialEq, Eq)]
pub struct RouteArm {
    pub matcher: Option<Matcher>,
    pub handler: Handler,
}

/// The mathematical value of a [`RouteArm`].
#[verifier::ext_equal]
pub struct RouteArmV {
    pub matcher: Option<MatcherV>,
    pub handler: HandlerV,
}

impl DeepView for RouteArm {
    type V = RouteArmV;

    open spec fn deep_view(&self) -> RouteArmV {
        RouteArmV {
            matcher: self.matcher.deep_view(),
            handler: self.handler.deep_view(),
        }
    }
}

impl Duplicate for RouteArm {
    fn duplicate(&self) -> Self {
        RouteArm { matcher: self.matcher.duplicate(), handler: self.handler.duplicate() }
    }
}

/// A site.
#[derive(Debug, PartialEq, Eq)]
pub struct ServerBlock {
    pub name: String,
    pub names: Vec<String>,
    pub listens: Vec<ListenAddr>,
    pub bind: Option<String>,
    pub root: Option<String>,
    pub compress: Option<Vec<CompressionAlgo>>,
    pub gzip_types: Vec<String>,
    pub log: Option<LogBlock>,
    /// The process-wide channels that the site writes to.
    pub log_channels: Vec<String>,
    /// Loggers of the site with a name of their own.
    pub named_logs: Vec<LogBlock>,
    pub tls: Option<TlsDirective>,
    pub limits: ResourceLimitsConfig,
    pub error_pages: Vec<(u16, String)>,
    pub matchers: Table<Matcher>,
    pub routes: Option<Vec<RouteArm>>,
}

/// The mathematical value of a [`ServerBlock`].
#[verifier::ext_equal]
pub struct ServerBlockV {
    pub name: Seq<char>,
    pub names: Seq<Seq<char>>,
    pub listens: Seq<ListenAddrV>,
    pub bind: Option<Seq<char>>,
    pub root: Option<Seq<char>>,
    pub compress: Option<Seq<CompressionAlgo>>,
    pub gzip_types: Seq<Seq<char>>,
    pub log: Option<LogBlockV>,
    pub log_channels: Seq<Seq<char>>,
    pub named_logs: Seq<LogBlockV>,
    pub tls: Option<TlsDirectiveV>,
    pub limits: ResourceLimitsConfig,
    pub error_pages: Seq<(u16, Seq<char>)>,
    pub matchers: Map<Seq<char>, MatcherV>,
    pub routes: Option<Seq<RouteArmV>>,
}

impl DeepView for ServerBlock {
    type V = ServerBlockV;

    open spec fn deep_view(&self) -> ServerBlockV {
        ServerBlockV {
            name: self.name.deep_view(),
            names: self.names.deep_view(),
            listens: self.listens.deep_view(),
            bind: self.bind.deep_view(),
            root: self.root.deep_view(),
            compress: self.compress.deep_view(),
            gzip_types: self.gzip_types.deep_view(),
            log: self.log.deep_view(),
            log_channels: self.log_channels.deep_view(),
            named_logs: self.named_logs.deep_view(),
            tls: self.tls.deep_view(),
            limits: self.limits.deep_view(),
            error_pages: self.error_pages.deep_view(),
            matchers: self.matchers.deep_view(),
            routes: self.routes.deep_view(),
        }
    }
}

/// The global settings.
#[derive(Debug, PartialEq, Eq)]
pub struct GlobalBlock {
    pub debug: Option<bool>,
    pub email: Option<String>,
    pub http_port: Option<u16>,
    pub https_port: Option<u16>,
    pub metrics: Option<bool>,
    pub metrics_options: MetricsOptions,
    pub auto_https: Option<AutoHttpsMode>,
    pub admin: Option<AdminDirective>,
    pub trusted_proxies: Vec<String>,
    pub dns_refresh_secs: Option<u64>,
    pub protocols: Vec<Protocol>,
    pub logging: Option<LoggingBlock>,
    pub grace_period_secs: Option<u64>,
    pub local_certs: bool,
    pub persist_config_off: bool,
    pub pki: Vec<Directive>,
    pub skip_install_trust: bool,
    pub dns: Option<DnsProvider>,
    pub acme_dns: Option<Option<DnsProvider>>,
    pub tls_resolvers: Vec<String>,
    pub default_sni: Option<String>,
    pub renewal_window_ratio: Option<String>,
    pub default_bind: Vec<String>,
    pub preferred_chains: Option<PreferredChains>,
}

/// The mathematical value of a [`GlobalBlock`].
#[verifier::ext_equal]
pub struct GlobalBlockV {
    pub debug: Option<bool>,
    pub email: Option<Seq<char>>,
    pub http_port: Option<u16>,
    pub https_port: Option<u16>,
    pub metrics: Option<bool>,
    pub metrics_options: MetricsOptions,
    pub auto_https: Option<AutoHttpsMode>,
    pub admin: Option<AdminDirectiveV>,
    pub trusted_proxies: Seq<Seq<char>>,
    pub dns_refresh_secs: Option<u64>,
    pub protocols: Seq<Protocol>,
    pub logging: Option<LoggingBlockV>,
    pub grace_period_secs: Option<u64>,
    pub local_certs: bool,
    pub persist_config_off: bool,
    pub pki: Seq<DirectiveV>,
    pub skip_install_trust: bool,
    pub dns: Option<DnsProviderV>,
    pub acme_dns: Option<Option<DnsProviderV>>,
    pub tls_resolvers: Seq<Seq<char>>,
    pub default_sni: Option<Seq<char>>,
    pub renewal_window_ratio: Option<Seq<char>>,
    pub default_bind: Seq<Seq<char>>,
    pub preferred_chains: Option<PreferredChainsV>,
}

impl DeepView for GlobalBlock {
    type V = GlobalBlockV;

    open spec fn deep_view(&self) -> GlobalBlockV {
        GlobalBlockV {
            debug: self.debug.deep_view(),
            email: self.email.deep_view(),
            http_port: self.http_port.deep_view(),
            https_port: self.https_port.deep_view(),
            metrics: self.metrics.deep_view(),
            metrics_options: self.metrics_options.deep_view(),
            auto_https: self.auto_https.deep_view(),
            admin: self.admin.deep_view(),
            trusted_proxies: self.trusted_proxies.deep_view(),
            dns_refresh_secs: self.dns_refresh_secs.deep_view(),
            protocols: self.protocols.deep_view(),
            logging: self.logging.deep_view(),
            grace_period_secs: self.grace_period_secs.deep_view(),
            local_certs: self.local_certs.deep_view(),
            persist_config_off: self.persist_config_off.deep_view(),
            pki: self.pki.deep_view(),
            skip_install_trust: self.skip_install_trust.deep_view(),
            dns: self.dns.deep_view(),
            acme_dns: self.acme_dns.deep_view(),
            tls_resolvers: self.tls_resolvers.deep_view(),
            default_sni: self.default_sni.deep_view(),
            renewal_window_ratio: self.renewal_window_ratio.deep_view(),
            default_bind: self.default_bind.deep_view(),
            preferred_chains: self.preferred_chains.deep_view(),
        }
    }
}

impl GlobalBlockV {
    /// Nothing configured.
    pub open spec fn unset() -> GlobalBlockV {
        GlobalBlockV {
            debug: None,
            email: None,
            http_port: None,
            https_port: None,
            metrics: None,
            metrics_options: MetricsOptions::none(),
            auto_https: None,
            admin: None,
            trusted_proxies: Seq::<Seq<char>>::empty(),
            dns_refresh_secs: None,
            protocols: Seq::<Protocol>::empty(),
            logging: None,
            grace_period_secs: None,
            local_certs: false,
            persist_config_off: false,
            pki: Seq::<DirectiveV>::empty(),
            skip_install_trust: false,
            dns: None,
            acme_dns: None,
            tls_resolvers: Seq::<Seq<char>>::empty(),
            default_sni: None,
            renewal_window_ratio: None,
            default_bind: Seq::<Seq<char>>::empty(),
            preferred_chains: None,
        }
    }
}

impl GlobalBlock {
    /// Nothing configured.
    pub fn unset() -> (r: GlobalBlock)
        ensures
            r.deep_view() == GlobalBlockV::unset(),
    {
        let r = GlobalBlock {
            debug: None,
            email: None,
            http_port: None,
            https_port: None,
            metrics: None,
            metrics_options: MetricsOptions::unset(),
            auto_https: None,
            admin: None,
            trusted_proxies: Vec::new(),
            dns_refresh_secs: None,
            protocols: Vec::new(),
            logging: None,
            grace_period_secs: None,
            local_certs: false,
            persist_config_off: false,
            pki: Vec::new(),
            skip_install_trust: false,
            dns: None,
            acme_dns: None,
            tls_resolvers: Vec::new(),
            default_sni: None,
            renewal_window_ratio: None,
            default_bind: Vec::new(),
            preferred_chains: None,
        };
        assert(r.deep_view() =~= GlobalBlockV::unset());
        r
    }
}

/// A whole configuration.
#[derive(Debug, PartialEq, Eq)]
pub struct Ast {
    pub global: Option<GlobalBlock>,
    pub servers: Vec<ServerBlock>,
}

/// The mathematical value of a [`Ast`].
#[verifier::ext_equal]
pub struct AstV {
    pub global: Option<GlobalBlockV>,
    pub servers: Seq<ServerBlockV>,
}

impl DeepView for Ast {
    type V = AstV;

    open spec fn deep_view(&self) -> AstV {
        AstV {
            global: self.global.deep_view(),
            servers: self.servers.deep_view(),
        }
    }
}

} // verus!
