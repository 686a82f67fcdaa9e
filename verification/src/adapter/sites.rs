//! A site block becomes a server: its addresses, settings and routes.

use crate::adapter::addresses;
use crate::adapter::addresses::{
    any_host, is_local_https_default, looks_like_unsupported_address, parse_server_address,
    reject_impossible_address,
};
use crate::adapter::content;
use crate::adapter::content::{adapt_header_directive, adapt_vars_directive};
use crate::adapter::handlers;
use crate::adapter::handlers::{adapt_handle_path, adapt_handler, shift};
use crate::adapter::limits;
use crate::adapter::limits::adapt_resource_limits;
use crate::adapter::logs;
use crate::adapter::logs::adapt_log_block;
use crate::adapter::matcher_sets;
use crate::adapter::matcher_sets::parse_matcher_definition;
use crate::adapter::matchers;
use crate::adapter::matchers::{matcher_token, parse_route_matcher};
use crate::adapter::options;
use crate::adapter::options::is_wildcard_host;
use crate::adapter::order::DirectiveOrder;
use crate::adapter::profile::Profile;
use crate::adapter::ranks;
use crate::adapter::ranks::{
    caddy_handler_rank, handler_has_terminal, make_specific_key,
};
use crate::adapter::registry;
use crate::adapter::registry::is_adapted_elsewhere;
use crate::adapter::responses;
use crate::adapter::responses::adapt_intercept;
use crate::adapter::route_order;
use crate::adapter::route_order::{number_all, RouteOrderKey};
use crate::adapter::settings;
use crate::adapter::settings::{
    read_codings, read_document_root, read_error_pages, read_listener, read_mime_patterns,
};
use crate::adapter::tls;
use crate::adapter::tls::adapt_tls_directive;
use crate::arrange;
use crate::arrange::{arrange, sort_stable};
use crate::ast::handler::HeadersConfigV;
use crate::ast::log::{LogBlock, LogBlockV};
use crate::ast::proxy::ResponseHandlerConfigV;
use crate::ast::server::{
    CompressionAlgo, ListenAddr, ListenAddrV, ResourceLimitsConfig, Scheme, TlsDirective,
    TlsDirectiveV,
};
use crate::ast::tree;
use crate::ast::tree::{
    copy_handler, Handler, HandlerElement, HandlerElementV, HandlerV, Matcher, MatcherV, RouteArm,
    RouteArmV, ServerBlock, ServerBlockV,
};
use crate::duplicate::Duplicate;
use crate::error;
use crate::error::{invalid, miscount, unsupported, AdapterError, ErrorV};
use crate::fold;
use crate::fold::fold_directives;
use crate::syntax;
use crate::syntax::{Directive, DirectiveV};
use crate::table::Table;
use crate::text;
use crate::text::{begins, begins_with, cat3, holds, listed, mentions, same, trim_end};
use vstd::prelude::*;

verus! {

// ---------------------------------------------------------------------------
// Addresses
// ---------------------------------------------------------------------------
/// A server of which nothing but the name is known.
pub open spec fn fresh(name: Seq<char>) -> ServerBlockV {
    ServerBlockV {
        name,
        names: Seq::empty(),
        listens: Seq::empty(),
        bind: None,
        root: None,
        compress: None,
        gzip_types: Seq::empty(),
        log: None,
        log_channels: Seq::empty(),
        named_logs: Seq::empty(),
        tls: None,
        limits: ResourceLimitsConfig::none(),
        error_pages: Seq::empty(),
        matchers: Map::empty(),
        routes: None,
    }
}

fn make_fresh(name: String) -> (r: ServerBlock)
    ensures
        r.deep_view() == fresh(name@),
{
    let r = ServerBlock {
        name,
        names: Vec::new(),
        listens: Vec::new(),
        bind: None,
        root: None,
        compress: None,
        gzip_types: Vec::new(),
        log: None,
        log_channels: Vec::new(),
        named_logs: Vec::new(),
        tls: None,
        limits: ResourceLimitsConfig::unset(),
        error_pages: Vec::new(),
        matchers: Table::new(),
        routes: None,
    };
    assert(r.deep_view() =~= fresh(name@));
    r
}

/// Whether an argument of a site is a further address.
pub open spec fn address_like(arg: Seq<char>) -> bool {
    arg.contains(':') || arg.contains('.') || arg == "localhost"@
}

/// The further addresses among the arguments, without trailing commas.
pub open spec fn further_addresses(list: Seq<Seq<char>>) -> Seq<Seq<char>>
    decreases list.len(),
{
    if list.len() == 0 {
        Seq::empty()
    } else if address_like(list.last()) {
        further_addresses(list.drop_last()).push(text::trimmed_end(list.last(), ','))
    } else {
        further_addresses(list.drop_last())
    }
}

/// The addresses of a site.
pub open spec fn site_addresses(d: DirectiveV) -> Seq<Seq<char>> {
    seq![text::trimmed_end(d.name, ',')] + further_addresses(d.args)
}

fn collect_addresses(d: &Directive) -> (r: Vec<String>)
    ensures
        r.deep_view() == site_addresses(d.deep_view()),
{
    let ghost all = d.args.deep_view();
    let ghost first = text::trimmed_end(d.name@, ',');
    let mut out: Vec<String> = vec![trim_end(d.name.as_str(), ',').to_owned()];
    let mut i: usize = 0;
    assert(out.deep_view() =~= seq![first] + further_addresses(all.take(0)));
    while i < d.args.len()
        invariant
            i <= d.args.len(),
            all == d.args.deep_view(),
            out.deep_view() == seq![first] + further_addresses(all.take(i as int)),
        decreases d.args.len() - i,
    {
        assert(all.take(i + 1).drop_last() =~= all.take(i as int));
        assert(all.take(i + 1).last() == d.args@[i as int]@);
        let arg = d.args[i].as_str();
        if holds(arg, ':') || holds(arg, '.') || same(arg, "localhost") {
            let ghost held = out.deep_view();
            let next = trim_end(arg, ',').to_owned();
            out.push(next);
            assert(out.deep_view() =~= held.push(next@));
            assert(held.push(next@) =~= seq![first] + further_addresses(all.take(i + 1)));
        }
        i += 1;
    }
    assert(all.take(i as int) =~= all);
    out
}

/// A listener on the default port of a scheme, for every host.
pub open spec fn scheme_listener(profile: Profile, secure: bool) -> ListenAddrV {
    ListenAddrV {
        scheme: if secure {
            Scheme::Https
        } else {
            Scheme::Http
        },
        host: addresses::every_interface(profile),
        port: Some(
            if secure {
                443
            } else {
                80
            },
        ),
        force_plaintext: profile == Profile::Extended && !secure,
        proxy_protocol: false,
    }
}

/// A hostname that a request can name.
pub open spec fn servable(profile: Profile, hostname: Seq<char>) -> bool {
    hostname.len() > 0 && match profile {
        Profile::Core => hostname != "0.0.0.0"@,
        Profile::Extended => !options::wildcard_host(hostname),
    }
}

/// One address of a site: the listener that it names, and the host that it serves.
pub open spec fn with_address(profile: Profile, s: ServerBlockV, addr: Seq<char>) -> Result<
    ServerBlockV,
    ErrorV,
> {
    match (if profile == Profile::Extended {
        addresses::possible_address(addr)
    } else {
        Ok(())
    }) {
        Err(e) => Err(e),
        Ok(()) => if addr == "http://"@ || addr == "https://"@ {
            Ok(
                ServerBlockV {
                    listens: s.listens.push(scheme_listener(profile, addr == "https://"@)),
                    ..s
                },
            )
        } else {
            match addresses::server_address(profile, addr) {
                Some(p) => Ok(
                    ServerBlockV {
                        listens: if p.explicit {
                            s.listens.push(p.listen)
                        } else {
                            s.listens
                        },
                        names: if servable(profile, p.hostname) && !s.names.contains(
                            p.hostname,
                        ) {
                            s.names.push(p.hostname)
                        } else {
                            s.names
                        },
                        ..s
                    },
                ),
                None => if addresses::unsupported_address(addr) {
                    Err(
                        ErrorV::UnsupportedFeature(
                            "site address"@,
                            "`"@ + addr
                                + "` uses a network prefix, a port range or a Unix socket, none of which Pingclair supports yet"@,
                        ),
                    )
                } else {
                    Ok(s)
                },
            }
        },
    }
}

/// The addresses of a site, one after the other.
pub open spec fn with_addresses(profile: Profile, s: ServerBlockV, list: Seq<Seq<char>>) -> Result<
    ServerBlockV,
    ErrorV,
>
    decreases list.len(),
{
    if list.len() == 0 {
        Ok(s)
    } else {
        match with_address(profile, s, list[0]) {
            Err(e) => Err(e),
            Ok(next) => with_addresses(profile, next, list.drop_first()),
        }
    }
}

/// The primary name of a site: its first hostname, or `_` where it has none.
pub open spec fn primary_name(profile: Profile, s: ServerBlockV) -> Seq<char> {
    let bare = if text::position(s.name, "://"@) is Some {
        match addresses::server_address(profile, s.name) {
            Some(p) => p.hostname,
            None => s.name,
        }
    } else {
        s.name
    };
    let name = if s.names.len() > 0 {
        s.names[0]
    } else {
        bare
    };
    if text::starts_char(name, ':') || text::position(name, "://"@) is Some || name == "http://"@
        || name == "https://"@ {
        "_"@
    } else {
        name
    }
}

fn add_address(profile: Profile, s: ServerBlock, addr: &str) -> (r: Result<
    ServerBlock,
    AdapterError,
>)
    ensures
        error::outcome(r) == with_address(profile, s.deep_view(), addr@),
{
    let mut s = s;
    if profile == Profile::Extended {
        reject_impossible_address(addr)?;
    }
    let secure = same(addr, "https://");
    if secure || same(addr, "http://") {
        let port: u16 = if secure {
            443
        } else {
            80
        };
        let listen = ListenAddr {
            scheme: if secure {
                Scheme::Https
            } else {
                Scheme::Http
            },
            host: any_host(profile).to_owned(),
            port: Some(port),
            force_plaintext: profile == Profile::Extended && !secure,
            proxy_protocol: false,
        };
        let ghost held = s.listens.deep_view();
        s.listens.push(listen);
        assert(s.listens.deep_view() =~= held.push(scheme_listener(profile, secure)));
        return Ok(s);
    }
    match parse_server_address(profile, addr) {
        Some(p) => {
            let ghost v = p.deep_view();
            if p.explicit {
                let ghost held = s.listens.deep_view();
                s.listens.push(p.listen);
                assert(s.listens.deep_view() =~= held.push(v.listen));
            }
            let host = p.hostname.as_str();
            let named = host.unicode_len() > 0 && match profile {
                Profile::Core => !same(host, "0.0.0.0"),
                Profile::Extended => !is_wildcard_host(host),
            };
            if named && !listed(host, &s.names) {
                let ghost held = s.names.deep_view();
                let next = host.to_owned();
                s.names.push(next);
                assert(s.names.deep_view() =~= held.push(next@));
            }
            Ok(s)
        },
        None => {
            if looks_like_unsupported_address(addr) {
                let reason = cat3(
                    "`",
                    addr,
                    "` uses a network prefix, a port range or a Unix socket, none of which Pingclair supports yet",
                );
                return Err(unsupported("site address", reason.as_str()));
            }
            Ok(s)
        },
    }
}

fn add_addresses(profile: Profile, s: ServerBlock, list: &Vec<String>) -> (r: Result<
    ServerBlock,
    AdapterError,
>)
    ensures
        error::outcome(r) == with_addresses(profile, s.deep_view(), list.deep_view()),
{
    let ghost all = list.deep_view();
    let mut now = s;
    let mut i: usize = 0;
    assert(all.skip(0) =~= all);
    while i < list.len()
        invariant
            i <= list.len(),
            all == list.deep_view(),
            with_addresses(profile, s.deep_view(), all) == with_addresses(
                profile,
                now.deep_view(),
                all.skip(i as int),
            ),
        decreases list.len() - i,
    {
        assert(all.skip(i as int)[0] == list@[i as int]@);
        assert(all.skip(i as int).drop_first() =~= all.skip(i + 1));
        now = add_address(profile, now, list[i].as_str())?;
        i += 1;
    }
    Ok(now)
}

fn choose_name(profile: Profile, s: &ServerBlock) -> (r: String)
    ensures
        r@ == primary_name(profile, s.deep_view()),
{
    let bare = if mentions(s.name.as_str(), "://") {
        match parse_server_address(profile, s.name.as_str()) {
            Some(p) => p.hostname,
            None => s.name.clone(),
        }
    } else {
        s.name.clone()
    };
    let name = if s.names.len() > 0 {
        s.names[0].clone()
    } else {
        bare
    };
    let n = name.as_str();
    if begins_with(n, ':') || mentions(n, "://") || same(n, "http://") || same(n, "https://") {
        "_".to_owned()
    } else {
        name
    }
}

// ---------------------------------------------------------------------------
// Routes
// ---------------------------------------------------------------------------
/// The lines of a site block read so far.
pub struct SiteDraft {
    pub server: ServerBlock,
    /// The routes with a matcher, as written.
    pub arms: Vec<RouteArm>,
    /// The handlers without a matcher, as written.
    pub defaults: Vec<Handler>,
}

/// The mathematical value of a [`SiteDraft`].
#[verifier::ext_equal]
pub struct SiteDraftV {
    pub server: ServerBlockV,
    pub arms: Seq<RouteArmV>,
    pub defaults: Seq<HandlerV>,
}

impl DeepView for SiteDraft {
    type V = SiteDraftV;

    open spec fn deep_view(&self) -> SiteDraftV {
        SiteDraftV {
            server: self.server.deep_view(),
            arms: self.arms.deep_view(),
            defaults: self.defaults.deep_view(),
        }
    }
}

/// One more handler: a route where it has a matcher, a default where it has none.
pub open spec fn with_handler(c: SiteDraftV, m: Option<MatcherV>, h: HandlerV) -> SiteDraftV {
    if m is Some {
        SiteDraftV { arms: c.arms.push(RouteArmV { matcher: m, handler: h }), ..c }
    } else {
        SiteDraftV { defaults: c.defaults.push(h), ..c }
    }
}

fn add_handler(c: SiteDraft, m: Option<Matcher>, h: Handler) -> (r: SiteDraft)
    ensures
        r.deep_view() == with_handler(c.deep_view(), m.deep_view(), h.deep_view()),
{
    let mut c = c;
    if m.is_some() {
        let ghost held = c.arms.deep_view();
        let arm = RouteArm { matcher: m, handler: h };
        c.arms.push(arm);
        assert(c.arms.deep_view() =~= held.push(arm.deep_view()));
    } else {
        let ghost held = c.defaults.deep_view();
        c.defaults.push(h);
        assert(c.defaults.deep_view() =~= held.push(h.deep_view()));
    }
    c
}

/// Handlers as elements without matchers.
pub open spec fn unguarded(list: Seq<HandlerV>) -> Seq<HandlerElementV> {
    list.map_values(|h: HandlerV| HandlerElementV { matcher: None, handler: h })
}

fn unguard(list: &Vec<Handler>) -> (r: Vec<HandlerElement>)
    ensures
        tree::elements_view(r@) == unguarded(list.deep_view()),
{
    let mut out: Vec<HandlerElement> = Vec::new();
    let mut i: usize = 0;
    while i < list.len()
        invariant
            i <= list.len(),
            out@.len() == i,
            forall|j: int|
                0 <= j < i ==> tree::element_view(#[trigger] out@[j]) == (HandlerElementV {
                    matcher: None,
                    handler: list@[j].deep_view(),
                }),
        decreases list.len() - i,
    {
        out.push(HandlerElement { matcher: None, handler: copy_handler(&list[i]) });
        i += 1;
    }
    assert(tree::elements_view(out@) =~= unguarded(list.deep_view()));
    out
}

/// The handlers of a block in the core profile, which has no matchers inside blocks.
pub open spec fn core_handlers(lines: Seq<DirectiveV>) -> Result<Seq<HandlerV>, ErrorV>
    decreases lines.len(),
{
    if lines.len() == 0 {
        Ok(Seq::empty())
    } else {
        match core_handlers(lines.drop_last()) {
            Err(e) => Err(e),
            Ok(front) => match handlers::handler(
                Profile::Core,
                lines.last(),
                Map::empty(),
                Seq::empty(),
            ) {
                Err(e) => Err(e),
                Ok(h) => Ok(front.push(h)),
            },
        }
    }
}

proof fn lemma_core_handlers_fail(lines: Seq<DirectiveV>, n: int)
    requires
        0 <= n <= lines.len(),
        core_handlers(lines.take(n)) is Err,
    ensures
        core_handlers(lines) == core_handlers(lines.take(n)),
    decreases lines.len() - n,
{
    if n == lines.len() {
        assert(lines.take(n) =~= lines);
    } else {
        assert(lines.take(n + 1).drop_last() =~= lines.take(n));
        lemma_core_handlers_fail(lines, n + 1);
    }
}

/// In the core profile a handler depends on its directive alone.
proof fn lemma_core_handler(
    d: DirectiveV,
    a: Map<Seq<char>, MatcherV>,
    b: Map<Seq<char>, MatcherV>,
    o: Seq<Seq<char>>,
    p: Seq<Seq<char>>,
)
    ensures
        handlers::handler(Profile::Core, d, a, o) == handlers::handler(Profile::Core, d, b, p),
    decreases syntax::depth(d), 1int, 0int,
{
    if d.name == "handle"@ {
        if let Some(lines) = d.block {
            lemma_core_steps(lines, a, b, o, p, Seq::empty());
        }
    }
}

proof fn lemma_core_steps(
    lines: Seq<DirectiveV>,
    a: Map<Seq<char>, MatcherV>,
    b: Map<Seq<char>, MatcherV>,
    o: Seq<Seq<char>>,
    p: Seq<Seq<char>>,
    held: Seq<HandlerElementV>,
)
    ensures
        handlers::steps(Profile::Core, lines, a, held, o) == handlers::steps(
            Profile::Core,
            lines,
            b,
            held,
            p,
        ),
    decreases syntax::depth_of_all(lines), 2int, lines.len(),
{
    if lines.len() > 0 {
        let d = lines[0];
        let rest = lines.subrange(1, lines.len() as int);
        if !text::starts_char(d.name, '@') {
            lemma_core_handler(d, a, b, o, p);
            if let Ok(h) = handlers::handler(Profile::Core, d, a, o) {
                lemma_core_steps(
                    rest,
                    a,
                    b,
                    o,
                    p,
                    held.push(HandlerElementV { matcher: None, handler: h }),
                );
            }
        }
    }
}

fn collect_core_handlers(
    lines: &Vec<Directive>,
    scope: &Table<Matcher>,
    order: &DirectiveOrder,
) -> (r: Result<Vec<Handler>, AdapterError>)
    ensures
        error::outcome(r) == core_handlers(syntax::directives_view(lines@)),
{
    let ghost all = syntax::directives_view(lines@);
    let mut out: Vec<Handler> = Vec::new();
    let mut i: usize = 0;
    assert(out.deep_view() =~= Seq::<HandlerV>::empty());
    assert(all.take(0).len() == 0);
    while i < lines.len()
        invariant
            i <= lines.len(),
            all == syntax::directives_view(lines@),
            core_handlers(all.take(i as int)) == Ok::<Seq<HandlerV>, ErrorV>(out.deep_view()),
        decreases lines.len() - i,
    {
        assert(all.take(i + 1).drop_last() =~= all.take(i as int));
        assert(all.take(i + 1).last() == lines@[i as int].deep_view());
        proof {
            lemma_core_handler(
                lines@[i as int].deep_view(),
                scope.deep_view(),
                Map::empty(),
                order@,
                Seq::empty(),
            );
        }
        match adapt_handler(Profile::Core, &lines[i], scope, order) {
            Err(e) => {
                proof {
                    lemma_core_handlers_fail(all, i + 1);
                }
                return Err(e);
            },
            Ok(h) => {
                let ghost held = out.deep_view();
                out.push(h);
                assert(out.deep_view() =~= held.push(h.deep_view()));
            },
        }
        i += 1;
    }
    assert(all.take(i as int) =~= all);
    Ok(out)
}

/// A `route` or `handle` block of a site; one without a block does nothing in the core profile.
pub open spec fn route_block(
    profile: Profile,
    c: SiteDraftV,
    d: DirectiveV,
    order: Seq<Seq<char>>,
) -> Result<SiteDraftV, ErrorV> {
    match profile {
        Profile::Core => match d.block {
            None => Ok(c),
            Some(lines) => error::with(
                core_handlers(lines),
                |list: Seq<HandlerV>|
                    with_handler(
                        c,
                        matchers::route_matcher_of(d),
                        HandlerV::Pipeline(unguarded(list)),
                    ),
            ),
        },
        Profile::Extended => error::with(
            handlers::handler(profile, d, c.server.matchers, order),
            |h: HandlerV| with_handler(c, matchers::route_matcher_of(d), h),
        ),
    }
}

fn read_route_block(profile: Profile, c: SiteDraft, d: &Directive, order: &DirectiveOrder) -> (r:
    Result<SiteDraft, AdapterError>)
    ensures
        error::outcome(r) == route_block(profile, c.deep_view(), d.deep_view(), order@),
{
    let m = parse_route_matcher(d);
    match profile {
        Profile::Core => match &d.block {
            None => Ok(c),
            Some(block) => {
                let list = collect_core_handlers(&block.directives, &c.server.matchers, order)?;
                Ok(add_handler(c, m, Handler::Pipeline(unguard(&list))))
            },
        },
        Profile::Extended => {
            let h = adapt_handler(profile, d, &c.server.matchers, order)?;
            Ok(add_handler(c, m, h))
        },
    }
}

/// Whether a `redir` or `rewrite` line of the core profile starts with a path to match, although
/// the path has no wildcard.
pub open spec fn inline_path(d: DirectiveV) -> bool {
    d.args.len() >= 2 && text::starts_char(d.args[0], '/') && (d.name == "rewrite"@ || ((d.name
        == "redir"@ || d.name == "redirect"@) && matchers::target(d.args[1])))
}

fn has_inline_path(d: &Directive) -> (r: bool)
    ensures
        r == inline_path(d.deep_view()),
{
    let name = d.name.as_str();
    d.args.len() >= 2 && begins_with(d.args[0].as_str(), '/') && (same(name, "rewrite") || ((same(
        name,
        "redir",
    ) || same(name, "redirect")) && matchers::is_target(d.args[1].as_str())))
}

/// The matcher of a handler directive of a site.
pub open spec fn line_matcher(profile: Profile, d: DirectiveV) -> Option<MatcherV> {
    if profile == Profile::Core && inline_path(d) {
        Some(matchers::path_of(d.args[0]))
    } else {
        matchers::matcher_of(profile, d)
    }
}

fn read_line_matcher(profile: Profile, d: &Directive) -> (r: Option<Matcher>)
    ensures
        r.deep_view() == line_matcher(profile, d.deep_view()),
        r is Some ==> d.args.len() > 0,
{
    if profile == Profile::Core && has_inline_path(d) {
        return Some(matchers::make_path(d.args[0].as_str()));
    }
    matcher_token(profile, d)
}

/// The handler of a directive of a site, once its matcher is taken off.
pub open spec fn line_handler(
    profile: Profile,
    d: DirectiveV,
    scope: Map<Seq<char>, MatcherV>,
    order: Seq<Seq<char>>,
) -> Result<HandlerV, ErrorV> {
    if profile == Profile::Extended && d.name == "intercept"@ {
        error::with(
            responses::intercept(d),
            |list: Seq<ResponseHandlerConfigV>| HandlerV::Intercept(list),
        )
    } else if profile == Profile::Extended && d.name == "vars"@ {
        error::with(
            content::vars(d),
            |set: Map<Seq<char>, Seq<char>>| HandlerV::Vars(set),
        )
    } else if profile == Profile::Extended && registry::adapted_elsewhere(d.name) {
        Err(ErrorV::InvalidArgument(d.name, "this directive is adapted outside this library"@))
    } else {
        handlers::handler(profile, d, scope, order)
    }
}

fn read_line_handler(
    profile: Profile,
    d: &Directive,
    scope: &Table<Matcher>,
    order: &DirectiveOrder,
) -> (r: Result<Handler, AdapterError>)
    ensures
        error::outcome(r) == line_handler(profile, d.deep_view(), scope.deep_view(), order@),
{
    let refined = profile == Profile::Extended;
    if refined && same(d.name.as_str(), "intercept") {
        return Ok(Handler::Intercept(adapt_intercept(d)?));
    }
    if refined && same(d.name.as_str(), "vars") {
        return Ok(Handler::Vars(adapt_vars_directive(d)?));
    }
    if refined && is_adapted_elsewhere(d.name.as_str()) {
        return Err(invalid(d.name.as_str(), "this directive is adapted outside this library"));
    }
    adapt_handler(profile, d, scope, order)
}

/// A handler directive of a site.
pub open spec fn handler_line(
    profile: Profile,
    c: SiteDraftV,
    d: DirectiveV,
    order: Seq<Seq<char>>,
) -> Result<SiteDraftV, ErrorV> {
    let m = line_matcher(profile, d);
    let own = if m is Some {
        handlers::shifted(d)
    } else {
        d
    };
    error::with(
        line_handler(profile, own, c.server.matchers, order),
        |h: HandlerV| with_handler(c, m, h),
    )
}

fn read_handler_line(profile: Profile, c: SiteDraft, d: &Directive, order: &DirectiveOrder) -> (r:
    Result<SiteDraft, AdapterError>)
    ensures
        error::outcome(r) == handler_line(profile, c.deep_view(), d.deep_view(), order@),
{
    match read_line_matcher(profile, d) {
        Some(m) => {
            let own = shift(d);
            let h = read_line_handler(profile, &own, &c.server.matchers, order)?;
            Ok(add_handler(c, Some(m), h))
        },
        None => {
            let h = read_line_handler(profile, d, &c.server.matchers, order)?;
            Ok(add_handler(c, None, h))
        },
    }
}

// ---------------------------------------------------------------------------
// The lines of the block
// ---------------------------------------------------------------------------
/// The directives of a site that are settings and no handlers.
pub open spec fn is_setting(name: Seq<char>) -> bool {
    name == "bind"@ || name == "listen"@ || name == "root"@ || name == "compress"@ || name
        == "encode"@ || name == "gzip_types"@ || name == "log"@ || name == "tls"@ || name
        == "limits"@ || name == "error_page"@
}

fn names_setting(name: &str) -> (r: bool)
    ensures
        r == is_setting(name@),
{
    same(name, "bind") || same(name, "listen") || same(name, "root") || same(name, "compress")
        || same(name, "encode") || same(name, "gzip_types") || same(name, "log") || same(
        name,
        "tls",
    ) || same(name, "limits") || same(name, "error_page")
}

/// A `log` line of a site. With a block it configures the logger of the site. The core profile
/// ignores one without a block; the extended profile knows loggers with a name, references to
/// channels, and the logger that a bare `log` switches on.
pub open spec fn logged(profile: Profile, s: ServerBlockV, d: DirectiveV) -> Result<
    ServerBlockV,
    ErrorV,
> {
    if profile == Profile::Extended && d.args.len() > 1 {
        Err(ErrorV::ArgumentCount("log"@, 1, d.args.len() as usize))
    } else {
        match d.block {
            None => if profile == Profile::Core {
                Ok(s)
            } else if d.args.len() == 0 {
                Ok(ServerBlockV { log: Some(LogBlockV::standard()), ..s })
            } else {
                Ok(ServerBlockV { log_channels: s.log_channels.push(d.args[0]), ..s })
            },
            Some(lines) => error::with(
                logs::log_block(profile, lines),
                |l: LogBlockV|
                    if profile == Profile::Core || d.args.len() == 0 {
                        ServerBlockV { log: Some(l), ..s }
                    } else {
                        ServerBlockV {
                            named_logs: s.named_logs.push(
                                LogBlockV { name: Some(d.args[0]), ..l },
                            ),
                            ..s
                        }
                    },
            ),
        }
    }
}

fn read_logged(profile: Profile, s: ServerBlock, d: &Directive) -> (r: Result<
    ServerBlock,
    AdapterError,
>)
    ensures
        error::outcome(r) == logged(profile, s.deep_view(), d.deep_view()),
{
    let mut s = s;
    let core = profile == Profile::Core;
    if !core && d.args.len() > 1 {
        return Err(miscount("log", 1, d.args.len()));
    }
    match &d.block {
        None => {
            if core {
                return Ok(s);
            }
            if d.args.len() == 0 {
                s.log = Some(LogBlock::standard());
            } else {
                let ghost held = s.log_channels.deep_view();
                s.log_channels.push(d.args[0].clone());
                assert(s.log_channels.deep_view() =~= held.push(d.args@[0]@));
            }
        },
        Some(block) => {
            let mut l = adapt_log_block(profile, &block.directives)?;
            if core || d.args.len() == 0 {
                s.log = Some(l);
            } else {
                l.name = Some(d.args[0].clone());
                let ghost held = s.named_logs.deep_view();
                s.named_logs.push(l);
                assert(s.named_logs.deep_view() =~= held.push(l.deep_view()));
            }
        },
    }
    Ok(s)
}

/// A setting of a site.
pub open spec fn setting(profile: Profile, s: ServerBlockV, d: DirectiveV) -> Result<
    ServerBlockV,
    ErrorV,
> {
    if d.name == "bind"@ {
        if d.args.len() == 0 {
            Err(ErrorV::ArgumentCount("bind"@, 1, 0))
        } else {
            Ok(ServerBlockV { bind: Some(d.args[0]), ..s })
        }
    } else if d.name == "listen"@ {
        error::with(
            settings::listener(profile, d),
            |l: ListenAddrV| ServerBlockV { listens: s.listens.push(l), ..s },
        )
    } else if d.name == "root"@ {
        error::with(settings::document_root(d), |v: Seq<char>| ServerBlockV { root: Some(v), ..s })
    } else if d.name == "compress"@ || d.name == "encode"@ {
        error::with(settings::codings(d), |v: Seq<CompressionAlgo>| ServerBlockV { compress: Some(v), ..s })
    } else if d.name == "gzip_types"@ {
        error::with(settings::mime_patterns(d.args), |v: Seq<Seq<char>>| ServerBlockV { gzip_types: v, ..s })
    } else if d.name == "log"@ {
        logged(profile, s, d)
    } else if d.name == "tls"@ {
        error::with(tls::tls(d), |v: TlsDirectiveV| ServerBlockV { tls: Some(v), ..s })
    } else if d.name == "limits"@ {
        error::with(limits::limits(d), |v: ResourceLimitsConfig| ServerBlockV { limits: v, ..s })
    } else if d.name == "error_page"@ {
        error::with(
            settings::error_pages(d),
            |list: Seq<(u16, Seq<char>)>|
                ServerBlockV { error_pages: s.error_pages + list, ..s },
        )
    } else {
        Ok(s)
    }
}

fn read_setting(profile: Profile, s: ServerBlock, d: &Directive) -> (r: Result<
    ServerBlock,
    AdapterError,
>)
    ensures
        error::outcome(r) == setting(profile, s.deep_view(), d.deep_view()),
{
    let mut s = s;
    let name = d.name.as_str();
    if same(name, "bind") {
        if d.args.len() == 0 {
            return Err(miscount("bind", 1, 0));
        }
        s.bind = Some(d.args[0].clone());
    } else if same(name, "listen") {
        let listen = read_listener(profile, d)?;
        let ghost held = s.listens.deep_view();
        s.listens.push(listen);
        assert(s.listens.deep_view() =~= held.push(listen.deep_view()));
    } else if same(name, "root") {
        s.root = Some(read_document_root(d)?);
    } else if same(name, "compress") || same(name, "encode") {
        s.compress = Some(read_codings(d)?);
    } else if same(name, "gzip_types") {
        s.gzip_types = read_mime_patterns(&d.args)?;
    } else if same(name, "log") {
        s = read_logged(profile, s, d)?;
    } else if same(name, "tls") {
        s.tls = Some(adapt_tls_directive(d)?);
    } else if same(name, "limits") {
        s.limits = adapt_resource_limits(d)?;
    } else if same(name, "error_page") {
        let mut more = read_error_pages(d)?;
        let ghost held = s.error_pages.deep_view();
        let ghost added = more.deep_view();
        s.error_pages.append(&mut more);
        assert(s.error_pages.deep_view() =~= held + added);
    } else {
        return Ok(s);
    }
    Ok(s)
}

/// One line of a site block.
pub open spec fn site_line(
    profile: Profile,
    c: SiteDraftV,
    d: DirectiveV,
    order: Seq<Seq<char>>,
) -> Result<SiteDraftV, ErrorV> {
    if is_setting(d.name) {
        error::with(
            setting(profile, c.server, d),
            |server: ServerBlockV| SiteDraftV { server, ..c },
        )
    } else if d.name == "route"@ || d.name == "handle"@ {
        route_block(profile, c, d, order)
    } else if profile == Profile::Extended && d.name == "handle_path"@ {
        error::with(
            handlers::path_handler(d, c.server.matchers, order),
            |r: (MatcherV, HandlerV)| with_handler(c, Some(r.0), r.1),
        )
    } else if text::starts_char(d.name, '@') {
        error::with(
            matcher_sets::definition(profile, d),
            |m: MatcherV|
                SiteDraftV {
                    server: ServerBlockV {
                        matchers: c.server.matchers.insert(d.name, m),
                        ..c.server
                    },
                    ..c
                },
        )
    } else if d.name == "header"@ {
        error::with(
            content::header(d),
            |h: HeadersConfigV|
                with_handler(c, matchers::matcher_of(profile, d), HandlerV::Headers(h)),
        )
    } else {
        handler_line(profile, c, d, order)
    }
}

fn read_site_line(profile: Profile, c: SiteDraft, d: &Directive, order: &DirectiveOrder) -> (r:
    Result<SiteDraft, AdapterError>)
    ensures
        error::outcome(r) == site_line(profile, c.deep_view(), d.deep_view(), order@),
{
    let mut c = c;
    let name = d.name.as_str();
    if names_setting(name) {
        c.server = read_setting(profile, c.server, d)?;
        return Ok(c);
    }
    if same(name, "route") || same(name, "handle") {
        return read_route_block(profile, c, d, order);
    }
    if profile == Profile::Extended && same(name, "handle_path") {
        let (m, h) = adapt_handle_path(d, &c.server.matchers, order)?;
        return Ok(add_handler(c, Some(m), h));
    }
    if begins_with(name, '@') {
        let m = parse_matcher_definition(profile, d)?;
        c.server.matchers.insert(name.to_owned(), m);
        return Ok(c);
    }
    if same(name, "header") {
        let h = adapt_header_directive(d)?;
        let m = matcher_token(profile, d);
        return Ok(add_handler(c, m, Handler::Headers(h)));
    }
    read_handler_line(profile, c, d, order)
}

// ---------------------------------------------------------------------------
// Putting the routes in order
// ---------------------------------------------------------------------------
/// The default handlers, in the order of their ranks.
pub open spec fn sorted_defaults(
    profile: Profile,
    order: Seq<Seq<char>>,
    list: Seq<HandlerV>,
) -> Seq<HandlerV> {
    arrange::arranged(
        list,
        arrange::stable_order(
            list.map_values(
                |h: HandlerV| rank_key(ranks::handler_rank(profile, order, h)),
            ),
        ),
    )
}

/// A key of one number.
pub open spec fn rank_key(rank: int) -> Seq<usize> {
    let n = rank as usize;
    seq![n]
}

fn sort_defaults(profile: Profile, order: &DirectiveOrder, list: &Vec<Handler>) -> (r: Vec<Handler>)
    ensures
        r.deep_view() == sorted_defaults(profile, order@, list.deep_view()),
{
    let mut keys: Vec<Vec<usize>> = Vec::new();
    let mut i: usize = 0;
    while i < list.len()
        invariant
            i <= list.len(),
            keys@.len() == i,
            forall|j: int|
                0 <= j < i ==> (#[trigger] keys@[j]).deep_view() == rank_key(
                    ranks::handler_rank(profile, order@, list.deep_view()[j]),
                ),
        decreases list.len() - i,
    {
        assert(list.deep_view()[i as int] == list@[i as int].deep_view());
        let rank: usize = caddy_handler_rank(profile, order, &list[i]);
        let key: Vec<usize> = vec![rank];
        assert(key.deep_view() =~= rank_key(rank as int));
        keys.push(key);
        i += 1;
    }
    assert(keys.deep_view() =~= list.deep_view().map_values(
        |h: HandlerV| rank_key(ranks::handler_rank(profile, order@, h)),
    ));
    let places = sort_stable(&keys);
    arrange(list, &places)
}

/// The first default handler that answers by itself, or their number.
pub open spec fn first_answer(list: Seq<HandlerV>) -> int
    decreases list.len(),
{
    if list.len() == 0 || ranks::answers(list[0]) {
        0
    } else {
        1 + first_answer(list.drop_first())
    }
}

/// A route that does not answer by itself, before the default handler that does.
pub open spec fn composed(h: HandlerV, defaults: Seq<HandlerV>) -> HandlerV {
    let n = first_answer(defaults);
    HandlerV::Pipeline(unguarded(defaults.take(n) + seq![h] + defaults.skip(n)))
}

/// The first default handler that answers is one of them, or none is.
pub proof fn lemma_first_answer(list: Seq<HandlerV>)
    ensures
        0 <= first_answer(list) <= list.len(),
    decreases list.len(),
{
    if list.len() > 0 && !ranks::answers(list[0]) {
        lemma_first_answer(list.drop_first());
    }
}

/// Inserts a matched handler before the default handler that answers.
pub fn compose_with_default_handlers(matched: &Handler, defaults: &Vec<Handler>) -> (r: Handler)
    ensures
        r.deep_view() == composed(matched.deep_view(), defaults.deep_view()),
{
    let ghost all = defaults.deep_view();
    let mut n: usize = 0;
    assert(all.skip(0) =~= all);
    while n < defaults.len() && !handler_has_terminal(&defaults[n])
        invariant
            n <= defaults.len(),
            all == defaults.deep_view(),
            first_answer(all) == n + first_answer(all.skip(n as int)),
        decreases defaults.len() - n,
    {
        assert(all.skip(n as int)[0] == defaults@[n as int].deep_view());
        assert(all.skip(n as int).drop_first() =~= all.skip(n + 1));
        n += 1;
    }
    proof {
        if n < defaults@.len() {
            assert(all.skip(n as int)[0] == defaults@[n as int].deep_view());
        }
        assert(first_answer(all.skip(n as int)) == 0);
    }
    let mut list = defaults.duplicate();
    list.insert(n, copy_handler(matched));
    assert(list.deep_view() =~= all.take(n as int) + seq![matched.deep_view()] + all.skip(
        n as int,
    ));
    Handler::Pipeline(unguard(&list))
}

/// A route that answers, by itself or through the default handlers.
pub open spec fn answering(arm: RouteArmV, defaults: Seq<HandlerV>) -> RouteArmV {
    if ranks::answers(arm.handler) {
        arm
    } else {
        RouteArmV { handler: composed(arm.handler, defaults), ..arm }
    }
}

fn make_answering(arms: &Vec<RouteArm>, defaults: &Vec<Handler>) -> (r: Vec<RouteArm>)
    ensures
        r.deep_view() == arms.deep_view().map_values(
            |arm: RouteArmV| answering(arm, defaults.deep_view()),
        ),
{
    let mut out: Vec<RouteArm> = Vec::new();
    let mut i: usize = 0;
    while i < arms.len()
        invariant
            i <= arms.len(),
            out@.len() == i,
            forall|j: int|
                0 <= j < i ==> (#[trigger] out@[j]).deep_view() == answering(
                    arms@[j].deep_view(),
                    defaults.deep_view(),
                ),
        decreases arms.len() - i,
    {
        let handler = if handler_has_terminal(&arms[i].handler) {
            copy_handler(&arms[i].handler)
        } else {
            compose_with_default_handlers(&arms[i].handler, defaults)
        };
        out.push(RouteArm { matcher: arms[i].matcher.duplicate(), handler });
        i += 1;
    }
    assert(out.deep_view() =~= arms.deep_view().map_values(
        |arm: RouteArmV| answering(arm, defaults.deep_view()),
    ));
    out
}

/// What answers a request that no matcher selects.
pub open spec fn catch_all(defaults: Seq<HandlerV>) -> RouteArmV {
    RouteArmV {
        matcher: None,
        handler: if defaults.len() == 1 {
            defaults[0]
        } else {
            HandlerV::Pipeline(unguarded(defaults))
        },
    }
}

fn make_catch_all(defaults: &Vec<Handler>) -> (r: RouteArm)
    ensures
        r.deep_view() == catch_all(defaults.deep_view()),
{
    let handler = if defaults.len() == 1 {
        copy_handler(&defaults[0])
    } else {
        Handler::Pipeline(unguard(defaults))
    };
    RouteArm { matcher: None, handler }
}

/// Where the routes of a site, as written, sit in the ordered list of the extended profile.
pub open spec fn route_keys(
    order: Seq<Seq<char>>,
    scope: Map<Seq<char>, MatcherV>,
    defaults: Seq<HandlerV>,
    arms: Seq<RouteArmV>,
) -> Seq<route_order::RouteOrderKeyV> {
    Seq::new(
        arms.len(),
        |i: int|
            route_order::route_key(
                route_order::arm_rank(
                    order,
                    arms[i].handler,
                    route_order::answering_rank(order, defaults),
                ),
                scope,
                arms[i].matcher,
                i as usize,
            ),
    )
}

/// The key of a route in the core profile: routes that do not answer come first, then exact
/// patterns, then longer ones.
pub open spec fn arm_key(arm: RouteArmV) -> Seq<usize> {
    ranks::specific_key(
        if ranks::answers(arm.handler) {
            1
        } else {
            0
        },
        arm.matcher,
    )
}

/// The keys of the routes of a site, as written; in the extended profile the ordered list of the
/// whole site decides.
pub open spec fn arm_keys(
    profile: Profile,
    order: Seq<Seq<char>>,
    scope: Map<Seq<char>, MatcherV>,
    defaults: Seq<HandlerV>,
    arms: Seq<RouteArmV>,
) -> Seq<Seq<usize>> {
    match profile {
        Profile::Core => Seq::new(arms.len(), |i: int| arm_key(arms[i])),
        Profile::Extended => route_order::all_numbers(route_keys(order, scope, defaults, arms)),
    }
}

fn make_route_keys(
    order: &DirectiveOrder,
    scope: &Table<Matcher>,
    defaults: &Vec<Handler>,
    arms: &Vec<RouteArm>,
) -> (r: Vec<RouteOrderKey>)
    ensures
        r.deep_view() == route_keys(
            order@,
            scope.deep_view(),
            defaults.deep_view(),
            arms.deep_view(),
        ),
{
    let ghost wanted = route_keys(
        order@,
        scope.deep_view(),
        defaults.deep_view(),
        arms.deep_view(),
    );
    let pipeline: usize = RouteOrderKey::pipeline_rank(order, defaults);
    let mut out: Vec<RouteOrderKey> = Vec::new();
    let mut i: usize = 0;
    while i < arms.len()
        invariant
            i <= arms.len(),
            pipeline == route_order::answering_rank(order@, defaults.deep_view()),
            wanted == route_keys(
                order@,
                scope.deep_view(),
                defaults.deep_view(),
                arms.deep_view(),
            ),
            out@.len() == i,
            forall|j: int| 0 <= j < i ==> (#[trigger] out@[j]).deep_view() == wanted[j],
        decreases arms.len() - i,
    {
        assert(arms.deep_view()[i as int] == arms@[i as int].deep_view());
        out.push(RouteOrderKey::for_arm(order, scope, &arms[i], i, pipeline));
        i += 1;
    }
    assert(out.deep_view() =~= wanted);
    out
}

fn make_arm_keys(
    profile: Profile,
    order: &DirectiveOrder,
    scope: &Table<Matcher>,
    defaults: &Vec<Handler>,
    arms: &Vec<RouteArm>,
) -> (r: Vec<Vec<usize>>)
    ensures
        r.deep_view() == arm_keys(
            profile,
            order@,
            scope.deep_view(),
            defaults.deep_view(),
            arms.deep_view(),
        ),
{
    if profile == Profile::Extended {
        let keys = make_route_keys(order, scope, defaults, arms);
        return number_all(&keys);
    }
    let mut out: Vec<Vec<usize>> = Vec::new();
    let mut i: usize = 0;
    while i < arms.len()
        invariant
            i <= arms.len(),
            out@.len() == i,
            forall|j: int|
                0 <= j < i ==> (#[trigger] out@[j]).deep_view() == arm_key(arms.deep_view()[j]),
        decreases arms.len() - i,
    {
        assert(arms.deep_view()[i as int] == arms@[i as int].deep_view());
        let late: usize = if handler_has_terminal(&arms[i].handler) {
            1
        } else {
            0
        };
        let key = make_specific_key(late, &arms[i].matcher);
        assert(key.deep_view() =~= key@);
        out.push(key);
        i += 1;
    }
    assert(out.deep_view() =~= arm_keys(
        profile,
        order@,
        scope.deep_view(),
        defaults.deep_view(),
        arms.deep_view(),
    ));
    out
}

/// The routes of a site: those with a matcher, made to answer, and the catch-all.
///
/// The core profile sorts the matched routes and puts the catch-all last. The extended profile
/// sorts them together.
pub open spec fn site_routes(
    profile: Profile,
    order: Seq<Seq<char>>,
    scope: Map<Seq<char>, MatcherV>,
    arms: Seq<RouteArmV>,
    written_defaults: Seq<HandlerV>,
) -> Option<Seq<RouteArmV>> {
    let defaults = sorted_defaults(profile, order, written_defaults);
    let keys = arm_keys(profile, order, scope, defaults, arms);
    let ready = arms.map_values(|arm: RouteArmV| answering(arm, defaults));
    let last = if defaults.len() > 0 {
        seq![catch_all(defaults)]
    } else {
        Seq::empty()
    };
    let routes = match profile {
        Profile::Core => arrange::arranged(ready, arrange::stable_order(keys)) + last,
        Profile::Extended => {
            let more = if defaults.len() > 0 {
                seq![
                    route_order::sort_numbers(
                        route_order::route_key(
                            route_order::answering_rank(order, defaults),
                            Map::empty(),
                            None,
                            usize::MAX,
                        ),
                        0,
                    ),
                ]
            } else {
                Seq::empty()
            };
            arrange::arranged(ready + last, arrange::stable_order(keys + more))
        },
    };
    if arms.len() == 0 && defaults.len() == 0 {
        None
    } else {
        Some(routes)
    }
}

fn order_routes(
    profile: Profile,
    order: &DirectiveOrder,
    scope: &Table<Matcher>,
    arms: &Vec<RouteArm>,
    written_defaults: &Vec<Handler>,
) -> (r: Option<Vec<RouteArm>>)
    ensures
        r.deep_view() == site_routes(
            profile,
            order@,
            scope.deep_view(),
            arms.deep_view(),
            written_defaults.deep_view(),
        ),
{
    let defaults = sort_defaults(profile, order, written_defaults);
    if arms.len() == 0 && defaults.len() == 0 {
        return None;
    }
    let mut keys = make_arm_keys(profile, order, scope, &defaults, arms);
    let mut ready = make_answering(arms, &defaults);
    let ghost keys_v = keys.deep_view();
    let ghost ready_v = ready.deep_view();
    assert(keys@.len() == keys_v.len() && ready@.len() == ready_v.len());
    match profile {
        Profile::Core => {
            let places = sort_stable(&keys);
            let mut out = arrange(&ready, &places);
            let ghost held = out.deep_view();
            assert(held + Seq::<RouteArmV>::empty() =~= held);
            if defaults.len() > 0 {
                let last = make_catch_all(&defaults);
                out.push(last);
                assert(out.deep_view() =~= held + seq![last.deep_view()]);
            }
            Some(out)
        },
        Profile::Extended => {
            assert(keys_v + Seq::<Seq<usize>>::empty() =~= keys_v);
            assert(ready_v + Seq::<RouteArmV>::empty() =~= ready_v);
            if defaults.len() > 0 {
                let pipeline: usize = RouteOrderKey::pipeline_rank(order, &defaults);
                let key = RouteOrderKey::for_catch_all(pipeline).numbers(0);
                assert(key.deep_view() =~= key@);
                keys.push(key);
                assert(keys.deep_view() =~= keys_v + seq![key@]);
                let last = make_catch_all(&defaults);
                ready.push(last);
                assert(ready.deep_view() =~= ready_v + seq![last.deep_view()]);
            }
            let places = sort_stable(&keys);
            Some(arrange(&ready, &places))
        },
    }
}

// ---------------------------------------------------------------------------
// The site
// ---------------------------------------------------------------------------
/// The local authority, and nothing else.
pub open spec fn internal_tls() -> TlsDirectiveV {
    TlsDirectiveV { internal: true, ..TlsDirectiveV::unset() }
}

/// A site before the lines of its block are read: where it listens and how it is called.
pub open spec fn opening(profile: Profile, d: DirectiveV) -> Result<SiteDraftV, ErrorV> {
    error::with(
        with_addresses(profile, fresh(text::trimmed_end(d.name, ',')), site_addresses(d)),
        |placed: ServerBlockV|
            SiteDraftV {
                server: ServerBlockV { name: primary_name(profile, placed), ..placed },
                arms: Seq::empty(),
                defaults: Seq::empty(),
            },
    )
}

/// A site after `lines` of its block.
pub open spec fn drafted(
    profile: Profile,
    d: DirectiveV,
    lines: Seq<DirectiveV>,
    order: Seq<Seq<char>>,
) -> Result<SiteDraftV, ErrorV> {
    match opening(profile, d) {
        Err(e) => Err(e),
        Ok(start) => fold::fold(
            |c: SiteDraftV, o: DirectiveV| site_line(profile, c, o, order),
            start,
            lines,
        ),
    }
}

/// The server that a site block configures.
pub open spec fn site(profile: Profile, d: DirectiveV, order: Seq<Seq<char>>) -> Result<
    ServerBlockV,
    ErrorV,
> {
    let read = match d.block {
        None => error::with(opening(profile, d), |c: SiteDraftV| c.server),
        Some(lines) => error::with(
            drafted(profile, d, lines, order),
            |c: SiteDraftV|
                ServerBlockV {
                    routes: site_routes(
                        profile,
                        order,
                        c.server.matchers,
                        c.arms,
                        c.defaults,
                    ),
                    ..c.server
                },
        ),
    };
    match read {
        Err(e) => Err(e),
        Ok(s) => if s.tls is None && !text::starts(d.name, "http://"@)
            && addresses::local_https_default(s.name) {
            Ok(ServerBlockV { tls: Some(internal_tls()), ..s })
        } else {
            Ok(s)
        },
    }
}

/// Adapts a site block: the addresses where it listens, its settings, and its routes in the order
/// in which they are tried.
pub fn adapt_server(profile: Profile, d: &Directive, order: &DirectiveOrder) -> (r: Result<
    ServerBlock,
    AdapterError,
>)
    ensures
        error::outcome(r) == site(profile, d.deep_view(), order@),
{
    let list = collect_addresses(d);
    let mut server = add_addresses(
        profile,
        make_fresh(trim_end(d.name.as_str(), ',').to_owned()),
        &list,
    )?;
    server.name = choose_name(profile, &server);
    if let Some(block) = &d.block {
        let start = SiteDraft { server, arms: Vec::new(), defaults: Vec::new() };
        assert(start.arms.deep_view() =~= Seq::<RouteArmV>::empty());
        assert(start.defaults.deep_view() =~= Seq::<HandlerV>::empty());
        let read = |c: SiteDraft, o: &Directive| -> (r: Result<SiteDraft, AdapterError>)
            ensures
                error::outcome(r) == site_line(profile, c.deep_view(), o.deep_view(), order@),
            { read_site_line(profile, c, o, order) };
        let c = fold_directives(
            read,
            start,
            &block.directives,
            Ghost(|c: SiteDraftV, o: DirectiveV| site_line(profile, c, o, order@)),
        )?;
        server = c.server;
        server.routes = order_routes(profile, order, &server.matchers, &c.arms, &c.defaults);
    }
    if server.tls.is_none() && !begins(d.name.as_str(), "http://") && is_local_https_default(
        server.name.as_str(),
    ) {
        let mut local = TlsDirective::unset();
        local.internal = true;
        server.tls = Some(local);
    }
    Ok(server)
}

} // verus!
