//! Handler directives, and the blocks that hold them.

use crate::adapter::content;
use crate::adapter::content::{
    adapt_basic_auth, adapt_error_directive, adapt_file_server, adapt_header_directive,
};
use crate::adapter::directives;
use crate::adapter::directives::{
    adapt_access_control, adapt_cors, adapt_rate_limit, adapt_redirect, adapt_respond,
    adapt_rewrite, adapt_try_files, adapt_uri,
};
use crate::adapter::args::args_from;
use crate::adapter::matcher_sets;
use crate::adapter::matcher_sets::parse_matcher_definition;
use crate::adapter::matchers;
use crate::adapter::matchers::{matcher_token, parse_route_matcher};
use crate::adapter::order::DirectiveOrder;
use crate::adapter::profile::Profile;
use crate::adapter::ranks;
use crate::adapter::ranks::{caddy_handler_rank, make_specific_key};
use crate::adapter::registry;
use crate::adapter::registry::{directive, Support};
use crate::adapter::reverse_proxy;
use crate::adapter::reverse_proxy::adapt_reverse_proxy;
use crate::arrange;
use crate::arrange::{arrange, sort_stable};
use crate::ast::tree;
use crate::ast::tree::{
    copy_matcher, Handler, HandlerElement, HandlerElementV, HandlerV, Matcher, MatcherV,
};
use crate::duplicate::Duplicate;
use crate::error;
use crate::error::{invalid, unsupported, unknown, AdapterError, ErrorV};
use crate::syntax;
use crate::syntax::{copy_directive, Directive, DirectiveV};
use crate::table::Table;
use crate::text;
use crate::text::{among, begins_with, same, trim_end};
use vstd::prelude::*;

verus! {

// ---------------------------------------------------------------------------
// Directives that hold no others
// ---------------------------------------------------------------------------
/// The handler directives that the core profile knows and refuses.
pub open spec fn refused_directives() -> Seq<Seq<char>> {
    seq![
        "abort"@,
        "acme_server"@,
        "error"@,
        "forward_auth"@,
        "fs"@,
        "handle_errors"@,
        "handle_path"@,
        "intercept"@,
        "invoke"@,
        "log_append"@,
        "log_skip"@,
        "log_name"@,
        "map"@,
        "method"@,
        "metrics"@,
        "php_fastcgi"@,
        "push"@,
        "request_body"@,
        "request_header"@,
        "root"@,
        "templates"@,
        "tracing"@,
        "try_files"@,
        "uri"@,
        "vars"@,
    ]
}

/// Whether the format defines a handler directive of this name that the core profile refuses.
pub fn is_known_caddy_directive(name: &str) -> (r: bool)
    ensures
        r == refused_directives().contains(name@),
{
    let list = vec![
        "abort",
        "acme_server",
        "error",
        "forward_auth",
        "fs",
        "handle_errors",
        "handle_path",
        "intercept",
        "invoke",
        "log_append",
        "log_skip",
        "log_name",
        "map",
        "method",
        "metrics",
        "php_fastcgi",
        "push",
        "request_body",
        "request_header",
        "root",
        "templates",
        "tracing",
        "try_files",
        "uri",
        "vars",
    ];
    assert(list.deep_view() =~= refused_directives());
    among(name, &list)
}

/// Why a directive is no handler: it is not implemented, not here, or not known at all.
pub open spec fn refusal(profile: Profile, name: Seq<char>) -> ErrorV {
    match profile {
        Profile::Core => if refused_directives().contains(name) {
            ErrorV::UnsupportedFeature(name, "this Caddy directive is not implemented yet"@)
        } else {
            ErrorV::UnknownDirective(name)
        },
        Profile::Extended => match registry::directive_support(name) {
            Some(Support::Implemented) => ErrorV::UnsupportedFeature(
                name,
                "this directive is not supported inside a route or handle block yet"@,
            ),
            Some(Support::Recognised) => ErrorV::UnsupportedFeature(
                name,
                "this directive is not implemented yet"@,
            ),
            None => ErrorV::UnknownDirective(name),
        },
    }
}

fn refuse(profile: Profile, name: &str) -> (r: AdapterError)
    ensures
        r.deep_view() == refusal(profile, name@),
{
    match profile {
        Profile::Core => if is_known_caddy_directive(name) {
            unsupported(name, "this Caddy directive is not implemented yet")
        } else {
            unknown(name)
        },
        Profile::Extended => match directive(name) {
            Some(Support::Implemented) => unsupported(
                name,
                "this directive is not supported inside a route or handle block yet",
            ),
            Some(Support::Recognised) => unsupported(
                name,
                "this directive is not implemented yet",
            ),
            None => unknown(name),
        },
    }
}

/// The handler that a directive without handlers of its own configures, in the extended profile.
pub open spec fn refined_leaf(d: DirectiveV) -> Result<HandlerV, ErrorV> {
    if d.name == "templates"@ {
        Ok(HandlerV::Templates)
    } else if d.name == "log_skip"@ {
        Ok(HandlerV::LogSkip)
    } else if d.name == "error"@ {
        error::with(content::raised(d), |c: crate::ast::handler::ErrorConfigV| HandlerV::Error(c))
    } else if d.name == "uri"@ {
        error::with(
            directives::uri(d),
            |c: crate::ast::handler::RewriteConfigV| HandlerV::Rewrite(c),
        )
    } else if d.name == "try_files"@ {
        error::with(directives::try_files(d), |c: Seq<Seq<char>>| HandlerV::TryFiles(c))
    } else {
        Err(refusal(Profile::Extended, d.name))
    }
}

fn adapt_refined_leaf(d: &Directive) -> (r: Result<Handler, AdapterError>)
    ensures
        error::outcome(r) == refined_leaf(d.deep_view()),
{
    let name = d.name.as_str();
    if same(name, "templates") {
        Ok(Handler::Templates)
    } else if same(name, "log_skip") {
        Ok(Handler::LogSkip)
    } else if same(name, "error") {
        Ok(Handler::Error(adapt_error_directive(d)?))
    } else if same(name, "uri") {
        Ok(Handler::Rewrite(adapt_uri(d)?))
    } else if same(name, "try_files") {
        Ok(Handler::TryFiles(adapt_try_files(d)?))
    } else {
        Err(refuse(Profile::Extended, name))
    }
}

/// The handler that a directive without handlers of its own configures.
pub open spec fn leaf(profile: Profile, d: DirectiveV) -> Result<HandlerV, ErrorV> {
    if d.name == "reverse_proxy"@ {
        error::with(
            reverse_proxy::reverse_proxy(profile, d),
            |c: crate::ast::proxy::ProxyConfigV| HandlerV::Proxy(c),
        )
    } else if d.name == "respond"@ {
        error::with(
            directives::respond(profile, d),
            |c: crate::ast::handler::ResponseConfigV| HandlerV::Respond(c),
        )
    } else if d.name == "redir"@ || d.name == "redirect"@ {
        error::with(
            directives::redirect(d),
            |c: crate::ast::handler::RedirectConfigV| HandlerV::Redirect(c),
        )
    } else if d.name == "file_server"@ {
        error::with(
            content::file_server(profile, d),
            |c: crate::ast::handler::FileServerConfigV| HandlerV::FileServer(c),
        )
    } else if d.name == "header"@ {
        error::with(
            content::header(d),
            |c: crate::ast::handler::HeadersConfigV| HandlerV::Headers(c),
        )
    } else if d.name == "basic_auth"@ || d.name == "basicauth"@ {
        error::with(
            content::basic_auth(profile, d),
            |c: crate::ast::handler::BasicAuthConfigV| HandlerV::BasicAuth(c),
        )
    } else if d.name == "rate_limit"@ {
        error::with(
            directives::rate_limit(d),
            |c: crate::ast::handler::RateLimitConfigV| HandlerV::RateLimit(c),
        )
    } else if d.name == "rewrite"@ {
        error::with(
            directives::rewrite(d),
            |c: crate::ast::handler::RewriteConfigV| HandlerV::Rewrite(c),
        )
    } else if d.name == "cors"@ {
        error::with(
            directives::cors(d),
            |c: crate::ast::handler::CorsConfigV| HandlerV::Cors(c),
        )
    } else if d.name == "access_control"@ {
        error::with(
            directives::access_control(d),
            |c: crate::ast::handler::AccessControlConfigV| HandlerV::AccessControl(c),
        )
    } else if profile == Profile::Extended {
        refined_leaf(d)
    } else {
        Err(refusal(profile, d.name))
    }
}

fn adapt_leaf(profile: Profile, d: &Directive) -> (r: Result<Handler, AdapterError>)
    ensures
        error::outcome(r) == leaf(profile, d.deep_view()),
{
    let name = d.name.as_str();
    if same(name, "reverse_proxy") {
        Ok(Handler::Proxy(Box::new(adapt_reverse_proxy(profile, d)?)))
    } else if same(name, "respond") {
        Ok(Handler::Respond(adapt_respond(profile, d)?))
    } else if same(name, "redir") || same(name, "redirect") {
        Ok(Handler::Redirect(adapt_redirect(d)?))
    } else if same(name, "file_server") {
        Ok(Handler::FileServer(adapt_file_server(profile, d)?))
    } else if same(name, "header") {
        Ok(Handler::Headers(adapt_header_directive(d)?))
    } else if same(name, "basic_auth") || same(name, "basicauth") {
        Ok(Handler::BasicAuth(adapt_basic_auth(profile, d)?))
    } else if same(name, "rate_limit") {
        Ok(Handler::RateLimit(adapt_rate_limit(d)?))
    } else if same(name, "rewrite") {
        Ok(Handler::Rewrite(adapt_rewrite(d)?))
    } else if same(name, "cors") {
        Ok(Handler::Cors(adapt_cors(d)?))
    } else if same(name, "access_control") {
        Ok(Handler::AccessControl(adapt_access_control(d)?))
    } else if profile == Profile::Extended {
        adapt_refined_leaf(d)
    } else {
        Err(refuse(profile, name))
    }
}

// ---------------------------------------------------------------------------
// Blocks of handlers
// ---------------------------------------------------------------------------
/// The matcher that stands before a directive in a block; a name that the scope defines stands for
/// its definition.
pub open spec fn resolved(d: DirectiveV, scope: Map<Seq<char>, MatcherV>) -> Option<MatcherV> {
    match matchers::matcher_of(Profile::Extended, d) {
        Some(MatcherV::Named(name)) => if scope.dom().contains(name) {
            Some(scope[name])
        } else {
            Some(MatcherV::Named(name))
        },
        m => m,
    }
}

/// Reads the matcher that stands before a directive in a block.
pub fn resolve_matcher_token(d: &Directive, scope: &Table<Matcher>) -> (r: Option<Matcher>)
    ensures
        r.deep_view() == resolved(d.deep_view(), scope.deep_view()),
{
    match matcher_token(Profile::Extended, d) {
        Some(Matcher::Named(name)) => match scope.get(name.as_str()) {
            Some(found) => Some(copy_matcher(found)),
            None => Some(Matcher::Named(name)),
        },
        m => m,
    }
}

/// A directive without its first argument.
pub open spec fn shifted(d: DirectiveV) -> DirectiveV {
    DirectiveV { args: d.args.skip(1), ..d }
}

/// A copy of `d` without its first argument.
pub fn shift(d: &Directive) -> (r: Directive)
    requires
        d.args.len() > 0,
    ensures
        r.deep_view() == shifted(d.deep_view()),
{
    let copy = copy_directive(d);
    Directive { name: copy.name, args: args_from(&d.args, 1), block: copy.block }
}

/// The elements of a `handle` block in directive order; of equal rank, exact patterns come before
/// globs and longer ones before shorter ones.
pub open spec fn sorted_elements(order: Seq<Seq<char>>, list: Seq<HandlerElementV>) -> Seq<
    HandlerElementV,
> {
    arrange::arranged(
        list,
        arrange::stable_order(
            list.map_values(
                |e: HandlerElementV|
                    ranks::specific_key(
                        ranks::handler_rank(Profile::Extended, order, e.handler),
                        e.matcher,
                    ),
            ),
        ),
    )
}

/// Sorts the elements of a `handle` block.
pub fn sort_handle_elements(list: &Vec<HandlerElement>, order: &DirectiveOrder) -> (r: Vec<
    HandlerElement,
>)
    ensures
        r.deep_view() == sorted_elements(order@, list.deep_view()),
{
    let mut keys: Vec<Vec<usize>> = Vec::new();
    let mut i: usize = 0;
    while i < list.len()
        invariant
            i <= list.len(),
            keys@.len() == i,
            forall|j: int|
                0 <= j < i ==> (#[trigger] keys@[j])@ == ranks::specific_key(
                    ranks::handler_rank(
                        Profile::Extended,
                        order@,
                        list.deep_view()[j].handler,
                    ),
                    list.deep_view()[j].matcher,
                ),
        decreases list.len() - i,
    {
        assert(list.deep_view()[i as int] == list@[i as int].deep_view());
        let rank: usize = caddy_handler_rank(Profile::Extended, order, &list[i].handler);
        keys.push(make_specific_key(rank, &list[i].matcher));
        i += 1;
    }
    assert forall|j: int| 0 <= j < keys@.len() implies (#[trigger] keys@[j]).deep_view()
        == keys@[j]@ by {
        assert(keys@[j].deep_view() =~= keys@[j]@);
    }
    assert(keys.deep_view() =~= list.deep_view().map_values(
        |e: HandlerElementV|
            ranks::specific_key(
                ranks::handler_rank(Profile::Extended, order@, e.handler),
                e.matcher,
            ),
    ));
    let places = sort_stable(&keys);
    arrange(list, &places)
}

/// The path that `handle_path` matches, and the prefix that it strips.
pub open spec fn stripped_path(d: DirectiveV) -> Result<(MatcherV, Seq<char>), ErrorV> {
    match matchers::route_matcher_of(d) {
        Some(MatcherV::Path(p)) => {
            let prefix = text::trimmed_end(text::trimmed_end(p.patterns[0], '*'), '/');
            if prefix.len() == 0 {
                Err(
                    ErrorV::InvalidArgument(
                        "handle_path"@,
                        "the path to strip cannot be empty; use `handle` instead"@,
                    ),
                )
            } else {
                Ok((MatcherV::Path(p), prefix))
            }
        },
        _ => Err(
            ErrorV::InvalidArgument(
                "handle_path"@,
                "expected a path to match and strip, e.g. `handle_path /api/* { … }`"@,
            ),
        ),
    }
}

fn read_stripped_path(d: &Directive) -> (r: Result<(Matcher, String), AdapterError>)
    ensures
        error::outcome(r) == stripped_path(d.deep_view()),
{
    match parse_route_matcher(d) {
        Some(Matcher::Path(p)) => {
            assert(p.deep_view().patterns.len() == 1);
            let prefix = trim_end(trim_end(p.patterns[0].as_str(), '*'), '/').to_owned();
            if prefix.as_str().unicode_len() == 0 {
                return Err(
                    invalid(
                        "handle_path",
                        "the path to strip cannot be empty; use `handle` instead",
                    ),
                );
            }
            Ok((Matcher::Path(p), prefix))
        },
        _ => Err(
            invalid(
                "handle_path",
                "expected a path to match and strip, e.g. `handle_path /api/* { … }`",
            ),
        ),
    }
}

/// The handler that a directive configures, with the matchers in scope and the directive order.
pub open spec fn handler(
    profile: Profile,
    d: DirectiveV,
    scope: Map<Seq<char>, MatcherV>,
    order: Seq<Seq<char>>,
) -> Result<HandlerV, ErrorV>
    decreases syntax::depth(d), 1int, 0int,
{
    if d.name == "handle"@ {
        match d.block {
            None => Ok(HandlerV::Handle(Seq::empty())),
            Some(lines) => match steps(profile, lines, scope, Seq::empty(), order) {
                Err(e) => Err(e),
                Ok(list) => if profile == Profile::Core {
                    Ok(HandlerV::Handle(list))
                } else {
                    Ok(HandlerV::Handle(sorted_elements(order, list)))
                },
            },
        }
    } else if profile == Profile::Extended && d.name == "route"@ {
        match d.block {
            None => Ok(HandlerV::Pipeline(Seq::empty())),
            Some(lines) => match steps(profile, lines, scope, Seq::empty(), order) {
                Err(e) => Err(e),
                Ok(list) => Ok(HandlerV::Pipeline(list)),
            },
        }
    } else if profile == Profile::Extended && d.name == "handle_path"@ {
        match path_handler(d, scope, order) {
            Err(e) => Err(e),
            Ok((m, h)) => Ok(h),
        }
    } else {
        leaf(profile, d)
    }
}

/// The matcher and the handler of a `handle_path` block.
pub open spec fn path_handler(
    d: DirectiveV,
    scope: Map<Seq<char>, MatcherV>,
    order: Seq<Seq<char>>,
) -> Result<(MatcherV, HandlerV), ErrorV>
    decreases syntax::depth(d), 0int, 0int,
{
    match stripped_path(d) {
        Err(e) => Err(e),
        Ok((m, prefix)) => match d.block {
            None => Ok((m, HandlerV::HandlePath(prefix, Seq::empty()))),
            Some(lines) => match steps(Profile::Extended, lines, scope, Seq::empty(), order) {
                Err(e) => Err(e),
                Ok(list) => Ok((m, HandlerV::HandlePath(prefix, sorted_elements(order, list)))),
            },
        },
    }
}

/// The elements of a block, after those of `held`.
///
/// A matcher that the block defines is in scope for the directives after it, and nowhere else.
/// The core profile has no matchers inside blocks.
pub open spec fn steps(
    profile: Profile,
    lines: Seq<DirectiveV>,
    scope: Map<Seq<char>, MatcherV>,
    held: Seq<HandlerElementV>,
    order: Seq<Seq<char>>,
) -> Result<Seq<HandlerElementV>, ErrorV>
    decreases syntax::depth_of_all(lines), 2int, lines.len(),
{
    if lines.len() == 0 {
        Ok(held)
    } else {
        let d = lines[0];
        let rest = lines.subrange(1, lines.len() as int);
        if text::starts_char(d.name, '@') {
            match profile {
                Profile::Core => Err(
                    ErrorV::UnsupportedFeature(
                        "route/handle matcher token"@,
                        "matcher tokens inside route/handle blocks are not implemented yet"@,
                    ),
                ),
                Profile::Extended => match matcher_sets::definition(profile, d) {
                    Err(e) => Err(e),
                    Ok(m) => steps(profile, rest, scope.insert(d.name, m), held, order),
                },
            }
        } else if profile == Profile::Extended && d.name == "handle_path"@ {
            match path_handler(d, scope, order) {
                Err(e) => Err(e),
                Ok((m, h)) => steps(
                    profile,
                    rest,
                    scope,
                    held.push(HandlerElementV { matcher: Some(m), handler: h }),
                    order,
                ),
            }
        } else {
            let m = match profile {
                Profile::Core => None,
                Profile::Extended => resolved(d, scope),
            };
            let own = if m is Some {
                shifted(d)
            } else {
                d
            };
            match handler(profile, own, scope, order) {
                Err(e) => Err(e),
                Ok(h) => steps(
                    profile,
                    rest,
                    scope,
                    held.push(HandlerElementV { matcher: m, handler: h }),
                    order,
                ),
            }
        }
    }
}

/// The elements of a block, sorted where `sorted` says so.
pub open spec fn block_elements(
    profile: Profile,
    d: DirectiveV,
    scope: Map<Seq<char>, MatcherV>,
    order: Seq<Seq<char>>,
    sorted: bool,
) -> Result<Seq<HandlerElementV>, ErrorV> {
    match d.block {
        None => Ok(Seq::empty()),
        Some(lines) => match steps(profile, lines, scope, Seq::empty(), order) {
            Err(e) => Err(e),
            Ok(list) => if sorted {
                Ok(sorted_elements(order, list))
            } else {
                Ok(list)
            },
        },
    }
}

/// Adapts a handler directive, with the matchers in scope and the directive order.
pub fn adapt_handler(
    profile: Profile,
    d: &Directive,
    scope: &Table<Matcher>,
    order: &DirectiveOrder,
) -> (r: Result<Handler, AdapterError>)
    ensures
        error::outcome(r) == handler(profile, d.deep_view(), scope.deep_view(), order@),
    decreases syntax::depth(d.deep_view()), 1int, 0int,
{
    let name = d.name.as_str();
    let refined = profile == Profile::Extended;
    if same(name, "handle") {
        let list = adapt_subroute_block(profile, d, scope, order, refined)?;
        Ok(Handler::Handle(list))
    } else if refined && same(name, "route") {
        let list = adapt_subroute_block(profile, d, scope, order, false)?;
        Ok(Handler::Pipeline(list))
    } else if refined && same(name, "handle_path") {
        let (m, h) = adapt_handle_path(d, scope, order)?;
        Ok(h)
    } else {
        adapt_leaf(profile, d)
    }
}

/// Adapts the block of a `route` or `handle` directive; only `handle` sorts it.
pub fn adapt_subroute_block(
    profile: Profile,
    d: &Directive,
    scope: &Table<Matcher>,
    order: &DirectiveOrder,
    sorted: bool,
) -> (r: Result<Vec<HandlerElement>, AdapterError>)
    ensures
        error::outcome(r) == block_elements(
            profile,
            d.deep_view(),
            scope.deep_view(),
            order@,
            sorted,
        ),
        match r {
            Ok(list) => list.deep_view() == tree::elements_view(list@),
            Err(_) => true,
        },
    decreases syntax::depth(d.deep_view()), 0int, 0int,
{
    let list = match &d.block {
        None => Vec::new(),
        Some(block) => collect_subroute_elements(
            profile,
            &block.directives,
            scope,
            order,
            sorted,
        )?,
    };
    proof {
        tree::lemma_elements_view(list);
    }
    assert(d.block is None ==> list.deep_view() =~= Seq::<HandlerElementV>::empty());
    Ok(list)
}

/// Adapts a `handle_path` block: its matcher, and the handler that strips the path.
pub fn adapt_handle_path(d: &Directive, scope: &Table<Matcher>, order: &DirectiveOrder) -> (r:
    Result<(Matcher, Handler), AdapterError>)
    ensures
        error::outcome(r) == path_handler(d.deep_view(), scope.deep_view(), order@),
    decreases syntax::depth(d.deep_view()), 0int, 1int,
{
    let (m, prefix) = read_stripped_path(d)?;
    let list = adapt_subroute_block(Profile::Extended, d, scope, order, true)?;
    Ok((m, Handler::HandlePath(prefix, list)))
}

/// Turns the directives of a block into elements, each behind its matcher.
pub fn collect_subroute_elements(
    profile: Profile,
    lines: &Vec<Directive>,
    parent: &Table<Matcher>,
    order: &DirectiveOrder,
    sorted: bool,
) -> (r: Result<Vec<HandlerElement>, AdapterError>)
    ensures
        error::outcome(r) == match steps(
            profile,
            syntax::directives_view(lines@),
            parent.deep_view(),
            Seq::empty(),
            order@,
        ) {
            Err(e) => Err(e),
            Ok(list) => if sorted {
                Ok::<Seq<HandlerElementV>, ErrorV>(sorted_elements(order@, list))
            } else {
                Ok(list)
            },
        },
    decreases syntax::depth_of_all(syntax::directives_view(lines@)), 2int, 0int,
{
    let ghost all = syntax::directives_view(lines@);
    let ghost start = steps(profile, all, parent.deep_view(), Seq::empty(), order@);
    let mut local = parent.duplicate();
    let mut out: Vec<HandlerElement> = Vec::new();
    let mut i: usize = 0;
    assert(all.skip(0) =~= all);
    assert(out.deep_view() =~= Seq::<HandlerElementV>::empty());
    while i < lines.len()
        invariant
            i <= lines.len(),
            all == syntax::directives_view(lines@),
            start == steps(profile, all, parent.deep_view(), Seq::empty(), order@),
            start == steps(
                profile,
                all.skip(i as int),
                local.deep_view(),
                out.deep_view(),
                order@,
            ),
        decreases lines.len() - i,
    {
        let d = &lines[i];
        let ghost view = d.deep_view();
        let ghost tail = all.skip(i as int);
        assert(tail[0] == view);
        assert(tail.subrange(1, tail.len() as int) =~= all.skip(i + 1));
        proof {
            syntax::lemma_depth(all, i as int);
            assert(all[i as int] == view);
        }
        if begins_with(d.name.as_str(), '@') {
            if profile == Profile::Core {
                return Err(
                    unsupported(
                        "route/handle matcher token",
                        "matcher tokens inside route/handle blocks are not implemented yet",
                    ),
                );
            }
            let m = parse_matcher_definition(profile, d)?;
            local.insert(d.name.clone(), m);
        } else if profile == Profile::Extended && same(d.name.as_str(), "handle_path") {
            let (m, h) = adapt_handle_path(d, &local, order)?;
            let ghost held = out.deep_view();
            let element = HandlerElement { matcher: Some(m), handler: h };
            out.push(element);
            assert(out.deep_view() =~= held.push(element.deep_view()));
        } else {
            let m = if profile == Profile::Core {
                None
            } else {
                resolve_matcher_token(d, &local)
            };
            let own = if m.is_some() {
                shift(d)
            } else {
                copy_directive(d)
            };
            assert(syntax::depth(own.deep_view()) == syntax::depth(view));
            let h = adapt_handler(profile, &own, &local, order)?;
            let ghost held = out.deep_view();
            let element = HandlerElement { matcher: m, handler: h };
            out.push(element);
            assert(out.deep_view() =~= held.push(element.deep_view()));
        }
        i += 1;
    }
    assert(all.skip(i as int).len() == 0);
    if sorted {
        return Ok(sort_handle_elements(&out, order));
    }
    Ok(out)
}

} // verus!
