//! What holds of whole configurations.

use crate::adapter::caddyfile;
use crate::adapter::handlers;
use crate::adapter::imports;
use crate::adapter::options;
use crate::adapter::order;
use crate::adapter::profile::Profile;
use crate::adapter::ranks;
use crate::adapter::reverse_proxy;
use crate::adapter::sites;
use crate::arrange;
use crate::ast::tree::{AstV, GlobalBlockV, HandlerElementV, HandlerV, MatcherV, RouteArmV, ServerBlockV};
use crate::error::ErrorV;
use crate::fold;
use crate::syntax::DirectiveV;
use crate::text;
use vstd::prelude::*;

verus! {

// ---------------------------------------------------------------------------
// What is not implemented is refused
// ---------------------------------------------------------------------------
/// The directives that configure a handler.
pub open spec fn handler_name(profile: Profile, name: Seq<char>) -> bool {
    name == "handle"@ || name == "reverse_proxy"@ || name == "respond"@ || name == "redir"@
        || name == "redirect"@ || name == "file_server"@ || name == "header"@ || name
        == "basic_auth"@ || name == "basicauth"@ || name == "rate_limit"@ || name == "rewrite"@
        || name == "cors"@ || name == "access_control"@ || (profile == Profile::Extended && (name
        == "route"@ || name == "handle_path"@ || name == "templates"@ || name == "log_skip"@
        || name == "error"@ || name == "uri"@ || name == "try_files"@))
}

/// The directives that may stand in a site block.
pub open spec fn site_name(profile: Profile, name: Seq<char>) -> bool {
    handler_name(profile, name) || sites::is_setting(name) || name == "route"@
        || text::starts_char(name, '@') || (profile == Profile::Extended && (name == "intercept"@
        || name == "vars"@))
}

/// A directive that configures no handler is refused where a handler is expected, and the
/// refusal names it.
pub proof fn a_directive_that_is_no_handler_is_refused(
    profile: Profile,
    d: DirectiveV,
    scope: Map<Seq<char>, MatcherV>,
    order: Seq<Seq<char>>,
)
    requires
        !handler_name(profile, d.name),
    ensures
        handlers::handler(profile, d, scope, order) == Err::<HandlerV, ErrorV>(
            handlers::refusal(profile, d.name),
        ),
{
}

/// A line that is not implemented is refused, whatever came before it.
pub proof fn a_line_that_is_not_implemented_is_refused(
    profile: Profile,
    c: sites::SiteDraftV,
    d: DirectiveV,
    order: Seq<Seq<char>>,
)
    requires
        !site_name(profile, d.name),
    ensures
        sites::site_line(profile, c, d, order) is Err,
{
    let own = handlers::shifted(d);
    assert(own.name == d.name);
    a_directive_that_is_no_handler_is_refused(profile, own, c.server.matchers, order);
    a_directive_that_is_no_handler_is_refused(profile, d, c.server.matchers, order);
}

/// A block is refused if one of its lines is refused in every state.
proof fn lemma_fold_refuses<S>(
    step: spec_fn(S, DirectiveV) -> Result<S, ErrorV>,
    state: S,
    list: Seq<DirectiveV>,
    k: int,
)
    requires
        0 <= k < list.len(),
        forall|s: S| (#[trigger] step(s, list[k])) is Err,
    ensures
        fold::fold(step, state, list) is Err,
    decreases list.len(),
{
    if k > 0 {
        if let Ok(next) = step(state, list[0]) {
            assert(list.drop_first()[k - 1] == list[k]);
            lemma_fold_refuses(step, next, list.drop_first(), k - 1);
        }
    } else {
        assert(step(state, list[0]) is Err);
    }
}

/// A site with a line that is not implemented is refused.
pub proof fn a_line_that_is_not_implemented_fails_its_site(
    profile: Profile,
    d: DirectiveV,
    order: Seq<Seq<char>>,
    k: int,
)
    requires
        d.block matches Some(lines) && 0 <= k < lines.len() && !site_name(profile, lines[k].name),
    ensures
        sites::site(profile, d, order) is Err,
{
    let lines = d.block->Some_0;
    let step = |c: sites::SiteDraftV, o: DirectiveV| sites::site_line(profile, c, o, order);
    assert forall|c: sites::SiteDraftV| (#[trigger] step(c, lines[k])) is Err by {
        a_line_that_is_not_implemented_is_refused(profile, c, lines[k], order);
    }
    if let Ok(start) = sites::opening(profile, d) {
        lemma_fold_refuses(step, start, lines, k);
    }
}

/// A configuration with a site with a line that is not implemented is refused as a whole.
pub proof fn a_line_that_is_not_implemented_fails_the_configuration(
    profile: Profile,
    order: Seq<Seq<char>>,
    list: Seq<DirectiveV>,
    site: int,
    line: int,
)
    requires
        0 <= site < list.len(),
        !imports::global_name(list[site].name),
        list[site].name != "macro"@,
        list[site].block matches Some(lines) && 0 <= line < lines.len() && !site_name(
            profile,
            lines[line].name,
        ),
    ensures
        caddyfile::assembled(profile, order, list) is Err,
{
    let step = |ast: AstV, d: DirectiveV| caddyfile::top_level(profile, order, ast, d);
    assert forall|ast: AstV| (#[trigger] step(ast, list[site])) is Err by {
        a_line_that_is_not_implemented_fails_its_site(profile, list[site], order, line);
    }
    lemma_fold_refuses(step, AstV { global: None, servers: Seq::empty() }, list, site);
}

/// The global options.
pub open spec fn option_name(profile: Profile, name: Seq<char>) -> bool {
    name == "debug"@ || name == "email"@ || name == "http_port"@ || name == "https_port"@ || name
        == "metrics"@ || name == "auto_https"@ || name == "admin"@ || name == "trusted_proxies"@
        || name == "dns_refresh"@ || name == "protocols"@ || (profile == Profile::Extended && (name
        == "log"@ || name == "order"@ || name == "grace_period"@ || name == "local_certs"@ || name
        == "persist_config"@ || name == "pki"@ || name == "skip_install_trust"@ || name == "dns"@
        || name == "acme_dns"@ || name == "tls_resolvers"@ || name == "default_bind"@ || name
        == "default_sni"@ || name == "renewal_window_ratio"@ || name == "preferred_chains"@))
}

proof fn lemma_lifted_keeps(
    profile: Profile,
    held: Seq<DirectiveV>,
    list: Seq<DirectiveV>,
    d: DirectiveV,
)
    requires
        held.contains(d) || (list.contains(d) && d.name != "servers"@),
        fold::fold(
            |h: Seq<DirectiveV>, o: DirectiveV| options::lifted(profile, h, o),
            held,
            list,
        ) is Ok,
    ensures
        fold::fold(
            |h: Seq<DirectiveV>, o: DirectiveV| options::lifted(profile, h, o),
            held,
            list,
        )->Ok_0.contains(d),
    decreases list.len(),
{
    let step = |h: Seq<DirectiveV>, o: DirectiveV| options::lifted(profile, h, o);
    if list.len() > 0 {
        let next = step(held, list[0])->Ok_0;
        assert(step(held, list[0]) is Ok);
        if held.contains(d) {
            let i = choose|i: int| 0 <= i < held.len() && held[i] == d;
            assert(next[i] == d);
        } else if list[0] == d {
            assert(next[held.len() as int] == d);
        } else {
            let i = choose|i: int| 0 <= i < list.len() && list[i] == d;
            assert(list.drop_first()[i - 1] == d);
        }
        lemma_lifted_keeps(profile, next, list.drop_first(), d);
    }
}

proof fn lemma_lifted_lists(
    profile: Profile,
    held: Seq<DirectiveV>,
    list: Seq<DirectiveV>,
    k: int,
    d: DirectiveV,
)
    requires
        0 <= k < list.len(),
        list[k].name == "servers"@,
        list[k].block matches Some(inner) && inner.contains(d),
        fold::fold(
            |h: Seq<DirectiveV>, o: DirectiveV| options::lifted(profile, h, o),
            held,
            list,
        ) is Ok,
    ensures
        fold::fold(
            |h: Seq<DirectiveV>, o: DirectiveV| options::lifted(profile, h, o),
            held,
            list,
        )->Ok_0.contains(d),
    decreases list.len(),
{
    let step = |h: Seq<DirectiveV>, o: DirectiveV| options::lifted(profile, h, o);
    let next = step(held, list[0])->Ok_0;
    assert(step(held, list[0]) is Ok);
    if k == 0 {
        let inner = list[0].block->Some_0;
        let i = choose|i: int| 0 <= i < inner.len() && inner[i] == d;
        assert(next == held + inner);
        assert(next[held.len() + i] == d);
        lemma_lifted_keeps(profile, next, list.drop_first(), d);
    } else {
        assert(list.drop_first()[k - 1] == list[k]);
        lemma_lifted_lists(profile, next, list.drop_first(), k - 1, d);
    }
}

proof fn lemma_flat_option_refused(profile: Profile, flat: Seq<DirectiveV>, d: DirectiveV)
    requires
        flat.contains(d),
        !option_name(profile, d.name),
    ensures
        fold::fold(
            |c: GlobalBlockV, o: DirectiveV| options::global_option_line(profile, c, o),
            GlobalBlockV::unset(),
            flat,
        ) is Err,
{
    let i = choose|i: int| 0 <= i < flat.len() && flat[i] == d;
    let step = |c: GlobalBlockV, o: DirectiveV| options::global_option_line(profile, c, o);
    assert forall|c: GlobalBlockV| (#[trigger] step(c, flat[i])) is Err by {}
    lemma_fold_refuses(step, GlobalBlockV::unset(), flat, i);
}

/// A global block with an option that is not implemented is refused.
pub proof fn an_option_that_is_not_implemented_fails_the_block(
    profile: Profile,
    d: DirectiveV,
    k: int,
)
    requires
        d.block matches Some(lines) && 0 <= k < lines.len() && !option_name(
            profile,
            lines[k].name,
        ) && lines[k].name != "servers"@,
    ensures
        options::global_block(profile, d) is Err,
{
    let lines = d.block->Some_0;
    if let Ok(flat) = options::flattened(profile, lines) {
        assert(lines.contains(lines[k]));
        lemma_lifted_keeps(profile, Seq::empty(), lines, lines[k]);
        lemma_flat_option_refused(profile, flat, lines[k]);
    }
}

/// A global block is refused too if an option that is not implemented stands in a `servers` block
/// inside it.
pub proof fn an_option_for_servers_that_is_not_implemented_fails_the_block(
    profile: Profile,
    d: DirectiveV,
    k: int,
    m: int,
)
    requires
        d.block matches Some(lines) && 0 <= k < lines.len() && lines[k].name == "servers"@
            && (lines[k].block matches Some(inner) && 0 <= m < inner.len() && !option_name(
            profile,
            inner[m].name,
        )),
    ensures
        options::global_block(profile, d) is Err,
{
    let lines = d.block->Some_0;
    let option = lines[k].block->Some_0[m];
    if let Ok(flat) = options::flattened(profile, lines) {
        assert(lines[k].block->Some_0.contains(option));
        lemma_lifted_lists(profile, Seq::empty(), lines, k, option);
        lemma_flat_option_refused(profile, flat, option);
    }
}

/// A configuration with a global option that is not implemented is refused as a whole.
pub proof fn an_option_that_is_not_implemented_fails_the_configuration(
    profile: Profile,
    order: Seq<Seq<char>>,
    list: Seq<DirectiveV>,
    block: int,
    line: int,
)
    requires
        0 <= block < list.len(),
        imports::global_name(list[block].name),
        list[block].block matches Some(lines) && 0 <= line < lines.len() && !option_name(
            profile,
            lines[line].name,
        ) && lines[line].name != "servers"@,
    ensures
        caddyfile::assembled(profile, order, list) is Err,
{
    let step = |ast: AstV, d: DirectiveV| caddyfile::top_level(profile, order, ast, d);
    assert forall|ast: AstV| (#[trigger] step(ast, list[block])) is Err by {
        an_option_that_is_not_implemented_fails_the_block(profile, list[block], line);
    }
    lemma_fold_refuses(step, AstV { global: None, servers: Seq::empty() }, list, block);
}

/// The options of a `reverse_proxy` block.
pub open spec fn proxy_name(profile: Profile, name: Seq<char>) -> bool {
    name == "header_up"@ || name == "flush_interval"@ || name == "transport"@ || name == "cache"@
        || name == "retry"@ || name == "overload"@ || name == "circuit_breaker"@ || name
        == "health_check"@ || name == "lb_policy"@ || name == "to"@ || (profile
        == Profile::Extended && (text::starts_char(name, '@') || name == "replace_status"@ || name
        == "handle_response"@ || name == "dynamic"@ || text::starts(name, "health_"@) || name
        == "lb_retries"@ || name == "lb_try_duration"@ || name == "lb_try_interval"@ || name
        == "lb_retry_match"@ || name == "method"@ || name == "rewrite"@ || name
        == "request_buffers"@ || name == "response_buffers"@))
}

/// A proxy with an option that is not implemented is refused.
pub proof fn an_option_that_is_not_implemented_fails_the_proxy(
    profile: Profile,
    d: DirectiveV,
    k: int,
)
    requires
        d.block matches Some(lines) && 0 <= k < lines.len() && !proxy_name(profile, lines[k].name),
    ensures
        reverse_proxy::reverse_proxy(profile, d) is Err,
{
    let lines = d.block->Some_0;
    let step = |c: reverse_proxy::ProxyDraftV, o: DirectiveV|
        reverse_proxy::draft_line(profile, c, o);
    assert forall|c: reverse_proxy::ProxyDraftV| (#[trigger] step(c, lines[k])) is Err by {}
    if let Ok(start) = crate::adapter::upstreams::proxy_line(profile, d.args) {
        lemma_fold_refuses(
            step,
            reverse_proxy::ProxyDraftV::start(start),
            lines,
            k,
        );
    }
}

// ---------------------------------------------------------------------------
// Order
// ---------------------------------------------------------------------------
/// The default handlers of a site run in the order of their ranks.
pub proof fn default_handlers_run_in_the_order_of_their_ranks(
    profile: Profile,
    names: Seq<Seq<char>>,
    list: Seq<HandlerV>,
    i: int,
    j: int,
)
    requires
        names.len() <= usize::MAX,
        0 <= i < j < sites::sorted_defaults(profile, names, list).len(),
    ensures
        ranks::handler_rank(profile, names, sites::sorted_defaults(profile, names, list)[i])
            <= ranks::handler_rank(
            profile,
            names,
            sites::sorted_defaults(profile, names, list)[j],
        ),
{
    let keys = list.map_values(
        |h: HandlerV| sites::rank_key(ranks::handler_rank(profile, names, h)),
    );
    let places = arrange::stable_order(keys);
    arrange::a_stable_order_follows_the_keys(keys);
    let a = list[places[i]];
    let b = list[places[j]];
    order::lemma_rank(names, ranks::directive_name(a));
    order::lemma_rank(names, ranks::directive_name(b));
    assert(keys[places[i]] == sites::rank_key(ranks::handler_rank(profile, names, a)));
    assert(keys[places[j]] == sites::rank_key(ranks::handler_rank(profile, names, b)));
    let ka = keys[places[i]];
    let kb = keys[places[j]];
    assert(!arrange::precedes(ka.skip(1), kb.skip(1)));
    assert(ka[0] <= kb[0]);
}

/// In the core profile, of two routes that both answer, or both do not, the one with the exact
/// path comes before the one with a pattern, and the longer pattern before the shorter one.
pub proof fn more_specific_routes_come_first(
    names: Seq<Seq<char>>,
    scope: Map<Seq<char>, MatcherV>,
    defaults: Seq<HandlerV>,
    arms: Seq<RouteArmV>,
    i: int,
    j: int,
)
    requires
        0 <= i < arms.len(),
        0 <= j < arms.len(),
        ranks::answers(arms[i].handler) == ranks::answers(arms[j].handler),
        ranks::specificity(arms[i].matcher).0 < ranks::specificity(arms[j].matcher).0 || (
        ranks::specificity(arms[i].matcher).0 == ranks::specificity(arms[j].matcher).0
            && ranks::specificity(arms[i].matcher).1 > ranks::specificity(arms[j].matcher).1),
    ensures
        exists|p: int, q: int|
            0 <= p < q < arms.len() && #[trigger] arrange::stable_order(
                sites::arm_keys(Profile::Core, names, scope, defaults, arms),
            )[p] == i && #[trigger] arrange::stable_order(
                sites::arm_keys(Profile::Core, names, scope, defaults, arms),
            )[q] == j,
{
    let keys = sites::arm_keys(Profile::Core, names, scope, defaults, arms);
    let a = keys[i];
    let b = keys[j];
    assert(a[0] == b[0]);
    assert(a.skip(1)[0] == a[1] && b.skip(1)[0] == b[1]);
    assert(a.skip(1).skip(1)[0] == a[2] && b.skip(1).skip(1)[0] == b[2]);
    assert(arrange::precedes(a.skip(1).skip(1), b.skip(1).skip(1)) || a[1] < b[1]);
    assert(arrange::precedes(a.skip(1), b.skip(1)));
    assert(arrange::precedes(a, b));
    arrange::what_precedes_comes_first(keys, i, j);
}

/// A route answers if one of the default handlers does, even if it does not by itself.
pub proof fn a_route_answers_if_a_default_handler_does(
    arm: RouteArmV,
    defaults: Seq<HandlerV>,
    k: int,
)
    requires
        0 <= k < defaults.len(),
        ranks::answers(defaults[k]),
    ensures
        ranks::answers(sites::answering(arm, defaults).handler),
{
    if !ranks::answers(arm.handler) {
        let n = sites::first_answer(defaults);
        sites::lemma_first_answer(defaults);
        let all = defaults.take(n) + seq![arm.handler] + defaults.skip(n);
        let at = if k < n {
            k
        } else {
            k + 1
        };
        assert(all[at] == defaults[k]);
        let list = sites::unguarded(all);
        assert(list[at].handler == defaults[k]);
        assert(ranks::answers(list[at].handler));
        assert(ranks::any_answers(list));
    }
}

/// Whether `a` comes before `b` in a list of handlers.
pub open spec fn in_turn(list: Seq<HandlerElementV>, a: HandlerV, b: HandlerV) -> bool {
    exists|p: int, q: int|
        0 <= p < q < list.len() && (#[trigger] list[p]).handler == a && (
        #[trigger] list[q]).handler == b
}

/// A route that does not answer by itself runs before every default handler that does.
pub proof fn a_route_runs_before_the_answer(arm: RouteArmV, defaults: Seq<HandlerV>, k: int)
    requires
        !ranks::answers(arm.handler),
        0 <= k < defaults.len(),
        ranks::answers(defaults[k]),
    ensures
        sites::answering(arm, defaults).handler matches HandlerV::Pipeline(list) && in_turn(
            list,
            arm.handler,
            defaults[k],
        ),
{
    let n = sites::first_answer(defaults);
    sites::lemma_first_answer(defaults);
    lemma_silent_before(defaults, k);
    let all = defaults.take(n) + seq![arm.handler] + defaults.skip(n);
    let list = sites::unguarded(all);
    assert(sites::answering(arm, defaults).handler == HandlerV::Pipeline(list));
    assert(list.len() == defaults.len() + 1);
    assert(all[n] == arm.handler);
    assert(all[k + 1] == defaults[k]);
    assert(list[n].handler == arm.handler);
    assert(list[k + 1].handler == defaults[k]);
    assert(in_turn(list, arm.handler, defaults[k]));
}

proof fn lemma_silent_before(list: Seq<HandlerV>, k: int)
    requires
        0 <= k < list.len(),
        ranks::answers(list[k]),
    ensures
        sites::first_answer(list) <= k,
    decreases list.len(),
{
    if !ranks::answers(list[0]) {
        assert(list.drop_first()[k - 1] == list[k]);
        lemma_silent_before(list.drop_first(), k - 1);
    }
}

} // verus!
