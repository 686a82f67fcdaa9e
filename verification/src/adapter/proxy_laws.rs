//! What the lines of a `reverse_proxy` block mean.

use crate::adapter::args;
use crate::adapter::dynamic;
use crate::adapter::handler_laws;
use crate::adapter::policies;
use crate::adapter::profile::Profile;
use crate::adapter::responses;
use crate::adapter::retry_match;
use crate::adapter::reverse_proxy;
use crate::adapter::reverse_proxy::ProxyDraftV;
use crate::adapter::transport;
use crate::adapter::upstreams;
use crate::ast::proxy::{
    CacheConfig, CircuitBreakerConfigV, DynamicUpstreamConfigV, ExprV, FastCgiTransportConfigV,
    FlushInterval, HealthCheckConfigV, OverloadConfig, ProxyConfigV, ProxyUpstreamConfigV,
    ResponseHandlerConfigV, RetryConfigV,
};
use crate::duration;
use crate::error::ErrorV;
use crate::fold;
use crate::syntax::{line, with_block, DirectiveV};
use crate::text;
use vstd::prelude::*;

verus! {

// ---------------------------------------------------------------------------
// One more line
// ---------------------------------------------------------------------------
/// A proxy whose block reads, before its last line.
proof fn lemma_before(
    profile: Profile,
    d: DirectiveV,
    front: Seq<DirectiveV>,
    o: DirectiveV,
    p: ProxyConfigV,
) -> (c: ProxyDraftV)
    requires
        reverse_proxy::reverse_proxy(profile, with_block(d, front)) == Ok::<ProxyConfigV, ErrorV>(
            p,
        ),
    ensures
        p == (ProxyConfigV {
            handle_response: c.proxy.handle_response + c.matcherless,
            ..c.proxy
        }),
        p.upstreams.len() > 0 || p.dynamic is Some,
        reverse_proxy::reverse_proxy(profile, with_block(d, front.push(o))) == (
        match reverse_proxy::draft_line(profile, c, o) {
            Err(e) => Err(e),
            Ok(n) => if n.proxy.upstreams.len() == 0 && n.proxy.dynamic is None {
                Err(ErrorV::ArgumentCount("reverse_proxy"@, 1, 0))
            } else {
                Ok(
                    ProxyConfigV {
                        handle_response: n.proxy.handle_response + n.matcherless,
                        ..n.proxy
                    },
                )
            },
        }),
{
    let step = |c: ProxyDraftV, o: DirectiveV| reverse_proxy::draft_line(profile, c, o);
    let start = ProxyDraftV::start(upstreams::proxy_line(profile, d.args)->Ok_0);
    fold::a_last_directive_is_read_last(step, start, front, o);
    fold::fold(step, start, front)->Ok_0
}

/// Whether a line is about responses alone.
pub open spec fn about_responses(o: DirectiveV) -> bool {
    text::starts_char(o.name, '@') || o.name == "replace_status"@ || o.name == "handle_response"@
}

/// A last line that refines the proxy in a way that has nothing to do with responses.
proof fn lemma_refined(
    profile: Profile,
    d: DirectiveV,
    front: Seq<DirectiveV>,
    o: DirectiveV,
    p: ProxyConfigV,
    q: ProxyConfigV,
)
    requires
        reverse_proxy::reverse_proxy(profile, with_block(d, front)) == Ok::<ProxyConfigV, ErrorV>(
            p,
        ),
        !about_responses(o),
        forall|x: Seq<ResponseHandlerConfigV>|
            #[trigger] reverse_proxy::proxy_option(
                profile,
                ProxyConfigV { handle_response: x, ..p },
                o,
            ) == Ok::<ProxyConfigV, ErrorV>(ProxyConfigV { handle_response: x, ..q }),
        q.handle_response == p.handle_response,
        q.upstreams.len() >= p.upstreams.len(),
        p.dynamic is Some ==> q.dynamic is Some,
    ensures
        reverse_proxy::reverse_proxy(profile, with_block(d, front.push(o))) == Ok::<
            ProxyConfigV,
            ErrorV,
        >(q),
{
    let c = lemma_before(profile, d, front, o, p);
    let x = c.proxy.handle_response;
    assert(c.proxy == ProxyConfigV { handle_response: x, ..p });
    assert(reverse_proxy::proxy_option(profile, ProxyConfigV { handle_response: x, ..p }, o) == Ok::<
        ProxyConfigV,
        ErrorV,
    >(ProxyConfigV { handle_response: x, ..q }));
    let n = reverse_proxy::draft_line(profile, c, o)->Ok_0;
    assert(reverse_proxy::draft_line(profile, c, o) == Ok::<ProxyDraftV, ErrorV>(
        ProxyDraftV { proxy: ProxyConfigV { handle_response: x, ..q }, ..c },
    ));
    assert(n.proxy.handle_response + n.matcherless == p.handle_response);
}

/// A last line that is refused refuses the proxy.
proof fn lemma_refused(
    profile: Profile,
    d: DirectiveV,
    front: Seq<DirectiveV>,
    o: DirectiveV,
    p: ProxyConfigV,
)
    requires
        reverse_proxy::reverse_proxy(profile, with_block(d, front)) == Ok::<ProxyConfigV, ErrorV>(
            p,
        ),
        !about_responses(o),
        forall|x: Seq<ResponseHandlerConfigV>|
            #[trigger] reverse_proxy::proxy_option(
                profile,
                ProxyConfigV { handle_response: x, ..p },
                o,
            ) is Err,
    ensures
        reverse_proxy::reverse_proxy(profile, with_block(d, front.push(o))) is Err,
{
    let c = lemma_before(profile, d, front, o, p);
    let x = c.proxy.handle_response;
    assert(c.proxy == ProxyConfigV { handle_response: x, ..p });
    assert(reverse_proxy::proxy_option(
        profile,
        ProxyConfigV { handle_response: x, ..p },
        o,
    ) is Err);
}

/// An empty block says what no block says.
pub proof fn an_empty_block_says_nothing(profile: Profile, d: DirectiveV)
    ensures
        reverse_proxy::reverse_proxy(profile, with_block(d, Seq::empty()))
            == reverse_proxy::reverse_proxy(profile, DirectiveV { block: None, ..d }),
{
}

// ---------------------------------------------------------------------------
// Which line says what
// ---------------------------------------------------------------------------
/// The options that every profile has are read by the functions that are named after them.
#[verifier::rlimit(60)]
#[verifier::spinoff_prover]
proof fn lemma_options(profile: Profile, p: ProxyConfigV, o: DirectiveV)
    ensures
        o.name == "lb_policy"@ ==> !about_responses(o) && reverse_proxy::proxy_option(profile, p, o)
            == reverse_proxy::balancing(profile, p, o),
        o.name == "header_up"@ && o.args.len() == 2 ==> !about_responses(o)
            && reverse_proxy::proxy_option(profile, p, o) == Ok::<ProxyConfigV, ErrorV>(
            ProxyConfigV {
                header_up: p.header_up.insert(o.args[0], ExprV::String(o.args[1])),
                ..p
            },
        ),
        o.name == "flush_interval"@ ==> !about_responses(o) && reverse_proxy::proxy_option(
            profile,
            p,
            o,
        ) == Ok::<ProxyConfigV, ErrorV>(reverse_proxy::flushing(p, o)),
        o.name == "transport"@ ==> !about_responses(o) && reverse_proxy::proxy_option(profile, p, o)
            == reverse_proxy::transported(profile, p, o),
        o.name == "to"@ ==> !about_responses(o) && reverse_proxy::proxy_option(profile, p, o)
            == upstreams::further_upstreams(p, o),
        o.name == "cache"@ ==> !about_responses(o) && (policies::cache_policy(
            profile,
            o,
        ) matches Ok(v) ==> reverse_proxy::proxy_option(profile, p, o) == Ok::<
            ProxyConfigV,
            ErrorV,
        >(ProxyConfigV { cache: Some(v), ..p })),
        o.name == "retry"@ ==> !about_responses(o) && (policies::retry_policy(o) matches Ok(v)
            ==> reverse_proxy::proxy_option(profile, p, o) == Ok::<ProxyConfigV, ErrorV>(
            ProxyConfigV { retry: v, ..p },
        )),
        o.name == "overload"@ ==> !about_responses(o) && (policies::overload_policy(o) matches Ok(v)
            ==> reverse_proxy::proxy_option(profile, p, o) == Ok::<ProxyConfigV, ErrorV>(
            ProxyConfigV { overload: v, ..p },
        )),
        o.name == "circuit_breaker"@ ==> !about_responses(o) && (policies::breaker_policy(
            o,
        ) matches Ok(v) ==> reverse_proxy::proxy_option(profile, p, o) == Ok::<
            ProxyConfigV,
            ErrorV,
        >(ProxyConfigV { circuit_breaker: v, ..p })),
        o.name == "health_check"@ ==> !about_responses(o) && (policies::health_check(
            o,
        ) matches Ok(v) ==> reverse_proxy::proxy_option(profile, p, o) == Ok::<
            ProxyConfigV,
            ErrorV,
        >(ProxyConfigV { health_check: Some(v), ..p })),
{
    reveal_strlit("header_up");
    reveal_strlit("header_down");
    reveal_strlit("dynamic");
    reveal_strlit("flush_interval");
    reveal_strlit("transport");
    reveal_strlit("cache");
    reveal_strlit("retry");
    reveal_strlit("overload");
    reveal_strlit("circuit_breaker");
    reveal_strlit("health_check");
    reveal_strlit("lb_policy");
    reveal_strlit("to");
    reveal_strlit("replace_status");
    reveal_strlit("handle_response");
    assert("header_up"@.len() == 9 && "header_up"@[0] == 'h');
    assert("header_down"@.len() == 11);
    assert("dynamic"@.len() == 7);
    assert("flush_interval"@.len() == 14 && "flush_interval"@[0] == 'f');
    assert("transport"@.len() == 9 && "transport"@[0] == 't');
    assert("cache"@.len() == 5 && "cache"@[0] == 'c');
    assert("retry"@.len() == 5 && "retry"@[0] == 'r');
    assert("overload"@.len() == 8);
    assert("circuit_breaker"@.len() == 15 && "circuit_breaker"@[0] == 'c');
    assert("health_check"@.len() == 12);
    assert("lb_policy"@.len() == 9 && "lb_policy"@[0] == 'l');
    assert("to"@.len() == 2);
    assert("replace_status"@.len() == 14 && "replace_status"@[0] == 'r');
    assert("handle_response"@.len() == 15 && "handle_response"@[0] == 'h');
    assert("lb_policy"@[0] == 'l' && "header_up"@[0] == 'h' && "flush_interval"@[0] == 'f');
    assert("transport"@[0] == 't' && "to"@[0] == 't' && "cache"@[0] == 'c' && "retry"@[0] == 'r');
    assert("overload"@[0] == 'o' && "circuit_breaker"@[0] == 'c' && "health_check"@[0] == 'h');
}

/// The options that the extended profile adds are read by the functions that are named after them.
#[verifier::rlimit(60)]
#[verifier::spinoff_prover]
proof fn lemma_refined_options(p: ProxyConfigV, o: DirectiveV)
    ensures
        o.name == "dynamic"@ || o.name == "lb_retries"@ || o.name == "lb_try_duration"@ || o.name
            == "lb_try_interval"@ || o.name == "lb_retry_match"@ || o.name == "method"@ || o.name
            == "rewrite"@ || o.name == "request_buffers"@ || o.name == "response_buffers"@
            || o.name == "health_uri"@ || o.name == "health_path"@ || o.name == "health_port"@
            || o.name == "health_method"@ || o.name == "health_interval"@ || o.name
            == "health_timeout"@ || o.name == "health_body"@ || o.name == "health_passes"@
            || o.name == "health_fails"@ || o.name == "health_status"@ || o.name
            == "health_headers"@ ==> !about_responses(o) && reverse_proxy::proxy_option(
            Profile::Extended,
            p,
            o,
        ) == reverse_proxy::refined_option(p, o),
{
    reveal_strlit("header_up");
    reveal_strlit("header_down");
    reveal_strlit("dynamic");
    reveal_strlit("flush_interval");
    reveal_strlit("transport");
    reveal_strlit("cache");
    reveal_strlit("retry");
    reveal_strlit("overload");
    reveal_strlit("circuit_breaker");
    reveal_strlit("health_check");
    reveal_strlit("lb_policy");
    reveal_strlit("to");
    reveal_strlit("replace_status");
    reveal_strlit("handle_response");
    reveal_strlit("lb_retries");
    reveal_strlit("lb_try_duration");
    reveal_strlit("lb_try_interval");
    reveal_strlit("lb_retry_match");
    reveal_strlit("method");
    reveal_strlit("rewrite");
    reveal_strlit("request_buffers");
    reveal_strlit("response_buffers");
    reveal_strlit("health_uri");
    reveal_strlit("health_path");
    reveal_strlit("health_port");
    reveal_strlit("health_method");
    reveal_strlit("health_interval");
    reveal_strlit("health_timeout");
    reveal_strlit("health_body");
    reveal_strlit("health_passes");
    reveal_strlit("health_fails");
    reveal_strlit("health_status");
    reveal_strlit("health_headers");
    assert("header_up"@.len() == 9 && "header_up"@[0] == 'h');
    assert("header_down"@.len() == 11 && "header_down"@[3] == 'd');
    assert("dynamic"@.len() == 7 && "dynamic"@[0] == 'd');
    assert("flush_interval"@.len() == 14 && "flush_interval"@[0] == 'f');
    assert("transport"@.len() == 9 && "transport"@[0] == 't');
    assert("cache"@.len() == 5 && "cache"@[0] == 'c');
    assert("retry"@.len() == 5 && "retry"@[0] == 'r');
    assert("overload"@.len() == 8);
    assert("circuit_breaker"@.len() == 15 && "circuit_breaker"@[0] == 'c');
    assert("health_check"@.len() == 12 && "health_check"@[7] == 'c');
    assert("lb_policy"@.len() == 9 && "lb_policy"@[0] == 'l');
    assert("to"@.len() == 2);
    assert("replace_status"@.len() == 14 && "replace_status"@[0] == 'r');
    assert("handle_response"@.len() == 15 && "handle_response"@[0] == 'h'
        && "handle_response"@[1] == 'a');
    assert("lb_retries"@.len() == 10 && "lb_retries"@[0] == 'l');
    assert("lb_try_duration"@.len() == 15 && "lb_try_duration"@[0] == 'l'
        && "lb_try_duration"@[7] == 'd');
    assert("lb_try_interval"@.len() == 15 && "lb_try_interval"@[0] == 'l'
        && "lb_try_interval"@[7] == 'i');
    assert("lb_retry_match"@.len() == 14 && "lb_retry_match"@[0] == 'l');
    assert("method"@.len() == 6);
    assert("rewrite"@.len() == 7 && "rewrite"@[0] == 'r');
    assert("request_buffers"@.len() == 15 && "request_buffers"@[0] == 'r');
    assert("response_buffers"@.len() == 16);
    assert("health_uri"@.len() == 10 && "health_uri"@[0] == 'h');
    assert("health_path"@.len() == 11 && "health_path"@[3] == 'l' && "health_path"@[7] == 'p'
        && "health_path"@[8] == 'a');
    assert("health_port"@.len() == 11 && "health_port"@[3] == 'l' && "health_port"@[7] == 'p'
        && "health_port"@[8] == 'o');
    assert("health_method"@.len() == 13 && "health_method"@[7] == 'm');
    assert("health_interval"@.len() == 15 && "health_interval"@[0] == 'h'
        && "health_interval"@[1] == 'e');
    assert("health_timeout"@.len() == 14 && "health_timeout"@[0] == 'h'
        && "health_timeout"@[7] == 't');
    assert("health_body"@.len() == 11 && "health_body"@[3] == 'l' && "health_body"@[7] == 'b');
    assert("health_passes"@.len() == 13 && "health_passes"@[7] == 'p');
    assert("health_fails"@.len() == 12 && "health_fails"@[7] == 'f');
    assert("health_status"@.len() == 13 && "health_status"@[7] == 's');
    assert("health_headers"@.len() == 14 && "health_headers"@[0] == 'h'
        && "health_headers"@[7] == 'h');
    assert(o.name == "dynamic"@ ==> o.name[0] == 'd');
    assert("lb_retries"@[0] == 'l' && "lb_try_duration"@[0] == 'l' && "lb_try_interval"@[0] == 'l');
    assert("lb_retry_match"@[0] == 'l' && "method"@[0] == 'm' && "rewrite"@[0] == 'r');
    assert("request_buffers"@[0] == 'r' && "response_buffers"@[0] == 'r');
    assert("health_uri"@[0] == 'h' && "health_path"@[0] == 'h' && "health_port"@[0] == 'h');
    assert("health_method"@[0] == 'h' && "health_interval"@[0] == 'h');
    assert("health_timeout"@[0] == 'h' && "health_body"@[0] == 'h' && "health_passes"@[0] == 'h');
    assert("health_fails"@[0] == 'h' && "health_status"@[0] == 'h' && "health_headers"@[0] == 'h');
}

/// Which of the options of the extended profile a line is.
#[verifier::rlimit(60)]
#[verifier::spinoff_prover]
proof fn lemma_refined_names(p: ProxyConfigV, o: DirectiveV)
    ensures
        o.name == "dynamic"@ ==> (dynamic::dynamic(o) matches Ok(v)
            ==> reverse_proxy::refined_option(p, o) == Ok::<ProxyConfigV, ErrorV>(
            ProxyConfigV { dynamic: Some(v), ..p },
        )),
        o.name == "lb_retries"@ ==> (args::positive_size(o) matches Ok(n)
            ==> reverse_proxy::refined_option(p, o) == Ok::<ProxyConfigV, ErrorV>(
            ProxyConfigV { retry: RetryConfigV { max_attempts: Some(n), ..p.retry }, ..p },
        )),
        o.name == "lb_try_duration"@ ==> (args::span(o) matches Ok(ms)
            ==> reverse_proxy::refined_option(p, o) == Ok::<ProxyConfigV, ErrorV>(
            ProxyConfigV { retry: RetryConfigV { total_timeout_ms: Some(ms), ..p.retry }, ..p },
        )),
        o.name == "lb_try_interval"@ ==> (args::span(o) matches Ok(ms)
            ==> reverse_proxy::refined_option(p, o) == Ok::<ProxyConfigV, ErrorV>(
            ProxyConfigV { retry: RetryConfigV { backoff_ms: Some(ms), ..p.retry }, ..p },
        )),
        o.name == "lb_retry_match"@ ==> (retry_match::retry_match(p.retry, o) matches Ok(retry)
            ==> reverse_proxy::refined_option(p, o) == Ok::<ProxyConfigV, ErrorV>(
            ProxyConfigV { retry, ..p },
        )),
        o.name == "method"@ ==> (args::sole(o) matches Ok(v) ==> reverse_proxy::refined_option(p, o)
            == Ok::<ProxyConfigV, ErrorV>(
            ProxyConfigV { rewrite_method: Some(text::upper(v)), ..p },
        )),
        o.name == "rewrite"@ ==> (args::sole(o) matches Ok(v) ==> reverse_proxy::refined_option(
            p,
            o,
        ) == Ok::<ProxyConfigV, ErrorV>(ProxyConfigV { rewrite_uri: Some(v), ..p })),
        o.name == "request_buffers"@ ==> (reverse_proxy::buffer_size(o) matches Ok(v)
            ==> reverse_proxy::refined_option(p, o) == Ok::<ProxyConfigV, ErrorV>(
            ProxyConfigV { request_buffer_bytes: Some(v), ..p },
        )),
        o.name == "response_buffers"@ ==> (reverse_proxy::buffer_size(o) matches Ok(v)
            ==> reverse_proxy::refined_option(p, o) == Ok::<ProxyConfigV, ErrorV>(
            ProxyConfigV { response_buffer_bytes: Some(v), ..p },
        )),
{
    reveal_strlit("dynamic");
    reveal_strlit("lb_retries");
    reveal_strlit("lb_try_duration");
    reveal_strlit("lb_try_interval");
    reveal_strlit("lb_retry_match");
    reveal_strlit("method");
    reveal_strlit("rewrite");
    reveal_strlit("request_buffers");
    reveal_strlit("response_buffers");
    reveal_strlit("health_");
    assert("dynamic"@.len() == 7 && "dynamic"@[0] == 'd');
    assert("lb_retries"@.len() == 10);
    assert("lb_try_duration"@.len() == 15 && "lb_try_duration"@[0] == 'l'
        && "lb_try_duration"@[7] == 'd');
    assert("lb_try_interval"@.len() == 15 && "lb_try_interval"@[0] == 'l'
        && "lb_try_interval"@[7] == 'i');
    assert("lb_retry_match"@.len() == 14);
    assert("method"@.len() == 6);
    assert("rewrite"@.len() == 7 && "rewrite"@[0] == 'r');
    assert("request_buffers"@.len() == 15 && "request_buffers"@[0] == 'r');
    assert("response_buffers"@.len() == 16);
    assert("health_"@.len() == 7 && "health_"@[0] == 'h');
    assert("health_"@[0] == 'h');
    assert("dynamic"@[0] == 'd');
    assert("lb_retries"@[0] == 'l' && "lb_try_duration"@[0] == 'l' && "lb_try_interval"@[0] == 'l');
    assert("lb_retry_match"@[0] == 'l' && "method"@[0] == 'm' && "rewrite"@[0] == 'r');
    assert("request_buffers"@[0] == 'r' && "response_buffers"@[0] == 'r');
    assert(text::starts(o.name, "health_"@) ==> o.name[0] == 'h') by {
        if text::starts(o.name, "health_"@) {
            assert(o.name.take(7)[0] == o.name[0]);
        }
    }
}

// ---------------------------------------------------------------------------
// Balancing
// ---------------------------------------------------------------------------
/// The policies that need no argument.
pub open spec fn is_plain_policy(policy: Seq<char>) -> bool {
    policy == "round_robin"@ || policy == "random"@ || policy == "least_conn"@ || policy
        == "ip_hash"@ || policy == "first"@
}

proof fn lemma_plain_policy(policy: Seq<char>)
    ensures
        reverse_proxy::plain_policies().contains(policy) <==> is_plain_policy(policy),
{
    let all = reverse_proxy::plain_policies();
    assert(all[0] == "round_robin"@ && all[1] == "random"@ && all[2] == "least_conn"@ && all[3]
        == "ip_hash"@ && all[4] == "first"@);
}

/// `lb_policy` sets the policy that it names and nothing else; what no policy is called is refused.
pub proof fn a_policy_is_the_one_that_is_named(
    profile: Profile,
    d: DirectiveV,
    front: Seq<DirectiveV>,
    p: ProxyConfigV,
    policy: Seq<char>,
)
    requires
        reverse_proxy::reverse_proxy(profile, with_block(d, front)) == Ok::<ProxyConfigV, ErrorV>(
            p,
        ),
    ensures
        is_plain_policy(policy) ==> reverse_proxy::reverse_proxy(
            profile,
            with_block(d, front.push(line("lb_policy"@, seq![policy]))),
        ) == Ok::<ProxyConfigV, ErrorV>(ProxyConfigV { lb_policy: Some(policy), ..p }),
        !is_plain_policy(policy) ==> reverse_proxy::reverse_proxy(
            profile,
            with_block(d, front.push(line("lb_policy"@, seq![policy]))),
        ) is Err,
{
    let o = line("lb_policy"@, seq![policy]);
    lemma_plain_policy(policy);
    assert(o.args.skip(1) =~= Seq::empty());
    if is_plain_policy(policy) {
        let q = ProxyConfigV { lb_policy: Some(policy), ..p };
        assert forall|x: Seq<ResponseHandlerConfigV>|
            #[trigger] reverse_proxy::proxy_option(
                profile,
                ProxyConfigV { handle_response: x, ..p },
                o,
            ) == Ok::<ProxyConfigV, ErrorV>(ProxyConfigV { handle_response: x, ..q }) by {
            lemma_options(profile, ProxyConfigV { handle_response: x, ..p }, o);
        }
        lemma_options(profile, p, o);
        lemma_refined(profile, d, front, o, p, q);
    } else {
        assert forall|x: Seq<ResponseHandlerConfigV>|
            #[trigger] reverse_proxy::proxy_option(
                profile,
                ProxyConfigV { handle_response: x, ..p },
                o,
            ) is Err by {
            lemma_options(profile, ProxyConfigV { handle_response: x, ..p }, o);
        }
        lemma_options(profile, p, o);
        lemma_refused(profile, d, front, o, p);
    }
}

/// A proxy whose block holds a policy alone has that policy, so that different policies make
/// different proxies.
pub proof fn different_policies_make_different_proxies(
    profile: Profile,
    d: DirectiveV,
    a: Seq<char>,
    b: Seq<char>,
)
    requires
        reverse_proxy::reverse_proxy(profile, DirectiveV { block: None, ..d }) is Ok,
        is_plain_policy(a),
        is_plain_policy(b),
        a != b,
    ensures
        reverse_proxy::reverse_proxy(
            profile,
            with_block(d, seq![line("lb_policy"@, seq![a])]),
        ) matches Ok(p) && p.lb_policy == Some(a),
        reverse_proxy::reverse_proxy(profile, with_block(d, seq![line("lb_policy"@, seq![a])]))
            != reverse_proxy::reverse_proxy(
            profile,
            with_block(d, seq![line("lb_policy"@, seq![b])]),
        ),
{
    let p = reverse_proxy::reverse_proxy(profile, DirectiveV { block: None, ..d })->Ok_0;
    an_empty_block_says_nothing(profile, d);
    a_policy_is_the_one_that_is_named(profile, d, Seq::empty(), p, a);
    a_policy_is_the_one_that_is_named(profile, d, Seq::empty(), p, b);
    assert(Seq::<DirectiveV>::empty().push(line("lb_policy"@, seq![a])) =~= seq![
        line("lb_policy"@, seq![a]),
    ]);
    assert(Seq::<DirectiveV>::empty().push(line("lb_policy"@, seq![b])) =~= seq![
        line("lb_policy"@, seq![b]),
    ]);
}

/// A policy that hashes a field is named by the kind of the field, and hashes the field that
/// follows.
pub proof fn a_hashing_policy_hashes_the_field_that_is_named(
    d: DirectiveV,
    front: Seq<DirectiveV>,
    p: ProxyConfigV,
    policy: Seq<char>,
    key: Seq<char>,
)
    requires
        reverse_proxy::reverse_proxy(Profile::Extended, with_block(d, front)) == Ok::<
            ProxyConfigV,
            ErrorV,
        >(p),
        policy == "header"@ || policy == "cookie"@ || policy == "query"@,
    ensures
        reverse_proxy::reverse_proxy(
            Profile::Extended,
            with_block(d, front.push(line("lb_policy"@, seq![policy, key]))),
        ) == Ok::<ProxyConfigV, ErrorV>(
            ProxyConfigV { lb_policy: Some(policy), lb_hash_key: Some(key), ..p },
        ),
{
    let o = line("lb_policy"@, seq![policy, key]);
    let q = ProxyConfigV { lb_policy: Some(policy), lb_hash_key: Some(key), ..p };
    lemma_plain_policy(policy);
    reveal_strlit("header");
    reveal_strlit("cookie");
    reveal_strlit("query");
    reveal_strlit("round_robin");
    reveal_strlit("random");
    reveal_strlit("least_conn");
    reveal_strlit("ip_hash");
    reveal_strlit("first");
    assert("header"@.len() == 6 && "header"@[0] == 'h');
    assert("cookie"@.len() == 6 && "cookie"@[0] == 'c');
    assert("query"@.len() == 5 && "query"@[0] == 'q');
    assert("round_robin"@.len() == 11);
    assert("random"@.len() == 6 && "random"@[0] == 'r');
    assert("least_conn"@.len() == 10);
    assert("ip_hash"@.len() == 7);
    assert("first"@.len() == 5 && "first"@[0] == 'f');
    assert forall|x: Seq<ResponseHandlerConfigV>|
        #[trigger] reverse_proxy::proxy_option(
            Profile::Extended,
            ProxyConfigV { handle_response: x, ..p },
            o,
        ) == Ok::<ProxyConfigV, ErrorV>(ProxyConfigV { handle_response: x, ..q }) by {
        lemma_options(Profile::Extended, ProxyConfigV { handle_response: x, ..p }, o);
    }
    lemma_options(Profile::Extended, p, o);
    lemma_refined(Profile::Extended, d, front, o, p, q);
}

/// Numbers as they are written.
pub open spec fn written_weights(weights: Seq<u32>) -> Seq<Seq<char>> {
    weights.map_values(|w: u32| text::shown(w as nat))
}

proof fn lemma_weights(weights: Seq<u32>)
    ensures
        fold::each(|value: Seq<char>| reverse_proxy::weight(value), written_weights(weights))
            == Ok::<Seq<u32>, ErrorV>(weights),
    decreases weights.len(),
{
    if weights.len() == 0 {
        assert(weights =~= Seq::empty());
    } else {
        let front = weights.drop_last();
        lemma_weights(front);
        assert(written_weights(weights).drop_last() =~= written_weights(front));
        text::a_shown_number_reads_back(weights.last() as nat);
        assert(text::number(text::shown(weights.last() as nat), u32::MAX as nat) == Some(
            weights.last() as nat,
        ));
        assert(front.push(weights.last()) =~= weights);
    }
}

/// A weighted policy takes turns, and gives each upstream the weight that stands at its place.
pub proof fn a_weight_goes_to_the_upstream_at_its_place(
    d: DirectiveV,
    front: Seq<DirectiveV>,
    p: ProxyConfigV,
    weights: Seq<u32>,
)
    requires
        reverse_proxy::reverse_proxy(Profile::Extended, with_block(d, front)) == Ok::<
            ProxyConfigV,
            ErrorV,
        >(p),
        weights.len() > 0,
        weights.len() == p.upstream_options.len(),
    ensures
        reverse_proxy::reverse_proxy(
            Profile::Extended,
            with_block(
                d,
                front.push(
                    line("lb_policy"@, seq!["weighted_round_robin"@] + written_weights(weights)),
                ),
            ),
        ) matches Ok(q) && (q.lb_policy == Some("round_robin"@) && q.upstreams == p.upstreams
            && q.upstream_options.len() == weights.len() && forall|i: int|
            0 <= i < weights.len() ==> (#[trigger] q.upstream_options[i]).weight == weights[i]
                && q.upstream_options[i].address == p.upstream_options[i].address
                && q.upstream_options[i].backup == p.upstream_options[i].backup),
{
    let args = seq!["weighted_round_robin"@] + written_weights(weights);
    let o = line("lb_policy"@, args);
    let q = ProxyConfigV {
        upstream_options: Seq::new(
            weights.len(),
            |i: int| ProxyUpstreamConfigV { weight: weights[i], ..p.upstream_options[i] },
        ),
        lb_policy: Some("round_robin"@),
        ..p
    };
    lemma_plain_policy("weighted_round_robin"@);
    lemma_weights(weights);
    assert(args.skip(1) =~= written_weights(weights));
    reveal_strlit("header");
    reveal_strlit("cookie");
    reveal_strlit("query");
    reveal_strlit("weighted_round_robin");
    reveal_strlit("round_robin");
    reveal_strlit("random");
    reveal_strlit("least_conn");
    reveal_strlit("ip_hash");
    reveal_strlit("first");
    assert("header"@.len() == 6 && "header"@[0] == 'h');
    assert("cookie"@.len() == 6 && "cookie"@[0] == 'c');
    assert("query"@.len() == 5 && "query"@[0] == 'q');
    assert("weighted_round_robin"@.len() == 20);
    assert("round_robin"@.len() == 11);
    assert("random"@.len() == 6 && "random"@[0] == 'r');
    assert("least_conn"@.len() == 10);
    assert("ip_hash"@.len() == 7);
    assert("first"@.len() == 5 && "first"@[0] == 'f');
    assert forall|x: Seq<ResponseHandlerConfigV>|
        #[trigger] reverse_proxy::proxy_option(
            Profile::Extended,
            ProxyConfigV { handle_response: x, ..p },
            o,
        ) == Ok::<ProxyConfigV, ErrorV>(ProxyConfigV { handle_response: x, ..q }) by {
        lemma_options(Profile::Extended, ProxyConfigV { handle_response: x, ..p }, o);
    }
    lemma_options(Profile::Extended, p, o);
    lemma_refined(Profile::Extended, d, front, o, p, q);
}

// ---------------------------------------------------------------------------
// Other options
// ---------------------------------------------------------------------------
/// `header_up` sets the field that it names to the value behind it.
pub proof fn a_request_header_is_set_as_written(
    profile: Profile,
    d: DirectiveV,
    front: Seq<DirectiveV>,
    p: ProxyConfigV,
    name: Seq<char>,
    value: Seq<char>,
)
    requires
        reverse_proxy::reverse_proxy(profile, with_block(d, front)) == Ok::<
            ProxyConfigV,
            ErrorV,
        >(p),
    ensures
        reverse_proxy::reverse_proxy(
            profile,
            with_block(d, front.push(line("header_up"@, seq![name, value]))),
        ) == Ok::<ProxyConfigV, ErrorV>(
            ProxyConfigV { header_up: p.header_up.insert(name, ExprV::String(value)), ..p },
        ),
{
    let o0 = line("header_up"@, seq![name, value]);
    let q0 = ProxyConfigV { header_up: p.header_up.insert(name, ExprV::String(value)), ..p };
    assert forall|x: Seq<ResponseHandlerConfigV>|
        #[trigger] reverse_proxy::proxy_option(
            profile,
            ProxyConfigV { handle_response: x, ..p },
            o0,
        ) == Ok::<ProxyConfigV, ErrorV>(ProxyConfigV { handle_response: x, ..q0 }) by {
        lemma_options(profile, ProxyConfigV { handle_response: x, ..p }, o0);
    }
    lemma_options(profile, p, o0);
    lemma_refined(profile, d, front, o0, p, q0);
}

/// `flush_interval` takes milliseconds, or `-1` for no delay at all.
pub proof fn a_flush_interval_is_what_is_written(
    profile: Profile,
    d: DirectiveV,
    front: Seq<DirectiveV>,
    p: ProxyConfigV,
    ms: u64,
)
    requires
        reverse_proxy::reverse_proxy(profile, with_block(d, front)) == Ok::<
            ProxyConfigV,
            ErrorV,
        >(p),
    ensures
        reverse_proxy::reverse_proxy(
            profile,
            with_block(d, front.push(line("flush_interval"@, seq!["-1"@]))),
        ) == Ok::<ProxyConfigV, ErrorV>(
            ProxyConfigV { flush_interval: Some(FlushInterval::Immediate), ..p },
        ),
        reverse_proxy::reverse_proxy(
            profile,
            with_block(d, front.push(line("flush_interval"@, seq![text::shown(ms as nat)]))),
        ) == Ok::<ProxyConfigV, ErrorV>(
            ProxyConfigV { flush_interval: Some(FlushInterval::Duration(ms)), ..p },
        ),
{
    text::a_shown_number_reads_back(ms as nat);
    assert(text::number(text::shown(ms as nat), u64::MAX as nat) == Some(ms as nat));
    reveal_strlit("-1");
    assert("-1"@[0] == '-');
    assert(text::digit(text::shown(ms as nat)[0]));
    let o0 = line("flush_interval"@, seq!["-1"@]);
    let q0 = ProxyConfigV { flush_interval: Some(FlushInterval::Immediate), ..p };
    assert forall|x: Seq<ResponseHandlerConfigV>|
        #[trigger] reverse_proxy::proxy_option(
            profile,
            ProxyConfigV { handle_response: x, ..p },
            o0,
        ) == Ok::<ProxyConfigV, ErrorV>(ProxyConfigV { handle_response: x, ..q0 }) by {
        lemma_options(profile, ProxyConfigV { handle_response: x, ..p }, o0);
    }
    lemma_options(profile, p, o0);
    lemma_refined(profile, d, front, o0, p, q0);
    let o1 = line("flush_interval"@, seq![text::shown(ms as nat)]);
    let q1 = ProxyConfigV { flush_interval: Some(FlushInterval::Duration(ms)), ..p };
    assert forall|x: Seq<ResponseHandlerConfigV>|
        #[trigger] reverse_proxy::proxy_option(
            profile,
            ProxyConfigV { handle_response: x, ..p },
            o1,
        ) == Ok::<ProxyConfigV, ErrorV>(ProxyConfigV { handle_response: x, ..q1 }) by {
        lemma_options(profile, ProxyConfigV { handle_response: x, ..p }, o1);
    }
    lemma_options(profile, p, o1);
    lemma_refined(profile, d, front, o1, p, q1);
}

/// Each of the blocks for caching, retries, overload, broken upstreams and health checks configures
/// the policy that it is named after, and no other.
pub proof fn a_policy_block_configures_its_own_policy(
    profile: Profile,
    d: DirectiveV,
    front: Seq<DirectiveV>,
    p: ProxyConfigV,
    cache: DirectiveV,
    cached: CacheConfig,
    retry: DirectiveV,
    retried: RetryConfigV,
    overload: DirectiveV,
    limited: OverloadConfig,
    breaker: DirectiveV,
    broken: CircuitBreakerConfigV,
    health: DirectiveV,
    checked: HealthCheckConfigV,
)
    requires
        reverse_proxy::reverse_proxy(profile, with_block(d, front)) == Ok::<
            ProxyConfigV,
            ErrorV,
        >(p),
        cache.name == "cache"@,
        policies::cache_policy(profile, cache) == Ok::<CacheConfig, ErrorV>(cached),
        retry.name == "retry"@,
        policies::retry_policy(retry) == Ok::<RetryConfigV, ErrorV>(retried),
        overload.name == "overload"@,
        policies::overload_policy(overload) == Ok::<OverloadConfig, ErrorV>(limited),
        breaker.name == "circuit_breaker"@,
        policies::breaker_policy(breaker) == Ok::<CircuitBreakerConfigV, ErrorV>(broken),
        health.name == "health_check"@,
        policies::health_check(health) == Ok::<HealthCheckConfigV, ErrorV>(checked),
    ensures
        reverse_proxy::reverse_proxy(
            profile,
            with_block(d, front.push(cache)),
        ) == Ok::<ProxyConfigV, ErrorV>(
            ProxyConfigV { cache: Some(cached), ..p },
        ),
        reverse_proxy::reverse_proxy(
            profile,
            with_block(d, front.push(retry)),
        ) == Ok::<ProxyConfigV, ErrorV>(
            ProxyConfigV { retry: retried, ..p },
        ),
        reverse_proxy::reverse_proxy(
            profile,
            with_block(d, front.push(overload)),
        ) == Ok::<ProxyConfigV, ErrorV>(
            ProxyConfigV { overload: limited, ..p },
        ),
        reverse_proxy::reverse_proxy(
            profile,
            with_block(d, front.push(breaker)),
        ) == Ok::<ProxyConfigV, ErrorV>(
            ProxyConfigV { circuit_breaker: broken, ..p },
        ),
        reverse_proxy::reverse_proxy(
            profile,
            with_block(d, front.push(health)),
        ) == Ok::<ProxyConfigV, ErrorV>(
            ProxyConfigV { health_check: Some(checked), ..p },
        ),
{
    let o0 = cache;
    let q0 = ProxyConfigV { cache: Some(cached), ..p };
    assert forall|x: Seq<ResponseHandlerConfigV>|
        #[trigger] reverse_proxy::proxy_option(
            profile,
            ProxyConfigV { handle_response: x, ..p },
            o0,
        ) == Ok::<ProxyConfigV, ErrorV>(ProxyConfigV { handle_response: x, ..q0 }) by {
        lemma_options(profile, ProxyConfigV { handle_response: x, ..p }, o0);
    }
    lemma_options(profile, p, o0);
    lemma_refined(profile, d, front, o0, p, q0);
    let o1 = retry;
    let q1 = ProxyConfigV { retry: retried, ..p };
    assert forall|x: Seq<ResponseHandlerConfigV>|
        #[trigger] reverse_proxy::proxy_option(
            profile,
            ProxyConfigV { handle_response: x, ..p },
            o1,
        ) == Ok::<ProxyConfigV, ErrorV>(ProxyConfigV { handle_response: x, ..q1 }) by {
        lemma_options(profile, ProxyConfigV { handle_response: x, ..p }, o1);
    }
    lemma_options(profile, p, o1);
    lemma_refined(profile, d, front, o1, p, q1);
    let o2 = overload;
    let q2 = ProxyConfigV { overload: limited, ..p };
    assert forall|x: Seq<ResponseHandlerConfigV>|
        #[trigger] reverse_proxy::proxy_option(
            profile,
            ProxyConfigV { handle_response: x, ..p },
            o2,
        ) == Ok::<ProxyConfigV, ErrorV>(ProxyConfigV { handle_response: x, ..q2 }) by {
        lemma_options(profile, ProxyConfigV { handle_response: x, ..p }, o2);
    }
    lemma_options(profile, p, o2);
    lemma_refined(profile, d, front, o2, p, q2);
    let o3 = breaker;
    let q3 = ProxyConfigV { circuit_breaker: broken, ..p };
    assert forall|x: Seq<ResponseHandlerConfigV>|
        #[trigger] reverse_proxy::proxy_option(
            profile,
            ProxyConfigV { handle_response: x, ..p },
            o3,
        ) == Ok::<ProxyConfigV, ErrorV>(ProxyConfigV { handle_response: x, ..q3 }) by {
        lemma_options(profile, ProxyConfigV { handle_response: x, ..p }, o3);
    }
    lemma_options(profile, p, o3);
    lemma_refined(profile, d, front, o3, p, q3);
    let o4 = health;
    let q4 = ProxyConfigV { health_check: Some(checked), ..p };
    assert forall|x: Seq<ResponseHandlerConfigV>|
        #[trigger] reverse_proxy::proxy_option(
            profile,
            ProxyConfigV { handle_response: x, ..p },
            o4,
        ) == Ok::<ProxyConfigV, ErrorV>(ProxyConfigV { handle_response: x, ..q4 }) by {
        lemma_options(profile, ProxyConfigV { handle_response: x, ..p }, o4);
    }
    lemma_options(profile, p, o4);
    lemma_refined(profile, d, front, o4, p, q4);
}

/// `lb_retries` bounds the attempts, `lb_try_duration` the time in which they are made, and
/// `lb_try_interval` is the time between them.
pub proof fn a_retry_option_sets_what_it_names(
    d: DirectiveV,
    front: Seq<DirectiveV>,
    p: ProxyConfigV,
    n: usize,
    t: Seq<char>,
    ms: u64,
)
    requires
        reverse_proxy::reverse_proxy(Profile::Extended, with_block(d, front)) == Ok::<
            ProxyConfigV,
            ErrorV,
        >(p),
        n > 0,
        duration::millis(t) == Some(ms),
        0 < ms <= args::LONGEST_MS,
    ensures
        reverse_proxy::reverse_proxy(
            Profile::Extended,
            with_block(d, front.push(line("lb_retries"@, seq![text::shown(n as nat)]))),
        ) == Ok::<ProxyConfigV, ErrorV>(
            ProxyConfigV { retry: RetryConfigV { max_attempts: Some(n), ..p.retry }, ..p },
        ),
        reverse_proxy::reverse_proxy(
            Profile::Extended,
            with_block(d, front.push(line("lb_try_duration"@, seq![t]))),
        ) == Ok::<ProxyConfigV, ErrorV>(
            ProxyConfigV { retry: RetryConfigV { total_timeout_ms: Some(ms), ..p.retry }, ..p },
        ),
        reverse_proxy::reverse_proxy(
            Profile::Extended,
            with_block(d, front.push(line("lb_try_interval"@, seq![t]))),
        ) == Ok::<ProxyConfigV, ErrorV>(
            ProxyConfigV { retry: RetryConfigV { backoff_ms: Some(ms), ..p.retry }, ..p },
        ),
{
    text::a_shown_number_reads_back(n as nat);
    assert(text::number(text::shown(n as nat), u64::MAX as nat) == Some(n as nat));
    let o0 = line("lb_retries"@, seq![text::shown(n as nat)]);
    let q0 = ProxyConfigV { retry: RetryConfigV { max_attempts: Some(n), ..p.retry }, ..p };
    assert forall|x: Seq<ResponseHandlerConfigV>|
        #[trigger] reverse_proxy::proxy_option(
            Profile::Extended,
            ProxyConfigV { handle_response: x, ..p },
            o0,
        ) == Ok::<ProxyConfigV, ErrorV>(ProxyConfigV { handle_response: x, ..q0 }) by {
        lemma_refined_options(ProxyConfigV { handle_response: x, ..p }, o0);
        lemma_refined_names(ProxyConfigV { handle_response: x, ..p }, o0);
        lemma_options(Profile::Extended, ProxyConfigV { handle_response: x, ..p }, o0);
    }
    lemma_refined_options(p, o0);
    lemma_options(Profile::Extended, p, o0);
    lemma_refined(Profile::Extended, d, front, o0, p, q0);
    let o1 = line("lb_try_duration"@, seq![t]);
    let q1 = ProxyConfigV { retry: RetryConfigV { total_timeout_ms: Some(ms), ..p.retry }, ..p };
    assert forall|x: Seq<ResponseHandlerConfigV>|
        #[trigger] reverse_proxy::proxy_option(
            Profile::Extended,
            ProxyConfigV { handle_response: x, ..p },
            o1,
        ) == Ok::<ProxyConfigV, ErrorV>(ProxyConfigV { handle_response: x, ..q1 }) by {
        lemma_refined_options(ProxyConfigV { handle_response: x, ..p }, o1);
        lemma_refined_names(ProxyConfigV { handle_response: x, ..p }, o1);
        lemma_options(Profile::Extended, ProxyConfigV { handle_response: x, ..p }, o1);
    }
    lemma_refined_options(p, o1);
    lemma_options(Profile::Extended, p, o1);
    lemma_refined(Profile::Extended, d, front, o1, p, q1);
    let o2 = line("lb_try_interval"@, seq![t]);
    let q2 = ProxyConfigV { retry: RetryConfigV { backoff_ms: Some(ms), ..p.retry }, ..p };
    assert forall|x: Seq<ResponseHandlerConfigV>|
        #[trigger] reverse_proxy::proxy_option(
            Profile::Extended,
            ProxyConfigV { handle_response: x, ..p },
            o2,
        ) == Ok::<ProxyConfigV, ErrorV>(ProxyConfigV { handle_response: x, ..q2 }) by {
        lemma_refined_options(ProxyConfigV { handle_response: x, ..p }, o2);
        lemma_refined_names(ProxyConfigV { handle_response: x, ..p }, o2);
        lemma_options(Profile::Extended, ProxyConfigV { handle_response: x, ..p }, o2);
    }
    lemma_refined_options(p, o2);
    lemma_options(Profile::Extended, p, o2);
    lemma_refined(Profile::Extended, d, front, o2, p, q2);
}

/// `method` and `rewrite` change the method and the target of the request.
pub proof fn a_request_is_rewritten_as_written(
    d: DirectiveV,
    front: Seq<DirectiveV>,
    p: ProxyConfigV,
    v: Seq<char>,
)
    requires
        reverse_proxy::reverse_proxy(Profile::Extended, with_block(d, front)) == Ok::<
            ProxyConfigV,
            ErrorV,
        >(p),
    ensures
        reverse_proxy::reverse_proxy(
            Profile::Extended,
            with_block(d, front.push(line("method"@, seq![v]))),
        ) == Ok::<ProxyConfigV, ErrorV>(
            ProxyConfigV { rewrite_method: Some(text::upper(v)), ..p },
        ),
        reverse_proxy::reverse_proxy(
            Profile::Extended,
            with_block(d, front.push(line("rewrite"@, seq![v]))),
        ) == Ok::<ProxyConfigV, ErrorV>(
            ProxyConfigV { rewrite_uri: Some(v), ..p },
        ),
{
    let o0 = line("method"@, seq![v]);
    let q0 = ProxyConfigV { rewrite_method: Some(text::upper(v)), ..p };
    assert forall|x: Seq<ResponseHandlerConfigV>|
        #[trigger] reverse_proxy::proxy_option(
            Profile::Extended,
            ProxyConfigV { handle_response: x, ..p },
            o0,
        ) == Ok::<ProxyConfigV, ErrorV>(ProxyConfigV { handle_response: x, ..q0 }) by {
        lemma_refined_options(ProxyConfigV { handle_response: x, ..p }, o0);
        lemma_refined_names(ProxyConfigV { handle_response: x, ..p }, o0);
        lemma_options(Profile::Extended, ProxyConfigV { handle_response: x, ..p }, o0);
    }
    lemma_refined_options(p, o0);
    lemma_options(Profile::Extended, p, o0);
    lemma_refined(Profile::Extended, d, front, o0, p, q0);
    let o1 = line("rewrite"@, seq![v]);
    let q1 = ProxyConfigV { rewrite_uri: Some(v), ..p };
    assert forall|x: Seq<ResponseHandlerConfigV>|
        #[trigger] reverse_proxy::proxy_option(
            Profile::Extended,
            ProxyConfigV { handle_response: x, ..p },
            o1,
        ) == Ok::<ProxyConfigV, ErrorV>(ProxyConfigV { handle_response: x, ..q1 }) by {
        lemma_refined_options(ProxyConfigV { handle_response: x, ..p }, o1);
        lemma_refined_names(ProxyConfigV { handle_response: x, ..p }, o1);
        lemma_options(Profile::Extended, ProxyConfigV { handle_response: x, ..p }, o1);
    }
    lemma_refined_options(p, o1);
    lemma_options(Profile::Extended, p, o1);
    lemma_refined(Profile::Extended, d, front, o1, p, q1);
}

/// A dynamic source is the source of the upstreams, and what a retry match states goes to the retries.
pub proof fn a_refining_block_configures_what_it_is_named_after(
    d: DirectiveV,
    front: Seq<DirectiveV>,
    p: ProxyConfigV,
    source: DirectiveV,
    found: DynamicUpstreamConfigV,
    matched: DirectiveV,
    retry: RetryConfigV,
)
    requires
        reverse_proxy::reverse_proxy(Profile::Extended, with_block(d, front)) == Ok::<
            ProxyConfigV,
            ErrorV,
        >(p),
        source.name == "dynamic"@,
        dynamic::dynamic(source) == Ok::<DynamicUpstreamConfigV, ErrorV>(found),
        matched.name == "lb_retry_match"@,
        retry_match::retry_match(p.retry, matched) == Ok::<RetryConfigV, ErrorV>(retry),
    ensures
        reverse_proxy::reverse_proxy(
            Profile::Extended,
            with_block(d, front.push(source)),
        ) == Ok::<ProxyConfigV, ErrorV>(
            ProxyConfigV { dynamic: Some(found), ..p },
        ),
        reverse_proxy::reverse_proxy(
            Profile::Extended,
            with_block(d, front.push(matched)),
        ) == Ok::<ProxyConfigV, ErrorV>(
            ProxyConfigV { retry, ..p },
        ),
{
    let o0 = source;
    let q0 = ProxyConfigV { dynamic: Some(found), ..p };
    assert forall|x: Seq<ResponseHandlerConfigV>|
        #[trigger] reverse_proxy::proxy_option(
            Profile::Extended,
            ProxyConfigV { handle_response: x, ..p },
            o0,
        ) == Ok::<ProxyConfigV, ErrorV>(ProxyConfigV { handle_response: x, ..q0 }) by {
        lemma_refined_options(ProxyConfigV { handle_response: x, ..p }, o0);
        lemma_refined_names(ProxyConfigV { handle_response: x, ..p }, o0);
        lemma_options(Profile::Extended, ProxyConfigV { handle_response: x, ..p }, o0);
    }
    lemma_refined_options(p, o0);
    lemma_options(Profile::Extended, p, o0);
    lemma_refined(Profile::Extended, d, front, o0, p, q0);
    let o1 = matched;
    let q1 = ProxyConfigV { retry, ..p };
    assert forall|x: Seq<ResponseHandlerConfigV>|
        #[trigger] reverse_proxy::proxy_option(
            Profile::Extended,
            ProxyConfigV { handle_response: x, ..p },
            o1,
        ) == Ok::<ProxyConfigV, ErrorV>(ProxyConfigV { handle_response: x, ..q1 }) by {
        lemma_refined_options(ProxyConfigV { handle_response: x, ..p }, o1);
        lemma_refined_names(ProxyConfigV { handle_response: x, ..p }, o1);
        lemma_options(Profile::Extended, ProxyConfigV { handle_response: x, ..p }, o1);
    }
    lemma_refined_options(p, o1);
    lemma_options(Profile::Extended, p, o1);
    lemma_refined(Profile::Extended, d, front, o1, p, q1);
}

/// A number of bytes with a unit is that many times the bytes of the unit.
proof fn lemma_buffer(name: Seq<char>, n: nat, unit: Seq<char>, each: nat)
    requires
        (unit == ""@ && each == 1) || (unit == "b"@ && each == 1) || (unit == "kb"@ && each
            == 1_024) || (unit == "mb"@ && each == 1_048_576) || (unit == "gb"@ && each
            == 1_073_741_824),
        n * each <= i64::MAX,
    ensures
        reverse_proxy::buffer_size(line(name, seq![text::shown(n) + unit])) == Ok::<i64, ErrorV>(
            (n * each) as i64,
        ),
{
    let count = text::shown(n);
    let value = count + unit;
    text::a_shown_number_reads_back(n);
    assert(n <= i64::MAX) by (nonlinear_arith)
        requires
            n * each <= i64::MAX,
            each >= 1,
    ;
    assert(text::number(count, i64::MAX as nat) == Some(n));
    reveal_strlit("b");
    reveal_strlit("k");
    reveal_strlit("kb");
    reveal_strlit("m");
    reveal_strlit("mb");
    reveal_strlit("g");
    reveal_strlit("gb");
    reveal_strlit("unlimited");
    assert("b"@.len() == 1 && "b"@[0] == 'b');
    assert("k"@.len() == 1 && "k"@[0] == 'k');
    assert("kb"@.len() == 2 && "kb"@[0] == 'k');
    assert("m"@.len() == 1 && "m"@[0] == 'm');
    assert("mb"@.len() == 2 && "mb"@[0] == 'm');
    assert("g"@.len() == 1 && "g"@[0] == 'g');
    assert("gb"@.len() == 2 && "gb"@[0] == 'g');
    assert("unlimited"@.len() == 9);
    reveal_strlit("");
    assert(""@.len() == 0);
    assert("b"@[0] == 'b' && "kb"@[0] == 'k' && "kb"@[1] == 'b' && "mb"@[0] == 'm' && "mb"@[1]
        == 'b' && "gb"@[0] == 'g' && "gb"@[1] == 'b');
    let f = |c: char| text::digit(c);
    lemma_leading_digits(count, unit);
    assert(text::lower(unit) =~= unit);
    assert(value != "unlimited"@) by {
        assert("unlimited"@[0] == 'u');
        assert(value[0] == count[0]);
        assert(text::digit(count[0]));
    }
}

/// Digits end where something else begins.
proof fn lemma_leading_digits(a: Seq<char>, r: Seq<char>)
    requires
        text::digits(a),
        r.len() == 0 || !text::digit(r[0]),
    ensures
        text::trim_left(a + r, |c: char| text::digit(c)) == r,
        text::leading(a + r, |c: char| text::digit(c)) == a,
    decreases a.len(),
{
    let s = a + r;
    if a.len() == 0 {
        assert(s =~= r);
        assert(text::leading(s, |c: char| text::digit(c)) =~= a);
    } else {
        assert(s[0] == a[0]);
        assert(text::digit(a[0]));
        assert(s.drop_first() =~= a.drop_first() + r);
        assert(text::digits(a.drop_first())) by {
            assert forall|i: int| 0 <= i < a.drop_first().len() implies text::digit(
                #[trigger] a.drop_first()[i],
            ) by {
                assert(a.drop_first()[i] == a[i + 1]);
                assert(text::digit(a[i + 1]));
            }
        }
        lemma_leading_digits(a.drop_first(), r);
        assert(text::leading(s, |c: char| text::digit(c)) =~= a);
    }
}

/// `request_buffers` and `response_buffers` bound the buffers that they are named after; the units
/// are bytes, and powers of 1024 of them.
pub proof fn a_buffer_holds_what_is_written(
    d: DirectiveV,
    front: Seq<DirectiveV>,
    p: ProxyConfigV,
    n: nat,
    unit: Seq<char>,
    each: nat,
)
    requires
        reverse_proxy::reverse_proxy(Profile::Extended, with_block(d, front)) == Ok::<
            ProxyConfigV,
            ErrorV,
        >(p),
        (unit == ""@ && each == 1) || (unit == "b"@ && each == 1) || (unit == "kb"@ && each
            == 1_024) || (unit == "mb"@ && each == 1_024 * 1_024) || (unit == "gb"@ && each == 1_024
            * 1_024 * 1_024),
        n * each <= i64::MAX,
    ensures
        reverse_proxy::reverse_proxy(
            Profile::Extended,
            with_block(d, front.push(line("request_buffers"@, seq![text::shown(n) + unit]))),
        ) == Ok::<ProxyConfigV, ErrorV>(
            ProxyConfigV { request_buffer_bytes: Some((n * each) as i64), ..p },
        ),
        reverse_proxy::reverse_proxy(
            Profile::Extended,
            with_block(d, front.push(line("response_buffers"@, seq![text::shown(n) + unit]))),
        ) == Ok::<ProxyConfigV, ErrorV>(
            ProxyConfigV { response_buffer_bytes: Some((n * each) as i64), ..p },
        ),
{
    lemma_buffer("request_buffers"@, n, unit, each);
    lemma_buffer("response_buffers"@, n, unit, each);
    let o0 = line("request_buffers"@, seq![text::shown(n) + unit]);
    let q0 = ProxyConfigV { request_buffer_bytes: Some((n * each) as i64), ..p };
    assert forall|x: Seq<ResponseHandlerConfigV>|
        #[trigger] reverse_proxy::proxy_option(
            Profile::Extended,
            ProxyConfigV { handle_response: x, ..p },
            o0,
        ) == Ok::<ProxyConfigV, ErrorV>(ProxyConfigV { handle_response: x, ..q0 }) by {
        lemma_refined_options(ProxyConfigV { handle_response: x, ..p }, o0);
        lemma_refined_names(ProxyConfigV { handle_response: x, ..p }, o0);
        lemma_options(Profile::Extended, ProxyConfigV { handle_response: x, ..p }, o0);
    }
    lemma_refined_options(p, o0);
    lemma_options(Profile::Extended, p, o0);
    lemma_refined(Profile::Extended, d, front, o0, p, q0);
    let o1 = line("response_buffers"@, seq![text::shown(n) + unit]);
    let q1 = ProxyConfigV { response_buffer_bytes: Some((n * each) as i64), ..p };
    assert forall|x: Seq<ResponseHandlerConfigV>|
        #[trigger] reverse_proxy::proxy_option(
            Profile::Extended,
            ProxyConfigV { handle_response: x, ..p },
            o1,
        ) == Ok::<ProxyConfigV, ErrorV>(ProxyConfigV { handle_response: x, ..q1 }) by {
        lemma_refined_options(ProxyConfigV { handle_response: x, ..p }, o1);
        lemma_refined_names(ProxyConfigV { handle_response: x, ..p }, o1);
        lemma_options(Profile::Extended, ProxyConfigV { handle_response: x, ..p }, o1);
    }
    lemma_refined_options(p, o1);
    lemma_options(Profile::Extended, p, o1);
    lemma_refined(Profile::Extended, d, front, o1, p, q1);
}

/// `unlimited` takes the bound off a buffer.
pub proof fn a_buffer_can_be_without_bound(
    d: DirectiveV,
    front: Seq<DirectiveV>,
    p: ProxyConfigV,
)
    requires
        reverse_proxy::reverse_proxy(Profile::Extended, with_block(d, front)) == Ok::<
            ProxyConfigV,
            ErrorV,
        >(p),
    ensures
        reverse_proxy::reverse_proxy(
            Profile::Extended,
            with_block(d, front.push(line("request_buffers"@, seq!["unlimited"@]))),
        ) == Ok::<ProxyConfigV, ErrorV>(
            ProxyConfigV { request_buffer_bytes: Some(-1i64), ..p },
        ),
        reverse_proxy::reverse_proxy(
            Profile::Extended,
            with_block(d, front.push(line("response_buffers"@, seq!["unlimited"@]))),
        ) == Ok::<ProxyConfigV, ErrorV>(
            ProxyConfigV { response_buffer_bytes: Some(-1i64), ..p },
        ),
{
    let o0 = line("request_buffers"@, seq!["unlimited"@]);
    let q0 = ProxyConfigV { request_buffer_bytes: Some(-1i64), ..p };
    assert forall|x: Seq<ResponseHandlerConfigV>|
        #[trigger] reverse_proxy::proxy_option(
            Profile::Extended,
            ProxyConfigV { handle_response: x, ..p },
            o0,
        ) == Ok::<ProxyConfigV, ErrorV>(ProxyConfigV { handle_response: x, ..q0 }) by {
        lemma_refined_options(ProxyConfigV { handle_response: x, ..p }, o0);
        lemma_refined_names(ProxyConfigV { handle_response: x, ..p }, o0);
        lemma_options(Profile::Extended, ProxyConfigV { handle_response: x, ..p }, o0);
    }
    lemma_refined_options(p, o0);
    lemma_options(Profile::Extended, p, o0);
    lemma_refined(Profile::Extended, d, front, o0, p, q0);
    let o1 = line("response_buffers"@, seq!["unlimited"@]);
    let q1 = ProxyConfigV { response_buffer_bytes: Some(-1i64), ..p };
    assert forall|x: Seq<ResponseHandlerConfigV>|
        #[trigger] reverse_proxy::proxy_option(
            Profile::Extended,
            ProxyConfigV { handle_response: x, ..p },
            o1,
        ) == Ok::<ProxyConfigV, ErrorV>(ProxyConfigV { handle_response: x, ..q1 }) by {
        lemma_refined_options(ProxyConfigV { handle_response: x, ..p }, o1);
        lemma_refined_names(ProxyConfigV { handle_response: x, ..p }, o1);
        lemma_options(Profile::Extended, ProxyConfigV { handle_response: x, ..p }, o1);
    }
    lemma_refined_options(p, o1);
    lemma_options(Profile::Extended, p, o1);
    lemma_refined(Profile::Extended, d, front, o1, p, q1);
}

/// `transport http` configures how the upstream is reached over HTTP, and `transport fastcgi` how it
/// is over FastCGI.
pub proof fn a_transport_is_of_the_kind_that_is_named(
    d: DirectiveV,
    front: Seq<DirectiveV>,
    p: ProxyConfigV,
    http: Seq<DirectiveV>,
    reached: transport::TransportDraftV,
    cgi: Option<Seq<DirectiveV>>,
    spoken: FastCgiTransportConfigV,
)
    requires
        reverse_proxy::reverse_proxy(Profile::Extended, with_block(d, front)) == Ok::<
            ProxyConfigV,
            ErrorV,
        >(p),
        transport::http_transport(Profile::Extended, p.transport_options, http) == Ok::<
            transport::TransportDraftV,
            ErrorV,
        >(reached),
        transport::fastcgi_transport(cgi) == Ok::<FastCgiTransportConfigV, ErrorV>(spoken),
    ensures
        reverse_proxy::reverse_proxy(
            Profile::Extended,
            with_block(
                d,
                front.push(
                    DirectiveV { name: "transport"@, args: seq!["http"@], block: Some(http) },
                ),
            ),
        ) == Ok::<ProxyConfigV, ErrorV>(
            ProxyConfigV { transport: Some(
                reached.transport,
            ), transport_options: reached.kept, ..p },
        ),
        reverse_proxy::reverse_proxy(
            Profile::Extended,
            with_block(
                d,
                front.push(DirectiveV { name: "transport"@, args: seq!["fastcgi"@], block: cgi }),
            ),
        ) == Ok::<ProxyConfigV, ErrorV>(
            ProxyConfigV { fastcgi: Some(spoken), ..p },
        ),
{
    reveal_strlit("http");
    reveal_strlit("fastcgi");
    assert("http"@.len() == 4);
    assert("fastcgi"@.len() == 7);
    let o0 = DirectiveV { name: "transport"@, args: seq!["http"@], block: Some(http) };
    let q0 = ProxyConfigV { transport: Some(
        reached.transport,
    ), transport_options: reached.kept, ..p };
    assert forall|x: Seq<ResponseHandlerConfigV>|
        #[trigger] reverse_proxy::proxy_option(
            Profile::Extended,
            ProxyConfigV { handle_response: x, ..p },
            o0,
        ) == Ok::<ProxyConfigV, ErrorV>(ProxyConfigV { handle_response: x, ..q0 }) by {
        lemma_refined_options(ProxyConfigV { handle_response: x, ..p }, o0);
        lemma_refined_names(ProxyConfigV { handle_response: x, ..p }, o0);
        lemma_options(Profile::Extended, ProxyConfigV { handle_response: x, ..p }, o0);
    }
    lemma_refined_options(p, o0);
    lemma_options(Profile::Extended, p, o0);
    lemma_refined(Profile::Extended, d, front, o0, p, q0);
    let o1 = DirectiveV { name: "transport"@, args: seq!["fastcgi"@], block: cgi };
    let q1 = ProxyConfigV { fastcgi: Some(spoken), ..p };
    assert forall|x: Seq<ResponseHandlerConfigV>|
        #[trigger] reverse_proxy::proxy_option(
            Profile::Extended,
            ProxyConfigV { handle_response: x, ..p },
            o1,
        ) == Ok::<ProxyConfigV, ErrorV>(ProxyConfigV { handle_response: x, ..q1 }) by {
        lemma_refined_options(ProxyConfigV { handle_response: x, ..p }, o1);
        lemma_refined_names(ProxyConfigV { handle_response: x, ..p }, o1);
        lemma_options(Profile::Extended, ProxyConfigV { handle_response: x, ..p }, o1);
    }
    lemma_refined_options(p, o1);
    lemma_options(Profile::Extended, p, o1);
    lemma_refined(Profile::Extended, d, front, o1, p, q1);
}

/// The health check of a proxy, or one that says nothing yet.
pub open spec fn check_of(p: ProxyConfigV) -> HealthCheckConfigV {
    match p.health_check {
        Some(check) => check,
        None => HealthCheckConfigV::unset(),
    }
}

/// A flat health option refines the health check.
proof fn lemma_health(p: ProxyConfigV, o: DirectiveV)
    requires
        text::starts(o.name, "health_"@),
    ensures
        reverse_proxy::refined_option(p, o) == (match reverse_proxy::flat_health_option(
            check_of(p),
            o,
        ) {
            Ok(check) => Ok(ProxyConfigV { health_check: Some(check), ..p }),
            Err(e) => Err(e),
        }),
{
    reveal_strlit("dynamic");
    reveal_strlit("health_");
    assert("dynamic"@.len() == 7 && "dynamic"@[0] == 'd');
    assert("health_"@.len() == 7 && "health_"@[0] == 'h');
    assert("dynamic"@[0] == 'd' && "health_"@[0] == 'h');
    assert(o.name.take(7)[0] == o.name[0]);
}

/// Flat health options are about health.
proof fn lemma_health_names(o: DirectiveV)
    ensures
        o.name == "health_uri"@ || o.name == "health_path"@ || o.name == "health_port"@ || o.name
            == "health_method"@ || o.name == "health_interval"@ || o.name == "health_timeout"@
            || o.name == "health_body"@ || o.name == "health_passes"@ || o.name == "health_fails"@
            || o.name == "health_status"@ || o.name == "health_headers"@ ==> text::starts(
            o.name,
            "health_"@,
        ),
{
    reveal_strlit("health_");
    reveal_strlit("health_uri");
    reveal_strlit("health_path");
    reveal_strlit("health_port");
    reveal_strlit("health_method");
    reveal_strlit("health_interval");
    reveal_strlit("health_timeout");
    reveal_strlit("health_body");
    reveal_strlit("health_passes");
    reveal_strlit("health_fails");
    reveal_strlit("health_status");
    reveal_strlit("health_headers");
    assert("health_uri"@.take(7) =~= "health_"@);
    assert("health_path"@.take(7) =~= "health_"@);
    assert("health_port"@.take(7) =~= "health_"@);
    assert("health_method"@.take(7) =~= "health_"@);
    assert("health_interval"@.take(7) =~= "health_"@);
    assert("health_timeout"@.take(7) =~= "health_"@);
    assert("health_body"@.take(7) =~= "health_"@);
    assert("health_passes"@.take(7) =~= "health_"@);
    assert("health_fails"@.take(7) =~= "health_"@);
    assert("health_status"@.take(7) =~= "health_"@);
    assert("health_headers"@.take(7) =~= "health_"@);
}

/// A flat health option sets the part of the health check that it is named after: what is asked for
/// and how.
pub proof fn a_health_option_asks_what_it_names(
    d: DirectiveV,
    front: Seq<DirectiveV>,
    p: ProxyConfigV,
    v: Seq<char>,
    port: u16,
)
    requires
        reverse_proxy::reverse_proxy(Profile::Extended, with_block(d, front)) == Ok::<
            ProxyConfigV,
            ErrorV,
        >(p),
        port > 0,
    ensures
        reverse_proxy::reverse_proxy(
            Profile::Extended,
            with_block(d, front.push(line("health_uri"@, seq![v]))),
        ) == Ok::<ProxyConfigV, ErrorV>(
            ProxyConfigV {
                health_check: Some(HealthCheckConfigV { path: Some(v), ..check_of(p) }),
                ..p
            },
        ),
        reverse_proxy::reverse_proxy(
            Profile::Extended,
            with_block(d, front.push(line("health_path"@, seq![v]))),
        ) == Ok::<ProxyConfigV, ErrorV>(
            ProxyConfigV {
                health_check: Some(HealthCheckConfigV { path: Some(v), ..check_of(p) }),
                ..p
            },
        ),
        reverse_proxy::reverse_proxy(
            Profile::Extended,
            with_block(d, front.push(line("health_method"@, seq![v]))),
        ) == Ok::<ProxyConfigV, ErrorV>(
            ProxyConfigV {
                health_check: Some(
                    HealthCheckConfigV { method: Some(text::upper(v)), ..check_of(p) },
                ),
                ..p
            },
        ),
        reverse_proxy::reverse_proxy(
            Profile::Extended,
            with_block(d, front.push(line("health_body"@, seq![v]))),
        ) == Ok::<ProxyConfigV, ErrorV>(
            ProxyConfigV {
                health_check: Some(HealthCheckConfigV { expected_body: Some(v), ..check_of(p) }),
                ..p
            },
        ),
        reverse_proxy::reverse_proxy(
            Profile::Extended,
            with_block(d, front.push(line("health_port"@, seq![text::shown(port as nat)]))),
        ) == Ok::<ProxyConfigV, ErrorV>(
            ProxyConfigV {
                health_check: Some(HealthCheckConfigV { port: Some(port), ..check_of(p) }),
                ..p
            },
        ),
{
    reveal_strlit("health_uri");
    reveal_strlit("health_path");
    reveal_strlit("health_port");
    reveal_strlit("health_method");
    reveal_strlit("health_interval");
    reveal_strlit("health_timeout");
    reveal_strlit("health_body");
    reveal_strlit("health_passes");
    reveal_strlit("health_fails");
    reveal_strlit("health_status");
    reveal_strlit("health_headers");
    assert("health_uri"@.len() == 10);
    assert("health_path"@.len() == 11 && "health_path"@[7] == 'p' && "health_path"@[8] == 'a');
    assert("health_port"@.len() == 11 && "health_port"@[7] == 'p' && "health_port"@[8] == 'o');
    assert("health_method"@.len() == 13 && "health_method"@[7] == 'm');
    assert("health_interval"@.len() == 15);
    assert("health_timeout"@.len() == 14 && "health_timeout"@[7] == 't');
    assert("health_body"@.len() == 11 && "health_body"@[7] == 'b');
    assert("health_passes"@.len() == 13 && "health_passes"@[7] == 'p');
    assert("health_fails"@.len() == 12);
    assert("health_status"@.len() == 13 && "health_status"@[7] == 's');
    assert("health_headers"@.len() == 14 && "health_headers"@[7] == 'h');
    text::a_shown_number_reads_back(port as nat);
    assert(text::number(text::shown(port as nat), u64::MAX as nat) == Some(port as nat));
    let o0 = line("health_uri"@, seq![v]);
    lemma_health_names(o0);
    let q0 = ProxyConfigV {
                health_check: Some(HealthCheckConfigV { path: Some(v), ..check_of(p) }),
                ..p
            };
    assert forall|x: Seq<ResponseHandlerConfigV>|
        #[trigger] reverse_proxy::proxy_option(
            Profile::Extended,
            ProxyConfigV { handle_response: x, ..p },
            o0,
        ) == Ok::<ProxyConfigV, ErrorV>(ProxyConfigV { handle_response: x, ..q0 }) by {
        lemma_refined_options(ProxyConfigV { handle_response: x, ..p }, o0);
        lemma_health(ProxyConfigV { handle_response: x, ..p }, o0);
        lemma_options(Profile::Extended, ProxyConfigV { handle_response: x, ..p }, o0);
    }
    lemma_refined_options(p, o0);
    lemma_options(Profile::Extended, p, o0);
    lemma_refined(Profile::Extended, d, front, o0, p, q0);
    let o1 = line("health_path"@, seq![v]);
    lemma_health_names(o1);
    let q1 = ProxyConfigV {
                health_check: Some(HealthCheckConfigV { path: Some(v), ..check_of(p) }),
                ..p
            };
    assert forall|x: Seq<ResponseHandlerConfigV>|
        #[trigger] reverse_proxy::proxy_option(
            Profile::Extended,
            ProxyConfigV { handle_response: x, ..p },
            o1,
        ) == Ok::<ProxyConfigV, ErrorV>(ProxyConfigV { handle_response: x, ..q1 }) by {
        lemma_refined_options(ProxyConfigV { handle_response: x, ..p }, o1);
        lemma_health(ProxyConfigV { handle_response: x, ..p }, o1);
        lemma_options(Profile::Extended, ProxyConfigV { handle_response: x, ..p }, o1);
    }
    lemma_refined_options(p, o1);
    lemma_options(Profile::Extended, p, o1);
    lemma_refined(Profile::Extended, d, front, o1, p, q1);
    let o2 = line("health_method"@, seq![v]);
    lemma_health_names(o2);
    let q2 = ProxyConfigV {
                health_check: Some(
                    HealthCheckConfigV { method: Some(text::upper(v)), ..check_of(p) },
                ),
                ..p
            };
    assert forall|x: Seq<ResponseHandlerConfigV>|
        #[trigger] reverse_proxy::proxy_option(
            Profile::Extended,
            ProxyConfigV { handle_response: x, ..p },
            o2,
        ) == Ok::<ProxyConfigV, ErrorV>(ProxyConfigV { handle_response: x, ..q2 }) by {
        lemma_refined_options(ProxyConfigV { handle_response: x, ..p }, o2);
        lemma_health(ProxyConfigV { handle_response: x, ..p }, o2);
        lemma_options(Profile::Extended, ProxyConfigV { handle_response: x, ..p }, o2);
    }
    lemma_refined_options(p, o2);
    lemma_options(Profile::Extended, p, o2);
    lemma_refined(Profile::Extended, d, front, o2, p, q2);
    let o3 = line("health_body"@, seq![v]);
    lemma_health_names(o3);
    let q3 = ProxyConfigV {
                health_check: Some(HealthCheckConfigV { expected_body: Some(v), ..check_of(p) }),
                ..p
            };
    assert forall|x: Seq<ResponseHandlerConfigV>|
        #[trigger] reverse_proxy::proxy_option(
            Profile::Extended,
            ProxyConfigV { handle_response: x, ..p },
            o3,
        ) == Ok::<ProxyConfigV, ErrorV>(ProxyConfigV { handle_response: x, ..q3 }) by {
        lemma_refined_options(ProxyConfigV { handle_response: x, ..p }, o3);
        lemma_health(ProxyConfigV { handle_response: x, ..p }, o3);
        lemma_options(Profile::Extended, ProxyConfigV { handle_response: x, ..p }, o3);
    }
    lemma_refined_options(p, o3);
    lemma_options(Profile::Extended, p, o3);
    lemma_refined(Profile::Extended, d, front, o3, p, q3);
    let o4 = line("health_port"@, seq![text::shown(port as nat)]);
    lemma_health_names(o4);
    let q4 = ProxyConfigV {
                health_check: Some(HealthCheckConfigV { port: Some(port), ..check_of(p) }),
                ..p
            };
    assert forall|x: Seq<ResponseHandlerConfigV>|
        #[trigger] reverse_proxy::proxy_option(
            Profile::Extended,
            ProxyConfigV { handle_response: x, ..p },
            o4,
        ) == Ok::<ProxyConfigV, ErrorV>(ProxyConfigV { handle_response: x, ..q4 }) by {
        lemma_refined_options(ProxyConfigV { handle_response: x, ..p }, o4);
        lemma_health(ProxyConfigV { handle_response: x, ..p }, o4);
        lemma_options(Profile::Extended, ProxyConfigV { handle_response: x, ..p }, o4);
    }
    lemma_refined_options(p, o4);
    lemma_options(Profile::Extended, p, o4);
    lemma_refined(Profile::Extended, d, front, o4, p, q4);
}

/// A flat health option sets the part of the health check that it is named after: how often and how
/// long is asked, and how many answers decide.
pub proof fn a_health_option_counts_what_it_names(
    d: DirectiveV,
    front: Seq<DirectiveV>,
    p: ProxyConfigV,
    t: Seq<char>,
    ms: u64,
    n: u32,
)
    requires
        reverse_proxy::reverse_proxy(Profile::Extended, with_block(d, front)) == Ok::<
            ProxyConfigV,
            ErrorV,
        >(p),
        n > 0,
        duration::millis(t) == Some(ms),
        0 < ms <= args::LONGEST_MS,
        ms % 1_000 == 0,
    ensures
        reverse_proxy::reverse_proxy(
            Profile::Extended,
            with_block(d, front.push(line("health_interval"@, seq![t]))),
        ) == Ok::<ProxyConfigV, ErrorV>(
            ProxyConfigV {
                health_check: Some(
                    HealthCheckConfigV { interval_secs: Some(ms / 1_000), ..check_of(p) },
                ),
                ..p
            },
        ),
        reverse_proxy::reverse_proxy(
            Profile::Extended,
            with_block(d, front.push(line("health_timeout"@, seq![t]))),
        ) == Ok::<ProxyConfigV, ErrorV>(
            ProxyConfigV {
                health_check: Some(
                    HealthCheckConfigV { timeout_secs: Some(ms / 1_000), ..check_of(p) },
                ),
                ..p
            },
        ),
        reverse_proxy::reverse_proxy(
            Profile::Extended,
            with_block(d, front.push(line("health_passes"@, seq![text::shown(n as nat)]))),
        ) == Ok::<ProxyConfigV, ErrorV>(
            ProxyConfigV {
                health_check: Some(
                    HealthCheckConfigV { consecutive_success: Some(n), ..check_of(p) },
                ),
                ..p
            },
        ),
        reverse_proxy::reverse_proxy(
            Profile::Extended,
            with_block(d, front.push(line("health_fails"@, seq![text::shown(n as nat)]))),
        ) == Ok::<ProxyConfigV, ErrorV>(
            ProxyConfigV {
                health_check: Some(
                    HealthCheckConfigV { consecutive_failure: Some(n), ..check_of(p) },
                ),
                ..p
            },
        ),
{
    reveal_strlit("health_uri");
    reveal_strlit("health_path");
    reveal_strlit("health_port");
    reveal_strlit("health_method");
    reveal_strlit("health_interval");
    reveal_strlit("health_timeout");
    reveal_strlit("health_body");
    reveal_strlit("health_passes");
    reveal_strlit("health_fails");
    reveal_strlit("health_status");
    reveal_strlit("health_headers");
    assert("health_uri"@.len() == 10);
    assert("health_path"@.len() == 11 && "health_path"@[7] == 'p' && "health_path"@[8] == 'a');
    assert("health_port"@.len() == 11 && "health_port"@[7] == 'p' && "health_port"@[8] == 'o');
    assert("health_method"@.len() == 13 && "health_method"@[7] == 'm');
    assert("health_interval"@.len() == 15);
    assert("health_timeout"@.len() == 14 && "health_timeout"@[7] == 't');
    assert("health_body"@.len() == 11 && "health_body"@[7] == 'b');
    assert("health_passes"@.len() == 13 && "health_passes"@[7] == 'p');
    assert("health_fails"@.len() == 12);
    assert("health_status"@.len() == 13 && "health_status"@[7] == 's');
    assert("health_headers"@.len() == 14 && "health_headers"@[7] == 'h');
    text::a_shown_number_reads_back(n as nat);
    assert(text::number(text::shown(n as nat), u64::MAX as nat) == Some(n as nat));
    let o0 = line("health_interval"@, seq![t]);
    lemma_health_names(o0);
    let q0 = ProxyConfigV {
                health_check: Some(
                    HealthCheckConfigV { interval_secs: Some(ms / 1_000), ..check_of(p) },
                ),
                ..p
            };
    assert forall|x: Seq<ResponseHandlerConfigV>|
        #[trigger] reverse_proxy::proxy_option(
            Profile::Extended,
            ProxyConfigV { handle_response: x, ..p },
            o0,
        ) == Ok::<ProxyConfigV, ErrorV>(ProxyConfigV { handle_response: x, ..q0 }) by {
        lemma_refined_options(ProxyConfigV { handle_response: x, ..p }, o0);
        lemma_health(ProxyConfigV { handle_response: x, ..p }, o0);
        lemma_options(Profile::Extended, ProxyConfigV { handle_response: x, ..p }, o0);
    }
    lemma_refined_options(p, o0);
    lemma_options(Profile::Extended, p, o0);
    lemma_refined(Profile::Extended, d, front, o0, p, q0);
    let o1 = line("health_timeout"@, seq![t]);
    lemma_health_names(o1);
    let q1 = ProxyConfigV {
                health_check: Some(
                    HealthCheckConfigV { timeout_secs: Some(ms / 1_000), ..check_of(p) },
                ),
                ..p
            };
    assert forall|x: Seq<ResponseHandlerConfigV>|
        #[trigger] reverse_proxy::proxy_option(
            Profile::Extended,
            ProxyConfigV { handle_response: x, ..p },
            o1,
        ) == Ok::<ProxyConfigV, ErrorV>(ProxyConfigV { handle_response: x, ..q1 }) by {
        lemma_refined_options(ProxyConfigV { handle_response: x, ..p }, o1);
        lemma_health(ProxyConfigV { handle_response: x, ..p }, o1);
        lemma_options(Profile::Extended, ProxyConfigV { handle_response: x, ..p }, o1);
    }
    lemma_refined_options(p, o1);
    lemma_options(Profile::Extended, p, o1);
    lemma_refined(Profile::Extended, d, front, o1, p, q1);
    let o2 = line("health_passes"@, seq![text::shown(n as nat)]);
    lemma_health_names(o2);
    let q2 = ProxyConfigV {
                health_check: Some(
                    HealthCheckConfigV { consecutive_success: Some(n), ..check_of(p) },
                ),
                ..p
            };
    assert forall|x: Seq<ResponseHandlerConfigV>|
        #[trigger] reverse_proxy::proxy_option(
            Profile::Extended,
            ProxyConfigV { handle_response: x, ..p },
            o2,
        ) == Ok::<ProxyConfigV, ErrorV>(ProxyConfigV { handle_response: x, ..q2 }) by {
        lemma_refined_options(ProxyConfigV { handle_response: x, ..p }, o2);
        lemma_health(ProxyConfigV { handle_response: x, ..p }, o2);
        lemma_options(Profile::Extended, ProxyConfigV { handle_response: x, ..p }, o2);
    }
    lemma_refined_options(p, o2);
    lemma_options(Profile::Extended, p, o2);
    lemma_refined(Profile::Extended, d, front, o2, p, q2);
    let o3 = line("health_fails"@, seq![text::shown(n as nat)]);
    lemma_health_names(o3);
    let q3 = ProxyConfigV {
                health_check: Some(
                    HealthCheckConfigV { consecutive_failure: Some(n), ..check_of(p) },
                ),
                ..p
            };
    assert forall|x: Seq<ResponseHandlerConfigV>|
        #[trigger] reverse_proxy::proxy_option(
            Profile::Extended,
            ProxyConfigV { handle_response: x, ..p },
            o3,
        ) == Ok::<ProxyConfigV, ErrorV>(ProxyConfigV { handle_response: x, ..q3 }) by {
        lemma_refined_options(ProxyConfigV { handle_response: x, ..p }, o3);
        lemma_health(ProxyConfigV { handle_response: x, ..p }, o3);
        lemma_options(Profile::Extended, ProxyConfigV { handle_response: x, ..p }, o3);
    }
    lemma_refined_options(p, o3);
    lemma_options(Profile::Extended, p, o3);
    lemma_refined(Profile::Extended, d, front, o3, p, q3);
}

/// A health check accepts the status that is written, or all hundred of a class.
pub proof fn a_health_status_is_a_code_or_a_class(
    d: DirectiveV,
    front: Seq<DirectiveV>,
    p: ProxyConfigV,
    code: u16,
    class: u16,
)
    requires
        reverse_proxy::reverse_proxy(Profile::Extended, with_block(d, front)) == Ok::<
            ProxyConfigV,
            ErrorV,
        >(p),
        1 <= class <= 5,
    ensures
        reverse_proxy::reverse_proxy(
            Profile::Extended,
            with_block(d, front.push(line("health_status"@, seq![text::shown(code as nat)]))),
        ) == Ok::<ProxyConfigV, ErrorV>(
            ProxyConfigV {
                health_check: Some(
                    HealthCheckConfigV { expected_statuses: Some(seq![code]), ..check_of(p) },
                ),
                ..p
            },
        ),
        reverse_proxy::reverse_proxy(
            Profile::Extended,
            with_block(
                d,
                front.push(line("health_status"@, seq![text::shown(class as nat) + "xx"@])),
            ),
        ) == Ok::<ProxyConfigV, ErrorV>(
            ProxyConfigV {
                health_check: Some(
                    HealthCheckConfigV { expected_statuses: Some(
                        Seq::new(100, |i: int| (class * 100 + i) as u16),
                    ), ..check_of(p) },
                ),
                ..p
            },
        ),
{
    reveal_strlit("health_uri");
    reveal_strlit("health_path");
    reveal_strlit("health_port");
    reveal_strlit("health_method");
    reveal_strlit("health_interval");
    reveal_strlit("health_timeout");
    reveal_strlit("health_body");
    reveal_strlit("health_passes");
    reveal_strlit("health_fails");
    reveal_strlit("health_status");
    reveal_strlit("health_headers");
    assert("health_uri"@.len() == 10);
    assert("health_path"@.len() == 11 && "health_path"@[7] == 'p' && "health_path"@[8] == 'a');
    assert("health_port"@.len() == 11 && "health_port"@[7] == 'p' && "health_port"@[8] == 'o');
    assert("health_method"@.len() == 13 && "health_method"@[7] == 'm');
    assert("health_interval"@.len() == 15);
    assert("health_timeout"@.len() == 14 && "health_timeout"@[7] == 't');
    assert("health_body"@.len() == 11 && "health_body"@[7] == 'b');
    assert("health_passes"@.len() == 13 && "health_passes"@[7] == 'p');
    assert("health_fails"@.len() == 12);
    assert("health_status"@.len() == 13 && "health_status"@[7] == 's');
    assert("health_headers"@.len() == 14 && "health_headers"@[7] == 'h');
    handler_laws::lemma_code(code);
    handler_laws::lemma_code(class);
    lemma_class(class);
    let o0 = line("health_status"@, seq![text::shown(code as nat)]);
    lemma_health_names(o0);
    let q0 = ProxyConfigV {
                health_check: Some(
                    HealthCheckConfigV { expected_statuses: Some(seq![code]), ..check_of(p) },
                ),
                ..p
            };
    assert forall|x: Seq<ResponseHandlerConfigV>|
        #[trigger] reverse_proxy::proxy_option(
            Profile::Extended,
            ProxyConfigV { handle_response: x, ..p },
            o0,
        ) == Ok::<ProxyConfigV, ErrorV>(ProxyConfigV { handle_response: x, ..q0 }) by {
        lemma_refined_options(ProxyConfigV { handle_response: x, ..p }, o0);
        lemma_health(ProxyConfigV { handle_response: x, ..p }, o0);
        lemma_options(Profile::Extended, ProxyConfigV { handle_response: x, ..p }, o0);
    }
    lemma_refined_options(p, o0);
    lemma_options(Profile::Extended, p, o0);
    lemma_refined(Profile::Extended, d, front, o0, p, q0);
    let o1 = line("health_status"@, seq![text::shown(class as nat) + "xx"@]);
    lemma_health_names(o1);
    let q1 = ProxyConfigV {
                health_check: Some(
                    HealthCheckConfigV { expected_statuses: Some(
                        Seq::new(100, |i: int| (class * 100 + i) as u16),
                    ), ..check_of(p) },
                ),
                ..p
            };
    assert forall|x: Seq<ResponseHandlerConfigV>|
        #[trigger] reverse_proxy::proxy_option(
            Profile::Extended,
            ProxyConfigV { handle_response: x, ..p },
            o1,
        ) == Ok::<ProxyConfigV, ErrorV>(ProxyConfigV { handle_response: x, ..q1 }) by {
        lemma_refined_options(ProxyConfigV { handle_response: x, ..p }, o1);
        lemma_health(ProxyConfigV { handle_response: x, ..p }, o1);
        lemma_options(Profile::Extended, ProxyConfigV { handle_response: x, ..p }, o1);
    }
    lemma_refined_options(p, o1);
    lemma_options(Profile::Extended, p, o1);
    lemma_refined(Profile::Extended, d, front, o1, p, q1);
}

/// A class is no number, and what stands before its two letters is one.
proof fn lemma_class(class: u16)
    ensures
        text::as_u16(text::shown(class as nat) + "xx"@) is None,
        text::stripped_end(text::shown(class as nat) + "xx"@, "xx"@) == Some(
            text::shown(class as nat),
        ),
{
    reveal_strlit("xx");
    let a = text::shown(class as nat);
    let s = a + "xx"@;
    text::a_shown_number_reads_back(class as nat);
    assert("xx"@.len() == 2 && "xx"@[1] == 'x');
    assert(s.last() == 'x');
    assert(!text::digits(s)) by {
        assert(!text::digit(s[s.len() - 1]));
    }
    assert(text::digit(a[0]));
    assert(s[0] == a[0]);
    assert(s.skip(s.len() - 2) =~= "xx"@);
    assert(s.take(s.len() - 2) =~= a);
}

} // verus!
