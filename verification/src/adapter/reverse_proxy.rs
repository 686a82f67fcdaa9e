//! The `reverse_proxy` directive.

use crate::adapter::args;
use crate::adapter::args::{
    args_from, expect_one_argument, parse_positive_u32, parse_positive_u64, parse_positive_usize,
    parse_required_duration, parse_whole_seconds,
};
use crate::adapter::dynamic;
use crate::adapter::dynamic::parse_dynamic_upstream;
use crate::adapter::policies;
use crate::adapter::policies::{
    adapt_cache_policy, adapt_circuit_breaker_policy, adapt_health_check, adapt_overload_policy,
    adapt_retry_policy,
};
use crate::adapter::profile::Profile;
use crate::adapter::responses;
use crate::adapter::responses::{
    parse_handle_response, parse_replace_status, parse_response_matcher,
};
use crate::adapter::retry_match;
use crate::adapter::retry_match::apply_retry_match;
use crate::adapter::transport;
use crate::adapter::transport::{adapt_fastcgi_transport, adapt_http_transport};
use crate::adapter::upstreams;
use crate::adapter::upstreams::{read_further_upstreams, read_proxy_line};
use crate::ast::proxy::{
    CacheConfig, CircuitBreakerConfigV, DynamicUpstreamConfigV, Expr, ExprV,
    FastCgiTransportConfigV, FlushInterval, HealthCheckConfig, HealthCheckConfigV, OverloadConfig,
    ProxyConfig, ProxyConfigV, ProxyUpstreamConfig, ProxyUpstreamConfigV, ResponseHandlerConfig,
    ResponseHandlerConfigV, ResponseMatcher, ResponseMatcherV, RetryConfigV,
};
use crate::error;
use crate::error::{invalid, miscount, unknown_in, unsupported, AdapterError, ErrorV};
use crate::fold;
use crate::fold::{each_text, fold_directives};
use crate::syntax::{Directive, DirectiveV};
use crate::table::Table;
use crate::text;
use crate::text::{
    after, among, before, begins, begins_with, cat, cat3, cat5, count_leading, is_digit,
    parse_number, parse_u16, parse_u32, parse_u64, same, show, strip_end, to_lower, to_upper,
};
use vstd::prelude::*;

verus! {

// ---------------------------------------------------------------------------
// Active health checks, one option to a line
// ---------------------------------------------------------------------------
/// The status codes that a code or a class such as `2xx` stands for.
pub open spec fn status_class(raw: Seq<char>, name: Seq<char>) -> Result<Seq<u16>, ErrorV> {
    match text::as_u16(raw) {
        Some(code) => Ok(seq![code]),
        None => {
            let hundreds = match text::stripped_end(raw, "xx"@) {
                Some(head) => text::as_u16(head),
                None => None,
            };
            match hundreds {
                Some(h) => if 1 <= h <= 5 {
                    Ok(Seq::new(100, |i: int| (h * 100 + i) as u16))
                } else {
                    Err(class_complaint(raw, name))
                },
                None => Err(class_complaint(raw, name)),
            }
        },
    }
}

/// `raw` is neither a code nor a class.
pub open spec fn class_complaint(raw: Seq<char>, name: Seq<char>) -> ErrorV {
    ErrorV::InvalidArgument(
        name,
        "`"@ + raw + "` is not a status code or a class such as `2xx`"@,
    )
}

/// Expands a status class such as `2xx` into the codes it stands for.
pub fn expand_status_class(raw: &str, name: &str) -> (r: Result<Vec<u16>, AdapterError>)
    ensures
        error::outcome(r) == status_class(raw@, name@),
{
    match parse_u16(raw) {
        Some(code) => {
            let one: Vec<u16> = vec![code];
            assert(one.deep_view() =~= seq![code]);
            return Ok(one);
        },
        None => {},
    }
    let hundreds = match strip_end(raw, "xx") {
        Some(head) => parse_u16(head),
        None => None,
    };
    if let Some(h) = hundreds {
        if 1 <= h && h <= 5 {
            let mut out: Vec<u16> = Vec::new();
            let mut i: u16 = 0;
            while i < 100
                invariant
                    i <= 100,
                    1 <= h <= 5,
                    out@.len() == i,
                    forall|j: int| 0 <= j < i ==> #[trigger] out@[j] == (h * 100 + j) as u16,
                decreases 100 - i,
            {
                out.push(h * 100 + i);
                i += 1;
            }
            assert(out.deep_view() =~= Seq::new(100, |j: int| (h * 100 + j) as u16));
            return Ok(out);
        }
    }
    let reason = cat3("`", raw, "` is not a status code or a class such as `2xx`");
    Err(invalid(name, reason.as_str()))
}

/// The headers of a probe; one without a value is empty.
pub open spec fn probe_headers(
    held: Map<Seq<char>, Seq<char>>,
    lines: Seq<DirectiveV>,
) -> Map<Seq<char>, Seq<char>>
    decreases lines.len(),
{
    if lines.len() == 0 {
        held
    } else {
        let value = if lines[0].args.len() > 0 {
            lines[0].args[0]
        } else {
            Seq::empty()
        };
        probe_headers(held.insert(lines[0].name, value), lines.drop_first())
    }
}

fn read_probe_headers(held: Table<String>, lines: &Vec<Directive>) -> (r: Table<String>)
    ensures
        r.deep_view() == probe_headers(
            held.deep_view(),
            crate::syntax::directives_view(lines@),
        ),
{
    let ghost all = crate::syntax::directives_view(lines@);
    let mut out = held;
    let mut i: usize = 0;
    assert(all.skip(0) =~= all);
    while i < lines.len()
        invariant
            i <= lines.len(),
            all == crate::syntax::directives_view(lines@),
            probe_headers(held.deep_view(), all) == probe_headers(
                out.deep_view(),
                all.skip(i as int),
            ),
        decreases lines.len() - i,
    {
        assert(all.skip(i as int)[0] == lines@[i as int].deep_view());
        assert(all.skip(i as int).drop_first() =~= all.skip(i + 1));
        let value = if lines[i].args.len() > 0 {
            lines[i].args[0].clone()
        } else {
            String::new()
        };
        assert(lines@[i as int].args@.len() == 0 ==> value@ =~= Seq::<char>::empty());
        out.insert(lines[i].name.clone(), value);
        i += 1;
    }
    out
}

/// One flat `health_*` option; it configures what the line of a `health_check` block does.
pub open spec fn flat_health_option(c: HealthCheckConfigV, d: DirectiveV) -> Result<
    HealthCheckConfigV,
    ErrorV,
> {
    if d.name == "health_uri"@ || d.name == "health_path"@ {
        error::with(args::sole(d), |v: Seq<char>| HealthCheckConfigV { path: Some(v), ..c })
    } else if d.name == "health_port"@ {
        match args::positive(d) {
            Err(e) => Err(e),
            Ok(n) => if n <= u16::MAX {
                Ok(HealthCheckConfigV { port: Some(n as u16), ..c })
            } else {
                Err(ErrorV::InvalidArgument(d.name, "a port must be between 1 and 65535"@))
            },
        }
    } else if d.name == "health_method"@ {
        error::with(args::sole(d), |v: Seq<char>| HealthCheckConfigV { method: Some(text::upper(v)), ..c })
    } else if d.name == "health_interval"@ {
        error::with(args::seconds(d, "must be a whole number of seconds"@), |n: u64| HealthCheckConfigV { interval_secs: Some(n), ..c })
    } else if d.name == "health_timeout"@ {
        error::with(args::seconds(d, "must be a whole number of seconds"@), |n: u64| HealthCheckConfigV { timeout_secs: Some(n), ..c })
    } else if d.name == "health_body"@ {
        error::with(args::sole(d), |v: Seq<char>| HealthCheckConfigV { expected_body: Some(v), ..c })
    } else if d.name == "health_passes"@ {
        error::with(
            args::positive_u32(d),
            |n: u32| HealthCheckConfigV { consecutive_success: Some(n), ..c },
        )
    } else if d.name == "health_fails"@ {
        error::with(
            args::positive_u32(d),
            |n: u32| HealthCheckConfigV { consecutive_failure: Some(n), ..c },
        )
    } else if d.name == "health_status"@ {
        match args::sole(d) {
            Err(e) => Err(e),
            Ok(raw) => error::with(
                status_class(raw, d.name),
                |list: Seq<u16>| HealthCheckConfigV { expected_statuses: Some(list), ..c },
            ),
        }
    } else if d.name == "health_headers"@ {
        match d.block {
            None => Err(
                ErrorV::InvalidArgument(d.name, "expected a block of header names and values"@),
            ),
            Some(lines) => Ok(
                HealthCheckConfigV { headers: probe_headers(c.headers, lines), ..c },
            ),
        }
    } else {
        Err(
            ErrorV::UnsupportedFeature(
                "reverse_proxy "@ + d.name,
                "Pingclair does not implement this health-check option yet"@,
            ),
        )
    }
}

fn read_flat_health_option(c: HealthCheckConfig, d: &Directive) -> (r: Result<
    HealthCheckConfig,
    AdapterError,
>)
    ensures
        error::outcome(r) == flat_health_option(c.deep_view(), d.deep_view()),
{
    let mut c = c;
    let name = d.name.as_str();
    if same(name, "health_uri") || same(name, "health_path") {
        c.path = Some(expect_one_argument(d)?.to_owned());
    } else if same(name, "health_port") {
        let n: u64 = parse_positive_u64(d)?;
        if n > u16::MAX as u64 {
            return Err(invalid(name, "a port must be between 1 and 65535"));
        }
        c.port = Some(n as u16);
    } else if same(name, "health_method") {
        c.method = Some(to_upper(expect_one_argument(d)?));
    } else if same(name, "health_interval") {
        c.interval_secs = Some(parse_whole_seconds(d, "must be a whole number of seconds")?);
    } else if same(name, "health_timeout") {
        c.timeout_secs = Some(parse_whole_seconds(d, "must be a whole number of seconds")?);
    } else if same(name, "health_body") {
        c.expected_body = Some(expect_one_argument(d)?.to_owned());
    } else if same(name, "health_passes") {
        c.consecutive_success = Some(parse_positive_u32(d)?);
    } else if same(name, "health_fails") {
        c.consecutive_failure = Some(parse_positive_u32(d)?);
    } else if same(name, "health_status") {
        let raw = expect_one_argument(d)?;
        c.expected_statuses = Some(expand_status_class(raw, name)?);
    } else if same(name, "health_headers") {
        match &d.block {
            None => {
                return Err(invalid(name, "expected a block of header names and values"));
            },
            Some(block) => {
                c.headers = read_probe_headers(c.headers, &block.directives);
            },
        }
    } else {
        let feature = cat("reverse_proxy ", name);
        return Err(
            unsupported(
                feature.as_str(),
                "Pingclair does not implement this health-check option yet",
            ),
        );
    }
    Ok(c)
}

// ---------------------------------------------------------------------------
// Load balancing
// ---------------------------------------------------------------------------
/// The policies that hash or choose without a further argument.
pub open spec fn plain_policies() -> Seq<Seq<char>> {
    seq!["round_robin"@, "random"@, "least_conn"@, "ip_hash"@, "first"@]
}

fn is_plain_policy(name: &str) -> (r: bool)
    ensures
        r == plain_policies().contains(name@),
{
    let list = vec!["round_robin", "random", "least_conn", "ip_hash", "first"];
    assert(list.deep_view() =~= plain_policies());
    among(name, &list)
}

/// A policy that hashes a named field.
pub open spec fn hashing_policy(p: ProxyConfigV, policy: Seq<char>, d: DirectiveV) -> Result<
    ProxyConfigV,
    ErrorV,
> {
    if d.args.len() < 2 {
        Err(
            ErrorV::InvalidArgument(
                "lb_policy "@ + policy,
                "`"@ + policy + "` needs the name to hash, e.g. `lb_policy "@ + policy
                    + " X-Session`"@,
            ),
        )
    } else if d.args.len() > 2 {
        Err(ErrorV::ArgumentCount("lb_policy "@ + policy, 2, d.args.len() as usize))
    } else {
        Ok(ProxyConfigV { lb_policy: Some(policy), lb_hash_key: Some(d.args[1]), ..p })
    }
}

/// The weight that `value` spells.
pub open spec fn weight(value: Seq<char>) -> Result<u32, ErrorV> {
    match text::as_u32(value) {
        Some(n) => Ok(n),
        None => Err(
            ErrorV::InvalidArgument(
                "lb_policy weighted_round_robin"@,
                "`"@ + value + "` is not a weight"@,
            ),
        ),
    }
}

/// `weighted_round_robin <weight...>`, with one weight for each upstream so far.
pub open spec fn weighted_policy(p: ProxyConfigV, d: DirectiveV) -> Result<ProxyConfigV, ErrorV> {
    match fold::each(|value: Seq<char>| weight(value), d.args.skip(1)) {
        Err(e) => Err(e),
        Ok(weights) => if weights.len() == 0 {
            Err(
                ErrorV::ArgumentCount(
                    "lb_policy weighted_round_robin"@,
                    2,
                    d.args.len() as usize,
                ),
            )
        } else if weights.len() != p.upstream_options.len() {
            Err(
                ErrorV::InvalidArgument(
                    "lb_policy weighted_round_robin"@,
                    text::shown(weights.len()) + " weights were given for "@ + text::shown(
                        p.upstream_options.len(),
                    ) + " upstreams"@,
                ),
            )
        } else {
            Ok(
                ProxyConfigV {
                    upstream_options: Seq::new(
                        weights.len(),
                        |i: int|
                            ProxyUpstreamConfigV { weight: weights[i], ..p.upstream_options[i] },
                    ),
                    lb_policy: Some("round_robin"@),
                    ..p
                },
            )
        },
    }
}

/// `lb_policy <policy> [...]`.
pub open spec fn balancing(profile: Profile, p: ProxyConfigV, d: DirectiveV) -> Result<
    ProxyConfigV,
    ErrorV,
> {
    if d.args.len() == 0 {
        Err(ErrorV::ArgumentCount("lb_policy"@, 1, 0))
    } else {
        let policy = d.args[0];
        if plain_policies().contains(policy) {
            if profile == Profile::Extended && d.args.len() > 1 {
                Err(ErrorV::ArgumentCount("lb_policy "@ + policy, 1, d.args.len() as usize))
            } else {
                Ok(ProxyConfigV { lb_policy: Some(policy), ..p })
            }
        } else if profile == Profile::Extended && (policy == "header"@ || policy == "cookie"@
            || policy == "query"@) {
            hashing_policy(p, policy, d)
        } else if profile == Profile::Extended && policy == "weighted_round_robin"@ {
            weighted_policy(p, d)
        } else {
            Err(ErrorV::InvalidArgument("lb_policy"@, policy))
        }
    }
}

fn read_weight(value: &str) -> (r: Result<u32, AdapterError>)
    ensures
        error::outcome(r) == weight(value@),
{
    match parse_u32(value) {
        Some(n) => Ok(n),
        None => {
            let reason = cat3("`", value, "` is not a weight");
            Err(invalid("lb_policy weighted_round_robin", reason.as_str()))
        },
    }
}

fn set_weights(options: &Vec<ProxyUpstreamConfig>, weights: &Vec<u32>) -> (r: Vec<
    ProxyUpstreamConfig,
>)
    requires
        options.len() == weights.len(),
    ensures
        r.deep_view() == Seq::new(
            weights@.len(),
            |i: int|
                ProxyUpstreamConfigV { weight: weights@[i], ..options.deep_view()[i] },
        ),
{
    let mut out: Vec<ProxyUpstreamConfig> = Vec::new();
    let mut i: usize = 0;
    while i < weights.len()
        invariant
            i <= weights.len(),
            options.len() == weights.len(),
            out@.len() == i,
            forall|j: int|
                0 <= j < i ==> (#[trigger] out@[j]).deep_view() == (ProxyUpstreamConfigV {
                    weight: weights@[j],
                    ..options.deep_view()[j]
                }),
        decreases weights.len() - i,
    {
        out.push(
            ProxyUpstreamConfig {
                address: options[i].address.clone(),
                weight: weights[i],
                backup: options[i].backup,
            },
        );
        i += 1;
    }
    assert(out.deep_view() =~= Seq::new(
        weights@.len(),
        |i: int| ProxyUpstreamConfigV { weight: weights@[i], ..options.deep_view()[i] },
    ));
    out
}

fn read_weighted_policy(p: ProxyConfig, d: &Directive) -> (r: Result<ProxyConfig, AdapterError>)
    requires
        d.args.len() > 0,
    ensures
        error::outcome(r) == weighted_policy(p.deep_view(), d.deep_view()),
{
    let mut p = p;
    let list = args_from(&d.args, 1);
    let weights = each_text(read_weight, &list, Ghost(|value: Seq<char>| weight(value)))?;
    assert(weights.deep_view() =~= weights@);
    if weights.len() == 0 {
        return Err(miscount("lb_policy weighted_round_robin", 2, d.args.len()));
    }
    if weights.len() != p.upstream_options.len() {
        let given = show(weights.len() as u64);
        let wanted = show(p.upstream_options.len() as u64);
        let reason = cat(
            cat3(given.as_str(), " weights were given for ", wanted.as_str()).as_str(),
            " upstreams",
        );
        return Err(invalid("lb_policy weighted_round_robin", reason.as_str()));
    }
    p.upstream_options = set_weights(&p.upstream_options, &weights);
    p.lb_policy = Some("round_robin".to_owned());
    Ok(p)
}

fn read_balancing(profile: Profile, p: ProxyConfig, d: &Directive) -> (r: Result<
    ProxyConfig,
    AdapterError,
>)
    ensures
        error::outcome(r) == balancing(profile, p.deep_view(), d.deep_view()),
{
    let mut p = p;
    if d.args.len() == 0 {
        return Err(miscount("lb_policy", 1, 0));
    }
    let policy = d.args[0].as_str();
    if is_plain_policy(policy) {
        if profile == Profile::Extended && d.args.len() > 1 {
            let name = cat("lb_policy ", policy);
            return Err(miscount(name.as_str(), 1, d.args.len()));
        }
        p.lb_policy = Some(policy.to_owned());
        return Ok(p);
    }
    if profile == Profile::Extended {
        if same(policy, "header") || same(policy, "cookie") || same(policy, "query") {
            let name = cat("lb_policy ", policy);
            if d.args.len() < 2 {
                let reason = cat5(
                    "`",
                    policy,
                    "` needs the name to hash, e.g. `lb_policy ",
                    policy,
                    " X-Session`",
                );
                return Err(invalid(name.as_str(), reason.as_str()));
            }
            if d.args.len() > 2 {
                return Err(miscount(name.as_str(), 2, d.args.len()));
            }
            p.lb_policy = Some(policy.to_owned());
            p.lb_hash_key = Some(d.args[1].clone());
            return Ok(p);
        }
        if same(policy, "weighted_round_robin") {
            return read_weighted_policy(p, d);
        }
    }
    Err(invalid("lb_policy", policy))
}

// ---------------------------------------------------------------------------
// Buffers
// ---------------------------------------------------------------------------
/// How many bytes one of `unit` stands for.
pub open spec fn buffer_unit(unit: Seq<char>) -> Option<u64> {
    if unit == ""@ || unit == "b"@ {
        Some(1)
    } else if unit == "k"@ || unit == "kb"@ {
        Some(1_024)
    } else if unit == "m"@ || unit == "mb"@ {
        Some(1_048_576)
    } else if unit == "g"@ || unit == "gb"@ {
        Some(1_073_741_824)
    } else {
        None
    }
}

/// A number of bytes, with an optional unit; `-1` stands for `unlimited`. A number that does not
/// fit is refused.
pub open spec fn buffer_size(d: DirectiveV) -> Result<i64, ErrorV> {
    match args::sole(d) {
        Err(e) => Err(e),
        Ok(value) => if value == "unlimited"@ {
            Ok(-1i64)
        } else {
            let count = text::leading(value, |c: char| text::digit(c));
            let unit = text::lower(text::trim_left(value, |c: char| text::digit(c)));
            match text::number(count, i64::MAX as nat) {
                None => Err(ErrorV::InvalidArgument(d.name, value)),
                Some(n) => match buffer_unit(unit) {
                    None => Err(
                        ErrorV::InvalidArgument(
                            d.name,
                            "`"@ + unit + "` is not a byte unit (b/kb/mb/gb)"@,
                        ),
                    ),
                    Some(each) => if n * each <= i64::MAX {
                        Ok((n * each) as i64)
                    } else {
                        Err(ErrorV::InvalidArgument(d.name, "`"@ + value + "` overflows"@))
                    },
                },
            }
        },
    }
}

/// Reads the size of a buffer.
pub fn parse_buffer_size(directive: &Directive) -> (r: Result<i64, AdapterError>)
    ensures
        error::outcome(r) == buffer_size(directive.deep_view()),
{
    let value = expect_one_argument(directive)?;
    if same(value, "unlimited") {
        return Ok(-1);
    }
    let split: usize = count_leading(value, is_digit, Ghost(|c: char| text::digit(c)));
    let number: u64 = match parse_number(before(value, split), i64::MAX as u64) {
        Some(n) => n,
        None => {
            return Err(invalid(directive.name.as_str(), value));
        },
    };
    let unit = to_lower(after(value, split));
    let u = unit.as_str();
    let each: u64 = if same(u, "") || same(u, "b") {
        1
    } else if same(u, "k") || same(u, "kb") {
        1_024
    } else if same(u, "m") || same(u, "mb") {
        1_048_576
    } else if same(u, "g") || same(u, "gb") {
        1_073_741_824
    } else {
        let reason = cat3("`", u, "` is not a byte unit (b/kb/mb/gb)");
        return Err(invalid(directive.name.as_str(), reason.as_str()));
    };
    match number.checked_mul(each) {
        Some(bytes) if bytes <= i64::MAX as u64 => Ok(bytes as i64),
        _ => {
            let reason = cat3("`", value, "` overflows");
            Err(invalid(directive.name.as_str(), reason.as_str()))
        },
    }
}

// ---------------------------------------------------------------------------
// The lines of the block
// ---------------------------------------------------------------------------
/// The options that the format defines and that are refused by name.
pub open spec fn refused_options() -> Seq<Seq<char>> {
    seq![
        "lb_retry_match"@,
        "health_upstream"@,
        "health_request_body"@,
        "health_follow_redirects"@,
        "max_fails"@,
        "fail_duration"@,
        "unhealthy_request_count"@,
        "unhealthy_status"@,
        "unhealthy_latency"@,
        "stream_buffer_size"@,
        "stream_timeout"@,
        "stream_close_delay"@,
        "trusted_proxies"@,
        "verbose_logs"@,
        "proxy_protocol"@,
        "forward_proxy_url"@,
        "network_proxy"@,
    ]
}

/// Whether the format defines an option of this name.
pub fn is_known_proxy_option(name: &str) -> (r: bool)
    ensures
        r == refused_options().contains(name@),
{
    let list = vec![
        "lb_retry_match",
        "health_upstream",
        "health_request_body",
        "health_follow_redirects",
        "max_fails",
        "fail_duration",
        "unhealthy_request_count",
        "unhealthy_status",
        "unhealthy_latency",
        "stream_buffer_size",
        "stream_timeout",
        "stream_close_delay",
        "trusted_proxies",
        "verbose_logs",
        "proxy_protocol",
        "forward_proxy_url",
        "network_proxy",
    ];
    assert(list.deep_view() =~= refused_options());
    among(name, &list)
}

/// `flush_interval <ms>`; what is neither `-1` nor a number changes nothing.
pub open spec fn flushing(p: ProxyConfigV, d: DirectiveV) -> ProxyConfigV {
    if d.args.len() == 0 {
        p
    } else if d.args[0] == "-1"@ {
        ProxyConfigV { flush_interval: Some(FlushInterval::Immediate), ..p }
    } else {
        match text::as_u64(d.args[0]) {
            Some(ms) => ProxyConfigV { flush_interval: Some(FlushInterval::Duration(ms)), ..p },
            None => p,
        }
    }
}

fn read_flushing(p: ProxyConfig, d: &Directive) -> (r: ProxyConfig)
    ensures
        r.deep_view() == flushing(p.deep_view(), d.deep_view()),
{
    let mut p = p;
    if d.args.len() > 0 {
        let value = d.args[0].as_str();
        if same(value, "-1") {
            p.flush_interval = Some(FlushInterval::Immediate);
        } else if let Some(ms) = parse_u64(value) {
            p.flush_interval = Some(FlushInterval::Duration(ms));
        }
    }
    p
}

/// `transport http { ... }` and, in the extended profile, `transport fastcgi { ... }`.
pub open spec fn transported(profile: Profile, p: ProxyConfigV, d: DirectiveV) -> Result<
    ProxyConfigV,
    ErrorV,
> {
    let kind = if profile == Profile::Core || d.args.len() == 0 {
        "http"@
    } else {
        d.args[0]
    };
    if kind == "http"@ {
        match d.block {
            None => Ok(p),
            Some(lines) => error::with(
                transport::http_transport(profile, p.transport_options, lines),
                |c: transport::TransportDraftV|
                    ProxyConfigV {
                        transport: Some(c.transport),
                        transport_options: c.kept,
                        ..p
                    },
            ),
        }
    } else if kind == "fastcgi"@ {
        error::with(
            transport::fastcgi_transport(d.block),
            |c: FastCgiTransportConfigV| ProxyConfigV { fastcgi: Some(c), ..p },
        )
    } else {
        Err(
            ErrorV::UnsupportedFeature(
                "reverse_proxy transport"@,
                "`"@ + kind + "` is not a supported transport"@,
            ),
        )
    }
}

fn read_transport(profile: Profile, p: ProxyConfig, d: &Directive) -> (r: Result<
    ProxyConfig,
    AdapterError,
>)
    ensures
        error::outcome(r) == transported(profile, p.deep_view(), d.deep_view()),
{
    let mut p = p;
    let kind = if profile == Profile::Core || d.args.len() == 0 {
        "http"
    } else {
        d.args[0].as_str()
    };
    if same(kind, "http") {
        if let Some(block) = &d.block {
            let c = adapt_http_transport(profile, p.transport_options, &block.directives)?;
            p.transport = Some(c.transport);
            p.transport_options = c.kept;
        }
    } else if same(kind, "fastcgi") {
        p.fastcgi = Some(adapt_fastcgi_transport(d)?);
    } else {
        let reason = cat3("`", kind, "` is not a supported transport");
        return Err(unsupported("reverse_proxy transport", reason.as_str()));
    }
    Ok(p)
}

/// One line of the block that only the extended profile honours.
pub open spec fn refined_option(p: ProxyConfigV, d: DirectiveV) -> Result<
    ProxyConfigV,
    ErrorV,
> {
    if d.name == "dynamic"@ {
        error::with(
            dynamic::dynamic(d),
            |source: DynamicUpstreamConfigV| ProxyConfigV { dynamic: Some(source), ..p },
        )
    } else if text::starts(d.name, "health_"@) {
        error::with(
            flat_health_option(
                match p.health_check {
                    Some(check) => check,
                    None => HealthCheckConfigV::unset(),
                },
                d,
            ),
            |check: HealthCheckConfigV| ProxyConfigV { health_check: Some(check), ..p },
        )
    } else if d.name == "lb_retries"@ {
        error::with(args::positive_size(d), |n: usize| ProxyConfigV { retry: RetryConfigV { max_attempts: Some(n), ..p.retry }, ..p })
    } else if d.name == "lb_try_duration"@ {
        error::with(args::span(d), |ms: u64| ProxyConfigV { retry: RetryConfigV { total_timeout_ms: Some(ms), ..p.retry }, ..p })
    } else if d.name == "lb_try_interval"@ {
        error::with(args::span(d), |ms: u64| ProxyConfigV { retry: RetryConfigV { backoff_ms: Some(ms), ..p.retry }, ..p })
    } else if d.name == "lb_retry_match"@ {
        error::with(
            retry_match::retry_match(p.retry, d),
            |retry: RetryConfigV| ProxyConfigV { retry, ..p },
        )
    } else if d.name == "method"@ {
        error::with(args::sole(d), |v: Seq<char>| ProxyConfigV { rewrite_method: Some(text::upper(v)), ..p })
    } else if d.name == "rewrite"@ {
        error::with(args::sole(d), |v: Seq<char>| ProxyConfigV { rewrite_uri: Some(v), ..p })
    } else if d.name == "request_buffers"@ {
        error::with(buffer_size(d), |v: i64| ProxyConfigV { request_buffer_bytes: Some(v), ..p })
    } else if d.name == "response_buffers"@ {
        error::with(buffer_size(d), |v: i64| ProxyConfigV { response_buffer_bytes: Some(v), ..p })
    } else if refused_options().contains(d.name) {
        Err(
            ErrorV::UnsupportedFeature(
                "reverse_proxy "@ + d.name,
                "Pingclair does not implement this reverse_proxy option yet"@,
            ),
        )
    } else {
        Err(ErrorV::UnknownDirective("reverse_proxy: "@ + d.name))
    }
}

fn read_refined_option(p: ProxyConfig, d: &Directive) -> (r: Result<
    ProxyConfig,
    AdapterError,
>)
    ensures
        error::outcome(r) == refined_option(p.deep_view(), d.deep_view()),
{
    let mut p = p;
    let name = d.name.as_str();
    if same(name, "dynamic") {
        p.dynamic = Some(parse_dynamic_upstream(d)?);
    } else if begins(name, "health_") {
        let check = match p.health_check {
            Some(check) => check,
            None => HealthCheckConfig::unset(),
        };
        p.health_check = Some(read_flat_health_option(check, d)?);
    } else if same(name, "lb_retries") {
        p.retry.max_attempts = Some(parse_positive_usize(d)?);
    } else if same(name, "lb_try_duration") {
        p.retry.total_timeout_ms = Some(parse_required_duration(d)?);
    } else if same(name, "lb_try_interval") {
        p.retry.backoff_ms = Some(parse_required_duration(d)?);
    } else if same(name, "lb_retry_match") {
        p.retry = apply_retry_match(p.retry, d)?;
    } else if same(name, "method") {
        p.rewrite_method = Some(to_upper(expect_one_argument(d)?));
    } else if same(name, "rewrite") {
        p.rewrite_uri = Some(expect_one_argument(d)?.to_owned());
    } else if same(name, "request_buffers") {
        p.request_buffer_bytes = Some(parse_buffer_size(d)?);
    } else if same(name, "response_buffers") {
        p.response_buffer_bytes = Some(parse_buffer_size(d)?);
    } else if is_known_proxy_option(name) {
        let feature = cat("reverse_proxy ", name);
        return Err(
            unsupported(
                feature.as_str(),
                "Pingclair does not implement this reverse_proxy option yet",
            ),
        );
    } else {
        return Err(unknown_in("reverse_proxy: ", name));
    }
    Ok(p)
}

/// One line of the block.
pub open spec fn proxy_option(profile: Profile, p: ProxyConfigV, d: DirectiveV) -> Result<
    ProxyConfigV,
    ErrorV,
> {
    if d.name == "header_up"@ {
        if d.args.len() != 2 {
            Err(ErrorV::ArgumentCount("header_up"@, 2, d.args.len() as usize))
        } else {
            Ok(
                ProxyConfigV {
                    header_up: p.header_up.insert(d.args[0], ExprV::String(d.args[1])),
                    ..p
                },
            )
        }
    } else if d.name == "header_down"@ {
        Err(
            ErrorV::UnsupportedFeature(
                "reverse_proxy header_down"@,
                "response header rewriting is not implemented yet"@,
            ),
        )
    } else if profile == Profile::Core && d.name == "dynamic"@ {
        Err(
            ErrorV::UnsupportedFeature(
                "reverse_proxy dynamic"@,
                "dynamic upstream discovery is not implemented yet"@,
            ),
        )
    } else if d.name == "flush_interval"@ {
        Ok(flushing(p, d))
    } else if d.name == "transport"@ {
        transported(profile, p, d)
    } else if d.name == "cache"@ {
        error::with(policies::cache_policy(profile, d), |v: CacheConfig| ProxyConfigV { cache: Some(v), ..p })
    } else if d.name == "retry"@ {
        error::with(policies::retry_policy(d), |v: RetryConfigV| ProxyConfigV { retry: v, ..p })
    } else if d.name == "overload"@ {
        error::with(policies::overload_policy(d), |v: OverloadConfig| ProxyConfigV { overload: v, ..p })
    } else if d.name == "circuit_breaker"@ {
        error::with(policies::breaker_policy(d), |v: CircuitBreakerConfigV| ProxyConfigV { circuit_breaker: v, ..p })
    } else if d.name == "health_check"@ {
        error::with(policies::health_check(d), |v: HealthCheckConfigV| ProxyConfigV { health_check: Some(v), ..p })
    } else if d.name == "lb_policy"@ {
        balancing(profile, p, d)
    } else if d.name == "to"@ {
        upstreams::further_upstreams(p, d)
    } else if profile == Profile::Extended {
        refined_option(p, d)
    } else {
        Err(ErrorV::UnknownDirective("reverse_proxy: "@ + d.name))
    }
}

fn read_proxy_option(profile: Profile, p: ProxyConfig, d: &Directive) -> (r: Result<
    ProxyConfig,
    AdapterError,
>)
    ensures
        error::outcome(r) == proxy_option(profile, p.deep_view(), d.deep_view()),
{
    let mut p = p;
    let name = d.name.as_str();
    if same(name, "header_up") {
        if d.args.len() != 2 {
            return Err(miscount("header_up", 2, d.args.len()));
        }
        p.header_up.insert(d.args[0].clone(), Expr::String(d.args[1].clone()));
    } else if same(name, "header_down") {
        return Err(
            unsupported(
                "reverse_proxy header_down",
                "response header rewriting is not implemented yet",
            ),
        );
    } else if profile == Profile::Core && same(name, "dynamic") {
        return Err(
            unsupported(
                "reverse_proxy dynamic",
                "dynamic upstream discovery is not implemented yet",
            ),
        );
    } else if same(name, "flush_interval") {
        p = read_flushing(p, d);
    } else if same(name, "transport") {
        p = read_transport(profile, p, d)?;
    } else if same(name, "cache") {
        p.cache = Some(adapt_cache_policy(profile, d)?);
    } else if same(name, "retry") {
        p.retry = adapt_retry_policy(d)?;
    } else if same(name, "overload") {
        p.overload = adapt_overload_policy(d)?;
    } else if same(name, "circuit_breaker") {
        p.circuit_breaker = adapt_circuit_breaker_policy(d)?;
    } else if same(name, "health_check") {
        p.health_check = Some(adapt_health_check(d)?);
    } else if same(name, "lb_policy") {
        p = read_balancing(profile, p, d)?;
    } else if same(name, "to") {
        p = read_further_upstreams(p, d)?;
    } else if profile == Profile::Extended {
        p = read_refined_option(p, d)?;
    } else {
        return Err(unknown_in("reverse_proxy: ", name));
    }
    Ok(p)
}

/// The lines of a `reverse_proxy` block read so far.
pub struct ProxyDraft {
    pub proxy: ProxyConfig,
    /// The response matchers that the block defines; requests have a namespace of their own.
    pub matchers: Table<ResponseMatcher>,
    /// The response handlers without a matcher, which come last.
    pub matcherless: Vec<ResponseHandlerConfig>,
}

/// The mathematical value of a [`ProxyDraft`].
#[verifier::ext_equal]
pub struct ProxyDraftV {
    pub proxy: ProxyConfigV,
    pub matchers: Map<Seq<char>, ResponseMatcherV>,
    pub matcherless: Seq<ResponseHandlerConfigV>,
}

impl ProxyDraftV {
    /// A draft before any line of the block.
    pub open spec fn start(proxy: ProxyConfigV) -> ProxyDraftV {
        ProxyDraftV { proxy, matchers: Map::empty(), matcherless: Seq::empty() }
    }
}

impl DeepView for ProxyDraft {
    type V = ProxyDraftV;

    open spec fn deep_view(&self) -> ProxyDraftV {
        ProxyDraftV {
            proxy: self.proxy.deep_view(),
            matchers: self.matchers.deep_view(),
            matcherless: self.matcherless.deep_view(),
        }
    }
}

/// One more response handler; those without a matcher are kept apart.
pub open spec fn with_entry(c: ProxyDraftV, h: ResponseHandlerConfigV) -> ProxyDraftV {
    if h.matcher is Some {
        ProxyDraftV {
            proxy: ProxyConfigV { handle_response: c.proxy.handle_response.push(h), ..c.proxy },
            ..c
        }
    } else {
        ProxyDraftV { matcherless: c.matcherless.push(h), ..c }
    }
}

fn add_entry(c: ProxyDraft, h: ResponseHandlerConfig) -> (r: ProxyDraft)
    ensures
        r.deep_view() == with_entry(c.deep_view(), h.deep_view()),
{
    let mut c = c;
    if h.matcher.is_some() {
        let ghost held = c.proxy.handle_response.deep_view();
        c.proxy.handle_response.push(h);
        assert(c.proxy.handle_response.deep_view() =~= held.push(h.deep_view()));
    } else {
        let ghost held = c.matcherless.deep_view();
        c.matcherless.push(h);
        assert(c.matcherless.deep_view() =~= held.push(h.deep_view()));
    }
    c
}

/// One line of the block, with the response matchers defined so far.
pub open spec fn draft_line(profile: Profile, c: ProxyDraftV, d: DirectiveV) -> Result<
    ProxyDraftV,
    ErrorV,
> {
    if profile == Profile::Extended && text::starts_char(d.name, '@') {
        error::with(
            responses::response_matcher(d),
            |m: ResponseMatcherV| ProxyDraftV { matchers: c.matchers.insert(d.name, m), ..c },
        )
    } else if profile == Profile::Extended && d.name == "replace_status"@ {
        error::with(
            responses::replaced_status(d, c.matchers),
            |h: ResponseHandlerConfigV| with_entry(c, h),
        )
    } else if profile == Profile::Extended && d.name == "handle_response"@ {
        error::with(
            responses::handled_response(d, c.matchers),
            |h: ResponseHandlerConfigV| with_entry(c, h),
        )
    } else {
        error::with(
            proxy_option(profile, c.proxy, d),
            |proxy: ProxyConfigV| ProxyDraftV { proxy, ..c },
        )
    }
}

fn read_draft_line(profile: Profile, c: ProxyDraft, d: &Directive) -> (r: Result<
    ProxyDraft,
    AdapterError,
>)
    ensures
        error::outcome(r) == draft_line(profile, c.deep_view(), d.deep_view()),
{
    let mut c = c;
    let name = d.name.as_str();
    if profile == Profile::Extended && begins_with(name, '@') {
        c.matchers.insert(d.name.clone(), parse_response_matcher(d)?);
    } else if profile == Profile::Extended && same(name, "replace_status") {
        let h = parse_replace_status(d, &c.matchers)?;
        c = add_entry(c, h);
    } else if profile == Profile::Extended && same(name, "handle_response") {
        let h = parse_handle_response(d, &c.matchers)?;
        c = add_entry(c, h);
    } else {
        c.proxy = read_proxy_option(profile, c.proxy, d)?;
    }
    Ok(c)
}

/// What a `reverse_proxy` directive configures.
pub open spec fn reverse_proxy(profile: Profile, d: DirectiveV) -> Result<ProxyConfigV, ErrorV> {
    match upstreams::proxy_line(profile, d.args) {
        Err(e) => Err(e),
        Ok(start) => {
            let read = match d.block {
                None => Ok(ProxyDraftV::start(start)),
                Some(lines) => fold::fold(
                    |c: ProxyDraftV, o: DirectiveV| draft_line(profile, c, o),
                    ProxyDraftV::start(start),
                    lines,
                ),
            };
            match read {
                Err(e) => Err(e),
                Ok(c) => if c.proxy.upstreams.len() == 0 && c.proxy.dynamic is None {
                    Err(ErrorV::ArgumentCount("reverse_proxy"@, 1, 0))
                } else {
                    Ok(
                        ProxyConfigV {
                            handle_response: c.proxy.handle_response + c.matcherless,
                            ..c.proxy
                        },
                    )
                },
            }
        },
    }
}

/// Adapts a `reverse_proxy` directive, its upstreams and the options of its block.
///
/// A proxy without upstreams is refused, and so is every option that is not implemented. A value
/// of `flush_interval` that cannot be read leaves the option unset.
pub fn adapt_reverse_proxy(profile: Profile, d: &Directive) -> (r: Result<
    ProxyConfig,
    AdapterError,
>)
    ensures
        error::outcome(r) == reverse_proxy(profile, d.deep_view()),
{
    let start = read_proxy_line(profile, &d.args)?;
    let init = ProxyDraft { proxy: start, matchers: Table::new(), matcherless: Vec::new() };
    assert(init.matcherless.deep_view() =~= Seq::<ResponseHandlerConfigV>::empty());
    let c = match &d.block {
        None => init,
        Some(block) => {
            let read = |c: ProxyDraft, d: &Directive| -> (r: Result<ProxyDraft, AdapterError>)
                ensures
                    error::outcome(r) == draft_line(profile, c.deep_view(), d.deep_view()),
                { read_draft_line(profile, c, d) };
            fold_directives(
                read,
                init,
                &block.directives,
                Ghost(|c: ProxyDraftV, o: DirectiveV| draft_line(profile, c, o)),
            )?
        },
    };
    if c.proxy.upstreams.len() == 0 && c.proxy.dynamic.is_none() {
        return Err(miscount("reverse_proxy", 1, 0));
    }
    let mut proxy = c.proxy;
    let mut last = c.matcherless;
    let ghost held = proxy.handle_response.deep_view();
    let ghost added = last.deep_view();
    proxy.handle_response.append(&mut last);
    assert(proxy.handle_response.deep_view() =~= held + added);
    Ok(proxy)
}

// ---------------------------------------------------------------------------
// Laws
// ---------------------------------------------------------------------------
#[verifier::spinoff_prover]
#[verifier::rlimit(60)]
proof fn lemma_option_keeps_handlers(profile: Profile, p: ProxyConfigV, d: DirectiveV)
    ensures
        match proxy_option(profile, p, d) {
            Ok(q) => q.handle_response == p.handle_response,
            Err(_) => true,
        },
{
    let lines = match d.block {
        Some(lines) => lines,
        None => Seq::empty(),
    };
    upstreams::lemma_upstreams_keep_handlers(p, upstreams::expanded(d.args), lines);
}

proof fn lemma_handlers_kept_apart(profile: Profile, c: ProxyDraftV, list: Seq<DirectiveV>)
    requires
        responses::all_matched(c.proxy.handle_response, true),
        responses::all_matched(c.matcherless, false),
    ensures
        match fold::fold(|c: ProxyDraftV, o: DirectiveV| draft_line(profile, c, o), c, list) {
            Ok(last) => responses::all_matched(last.proxy.handle_response, true)
                && responses::all_matched(last.matcherless, false),
            Err(_) => true,
        },
    decreases list.len(),
{
    let step = |c: ProxyDraftV, o: DirectiveV| draft_line(profile, c, o);
    if list.len() > 0 {
        if let Ok(next) = step(c, list[0]) {
            lemma_option_keeps_handlers(profile, c.proxy, list[0]);
            lemma_handlers_kept_apart(profile, next, list.drop_first());
        }
    }
}

/// The response handlers of a proxy come with those without a matcher last: none of these hides
/// one with a matcher.
pub proof fn handlers_without_a_matcher_come_last(profile: Profile, d: DirectiveV, i: int, j: int)
    requires
        reverse_proxy(profile, d) is Ok,
        0 <= i < j < reverse_proxy(profile, d)->Ok_0.handle_response.len(),
        reverse_proxy(profile, d)->Ok_0.handle_response[i].matcher is None,
    ensures
        reverse_proxy(profile, d)->Ok_0.handle_response[j].matcher is None,
{
    let start = upstreams::proxy_line(profile, d.args)->Ok_0;
    let lines = match d.block {
        Some(lines) => lines,
        None => Seq::empty(),
    };
    lemma_handlers_kept_apart(profile, ProxyDraftV::start(start), lines);
    let last = fold::fold(
        |c: ProxyDraftV, o: DirectiveV| draft_line(profile, c, o),
        ProxyDraftV::start(start),
        lines,
    )->Ok_0;
    let n = last.proxy.handle_response.len() as int;
    let all = last.proxy.handle_response + last.matcherless;
    if i < n {
        assert(all[i] == last.proxy.handle_response[i]);
    } else {
        assert(all[j] == last.matcherless[j - n]);
    }
}

} // verus!
