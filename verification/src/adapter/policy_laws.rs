//! What the lines of the policies of a proxy mean.

use crate::adapter::args;
use crate::adapter::policies;
use crate::adapter::policies::CacheDraft;
use crate::adapter::profile::Profile;
use crate::ast::proxy::{
    CacheConfig, CircuitBreakerConfigV, HealthCheckConfigV, OverloadConfig, RetryConfigV,
};
use crate::duration;
use crate::error::ErrorV;
use crate::fold;
use crate::syntax::{line, with_block, DirectiveV};
use crate::text;
use vstd::prelude::*;

verus! {

// ---------------------------------------------------------------------------
// health_check
// ---------------------------------------------------------------------------
proof fn lemma_health_line(
    d: DirectiveV,
    front: Seq<DirectiveV>,
    c: HealthCheckConfigV,
    o: DirectiveV,
)
    requires
        policies::health_check(with_block(d, front)) == Ok::<HealthCheckConfigV, ErrorV>(c),
    ensures
        policies::health_check(with_block(d, front.push(o))) == policies::health_option(c, o),
{
    fold::a_last_directive_is_read_last(
        |h: HealthCheckConfigV, o: DirectiveV| policies::health_option(h, o),
        HealthCheckConfigV::unset(),
        front,
        o,
    );
}

/// A line of a health check sets what it names: what is asked for, how, and what answer is good.
pub proof fn a_health_line_asks_what_it_names(
    d: DirectiveV,
    front: Seq<DirectiveV>,
    c: HealthCheckConfigV,
    v: Seq<char>,
    k: Seq<char>,
    port: u16,
)
    requires
        policies::health_check(with_block(d, front)) == Ok::<HealthCheckConfigV, ErrorV>(c),
    ensures
        policies::health_check(
            with_block(d, front.push(line("path"@, seq![v]))),
        ) == Ok::<HealthCheckConfigV, ErrorV>(
            HealthCheckConfigV { path: Some(v), ..c },
        ),
        policies::health_check(
            with_block(d, front.push(line("method"@, seq![v]))),
        ) == Ok::<HealthCheckConfigV, ErrorV>(
            HealthCheckConfigV { method: Some(text::upper(v)), ..c },
        ),
        policies::health_check(
            with_block(d, front.push(line("host"@, seq![v]))),
        ) == Ok::<HealthCheckConfigV, ErrorV>(
            HealthCheckConfigV { host: Some(v), ..c },
        ),
        policies::health_check(
            with_block(d, front.push(line("header"@, seq![k, v]))),
        ) == Ok::<HealthCheckConfigV, ErrorV>(
            HealthCheckConfigV { headers: c.headers.insert(k, v), ..c },
        ),
        policies::health_check(
            with_block(d, front.push(line("body"@, seq![v]))),
        ) == Ok::<HealthCheckConfigV, ErrorV>(
            HealthCheckConfigV { expected_body: Some(v), ..c },
        ),
        policies::health_check(
            with_block(d, front.push(line("port"@, seq![text::shown(port as nat)]))),
        ) == Ok::<HealthCheckConfigV, ErrorV>(
            HealthCheckConfigV { port: Some(port), ..c },
        ),
{
    reveal_strlit("path");
    reveal_strlit("interval");
    reveal_strlit("timeout");
    reveal_strlit("method");
    reveal_strlit("host");
    reveal_strlit("header");
    reveal_strlit("status");
    reveal_strlit("body");
    reveal_strlit("port");
    reveal_strlit("consecutive_success");
    reveal_strlit("consecutive_failure");
    reveal_strlit("reuse_connection");
    reveal_strlit("max_response_body_bytes");
    reveal_strlit("slow_start");
    assert("path"@.len() == 4 && "path"@[0] == 'p' && "path"@[1] == 'a');
    assert("interval"@.len() == 8);
    assert("timeout"@.len() == 7);
    assert("method"@.len() == 6 && "method"@[0] == 'm');
    assert("host"@.len() == 4 && "host"@[0] == 'h');
    assert("header"@.len() == 6 && "header"@[0] == 'h');
    assert("status"@.len() == 6 && "status"@[0] == 's');
    assert("body"@.len() == 4 && "body"@[0] == 'b');
    assert("port"@.len() == 4 && "port"@[0] == 'p' && "port"@[1] == 'o');
    assert("consecutive_success"@.len() == 19 && "consecutive_success"@[12] == 's');
    assert("consecutive_failure"@.len() == 19 && "consecutive_failure"@[12] == 'f');
    assert("reuse_connection"@.len() == 16);
    assert("max_response_body_bytes"@.len() == 23);
    assert("slow_start"@.len() == 10);
    crate::adapter::handler_laws::lemma_code(port);
    lemma_health_line(d, front, c, line("path"@, seq![v]));
    lemma_health_line(d, front, c, line("method"@, seq![v]));
    lemma_health_line(d, front, c, line("host"@, seq![v]));
    lemma_health_line(d, front, c, line("header"@, seq![k, v]));
    lemma_health_line(d, front, c, line("body"@, seq![v]));
    lemma_health_line(d, front, c, line("port"@, seq![text::shown(port as nat)]));
}

/// A line of a health check sets what it names: how often and how long is asked, how many answers
/// decide, and how much of an answer is read.
pub proof fn a_health_line_counts_what_it_names(
    d: DirectiveV,
    front: Seq<DirectiveV>,
    c: HealthCheckConfigV,
    t: Seq<char>,
    ms: u64,
    k: u32,
    n: usize,
)
    requires
        policies::health_check(with_block(d, front)) == Ok::<HealthCheckConfigV, ErrorV>(c),
        k > 0,
        n > 0,
        duration::millis(t) == Some(ms),
        0 < ms <= args::LONGEST_MS,
    ensures
        policies::health_check(
            with_block(d, front.push(line("consecutive_success"@, seq![text::shown(k as nat)]))),
        ) == Ok::<HealthCheckConfigV, ErrorV>(
            HealthCheckConfigV { consecutive_success: Some(k), ..c },
        ),
        policies::health_check(
            with_block(d, front.push(line("consecutive_failure"@, seq![text::shown(k as nat)]))),
        ) == Ok::<HealthCheckConfigV, ErrorV>(
            HealthCheckConfigV { consecutive_failure: Some(k), ..c },
        ),
        policies::health_check(
            with_block(d, front.push(line("reuse_connection"@, Seq::empty()))),
        ) == Ok::<HealthCheckConfigV, ErrorV>(
            HealthCheckConfigV { reuse_connection: true, ..c },
        ),
        policies::health_check(
            with_block(
                d,
                front.push(line("max_response_body_bytes"@, seq![text::shown(n as nat)])),
            ),
        ) == Ok::<HealthCheckConfigV, ErrorV>(
            HealthCheckConfigV { max_response_body_bytes: Some(n), ..c },
        ),
        policies::health_check(
            with_block(d, front.push(line("slow_start"@, seq![t]))),
        ) == Ok::<HealthCheckConfigV, ErrorV>(
            HealthCheckConfigV { slow_start_ms: Some(ms), ..c },
        ),
{
    reveal_strlit("path");
    reveal_strlit("interval");
    reveal_strlit("timeout");
    reveal_strlit("method");
    reveal_strlit("host");
    reveal_strlit("header");
    reveal_strlit("status");
    reveal_strlit("body");
    reveal_strlit("port");
    reveal_strlit("consecutive_success");
    reveal_strlit("consecutive_failure");
    reveal_strlit("reuse_connection");
    reveal_strlit("max_response_body_bytes");
    reveal_strlit("slow_start");
    assert("path"@.len() == 4 && "path"@[0] == 'p' && "path"@[1] == 'a');
    assert("interval"@.len() == 8);
    assert("timeout"@.len() == 7);
    assert("method"@.len() == 6 && "method"@[0] == 'm');
    assert("host"@.len() == 4 && "host"@[0] == 'h');
    assert("header"@.len() == 6 && "header"@[0] == 'h');
    assert("status"@.len() == 6 && "status"@[0] == 's');
    assert("body"@.len() == 4 && "body"@[0] == 'b');
    assert("port"@.len() == 4 && "port"@[0] == 'p' && "port"@[1] == 'o');
    assert("consecutive_success"@.len() == 19 && "consecutive_success"@[12] == 's');
    assert("consecutive_failure"@.len() == 19 && "consecutive_failure"@[12] == 'f');
    assert("reuse_connection"@.len() == 16);
    assert("max_response_body_bytes"@.len() == 23);
    assert("slow_start"@.len() == 10);
    text::a_shown_number_reads_back(n as nat);
    assert(text::number(text::shown(n as nat), u64::MAX as nat) == Some(n as nat));
    text::a_shown_number_reads_back(k as nat);
    assert(text::number(text::shown(k as nat), u64::MAX as nat) == Some(k as nat));
    lemma_health_line(d, front, c, line("consecutive_success"@, seq![text::shown(k as nat)]));
    lemma_health_line(d, front, c, line("consecutive_failure"@, seq![text::shown(k as nat)]));
    lemma_health_line(d, front, c, line("reuse_connection"@, Seq::empty()));
    lemma_health_line(d, front, c, line("max_response_body_bytes"@, seq![text::shown(n as nat)]));
    lemma_health_line(d, front, c, line("slow_start"@, seq![t]));
}

/// The interval and the timeout of a health check are whole seconds.
pub proof fn a_health_line_waits_what_it_names(
    d: DirectiveV,
    front: Seq<DirectiveV>,
    c: HealthCheckConfigV,
    t: Seq<char>,
    ms: u64,
)
    requires
        policies::health_check(with_block(d, front)) == Ok::<HealthCheckConfigV, ErrorV>(c),
        duration::millis(t) == Some(ms),
        0 < ms <= args::LONGEST_MS,
        ms % 1_000 == 0,
    ensures
        policies::health_check(
            with_block(d, front.push(line("interval"@, seq![t]))),
        ) == Ok::<HealthCheckConfigV, ErrorV>(
            HealthCheckConfigV { interval_secs: Some(ms / 1_000), ..c },
        ),
        policies::health_check(
            with_block(d, front.push(line("timeout"@, seq![t]))),
        ) == Ok::<HealthCheckConfigV, ErrorV>(
            HealthCheckConfigV { timeout_secs: Some(ms / 1_000), ..c },
        ),
{
    reveal_strlit("path");
    reveal_strlit("interval");
    reveal_strlit("timeout");
    reveal_strlit("method");
    reveal_strlit("host");
    reveal_strlit("header");
    reveal_strlit("status");
    reveal_strlit("body");
    reveal_strlit("port");
    reveal_strlit("consecutive_success");
    reveal_strlit("consecutive_failure");
    reveal_strlit("reuse_connection");
    reveal_strlit("max_response_body_bytes");
    reveal_strlit("slow_start");
    assert("path"@.len() == 4 && "path"@[0] == 'p' && "path"@[1] == 'a');
    assert("interval"@.len() == 8);
    assert("timeout"@.len() == 7);
    assert("method"@.len() == 6 && "method"@[0] == 'm');
    assert("host"@.len() == 4 && "host"@[0] == 'h');
    assert("header"@.len() == 6 && "header"@[0] == 'h');
    assert("status"@.len() == 6 && "status"@[0] == 's');
    assert("body"@.len() == 4 && "body"@[0] == 'b');
    assert("port"@.len() == 4 && "port"@[0] == 'p' && "port"@[1] == 'o');
    assert("consecutive_success"@.len() == 19 && "consecutive_success"@[12] == 's');
    assert("consecutive_failure"@.len() == 19 && "consecutive_failure"@[12] == 'f');
    assert("reuse_connection"@.len() == 16);
    assert("max_response_body_bytes"@.len() == 23);
    assert("slow_start"@.len() == 10);
    lemma_health_line(d, front, c, line("interval"@, seq![t]));
    lemma_health_line(d, front, c, line("timeout"@, seq![t]));
}

/// Statuses as they are written.
pub open spec fn written_codes(list: Seq<u16>) -> Seq<Seq<char>> {
    list.map_values(|n: u16| text::shown(n as nat))
}

/// Statuses that are written out are read as they are, in their order.
pub proof fn written_codes_are_read_back(name: Seq<char>, list: Seq<u16>)
    ensures
        args::codes(name, written_codes(list)) == Ok::<Seq<u16>, ErrorV>(list),
    decreases list.len(),
{
    if list.len() == 0 {
        assert(list =~= Seq::empty());
    } else {
        let front = list.drop_last();
        written_codes_are_read_back(name, front);
        assert(written_codes(list).drop_last() =~= written_codes(front));
        crate::adapter::handler_laws::lemma_code(list.last());
        assert(front.push(list.last()) =~= list);
    }
}

/// A health check accepts the statuses that it lists.
pub proof fn a_health_check_accepts_the_statuses_listed(
    d: DirectiveV,
    front: Seq<DirectiveV>,
    c: HealthCheckConfigV,
    list: Seq<u16>,
)
    requires
        policies::health_check(with_block(d, front)) == Ok::<HealthCheckConfigV, ErrorV>(c),
        list.len() > 0,
    ensures
        policies::health_check(
            with_block(d, front.push(line("status"@, written_codes(list)))),
        ) == Ok::<HealthCheckConfigV, ErrorV>(
            HealthCheckConfigV { expected_statuses: Some(list), ..c },
        ),
{
    reveal_strlit("path");
    reveal_strlit("interval");
    reveal_strlit("timeout");
    reveal_strlit("method");
    reveal_strlit("host");
    reveal_strlit("header");
    reveal_strlit("status");
    reveal_strlit("body");
    reveal_strlit("port");
    reveal_strlit("consecutive_success");
    reveal_strlit("consecutive_failure");
    reveal_strlit("reuse_connection");
    reveal_strlit("max_response_body_bytes");
    reveal_strlit("slow_start");
    assert("path"@.len() == 4 && "path"@[0] == 'p' && "path"@[1] == 'a');
    assert("interval"@.len() == 8);
    assert("timeout"@.len() == 7);
    assert("method"@.len() == 6 && "method"@[0] == 'm');
    assert("host"@.len() == 4 && "host"@[0] == 'h');
    assert("header"@.len() == 6 && "header"@[0] == 'h');
    assert("status"@.len() == 6 && "status"@[0] == 's');
    assert("body"@.len() == 4 && "body"@[0] == 'b');
    assert("port"@.len() == 4 && "port"@[0] == 'p' && "port"@[1] == 'o');
    assert("consecutive_success"@.len() == 19 && "consecutive_success"@[12] == 's');
    assert("consecutive_failure"@.len() == 19 && "consecutive_failure"@[12] == 'f');
    assert("reuse_connection"@.len() == 16);
    assert("max_response_body_bytes"@.len() == 23);
    assert("slow_start"@.len() == 10);
    written_codes_are_read_back("status"@, list);
    lemma_health_line(d, front, c, line("status"@, written_codes(list)));
}

// ---------------------------------------------------------------------------
// cache
// ---------------------------------------------------------------------------
/// A cache keeps content for the seconds that its last `ttl` says.
pub proof fn a_cache_line_sets_what_it_names(
    profile: Profile,
    d: DirectiveV,
    front: Seq<DirectiveV>,
    c: CacheConfig,
    t: Seq<char>,
    ms: u64,
    n: usize,
)
    requires
        policies::cache_policy(profile, with_block(d, front)) == Ok::<CacheConfig, ErrorV>(c),
        n > 0,
        duration::millis(t) == Some(ms),
        0 < ms <= args::LONGEST_MS,
    ensures
        policies::cache_policy(profile, with_block(d, front.push(line("ttl"@, seq![t])))) == Ok::<
            CacheConfig,
            ErrorV,
        >(CacheConfig { ttl_secs: (ms / 1_000) as u64, ..c }),
        policies::cache_policy(
            profile,
            with_block(d, front.push(line("max_size"@, seq![text::shown(n as nat)]))),
        ) == (if profile == Profile::Extended {
            Ok::<CacheConfig, ErrorV>(CacheConfig { max_size_bytes: Some(n), ..c })
        } else {
            Err(ErrorV::UnknownDirective("max_size"@))
        }),
{
    reveal_strlit("ttl");
    reveal_strlit("max_size");
    assert("ttl"@.len() == 3);
    assert("max_size"@.len() == 8);
    text::a_shown_number_reads_back(n as nat);
    assert(text::number(text::shown(n as nat), u64::MAX as nat) == Some(n as nat));
    let step = |c: CacheDraft, o: DirectiveV| policies::cache_option(profile, c, o);
    let start = CacheDraft { ttl_secs: None, max_size_bytes: None };
    fold::a_last_directive_is_read_last(step, start, front, line("ttl"@, seq![t]));
    fold::a_last_directive_is_read_last(
        step,
        start,
        front,
        line("max_size"@, seq![text::shown(n as nat)]),
    );
}

/// A cache with nothing but a `ttl` has no bound; without one it is refused.
pub proof fn a_cache_says_how_long_content_is_kept(
    profile: Profile,
    d: DirectiveV,
    t: Seq<char>,
    ms: u64,
)
    requires
        d.args.len() == 0,
        duration::millis(t) == Some(ms),
        0 < ms <= args::LONGEST_MS,
    ensures
        policies::cache_policy(profile, with_block(d, seq![line("ttl"@, seq![t])])) == Ok::<
            CacheConfig,
            ErrorV,
        >(CacheConfig { ttl_secs: (ms / 1_000) as u64, max_size_bytes: None }),
        policies::cache_policy(profile, with_block(d, Seq::empty())) is Err,
{
    let step = |c: CacheDraft, o: DirectiveV| policies::cache_option(profile, c, o);
    let start = CacheDraft { ttl_secs: None, max_size_bytes: None };
    let o = line("ttl"@, seq![t]);
    fold::a_last_directive_is_read_last(step, start, Seq::empty(), o);
    assert(Seq::<DirectiveV>::empty().push(o) =~= seq![o]);
}

// ---------------------------------------------------------------------------
// retry
// ---------------------------------------------------------------------------
proof fn lemma_retry_line(d: DirectiveV, front: Seq<DirectiveV>, c: RetryConfigV, o: DirectiveV)
    requires
        policies::retry_policy(with_block(d, front)) == Ok::<RetryConfigV, ErrorV>(c),
    ensures
        policies::retry_policy(with_block(d, front.push(o))) == policies::retry_option(c, o),
{
    fold::a_last_directive_is_read_last(
        |c: RetryConfigV, o: DirectiveV| policies::retry_option(c, o),
        RetryConfigV::unset(),
        front,
        o,
    );
}

/// A line of a `retry` block sets what it names: how often is tried, for how long, how long is waited
/// between, and for which statuses and methods.
pub proof fn a_retry_line_sets_what_it_names(
    d: DirectiveV,
    front: Seq<DirectiveV>,
    c: RetryConfigV,
    n: usize,
    t: Seq<char>,
    ms: u64,
    list: Seq<u16>,
    words: Seq<Seq<char>>,
)
    requires
        policies::retry_policy(with_block(d, front)) == Ok::<RetryConfigV, ErrorV>(c),
        n > 0,
        list.len() > 0,
        words.len() > 0,
        t != "off"@,
        duration::millis(t) == Some(ms),
        0 < ms <= args::LONGEST_MS,
    ensures
        policies::retry_policy(
            with_block(d, front.push(line("max_attempts"@, seq![text::shown(n as nat)]))),
        ) == Ok::<RetryConfigV, ErrorV>(
            RetryConfigV { max_attempts: Some(n), ..c },
        ),
        policies::retry_policy(
            with_block(d, front.push(line("total_timeout"@, seq![t]))),
        ) == Ok::<RetryConfigV, ErrorV>(
            RetryConfigV { total_timeout_ms: Some(ms), ..c },
        ),
        policies::retry_policy(
            with_block(d, front.push(line("backoff"@, seq![t]))),
        ) == Ok::<RetryConfigV, ErrorV>(
            RetryConfigV { backoff_ms: Some(ms), ..c },
        ),
        policies::retry_policy(
            with_block(d, front.push(line("backoff"@, seq!["off"@]))),
        ) == Ok::<RetryConfigV, ErrorV>(
            RetryConfigV { backoff_ms: Some(0), ..c },
        ),
        policies::retry_policy(
            with_block(d, front.push(line("status_codes"@, written_codes(list)))),
        ) == Ok::<RetryConfigV, ErrorV>(
            RetryConfigV { status_codes: list, ..c },
        ),
        policies::retry_policy(
            with_block(d, front.push(line("methods"@, words))),
        ) == Ok::<RetryConfigV, ErrorV>(
            RetryConfigV { methods: text::uppered(words), ..c },
        ),
{
    reveal_strlit("max_attempts");
    reveal_strlit("total_timeout");
    reveal_strlit("backoff");
    reveal_strlit("status_codes");
    reveal_strlit("methods");
    reveal_strlit("off");
    assert("max_attempts"@.len() == 12 && "max_attempts"@[0] == 'm');
    assert("total_timeout"@.len() == 13);
    assert("backoff"@.len() == 7 && "backoff"@[0] == 'b');
    assert("status_codes"@.len() == 12 && "status_codes"@[0] == 's');
    assert("methods"@.len() == 7 && "methods"@[0] == 'm');
    assert("off"@.len() == 3);
    text::a_shown_number_reads_back(n as nat);
    assert(text::number(text::shown(n as nat), u64::MAX as nat) == Some(n as nat));
    written_codes_are_read_back("status_codes"@, list);
    lemma_retry_line(d, front, c, line("max_attempts"@, seq![text::shown(n as nat)]));
    lemma_retry_line(d, front, c, line("total_timeout"@, seq![t]));
    lemma_retry_line(d, front, c, line("backoff"@, seq![t]));
    lemma_retry_line(d, front, c, line("backoff"@, seq!["off"@]));
    lemma_retry_line(d, front, c, line("status_codes"@, written_codes(list)));
    lemma_retry_line(d, front, c, line("methods"@, words));
}

// ---------------------------------------------------------------------------
// overload
// ---------------------------------------------------------------------------
proof fn lemma_overload_line(
    d: DirectiveV,
    front: Seq<DirectiveV>,
    c: OverloadConfig,
    o: DirectiveV,
)
    requires
        policies::overload_policy(with_block(d, front)) == Ok::<OverloadConfig, ErrorV>(c),
    ensures
        c.max_in_flight is Some || c.max_pending is Some || c.upstream_max_connections is Some,
        policies::overload_option(c, o) matches Ok(n) ==> (n.max_in_flight is Some || n.max_pending
            is Some || n.upstream_max_connections is Some ==> policies::overload_policy(
            with_block(d, front.push(o)),
        ) == Ok::<OverloadConfig, ErrorV>(n)),
{
    fold::a_last_directive_is_read_last(
        |c: OverloadConfig, o: DirectiveV| policies::overload_option(c, o),
        OverloadConfig::none(),
        front,
        o,
    );
}

/// A line of an `overload` block sets the limit that it names, and no other.
pub proof fn an_overload_line_sets_the_limit_it_names(
    d: DirectiveV,
    front: Seq<DirectiveV>,
    c: OverloadConfig,
    n: usize,
    t: Seq<char>,
    ms: u64,
)
    requires
        policies::overload_policy(with_block(d, front)) == Ok::<OverloadConfig, ErrorV>(c),
        n > 0,
        duration::millis(t) == Some(ms),
        0 < ms <= args::LONGEST_MS,
    ensures
        policies::overload_policy(
            with_block(d, front.push(line("max_in_flight"@, seq![text::shown(n as nat)]))),
        ) == Ok::<OverloadConfig, ErrorV>(
            OverloadConfig { max_in_flight: Some(n), ..c },
        ),
        policies::overload_policy(
            with_block(d, front.push(line("max_pending"@, seq![text::shown(n as nat)]))),
        ) == Ok::<OverloadConfig, ErrorV>(
            OverloadConfig { max_pending: Some(n), ..c },
        ),
        policies::overload_policy(
            with_block(d, front.push(line("pending_timeout"@, seq![t]))),
        ) == Ok::<OverloadConfig, ErrorV>(
            OverloadConfig { pending_timeout_ms: Some(ms), ..c },
        ),
        policies::overload_policy(
            with_block(
                d,
                front.push(line("upstream_max_connections"@, seq![text::shown(n as nat)])),
            ),
        ) == Ok::<OverloadConfig, ErrorV>(
            OverloadConfig { upstream_max_connections: Some(n), ..c },
        ),
{
    reveal_strlit("max_in_flight");
    reveal_strlit("max_pending");
    reveal_strlit("pending_timeout");
    reveal_strlit("upstream_max_connections");
    assert("max_in_flight"@.len() == 13);
    assert("max_pending"@.len() == 11);
    assert("pending_timeout"@.len() == 15);
    assert("upstream_max_connections"@.len() == 24);
    text::a_shown_number_reads_back(n as nat);
    assert(text::number(text::shown(n as nat), u64::MAX as nat) == Some(n as nat));
    lemma_overload_line(d, front, c, line("max_in_flight"@, seq![text::shown(n as nat)]));
    lemma_overload_line(d, front, c, line("max_pending"@, seq![text::shown(n as nat)]));
    lemma_overload_line(d, front, c, line("pending_timeout"@, seq![t]));
    lemma_overload_line(
        d,
        front,
        c,
        line("upstream_max_connections"@, seq![text::shown(n as nat)]),
    );
}

/// One limit is enough, and the block then sets that limit alone; a time to wait is none.
pub proof fn one_limit_is_enough(d: DirectiveV, n: usize, t: Seq<char>)
    requires
        d.args.len() == 0,
        n > 0,
    ensures
        policies::overload_policy(
            with_block(d, seq![line("max_in_flight"@, seq![text::shown(n as nat)])]),
        ) == Ok::<OverloadConfig, ErrorV>(
            OverloadConfig { max_in_flight: Some(n), ..OverloadConfig::none() },
        ),
        policies::overload_policy(
            with_block(d, seq![line("max_pending"@, seq![text::shown(n as nat)])]),
        ) == Ok::<OverloadConfig, ErrorV>(
            OverloadConfig { max_pending: Some(n), ..OverloadConfig::none() },
        ),
        policies::overload_policy(
            with_block(d, seq![line("upstream_max_connections"@, seq![text::shown(n as nat)])]),
        ) == Ok::<OverloadConfig, ErrorV>(
            OverloadConfig { upstream_max_connections: Some(n), ..OverloadConfig::none() },
        ),
        policies::overload_policy(with_block(d, seq![line("pending_timeout"@, seq![t])])) is Err,
{
    reveal_strlit("max_in_flight");
    reveal_strlit("max_pending");
    reveal_strlit("pending_timeout");
    reveal_strlit("upstream_max_connections");
    assert("max_in_flight"@.len() == 13);
    assert("max_pending"@.len() == 11);
    assert("pending_timeout"@.len() == 15);
    assert("upstream_max_connections"@.len() == 24);
    text::a_shown_number_reads_back(n as nat);
    assert(text::number(text::shown(n as nat), u64::MAX as nat) == Some(n as nat));
    let step = |c: OverloadConfig, o: DirectiveV| policies::overload_option(c, o);
    fold::a_lone_directive_is_read_by_itself(
        step,
        OverloadConfig::none(),
        line("max_in_flight"@, seq![text::shown(n as nat)]),
    );
    fold::a_lone_directive_is_read_by_itself(
        step,
        OverloadConfig::none(),
        line("max_pending"@, seq![text::shown(n as nat)]),
    );
    fold::a_lone_directive_is_read_by_itself(
        step,
        OverloadConfig::none(),
        line("upstream_max_connections"@, seq![text::shown(n as nat)]),
    );
    fold::a_lone_directive_is_read_by_itself(
        step,
        OverloadConfig::none(),
        line("pending_timeout"@, seq![t]),
    );
}

// ---------------------------------------------------------------------------
// circuit_breaker
// ---------------------------------------------------------------------------
proof fn lemma_breaker_line(
    d: DirectiveV,
    front: Seq<DirectiveV>,
    c: CircuitBreakerConfigV,
    o: DirectiveV,
)
    requires
        policies::breaker_policy(with_block(d, front)) == Ok::<CircuitBreakerConfigV, ErrorV>(c),
    ensures
        c.consecutive_failures is Some || c.error_rate_percent is Some,
        policies::breaker_option(c, o) matches Ok(n) ==> (n.consecutive_failures is Some
            || n.error_rate_percent is Some ==> policies::breaker_policy(
            with_block(d, front.push(o)),
        ) == Ok::<CircuitBreakerConfigV, ErrorV>(n)),
{
    fold::a_last_directive_is_read_last(
        |c: CircuitBreakerConfigV, o: DirectiveV| policies::breaker_option(c, o),
        CircuitBreakerConfigV::unset(),
        front,
        o,
    );
}

/// A line of a `circuit_breaker` block sets what it names: what trips the breaker, over how many
/// requests, for how long it stays open, and what is let through then.
#[verifier::rlimit(40)]
pub proof fn a_breaker_line_sets_what_it_names(
    d: DirectiveV,
    front: Seq<DirectiveV>,
    c: CircuitBreakerConfigV,
    n: usize,
    k: u32,
    percent: u8,
    t: Seq<char>,
    ms: u64,
    list: Seq<u16>,
)
    requires
        policies::breaker_policy(with_block(d, front)) == Ok::<CircuitBreakerConfigV, ErrorV>(c),
        n > 0,
        k > 0,
        percent > 0,
        list.len() > 0,
        duration::millis(t) == Some(ms),
        0 < ms <= args::LONGEST_MS,
    ensures
        policies::breaker_policy(
            with_block(d, front.push(line("consecutive_failures"@, seq![text::shown(k as nat)]))),
        ) == Ok::<CircuitBreakerConfigV, ErrorV>(
            CircuitBreakerConfigV { consecutive_failures: Some(k), ..c },
        ),
        policies::breaker_policy(
            with_block(
                d,
                front.push(line("error_rate_percent"@, seq![text::shown(percent as nat)])),
            ),
        ) == Ok::<CircuitBreakerConfigV, ErrorV>(
            CircuitBreakerConfigV { error_rate_percent: Some(percent), ..c },
        ),
        policies::breaker_policy(
            with_block(d, front.push(line("minimum_requests"@, seq![text::shown(n as nat)]))),
        ) == Ok::<CircuitBreakerConfigV, ErrorV>(
            CircuitBreakerConfigV { minimum_requests: Some(n), ..c },
        ),
        policies::breaker_policy(
            with_block(d, front.push(line("window_requests"@, seq![text::shown(n as nat)]))),
        ) == Ok::<CircuitBreakerConfigV, ErrorV>(
            CircuitBreakerConfigV { window_requests: Some(n), ..c },
        ),
        policies::breaker_policy(
            with_block(d, front.push(line("open_for"@, seq![t]))),
        ) == Ok::<CircuitBreakerConfigV, ErrorV>(
            CircuitBreakerConfigV { open_duration_ms: Some(ms), ..c },
        ),
        policies::breaker_policy(
            with_block(d, front.push(line("half_open_requests"@, seq![text::shown(n as nat)]))),
        ) == Ok::<CircuitBreakerConfigV, ErrorV>(
            CircuitBreakerConfigV { half_open_requests: Some(n), ..c },
        ),
        policies::breaker_policy(
            with_block(d, front.push(line("failure_statuses"@, written_codes(list)))),
        ) == Ok::<CircuitBreakerConfigV, ErrorV>(
            CircuitBreakerConfigV { failure_statuses: Some(list), ..c },
        ),
{
    reveal_strlit("consecutive_failures");
    reveal_strlit("error_rate_percent");
    reveal_strlit("minimum_requests");
    reveal_strlit("window_requests");
    reveal_strlit("open_for");
    reveal_strlit("half_open_requests");
    reveal_strlit("failure_statuses");
    assert("consecutive_failures"@.len() == 20);
    assert("error_rate_percent"@.len() == 18 && "error_rate_percent"@[0] == 'e');
    assert("minimum_requests"@.len() == 16 && "minimum_requests"@[0] == 'm');
    assert("window_requests"@.len() == 15);
    assert("open_for"@.len() == 8);
    assert("half_open_requests"@.len() == 18 && "half_open_requests"@[0] == 'h');
    assert("failure_statuses"@.len() == 16 && "failure_statuses"@[0] == 'f');
    text::a_shown_number_reads_back(n as nat);
    assert(text::number(text::shown(n as nat), u64::MAX as nat) == Some(n as nat));
    text::a_shown_number_reads_back(k as nat);
    assert(text::number(text::shown(k as nat), u64::MAX as nat) == Some(k as nat));
    text::a_shown_number_reads_back(percent as nat);
    assert(text::number(text::shown(percent as nat), u64::MAX as nat) == Some(percent as nat));
    written_codes_are_read_back("failure_statuses"@, list);
    lemma_breaker_line(d, front, c, line("consecutive_failures"@, seq![text::shown(k as nat)]));
    lemma_breaker_line(d, front, c, line("error_rate_percent"@, seq![text::shown(percent as nat)]));
    lemma_breaker_line(d, front, c, line("minimum_requests"@, seq![text::shown(n as nat)]));
    lemma_breaker_line(d, front, c, line("window_requests"@, seq![text::shown(n as nat)]));
    lemma_breaker_line(d, front, c, line("open_for"@, seq![t]));
    lemma_breaker_line(d, front, c, line("half_open_requests"@, seq![text::shown(n as nat)]));
    lemma_breaker_line(d, front, c, line("failure_statuses"@, written_codes(list)));
}

/// A breaker needs something that trips it, and one such thing is enough.
pub proof fn a_breaker_needs_something_that_trips_it(
    d: DirectiveV,
    n: usize,
    k: u32,
    percent: u8,
)
    requires
        d.args.len() == 0,
        n > 0,
        k > 0,
        percent > 0,
    ensures
        policies::breaker_policy(
            with_block(d, seq![line("consecutive_failures"@, seq![text::shown(k as nat)])]),
        ) == Ok::<CircuitBreakerConfigV, ErrorV>(
            CircuitBreakerConfigV {
                consecutive_failures: Some(k),
                ..CircuitBreakerConfigV::unset()
            },
        ),
        policies::breaker_policy(
            with_block(d, seq![line("error_rate_percent"@, seq![text::shown(percent as nat)])]),
        ) == Ok::<CircuitBreakerConfigV, ErrorV>(
            CircuitBreakerConfigV {
                error_rate_percent: Some(percent),
                ..CircuitBreakerConfigV::unset()
            },
        ),
        policies::breaker_policy(
            with_block(d, seq![line("minimum_requests"@, seq![text::shown(n as nat)])]),
        ) is Err,
        policies::breaker_policy(with_block(d, Seq::empty())) is Err,
{
    reveal_strlit("consecutive_failures");
    reveal_strlit("error_rate_percent");
    reveal_strlit("minimum_requests");
    assert("consecutive_failures"@.len() == 20);
    assert("error_rate_percent"@.len() == 18);
    assert("minimum_requests"@.len() == 16);
    text::a_shown_number_reads_back(k as nat);
    assert(text::number(text::shown(k as nat), u64::MAX as nat) == Some(k as nat));
    text::a_shown_number_reads_back(percent as nat);
    assert(text::number(text::shown(percent as nat), u64::MAX as nat) == Some(percent as nat));
    text::a_shown_number_reads_back(n as nat);
    assert(text::number(text::shown(n as nat), u64::MAX as nat) == Some(n as nat));
    let step = |c: CircuitBreakerConfigV, o: DirectiveV| policies::breaker_option(c, o);
    let start = CircuitBreakerConfigV::unset();
    fold::a_lone_directive_is_read_by_itself(
        step,
        start,
        line("consecutive_failures"@, seq![text::shown(k as nat)]),
    );
    fold::a_lone_directive_is_read_by_itself(
        step,
        start,
        line("error_rate_percent"@, seq![text::shown(percent as nat)]),
    );
    fold::a_lone_directive_is_read_by_itself(
        step,
        start,
        line("minimum_requests"@, seq![text::shown(n as nat)]),
    );
}

} // verus!
