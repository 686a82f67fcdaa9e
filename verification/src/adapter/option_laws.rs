//! What the global options mean.

use crate::adapter::args;
use crate::adapter::handler_laws;
use crate::adapter::logs;
use crate::adapter::options;
use crate::adapter::options::{ChainsDraftV, MetricsScope};
use crate::adapter::profile::Profile;
use crate::ast::log::{LogBlockV, LoggingBlockV};
use crate::ast::options::{
    AdminDirectiveV, AutoHttpsMode, DnsProviderV, MetricsOptions, PreferredChainsV, Protocol,
};
use crate::ast::tree::GlobalBlockV;
use crate::decimal;
use crate::duration;
use crate::error::ErrorV;
use crate::fold;
use crate::ip;
use crate::syntax::{line, with_block, DirectiveV};
use crate::text;
use vstd::prelude::*;

verus! {

// ---------------------------------------------------------------------------
// One more option
// ---------------------------------------------------------------------------
proof fn lemma_option(
    profile: Profile,
    d: DirectiveV,
    front: Seq<DirectiveV>,
    c: GlobalBlockV,
    o: DirectiveV,
)
    requires
        options::global_block(profile, with_block(d, front)) == Ok::<GlobalBlockV, ErrorV>(c),
        o.name != "servers"@,
    ensures
        options::global_block(profile, with_block(d, front.push(o))) == options::global_option_line(
            profile,
            c,
            o,
        ),
{
    let lift = |held: Seq<DirectiveV>, o: DirectiveV| options::lifted(profile, held, o);
    let step = |c: GlobalBlockV, o: DirectiveV| options::global_option_line(profile, c, o);
    fold::a_last_directive_is_read_last(lift, Seq::empty(), front, o);
    let flat = options::flattened(profile, front)->Ok_0;
    fold::a_last_directive_is_read_last(step, GlobalBlockV::unset(), flat, o);
}

/// An option inside a `servers` block says what it says outside.
pub proof fn a_servers_block_can_be_taken_away(
    d: DirectiveV,
    front: Seq<DirectiveV>,
    o: DirectiveV,
)
    requires
        o.name != "servers"@,
        options::flattened(Profile::Core, front) is Ok,
    ensures
        options::global_block(
            Profile::Core,
            with_block(d, front.push(with_block(line("servers"@, Seq::empty()), seq![o]))),
        ) == options::global_block(Profile::Core, with_block(d, front.push(o))),
{
    let lift = |held: Seq<DirectiveV>, o: DirectiveV| options::lifted(Profile::Core, held, o);
    let s = with_block(line("servers"@, Seq::empty()), seq![o]);
    fold::a_last_directive_is_read_last(lift, Seq::empty(), front, o);
    fold::a_last_directive_is_read_last(lift, Seq::empty(), front, s);
    let flat = options::flattened(Profile::Core, front)->Ok_0;
    assert(flat + seq![o] =~= flat.push(o));
}

// ---------------------------------------------------------------------------
// Options of every profile
// ---------------------------------------------------------------------------
/// A global option sets what it names: whether to debug, the address of the operator, and the ports of
/// the two schemes.
#[verifier::rlimit(40)]
pub proof fn an_option_sets_what_it_names(
    profile: Profile,
    d: DirectiveV,
    front: Seq<DirectiveV>,
    c: GlobalBlockV,
    v: Seq<char>,
    port: u16,
)
    requires
        options::global_block(profile, with_block(d, front)) == Ok::<GlobalBlockV, ErrorV>(c),
    ensures
        options::global_block(
            profile,
            with_block(d, front.push(line("debug"@, Seq::empty()))),
        ) == Ok::<GlobalBlockV, ErrorV>(
            GlobalBlockV { debug: Some(true), ..c },
        ),
        options::global_block(
            profile,
            with_block(d, front.push(line("email"@, seq![v]))),
        ) == Ok::<GlobalBlockV, ErrorV>(
            GlobalBlockV { email: Some(v), ..c },
        ),
        options::global_block(
            profile,
            with_block(d, front.push(line("http_port"@, seq![text::shown(port as nat)]))),
        ) == Ok::<GlobalBlockV, ErrorV>(
            GlobalBlockV { http_port: Some(port), ..c },
        ),
        options::global_block(
            profile,
            with_block(d, front.push(line("https_port"@, seq![text::shown(port as nat)]))),
        ) == Ok::<GlobalBlockV, ErrorV>(
            GlobalBlockV { https_port: Some(port), ..c },
        ),
{
    reveal_strlit("servers");
    reveal_strlit("debug");
    reveal_strlit("email");
    reveal_strlit("http_port");
    reveal_strlit("https_port");
    reveal_strlit("metrics");
    reveal_strlit("auto_https");
    reveal_strlit("admin");
    reveal_strlit("trusted_proxies");
    reveal_strlit("dns_refresh");
    reveal_strlit("protocols");
    assert("servers"@.len() == 7 && "servers"@[0] == 's');
    assert("debug"@.len() == 5 && "debug"@[0] == 'd');
    assert("email"@.len() == 5 && "email"@[0] == 'e');
    assert("http_port"@.len() == 9 && "http_port"@[0] == 'h');
    assert("https_port"@.len() == 10 && "https_port"@[0] == 'h');
    assert("metrics"@.len() == 7 && "metrics"@[0] == 'm');
    assert("auto_https"@.len() == 10 && "auto_https"@[0] == 'a');
    assert("admin"@.len() == 5 && "admin"@[0] == 'a');
    assert("trusted_proxies"@.len() == 15);
    assert("dns_refresh"@.len() == 11);
    assert("protocols"@.len() == 9 && "protocols"@[0] == 'p');
    handler_laws::lemma_code(port);
    lemma_option(profile, d, front, c, line("debug"@, Seq::empty()));
    lemma_option(profile, d, front, c, line("email"@, seq![v]));
    lemma_option(profile, d, front, c, line("http_port"@, seq![text::shown(port as nat)]));
    lemma_option(profile, d, front, c, line("https_port"@, seq![text::shown(port as nat)]));
}

/// The word for a way of automating HTTPS.
pub open spec fn automation_word(mode: AutoHttpsMode) -> Seq<char> {
    match mode {
        AutoHttpsMode::On => "on"@,
        AutoHttpsMode::Off => "off"@,
        AutoHttpsMode::DisableRedirects => "disable_redirects"@,
    }
}

/// `auto_https` is automated in the way whose word is written, and in no other.
pub proof fn https_is_automated_as_the_word_says(
    name: Seq<char>,
    word: Seq<char>,
    mode: AutoHttpsMode,
)
    ensures
        options::automation(line(name, seq![word])) == Ok::<AutoHttpsMode, ErrorV>(mode) <==> word
            == automation_word(mode),
{
    reveal_strlit("on");
    reveal_strlit("off");
    reveal_strlit("disable_redirects");
    reveal_strlit("disable_certs");
    reveal_strlit("ignore_loaded_certs");
    assert("on"@.len() == 2);
    assert("off"@.len() == 3);
    assert("disable_redirects"@.len() == 17);
    assert("disable_certs"@.len() == 13);
    assert("ignore_loaded_certs"@.len() == 19);
}

/// The word for a version of HTTP.
pub open spec fn protocol_word(p: Protocol) -> Seq<char> {
    match p {
        Protocol::H1 => "h1"@,
        Protocol::H2 => "h2"@,
        Protocol::H3 => "h3"@,
    }
}

/// A version of HTTP is named by its word, in any case.
pub proof fn a_protocol_is_named_by_its_word(word: Seq<char>, p: Protocol)
    ensures
        options::protocol(word) == Ok::<Protocol, ErrorV>(p) <==> text::lowercase(word)
            == protocol_word(p),
{
    reveal_strlit("h1");
    reveal_strlit("h2");
    reveal_strlit("h3");
    assert("h1"@.len() == 2 && "h1"@[1] == '1');
    assert("h2"@.len() == 2 && "h2"@[1] == '2');
    assert("h3"@.len() == 2 && "h3"@[1] == '3');
}

proof fn lemma_protocols(words: Seq<Seq<char>>, list: Seq<Protocol>)
    requires
        words.len() == list.len(),
        forall|i: int|
            0 <= i < list.len() ==> text::lowercase(#[trigger] words[i]) == protocol_word(list[i]),
    ensures
        fold::each(|word: Seq<char>| options::protocol(word), words) == Ok::<
            Seq<Protocol>,
            ErrorV,
        >(list),
    decreases words.len(),
{
    if words.len() == 0 {
        assert(list =~= Seq::empty());
    } else {
        let n = words.len() - 1;
        lemma_protocols(words.drop_last(), list.drop_last());
        assert(words.last() == words[n]);
        a_protocol_is_named_by_its_word(words[n], list[n]);
        assert(list.drop_last().push(list[n]) =~= list);
    }
}

proof fn lemma_trusted(list: Seq<Seq<char>>)
    requires
        forall|i: int| 0 <= i < list.len() ==> ip::literal(#[trigger] list[i]) is Some,
    ensures
        fold::each(
            |rule: Seq<char>| options::proxy_rule(rule, options::ip_network(rule)),
            list,
        ) == Ok::<Seq<Seq<char>>, ErrorV>(list),
    decreases list.len(),
{
    if list.len() == 0 {
        assert(list =~= Seq::empty());
    } else {
        lemma_trusted(list.drop_last());
        assert(list.last() == list[list.len() - 1]);
        assert(list.drop_last().push(list.last()) =~= list);
    }
}

/// Versions and trusted proxies are added to those before, in their order.
#[verifier::rlimit(40)]
pub proof fn an_option_adds_what_it_lists(
    profile: Profile,
    d: DirectiveV,
    front: Seq<DirectiveV>,
    c: GlobalBlockV,
    words: Seq<Seq<char>>,
    list: Seq<Protocol>,
    proxies: Seq<Seq<char>>,
)
    requires
        options::global_block(profile, with_block(d, front)) == Ok::<GlobalBlockV, ErrorV>(c),
        words.len() == list.len(),
        forall|i: int|
            0 <= i < list.len() ==> text::lowercase(#[trigger] words[i]) == protocol_word(list[i]),
        proxies.len() > 0,
        forall|i: int| 0 <= i < proxies.len() ==> ip::literal(#[trigger] proxies[i]) is Some,
    ensures
        options::global_block(
            profile,
            with_block(d, front.push(line("protocols"@, words))),
        ) == Ok::<GlobalBlockV, ErrorV>(
            GlobalBlockV { protocols: c.protocols + list, ..c },
        ),
        options::global_block(
            profile,
            with_block(d, front.push(line("trusted_proxies"@, proxies))),
        ) == Ok::<GlobalBlockV, ErrorV>(
            GlobalBlockV { trusted_proxies: c.trusted_proxies + proxies, ..c },
        ),
{
    reveal_strlit("servers");
    reveal_strlit("debug");
    reveal_strlit("email");
    reveal_strlit("http_port");
    reveal_strlit("https_port");
    reveal_strlit("metrics");
    reveal_strlit("auto_https");
    reveal_strlit("admin");
    reveal_strlit("trusted_proxies");
    reveal_strlit("dns_refresh");
    reveal_strlit("protocols");
    assert("servers"@.len() == 7 && "servers"@[0] == 's');
    assert("debug"@.len() == 5 && "debug"@[0] == 'd');
    assert("email"@.len() == 5 && "email"@[0] == 'e');
    assert("http_port"@.len() == 9 && "http_port"@[0] == 'h');
    assert("https_port"@.len() == 10 && "https_port"@[0] == 'h');
    assert("metrics"@.len() == 7 && "metrics"@[0] == 'm');
    assert("auto_https"@.len() == 10 && "auto_https"@[0] == 'a');
    assert("admin"@.len() == 5 && "admin"@[0] == 'a');
    assert("trusted_proxies"@.len() == 15);
    assert("dns_refresh"@.len() == 11);
    assert("protocols"@.len() == 9 && "protocols"@[0] == 'p');
    lemma_protocols(words, list);
    lemma_trusted(proxies);
    lemma_option(profile, d, front, c, line("protocols"@, words));
    lemma_option(profile, d, front, c, line("trusted_proxies"@, proxies));
}

/// `dns_refresh` is an interval of at least a second, in whole seconds; `off` and `none` are none.
#[verifier::rlimit(40)]
pub proof fn names_are_resolved_anew_as_written(
    profile: Profile,
    d: DirectiveV,
    front: Seq<DirectiveV>,
    c: GlobalBlockV,
    t: Seq<char>,
    ms: u64,
    word: Seq<char>,
)
    requires
        options::global_block(profile, with_block(d, front)) == Ok::<GlobalBlockV, ErrorV>(c),
        duration::millis(t) == Some(ms),
        ms >= 1_000,
        text::lower(t) != "off"@ && text::lower(t) != "none"@,
        text::lower(word) == "off"@ || text::lower(word) == "none"@,
    ensures
        options::global_block(
            profile,
            with_block(d, front.push(line("dns_refresh"@, seq![t]))),
        ) == Ok::<GlobalBlockV, ErrorV>(
            GlobalBlockV { dns_refresh_secs: Some((ms / 1_000) as u64), ..c },
        ),
        options::global_block(
            profile,
            with_block(d, front.push(line("dns_refresh"@, seq![word]))),
        ) == Ok::<GlobalBlockV, ErrorV>(
            GlobalBlockV { dns_refresh_secs: Some(0), ..c },
        ),
{
    reveal_strlit("servers");
    reveal_strlit("debug");
    reveal_strlit("email");
    reveal_strlit("http_port");
    reveal_strlit("https_port");
    reveal_strlit("metrics");
    reveal_strlit("auto_https");
    reveal_strlit("admin");
    reveal_strlit("trusted_proxies");
    reveal_strlit("dns_refresh");
    reveal_strlit("protocols");
    assert("servers"@.len() == 7 && "servers"@[0] == 's');
    assert("debug"@.len() == 5 && "debug"@[0] == 'd');
    assert("email"@.len() == 5 && "email"@[0] == 'e');
    assert("http_port"@.len() == 9 && "http_port"@[0] == 'h');
    assert("https_port"@.len() == 10 && "https_port"@[0] == 'h');
    assert("metrics"@.len() == 7 && "metrics"@[0] == 'm');
    assert("auto_https"@.len() == 10 && "auto_https"@[0] == 'a');
    assert("admin"@.len() == 5 && "admin"@[0] == 'a');
    assert("trusted_proxies"@.len() == 15);
    assert("dns_refresh"@.len() == 11);
    assert("protocols"@.len() == 9 && "protocols"@[0] == 'p');
    lemma_option(profile, d, front, c, line("dns_refresh"@, seq![t]));
    lemma_option(profile, d, front, c, line("dns_refresh"@, seq![word]));
}

/// The way of automating HTTPS and the endpoint of the operator are those that are written.
#[verifier::rlimit(40)]
pub proof fn an_option_block_configures_what_it_is_named_after(
    profile: Profile,
    d: DirectiveV,
    front: Seq<DirectiveV>,
    c: GlobalBlockV,
    word: Seq<char>,
    mode: AutoHttpsMode,
    admin: DirectiveV,
    endpoint: AdminDirectiveV,
)
    requires
        options::global_block(profile, with_block(d, front)) == Ok::<GlobalBlockV, ErrorV>(c),
        word == automation_word(mode),
        admin.name == "admin"@,
        options::admin(profile, admin) == Ok::<AdminDirectiveV, ErrorV>(endpoint),
    ensures
        options::global_block(
            profile,
            with_block(d, front.push(line("auto_https"@, seq![word]))),
        ) == Ok::<GlobalBlockV, ErrorV>(
            GlobalBlockV { auto_https: Some(mode), ..c },
        ),
        options::global_block(
            profile,
            with_block(d, front.push(admin)),
        ) == Ok::<GlobalBlockV, ErrorV>(
            GlobalBlockV { admin: Some(endpoint), ..c },
        ),
{
    reveal_strlit("servers");
    reveal_strlit("debug");
    reveal_strlit("email");
    reveal_strlit("http_port");
    reveal_strlit("https_port");
    reveal_strlit("metrics");
    reveal_strlit("auto_https");
    reveal_strlit("admin");
    reveal_strlit("trusted_proxies");
    reveal_strlit("dns_refresh");
    reveal_strlit("protocols");
    assert("servers"@.len() == 7 && "servers"@[0] == 's');
    assert("debug"@.len() == 5 && "debug"@[0] == 'd');
    assert("email"@.len() == 5 && "email"@[0] == 'e');
    assert("http_port"@.len() == 9 && "http_port"@[0] == 'h');
    assert("https_port"@.len() == 10 && "https_port"@[0] == 'h');
    assert("metrics"@.len() == 7 && "metrics"@[0] == 'm');
    assert("auto_https"@.len() == 10 && "auto_https"@[0] == 'a');
    assert("admin"@.len() == 5 && "admin"@[0] == 'a');
    assert("trusted_proxies"@.len() == 15);
    assert("dns_refresh"@.len() == 11);
    assert("protocols"@.len() == 9 && "protocols"@[0] == 'p');
    https_is_automated_as_the_word_says("auto_https"@, word, mode);
    lemma_option(profile, d, front, c, line("auto_https"@, seq![word]));
    lemma_option(profile, d, front, c, admin);
}

/// `metrics` switches counting on, and a line of its block what it names.
#[verifier::rlimit(40)]
pub proof fn metrics_are_counted_as_written(
    d: DirectiveV,
    front: Seq<DirectiveV>,
    c: GlobalBlockV,
)
    requires
        options::global_block(
            Profile::Extended,
            with_block(d, front),
        ) == Ok::<GlobalBlockV, ErrorV>(c),
    ensures
        options::global_block(
            Profile::Extended,
            with_block(d, front.push(line("metrics"@, Seq::empty()))),
        ) == Ok::<GlobalBlockV, ErrorV>(
            GlobalBlockV { metrics: Some(true), ..c },
        ),
        options::global_block(
            Profile::Extended,
            with_block(
                d,
                front.push(
                    with_block(
                        line("metrics"@, Seq::empty()),
                        seq![line("per_host"@, Seq::empty())],
                    ),
                ),
            ),
        ) == Ok::<GlobalBlockV, ErrorV>(
            GlobalBlockV { metrics: Some(true),
                metrics_options: MetricsOptions { per_host: true, ..c.metrics_options }, ..c },
        ),
        options::global_block(
            Profile::Extended,
            with_block(
                d,
                front.push(
                    with_block(
                        line("metrics"@, Seq::empty()),
                        seq![line("observe_catchall_hosts"@, Seq::empty())],
                    ),
                ),
            ),
        ) == Ok::<GlobalBlockV, ErrorV>(
            GlobalBlockV { metrics: Some(true),
                metrics_options: MetricsOptions { observe_catchall_hosts: true, ..c.metrics_options }, ..c },
        ),
        options::global_block(
            Profile::Extended,
            with_block(
                d,
                front.push(
                    with_block(line("metrics"@, Seq::empty()), seq![line("otlp"@, Seq::empty())]),
                ),
            ),
        ) == Ok::<GlobalBlockV, ErrorV>(
            GlobalBlockV { metrics: Some(true),
                metrics_options: MetricsOptions { otlp: true, ..c.metrics_options }, ..c },
        ),
{
    reveal_strlit("servers");
    reveal_strlit("debug");
    reveal_strlit("email");
    reveal_strlit("http_port");
    reveal_strlit("https_port");
    reveal_strlit("metrics");
    reveal_strlit("auto_https");
    reveal_strlit("admin");
    reveal_strlit("trusted_proxies");
    reveal_strlit("dns_refresh");
    reveal_strlit("protocols");
    reveal_strlit("per_host");
    reveal_strlit("observe_catchall_hosts");
    reveal_strlit("otlp");
    assert("servers"@.len() == 7 && "servers"@[0] == 's');
    assert("debug"@.len() == 5 && "debug"@[0] == 'd');
    assert("email"@.len() == 5 && "email"@[0] == 'e');
    assert("http_port"@.len() == 9 && "http_port"@[0] == 'h');
    assert("https_port"@.len() == 10 && "https_port"@[0] == 'h');
    assert("metrics"@.len() == 7 && "metrics"@[0] == 'm');
    assert("auto_https"@.len() == 10 && "auto_https"@[0] == 'a');
    assert("admin"@.len() == 5 && "admin"@[0] == 'a');
    assert("trusted_proxies"@.len() == 15);
    assert("dns_refresh"@.len() == 11);
    assert("protocols"@.len() == 9 && "protocols"@[0] == 'p');
    assert("per_host"@.len() == 8);
    assert("observe_catchall_hosts"@.len() == 22);
    assert("otlp"@.len() == 4);
    lemma_metrics(line("per_host"@, Seq::empty()));
    lemma_metrics(line("observe_catchall_hosts"@, Seq::empty()));
    lemma_metrics(line("otlp"@, Seq::empty()));
    lemma_option(Profile::Extended, d, front, c, line("metrics"@, Seq::empty()));
    lemma_option(
        Profile::Extended,
        d,
        front,
        c,
        with_block(line("metrics"@, Seq::empty()), seq![line("per_host"@, Seq::empty())]),
    );
    lemma_option(
        Profile::Extended,
        d,
        front,
        c,
        with_block(
            line("metrics"@, Seq::empty()),
            seq![line("observe_catchall_hosts"@, Seq::empty())],
        ),
    );
    lemma_option(
        Profile::Extended,
        d,
        front,
        c,
        with_block(line("metrics"@, Seq::empty()), seq![line("otlp"@, Seq::empty())]),
    );
}

/// A block of one line is read as that line is.
proof fn lemma_metrics(o: DirectiveV)
    ensures
        options::metrics(MetricsScope::Global, seq![o]) == options::metrics_option(
            MetricsScope::Global,
            MetricsOptions::none(),
            o,
        ),
{
    fold::a_lone_directive_is_read_by_itself(
        |c: MetricsOptions, o: DirectiveV| options::metrics_option(MetricsScope::Global, c, o),
        MetricsOptions::none(),
        o,
    );
}

/// The endpoint of the operator listens where it is told to, or on the local host; a second word is
/// its key, and `off` switches it off.
pub proof fn the_endpoint_listens_where_it_is_told_to(
    profile: Profile,
    name: Seq<char>,
    address: Seq<char>,
    key: Seq<char>,
)
    requires
        address != "off"@,
    ensures
        options::admin(profile, line(name, seq![address])) matches Ok(c) && (c.enabled && c.listen
            == address && c.api_key is None && c.origins.len() == 0 && !c.enforce_origin),
        options::admin(profile, line(name, seq![address, key])) matches Ok(c) && (c.enabled
            && c.listen == address && c.api_key == Some(key) && c.origins.len() == 0
            && !c.enforce_origin),
        options::admin(profile, line(name, seq!["off"@])) matches Ok(c) && !c.enabled,
        options::admin(Profile::Extended, line(name, Seq::empty())) matches Ok(c) && (c.enabled
            && c.listen == "127.0.0.1:2019"@ && c.api_key is None),
{
}

/// A line of an `admin` block sets what it names.
pub proof fn an_admin_line_sets_what_it_names(
    d: DirectiveV,
    front: Seq<DirectiveV>,
    c: AdminDirectiveV,
    list: Seq<Seq<char>>,
)
    requires
        options::admin(Profile::Extended, with_block(d, front)) == Ok::<AdminDirectiveV, ErrorV>(c),
        d.args.len() == 0 || d.args[0] != "off"@,
        list.len() > 0,
    ensures
        options::admin(
            Profile::Extended,
            with_block(d, front.push(line("origins"@, list))),
        ) == Ok::<AdminDirectiveV, ErrorV>(AdminDirectiveV { origins: c.origins + list, ..c }),
        options::admin(
            Profile::Extended,
            with_block(d, front.push(line("enforce_origin"@, Seq::empty()))),
        ) == Ok::<AdminDirectiveV, ErrorV>(AdminDirectiveV { enforce_origin: true, ..c }),
{
    reveal_strlit("origins");
    reveal_strlit("enforce_origin");
    assert("origins"@.len() == 7);
    assert("enforce_origin"@.len() == 14);
    let step = |c: AdminDirectiveV, o: DirectiveV| options::admin_option(c, o);
    let start = options::admin_line(d.args);
    fold::a_last_directive_is_read_last(step, start, front, line("origins"@, list));
    fold::a_last_directive_is_read_last(
        step,
        start,
        front,
        line("enforce_origin"@, Seq::empty()),
    );
}

// ---------------------------------------------------------------------------
// Options of the extended profile
// ---------------------------------------------------------------------------
/// An option of the extended profile sets what it names: whether certificates are local, trusted or
/// kept, and how long the server waits before it stops, in seconds that have begun.
#[verifier::rlimit(60)]
pub proof fn a_refined_option_sets_what_it_names(
    d: DirectiveV,
    front: Seq<DirectiveV>,
    c: GlobalBlockV,
    t: Seq<char>,
    ms: u64,
    v: Seq<char>,
)
    requires
        options::global_block(
            Profile::Extended,
            with_block(d, front),
        ) == Ok::<GlobalBlockV, ErrorV>(c),
        duration::millis(t) == Some(ms),
        0 < ms <= args::LONGEST_MS,
    ensures
        options::global_block(
            Profile::Extended,
            with_block(d, front.push(line("grace_period"@, seq![t]))),
        ) == Ok::<GlobalBlockV, ErrorV>(
            GlobalBlockV { grace_period_secs: Some(((ms + 999) / 1_000) as u64), ..c },
        ),
        options::global_block(
            Profile::Extended,
            with_block(d, front.push(line("local_certs"@, Seq::empty()))),
        ) == Ok::<GlobalBlockV, ErrorV>(
            GlobalBlockV { local_certs: true, ..c },
        ),
        options::global_block(
            Profile::Extended,
            with_block(d, front.push(line("persist_config"@, seq!["off"@]))),
        ) == Ok::<GlobalBlockV, ErrorV>(
            GlobalBlockV { persist_config_off: true, ..c },
        ),
        options::global_block(
            Profile::Extended,
            with_block(d, front.push(line("skip_install_trust"@, Seq::empty()))),
        ) == Ok::<GlobalBlockV, ErrorV>(
            GlobalBlockV { skip_install_trust: true, ..c },
        ),
        options::global_block(
            Profile::Extended,
            with_block(d, front.push(line("default_sni"@, seq![v]))),
        ) == Ok::<GlobalBlockV, ErrorV>(
            GlobalBlockV { default_sni: Some(v), ..c },
        ),
{
    reveal_strlit("servers");
    reveal_strlit("debug");
    reveal_strlit("email");
    reveal_strlit("http_port");
    reveal_strlit("https_port");
    reveal_strlit("metrics");
    reveal_strlit("auto_https");
    reveal_strlit("admin");
    reveal_strlit("trusted_proxies");
    reveal_strlit("dns_refresh");
    reveal_strlit("protocols");
    reveal_strlit("log");
    reveal_strlit("order");
    reveal_strlit("grace_period");
    reveal_strlit("local_certs");
    reveal_strlit("persist_config");
    reveal_strlit("pki");
    reveal_strlit("skip_install_trust");
    reveal_strlit("dns");
    reveal_strlit("acme_dns");
    reveal_strlit("tls_resolvers");
    reveal_strlit("default_bind");
    reveal_strlit("default_sni");
    reveal_strlit("renewal_window_ratio");
    reveal_strlit("preferred_chains");
    assert("servers"@.len() == 7 && "servers"@[0] == 's');
    assert("debug"@.len() == 5 && "debug"@[0] == 'd');
    assert("email"@.len() == 5 && "email"@[0] == 'e');
    assert("http_port"@.len() == 9 && "http_port"@[0] == 'h');
    assert("https_port"@.len() == 10 && "https_port"@[0] == 'h');
    assert("metrics"@.len() == 7 && "metrics"@[0] == 'm');
    assert("auto_https"@.len() == 10 && "auto_https"@[0] == 'a');
    assert("admin"@.len() == 5 && "admin"@[0] == 'a');
    assert("trusted_proxies"@.len() == 15);
    assert("dns_refresh"@.len() == 11 && "dns_refresh"@[0] == 'd' && "dns_refresh"@[1] == 'n');
    assert("protocols"@.len() == 9 && "protocols"@[0] == 'p');
    assert("log"@.len() == 3 && "log"@[0] == 'l');
    assert("order"@.len() == 5 && "order"@[0] == 'o');
    assert("grace_period"@.len() == 12 && "grace_period"@[0] == 'g');
    assert("local_certs"@.len() == 11 && "local_certs"@[0] == 'l');
    assert("persist_config"@.len() == 14);
    assert("pki"@.len() == 3 && "pki"@[0] == 'p');
    assert("skip_install_trust"@.len() == 18);
    assert("dns"@.len() == 3 && "dns"@[0] == 'd');
    assert("acme_dns"@.len() == 8);
    assert("tls_resolvers"@.len() == 13);
    assert("default_bind"@.len() == 12 && "default_bind"@[0] == 'd');
    assert("default_sni"@.len() == 11 && "default_sni"@[0] == 'd' && "default_sni"@[1] == 'e');
    assert("renewal_window_ratio"@.len() == 20);
    assert("preferred_chains"@.len() == 16);
    lemma_option(Profile::Extended, d, front, c, line("grace_period"@, seq![t]));
    lemma_option(Profile::Extended, d, front, c, line("local_certs"@, Seq::empty()));
    lemma_option(Profile::Extended, d, front, c, line("persist_config"@, seq!["off"@]));
    lemma_option(Profile::Extended, d, front, c, line("skip_install_trust"@, Seq::empty()));
    lemma_option(Profile::Extended, d, front, c, line("default_sni"@, seq![v]));
}

/// An option of the extended profile lists what it names: providers with their arguments, resolvers
/// and addresses to bind.
#[verifier::rlimit(60)]
pub proof fn a_refined_option_lists_what_it_names(
    d: DirectiveV,
    front: Seq<DirectiveV>,
    c: GlobalBlockV,
    name: Seq<char>,
    rest: Seq<Seq<char>>,
)
    requires
        options::global_block(
            Profile::Extended,
            with_block(d, front),
        ) == Ok::<GlobalBlockV, ErrorV>(c),
    ensures
        options::global_block(
            Profile::Extended,
            with_block(d, front.push(line("dns"@, seq![name] + rest))),
        ) == Ok::<GlobalBlockV, ErrorV>(
            GlobalBlockV { dns: Some(DnsProviderV { name, arguments: rest }), ..c },
        ),
        options::global_block(
            Profile::Extended,
            with_block(d, front.push(line("acme_dns"@, seq![name] + rest))),
        ) == Ok::<GlobalBlockV, ErrorV>(
            GlobalBlockV { acme_dns: Some(Some(DnsProviderV { name, arguments: rest })), ..c },
        ),
        options::global_block(
            Profile::Extended,
            with_block(d, front.push(line("acme_dns"@, Seq::empty()))),
        ) == Ok::<GlobalBlockV, ErrorV>(
            GlobalBlockV { acme_dns: Some(None), ..c },
        ),
        options::global_block(
            Profile::Extended,
            with_block(d, front.push(line("tls_resolvers"@, seq![name] + rest))),
        ) == Ok::<GlobalBlockV, ErrorV>(
            GlobalBlockV { tls_resolvers: seq![name] + rest, ..c },
        ),
        options::global_block(
            Profile::Extended,
            with_block(d, front.push(line("default_bind"@, seq![name] + rest))),
        ) == Ok::<GlobalBlockV, ErrorV>(
            GlobalBlockV { default_bind: seq![name] + rest, ..c },
        ),
{
    reveal_strlit("servers");
    reveal_strlit("debug");
    reveal_strlit("email");
    reveal_strlit("http_port");
    reveal_strlit("https_port");
    reveal_strlit("metrics");
    reveal_strlit("auto_https");
    reveal_strlit("admin");
    reveal_strlit("trusted_proxies");
    reveal_strlit("dns_refresh");
    reveal_strlit("protocols");
    reveal_strlit("log");
    reveal_strlit("order");
    reveal_strlit("grace_period");
    reveal_strlit("local_certs");
    reveal_strlit("persist_config");
    reveal_strlit("pki");
    reveal_strlit("skip_install_trust");
    reveal_strlit("dns");
    reveal_strlit("acme_dns");
    reveal_strlit("tls_resolvers");
    reveal_strlit("default_bind");
    reveal_strlit("default_sni");
    reveal_strlit("renewal_window_ratio");
    reveal_strlit("preferred_chains");
    assert("servers"@.len() == 7 && "servers"@[0] == 's');
    assert("debug"@.len() == 5 && "debug"@[0] == 'd');
    assert("email"@.len() == 5 && "email"@[0] == 'e');
    assert("http_port"@.len() == 9 && "http_port"@[0] == 'h');
    assert("https_port"@.len() == 10 && "https_port"@[0] == 'h');
    assert("metrics"@.len() == 7 && "metrics"@[0] == 'm');
    assert("auto_https"@.len() == 10 && "auto_https"@[0] == 'a');
    assert("admin"@.len() == 5 && "admin"@[0] == 'a');
    assert("trusted_proxies"@.len() == 15);
    assert("dns_refresh"@.len() == 11 && "dns_refresh"@[0] == 'd' && "dns_refresh"@[1] == 'n');
    assert("protocols"@.len() == 9 && "protocols"@[0] == 'p');
    assert("log"@.len() == 3 && "log"@[0] == 'l');
    assert("order"@.len() == 5 && "order"@[0] == 'o');
    assert("grace_period"@.len() == 12 && "grace_period"@[0] == 'g');
    assert("local_certs"@.len() == 11 && "local_certs"@[0] == 'l');
    assert("persist_config"@.len() == 14);
    assert("pki"@.len() == 3 && "pki"@[0] == 'p');
    assert("skip_install_trust"@.len() == 18);
    assert("dns"@.len() == 3 && "dns"@[0] == 'd');
    assert("acme_dns"@.len() == 8);
    assert("tls_resolvers"@.len() == 13);
    assert("default_bind"@.len() == 12 && "default_bind"@[0] == 'd');
    assert("default_sni"@.len() == 11 && "default_sni"@[0] == 'd' && "default_sni"@[1] == 'e');
    assert("renewal_window_ratio"@.len() == 20);
    assert("preferred_chains"@.len() == 16);
    assert((seq![name] + rest).skip(1) =~= rest);
    lemma_option(Profile::Extended, d, front, c, line("dns"@, seq![name] + rest));
    lemma_option(Profile::Extended, d, front, c, line("acme_dns"@, seq![name] + rest));
    lemma_option(Profile::Extended, d, front, c, line("acme_dns"@, Seq::empty()));
    lemma_option(Profile::Extended, d, front, c, line("tls_resolvers"@, seq![name] + rest));
    lemma_option(Profile::Extended, d, front, c, line("default_bind"@, seq![name] + rest));
}

/// The share of its lifetime at which a certificate is renewed and the chains that are preferred are
/// those that are written.
#[verifier::rlimit(60)]
pub proof fn a_refined_block_configures_what_it_is_named_after(
    d: DirectiveV,
    front: Seq<DirectiveV>,
    c: GlobalBlockV,
    ratio: Seq<char>,
    preferred: DirectiveV,
    chains: PreferredChainsV,
)
    requires
        options::global_block(
            Profile::Extended,
            with_block(d, front),
        ) == Ok::<GlobalBlockV, ErrorV>(c),
        decimal::fraction(ratio),
        preferred.name == "preferred_chains"@,
        options::chains(preferred) == Ok::<PreferredChainsV, ErrorV>(chains),
    ensures
        options::global_block(
            Profile::Extended,
            with_block(d, front.push(line("renewal_window_ratio"@, seq![ratio]))),
        ) == Ok::<GlobalBlockV, ErrorV>(
            GlobalBlockV { renewal_window_ratio: Some(ratio), ..c },
        ),
        options::global_block(
            Profile::Extended,
            with_block(d, front.push(preferred)),
        ) == Ok::<GlobalBlockV, ErrorV>(
            GlobalBlockV { preferred_chains: Some(chains), ..c },
        ),
{
    reveal_strlit("servers");
    reveal_strlit("debug");
    reveal_strlit("email");
    reveal_strlit("http_port");
    reveal_strlit("https_port");
    reveal_strlit("metrics");
    reveal_strlit("auto_https");
    reveal_strlit("admin");
    reveal_strlit("trusted_proxies");
    reveal_strlit("dns_refresh");
    reveal_strlit("protocols");
    reveal_strlit("log");
    reveal_strlit("order");
    reveal_strlit("grace_period");
    reveal_strlit("local_certs");
    reveal_strlit("persist_config");
    reveal_strlit("pki");
    reveal_strlit("skip_install_trust");
    reveal_strlit("dns");
    reveal_strlit("acme_dns");
    reveal_strlit("tls_resolvers");
    reveal_strlit("default_bind");
    reveal_strlit("default_sni");
    reveal_strlit("renewal_window_ratio");
    reveal_strlit("preferred_chains");
    assert("servers"@.len() == 7 && "servers"@[0] == 's');
    assert("debug"@.len() == 5 && "debug"@[0] == 'd');
    assert("email"@.len() == 5 && "email"@[0] == 'e');
    assert("http_port"@.len() == 9 && "http_port"@[0] == 'h');
    assert("https_port"@.len() == 10 && "https_port"@[0] == 'h');
    assert("metrics"@.len() == 7 && "metrics"@[0] == 'm');
    assert("auto_https"@.len() == 10 && "auto_https"@[0] == 'a');
    assert("admin"@.len() == 5 && "admin"@[0] == 'a');
    assert("trusted_proxies"@.len() == 15);
    assert("dns_refresh"@.len() == 11 && "dns_refresh"@[0] == 'd' && "dns_refresh"@[1] == 'n');
    assert("protocols"@.len() == 9 && "protocols"@[0] == 'p');
    assert("log"@.len() == 3 && "log"@[0] == 'l');
    assert("order"@.len() == 5 && "order"@[0] == 'o');
    assert("grace_period"@.len() == 12 && "grace_period"@[0] == 'g');
    assert("local_certs"@.len() == 11 && "local_certs"@[0] == 'l');
    assert("persist_config"@.len() == 14);
    assert("pki"@.len() == 3 && "pki"@[0] == 'p');
    assert("skip_install_trust"@.len() == 18);
    assert("dns"@.len() == 3 && "dns"@[0] == 'd');
    assert("acme_dns"@.len() == 8);
    assert("tls_resolvers"@.len() == 13);
    assert("default_bind"@.len() == 12 && "default_bind"@[0] == 'd');
    assert("default_sni"@.len() == 11 && "default_sni"@[0] == 'd' && "default_sni"@[1] == 'e');
    assert("renewal_window_ratio"@.len() == 20);
    assert("preferred_chains"@.len() == 16);
    lemma_option(Profile::Extended, d, front, c, line("renewal_window_ratio"@, seq![ratio]));
    lemma_option(Profile::Extended, d, front, c, preferred);
}

/// Chains are preferred by their length, or by the names of the issuers in the list that names them.
pub proof fn chains_are_preferred_as_written(name: Seq<char>, list: Seq<Seq<char>>)
    requires
        list.len() > 0,
    ensures
        options::chains(line(name, seq!["smallest"@])) == Ok::<PreferredChainsV, ErrorV>(
            PreferredChainsV::Smallest,
        ),
        options::chains(
            with_block(line(name, Seq::empty()), seq![line("any_common_name"@, list)]),
        ) == Ok::<PreferredChainsV, ErrorV>(PreferredChainsV::AnyCommonName(list)),
        options::chains(
            with_block(line(name, Seq::empty()), seq![line("root_common_name"@, list)]),
        ) == Ok::<PreferredChainsV, ErrorV>(PreferredChainsV::RootCommonName(list)),
{
    reveal_strlit("any_common_name");
    reveal_strlit("root_common_name");
    assert("any_common_name"@.len() == 15);
    assert("root_common_name"@.len() == 16);
    let step = |c: ChainsDraftV, o: DirectiveV| options::chains_option(c, o);
    let start = ChainsDraftV { any: None, root: None };
    let a = line("any_common_name"@, list);
    let b = line("root_common_name"@, list);
    fold::a_last_directive_is_read_last(step, start, Seq::empty(), a);
    fold::a_last_directive_is_read_last(step, start, Seq::empty(), b);
    assert(Seq::<DirectiveV>::empty().push(a) =~= seq![a]);
    assert(Seq::<DirectiveV>::empty().push(b) =~= seq![b]);
}

/// A channel is declared under its name, and a log without a name is the default one.
pub proof fn a_channel_is_declared_under_its_name(
    held: Option<LoggingBlockV>,
    name: Seq<char>,
    lines: Seq<DirectiveV>,
    block: LogBlockV,
)
    requires
        logs::log_block(Profile::Extended, lines) == Ok::<LogBlockV, ErrorV>(block),
        block.hostnames.len() == 0,
        block.included.len() == 0,
    ensures
        ({
            let logging = match held {
                Some(logging) => logging,
                None => LoggingBlockV::unset(),
            };
            &&& !logging.channels.dom().contains(name) ==> options::channel(
                held,
                with_block(line("log"@, seq![name]), lines),
            ) == Ok::<LoggingBlockV, ErrorV>(
                LoggingBlockV {
                    channels: logging.channels.insert(name, block),
                    declared: logging.declared.push(name),
                    ..logging
                },
            )
            &&& logging.channels.dom().contains(name) ==> options::channel(
                held,
                with_block(line("log"@, seq![name]), lines),
            ) is Err
            &&& logging.default is None ==> options::channel(
                held,
                with_block(line("log"@, Seq::empty()), lines),
            ) == Ok::<LoggingBlockV, ErrorV>(LoggingBlockV { default: Some(block), ..logging })
            &&& logging.default is Some ==> options::channel(
                held,
                with_block(line("log"@, Seq::empty()), lines),
            ) is Err
        }),
{
}

} // verus!
