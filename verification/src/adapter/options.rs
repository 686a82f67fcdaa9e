//! The global options block.

use crate::adapter::args;
use crate::adapter::args::{
    args_from, expect_no_arguments, expect_one_argument, extend, parse_dns_refresh,
    parse_required_duration, read_u16,
};
use crate::adapter::logs;
use crate::adapter::logs::adapt_log_block;
use crate::adapter::profile::Profile;
use crate::adapter::registry;
use crate::adapter::registry::global_option;
use crate::ast::log::{LoggingBlock, LoggingBlockV};
use crate::ast::options::{
    AdminDirective, AdminDirectiveV, AutoHttpsMode, DnsProvider, DnsProviderV, MetricsOptions,
    PreferredChains, PreferredChainsV, Protocol,
};
use crate::ast::tree::{GlobalBlock, GlobalBlockV};
use crate::decimal;
use crate::decimal::is_fraction;
use crate::duplicate::Duplicate;
use crate::error;
use crate::error::{invalid, miscount, unknown_in, unsupported, AdapterError, ErrorV};
use crate::fold;
use crate::fold::{each_text, fold_directives};
use crate::ip;
use crate::ip::is_ip;
use crate::syntax;
use crate::syntax::{copy_directive, copy_directives, Directive, DirectiveV};
use crate::text;
use crate::text::{among, begins, cat, cat3, same, to_lowercase};
use vstd::prelude::*;

verus! {

// ---------------------------------------------------------------------------
// Metrics
// ---------------------------------------------------------------------------
/// Where a `metrics` block was written, which decides what it may say.
#[derive(Debug, Clone, Copy, PartialEq, Eq, Structural)]
pub enum MetricsScope {
    /// Directly in the global block.
    Global,
    /// Inside a `servers` block, where only `per_host` may appear.
    Server,
}

/// One line of a `metrics` block: a bare flag.
pub open spec fn metrics_option(scope: MetricsScope, c: MetricsOptions, d: DirectiveV) -> Result<
    MetricsOptions,
    ErrorV,
> {
    if d.args.len() != 0 {
        Err(ErrorV::ArgumentCount("metrics "@ + d.name, 0, d.args.len() as usize))
    } else if d.name == "per_host"@ {
        Ok(MetricsOptions { per_host: true, ..c })
    } else if d.name == "observe_catchall_hosts"@ && scope == MetricsScope::Global {
        Ok(MetricsOptions { observe_catchall_hosts: true, ..c })
    } else if d.name == "otlp"@ && scope == MetricsScope::Global {
        Ok(MetricsOptions { otlp: true, ..c })
    } else if d.name == "observe_catchall_hosts"@ || d.name == "otlp"@ {
        Err(
            ErrorV::InvalidArgument(
                "metrics "@ + d.name,
                "only `per_host` may appear inside a `servers` block; write this one in the global `metrics` block instead"@,
            ),
        )
    } else {
        Err(
            ErrorV::InvalidArgument(
                "metrics"@,
                "`"@ + d.name
                    + "` is not a metrics option; expected `per_host`, `observe_catchall_hosts` or `otlp`"@,
            ),
        )
    }
}

/// What the lines of a `metrics` block configure.
pub open spec fn metrics(scope: MetricsScope, lines: Seq<DirectiveV>) -> Result<
    MetricsOptions,
    ErrorV,
> {
    fold::fold(
        |c: MetricsOptions, o: DirectiveV| metrics_option(scope, c, o),
        MetricsOptions::none(),
        lines,
    )
}

/// An option is on if either of two blocks switches it on.
pub open spec fn merged(a: MetricsOptions, b: MetricsOptions) -> MetricsOptions {
    MetricsOptions {
        per_host: a.per_host || b.per_host,
        observe_catchall_hosts: a.observe_catchall_hosts || b.observe_catchall_hosts,
        otlp: a.otlp || b.otlp,
    }
}

fn read_metrics_option(scope: MetricsScope, c: MetricsOptions, d: &Directive) -> (r: Result<
    MetricsOptions,
    AdapterError,
>)
    ensures
        error::outcome(r) == metrics_option(scope, c, d.deep_view()),
{
    let mut c = c;
    let name = d.name.as_str();
    if d.args.len() != 0 {
        let label = cat("metrics ", name);
        return Err(miscount(label.as_str(), 0, d.args.len()));
    }
    if same(name, "per_host") {
        c.per_host = true;
    } else if same(name, "observe_catchall_hosts") && scope == MetricsScope::Global {
        c.observe_catchall_hosts = true;
    } else if same(name, "otlp") && scope == MetricsScope::Global {
        c.otlp = true;
    } else if same(name, "observe_catchall_hosts") || same(name, "otlp") {
        let label = cat("metrics ", name);
        return Err(
            invalid(
                label.as_str(),
                "only `per_host` may appear inside a `servers` block; write this one in the global `metrics` block instead",
            ),
        );
    } else {
        let reason = cat3(
            "`",
            name,
            "` is not a metrics option; expected `per_host`, `observe_catchall_hosts` or `otlp`",
        );
        return Err(invalid("metrics", reason.as_str()));
    }
    Ok(c)
}

/// Reads `metrics { per_host | observe_catchall_hosts | otlp }`.
pub fn parse_metrics_options(scope: MetricsScope, lines: &Vec<Directive>) -> (r: Result<
    MetricsOptions,
    AdapterError,
>)
    ensures
        error::outcome(r) == metrics(scope, syntax::directives_view(lines@)),
{
    let read = |c: MetricsOptions, d: &Directive| -> (r: Result<MetricsOptions, AdapterError>)
        ensures
            error::outcome(r) == metrics_option(scope, c, d.deep_view()),
        { read_metrics_option(scope, c, d) };
    fold_directives(
        read,
        MetricsOptions::unset(),
        lines,
        Ghost(|c: MetricsOptions, o: DirectiveV| metrics_option(scope, c, o)),
    )
}

// ---------------------------------------------------------------------------
// Nested `servers` blocks
// ---------------------------------------------------------------------------
/// A child of a `servers` block may say of metrics only what it can.
pub open spec fn nested_metrics(d: DirectiveV) -> Result<(), ErrorV> {
    match d.block {
        Some(lines) => if d.name == "metrics"@ {
            error::with(metrics(MetricsScope::Server, lines), |c: MetricsOptions| ())
        } else {
            Ok(())
        },
        None => Ok(()),
    }
}

/// One directive of the global block, with the children of a `servers` block lifted out of it.
pub open spec fn lifted(profile: Profile, held: Seq<DirectiveV>, d: DirectiveV) -> Result<
    Seq<DirectiveV>,
    ErrorV,
> {
    if d.name == "servers"@ {
        match d.block {
            None => Ok(held),
            Some(lines) => if profile == Profile::Core {
                Ok(held + lines)
            } else {
                error::with(
                    fold::fold(|u: (), o: DirectiveV| nested_metrics(o), (), lines),
                    |u: ()| held + lines,
                )
            },
        }
    } else {
        Ok(held.push(d))
    }
}

/// The directives of the global block, with those of nested `servers` blocks in their place.
pub open spec fn flattened(profile: Profile, list: Seq<DirectiveV>) -> Result<
    Seq<DirectiveV>,
    ErrorV,
> {
    fold::fold(
        |held: Seq<DirectiveV>, o: DirectiveV| lifted(profile, held, o),
        Seq::empty(),
        list,
    )
}

fn check_nested_metrics(u: (), d: &Directive) -> (r: Result<(), AdapterError>)
    ensures
        error::outcome(r) == nested_metrics(d.deep_view()),
{
    if let Some(block) = &d.block {
        if same(d.name.as_str(), "metrics") {
            parse_metrics_options(MetricsScope::Server, &block.directives)?;
        }
    }
    Ok(())
}

fn lift(profile: Profile, held: Vec<Directive>, d: &Directive) -> (r: Result<
    Vec<Directive>,
    AdapterError,
>)
    ensures
        error::outcome(r) == lifted(profile, held.deep_view(), d.deep_view()),
{
    let mut held = held;
    let ghost start = held.deep_view();
    if same(d.name.as_str(), "servers") {
        if let Some(block) = &d.block {
            if profile == Profile::Extended {
                fold_directives(
                    check_nested_metrics,
                    (),
                    &block.directives,
                    Ghost(|u: (), o: DirectiveV| nested_metrics(o)),
                )?;
            }
            let mut lines = copy_directives(&block.directives);
            proof {
                syntax::lemma_directives_view(lines);
            }
            let ghost added = lines.deep_view();
            held.append(&mut lines);
            assert(held.deep_view() =~= start + added);
        }
    } else {
        let copy = copy_directive(d);
        held.push(copy);
        assert(held.deep_view() =~= start.push(d.deep_view()));
    }
    Ok(held)
}

/// Lifts the children of nested `servers` blocks to the global level.
pub fn expand_servers_block(profile: Profile, list: &Vec<Directive>) -> (r: Result<
    Vec<Directive>,
    AdapterError,
>)
    ensures
        error::outcome(r) == flattened(profile, syntax::directives_view(list@)),
{
    let read = |held: Vec<Directive>, d: &Directive| -> (r: Result<Vec<Directive>, AdapterError>)
        ensures
            error::outcome(r) == lifted(profile, held.deep_view(), d.deep_view()),
        { lift(profile, held, d) };
    let none: Vec<Directive> = Vec::new();
    assert(none.deep_view() =~= Seq::<DirectiveV>::empty());
    fold_directives(
        read,
        none,
        list,
        Ghost(|held: Seq<DirectiveV>, o: DirectiveV| lifted(profile, held, o)),
    )
}

// ---------------------------------------------------------------------------
// Single options
// ---------------------------------------------------------------------------
/// A host that binds every interface, and that no request ever names.
pub open spec fn wildcard_host(host: Seq<char>) -> bool {
    host == "[::]"@ || host == "::"@ || host == "0.0.0.0"@ || host == "[::0]"@
}

/// Whether a host binds every interface rather than being a name that a client can send.
pub fn is_wildcard_host(host: &str) -> (r: bool)
    ensures
        r == wildcard_host(host@),
{
    same(host, "[::]") || same(host, "::") || same(host, "0.0.0.0") || same(host, "[::0]")
}

/// `auto_https on|off|disable_redirects`.
pub open spec fn automation(d: DirectiveV) -> Result<AutoHttpsMode, ErrorV> {
    if d.args.len() == 0 {
        Err(ErrorV::ArgumentCount("auto_https"@, 1, 0))
    } else if d.args[0] == "on"@ {
        Ok(AutoHttpsMode::On)
    } else if d.args[0] == "off"@ {
        Ok(AutoHttpsMode::Off)
    } else if d.args[0] == "disable_redirects"@ {
        Ok(AutoHttpsMode::DisableRedirects)
    } else if d.args[0] == "disable_certs"@ || d.args[0] == "ignore_loaded_certs"@ {
        Err(
            ErrorV::UnsupportedFeature(
                "auto_https "@ + d.args[0],
                "only on, off and disable_redirects are implemented"@,
            ),
        )
    } else {
        Err(ErrorV::InvalidArgument("auto_https"@, d.args[0]))
    }
}

fn read_automation(d: &Directive) -> (r: Result<AutoHttpsMode, AdapterError>)
    ensures
        error::outcome(r) == automation(d.deep_view()),
{
    if d.args.len() == 0 {
        return Err(miscount("auto_https", 1, 0));
    }
    let mode = d.args[0].as_str();
    if same(mode, "on") {
        Ok(AutoHttpsMode::On)
    } else if same(mode, "off") {
        Ok(AutoHttpsMode::Off)
    } else if same(mode, "disable_redirects") {
        Ok(AutoHttpsMode::DisableRedirects)
    } else if same(mode, "disable_certs") || same(mode, "ignore_loaded_certs") {
        let feature = cat("auto_https ", mode);
        Err(
            unsupported(
                feature.as_str(),
                "only on, off and disable_redirects are implemented",
            ),
        )
    } else {
        Err(invalid("auto_https", mode))
    }
}

/// One line of an `admin` block.
pub open spec fn admin_option(c: AdminDirectiveV, d: DirectiveV) -> Result<
    AdminDirectiveV,
    ErrorV,
> {
    if d.name == "origins"@ {
        if d.args.len() == 0 {
            Err(
                ErrorV::InvalidArgument("admin origins"@, "list at least one allowed origin"@),
            )
        } else {
            Ok(AdminDirectiveV { origins: c.origins + d.args, ..c })
        }
    } else if d.name == "enforce_origin"@ {
        if d.args.len() != 0 {
            Err(ErrorV::ArgumentCount("enforce_origin"@, 0, d.args.len() as usize))
        } else {
            Ok(AdminDirectiveV { enforce_origin: true, ..c })
        }
    } else {
        Err(ErrorV::UnknownDirective("admin: "@ + d.name))
    }
}

fn read_admin_option(c: AdminDirective, d: &Directive) -> (r: Result<
    AdminDirective,
    AdapterError,
>)
    ensures
        error::outcome(r) == admin_option(c.deep_view(), d.deep_view()),
{
    let mut c = c;
    let name = d.name.as_str();
    if same(name, "origins") {
        if d.args.len() == 0 {
            return Err(invalid("admin origins", "list at least one allowed origin"));
        }
        extend(&mut c.origins, &d.args);
    } else if same(name, "enforce_origin") {
        if d.args.len() != 0 {
            return Err(miscount("enforce_origin", 0, d.args.len()));
        }
        c.enforce_origin = true;
    } else {
        return Err(unknown_in("admin: ", name));
    }
    Ok(c)
}

/// The endpoint that the arguments of `admin` describe, before its block is read.
pub open spec fn admin_line(list: Seq<Seq<char>>) -> AdminDirectiveV {
    AdminDirectiveV {
        listen: if list.len() == 0 {
            "127.0.0.1:2019"@
        } else {
            list[0]
        },
        enabled: true,
        api_key: if list.len() > 1 {
            Some(list[1])
        } else {
            None
        },
        origins: Seq::empty(),
        enforce_origin: false,
    }
}

/// `admin off`, or `admin [<address> [<key>]] { ... }`; the core profile needs the address and
/// takes no block.
pub open spec fn admin(profile: Profile, d: DirectiveV) -> Result<AdminDirectiveV, ErrorV> {
    let off = AdminDirectiveV {
        listen: Seq::empty(),
        enabled: false,
        api_key: None,
        origins: Seq::empty(),
        enforce_origin: false,
    };
    if profile == Profile::Core && d.block is Some {
        Err(
            ErrorV::UnsupportedFeature(
                "admin block"@,
                "admin origins/enforce_origin are not implemented yet"@,
            ),
        )
    } else if profile == Profile::Core && d.args.len() == 0 {
        Err(ErrorV::ArgumentCount("admin"@, 1, 0))
    } else {
        let read = match d.block {
            None => Ok(admin_line(d.args)),
            Some(lines) => fold::fold(
                |c: AdminDirectiveV, o: DirectiveV| admin_option(c, o),
                admin_line(d.args),
                lines,
            ),
        };
        match read {
            Err(e) => Err(e),
            Ok(c) => if d.args.len() > 0 && d.args[0] == "off"@ {
                Ok(off)
            } else {
                Ok(c)
            },
        }
    }
}

fn read_admin(profile: Profile, d: &Directive) -> (r: Result<AdminDirective, AdapterError>)
    ensures
        error::outcome(r) == admin(profile, d.deep_view()),
{
    if profile == Profile::Core && d.block.is_some() {
        return Err(
            unsupported(
                "admin block",
                "admin origins/enforce_origin are not implemented yet",
            ),
        );
    }
    if profile == Profile::Core && d.args.len() == 0 {
        return Err(miscount("admin", 1, 0));
    }
    let listen = if d.args.len() == 0 {
        "127.0.0.1:2019".to_owned()
    } else {
        d.args[0].clone()
    };
    let api_key = if d.args.len() > 1 {
        Some(d.args[1].clone())
    } else {
        None
    };
    let start = AdminDirective {
        listen,
        enabled: true,
        api_key,
        origins: Vec::new(),
        enforce_origin: false,
    };
    assert(start.origins.deep_view() =~= Seq::<Seq<char>>::empty());
    assert(start.deep_view() =~= admin_line(d.deep_view().args));
    let c = match &d.block {
        None => start,
        Some(block) => fold_directives(
            read_admin_option,
            start,
            &block.directives,
            Ghost(|c: AdminDirectiveV, o: DirectiveV| admin_option(c, o)),
        )?,
    };
    if d.args.len() > 0 && same(d.args[0].as_str(), "off") {
        let off = AdminDirective {
            listen: String::new(),
            enabled: false,
            api_key: None,
            origins: Vec::new(),
            enforce_origin: false,
        };
        assert(off.origins.deep_view() =~= Seq::<Seq<char>>::empty());
        assert(off.listen@ =~= Seq::<char>::empty());
        return Ok(off);
    }
    Ok(c)
}

/// Whether the `ipnet` crate reads `s` as a network.
pub uninterp spec fn ip_network(s: Seq<char>) -> bool;

/// `ipnet::IpNet::from_str`: whether it succeeds is a function of the text. Which texts are
/// networks is left unsaid.
#[verifier::external_body]
fn is_ip_network(s: &str) -> (r: bool)
    ensures
        r == ip_network(s@),
{
    s.parse::<ipnet::IpNet>().is_ok()
}

/// A rule for trusted proxies: a network, as told by `network`, or an address.
pub open spec fn proxy_rule(rule: Seq<char>, network: bool) -> Result<Seq<char>, ErrorV> {
    if network || ip::literal(rule) is Some {
        Ok(rule)
    } else {
        Err(
            ErrorV::InvalidArgument(
                "trusted_proxies"@,
                "invalid IP or CIDR `"@ + rule + "`"@,
            ),
        )
    }
}

/// Accepts a network or an address as a rule; `network` says whether the rule is a network.
pub fn accept_proxy_rule(rule: &str, network: bool) -> (r: Result<String, AdapterError>)
    ensures
        error::outcome(r) == proxy_rule(rule@, network),
{
    if network || is_ip(rule) {
        return Ok(rule.to_owned());
    }
    let reason = cat3("invalid IP or CIDR `", rule, "`");
    Err(invalid("trusted_proxies", reason.as_str()))
}

/// `trusted_proxies <rule...>`.
pub open spec fn trusted(d: DirectiveV) -> Result<Seq<Seq<char>>, ErrorV> {
    if d.args.len() == 0 {
        Err(ErrorV::ArgumentCount("trusted_proxies"@, 1, 0))
    } else {
        fold::each(|rule: Seq<char>| proxy_rule(rule, ip_network(rule)), d.args)
    }
}

fn read_trusted(d: &Directive) -> (r: Result<Vec<String>, AdapterError>)
    ensures
        error::outcome(r) == trusted(d.deep_view()),
{
    if d.args.len() == 0 {
        return Err(miscount("trusted_proxies", 1, 0));
    }
    let read = |rule: &str| -> (r: Result<String, AdapterError>)
        ensures
            error::outcome(r) == proxy_rule(rule@, ip_network(rule@)),
        {
            let network = is_ip_network(rule);
            accept_proxy_rule(rule, network)
        };
    each_text(
        read,
        &d.args,
        Ghost(|rule: Seq<char>| proxy_rule(rule, ip_network(rule))),
    )
}

/// The HTTP version that `word` names, in any case.
pub open spec fn protocol(word: Seq<char>) -> Result<Protocol, ErrorV> {
    let lower = text::lowercase(word);
    if lower == "h1"@ {
        Ok(Protocol::H1)
    } else if lower == "h2"@ {
        Ok(Protocol::H2)
    } else if lower == "h3"@ {
        Ok(Protocol::H3)
    } else {
        Err(ErrorV::InvalidArgument("protocols"@, lower))
    }
}

fn read_protocol(word: &str) -> (r: Result<Protocol, AdapterError>)
    ensures
        error::outcome(r) == protocol(word@),
{
    let lower = to_lowercase(word);
    if same(lower.as_str(), "h1") {
        Ok(Protocol::H1)
    } else if same(lower.as_str(), "h2") {
        Ok(Protocol::H2)
    } else if same(lower.as_str(), "h3") {
        Ok(Protocol::H3)
    } else {
        Err(invalid("protocols", lower.as_str()))
    }
}

/// A provider and its arguments; `list` must not be empty.
pub open spec fn provider(list: Seq<Seq<char>>) -> DnsProviderV {
    DnsProviderV { name: list[0], arguments: list.skip(1) }
}

fn read_provider(list: &Vec<String>) -> (r: DnsProvider)
    requires
        list.len() > 0,
    ensures
        r.deep_view() == provider(list.deep_view()),
{
    DnsProvider { name: list[0].clone(), arguments: args_from(list, 1) }
}

/// `persist_config off` is the only spelling.
pub open spec fn persistence(d: DirectiveV) -> Result<(), ErrorV> {
    if d.args.len() == 0 {
        Err(ErrorV::ArgumentCount("persist_config"@, 1, 0))
    } else if d.args.len() > 1 {
        Err(ErrorV::InvalidArgument("persist_config"@, "must be a single 'off'"@))
    } else if d.args[0] != "off"@ {
        Err(ErrorV::InvalidArgument("persist_config"@, "must be 'off', got "@ + d.args[0]))
    } else {
        Ok(())
    }
}

fn check_persistence(d: &Directive) -> (r: Result<(), AdapterError>)
    ensures
        error::outcome(r) == persistence(d.deep_view()),
{
    if d.args.len() == 0 {
        return Err(miscount("persist_config", 1, 0));
    }
    if d.args.len() > 1 {
        return Err(invalid("persist_config", "must be a single 'off'"));
    }
    if !same(d.args[0].as_str(), "off") {
        let reason = cat("must be 'off', got ", d.args[0].as_str());
        return Err(invalid("persist_config", reason.as_str()));
    }
    Ok(())
}

/// `renewal_window_ratio <fraction>`: a part of the certificate's lifetime, strictly between
/// none and all of it.
pub open spec fn renewal_ratio(d: DirectiveV) -> Result<Seq<char>, ErrorV> {
    match args::sole(d) {
        Err(e) => Err(e),
        Ok(raw) => if decimal::fraction(raw) {
            Ok(raw)
        } else {
            Err(
                ErrorV::InvalidArgument(
                    "renewal_window_ratio"@,
                    "`"@ + raw
                        + "` is not a fraction between 0 and 1; 0.3333 renews once a third of the lifetime remains"@,
                ),
            )
        },
    }
}

fn read_renewal_ratio(d: &Directive) -> (r: Result<String, AdapterError>)
    ensures
        error::outcome(r) == renewal_ratio(d.deep_view()),
{
    let raw = expect_one_argument(d)?;
    if is_fraction(raw) {
        return Ok(raw.to_owned());
    }
    let reason = cat3(
        "`",
        raw,
        "` is not a fraction between 0 and 1; 0.3333 renews once a third of the lifetime remains",
    );
    Err(invalid("renewal_window_ratio", reason.as_str()))
}

// ---------------------------------------------------------------------------
// Preferred chains
// ---------------------------------------------------------------------------
/// The lines of a `preferred_chains` block read so far.
pub struct ChainsDraft {
    pub any: Option<Vec<String>>,
    pub root: Option<Vec<String>>,
}

/// The mathematical value of a [`ChainsDraft`].
#[verifier::ext_equal]
pub struct ChainsDraftV {
    pub any: Option<Seq<Seq<char>>>,
    pub root: Option<Seq<Seq<char>>>,
}

impl DeepView for ChainsDraft {
    type V = ChainsDraftV;

    open spec fn deep_view(&self) -> ChainsDraftV {
        ChainsDraftV { any: self.any.deep_view(), root: self.root.deep_view() }
    }
}

/// More names for a list that may not have been started.
pub open spec fn longer(held: Option<Seq<Seq<char>>>, more: Seq<Seq<char>>) -> Option<
    Seq<Seq<char>>,
> {
    match held {
        Some(list) => Some(list + more),
        None => Some(more),
    }
}

fn lengthen(held: Option<Vec<String>>, more: &Vec<String>) -> (r: Option<Vec<String>>)
    ensures
        r.deep_view() == longer(held.deep_view(), more.deep_view()),
{
    match held {
        Some(list) => {
            let mut list = list;
            extend(&mut list, more);
            Some(list)
        },
        None => Some(more.duplicate()),
    }
}

/// One line of a `preferred_chains` block.
pub open spec fn chains_option(c: ChainsDraftV, d: DirectiveV) -> Result<ChainsDraftV, ErrorV> {
    if d.name != "any_common_name"@ && d.name != "root_common_name"@ {
        Err(ErrorV::UnknownDirective("preferred_chains: "@ + d.name))
    } else if d.args.len() == 0 {
        Err(ErrorV::ArgumentCount("preferred_chains "@ + d.name, 1, 0))
    } else if d.name == "any_common_name"@ {
        Ok(ChainsDraftV { any: longer(c.any, d.args), ..c })
    } else {
        Ok(ChainsDraftV { root: longer(c.root, d.args), ..c })
    }
}

fn read_chains_option(c: ChainsDraft, d: &Directive) -> (r: Result<ChainsDraft, AdapterError>)
    ensures
        error::outcome(r) == chains_option(c.deep_view(), d.deep_view()),
{
    let mut c = c;
    let name = d.name.as_str();
    let any = same(name, "any_common_name");
    if !any && !same(name, "root_common_name") {
        return Err(unknown_in("preferred_chains: ", name));
    }
    if d.args.len() == 0 {
        let label = cat("preferred_chains ", name);
        return Err(miscount(label.as_str(), 1, 0));
    }
    if any {
        c.any = lengthen(c.any, &d.args);
    } else {
        c.root = lengthen(c.root, &d.args);
    }
    Ok(c)
}

/// `preferred_chains smallest`, or a block that names issuers one way.
pub open spec fn chains(d: DirectiveV) -> Result<PreferredChainsV, ErrorV> {
    if d.args.len() > 0 {
        if d.args[0] != "smallest"@ {
            Err(
                ErrorV::InvalidArgument(
                    "preferred_chains"@,
                    "`"@ + d.args[0] + "` is not a chain preference; expected `smallest`"@,
                ),
            )
        } else if d.args.len() > 1 || d.block is Some {
            Err(ErrorV::InvalidArgument("preferred_chains"@, "`smallest` takes nothing else"@))
        } else {
            Ok(PreferredChainsV::Smallest)
        }
    } else {
        match d.block {
            None => Err(ErrorV::ArgumentCount("preferred_chains"@, 1, 0)),
            Some(lines) => match fold::fold(
                |c: ChainsDraftV, o: DirectiveV| chains_option(c, o),
                ChainsDraftV { any: None, root: None },
                lines,
            ) {
                Err(e) => Err(e),
                Ok(c) => match (c.any, c.root) {
                    (Some(names), None) => Ok(PreferredChainsV::AnyCommonName(names)),
                    (None, Some(names)) => Ok(PreferredChainsV::RootCommonName(names)),
                    (Some(_), Some(_)) => Err(
                        ErrorV::InvalidArgument(
                            "preferred_chains"@,
                            "`any_common_name` and `root_common_name` cannot both be set"@,
                        ),
                    ),
                    (None, None) => Err(
                        ErrorV::InvalidArgument(
                            "preferred_chains"@,
                            "the block sets nothing; name `any_common_name` or `root_common_name`"@,
                        ),
                    ),
                },
            },
        }
    }
}

/// Reads `preferred_chains smallest` or a block that names issuers.
pub fn parse_preferred_chains(d: &Directive) -> (r: Result<PreferredChains, AdapterError>)
    ensures
        error::outcome(r) == chains(d.deep_view()),
{
    if d.args.len() > 0 {
        let word = d.args[0].as_str();
        if !same(word, "smallest") {
            let reason = cat3("`", word, "` is not a chain preference; expected `smallest`");
            return Err(invalid("preferred_chains", reason.as_str()));
        }
        if d.args.len() > 1 || d.block.is_some() {
            return Err(invalid("preferred_chains", "`smallest` takes nothing else"));
        }
        return Ok(PreferredChains::Smallest);
    }
    let c = match &d.block {
        None => {
            return Err(miscount("preferred_chains", 1, 0));
        },
        Some(block) => fold_directives(
            read_chains_option,
            ChainsDraft { any: None, root: None },
            &block.directives,
            Ghost(|c: ChainsDraftV, o: DirectiveV| chains_option(c, o)),
        )?,
    };
    match (c.any, c.root) {
        (Some(names), None) => Ok(PreferredChains::AnyCommonName(names)),
        (None, Some(names)) => Ok(PreferredChains::RootCommonName(names)),
        (Some(_), Some(_)) => Err(
            invalid(
                "preferred_chains",
                "`any_common_name` and `root_common_name` cannot both be set",
            ),
        ),
        (None, None) => Err(
            invalid(
                "preferred_chains",
                "the block sets nothing; name `any_common_name` or `root_common_name`",
            ),
        ),
    }
}

// ---------------------------------------------------------------------------
// Log channels
// ---------------------------------------------------------------------------
/// Whether one of two dotted names is the other one or a part of it.
pub open spec fn related(a: Seq<char>, b: Seq<char>) -> bool {
    text::starts(a + "."@, b + "."@) || text::starts(b + "."@, a + "."@)
}

/// Whether each of `list` is related to one of `others`.
pub open spec fn all_related(list: Seq<Seq<char>>, others: Seq<Seq<char>>) -> bool {
    forall|i: int| 0 <= i < list.len() ==> some_related(#[trigger] list[i], others)
}

/// Whether `name` is related to one of `others`.
pub open spec fn some_related(name: Seq<char>, others: Seq<Seq<char>>) -> bool {
    exists|j: int| 0 <= j < others.len() && related(name, #[trigger] others[j])
}

/// Whether two lists of loggers can both be honoured: one is empty, or each logger in one
/// contains or is contained in one of the other.
pub open spec fn nested(included: Seq<Seq<char>>, excluded: Seq<Seq<char>>) -> bool {
    included.len() == 0 || excluded.len() == 0 || (all_related(included, excluded)
        && all_related(excluded, included))
}

/// Why two lists of loggers cannot both be honoured.
pub open spec fn contradiction() -> Seq<char> {
    "when both include and exclude are given, each element must be a superspace or subspace of one in the other list"@
}

fn is_related(a: &str, b: &str) -> (r: bool)
    ensures
        r == related(a@, b@),
{
    let x = cat(a, ".");
    let y = cat(b, ".");
    begins(x.as_str(), y.as_str()) || begins(y.as_str(), x.as_str())
}

fn are_related(list: &Vec<String>, others: &Vec<String>) -> (r: bool)
    ensures
        r == all_related(list.deep_view(), others.deep_view()),
{
    let mut i: usize = 0;
    while i < list.len()
        invariant
            i <= list.len(),
            forall|k: int|
                0 <= k < i ==> some_related(
                    #[trigger] list.deep_view()[k],
                    others.deep_view(),
                ),
        decreases list.len() - i,
    {
        let ghost name = list.deep_view()[i as int];
        assert(name == list@[i as int]@);
        let mut found = false;
        let mut j: usize = 0;
        while j < others.len() && !found
            invariant
                j <= others.len(),
                i < list.len(),
                name == list@[i as int]@,
                found ==> some_related(name, others.deep_view()),
                !found ==> forall|k: int|
                    0 <= k < j ==> !related(name, #[trigger] others.deep_view()[k]),
            decreases others.len() - j,
        {
            assert(others.deep_view()[j as int] == others@[j as int]@);
            found = is_related(list[i].as_str(), others[j].as_str());
            j += 1;
        }
        if !found {
            assert(!some_related(name, others.deep_view()));
            return false;
        }
        i += 1;
    }
    true
}

fn are_nested(included: &Vec<String>, excluded: &Vec<String>) -> (r: bool)
    ensures
        r == nested(included.deep_view(), excluded.deep_view()),
{
    included.len() == 0 || excluded.len() == 0 || (are_related(included, excluded) && are_related(
        excluded,
        included,
    ))
}

/// `log [<channel>] { ... }`: a channel, or the default logger, each declared once.
pub open spec fn channel(held: Option<LoggingBlockV>, d: DirectiveV) -> Result<
    LoggingBlockV,
    ErrorV,
> {
    if d.args.len() > 1 {
        Err(ErrorV::ArgumentCount("log"@, 1, d.args.len() as usize))
    } else {
        match d.block {
            None => Err(
                ErrorV::InvalidArgument(
                    "log"@,
                    "a global `log` option needs a block describing its output"@,
                ),
            ),
            Some(lines) => match logs::log_block(Profile::Extended, lines) {
                Err(e) => Err(e),
                Ok(block) => {
                    let logging = match held {
                        Some(logging) => logging,
                        None => LoggingBlockV::unset(),
                    };
                    if block.hostnames.len() > 0 {
                        Err(
                            ErrorV::InvalidArgument(
                                "log"@,
                                "hostnames is not allowed in the log global options"@,
                            ),
                        )
                    } else if !nested(block.included, block.excluded) {
                        Err(ErrorV::InvalidArgument("log"@, contradiction()))
                    } else if d.args.len() == 0 {
                        if logging.default is Some {
                            Err(
                                ErrorV::InvalidArgument(
                                    "log"@,
                                    "the default logger is declared twice"@,
                                ),
                            )
                        } else {
                            Ok(LoggingBlockV { default: Some(block), ..logging })
                        }
                    } else if logging.channels.dom().contains(d.args[0]) {
                        Err(
                            ErrorV::InvalidArgument(
                                "log"@,
                                "channel `"@ + d.args[0] + "` is declared twice"@,
                            ),
                        )
                    } else {
                        Ok(
                            LoggingBlockV {
                                channels: logging.channels.insert(d.args[0], block),
                                declared: logging.declared.push(d.args[0]),
                                ..logging
                            },
                        )
                    }
                },
            },
        }
    }
}

fn read_channel(held: Option<LoggingBlock>, d: &Directive) -> (r: Result<
    LoggingBlock,
    AdapterError,
>)
    ensures
        error::outcome(r) == channel(held.deep_view(), d.deep_view()),
{
    if d.args.len() > 1 {
        return Err(miscount("log", 1, d.args.len()));
    }
    let block = match &d.block {
        None => {
            return Err(
                invalid("log", "a global `log` option needs a block describing its output"),
            );
        },
        Some(block) => adapt_log_block(Profile::Extended, &block.directives)?,
    };
    if block.hostnames.len() > 0 {
        return Err(invalid("log", "hostnames is not allowed in the log global options"));
    }
    if !are_nested(&block.included, &block.excluded) {
        return Err(
            invalid(
                "log",
                "when both include and exclude are given, each element must be a superspace or subspace of one in the other list",
            ),
        );
    }
    let mut logging = match held {
        Some(logging) => logging,
        None => LoggingBlock::unset(),
    };
    if d.args.len() == 0 {
        if logging.default.is_some() {
            return Err(invalid("log", "the default logger is declared twice"));
        }
        logging.default = Some(block);
        return Ok(logging);
    }
    let name = d.args[0].as_str();
    if logging.channels.contains_key(name) {
        let reason = cat3("channel `", name, "` is declared twice");
        return Err(invalid("log", reason.as_str()));
    }
    logging.channels.insert(name.to_owned(), block);
    let ghost held = logging.declared.deep_view();
    logging.declared.push(name.to_owned());
    assert(logging.declared.deep_view() =~= held.push(name@));
    Ok(logging)
}

// ---------------------------------------------------------------------------
// The block
// ---------------------------------------------------------------------------
/// The global options that the core profile knows and refuses.
pub open spec fn refused_globals() -> Seq<Seq<char>> {
    seq![
        "default_bind"@,
        "order"@,
        "storage"@,
        "storage_clean_interval"@,
        "persist_config"@,
        "log"@,
        "grace_period"@,
        "shutdown_delay"@,
        "default_sni"@,
        "fallback_sni"@,
        "local_certs"@,
        "skip_install_trust"@,
        "acme_ca"@,
        "acme_ca_root"@,
        "acme_eab"@,
        "acme_dns"@,
        "dns"@,
        "ech"@,
        "on_demand_tls"@,
        "key_type"@,
        "cert_issuer"@,
        "renew_interval"@,
        "cert_lifetime"@,
        "ocsp_interval"@,
        "ocsp_stapling"@,
        "renewal_window_ratio"@,
        "preferred_chains"@,
        "filesystem"@,
        "pki"@,
        "events"@,
        "frankenphp"@,
    ]
}

/// Whether the format defines a global option of this name that the core profile refuses.
pub fn is_known_caddy_global_option(name: &str) -> (r: bool)
    ensures
        r == refused_globals().contains(name@),
{
    let list = vec![
        "default_bind",
        "order",
        "storage",
        "storage_clean_interval",
        "persist_config",
        "log",
        "grace_period",
        "shutdown_delay",
        "default_sni",
        "fallback_sni",
        "local_certs",
        "skip_install_trust",
        "acme_ca",
        "acme_ca_root",
        "acme_eab",
        "acme_dns",
        "dns",
        "ech",
        "on_demand_tls",
        "key_type",
        "cert_issuer",
        "renew_interval",
        "cert_lifetime",
        "ocsp_interval",
        "ocsp_stapling",
        "renewal_window_ratio",
        "preferred_chains",
        "filesystem",
        "pki",
        "events",
        "frankenphp",
    ];
    assert(list.deep_view() =~= refused_globals());
    among(name, &list)
}

/// A global option that the profile does not honour: part of the format, or nothing at all.
pub open spec fn refused_global(profile: Profile, name: Seq<char>) -> ErrorV {
    let known = match profile {
        Profile::Core => refused_globals().contains(name),
        Profile::Extended => registry::option_support(name) is Some,
    };
    if known {
        ErrorV::UnsupportedFeature(
            "global: "@ + name,
            "this Caddy global option is not implemented yet"@,
        )
    } else {
        ErrorV::UnknownDirective("global: "@ + name)
    }
}

fn refuse_global(profile: Profile, name: &str) -> (r: AdapterError)
    ensures
        r.deep_view() == refused_global(profile, name@),
{
    let known = match profile {
        Profile::Core => is_known_caddy_global_option(name),
        Profile::Extended => global_option(name).is_some(),
    };
    if known {
        let feature = cat("global: ", name);
        unsupported(feature.as_str(), "this Caddy global option is not implemented yet")
    } else {
        unknown_in("global: ", name)
    }
}

/// One global option that only the extended profile honours.
pub open spec fn refined_global(c: GlobalBlockV, d: DirectiveV) -> Result<
    GlobalBlockV,
    ErrorV,
> {
    if d.name == "log"@ {
        error::with(
            channel(c.logging, d),
            |logging: LoggingBlockV| GlobalBlockV { logging: Some(logging), ..c },
        )
    } else if d.name == "order"@ {
        Ok(c)
    } else if d.name == "grace_period"@ {
        error::with(
            args::span(d),
            |ms: u64| GlobalBlockV { grace_period_secs: Some(((ms + 999) / 1000) as u64), ..c },
        )
    } else if d.name == "local_certs"@ {
        error::with(args::bare(d), |v: ()| GlobalBlockV { local_certs: true, ..c })
    } else if d.name == "persist_config"@ {
        error::with(
            persistence(d),
            |u: ()| GlobalBlockV { persist_config_off: true, ..c },
        )
    } else if d.name == "pki"@ {
        Ok(
            GlobalBlockV {
                pki: match d.block {
                    Some(lines) => lines,
                    None => Seq::empty(),
                },
                ..c
            },
        )
    } else if d.name == "skip_install_trust"@ {
        error::with(args::bare(d), |v: ()| GlobalBlockV { skip_install_trust: true, ..c })
    } else if d.name == "dns"@ {
        if d.args.len() == 0 {
            Err(ErrorV::ArgumentCount("dns"@, 1, 0))
        } else {
            Ok(GlobalBlockV { dns: Some(provider(d.args)), ..c })
        }
    } else if d.name == "acme_dns"@ {
        Ok(
            GlobalBlockV {
                acme_dns: Some(
                    if d.args.len() == 0 {
                        None
                    } else {
                        Some(provider(d.args))
                    },
                ),
                ..c
            },
        )
    } else if d.name == "tls_resolvers"@ {
        if d.args.len() == 0 {
            Err(ErrorV::ArgumentCount("tls_resolvers"@, 1, 0))
        } else {
            Ok(GlobalBlockV { tls_resolvers: d.args, ..c })
        }
    } else if d.name == "default_bind"@ {
        if d.args.len() == 0 {
            Err(ErrorV::ArgumentCount("default_bind"@, 1, 0))
        } else {
            Ok(GlobalBlockV { default_bind: d.args, ..c })
        }
    } else if d.name == "default_sni"@ {
        error::with(args::sole(d), |v: Seq<char>| GlobalBlockV { default_sni: Some(v), ..c })
    } else if d.name == "renewal_window_ratio"@ {
        error::with(renewal_ratio(d), |v: Seq<char>| GlobalBlockV { renewal_window_ratio: Some(v), ..c })
    } else if d.name == "preferred_chains"@ {
        error::with(chains(d), |v: PreferredChainsV| GlobalBlockV { preferred_chains: Some(v), ..c })
    } else {
        Err(refused_global(Profile::Extended, d.name))
    }
}

fn read_refined_global(c: GlobalBlock, d: &Directive) -> (r: Result<
    GlobalBlock,
    AdapterError,
>)
    ensures
        error::outcome(r) == refined_global(c.deep_view(), d.deep_view()),
{
    let mut c = c;
    let name = d.name.as_str();
    if same(name, "log") {
        c.logging = Some(read_channel(c.logging, d)?);
    } else if same(name, "order") {
        return Ok(c);
    } else if same(name, "grace_period") {
        let ms: u64 = parse_required_duration(d)?;
        c.grace_period_secs = Some((ms + 999) / 1000);
    } else if same(name, "local_certs") {
        expect_no_arguments(d)?;
        c.local_certs = true;
    } else if same(name, "persist_config") {
        check_persistence(d)?;
        c.persist_config_off = true;
    } else if same(name, "pki") {
        let lines = match &d.block {
            Some(block) => copy_directives(&block.directives),
            None => Vec::new(),
        };
        proof {
            syntax::lemma_directives_view(lines);
        }
        assert(d.block is None ==> lines.deep_view() =~= Seq::<DirectiveV>::empty());
        c.pki = lines;
    } else if same(name, "skip_install_trust") {
        expect_no_arguments(d)?;
        c.skip_install_trust = true;
    } else if same(name, "dns") {
        if d.args.len() == 0 {
            return Err(miscount("dns", 1, 0));
        }
        c.dns = Some(read_provider(&d.args));
    } else if same(name, "acme_dns") {
        c.acme_dns = if d.args.len() == 0 {
            Some(None)
        } else {
            Some(Some(read_provider(&d.args)))
        };
    } else if same(name, "tls_resolvers") {
        if d.args.len() == 0 {
            return Err(miscount("tls_resolvers", 1, 0));
        }
        c.tls_resolvers = d.args.duplicate();
    } else if same(name, "default_bind") {
        if d.args.len() == 0 {
            return Err(miscount("default_bind", 1, 0));
        }
        c.default_bind = d.args.duplicate();
    } else if same(name, "default_sni") {
        c.default_sni = Some(expect_one_argument(d)?.to_owned());
    } else if same(name, "renewal_window_ratio") {
        c.renewal_window_ratio = Some(read_renewal_ratio(d)?);
    } else if same(name, "preferred_chains") {
        c.preferred_chains = Some(parse_preferred_chains(d)?);
    } else {
        return Err(refuse_global(Profile::Extended, name));
    }
    Ok(c)
}

/// One global option.
pub open spec fn global_option_line(profile: Profile, c: GlobalBlockV, d: DirectiveV) -> Result<
    GlobalBlockV,
    ErrorV,
> {
    if d.name == "debug"@ {
        error::with(args::bare(d), |u: ()| GlobalBlockV { debug: Some(true), ..c })
    } else if d.name == "email"@ {
        Ok(
            GlobalBlockV {
                email: if d.args.len() > 0 {
                    Some(d.args[0])
                } else {
                    None
                },
                ..c
            },
        )
    } else if d.name == "http_port"@ {
        match args::sole(d) {
            Err(e) => Err(e),
            Ok(value) => error::with(
                args::port("http_port"@, value),
                |port: u16| GlobalBlockV { http_port: Some(port), ..c },
            ),
        }
    } else if d.name == "https_port"@ {
        match args::sole(d) {
            Err(e) => Err(e),
            Ok(value) => error::with(
                args::port("https_port"@, value),
                |port: u16| GlobalBlockV { https_port: Some(port), ..c },
            ),
        }
    } else if d.name == "metrics"@ {
        if profile == Profile::Core && d.block is Some {
            Err(
                ErrorV::UnsupportedFeature(
                    "metrics block"@,
                    "metrics per_host/otlp options are not implemented yet"@,
                ),
            )
        } else if d.args.len() != 0 {
            Err(ErrorV::ArgumentCount("metrics"@, 0, d.args.len() as usize))
        } else {
            match d.block {
                None => Ok(GlobalBlockV { metrics: Some(true), ..c }),
                Some(lines) => error::with(
                    metrics(MetricsScope::Global, lines),
                    |o: MetricsOptions|
                        GlobalBlockV {
                            metrics: Some(true),
                            metrics_options: merged(c.metrics_options, o),
                            ..c
                        },
                ),
            }
        }
    } else if d.name == "auto_https"@ {
        error::with(automation(d), |v: AutoHttpsMode| GlobalBlockV { auto_https: Some(v), ..c })
    } else if d.name == "admin"@ {
        error::with(admin(profile, d), |v: AdminDirectiveV| GlobalBlockV { admin: Some(v), ..c })
    } else if d.name == "trusted_proxies"@ {
        error::with(
            trusted(d),
            |more: Seq<Seq<char>>|
                GlobalBlockV { trusted_proxies: c.trusted_proxies + more, ..c },
        )
    } else if d.name == "dns_refresh"@ {
        if d.args.len() == 0 {
            Err(ErrorV::ArgumentCount("dns_refresh"@, 1, 0))
        } else {
            error::with(
                args::refresh(d.args[0]),
                |secs: u64| GlobalBlockV { dns_refresh_secs: Some(secs), ..c },
            )
        }
    } else if d.name == "protocols"@ {
        error::with(
            fold::each(|word: Seq<char>| protocol(word), d.args),
            |more: Seq<Protocol>| GlobalBlockV { protocols: c.protocols + more, ..c },
        )
    } else if profile == Profile::Extended {
        refined_global(c, d)
    } else {
        Err(refused_global(Profile::Core, d.name))
    }
}

fn read_global_option(profile: Profile, c: GlobalBlock, d: &Directive) -> (r: Result<
    GlobalBlock,
    AdapterError,
>)
    ensures
        error::outcome(r) == global_option_line(profile, c.deep_view(), d.deep_view()),
{
    let mut c = c;
    let name = d.name.as_str();
    if same(name, "debug") {
        expect_no_arguments(d)?;
        c.debug = Some(true);
    } else if same(name, "email") {
        c.email = if d.args.len() > 0 {
            Some(d.args[0].clone())
        } else {
            None
        };
    } else if same(name, "http_port") {
        let value = expect_one_argument(d)?;
        c.http_port = Some(read_u16("http_port", value)?);
    } else if same(name, "https_port") {
        let value = expect_one_argument(d)?;
        c.https_port = Some(read_u16("https_port", value)?);
    } else if same(name, "metrics") {
        if profile == Profile::Core && d.block.is_some() {
            return Err(
                unsupported(
                    "metrics block",
                    "metrics per_host/otlp options are not implemented yet",
                ),
            );
        }
        if d.args.len() != 0 {
            return Err(miscount("metrics", 0, d.args.len()));
        }
        c.metrics = Some(true);
        if let Some(block) = &d.block {
            let o = parse_metrics_options(MetricsScope::Global, &block.directives)?;
            c.metrics_options = MetricsOptions {
                per_host: c.metrics_options.per_host || o.per_host,
                observe_catchall_hosts: c.metrics_options.observe_catchall_hosts
                    || o.observe_catchall_hosts,
                otlp: c.metrics_options.otlp || o.otlp,
            };
        }
    } else if same(name, "auto_https") {
        c.auto_https = Some(read_automation(d)?);
    } else if same(name, "admin") {
        c.admin = Some(read_admin(profile, d)?);
    } else if same(name, "trusted_proxies") {
        let more = read_trusted(d)?;
        extend(&mut c.trusted_proxies, &more);
    } else if same(name, "dns_refresh") {
        if d.args.len() == 0 {
            return Err(miscount("dns_refresh", 1, 0));
        }
        c.dns_refresh_secs = Some(parse_dns_refresh(d.args[0].as_str())?);
    } else if same(name, "protocols") {
        let mut more = each_text(
            read_protocol,
            &d.args,
            Ghost(|word: Seq<char>| protocol(word)),
        )?;
        let ghost held = c.protocols.deep_view();
        let ghost added = more.deep_view();
        c.protocols.append(&mut more);
        assert(c.protocols.deep_view() =~= held + added);
    } else if profile == Profile::Extended {
        c = read_refined_global(c, d)?;
    } else {
        return Err(refuse_global(Profile::Core, name));
    }
    Ok(c)
}

/// What a global block configures.
pub open spec fn global_block(profile: Profile, d: DirectiveV) -> Result<GlobalBlockV, ErrorV> {
    match d.block {
        None => Ok(GlobalBlockV::unset()),
        Some(list) => match flattened(profile, list) {
            Err(e) => Err(e),
            Ok(options) => fold::fold(
                |c: GlobalBlockV, o: DirectiveV| global_option_line(profile, c, o),
                GlobalBlockV::unset(),
                options,
            ),
        },
    }
}

/// Adapts the global block.
///
/// An option that nothing defines is refused as a typo, and one that the format defines but that
/// would not be honoured is refused by name: neither may pass for a setting that took effect.
pub fn adapt_global(profile: Profile, d: &Directive) -> (r: Result<GlobalBlock, AdapterError>)
    ensures
        error::outcome(r) == global_block(profile, d.deep_view()),
{
    match &d.block {
        None => Ok(GlobalBlock::unset()),
        Some(block) => {
            let options = expand_servers_block(profile, &block.directives)?;
            proof {
                syntax::lemma_directives_view(options);
            }
            let read = |c: GlobalBlock, d: &Directive| -> (r: Result<GlobalBlock, AdapterError>)
                ensures
                    error::outcome(r) == global_option_line(
                        profile,
                        c.deep_view(),
                        d.deep_view(),
                    ),
                { read_global_option(profile, c, d) };
            fold_directives(
                read,
                GlobalBlock::unset(),
                &options,
                Ghost(|c: GlobalBlockV, o: DirectiveV| global_option_line(profile, c, o)),
            )
        },
    }
}

} // verus!
