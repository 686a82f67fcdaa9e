//! Upstreams that DNS names: the `dynamic` option of a reverse proxy.

use crate::adapter::args;
use crate::adapter::args::{
    expect_one_argument, parse_required_duration, parse_whole_seconds,
};
use crate::ast::proxy::{
    DynamicAddrUpstream, DynamicAddrUpstreamV, DynamicSrvUpstream, DynamicSrvUpstreamV,
    DynamicUpstreamConfig, DynamicUpstreamConfigV,
};
use crate::duplicate::Duplicate;
use crate::duration;
use crate::duration::parse_duration_ms;
use crate::error;
use crate::error::{invalid, miscount, unsupported, AdapterError, ErrorV};
use crate::fold;
use crate::fold::fold_directives;
use crate::ip;
use crate::ip::is_ip;
use crate::syntax::{Directive, DirectiveV};
use crate::text;
use crate::text::{after, begins_with, cat3, parse_u16, same};
use vstd::prelude::*;

verus! {

/// The port in `value`; `label` is the setting it belongs to.
pub open spec fn dial_port(label: Seq<char>, value: Seq<char>) -> Result<u16, ErrorV> {
    match text::as_u16(value) {
        Some(port) => Ok(port),
        None => Err(ErrorV::InvalidArgument(label, "`"@ + value + "` is not a port"@)),
    }
}

/// Reads a port.
pub fn parse_port(label: &str, value: &str) -> (r: Result<u16, AdapterError>)
    ensures
        error::outcome(r) == dial_port(label@, value@),
{
    match parse_u16(value) {
        Some(port) => Ok(port),
        None => {
            let reason = cat3("`", value, "` is not a port");
            Err(invalid(label, reason.as_str()))
        },
    }
}

/// The first text of `list` that is not an IP address.
pub open spec fn first_name(list: Seq<Seq<char>>) -> Option<Seq<char>>
    decreases list.len(),
{
    if list.len() == 0 {
        None
    } else if ip::literal(list[0]) is None {
        Some(list[0])
    } else {
        first_name(list.drop_first())
    }
}

/// The resolvers that `list` names; each must be an IP address.
pub open spec fn resolvers(list: Seq<Seq<char>>) -> Result<Seq<Seq<char>>, ErrorV> {
    if list.len() == 0 {
        Err(
            ErrorV::InvalidArgument("resolvers"@, "at least one resolver address is required"@),
        )
    } else {
        match first_name(list) {
            Some(name) => Err(
                ErrorV::InvalidArgument("resolvers"@, "`"@ + name + "` is not an IP address"@),
            ),
            None => Ok(list),
        }
    }
}

/// Reads resolver addresses.
pub fn parse_resolvers(list: &Vec<String>) -> (r: Result<Vec<String>, AdapterError>)
    ensures
        error::outcome(r) == resolvers(list.deep_view()),
{
    if list.len() == 0 {
        return Err(invalid("resolvers", "at least one resolver address is required"));
    }
    let mut i: usize = 0;
    let ghost all = list.deep_view();
    assert(all.skip(0) =~= all);
    while i < list.len()
        invariant
            i <= list.len(),
            all == list.deep_view(),
            all.len() > 0,
            first_name(all) == first_name(all.skip(i as int)),
        decreases list.len() - i,
    {
        assert(all.skip(i as int)[0] == list@[i as int]@);
        assert(all.skip(i as int).drop_first() =~= all.skip(i + 1));
        let address = list[i].as_str();
        if !is_ip(address) {
            let reason = cat3("`", address, "` is not an IP address");
            return Err(invalid("resolvers", reason.as_str()));
        }
        i += 1;
    }
    Ok(list.duplicate())
}

/// A duration that a minus sign may precede, in milliseconds; one that is too long is refused.
pub open spec fn signed_span(d: DirectiveV) -> Result<i64, ErrorV> {
    match args::sole(d) {
        Err(e) => Err(e),
        Ok(value) => if text::starts_char(value, '-') {
            match duration::millis(value.skip(1)) {
                Some(ms) if ms <= i64::MAX => Ok((-(ms as int)) as i64),
                _ => Err(ErrorV::InvalidArgument(d.name, value)),
            }
        } else {
            match duration::millis(value) {
                Some(ms) if ms <= i64::MAX => Ok(ms as i64),
                _ => Err(ErrorV::InvalidArgument(d.name, value)),
            }
        },
    }
}

/// Reads a duration that may be negative.
pub fn parse_signed_duration(directive: &Directive) -> (r: Result<i64, AdapterError>)
    ensures
        error::outcome(r) == signed_span(directive.deep_view()),
{
    let value = expect_one_argument(directive)?;
    if begins_with(value, '-') {
        match parse_duration_ms(after(value, 1)) {
            Some(ms) if ms <= i64::MAX as u64 => Ok(-(ms as i64)),
            _ => Err(invalid(directive.name.as_str(), value)),
        }
    } else {
        match parse_duration_ms(value) {
            Some(ms) if ms <= i64::MAX as u64 => Ok(ms as i64),
            _ => Err(invalid(directive.name.as_str(), value)),
        }
    }
}

// ---------------------------------------------------------------------------
// Address records
// ---------------------------------------------------------------------------
/// What has been said of an address-record source.
pub struct AddrDraft {
    pub name: Option<String>,
    pub port: Option<u16>,
    pub refresh_secs: Option<u64>,
    pub resolvers: Vec<String>,
    pub dial_timeout_ms: Option<u64>,
    pub versions: Option<String>,
}

/// The mathematical value of an [`AddrDraft`].
#[verifier::ext_equal]
pub struct AddrDraftV {
    pub name: Option<Seq<char>>,
    pub port: Option<u16>,
    pub refresh_secs: Option<u64>,
    pub resolvers: Seq<Seq<char>>,
    pub dial_timeout_ms: Option<u64>,
    pub versions: Option<Seq<char>>,
}

impl DeepView for AddrDraft {
    type V = AddrDraftV;

    open spec fn deep_view(&self) -> AddrDraftV {
        AddrDraftV {
            name: self.name.deep_view(),
            port: self.port.deep_view(),
            refresh_secs: self.refresh_secs.deep_view(),
            resolvers: self.resolvers.deep_view(),
            dial_timeout_ms: self.dial_timeout_ms.deep_view(),
            versions: self.versions.deep_view(),
        }
    }
}

/// An IP version that a source may be restricted to.
pub open spec fn ip_version(s: Seq<char>) -> bool {
    s == "ipv4"@ || s == "ipv6"@ || s == "ip4"@ || s == "ip6"@ || s == "ip"@
}

/// One line of an address-record source.
pub open spec fn addr_option(c: AddrDraftV, d: DirectiveV) -> Result<AddrDraftV, ErrorV> {
    if d.name == "name"@ {
        error::with(args::sole(d), |v: Seq<char>| AddrDraftV { name: Some(v), ..c })
    } else if d.name == "port"@ {
        match args::sole(d) {
            Err(e) => Err(e),
            Ok(v) => error::with(
                dial_port("port"@, v),
                |port: u16| AddrDraftV { port: Some(port), ..c },
            ),
        }
    } else if d.name == "refresh"@ {
        error::with(
            args::seconds(d, "must be a whole number of seconds"@),
            |n: u64| AddrDraftV { refresh_secs: Some(n), ..c },
        )
    } else if d.name == "resolvers"@ {
        error::with(resolvers(d.args), |v: Seq<Seq<char>>| AddrDraftV { resolvers: v, ..c })
    } else if d.name == "dial_timeout"@ {
        error::with(args::span(d), |n: u64| AddrDraftV { dial_timeout_ms: Some(n), ..c })
    } else if d.name == "dial_fallback_delay"@ {
        match signed_span(d) {
            Err(e) => Err(e),
            Ok(_) => Err(
                ErrorV::UnsupportedFeature(
                    "dynamic a dial_fallback_delay"@,
                    "Hickory has no exact RFC 6555 resolver-dial fallback hook"@,
                ),
            ),
        }
    } else if d.name == "versions"@ {
        match args::sole(d) {
            Err(e) => Err(e),
            Ok(v) => if ip_version(v) {
                Ok(AddrDraftV { versions: Some(v), ..c })
            } else {
                Err(
                    ErrorV::InvalidArgument(
                        "versions"@,
                        "`"@ + v + "` is not `ipv4` or `ipv6`"@,
                    ),
                )
            },
        }
    } else {
        Err(
            ErrorV::UnsupportedFeature(
                "dynamic a"@,
                "`"@ + d.name + "` is not a dynamic A-source option"@,
            ),
        )
    }
}

/// What stands on the line of an address-record source itself.
pub open spec fn addr_line(list: Seq<Seq<char>>) -> Result<AddrDraftV, ErrorV> {
    let start = AddrDraftV {
        name: if list.len() > 1 {
            Some(list[1])
        } else {
            None
        },
        port: None,
        refresh_secs: None,
        resolvers: Seq::empty(),
        dial_timeout_ms: None,
        versions: None,
    };
    if list.len() > 2 {
        error::with(
            dial_port("dynamic port"@, list[2]),
            |port: u16| AddrDraftV { port: Some(port), ..start },
        )
    } else {
        Ok(start)
    }
}

/// A source must name what it looks up; the port defaults to 80.
pub open spec fn addr_source(c: AddrDraftV) -> Result<DynamicAddrUpstreamV, ErrorV> {
    match c.name {
        None => Err(
            ErrorV::InvalidArgument("dynamic a"@, "a dynamic A source needs a name"@),
        ),
        Some(name) => Ok(
            DynamicAddrUpstreamV {
                name,
                port: match c.port {
                    Some(port) => port,
                    None => 80,
                },
                refresh_secs: c.refresh_secs,
                resolvers: c.resolvers,
                dial_timeout_ms: c.dial_timeout_ms,
                fallback_delay_ms: None,
                versions: c.versions,
            },
        ),
    }
}

/// `dynamic a [<name> [<port>]]` with an optional block.
pub open spec fn dynamic_addr(d: DirectiveV) -> Result<DynamicAddrUpstreamV, ErrorV> {
    match addr_line(d.args) {
        Err(e) => Err(e),
        Ok(start) => match d.block {
            None => addr_source(start),
            Some(list) => match fold::fold(
                |c: AddrDraftV, o: DirectiveV| addr_option(c, o),
                start,
                list,
            ) {
                Err(e) => Err(e),
                Ok(c) => addr_source(c),
            },
        },
    }
}

fn read_addr_option(c: AddrDraft, d: &Directive) -> (r: Result<AddrDraft, AdapterError>)
    ensures
        error::outcome(r) == addr_option(c.deep_view(), d.deep_view()),
{
    let mut c = c;
    let name = d.name.as_str();
    if same(name, "name") {
        c.name = Some(expect_one_argument(d)?.to_owned());
    } else if same(name, "port") {
        let value = expect_one_argument(d)?;
        c.port = Some(parse_port("port", value)?);
    } else if same(name, "refresh") {
        c.refresh_secs = Some(parse_whole_seconds(d, "must be a whole number of seconds")?);
    } else if same(name, "resolvers") {
        c.resolvers = parse_resolvers(&d.args)?;
    } else if same(name, "dial_timeout") {
        c.dial_timeout_ms = Some(parse_required_duration(d)?);
    } else if same(name, "dial_fallback_delay") {
        let _delay: i64 = parse_signed_duration(d)?;
        return Err(
            unsupported(
                "dynamic a dial_fallback_delay",
                "Hickory has no exact RFC 6555 resolver-dial fallback hook",
            ),
        );
    } else if same(name, "versions") {
        let value = expect_one_argument(d)?;
        if !(same(value, "ipv4") || same(value, "ipv6") || same(value, "ip4") || same(value, "ip6")
            || same(value, "ip")) {
            let reason = cat3("`", value, "` is not `ipv4` or `ipv6`");
            return Err(invalid("versions", reason.as_str()));
        }
        c.versions = Some(value.to_owned());
    } else {
        let reason = cat3("`", name, "` is not a dynamic A-source option");
        return Err(unsupported("dynamic a", reason.as_str()));
    }
    Ok(c)
}

fn read_addr_line(list: &Vec<String>) -> (r: Result<AddrDraft, AdapterError>)
    ensures
        error::outcome(r) == addr_line(list.deep_view()),
{
    let name = if list.len() > 1 {
        Some(list[1].clone())
    } else {
        None
    };
    let port = if list.len() > 2 {
        Some(parse_port("dynamic port", list[2].as_str())?)
    } else {
        None
    };
    let c = AddrDraft {
        name,
        port,
        refresh_secs: None,
        resolvers: Vec::new(),
        dial_timeout_ms: None,
        versions: None,
    };
    assert(c.resolvers.deep_view() =~= Seq::<Seq<char>>::empty());
    Ok(c)
}

fn make_addr_source(c: AddrDraft) -> (r: Result<DynamicAddrUpstream, AdapterError>)
    ensures
        error::outcome(r) == addr_source(c.deep_view()),
{
    match c.name {
        None => Err(invalid("dynamic a", "a dynamic A source needs a name")),
        Some(name) => Ok(
            DynamicAddrUpstream {
                name,
                port: match c.port {
                    Some(port) => port,
                    None => 80,
                },
                refresh_secs: c.refresh_secs,
                resolvers: c.resolvers,
                dial_timeout_ms: c.dial_timeout_ms,
                fallback_delay_ms: None,
                versions: c.versions,
            },
        ),
    }
}

/// Reads an address-record source.
pub fn parse_dynamic_addr(d: &Directive) -> (r: Result<DynamicAddrUpstream, AdapterError>)
    ensures
        error::outcome(r) == dynamic_addr(d.deep_view()),
{
    let start = read_addr_line(&d.args)?;
    match &d.block {
        None => make_addr_source(start),
        Some(block) => {
            let c = fold_directives(
                read_addr_option,
                start,
                &block.directives,
                Ghost(|c: AddrDraftV, o: DirectiveV| addr_option(c, o)),
            )?;
            make_addr_source(c)
        },
    }
}

// ---------------------------------------------------------------------------
// Service records
// ---------------------------------------------------------------------------
/// What has been said of a service-record source.
pub struct SrvDraft {
    pub name: Option<String>,
    pub service: Option<String>,
    pub proto: Option<String>,
    pub refresh_secs: Option<u64>,
    pub resolvers: Vec<String>,
    pub dial_timeout_ms: Option<u64>,
    pub grace_period_ms: Option<u64>,
}

/// The mathematical value of a [`SrvDraft`].
#[verifier::ext_equal]
pub struct SrvDraftV {
    pub name: Option<Seq<char>>,
    pub service: Option<Seq<char>>,
    pub proto: Option<Seq<char>>,
    pub refresh_secs: Option<u64>,
    pub resolvers: Seq<Seq<char>>,
    pub dial_timeout_ms: Option<u64>,
    pub grace_period_ms: Option<u64>,
}

impl DeepView for SrvDraft {
    type V = SrvDraftV;

    open spec fn deep_view(&self) -> SrvDraftV {
        SrvDraftV {
            name: self.name.deep_view(),
            service: self.service.deep_view(),
            proto: self.proto.deep_view(),
            refresh_secs: self.refresh_secs.deep_view(),
            resolvers: self.resolvers.deep_view(),
            dial_timeout_ms: self.dial_timeout_ms.deep_view(),
            grace_period_ms: self.grace_period_ms.deep_view(),
        }
    }
}

/// One line of a service-record source.
pub open spec fn srv_option(c: SrvDraftV, d: DirectiveV) -> Result<SrvDraftV, ErrorV> {
    if d.name == "name"@ {
        error::with(args::sole(d), |v: Seq<char>| SrvDraftV { name: Some(v), ..c })
    } else if d.name == "service"@ {
        error::with(args::sole(d), |v: Seq<char>| SrvDraftV { service: Some(v), ..c })
    } else if d.name == "proto"@ {
        error::with(args::sole(d), |v: Seq<char>| SrvDraftV { proto: Some(v), ..c })
    } else if d.name == "refresh"@ {
        error::with(
            args::seconds(d, "must be a whole number of seconds"@),
            |n: u64| SrvDraftV { refresh_secs: Some(n), ..c },
        )
    } else if d.name == "resolvers"@ {
        error::with(resolvers(d.args), |v: Seq<Seq<char>>| SrvDraftV { resolvers: v, ..c })
    } else if d.name == "dial_timeout"@ {
        error::with(args::span(d), |n: u64| SrvDraftV { dial_timeout_ms: Some(n), ..c })
    } else if d.name == "dial_fallback_delay"@ {
        match signed_span(d) {
            Err(e) => Err(e),
            Ok(_) => Err(
                ErrorV::UnsupportedFeature(
                    "dynamic srv dial_fallback_delay"@,
                    "Hickory has no exact RFC 6555 resolver-dial fallback hook"@,
                ),
            ),
        }
    } else if d.name == "grace_period"@ {
        error::with(args::span(d), |n: u64| SrvDraftV { grace_period_ms: Some(n), ..c })
    } else {
        Err(
            ErrorV::UnsupportedFeature(
                "dynamic srv"@,
                "`"@ + d.name + "` is not a dynamic SRV-source option"@,
            ),
        )
    }
}

/// A source must name what it looks up, and the service and its protocol go together.
pub open spec fn srv_source(c: SrvDraftV) -> Result<DynamicSrvUpstreamV, ErrorV> {
    match c.name {
        None => Err(
            ErrorV::InvalidArgument("dynamic srv"@, "a dynamic SRV source needs a name"@),
        ),
        Some(name) => if (c.service is Some) != (c.proto is Some) {
            Err(
                ErrorV::InvalidArgument(
                    "dynamic srv"@,
                    "`service` and `proto` must be set together; otherwise give the full SRV name in `name`"@,
                ),
            )
        } else {
            Ok(
                DynamicSrvUpstreamV {
                    name,
                    service: c.service,
                    proto: c.proto,
                    refresh_secs: c.refresh_secs,
                    resolvers: c.resolvers,
                    dial_timeout_ms: c.dial_timeout_ms,
                    fallback_delay_ms: None,
                    grace_period_ms: c.grace_period_ms,
                },
            )
        },
    }
}

/// `dynamic srv [<name>]` with an optional block.
pub open spec fn dynamic_srv(d: DirectiveV) -> Result<DynamicSrvUpstreamV, ErrorV> {
    let start = SrvDraftV {
        name: if d.args.len() > 1 {
            Some(d.args[1])
        } else {
            None
        },
        service: None,
        proto: None,
        refresh_secs: None,
        resolvers: Seq::empty(),
        dial_timeout_ms: None,
        grace_period_ms: None,
    };
    match d.block {
        None => srv_source(start),
        Some(list) => match fold::fold(
            |c: SrvDraftV, o: DirectiveV| srv_option(c, o),
            start,
            list,
        ) {
            Err(e) => Err(e),
            Ok(c) => srv_source(c),
        },
    }
}

fn read_srv_option(c: SrvDraft, d: &Directive) -> (r: Result<SrvDraft, AdapterError>)
    ensures
        error::outcome(r) == srv_option(c.deep_view(), d.deep_view()),
{
    let mut c = c;
    let name = d.name.as_str();
    if same(name, "name") {
        c.name = Some(expect_one_argument(d)?.to_owned());
    } else if same(name, "service") {
        c.service = Some(expect_one_argument(d)?.to_owned());
    } else if same(name, "proto") {
        c.proto = Some(expect_one_argument(d)?.to_owned());
    } else if same(name, "refresh") {
        c.refresh_secs = Some(parse_whole_seconds(d, "must be a whole number of seconds")?);
    } else if same(name, "resolvers") {
        c.resolvers = parse_resolvers(&d.args)?;
    } else if same(name, "dial_timeout") {
        c.dial_timeout_ms = Some(parse_required_duration(d)?);
    } else if same(name, "dial_fallback_delay") {
        let _delay: i64 = parse_signed_duration(d)?;
        return Err(
            unsupported(
                "dynamic srv dial_fallback_delay",
                "Hickory has no exact RFC 6555 resolver-dial fallback hook",
            ),
        );
    } else if same(name, "grace_period") {
        c.grace_period_ms = Some(parse_required_duration(d)?);
    } else {
        let reason = cat3("`", name, "` is not a dynamic SRV-source option");
        return Err(unsupported("dynamic srv", reason.as_str()));
    }
    Ok(c)
}

fn make_srv_source(c: SrvDraft) -> (r: Result<DynamicSrvUpstream, AdapterError>)
    ensures
        error::outcome(r) == srv_source(c.deep_view()),
{
    match c.name {
        None => Err(invalid("dynamic srv", "a dynamic SRV source needs a name")),
        Some(name) => {
            if c.service.is_some() != c.proto.is_some() {
                return Err(
                    invalid(
                        "dynamic srv",
                        "`service` and `proto` must be set together; otherwise give the full SRV name in `name`",
                    ),
                );
            }
            Ok(
                DynamicSrvUpstream {
                    name,
                    service: c.service,
                    proto: c.proto,
                    refresh_secs: c.refresh_secs,
                    resolvers: c.resolvers,
                    dial_timeout_ms: c.dial_timeout_ms,
                    fallback_delay_ms: None,
                    grace_period_ms: c.grace_period_ms,
                },
            )
        },
    }
}

/// Reads a service-record source.
pub fn parse_dynamic_srv(d: &Directive) -> (r: Result<DynamicSrvUpstream, AdapterError>)
    ensures
        error::outcome(r) == dynamic_srv(d.deep_view()),
{
    let name = if d.args.len() > 1 {
        Some(d.args[1].clone())
    } else {
        None
    };
    let start = SrvDraft {
        name,
        service: None,
        proto: None,
        refresh_secs: None,
        resolvers: Vec::new(),
        dial_timeout_ms: None,
        grace_period_ms: None,
    };
    assert(start.resolvers.deep_view() =~= Seq::<Seq<char>>::empty());
    match &d.block {
        None => make_srv_source(start),
        Some(block) => {
            let c = fold_directives(
                read_srv_option,
                start,
                &block.directives,
                Ghost(|c: SrvDraftV, o: DirectiveV| srv_option(c, o)),
            )?;
            make_srv_source(c)
        },
    }
}

/// `dynamic a|srv ...`.
pub open spec fn dynamic(d: DirectiveV) -> Result<DynamicUpstreamConfigV, ErrorV> {
    if d.args.len() == 0 {
        Err(ErrorV::ArgumentCount("dynamic"@, 1, 0))
    } else if d.args[0] == "a"@ {
        error::with(dynamic_addr(d), |c: DynamicAddrUpstreamV| DynamicUpstreamConfigV::A(c))
    } else if d.args[0] == "srv"@ {
        error::with(dynamic_srv(d), |c: DynamicSrvUpstreamV| DynamicUpstreamConfigV::Srv(c))
    } else {
        Err(
            ErrorV::InvalidArgument(
                "dynamic source"@,
                "`"@ + d.args[0]
                    + "` is not a DNS source; use `a` for address records or `srv` for service records"@,
            ),
        )
    }
}

/// Reads the DNS source of a proxy's upstreams.
pub fn parse_dynamic_upstream(d: &Directive) -> (r: Result<DynamicUpstreamConfig, AdapterError>)
    ensures
        error::outcome(r) == dynamic(d.deep_view()),
{
    if d.args.len() == 0 {
        return Err(miscount("dynamic", 1, 0));
    }
    let source = d.args[0].as_str();
    if same(source, "a") {
        Ok(DynamicUpstreamConfig::A(parse_dynamic_addr(d)?))
    } else if same(source, "srv") {
        Ok(DynamicUpstreamConfig::Srv(parse_dynamic_srv(d)?))
    } else {
        let reason = cat3(
            "`",
            source,
            "` is not a DNS source; use `a` for address records or `srv` for service records",
        );
        Err(invalid("dynamic source", reason.as_str()))
    }
}

} // verus!
