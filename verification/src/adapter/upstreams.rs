//! The upstreams of a reverse proxy.

use crate::adapter::content;
use crate::adapter::content::without_matchers;
use crate::adapter::profile::Profile;
use crate::ast::proxy::{ProxyConfig, ProxyConfigV, ProxyUpstreamConfig, ProxyUpstreamConfigV};
use crate::error;
use crate::error::{invalid, miscount, unknown_in, unsupported, AdapterError, ErrorV};
use crate::fold;
use crate::fold::{each_text, fold_directives};
use crate::syntax::{Directive, DirectiveV};
use crate::text;
use crate::text::{
    after, before, begins, begins_with, cat3, find, find_last, parse_u16, parse_u32, same, show,
};
use vstd::prelude::*;

verus! {

// ---------------------------------------------------------------------------
// Port ranges
// ---------------------------------------------------------------------------
/// The host and the first and last port of an address whose port is a range.
pub open spec fn port_range(address: Seq<char>) -> Option<(Seq<char>, u16, u16)> {
    match address.index_of_last(':') {
        None => None,
        Some(i) => {
            let ports = address.skip(i + 1);
            match ports.index_of_first('-') {
                None => None,
                Some(j) => match (text::as_u16(ports.take(j)), text::as_u16(ports.skip(j + 1))) {
                    (Some(first), Some(last)) => if first <= last {
                        Some((address.take(i), first, last))
                    } else {
                        None
                    },
                    _ => None,
                },
            }
        },
    }
}

/// One address for each port of a range; an address without a range stands for itself.
pub open spec fn one_per_port(address: Seq<char>) -> Seq<Seq<char>> {
    match port_range(address) {
        Some((host, first, last)) => Seq::new(
            (last - first + 1) as nat,
            |k: int| host + ":"@ + text::shown((first + k) as nat),
        ),
        None => seq![address],
    }
}

/// The addresses of `list`, with one for each port of a range.
pub open spec fn expanded(list: Seq<Seq<char>>) -> Seq<Seq<char>>
    decreases list.len(),
{
    if list.len() == 0 {
        Seq::empty()
    } else {
        expanded(list.drop_last()) + one_per_port(list.last())
    }
}

fn read_port_range<'a>(address: &'a str) -> (r: Option<(&'a str, u16, u16)>)
    ensures
        r.deep_view() == port_range(address@),
        match r {
            Some((host, first, last)) => first <= last,
            None => true,
        },
{
    match find_last(address, ':') {
        None => None,
        Some(i) => {
            let n: usize = address.unicode_len();
            let ports = after(address, i + 1);
            match find(ports, '-') {
                None => None,
                Some(j) => {
                    let m: usize = ports.unicode_len();
                    match (parse_u16(before(ports, j)), parse_u16(after(ports, j + 1))) {
                        (Some(first), Some(last)) => if first <= last {
                            Some((before(address, i), first, last))
                        } else {
                            None
                        },
                        _ => None,
                    }
                },
            }
        },
    }
}

fn expand_one(address: &str) -> (r: Vec<String>)
    ensures
        r.deep_view() == one_per_port(address@),
{
    let mut out: Vec<String> = Vec::new();
    match read_port_range(address) {
        None => {
            out.push(address.to_owned());
            assert(out.deep_view() =~= seq![address@]);
            out
        },
        Some((host, first, last)) => {
            let mut k: u32 = 0;
            let count: u32 = last as u32 - first as u32 + 1;
            while k < count
                invariant
                    k <= count,
                    count == last - first + 1,
                    first <= last,
                    out@.len() == k,
                    forall|j: int|
                        0 <= j < k ==> (#[trigger] out@[j])@ == host@ + ":"@ + text::shown(
                            (first + j) as nat,
                        ),
                decreases count - k,
            {
                let port = show((first as u32 + k) as u64);
                out.push(cat3(host, ":", port.as_str()));
                k += 1;
            }
            assert(out.deep_view() =~= one_per_port(address@));
            out
        },
    }
}

/// Replaces each address whose port is a range by one address for each port.
pub fn expand_upstream_port_ranges(list: &Vec<String>) -> (r: Vec<String>)
    ensures
        r.deep_view() == expanded(list.deep_view()),
{
    let mut out: Vec<String> = Vec::new();
    let mut i: usize = 0;
    let ghost all = list.deep_view();
    assert(out.deep_view() =~= expanded(all.take(0)));
    while i < list.len()
        invariant
            i <= list.len(),
            all == list.deep_view(),
            out.deep_view() == expanded(all.take(i as int)),
        decreases list.len() - i,
    {
        assert(all.take(i + 1).drop_last() =~= all.take(i as int));
        assert(all.take(i + 1).last() == list@[i as int]@);
        let mut more = expand_one(list[i].as_str());
        let ghost held = out.deep_view();
        let ghost added = more.deep_view();
        out.append(&mut more);
        assert(out.deep_view() =~= held + added);
        i += 1;
    }
    assert(all.take(i as int) =~= all);
    out
}

/// Addresses without port ranges stay as they are.
pub proof fn plain_addresses_stay(list: Seq<Seq<char>>)
    requires
        forall|i: int| 0 <= i < list.len() ==> port_range(#[trigger] list[i]) is None,
    ensures
        expanded(list) == list,
    decreases list.len(),
{
    if list.len() > 0 {
        plain_addresses_stay(list.drop_last());
        assert(port_range(list[list.len() - 1]) is None);
        assert(list.drop_last() + seq![list.last()] =~= list);
    } else {
        assert(expanded(list) =~= list);
    }
}

// ---------------------------------------------------------------------------
// Upstreams on the line of the directive
// ---------------------------------------------------------------------------
/// An argument that names an upstream.
pub open spec fn upstream_argument(profile: Profile, arg: Seq<char>) -> Result<Seq<char>, ErrorV> {
    match profile {
        Profile::Core => if text::starts(arg, "unix"@) {
            Err(
                ErrorV::UnsupportedFeature(
                    "reverse_proxy"@,
                    "`"@ + arg
                        + "` is a Unix-socket upstream address; Pingclair does not support Unix-socket upstreams yet"@,
                ),
            )
        } else {
            Ok(arg)
        },
        Profile::Extended => if text::starts_char(arg, '/') {
            Err(
                ErrorV::UnsupportedFeature(
                    "reverse_proxy"@,
                    "`"@ + arg
                        + "` is an inline path matcher; matcher tokens inside route/handle blocks are not implemented yet"@,
                ),
            )
        } else {
            Ok(arg)
        },
    }
}

/// A proxy to the upstreams of `list`, each with the same share.
pub open spec fn proxy_to(list: Seq<Seq<char>>) -> ProxyConfigV {
    ProxyConfigV {
        upstreams: list,
        upstream_options: list.map_values(
            |address: Seq<char>| ProxyUpstreamConfigV { address, weight: 1, backup: false },
        ),
        ..ProxyConfigV::unset()
    }
}

/// The proxy that the arguments of `reverse_proxy` describe; a named matcher is no upstream.
pub open spec fn proxy_line(profile: Profile, list: Seq<Seq<char>>) -> Result<
    ProxyConfigV,
    ErrorV,
> {
    error::with(
        fold::each(
            |arg: Seq<char>| upstream_argument(profile, arg),
            content::unmarked(list),
        ),
        |named: Seq<Seq<char>>| proxy_to(expanded(named)),
    )
}

fn read_upstream_argument(profile: Profile, arg: &str) -> (r: Result<String, AdapterError>)
    ensures
        error::outcome(r) == upstream_argument(profile, arg@),
{
    match profile {
        Profile::Core => if begins(arg, "unix") {
            let reason = cat3(
                "`",
                arg,
                "` is a Unix-socket upstream address; Pingclair does not support Unix-socket upstreams yet",
            );
            Err(unsupported("reverse_proxy", reason.as_str()))
        } else {
            Ok(arg.to_owned())
        },
        Profile::Extended => if begins_with(arg, '/') {
            let reason = cat3(
                "`",
                arg,
                "` is an inline path matcher; matcher tokens inside route/handle blocks are not implemented yet",
            );
            Err(unsupported("reverse_proxy", reason.as_str()))
        } else {
            Ok(arg.to_owned())
        },
    }
}

fn make_proxy(list: Vec<String>) -> (r: ProxyConfig)
    ensures
        r.deep_view() == proxy_to(list.deep_view()),
{
    let mut p = ProxyConfig::unset();
    let mut i: usize = 0;
    let mut options: Vec<ProxyUpstreamConfig> = Vec::new();
    while i < list.len()
        invariant
            i <= list.len(),
            options@.len() == i,
            forall|j: int|
                0 <= j < i ==> (#[trigger] options@[j]).deep_view() == (ProxyUpstreamConfigV {
                    address: list@[j]@,
                    weight: 1,
                    backup: false,
                }),
        decreases list.len() - i,
    {
        options.push(
            ProxyUpstreamConfig { address: list[i].clone(), weight: 1, backup: false },
        );
        i += 1;
    }
    assert(options.deep_view() =~= list.deep_view().map_values(
        |address: Seq<char>| ProxyUpstreamConfigV { address, weight: 1, backup: false },
    ));
    p.upstreams = list;
    p.upstream_options = options;
    p
}

/// Reads the arguments of `reverse_proxy`.
pub fn read_proxy_line(profile: Profile, list: &Vec<String>) -> (r: Result<
    ProxyConfig,
    AdapterError,
>)
    ensures
        error::outcome(r) == proxy_line(profile, list.deep_view()),
{
    let words = without_matchers(list);
    let read = |arg: &str| -> (r: Result<String, AdapterError>)
        ensures
            error::outcome(r) == upstream_argument(profile, arg@),
        { read_upstream_argument(profile, arg) };
    let named = each_text(
        read,
        &words,
        Ghost(|arg: Seq<char>| upstream_argument(profile, arg)),
    )?;
    let list = expand_upstream_port_ranges(&named);
    Ok(make_proxy(list))
}

// ---------------------------------------------------------------------------
// Upstreams in the block
// ---------------------------------------------------------------------------
/// One line of a `to` block.
pub open spec fn upstream_option(u: ProxyUpstreamConfigV, d: DirectiveV) -> Result<
    ProxyUpstreamConfigV,
    ErrorV,
> {
    if d.name == "weight"@ {
        if d.args.len() == 0 {
            Err(ErrorV::ArgumentCount("reverse_proxy to weight"@, 1, 0))
        } else {
            match text::as_u32(d.args[0]) {
                None => Err(ErrorV::InvalidArgument("reverse_proxy to weight"@, d.args[0])),
                Some(weight) => if weight == 0 {
                    Err(
                        ErrorV::InvalidArgument(
                            "reverse_proxy to weight"@,
                            "weight must be greater than zero"@,
                        ),
                    )
                } else {
                    Ok(ProxyUpstreamConfigV { weight, ..u })
                },
            }
        }
    } else if d.name == "backup"@ {
        Ok(
            ProxyUpstreamConfigV {
                backup: d.args.len() == 0 || (d.args[0] != "false"@ && d.args[0] != "off"@),
                ..u
            },
        )
    } else {
        Err(ErrorV::UnknownDirective("reverse_proxy to: "@ + d.name))
    }
}

/// One more upstream for a proxy.
pub open spec fn with_upstream(p: ProxyConfigV, u: ProxyUpstreamConfigV) -> ProxyConfigV {
    ProxyConfigV {
        upstreams: p.upstreams.push(u.address),
        upstream_options: p.upstream_options.push(u),
        ..p
    }
}

/// The addresses of `list` as further upstreams, each with the options of `lines`.
pub open spec fn with_upstreams(
    p: ProxyConfigV,
    list: Seq<Seq<char>>,
    lines: Seq<DirectiveV>,
) -> Result<ProxyConfigV, ErrorV>
    decreases list.len(),
{
    if list.len() == 0 {
        Ok(p)
    } else {
        match fold::fold(
            |u: ProxyUpstreamConfigV, o: DirectiveV| upstream_option(u, o),
            ProxyUpstreamConfigV { address: list[0], weight: 1, backup: false },
            lines,
        ) {
            Err(e) => Err(e),
            Ok(u) => with_upstreams(with_upstream(p, u), list.drop_first(), lines),
        }
    }
}

/// More upstreams leave the response handlers as they are.
pub proof fn lemma_upstreams_keep_handlers(
    p: ProxyConfigV,
    list: Seq<Seq<char>>,
    lines: Seq<DirectiveV>,
)
    ensures
        match with_upstreams(p, list, lines) {
            Ok(q) => q.handle_response == p.handle_response,
            Err(_) => true,
        },
    decreases list.len(),
{
    if list.len() > 0 {
        if let Ok(u) = fold::fold(
            |u: ProxyUpstreamConfigV, o: DirectiveV| upstream_option(u, o),
            ProxyUpstreamConfigV { address: list[0], weight: 1, backup: false },
            lines,
        ) {
            lemma_upstreams_keep_handlers(with_upstream(p, u), list.drop_first(), lines);
        }
    }
}

/// `to <address...>`, or `to <address> { ... }`.
pub open spec fn further_upstreams(p: ProxyConfigV, d: DirectiveV) -> Result<ProxyConfigV, ErrorV> {
    match d.block {
        Some(lines) => if d.args.len() == 0 {
            Err(ErrorV::ArgumentCount("reverse_proxy to"@, 1, 0))
        } else if d.args.len() != 1 {
            Err(
                ErrorV::InvalidArgument(
                    "reverse_proxy to"@,
                    "a block form takes exactly one upstream address"@,
                ),
            )
        } else {
            with_upstreams(p, expanded(d.args), lines)
        },
        None => if d.args.len() == 0 {
            Err(ErrorV::ArgumentCount("reverse_proxy to"@, 1, 0))
        } else {
            with_upstreams(p, expanded(d.args), Seq::empty())
        },
    }
}

fn read_upstream_option(u: ProxyUpstreamConfig, d: &Directive) -> (r: Result<
    ProxyUpstreamConfig,
    AdapterError,
>)
    ensures
        error::outcome(r) == upstream_option(u.deep_view(), d.deep_view()),
{
    let mut u = u;
    let name = d.name.as_str();
    if same(name, "weight") {
        if d.args.len() == 0 {
            return Err(miscount("reverse_proxy to weight", 1, 0));
        }
        match parse_u32(d.args[0].as_str()) {
            None => {
                return Err(invalid("reverse_proxy to weight", d.args[0].as_str()));
            },
            Some(weight) => {
                if weight == 0 {
                    return Err(
                        invalid("reverse_proxy to weight", "weight must be greater than zero"),
                    );
                }
                u.weight = weight;
            },
        }
    } else if same(name, "backup") {
        u.backup = d.args.len() == 0 || (!same(d.args[0].as_str(), "false") && !same(
            d.args[0].as_str(),
            "off",
        ));
    } else {
        return Err(unknown_in("reverse_proxy to: ", name));
    }
    Ok(u)
}

fn add_upstreams(p: ProxyConfig, list: &Vec<String>, lines: &Vec<Directive>) -> (r: Result<
    ProxyConfig,
    AdapterError,
>)
    ensures
        error::outcome(r) == with_upstreams(
            p.deep_view(),
            list.deep_view(),
            crate::syntax::directives_view(lines@),
        ),
{
    let ghost all = list.deep_view();
    let ghost options = crate::syntax::directives_view(lines@);
    let mut q = p;
    let mut i: usize = 0;
    assert(all.skip(0) =~= all);
    while i < list.len()
        invariant
            i <= list.len(),
            all == list.deep_view(),
            options == crate::syntax::directives_view(lines@),
            with_upstreams(p.deep_view(), all, options) == with_upstreams(
                q.deep_view(),
                all.skip(i as int),
                options,
            ),
        decreases list.len() - i,
    {
        assert(all.skip(i as int)[0] == list@[i as int]@);
        assert(all.skip(i as int).drop_first() =~= all.skip(i + 1));
        let u = fold_directives(
            read_upstream_option,
            ProxyUpstreamConfig { address: list[i].clone(), weight: 1, backup: false },
            lines,
            Ghost(|u: ProxyUpstreamConfigV, o: DirectiveV| upstream_option(u, o)),
        )?;
        let ghost held = q.deep_view();
        q.upstreams.push(u.address.clone());
        q.upstream_options.push(u);
        assert(q.upstreams.deep_view() =~= held.upstreams.push(u.deep_view().address));
        assert(q.upstream_options.deep_view() =~= held.upstream_options.push(u.deep_view()));
        assert(q.deep_view() == with_upstream(held, u.deep_view()));
        i += 1;
    }
    Ok(q)
}

/// Reads a `to` line.
pub fn read_further_upstreams(p: ProxyConfig, d: &Directive) -> (r: Result<
    ProxyConfig,
    AdapterError,
>)
    ensures
        error::outcome(r) == further_upstreams(p.deep_view(), d.deep_view()),
{
    if d.args.len() == 0 {
        return Err(miscount("reverse_proxy to", 1, 0));
    }
    match &d.block {
        Some(block) => {
            if d.args.len() != 1 {
                return Err(
                    invalid(
                        "reverse_proxy to",
                        "a block form takes exactly one upstream address",
                    ),
                );
            }
            let list = expand_upstream_port_ranges(&d.args);
            add_upstreams(p, &list, &block.directives)
        },
        None => {
            let list = expand_upstream_port_ranges(&d.args);
            let none: Vec<Directive> = Vec::new();
            assert(crate::syntax::directives_view(none@) =~= Seq::<DirectiveV>::empty());
            add_upstreams(p, &list, &none)
        },
    }
}

} // verus!
