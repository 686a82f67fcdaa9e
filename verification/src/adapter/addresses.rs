//! What a site address means.

use crate::adapter::profile::Profile;
use crate::ast::server::{ListenAddr, ListenAddrV, Scheme};
use crate::error;
use crate::error::{invalid, AdapterError, ErrorV};
use crate::ip;
use crate::ip::is_ip;
use crate::text;
use crate::text::{
    after, among, before, cat3, cut_at, find, find_last, finishes, holds, mentions, parse_u16, same,
    strip, strip_end,
};
use vstd::prelude::*;

verus! {

/// A localhost-style host or an IP literal, which is served with a local certificate by default.
pub open spec fn local_https_default(name: Seq<char>) -> bool {
    name == "localhost"@ || text::ends(name, ".localhost"@) || text::ends(name, ".local"@)
        || text::ends(name, ".internal"@) || ip::literal(name) is Some
}

/// Whether a site name is a localhost-style host or an IP literal.
pub fn is_local_https_default(name: &str) -> (r: bool)
    ensures
        r == local_https_default(name@),
{
    same(name, "localhost") || finishes(name, ".localhost") || finishes(name, ".local")
        || finishes(name, ".internal") || is_ip(name)
}

/// An IP literal, bare or in brackets.
pub open spec fn ip_literal(host: Seq<char>) -> bool {
    ip::literal(host) is Some || match text::stripped(host, "["@) {
        Some(open) => match text::stripped_end(open, "]"@) {
            Some(inner) => ip::literal(inner) is Some,
            None => false,
        },
        None => false,
    }
}

/// Whether `host` is an IP literal, bare or in brackets, rather than a hostname.
pub fn is_ip_literal(host: &str) -> (r: bool)
    ensures
        r == ip_literal(host@),
{
    if is_ip(host) {
        return true;
    }
    match strip(host, "[") {
        Some(open) => match strip_end(open, "]") {
            Some(inner) => is_ip(inner),
            None => false,
        },
        None => false,
    }
}

/// An address without `http://` or `https://`.
pub open spec fn schemeless(addr: Seq<char>) -> Seq<char> {
    match text::stripped(addr, "https://"@) {
        Some(rest) => rest,
        None => match text::stripped(addr, "http://"@) {
            Some(rest) => rest,
            None => addr,
        },
    }
}

fn without_scheme<'a>(addr: &'a str) -> (r: &'a str)
    ensures
        r@ == schemeless(addr@),
{
    match strip(addr, "https://") {
        Some(rest) => rest,
        None => match strip(addr, "http://") {
            Some(rest) => rest,
            None => addr,
        },
    }
}

/// What stands before the first slash.
pub open spec fn head(addr: Seq<char>) -> Seq<char> {
    match addr.index_of_first('/') {
        Some(i) => addr.take(i),
        None => addr,
    }
}

/// The networks that can stand before a slash.
pub open spec fn networks() -> Seq<Seq<char>> {
    seq![
        "tcp"@,
        "tcp4"@,
        "tcp6"@,
        "udp"@,
        "udp4"@,
        "udp6"@,
        "ip"@,
        "ip4"@,
        "ip6"@,
        "unix"@,
        "unixgram"@,
        "unixpacket"@,
    ]
}

fn names_network(addr: &str) -> (r: bool)
    ensures
        r == networks().contains(head(addr@)),
{
    let list = vec![
        "tcp",
        "tcp4",
        "tcp6",
        "udp",
        "udp4",
        "udp6",
        "ip",
        "ip4",
        "ip6",
        "unix",
        "unixgram",
        "unixpacket",
    ];
    assert(list.deep_view() =~= networks());
    match find(addr, '/') {
        Some(i) => among(before(addr, i), &list),
        None => among(addr, &list),
    }
}

/// What stands after the last colon.
pub open spec fn last_part(s: Seq<char>) -> Option<Seq<char>> {
    match s.index_of_last(':') {
        Some(i) => Some(s.skip(i + 1)),
        None => None,
    }
}

fn after_last_colon<'a>(s: &'a str) -> (r: Option<&'a str>)
    ensures
        r.deep_view() == last_part(s@),
{
    match find_last(s, ':') {
        Some(i) => {
            let n: usize = s.unicode_len();
            Some(after(s, i + 1))
        },
        None => None,
    }
}

/// A network prefix, a Unix socket, a port range or an IPv6 zone.
pub open spec fn unsupported_address(addr: Seq<char>) -> bool {
    let bare = schemeless(addr);
    (bare.contains('[') && bare.contains('%')) || networks().contains(head(bare)) || match
    last_part(bare) {
        Some(port) => port.contains('-'),
        None => false,
    }
}

/// Whether an address uses a network prefix, a Unix socket, a port range or an IPv6 zone, none of
/// which can be honoured.
pub fn looks_like_unsupported_address(addr: &str) -> (r: bool)
    ensures
        r == unsupported_address(addr@),
{
    let bare = without_scheme(addr);
    if holds(bare, '[') && holds(bare, '%') {
        return true;
    }
    if names_network(bare) {
        return true;
    }
    match after_last_colon(bare) {
        Some(port) => holds(port, '-'),
        None => false,
    }
}

/// Whether a scheme can stand in a site address.
pub open spec fn scheme_allowed(addr: Seq<char>) -> Result<(), ErrorV> {
    match text::cut(addr, "://"@) {
        None => Ok(()),
        Some((scheme, rest)) => if scheme == "http"@ || scheme == "https"@ {
            Ok(())
        } else if scheme == "ws"@ || scheme == "wss"@ {
            Err(
                ErrorV::InvalidArgument(
                    "site address"@,
                    "the scheme `"@ + scheme
                        + "://` only exists in browsers; a server listens with `http://` or `https://`"@,
                ),
            )
        } else {
            Err(
                ErrorV::InvalidArgument(
                    "site address"@,
                    "unsupported URL scheme `"@ + scheme + "://`"@,
                ),
            )
        },
    }
}

fn check_scheme(addr: &str) -> (r: Result<(), AdapterError>)
    ensures
        error::outcome(r) == scheme_allowed(addr@),
{
    match cut_at(addr, "://") {
        None => Ok(()),
        Some((scheme, rest)) => {
            if same(scheme, "http") || same(scheme, "https") {
                return Ok(());
            }
            let reason = if same(scheme, "ws") || same(scheme, "wss") {
                cat3(
                    "the scheme `",
                    scheme,
                    "://` only exists in browsers; a server listens with `http://` or `https://`",
                )
            } else {
                cat3("unsupported URL scheme `", scheme, "://`")
            };
            Err(invalid("site address", reason.as_str()))
        },
    }
}

/// An address from its last closing bracket on, or the whole address.
pub open spec fn after_bracket(bare: Seq<char>) -> Seq<char> {
    match bare.index_of_last(']') {
        Some(i) => bare.skip(i),
        None => bare,
    }
}

/// Whether the port of an address exists.
pub open spec fn port_allowed(addr: Seq<char>) -> Result<(), ErrorV> {
    match last_part(after_bracket(schemeless(addr))) {
        Some(port) => if port.len() > 0 && text::digits(port) && text::as_u16(port) is None {
            Err(
                ErrorV::InvalidArgument(
                    "site address"@,
                    "port "@ + port + " is out of range"@,
                ),
            )
        } else {
            Ok(())
        },
        None => Ok(()),
    }
}

fn is_digits(s: &str) -> (r: bool)
    ensures
        r == text::digits(s@),
{
    let x = text::chars_of(s);
    let mut i: usize = 0;
    while i < x.len()
        invariant
            i <= x.len(),
            x@ == s@,
            forall|j: int| 0 <= j < i ==> text::digit(#[trigger] s@[j]),
        decreases x.len() - i,
    {
        if !text::is_digit(x[i]) {
            assert(!text::digit(s@[i as int]));
            return false;
        }
        i += 1;
    }
    true
}

fn check_port(addr: &str) -> (r: Result<(), AdapterError>)
    ensures
        error::outcome(r) == port_allowed(addr@),
{
    let bare = without_scheme(addr);
    let tail = match find_last(bare, ']') {
        Some(i) => after(bare, i),
        None => bare,
    };
    if let Some(port) = after_last_colon(tail) {
        if port.unicode_len() > 0 && is_digits(port) && parse_u16(port).is_none() {
            let reason = cat3("port ", port, " is out of range");
            return Err(invalid("site address", reason.as_str()));
        }
    }
    Ok(())
}

/// Whether an address can mean anything at all.
pub open spec fn possible_address(addr: Seq<char>) -> Result<(), ErrorV> {
    match scheme_allowed(addr) {
        Err(e) => Err(e),
        Ok(()) => port_allowed(addr),
    }
}

/// Refuses an address that cannot mean anything, before it becomes a listener that nobody can
/// reach. Port `0` may stand: it lets the operating system choose.
pub fn reject_impossible_address(addr: &str) -> (r: Result<(), AdapterError>)
    ensures
        error::outcome(r) == possible_address(addr@),
{
    check_scheme(addr)?;
    check_port(addr)
}

/// A site address, taken apart.
pub struct ParsedAddress {
    pub hostname: String,
    pub listen: ListenAddr,
    /// Whether the address itself named a listener: by a scheme, a port or an IP literal.
    pub explicit: bool,
}

/// The mathematical value of a [`ParsedAddress`].
#[verifier::ext_equal]
pub struct ParsedAddressV {
    pub hostname: Seq<char>,
    pub listen: ListenAddrV,
    pub explicit: bool,
}

impl DeepView for ParsedAddress {
    type V = ParsedAddressV;

    open spec fn deep_view(&self) -> ParsedAddressV {
        ParsedAddressV {
            hostname: self.hostname@,
            listen: self.listen.deep_view(),
            explicit: self.explicit,
        }
    }
}

/// The host that binds every interface.
pub open spec fn every_interface(profile: Profile) -> Seq<char> {
    match profile {
        Profile::Core => "0.0.0.0"@,
        Profile::Extended => "[::]"@,
    }
}

/// The host that binds every interface.
pub fn any_host(profile: Profile) -> (r: &'static str)
    ensures
        r@ == every_interface(profile),
{
    match profile {
        Profile::Core => "0.0.0.0",
        Profile::Extended => "[::]",
    }
}

/// The host and the port that stand after the scheme, and whether the port was written.
pub open spec fn host_and_port(profile: Profile, scheme: Scheme, rest: Seq<char>) -> Option<
    (Seq<char>, u16, bool),
> {
    match text::stripped(rest, ":"@) {
        Some(port) => match text::as_u16(port) {
            Some(p) => Some((every_interface(profile), p, true)),
            None => None,
        },
        None => match rest.index_of_last(':') {
            Some(i) => match text::as_u16(rest.skip(i + 1)) {
                Some(p) => Some((rest.take(i), p, true)),
                None => None,
            },
            None => Some(
                (
                    rest,
                    if scheme == Scheme::Https {
                        443
                    } else {
                        80
                    },
                    false,
                ),
            ),
        },
    }
}

fn read_host_and_port(profile: Profile, scheme: Scheme, rest: &str) -> (r: Option<
    (String, u16, bool),
>)
    ensures
        r.deep_view() == host_and_port(profile, scheme, rest@),
{
    match strip(rest, ":") {
        Some(port) => match parse_u16(port) {
            Some(p) => Some((any_host(profile).to_owned(), p, true)),
            None => None,
        },
        None => match find_last(rest, ':') {
            Some(i) => {
                let n: usize = rest.unicode_len();
                match parse_u16(after(rest, i + 1)) {
                    Some(p) => Some((before(rest, i).to_owned(), p, true)),
                    None => None,
                }
            },
            None => {
                let p: u16 = if scheme == Scheme::Https {
                    443
                } else {
                    80
                };
                Some((rest.to_owned(), p, false))
            },
        },
    }
}

/// What a site address such as `http://example.com:8080`, `:8080` or `example.com` means.
///
/// Only an IP literal is an address to bind; a hostname selects the site while the listener binds
/// every interface.
pub open spec fn server_address(profile: Profile, addr: Seq<char>) -> Option<ParsedAddressV> {
    let secure = text::starts(addr, "https://"@);
    let scheme = if secure {
        Scheme::Https
    } else {
        Scheme::Http
    };
    let rest = schemeless(addr);
    let named = text::position(addr, "://"@) is Some;
    if networks().contains(head(addr)) || rest.len() == 0 {
        None
    } else {
        match host_and_port(profile, scheme, rest) {
            None => None,
            Some((hostname, port, written)) => Some(
                ParsedAddressV {
                    hostname,
                    listen: ListenAddrV {
                        scheme,
                        host: if ip_literal(hostname) {
                            hostname
                        } else {
                            every_interface(profile)
                        },
                        port: Some(port),
                        force_plaintext: profile == Profile::Extended && named && !secure,
                        proxy_protocol: false,
                    },
                    explicit: named || written || ip_literal(hostname),
                },
            ),
        }
    }
}

/// Takes a site address apart.
pub fn parse_server_address(profile: Profile, addr: &str) -> (r: Option<ParsedAddress>)
    ensures
        r.deep_view() == server_address(profile, addr@),
{
    if names_network(addr) {
        return None;
    }
    let secure = strip(addr, "https://").is_some();
    let scheme = if secure {
        Scheme::Https
    } else {
        Scheme::Http
    };
    let rest = without_scheme(addr);
    let named = mentions(addr, "://");
    if rest.unicode_len() == 0 {
        return None;
    }
    match read_host_and_port(profile, scheme, rest) {
        None => None,
        Some((hostname, port, written)) => {
            let literal = is_ip_literal(hostname.as_str());
            let host = if literal {
                hostname.clone()
            } else {
                any_host(profile).to_owned()
            };
            let listen = ListenAddr {
                scheme,
                host,
                port: Some(port),
                force_plaintext: profile == Profile::Extended && named && !secure,
                proxy_protocol: false,
            };
            Some(ParsedAddress { hostname, listen, explicit: named || written || literal })
        },
    }
}

} // verus!
