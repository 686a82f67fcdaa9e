//! What site addresses mean.

use crate::adapter::addresses;
use crate::adapter::addresses::ParsedAddressV;
use crate::adapter::handler_laws;
use crate::adapter::profile::Profile;
use crate::ast::server::{ListenAddrV, Scheme};
use crate::text;
use vstd::prelude::*;

verus! {

/// A host that can be written in an address: not empty, without a colon or a slash, and not the
/// name of a network.
pub open spec fn plain_host(host: Seq<char>) -> bool {
    host.len() > 0 && !host.contains(':') && !host.contains('/') && !addresses::networks().contains(
        host,
    )
}

/// The names of networks hold no colon.
proof fn lemma_networks(s: Seq<char>)
    requires
        s.contains(':'),
    ensures
        !addresses::networks().contains(s),
{
    let all = addresses::networks();
    reveal_strlit("tcp");
    reveal_strlit("tcp4");
    reveal_strlit("tcp6");
    reveal_strlit("udp");
    reveal_strlit("udp4");
    reveal_strlit("udp6");
    reveal_strlit("ip");
    reveal_strlit("ip4");
    reveal_strlit("ip6");
    reveal_strlit("unix");
    reveal_strlit("unixgram");
    reveal_strlit("unixpacket");
    assert(!"tcp"@.contains(':') && !"tcp4"@.contains(':') && !"tcp6"@.contains(':'));
    assert(!"udp"@.contains(':') && !"udp4"@.contains(':') && !"udp6"@.contains(':'));
    assert(!"ip"@.contains(':') && !"ip4"@.contains(':') && !"ip6"@.contains(':'));
    assert(!"unix"@.contains(':') && !"unixgram"@.contains(':') && !"unixpacket"@.contains(':'));
    if all.contains(s) {
        let i = choose|i: int| 0 <= i < all.len() && all[i] == s;
        assert(0 <= i < 12);
    }
}

/// Where a text occurs, it is found.
proof fn lemma_found(s: Seq<char>, p: Seq<char>, from: int, at: int)
    requires
        0 <= from <= at,
        at + p.len() <= s.len(),
        s.subrange(at, at + p.len()) == p,
    ensures
        text::position_from(s, p, from) is Some,
    decreases at - from,
{
    if from < at {
        lemma_found(s, p, from + 1, at);
    }
}

/// Without a slash there is no scheme.
pub proof fn lemma_not_found(s: Seq<char>, from: int)
    requires
        !s.contains('/'),
        0 <= from,
    ensures
        text::position_from(s, "://"@, from) is None,
    decreases s.len() + 1 - from,
{
    reveal_strlit("://");
    assert("://"@.len() == 3 && "://"@[1] == '/');
    if from + 3 <= s.len() {
        if s.subrange(from, from + 3) == "://"@ {
            assert(s.subrange(from, from + 3)[1] == s[from + 1]);
            assert(s.contains('/'));
        }
        lemma_not_found(s, from + 1);
    }
}

/// The host and the port behind the scheme.
proof fn lemma_host_and_port(profile: Profile, scheme: Scheme, host: Seq<char>, port: u16)
    requires
        plain_host(host),
    ensures
        addresses::host_and_port(profile, scheme, host) == Some(
            (
                host,
                if scheme == Scheme::Https {
                    443u16
                } else {
                    80u16
                },
                false,
            ),
        ),
        addresses::host_and_port(
            profile,
            scheme,
            host + seq![':'] + text::shown(port as nat),
        ) == Some((host, port, true)),
        addresses::host_and_port(profile, scheme, seq![':'] + text::shown(port as nat)) == Some(
            (addresses::every_interface(profile), port, true),
        ),
{
    reveal_strlit(":");
    assert(":"@ =~= seq![':']);
    handler_laws::lemma_code(port);
    text::a_shown_number_reads_back(port as nat);
    let digits = text::shown(port as nat);
    host.index_of_last_ensures(':');
    assert(!text::starts(host, ":"@)) by {
        if text::starts(host, ":"@) {
            assert(host.take(1)[0] == host[0]);
            assert(host.contains(':'));
        }
    }
    let both = host + seq![':'] + digits;
    let n = host.len() as int;
    assert(both[0] == host[0]);
    assert(!text::starts(both, ":"@)) by {
        if text::starts(both, ":"@) {
            assert(both.take(1)[0] == both[0]);
            assert(host.contains(':'));
        }
    }
    assert(both[n] == ':');
    assert(both.contains(':'));
    both.index_of_last_ensures(':');
    let i = both.index_of_last(':')->Some_0;
    assert(i == n) by {
        if i > n {
            assert(text::digit(digits[i - n - 1]));
        }
    }
    assert(both.skip(n + 1) =~= digits);
    assert(both.take(n) =~= host);
    let bare = seq![':'] + digits;
    assert(bare.take(1) =~= ":"@);
    assert(bare.skip(1) =~= digits);
}

/// What follows `https://` or `http://`.
proof fn lemma_schemes(rest: Seq<char>)
    ensures
        addresses::schemeless("https://"@ + rest) == rest,
        addresses::schemeless("http://"@ + rest) == rest,
        text::starts("https://"@ + rest, "https://"@),
        !text::starts("http://"@ + rest, "https://"@),
        text::position("https://"@ + rest, "://"@) is Some,
        text::position("http://"@ + rest, "://"@) is Some,
        !addresses::networks().contains(addresses::head("https://"@ + rest)),
        !addresses::networks().contains(addresses::head("http://"@ + rest)),
{
    reveal_strlit("https://");
    reveal_strlit("http://");
    reveal_strlit("://");
    let a = "https://"@ + rest;
    let b = "http://"@ + rest;
    assert("https://"@.len() == 8 && "http://"@.len() == 7 && "://"@.len() == 3);
    assert(a.take(8) =~= "https://"@);
    assert(a.skip(8) =~= rest);
    assert(b.take(7) =~= "http://"@);
    assert(b.skip(7) =~= rest);
    assert("https://"@[4] == 's' && "http://"@[4] == ':');
    assert(!text::starts(b, "https://"@)) by {
        if text::starts(b, "https://"@) {
            assert(b.take(8)[4] == b[4]);
        }
    }
    assert(a.subrange(5, 8) =~= "://"@);
    assert(b.subrange(4, 7) =~= "://"@);
    lemma_found(a, "://"@, 0, 5);
    lemma_found(b, "://"@, 0, 4);
    assert(a[6] == '/' && b[5] == '/');
    assert(a.contains('/') && b.contains('/'));
    a.index_of_first_ensures('/');
    b.index_of_first_ensures('/');
    let i = a.index_of_first('/')->Some_0;
    let j = b.index_of_first('/')->Some_0;
    assert(i == 6 && j == 5);
    assert(a.take(6)[5] == ':' && b.take(5)[4] == ':');
    assert(a.take(6).contains(':') && b.take(5).contains(':'));
    lemma_networks(a.take(6));
    lemma_networks(b.take(5));
}

/// The address that a site binds: an IP literal, or every interface for a host that has a name.
pub open spec fn bound(profile: Profile, host: Seq<char>) -> Seq<char> {
    if addresses::ip_literal(host) {
        host
    } else {
        addresses::every_interface(profile)
    }
}

/// A scheme selects the default port and whether the site is served in plain text.
pub proof fn a_scheme_selects_its_port(profile: Profile, host: Seq<char>)
    requires
        plain_host(host),
    ensures
        addresses::server_address(profile, host) == Some(
            ParsedAddressV {
                hostname: host,
                listen: ListenAddrV {
                    scheme: Scheme::Http,
                    host: bound(profile, host),
                    port: Some(80),
                    force_plaintext: false,
                    proxy_protocol: false,
                },
                explicit: addresses::ip_literal(host),
            },
        ),
        addresses::server_address(profile, "https://"@ + host) == Some(
            ParsedAddressV {
                hostname: host,
                listen: ListenAddrV {
                    scheme: Scheme::Https,
                    host: bound(profile, host),
                    port: Some(443),
                    force_plaintext: false,
                    proxy_protocol: false,
                },
                explicit: true,
            },
        ),
        addresses::server_address(profile, "http://"@ + host) == Some(
            ParsedAddressV {
                hostname: host,
                listen: ListenAddrV {
                    scheme: Scheme::Http,
                    host: bound(profile, host),
                    port: Some(80),
                    force_plaintext: profile == Profile::Extended,
                    proxy_protocol: false,
                },
                explicit: true,
            },
        ),
{
    lemma_schemes(host);
    lemma_bare(host);
    lemma_host_and_port(profile, Scheme::Http, host, 0);
    lemma_host_and_port(profile, Scheme::Https, host, 0);
}

/// Without a slash an address has no scheme.
proof fn lemma_bare(s: Seq<char>)
    requires
        s.len() > 0,
        !s.contains('/'),
    ensures
        addresses::schemeless(s) == s,
        addresses::head(s) == s,
        !text::starts(s, "https://"@),
        text::position(s, "://"@) is None,
{
    reveal_strlit("https://");
    reveal_strlit("http://");
    lemma_not_found(s, 0);
    s.index_of_first_ensures('/');
    assert("https://"@[6] == '/' && "http://"@[5] == '/');
    if text::starts(s, "https://"@) {
        assert(s.take(8)[6] == s[6]);
        assert(s.contains('/'));
    }
    if text::starts(s, "http://"@) {
        assert(s.take(7)[5] == s[5]);
        assert(s.contains('/'));
    }
}

/// A port that is written is the port that the site listens on, whatever the scheme.
pub proof fn a_written_port_is_listened_on(profile: Profile, host: Seq<char>, port: u16)
    requires
        plain_host(host),
    ensures
        addresses::server_address(
            profile,
            host + seq![':'] + text::shown(port as nat),
        ) matches Some(p) && (p.hostname == host && p.listen.port == Some(port) && p.listen.scheme
            == Scheme::Http && p.listen.host == bound(profile, host) && !p.listen.force_plaintext
            && p.explicit),
        addresses::server_address(
            profile,
            "https://"@ + (host + seq![':'] + text::shown(port as nat)),
        ) matches Some(p) && (p.hostname == host && p.listen.port == Some(port) && p.listen.scheme
            == Scheme::Https && p.listen.host == bound(profile, host) && !p.listen.force_plaintext
            && p.explicit),
        addresses::server_address(
            profile,
            "http://"@ + (host + seq![':'] + text::shown(port as nat)),
        ) matches Some(p) && (p.hostname == host && p.listen.port == Some(port) && p.listen.scheme
            == Scheme::Http && p.listen.host == bound(profile, host) && (p.listen.force_plaintext
            <==> profile == Profile::Extended) && p.explicit),
        addresses::server_address(profile, seq![':'] + text::shown(port as nat)) matches Some(p)
            && (p.listen.port == Some(port) && p.listen.scheme == Scheme::Http && p.listen.host
            == addresses::every_interface(profile) && p.explicit),
{
    let digits = text::shown(port as nat);
    let both = host + seq![':'] + digits;
    let bare = seq![':'] + digits;
    text::a_shown_number_reads_back(port as nat);
    assert(!both.contains('/')) by {
        if both.contains('/') {
            let i = choose|i: int| 0 <= i < both.len() && both[i] == '/';
            if i < host.len() {
                assert(host.contains('/'));
            } else if i > host.len() {
                assert(text::digit(digits[i - host.len() - 1]));
            }
        }
    }
    assert(!bare.contains('/')) by {
        if bare.contains('/') {
            let i = choose|i: int| 0 <= i < bare.len() && bare[i] == '/';
            if i > 0 {
                assert(text::digit(digits[i - 1]));
            }
        }
    }
    assert(both[host.len() as int] == ':' && bare[0] == ':');
    assert(both.contains(':') && bare.contains(':'));
    lemma_networks(both);
    lemma_networks(bare);
    lemma_bare(both);
    lemma_bare(bare);
    lemma_schemes(both);
    lemma_host_and_port(profile, Scheme::Http, host, port);
    lemma_host_and_port(profile, Scheme::Https, host, port);
}

/// Every host under a local name, and every IP literal, is served with a local certificate.
pub proof fn local_names_have_local_certificates(host: Seq<char>)
    ensures
        addresses::local_https_default("localhost"@),
        addresses::local_https_default(host + ".localhost"@),
        addresses::local_https_default(host + ".local"@),
        addresses::local_https_default(host + ".internal"@),
        crate::ip::literal(host) is Some ==> addresses::local_https_default(host),
{
    let a = host + ".localhost"@;
    let b = host + ".local"@;
    let c = host + ".internal"@;
    assert(a.skip(host.len() as int) =~= ".localhost"@);
    assert(b.skip(host.len() as int) =~= ".local"@);
    assert(c.skip(host.len() as int) =~= ".internal"@);
}

} // verus!
