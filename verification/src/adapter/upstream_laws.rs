//! What the lines that say how and where upstreams are reached mean.

use crate::adapter::args;
use crate::adapter::content;
use crate::adapter::dynamic;
use crate::adapter::dynamic::{AddrDraftV, SrvDraftV};
use crate::adapter::handler_laws;
use crate::adapter::profile::Profile;
use crate::adapter::transport;
use crate::adapter::transport::TransportDraftV;
use crate::adapter::upstreams;
use crate::ast::proxy::{
    DynamicAddrUpstreamV, DynamicSrvUpstreamV, DynamicUpstreamConfigV, FastCgiTransportConfigV,
    ProxyConfigV, ProxyUpstreamConfigV, TransportConfigV, UpstreamTlsConfigV,
};
use crate::duration;
use crate::error::ErrorV;
use crate::fold;
use crate::ip;
use crate::syntax::{line, with_block, DirectiveV};
use crate::text;
use vstd::prelude::*;

verus! {

// ---------------------------------------------------------------------------
// transport http
// ---------------------------------------------------------------------------
proof fn lemma_http_line(
    profile: Profile,
    kept: Map<Seq<char>, Seq<char>>,
    front: Seq<DirectiveV>,
    c: TransportDraftV,
    o: DirectiveV,
)
    requires
        transport::http_transport(profile, kept, front) == Ok::<TransportDraftV, ErrorV>(c),
    ensures
        transport::transport_line(profile, c, o) matches Ok(n) ==> (n.transport.tls
            == c.transport.tls ==> transport::http_transport(profile, kept, front.push(o)) == Ok::<
            TransportDraftV,
            ErrorV,
        >(n)),
        transport::transport_line(profile, c, o) matches Ok(n) ==> (
        !n.transport.tls.insecure_skip_verify ==> transport::http_transport(
            profile,
            kept,
            front.push(o),
        ) == Ok::<TransportDraftV, ErrorV>(n)),
        transport::transport_line(profile, c, o) matches Ok(n) ==> (n.transport.tls.server_name
            is None && n.transport.tls.trusted_ca_certs.len() == 0 ==> transport::http_transport(
            profile,
            kept,
            front.push(o),
        ) == Ok::<TransportDraftV, ErrorV>(n)),
        transport::transport_line(profile, c, o) matches Ok(n) ==> (
        n.transport.tls.insecure_skip_verify && (n.transport.tls.server_name is Some
            || n.transport.tls.trusted_ca_certs.len() > 0) ==> transport::http_transport(
            profile,
            kept,
            front.push(o),
        ) is Err),
{
    fold::a_last_directive_is_read_last(
        |c: TransportDraftV, o: DirectiveV| transport::transport_line(profile, c, o),
        TransportDraftV { transport: TransportConfigV::unset(), kept },
        front,
        o,
    );
}

/// The lines of an HTTP transport that every profile has are no knobs.
proof fn lemma_no_knob(name: Seq<char>)
    requires
        name == "connect_timeout"@ || name == "first_byte_timeout"@ || name
            == "between_reads_timeout"@ || name == "read_timeout"@ || name == "write_timeout"@
            || name == "tls"@ || name == "tls_server_name"@ || name == "tls_trusted_ca_certs"@
            || name == "tls_client_auth"@ || name == "tls_insecure_skip_verify"@ || name
            == "dial_timeout"@ || name == "response_header_timeout"@,
    ensures
        !transport::kept_knobs().contains(name),
{
    let all = transport::kept_knobs();
    reveal_strlit("read_buffer");
    reveal_strlit("write_buffer");
    reveal_strlit("max_response_header");
    reveal_strlit("dial_fallback_delay");
    reveal_strlit("expect_continue_timeout");
    reveal_strlit("resolvers");
    reveal_strlit("versions");
    reveal_strlit("compression");
    reveal_strlit("max_conns_per_host");
    reveal_strlit("keepalive_idle_conns_per_host");
    reveal_strlit("keepalive_interval");
    reveal_strlit("tls_renegotiation");
    reveal_strlit("tls_except_ports");
    reveal_strlit("connect_timeout");
    reveal_strlit("first_byte_timeout");
    reveal_strlit("between_reads_timeout");
    reveal_strlit("read_timeout");
    reveal_strlit("write_timeout");
    reveal_strlit("tls");
    reveal_strlit("tls_server_name");
    reveal_strlit("tls_trusted_ca_certs");
    reveal_strlit("tls_client_auth");
    reveal_strlit("tls_insecure_skip_verify");
    reveal_strlit("dial_timeout");
    reveal_strlit("response_header_timeout");
    assert("read_buffer"@.len() == 11 && "read_buffer"@[0] == 'r');
    assert("write_buffer"@.len() == 12 && "write_buffer"@[0] == 'w');
    assert("max_response_header"@.len() == 19 && "max_response_header"@[0] == 'm');
    assert("dial_fallback_delay"@.len() == 19 && "dial_fallback_delay"@[0] == 'd');
    assert("expect_continue_timeout"@.len() == 23 && "expect_continue_timeout"@[0] == 'e');
    assert("resolvers"@.len() == 9);
    assert("versions"@.len() == 8);
    assert("compression"@.len() == 11 && "compression"@[0] == 'c');
    assert("max_conns_per_host"@.len() == 18 && "max_conns_per_host"@[0] == 'm');
    assert("keepalive_idle_conns_per_host"@.len() == 29);
    assert("keepalive_interval"@.len() == 18 && "keepalive_interval"@[0] == 'k');
    assert("tls_renegotiation"@.len() == 17);
    assert("tls_except_ports"@.len() == 16);
    assert("connect_timeout"@.len() == 15 && "connect_timeout"@[0] == 'c');
    assert("first_byte_timeout"@.len() == 18 && "first_byte_timeout"@[0] == 'f');
    assert("between_reads_timeout"@.len() == 21);
    assert("read_timeout"@.len() == 12 && "read_timeout"@[0] == 'r');
    assert("write_timeout"@.len() == 13);
    assert("tls"@.len() == 3);
    assert("tls_server_name"@.len() == 15 && "tls_server_name"@[0] == 't'
        && "tls_server_name"@[4] == 's');
    assert("tls_trusted_ca_certs"@.len() == 20);
    assert("tls_client_auth"@.len() == 15 && "tls_client_auth"@[0] == 't'
        && "tls_client_auth"@[4] == 'c');
    assert("tls_insecure_skip_verify"@.len() == 24);
    assert("dial_timeout"@.len() == 12 && "dial_timeout"@[0] == 'd');
    assert("response_header_timeout"@.len() == 23 && "response_header_timeout"@[0] == 'r');
    if all.contains(name) {
        let i = choose|i: int| 0 <= i < all.len() && all[i] == name;
        assert(0 <= i < 13);
    }
}

/// A timeout of an HTTP transport bounds what it names: the connection, the first byte, the time
/// between reads, reading and writing.
#[verifier::rlimit(40)]
pub proof fn a_timeout_is_the_one_that_is_named(
    profile: Profile,
    kept: Map<Seq<char>, Seq<char>>,
    front: Seq<DirectiveV>,
    c: TransportDraftV,
    t: Seq<char>,
    ms: u64,
)
    requires
        transport::http_transport(profile, kept, front) == Ok::<TransportDraftV, ErrorV>(c),
        duration::millis(t) == Some(ms),
        0 < ms <= args::LONGEST_MS,
    ensures
        transport::http_transport(
            profile,
            kept,
            front.push(line("connect_timeout"@, seq![t])),
        ) == Ok::<TransportDraftV, ErrorV>(
            TransportDraftV {
                transport: TransportConfigV { connect_timeout: Some(ms), ..c.transport },
                ..c
            },
        ),
        transport::http_transport(
            profile,
            kept,
            front.push(line("first_byte_timeout"@, seq![t])),
        ) == Ok::<TransportDraftV, ErrorV>(
            TransportDraftV {
                transport: TransportConfigV { first_byte_timeout: Some(ms), ..c.transport },
                ..c
            },
        ),
        transport::http_transport(
            profile,
            kept,
            front.push(line("between_reads_timeout"@, seq![t])),
        ) == Ok::<TransportDraftV, ErrorV>(
            TransportDraftV {
                transport: TransportConfigV { between_reads_timeout: Some(ms), ..c.transport },
                ..c
            },
        ),
        transport::http_transport(
            profile,
            kept,
            front.push(line("read_timeout"@, seq![t])),
        ) == Ok::<TransportDraftV, ErrorV>(
            TransportDraftV {
                transport: TransportConfigV { read_timeout: Some(ms), ..c.transport },
                ..c
            },
        ),
        transport::http_transport(
            profile,
            kept,
            front.push(line("write_timeout"@, seq![t])),
        ) == Ok::<TransportDraftV, ErrorV>(
            TransportDraftV {
                transport: TransportConfigV { write_timeout: Some(ms), ..c.transport },
                ..c
            },
        ),
{
    reveal_strlit("connect_timeout");
    reveal_strlit("first_byte_timeout");
    reveal_strlit("between_reads_timeout");
    reveal_strlit("read_timeout");
    reveal_strlit("write_timeout");
    reveal_strlit("tls");
    reveal_strlit("tls_server_name");
    reveal_strlit("tls_trusted_ca_certs");
    reveal_strlit("tls_client_auth");
    reveal_strlit("tls_insecure_skip_verify");
    reveal_strlit("dial_timeout");
    reveal_strlit("response_header_timeout");
    assert("connect_timeout"@.len() == 15 && "connect_timeout"@[0] == 'c');
    assert("first_byte_timeout"@.len() == 18);
    assert("between_reads_timeout"@.len() == 21);
    assert("read_timeout"@.len() == 12 && "read_timeout"@[0] == 'r');
    assert("write_timeout"@.len() == 13);
    assert("tls"@.len() == 3);
    assert("tls_server_name"@.len() == 15 && "tls_server_name"@[0] == 't'
        && "tls_server_name"@[4] == 's');
    assert("tls_trusted_ca_certs"@.len() == 20);
    assert("tls_client_auth"@.len() == 15 && "tls_client_auth"@[0] == 't'
        && "tls_client_auth"@[4] == 'c');
    assert("tls_insecure_skip_verify"@.len() == 24);
    assert("dial_timeout"@.len() == 12 && "dial_timeout"@[0] == 'd');
    assert("response_header_timeout"@.len() == 23);
    lemma_no_knob("connect_timeout"@);
    lemma_no_knob("first_byte_timeout"@);
    lemma_no_knob("between_reads_timeout"@);
    lemma_no_knob("read_timeout"@);
    lemma_no_knob("write_timeout"@);
    lemma_http_line(profile, kept, front, c, line("connect_timeout"@, seq![t]));
    lemma_http_line(profile, kept, front, c, line("first_byte_timeout"@, seq![t]));
    lemma_http_line(profile, kept, front, c, line("between_reads_timeout"@, seq![t]));
    lemma_http_line(profile, kept, front, c, line("read_timeout"@, seq![t]));
    lemma_http_line(profile, kept, front, c, line("write_timeout"@, seq![t]));
}

/// In the extended profile the timeouts of the connection and of the first byte have a second name.
pub proof fn a_timeout_has_a_second_name(
    kept: Map<Seq<char>, Seq<char>>,
    front: Seq<DirectiveV>,
    c: TransportDraftV,
    t: Seq<char>,
    ms: u64,
)
    requires
        transport::http_transport(
            Profile::Extended,
            kept,
            front,
        ) == Ok::<TransportDraftV, ErrorV>(c),
        duration::millis(t) == Some(ms),
        0 < ms <= args::LONGEST_MS,
    ensures
        transport::http_transport(
            Profile::Extended,
            kept,
            front.push(line("dial_timeout"@, seq![t])),
        ) == Ok::<TransportDraftV, ErrorV>(
            TransportDraftV {
                transport: TransportConfigV { connect_timeout: Some(ms), ..c.transport },
                ..c
            },
        ),
        transport::http_transport(
            Profile::Extended,
            kept,
            front.push(line("response_header_timeout"@, seq![t])),
        ) == Ok::<TransportDraftV, ErrorV>(
            TransportDraftV {
                transport: TransportConfigV { first_byte_timeout: Some(ms), ..c.transport },
                ..c
            },
        ),
{
    reveal_strlit("connect_timeout");
    reveal_strlit("first_byte_timeout");
    reveal_strlit("between_reads_timeout");
    reveal_strlit("read_timeout");
    reveal_strlit("write_timeout");
    reveal_strlit("tls");
    reveal_strlit("tls_server_name");
    reveal_strlit("tls_trusted_ca_certs");
    reveal_strlit("tls_client_auth");
    reveal_strlit("tls_insecure_skip_verify");
    reveal_strlit("dial_timeout");
    reveal_strlit("response_header_timeout");
    assert("connect_timeout"@.len() == 15 && "connect_timeout"@[0] == 'c');
    assert("first_byte_timeout"@.len() == 18);
    assert("between_reads_timeout"@.len() == 21);
    assert("read_timeout"@.len() == 12 && "read_timeout"@[0] == 'r');
    assert("write_timeout"@.len() == 13);
    assert("tls"@.len() == 3);
    assert("tls_server_name"@.len() == 15 && "tls_server_name"@[0] == 't'
        && "tls_server_name"@[4] == 's');
    assert("tls_trusted_ca_certs"@.len() == 20);
    assert("tls_client_auth"@.len() == 15 && "tls_client_auth"@[0] == 't'
        && "tls_client_auth"@[4] == 'c');
    assert("tls_insecure_skip_verify"@.len() == 24);
    assert("dial_timeout"@.len() == 12 && "dial_timeout"@[0] == 'd');
    assert("response_header_timeout"@.len() == 23);
    lemma_http_line(Profile::Extended, kept, front, c, line("dial_timeout"@, seq![t]));
    lemma_http_line(Profile::Extended, kept, front, c, line("response_header_timeout"@, seq![t]));
}

/// A TLS line of an HTTP transport sets what it names, where verification is not skipped.
#[verifier::rlimit(40)]
pub proof fn a_tls_line_sets_what_it_names(
    profile: Profile,
    kept: Map<Seq<char>, Seq<char>>,
    front: Seq<DirectiveV>,
    c: TransportDraftV,
    v: Seq<char>,
    list: Seq<Seq<char>>,
    key: Seq<char>,
)
    requires
        transport::http_transport(profile, kept, front) == Ok::<TransportDraftV, ErrorV>(c),
        !c.transport.tls.insecure_skip_verify,
        list.len() > 0,
    ensures
        transport::http_transport(
            profile,
            kept,
            front.push(line("tls"@, Seq::empty())),
        ) == Ok::<TransportDraftV, ErrorV>(
            TransportDraftV {
                transport: TransportConfigV { tls: UpstreamTlsConfigV { enable: true, ..c.transport.tls }, ..c.transport },
                ..c
            },
        ),
        transport::http_transport(
            profile,
            kept,
            front.push(line("tls_server_name"@, seq![v])),
        ) == Ok::<TransportDraftV, ErrorV>(
            TransportDraftV {
                transport: TransportConfigV { tls: UpstreamTlsConfigV { server_name: Some(
                    v,
                ), ..c.transport.tls }, ..c.transport },
                ..c
            },
        ),
        transport::http_transport(
            profile,
            kept,
            front.push(line("tls_trusted_ca_certs"@, list)),
        ) == Ok::<TransportDraftV, ErrorV>(
            TransportDraftV {
                transport: TransportConfigV { tls: UpstreamTlsConfigV { trusted_ca_certs: c.transport.tls.trusted_ca_certs + list, ..c.transport.tls }, ..c.transport },
                ..c
            },
        ),
        transport::http_transport(
            profile,
            kept,
            front.push(line("tls_client_auth"@, seq![v, key])),
        ) == Ok::<TransportDraftV, ErrorV>(
            TransportDraftV {
                transport: TransportConfigV { tls: UpstreamTlsConfigV { client_cert: Some(
                    v,
                ), client_key: Some(key), ..c.transport.tls }, ..c.transport },
                ..c
            },
        ),
{
    reveal_strlit("connect_timeout");
    reveal_strlit("first_byte_timeout");
    reveal_strlit("between_reads_timeout");
    reveal_strlit("read_timeout");
    reveal_strlit("write_timeout");
    reveal_strlit("tls");
    reveal_strlit("tls_server_name");
    reveal_strlit("tls_trusted_ca_certs");
    reveal_strlit("tls_client_auth");
    reveal_strlit("tls_insecure_skip_verify");
    reveal_strlit("dial_timeout");
    reveal_strlit("response_header_timeout");
    assert("connect_timeout"@.len() == 15 && "connect_timeout"@[0] == 'c');
    assert("first_byte_timeout"@.len() == 18);
    assert("between_reads_timeout"@.len() == 21);
    assert("read_timeout"@.len() == 12 && "read_timeout"@[0] == 'r');
    assert("write_timeout"@.len() == 13);
    assert("tls"@.len() == 3);
    assert("tls_server_name"@.len() == 15 && "tls_server_name"@[0] == 't'
        && "tls_server_name"@[4] == 's');
    assert("tls_trusted_ca_certs"@.len() == 20);
    assert("tls_client_auth"@.len() == 15 && "tls_client_auth"@[0] == 't'
        && "tls_client_auth"@[4] == 'c');
    assert("tls_insecure_skip_verify"@.len() == 24);
    assert("dial_timeout"@.len() == 12 && "dial_timeout"@[0] == 'd');
    assert("response_header_timeout"@.len() == 23);
    lemma_no_knob("tls"@);
    lemma_no_knob("tls_server_name"@);
    lemma_no_knob("tls_trusted_ca_certs"@);
    lemma_no_knob("tls_client_auth"@);
    lemma_http_line(profile, kept, front, c, line("tls"@, Seq::empty()));
    lemma_http_line(profile, kept, front, c, line("tls_server_name"@, seq![v]));
    lemma_http_line(profile, kept, front, c, line("tls_trusted_ca_certs"@, list));
    lemma_http_line(profile, kept, front, c, line("tls_client_auth"@, seq![v, key]));
}

/// Verification can be skipped only where nothing says what to verify against.
pub proof fn skipping_verification_contradicts_trust(
    profile: Profile,
    kept: Map<Seq<char>, Seq<char>>,
    front: Seq<DirectiveV>,
    c: TransportDraftV,
)
    requires
        transport::http_transport(profile, kept, front) == Ok::<TransportDraftV, ErrorV>(c),
    ensures
        ({
            let skip = line("tls_insecure_skip_verify"@, Seq::empty());
            let read = transport::http_transport(profile, kept, front.push(skip));
            if c.transport.tls.server_name is Some || c.transport.tls.trusted_ca_certs.len() > 0 {
                read is Err
            } else {
                read == Ok::<TransportDraftV, ErrorV>(
                    TransportDraftV {
                        transport: TransportConfigV {
                            tls: UpstreamTlsConfigV {
                                insecure_skip_verify: true,
                                ..c.transport.tls
                            },
                            ..c.transport
                        },
                        ..c
                    },
                )
            }
        }),
{
    reveal_strlit("connect_timeout");
    reveal_strlit("first_byte_timeout");
    reveal_strlit("between_reads_timeout");
    reveal_strlit("read_timeout");
    reveal_strlit("write_timeout");
    reveal_strlit("tls");
    reveal_strlit("tls_server_name");
    reveal_strlit("tls_trusted_ca_certs");
    reveal_strlit("tls_client_auth");
    reveal_strlit("tls_insecure_skip_verify");
    reveal_strlit("dial_timeout");
    reveal_strlit("response_header_timeout");
    assert("connect_timeout"@.len() == 15 && "connect_timeout"@[0] == 'c');
    assert("first_byte_timeout"@.len() == 18);
    assert("between_reads_timeout"@.len() == 21);
    assert("read_timeout"@.len() == 12 && "read_timeout"@[0] == 'r');
    assert("write_timeout"@.len() == 13);
    assert("tls"@.len() == 3);
    assert("tls_server_name"@.len() == 15 && "tls_server_name"@[0] == 't'
        && "tls_server_name"@[4] == 's');
    assert("tls_trusted_ca_certs"@.len() == 20);
    assert("tls_client_auth"@.len() == 15 && "tls_client_auth"@[0] == 't'
        && "tls_client_auth"@[4] == 'c');
    assert("tls_insecure_skip_verify"@.len() == 24);
    assert("dial_timeout"@.len() == 12 && "dial_timeout"@[0] == 'd');
    assert("response_header_timeout"@.len() == 23);
    lemma_no_knob("tls_insecure_skip_verify"@);
    lemma_http_line(profile, kept, front, c, line("tls_insecure_skip_verify"@, Seq::empty()));
}

/// In the extended profile a tuning knob is kept under its name, with the words behind it.
pub proof fn a_knob_is_kept_under_its_name(
    kept: Map<Seq<char>, Seq<char>>,
    front: Seq<DirectiveV>,
    c: TransportDraftV,
    o: DirectiveV,
)
    requires
        transport::http_transport(Profile::Extended, kept, front) == Ok::<TransportDraftV, ErrorV>(
            c,
        ),
        transport::kept_knobs().contains(o.name),
    ensures
        transport::http_transport(Profile::Extended, kept, front.push(o)) == Ok::<
            TransportDraftV,
            ErrorV,
        >(TransportDraftV { kept: c.kept.insert(o.name, text::joined(o.args, " "@)), ..c }),
{
    if o.name == "dial_timeout"@ {
        lemma_no_knob("dial_timeout"@);
    }
    if o.name == "response_header_timeout"@ {
        lemma_no_knob("response_header_timeout"@);
    }
    lemma_http_line(Profile::Extended, kept, front, c, o);
}

// ---------------------------------------------------------------------------
// transport fastcgi
// ---------------------------------------------------------------------------
proof fn lemma_fastcgi_line(
    front: Seq<DirectiveV>,
    c: FastCgiTransportConfigV,
    o: DirectiveV,
)
    requires
        transport::fastcgi_transport(Some(front)) == Ok::<FastCgiTransportConfigV, ErrorV>(c),
    ensures
        transport::fastcgi_option(c, o) matches Ok(n) ==> (n.split_path == c.split_path
            || transport::split_path(n.split_path) is Ok ==> transport::fastcgi_transport(
            Some(front.push(o)),
        ) == Ok::<FastCgiTransportConfigV, ErrorV>(n)),
{
    fold::a_last_directive_is_read_last(
        |c: FastCgiTransportConfigV, o: DirectiveV| transport::fastcgi_option(c, o),
        FastCgiTransportConfigV::unset(),
        front,
        o,
    );
}

proof fn lemma_split_path(list: Seq<Seq<char>>)
    requires
        forall|i: int| 0 <= i < list.len() ==> transport::ascii(#[trigger] list[i]),
    ensures
        transport::split_path(list) is Ok,
    decreases list.len(),
{
    if list.len() > 0 {
        assert(transport::ascii(list[0]));
        assert forall|i: int| 0 <= i < list.drop_first().len() implies transport::ascii(
            #[trigger] list.drop_first()[i],
        ) by {
            assert(list.drop_first()[i] == list[i + 1]);
        }
        lemma_split_path(list.drop_first());
    }
}

/// A line of a FastCGI transport sets what it names.
#[verifier::rlimit(40)]
pub proof fn a_fastcgi_line_sets_what_it_names(
    front: Seq<DirectiveV>,
    c: FastCgiTransportConfigV,
    v: Seq<char>,
    key: Seq<char>,
    list: Seq<Seq<char>>,
    t: Seq<char>,
    ms: u64,
)
    requires
        transport::fastcgi_transport(Some(front)) == Ok::<FastCgiTransportConfigV, ErrorV>(c),
        list.len() > 0,
        forall|i: int| 0 <= i < list.len() ==> transport::ascii(#[trigger] list[i]),
        duration::millis(t) == Some(ms),
        0 < ms <= args::LONGEST_MS,
    ensures
        transport::fastcgi_transport(
            Some(front.push(line("root"@, seq![v]))),
        ) == Ok::<FastCgiTransportConfigV, ErrorV>(
            FastCgiTransportConfigV { root: Some(v), ..c },
        ),
        transport::fastcgi_transport(
            Some(front.push(line("split"@, list))),
        ) == Ok::<FastCgiTransportConfigV, ErrorV>(
            FastCgiTransportConfigV { split_path: list, ..c },
        ),
        transport::fastcgi_transport(
            Some(front.push(line("env"@, seq![key, v]))),
        ) == Ok::<FastCgiTransportConfigV, ErrorV>(
            FastCgiTransportConfigV { env: c.env.insert(key, v), ..c },
        ),
        transport::fastcgi_transport(
            Some(front.push(line("resolve_root_symlink"@, Seq::empty()))),
        ) == Ok::<FastCgiTransportConfigV, ErrorV>(
            FastCgiTransportConfigV { resolve_root_symlink: true, ..c },
        ),
        transport::fastcgi_transport(
            Some(front.push(line("dial_timeout"@, seq![t]))),
        ) == Ok::<FastCgiTransportConfigV, ErrorV>(
            FastCgiTransportConfigV { dial_timeout_ms: Some(ms), ..c },
        ),
        transport::fastcgi_transport(
            Some(front.push(line("read_timeout"@, seq![t]))),
        ) == Ok::<FastCgiTransportConfigV, ErrorV>(
            FastCgiTransportConfigV { read_timeout_ms: Some(ms), ..c },
        ),
        transport::fastcgi_transport(
            Some(front.push(line("write_timeout"@, seq![t]))),
        ) == Ok::<FastCgiTransportConfigV, ErrorV>(
            FastCgiTransportConfigV { write_timeout_ms: Some(ms), ..c },
        ),
        transport::fastcgi_transport(
            Some(front.push(line("capture_stderr"@, Seq::empty()))),
        ) == Ok::<FastCgiTransportConfigV, ErrorV>(
            FastCgiTransportConfigV { capture_stderr: true, ..c },
        ),
{
    reveal_strlit("root");
    reveal_strlit("split");
    reveal_strlit("env");
    reveal_strlit("resolve_root_symlink");
    reveal_strlit("dial_timeout");
    reveal_strlit("read_timeout");
    reveal_strlit("write_timeout");
    reveal_strlit("capture_stderr");
    assert("root"@.len() == 4);
    assert("split"@.len() == 5);
    assert("env"@.len() == 3);
    assert("resolve_root_symlink"@.len() == 20);
    assert("dial_timeout"@.len() == 12 && "dial_timeout"@[0] == 'd');
    assert("read_timeout"@.len() == 12 && "read_timeout"@[0] == 'r');
    assert("write_timeout"@.len() == 13);
    assert("capture_stderr"@.len() == 14);
    lemma_split_path(list);
    lemma_fastcgi_line(front, c, line("root"@, seq![v]));
    lemma_fastcgi_line(front, c, line("split"@, list));
    lemma_fastcgi_line(front, c, line("env"@, seq![key, v]));
    lemma_fastcgi_line(front, c, line("resolve_root_symlink"@, Seq::empty()));
    lemma_fastcgi_line(front, c, line("dial_timeout"@, seq![t]));
    lemma_fastcgi_line(front, c, line("read_timeout"@, seq![t]));
    lemma_fastcgi_line(front, c, line("write_timeout"@, seq![t]));
    lemma_fastcgi_line(front, c, line("capture_stderr"@, Seq::empty()));
}

// ---------------------------------------------------------------------------
// Dynamic sources
// ---------------------------------------------------------------------------
/// The kind of a dynamic source is the one that is named.
pub proof fn a_source_is_of_the_kind_that_is_named(d: DirectiveV)
    requires
        d.args.len() > 0,
    ensures
        d.args[0] == "a"@ ==> (match dynamic::dynamic_addr(d) {
            Ok(c) => dynamic::dynamic(d) == Ok::<DynamicUpstreamConfigV, ErrorV>(
                DynamicUpstreamConfigV::A(c),
            ),
            Err(e) => dynamic::dynamic(d) == Err::<DynamicUpstreamConfigV, ErrorV>(e),
        }),
        d.args[0] == "srv"@ ==> (match dynamic::dynamic_srv(d) {
            Ok(c) => dynamic::dynamic(d) == Ok::<DynamicUpstreamConfigV, ErrorV>(
                DynamicUpstreamConfigV::Srv(c),
            ),
            Err(e) => dynamic::dynamic(d) == Err::<DynamicUpstreamConfigV, ErrorV>(e),
        }),
        d.args[0] != "a"@ && d.args[0] != "srv"@ ==> dynamic::dynamic(d) is Err,
{
    reveal_strlit("a");
    reveal_strlit("srv");
    assert("a"@.len() == 1);
    assert("srv"@.len() == 3);
}

/// What stands on the line of an address source is its name and its port, which is 80 where none is
/// written.
pub proof fn an_address_source_has_a_name_and_a_port(
    kind: Seq<char>,
    name: Seq<char>,
    port: u16,
)
    ensures
        dynamic::dynamic_addr(line("dynamic"@, seq![kind, name])) matches Ok(c) && (c.name == name
            && c.port == 80 && c.refresh_secs is None && c.resolvers.len() == 0
            && c.dial_timeout_ms is None && c.versions is None),
        dynamic::dynamic_addr(line("dynamic"@, seq![kind, name, text::shown(port as nat)])) matches
            Ok(c) && (c.name == name && c.port == port && c.refresh_secs is None
            && c.resolvers.len() == 0 && c.dial_timeout_ms is None && c.versions is None),
        dynamic::dynamic_addr(line("dynamic"@, seq![kind])) is Err,
        dynamic::dynamic_srv(line("dynamic"@, seq![kind, name])) matches Ok(c) && (c.name == name
            && c.service is None && c.proto is None && c.refresh_secs is None && c.resolvers.len()
            == 0 && c.dial_timeout_ms is None && c.grace_period_ms is None),
        dynamic::dynamic_srv(line("dynamic"@, seq![kind])) is Err,
{
    handler_laws::lemma_code(port);
}

proof fn lemma_addr_line(d: DirectiveV, front: Seq<DirectiveV>, o: DirectiveV) -> (c: AddrDraftV)
    requires
        dynamic::dynamic_addr(with_block(d, front)) is Ok,
    ensures
        dynamic::addr_source(c) == dynamic::dynamic_addr(with_block(d, front)),
        dynamic::addr_option(c, o) matches Ok(n) ==> dynamic::dynamic_addr(
            with_block(d, front.push(o)),
        ) == dynamic::addr_source(n),
{
    let step = |c: AddrDraftV, o: DirectiveV| dynamic::addr_option(c, o);
    let start = dynamic::addr_line(d.args)->Ok_0;
    fold::a_last_directive_is_read_last(step, start, front, o);
    fold::fold(step, start, front)->Ok_0
}

proof fn lemma_srv_line(d: DirectiveV, front: Seq<DirectiveV>, o: DirectiveV) -> (c: SrvDraftV)
    requires
        dynamic::dynamic_srv(with_block(d, front)) is Ok,
    ensures
        dynamic::srv_source(c) == dynamic::dynamic_srv(with_block(d, front)),
        dynamic::srv_option(c, o) matches Ok(n) ==> dynamic::dynamic_srv(
            with_block(d, front.push(o)),
        ) == dynamic::srv_source(n),
{
    let step = |c: SrvDraftV, o: DirectiveV| dynamic::srv_option(c, o);
    let start = SrvDraftV {
        name: if d.args.len() > 1 {
            Some(d.args[1])
        } else {
            None
        },
        service: None,
        proto: None,
        refresh_secs: None,
        resolvers: Seq::empty(),
        dial_timeout_ms: None,
        grace_period_ms: None,
    };
    fold::a_last_directive_is_read_last(step, start, front, o);
    fold::fold(step, start, front)->Ok_0
}

proof fn lemma_resolvers(list: Seq<Seq<char>>)
    requires
        forall|i: int| 0 <= i < list.len() ==> ip::literal(#[trigger] list[i]) is Some,
    ensures
        dynamic::first_name(list) is None,
    decreases list.len(),
{
    if list.len() > 0 {
        assert(ip::literal(list[0]) is Some);
        assert forall|i: int| 0 <= i < list.drop_first().len() implies ip::literal(
            #[trigger] list.drop_first()[i],
        ) is Some by {
            assert(list.drop_first()[i] == list[i + 1]);
        }
        lemma_resolvers(list.drop_first());
    }
}

/// A line of an address source sets what it names.
#[verifier::rlimit(60)]
pub proof fn an_address_line_sets_what_it_names(
    d: DirectiveV,
    front: Seq<DirectiveV>,
    c: DynamicAddrUpstreamV,
    v: Seq<char>,
    port: u16,
    list: Seq<Seq<char>>,
    t: Seq<char>,
    ms: u64,
)
    requires
        dynamic::dynamic_addr(with_block(d, front)) == Ok::<DynamicAddrUpstreamV, ErrorV>(c),
        list.len() > 0,
        forall|i: int| 0 <= i < list.len() ==> ip::literal(#[trigger] list[i]) is Some,
        ms % 1_000 == 0,
        duration::millis(t) == Some(ms),
        0 < ms <= args::LONGEST_MS,
    ensures
        dynamic::dynamic_addr(
            with_block(d, front.push(line("name"@, seq![v]))),
        ) == Ok::<DynamicAddrUpstreamV, ErrorV>(
            DynamicAddrUpstreamV { name: v, ..c },
        ),
        dynamic::dynamic_addr(
            with_block(d, front.push(line("port"@, seq![text::shown(port as nat)]))),
        ) == Ok::<DynamicAddrUpstreamV, ErrorV>(
            DynamicAddrUpstreamV { port, ..c },
        ),
        dynamic::dynamic_addr(
            with_block(d, front.push(line("refresh"@, seq![t]))),
        ) == Ok::<DynamicAddrUpstreamV, ErrorV>(
            DynamicAddrUpstreamV { refresh_secs: Some(ms / 1_000), ..c },
        ),
        dynamic::dynamic_addr(
            with_block(d, front.push(line("resolvers"@, list))),
        ) == Ok::<DynamicAddrUpstreamV, ErrorV>(
            DynamicAddrUpstreamV { resolvers: list, ..c },
        ),
        dynamic::dynamic_addr(
            with_block(d, front.push(line("dial_timeout"@, seq![t]))),
        ) == Ok::<DynamicAddrUpstreamV, ErrorV>(
            DynamicAddrUpstreamV { dial_timeout_ms: Some(ms), ..c },
        ),
        dynamic::dynamic_addr(
            with_block(d, front.push(line("versions"@, seq!["ipv4"@]))),
        ) == Ok::<DynamicAddrUpstreamV, ErrorV>(
            DynamicAddrUpstreamV { versions: Some("ipv4"@), ..c },
        ),
        dynamic::dynamic_addr(
            with_block(d, front.push(line("versions"@, seq!["ipv6"@]))),
        ) == Ok::<DynamicAddrUpstreamV, ErrorV>(
            DynamicAddrUpstreamV { versions: Some("ipv6"@), ..c },
        ),
{
    reveal_strlit("name");
    reveal_strlit("port");
    reveal_strlit("refresh");
    reveal_strlit("resolvers");
    reveal_strlit("dial_timeout");
    reveal_strlit("dial_fallback_delay");
    reveal_strlit("versions");
    reveal_strlit("ipv4");
    reveal_strlit("ipv6");
    assert("name"@.len() == 4 && "name"@[0] == 'n');
    assert("port"@.len() == 4 && "port"@[0] == 'p');
    assert("refresh"@.len() == 7);
    assert("resolvers"@.len() == 9);
    assert("dial_timeout"@.len() == 12);
    assert("dial_fallback_delay"@.len() == 19);
    assert("versions"@.len() == 8);
    assert("ipv4"@.len() == 4 && "ipv4"@[0] == 'i' && "ipv4"@[3] == '4');
    assert("ipv6"@.len() == 4 && "ipv6"@[0] == 'i' && "ipv6"@[3] == '6');
    lemma_resolvers(list);
    handler_laws::lemma_code(port);
    let c1 = lemma_addr_line(d, front, line("name"@, seq![v]));
    let c2 = lemma_addr_line(d, front, line("port"@, seq![text::shown(port as nat)]));
    let c3 = lemma_addr_line(d, front, line("refresh"@, seq![t]));
    let c4 = lemma_addr_line(d, front, line("resolvers"@, list));
    let c5 = lemma_addr_line(d, front, line("dial_timeout"@, seq![t]));
    let c6 = lemma_addr_line(d, front, line("versions"@, seq!["ipv4"@]));
    let c7 = lemma_addr_line(d, front, line("versions"@, seq!["ipv6"@]));
}

/// A line of a service source sets what it names.
#[verifier::rlimit(60)]
pub proof fn a_service_line_sets_what_it_names(
    d: DirectiveV,
    front: Seq<DirectiveV>,
    c: DynamicSrvUpstreamV,
    v: Seq<char>,
    list: Seq<Seq<char>>,
    t: Seq<char>,
    ms: u64,
)
    requires
        dynamic::dynamic_srv(with_block(d, front)) == Ok::<DynamicSrvUpstreamV, ErrorV>(c),
        list.len() > 0,
        forall|i: int| 0 <= i < list.len() ==> ip::literal(#[trigger] list[i]) is Some,
        ms % 1_000 == 0,
        duration::millis(t) == Some(ms),
        0 < ms <= args::LONGEST_MS,
    ensures
        dynamic::dynamic_srv(
            with_block(d, front.push(line("name"@, seq![v]))),
        ) == Ok::<DynamicSrvUpstreamV, ErrorV>(
            DynamicSrvUpstreamV { name: v, ..c },
        ),
        dynamic::dynamic_srv(
            with_block(d, front.push(line("refresh"@, seq![t]))),
        ) == Ok::<DynamicSrvUpstreamV, ErrorV>(
            DynamicSrvUpstreamV { refresh_secs: Some(ms / 1_000), ..c },
        ),
        dynamic::dynamic_srv(
            with_block(d, front.push(line("resolvers"@, list))),
        ) == Ok::<DynamicSrvUpstreamV, ErrorV>(
            DynamicSrvUpstreamV { resolvers: list, ..c },
        ),
        dynamic::dynamic_srv(
            with_block(d, front.push(line("dial_timeout"@, seq![t]))),
        ) == Ok::<DynamicSrvUpstreamV, ErrorV>(
            DynamicSrvUpstreamV { dial_timeout_ms: Some(ms), ..c },
        ),
        dynamic::dynamic_srv(
            with_block(d, front.push(line("grace_period"@, seq![t]))),
        ) == Ok::<DynamicSrvUpstreamV, ErrorV>(
            DynamicSrvUpstreamV { grace_period_ms: Some(ms), ..c },
        ),
{
    reveal_strlit("name");
    reveal_strlit("service");
    reveal_strlit("proto");
    reveal_strlit("refresh");
    reveal_strlit("resolvers");
    reveal_strlit("dial_timeout");
    reveal_strlit("dial_fallback_delay");
    reveal_strlit("grace_period");
    assert("name"@.len() == 4);
    assert("service"@.len() == 7 && "service"@[0] == 's');
    assert("proto"@.len() == 5);
    assert("refresh"@.len() == 7 && "refresh"@[0] == 'r');
    assert("resolvers"@.len() == 9);
    assert("dial_timeout"@.len() == 12 && "dial_timeout"@[0] == 'd');
    assert("dial_fallback_delay"@.len() == 19);
    assert("grace_period"@.len() == 12 && "grace_period"@[0] == 'g');
    lemma_resolvers(list);
    let c1 = lemma_srv_line(d, front, line("name"@, seq![v]));
    let c2 = lemma_srv_line(d, front, line("refresh"@, seq![t]));
    let c3 = lemma_srv_line(d, front, line("resolvers"@, list));
    let c4 = lemma_srv_line(d, front, line("dial_timeout"@, seq![t]));
    let c5 = lemma_srv_line(d, front, line("grace_period"@, seq![t]));
}

/// A service and its protocol are set together.
pub proof fn a_service_has_a_protocol(
    d: DirectiveV,
    front: Seq<DirectiveV>,
    c: DynamicSrvUpstreamV,
    service: Seq<char>,
    proto: Seq<char>,
)
    requires
        dynamic::dynamic_srv(with_block(d, front)) == Ok::<DynamicSrvUpstreamV, ErrorV>(c),
    ensures
        dynamic::dynamic_srv(
            with_block(
                d,
                front.push(line("service"@, seq![service])).push(line("proto"@, seq![proto])),
            ),
        ) == Ok::<DynamicSrvUpstreamV, ErrorV>(
            DynamicSrvUpstreamV { service: Some(service), proto: Some(proto), ..c },
        ),
        c.service is None ==> dynamic::dynamic_srv(
            with_block(d, front.push(line("service"@, seq![service]))),
        ) is Err && dynamic::dynamic_srv(
            with_block(d, front.push(line("proto"@, seq![proto]))),
        ) is Err,
{
    reveal_strlit("name");
    reveal_strlit("service");
    reveal_strlit("proto");
    assert("name"@.len() == 4);
    assert("service"@.len() == 7);
    assert("proto"@.len() == 5);
    let a = line("service"@, seq![service]);
    let b = line("proto"@, seq![proto]);
    let step = |c: SrvDraftV, o: DirectiveV| dynamic::srv_option(c, o);
    let start = SrvDraftV {
        name: if d.args.len() > 1 {
            Some(d.args[1])
        } else {
            None
        },
        service: None,
        proto: None,
        refresh_secs: None,
        resolvers: Seq::empty(),
        dial_timeout_ms: None,
        grace_period_ms: None,
    };
    fold::a_last_directive_is_read_last(step, start, front, a);
    fold::a_last_directive_is_read_last(step, start, front, b);
    fold::a_last_directive_is_read_last(step, start, front.push(a), b);
}

// ---------------------------------------------------------------------------
// Upstreams
// ---------------------------------------------------------------------------
/// A proxy line names its upstreams in order, each with the same share.
pub proof fn a_proxy_line_names_its_upstreams(profile: Profile, list: Seq<Seq<char>>)
    requires
        forall|i: int|
            0 <= i < list.len() ==> !text::starts_char(#[trigger] list[i], '@')
                && !text::starts_char(list[i], '/') && !text::starts(list[i], "unix"@)
                && upstreams::port_range(list[i]) is None,
    ensures
        upstreams::proxy_line(profile, list) matches Ok(p) && (p.upstreams == list
            && p.upstream_options.len() == list.len() && forall|i: int|
            0 <= i < list.len() ==> (#[trigger] p.upstream_options[i]).address == list[i]
                && p.upstream_options[i].weight == 1 && !p.upstream_options[i].backup),
{
    lemma_unmarked(list);
    lemma_named(profile, list);
    lemma_plain_list(list);
}

proof fn lemma_unmarked(list: Seq<Seq<char>>)
    requires
        forall|i: int| 0 <= i < list.len() ==> !text::starts_char(#[trigger] list[i], '@'),
    ensures
        content::unmarked(list) == list,
    decreases list.len(),
{
    if list.len() == 0 {
        assert(list =~= Seq::empty());
    } else {
        lemma_unmarked(list.drop_last());
        assert(list.last() == list[list.len() - 1]);
        assert(list.drop_last().push(list.last()) =~= list);
    }
}

proof fn lemma_named(profile: Profile, list: Seq<Seq<char>>)
    requires
        forall|i: int|
            0 <= i < list.len() ==> !text::starts_char(#[trigger] list[i], '/') && !text::starts(
                list[i],
                "unix"@,
            ),
    ensures
        fold::each(|arg: Seq<char>| upstreams::upstream_argument(profile, arg), list) == Ok::<
            Seq<Seq<char>>,
            ErrorV,
        >(list),
    decreases list.len(),
{
    if list.len() == 0 {
        assert(list =~= Seq::empty());
    } else {
        let n = list.len() - 1;
        lemma_named(profile, list.drop_last());
        assert(list.last() == list[n]);
        assert(!text::starts_char(list[n], '/'));
        assert(list.drop_last().push(list.last()) =~= list);
    }
}

proof fn lemma_plain_list(list: Seq<Seq<char>>)
    requires
        forall|i: int| 0 <= i < list.len() ==> upstreams::port_range(#[trigger] list[i]) is None,
    ensures
        upstreams::expanded(list) == list,
    decreases list.len(),
{
    if list.len() == 0 {
        assert(list =~= Seq::empty());
    } else {
        let n = list.len() - 1;
        lemma_plain_list(list.drop_last());
        assert(upstreams::port_range(list[n]) is None);
        assert(list.drop_last() + seq![list[n]] =~= list);
    }
}

/// An address with a range of ports stands for one address to a port, from the first to the last.
pub proof fn a_range_stands_for_its_ports(host: Seq<char>, first: u16, last: u16)
    requires
        first <= last,
    ensures
        ({
            let all = upstreams::one_per_port(
                host + seq![':'] + text::shown(first as nat) + seq!['-'] + text::shown(
                    last as nat,
                ),
            );
            &&& all.len() == last - first + 1
            &&& forall|k: int|
                0 <= k < all.len() ==> #[trigger] all[k] == host + seq![':'] + text::shown(
                    (first + k) as nat,
                )
        }),
{
    let a = text::shown(first as nat);
    let b = text::shown(last as nat);
    let ports = a + seq!['-'] + b;
    let s = host + seq![':'] + a + seq!['-'] + b;
    reveal_strlit(":");
    assert(":"@ =~= seq![':']);
    handler_laws::lemma_code(first);
    handler_laws::lemma_code(last);
    text::a_shown_number_reads_back(first as nat);
    text::a_shown_number_reads_back(last as nat);
    let n = host.len() as int;
    assert(s =~= host + seq![':'] + ports);
    assert(s[n] == ':');
    assert forall|i: int| 0 <= i < ports.len() implies ports[i] != ':' by {
        if i < a.len() {
            assert(text::digit(a[i]));
        } else if i > a.len() {
            assert(text::digit(b[i - a.len() - 1]));
        }
    }
    assert(s.contains(':'));
    s.index_of_last_ensures(':');
    let i = s.index_of_last(':')->Some_0;
    assert(i == n) by {
        if i > n {
            assert(ports[i - n - 1] == ':');
        }
    }
    assert(s.skip(n + 1) =~= ports);
    assert(s.take(n) =~= host);
    assert(ports[a.len() as int] == '-');
    assert(ports.contains('-'));
    ports.index_of_first_ensures('-');
    let j = ports.index_of_first('-')->Some_0;
    assert(j == a.len()) by {
        if j < a.len() {
            assert(text::digit(a[j]));
        }
    }
    assert(ports.take(j) =~= a);
    assert(ports.skip(j + 1) =~= b);
    assert(upstreams::port_range(s) == Some((host, first, last)));
}

/// `to` adds an upstream at the end, with the options of its block.
pub proof fn a_further_upstream_comes_last(
    p: ProxyConfigV,
    address: Seq<char>,
    weight: u32,
)
    requires
        upstreams::port_range(address) is None,
        weight > 0,
    ensures
        upstreams::further_upstreams(p, line("to"@, seq![address])) == Ok::<ProxyConfigV, ErrorV>(
            ProxyConfigV {
                upstreams: p.upstreams.push(address),
                upstream_options: p.upstream_options.push(
                    ProxyUpstreamConfigV { address, weight: 1, backup: false },
                ),
                ..p
            },
        ),
        upstreams::further_upstreams(
            p,
            with_block(
                line("to"@, seq![address]),
                seq![line("weight"@, seq![text::shown(weight as nat)])],
            ),
        ) == Ok::<ProxyConfigV, ErrorV>(
            ProxyConfigV {
                upstreams: p.upstreams.push(address),
                upstream_options: p.upstream_options.push(
                    ProxyUpstreamConfigV { address, weight, backup: false },
                ),
                ..p
            },
        ),
        upstreams::further_upstreams(
            p,
            with_block(line("to"@, seq![address]), seq![line("backup"@, Seq::empty())]),
        ) == Ok::<ProxyConfigV, ErrorV>(
            ProxyConfigV {
                upstreams: p.upstreams.push(address),
                upstream_options: p.upstream_options.push(
                    ProxyUpstreamConfigV { address, weight: 1, backup: true },
                ),
                ..p
            },
        ),
{
    reveal_strlit("weight");
    reveal_strlit("backup");
    assert("weight"@.len() == 6 && "weight"@[0] == 'w');
    assert("backup"@.len() == 6 && "backup"@[0] == 'b');
    text::a_shown_number_reads_back(weight as nat);
    assert(text::number(text::shown(weight as nat), u32::MAX as nat) == Some(weight as nat));
    let list = seq![address];
    lemma_plain_list(list);
    lemma_one_upstream(p, address, Seq::empty());
    let step = |u: ProxyUpstreamConfigV, o: DirectiveV| upstreams::upstream_option(u, o);
    let start = ProxyUpstreamConfigV { address, weight: 1, backup: false };
    let a = line("weight"@, seq![text::shown(weight as nat)]);
    let b = line("backup"@, Seq::empty());
    fold::a_last_directive_is_read_last(step, start, Seq::empty(), a);
    fold::a_last_directive_is_read_last(step, start, Seq::empty(), b);
    assert(Seq::<DirectiveV>::empty().push(a) =~= seq![a]);
    assert(Seq::<DirectiveV>::empty().push(b) =~= seq![b]);
    lemma_one_upstream(p, address, seq![a]);
    lemma_one_upstream(p, address, seq![b]);
}

proof fn lemma_one_upstream(p: ProxyConfigV, address: Seq<char>, lines: Seq<DirectiveV>)
    ensures
        upstreams::with_upstreams(p, seq![address], lines) == (match fold::fold(
            |u: ProxyUpstreamConfigV, o: DirectiveV| upstreams::upstream_option(u, o),
            ProxyUpstreamConfigV { address, weight: 1, backup: false },
            lines,
        ) {
            Err(e) => Err(e),
            Ok(u) => Ok(upstreams::with_upstream(p, u)),
        }),
{
    assert(seq![address].drop_first() =~= Seq::empty());
    reveal_with_fuel(upstreams::with_upstreams, 2);
}

} // verus!
