//! How a reverse proxy speaks to its upstreams.

use crate::adapter::args;
use crate::adapter::args::{
    expect_no_arguments, expect_one_argument, extend, parse_required_duration,
};
use crate::adapter::policies;
use crate::adapter::policies::validate_upstream_tls;
use crate::adapter::profile::Profile;
use crate::ast::proxy::{
    FastCgiTransportConfig, FastCgiTransportConfigV, TransportConfig, TransportConfigV,
    UpstreamTlsConfigV,
};
use crate::duplicate::Duplicate;
use crate::error;
use crate::error::{invalid, miscount, unknown_in, AdapterError, ErrorV};
use crate::fold;
use crate::fold::fold_directives;
use crate::syntax::{Directive, DirectiveV};
use crate::table::Table;
use crate::text;
use crate::text::{among, cat3, chars_of, join, same};
use vstd::prelude::*;

verus! {

// ---------------------------------------------------------------------------
// HTTP
// ---------------------------------------------------------------------------
/// Tuning knobs of an HTTP transport that are kept as they are written.
pub open spec fn kept_knobs() -> Seq<Seq<char>> {
    seq![
        "read_buffer"@,
        "write_buffer"@,
        "max_response_header"@,
        "dial_fallback_delay"@,
        "expect_continue_timeout"@,
        "resolvers"@,
        "versions"@,
        "compression"@,
        "max_conns_per_host"@,
        "keepalive_idle_conns_per_host"@,
        "keepalive_interval"@,
        "tls_renegotiation"@,
        "tls_except_ports"@,
    ]
}

fn is_kept_knob(name: &str) -> (r: bool)
    ensures
        r == kept_knobs().contains(name@),
{
    let list = vec![
        "read_buffer",
        "write_buffer",
        "max_response_header",
        "dial_fallback_delay",
        "expect_continue_timeout",
        "resolvers",
        "versions",
        "compression",
        "max_conns_per_host",
        "keepalive_idle_conns_per_host",
        "keepalive_interval",
        "tls_renegotiation",
        "tls_except_ports",
    ];
    assert(list.deep_view() =~= kept_knobs());
    among(name, &list)
}

/// The lines of a `transport http` block read so far.
pub struct TransportDraft {
    pub transport: TransportConfig,
    /// The knobs that are kept as they are written.
    pub kept: Table<String>,
}

/// The mathematical value of a [`TransportDraft`].
#[verifier::ext_equal]
pub struct TransportDraftV {
    pub transport: TransportConfigV,
    pub kept: Map<Seq<char>, Seq<char>>,
}

impl DeepView for TransportDraft {
    type V = TransportDraftV;

    open spec fn deep_view(&self) -> TransportDraftV {
        TransportDraftV {
            transport: self.transport.deep_view(),
            kept: self.kept.deep_view(),
        }
    }
}

/// One line of a `transport http` block that every profile honours.
pub open spec fn http_option(c: TransportConfigV, d: DirectiveV) -> Result<
    TransportConfigV,
    ErrorV,
> {
    if d.name == "connect_timeout"@ {
        error::with(args::span(d), |ms: u64| TransportConfigV { connect_timeout: Some(ms), ..c })
    } else if d.name == "first_byte_timeout"@ {
        error::with(args::span(d), |ms: u64| TransportConfigV { first_byte_timeout: Some(ms), ..c })
    } else if d.name == "between_reads_timeout"@ {
        error::with(args::span(d), |ms: u64| TransportConfigV { between_reads_timeout: Some(ms), ..c })
    } else if d.name == "read_timeout"@ {
        error::with(args::span(d), |ms: u64| TransportConfigV { read_timeout: Some(ms), ..c })
    } else if d.name == "write_timeout"@ {
        error::with(args::span(d), |ms: u64| TransportConfigV { write_timeout: Some(ms), ..c })
    } else if d.name == "tls"@ {
        error::with(args::bare(d), |v: ()| TransportConfigV { tls: UpstreamTlsConfigV { enable: true, ..c.tls }, ..c })
    } else if d.name == "tls_server_name"@ {
        error::with(args::sole(d), |v: Seq<char>| TransportConfigV { tls: UpstreamTlsConfigV { server_name: Some(v), ..c.tls }, ..c })
    } else if d.name == "tls_trusted_ca_certs"@ {
        if d.args.len() == 0 {
            Err(ErrorV::ArgumentCount("tls_trusted_ca_certs"@, 1, 0))
        } else {
            Ok(TransportConfigV { tls: UpstreamTlsConfigV { trusted_ca_certs: c.tls.trusted_ca_certs + d.args, ..c.tls }, ..c })
        }
    } else if d.name == "tls_client_auth"@ {
        if d.args.len() != 2 {
            Err(ErrorV::ArgumentCount("tls_client_auth"@, 2, d.args.len() as usize))
        } else {
            Ok(
                TransportConfigV {
                    tls: UpstreamTlsConfigV {
                        client_cert: Some(d.args[0]),
                        client_key: Some(d.args[1]),
                        ..c.tls
                    },
                    ..c
                },
            )
        }
    } else if d.name == "tls_insecure_skip_verify"@ {
        error::with(args::bare(d), |v: ()| TransportConfigV { tls: UpstreamTlsConfigV { insecure_skip_verify: true, ..c.tls }, ..c })
    } else {
        Err(ErrorV::UnknownDirective("transport http: "@ + d.name))
    }
}

fn read_http_option(c: TransportConfig, d: &Directive) -> (r: Result<
    TransportConfig,
    AdapterError,
>)
    ensures
        error::outcome(r) == http_option(c.deep_view(), d.deep_view()),
{
    let mut c = c;
    let name = d.name.as_str();
    if same(name, "connect_timeout") {
        c.connect_timeout = Some(parse_required_duration(d)?);
    } else if same(name, "first_byte_timeout") {
        c.first_byte_timeout = Some(parse_required_duration(d)?);
    } else if same(name, "between_reads_timeout") {
        c.between_reads_timeout = Some(parse_required_duration(d)?);
    } else if same(name, "read_timeout") {
        c.read_timeout = Some(parse_required_duration(d)?);
    } else if same(name, "write_timeout") {
        c.write_timeout = Some(parse_required_duration(d)?);
    } else if same(name, "tls") {
        expect_no_arguments(d)?;
        c.tls.enable = true;
    } else if same(name, "tls_server_name") {
        c.tls.server_name = Some(expect_one_argument(d)?.to_owned());
    } else if same(name, "tls_trusted_ca_certs") {
        if d.args.len() == 0 {
            return Err(miscount("tls_trusted_ca_certs", 1, 0));
        }
        extend(&mut c.tls.trusted_ca_certs, &d.args);
    } else if same(name, "tls_client_auth") {
        if d.args.len() != 2 {
            return Err(miscount("tls_client_auth", 2, d.args.len()));
        }
        c.tls.client_cert = Some(d.args[0].clone());
        c.tls.client_key = Some(d.args[1].clone());
    } else if same(name, "tls_insecure_skip_verify") {
        expect_no_arguments(d)?;
        c.tls.insecure_skip_verify = true;
    } else {
        return Err(unknown_in("transport http: ", name));
    }
    Ok(c)
}

/// One line of a `transport http` block.
pub open spec fn transport_line(profile: Profile, c: TransportDraftV, d: DirectiveV) -> Result<
    TransportDraftV,
    ErrorV,
> {
    if profile == Profile::Extended && d.name == "dial_timeout"@ {
        error::with(
            args::span(d),
            |ms: u64| TransportDraftV {
                transport: TransportConfigV { connect_timeout: Some(ms), ..c.transport },
                ..c
            },
        )
    } else if profile == Profile::Extended && d.name == "response_header_timeout"@ {
        error::with(
            args::span(d),
            |ms: u64| TransportDraftV {
                transport: TransportConfigV { first_byte_timeout: Some(ms), ..c.transport },
                ..c
            },
        )
    } else if profile == Profile::Extended && kept_knobs().contains(d.name) {
        Ok(TransportDraftV { kept: c.kept.insert(d.name, text::joined(d.args, " "@)), ..c })
    } else {
        error::with(
            http_option(c.transport, d),
            |transport: TransportConfigV| TransportDraftV { transport, ..c },
        )
    }
}

fn read_transport_line(profile: Profile, c: TransportDraft, d: &Directive) -> (r: Result<
    TransportDraft,
    AdapterError,
>)
    ensures
        error::outcome(r) == transport_line(profile, c.deep_view(), d.deep_view()),
{
    let mut c = c;
    let name = d.name.as_str();
    if profile == Profile::Extended && same(name, "dial_timeout") {
        c.transport.connect_timeout = Some(parse_required_duration(d)?);
    } else if profile == Profile::Extended && same(name, "response_header_timeout") {
        c.transport.first_byte_timeout = Some(parse_required_duration(d)?);
    } else if profile == Profile::Extended && is_kept_knob(name) {
        c.kept.insert(d.name.clone(), join(&d.args, " "));
    } else {
        c.transport = read_http_option(c.transport, d)?;
    }
    Ok(c)
}

/// What a `transport http` block configures, on top of the knobs kept before.
pub open spec fn http_transport(
    profile: Profile,
    kept: Map<Seq<char>, Seq<char>>,
    lines: Seq<DirectiveV>,
) -> Result<TransportDraftV, ErrorV> {
    match fold::fold(
        |c: TransportDraftV, o: DirectiveV| transport_line(profile, c, o),
        TransportDraftV { transport: TransportConfigV::unset(), kept },
        lines,
    ) {
        Err(e) => Err(e),
        Ok(c) => error::with(policies::upstream_tls(c.transport.tls), |v: ()| c),
    }
}

/// Adapts the block of `transport http`.
pub fn adapt_http_transport(profile: Profile, kept: Table<String>, lines: &Vec<Directive>) -> (r:
    Result<TransportDraft, AdapterError>)
    ensures
        error::outcome(r) == http_transport(
            profile,
            kept.deep_view(),
            crate::syntax::directives_view(lines@),
        ),
{
    let read = |c: TransportDraft, d: &Directive| -> (r: Result<TransportDraft, AdapterError>)
        ensures
            error::outcome(r) == transport_line(profile, c.deep_view(), d.deep_view()),
        { read_transport_line(profile, c, d) };
    let c = fold_directives(
        read,
        TransportDraft { transport: TransportConfig::unset(), kept },
        lines,
        Ghost(|c: TransportDraftV, o: DirectiveV| transport_line(profile, c, o)),
    )?;
    validate_upstream_tls(&c.transport.tls)?;
    Ok(c)
}

// ---------------------------------------------------------------------------
// FastCGI
// ---------------------------------------------------------------------------
/// One line of a `transport fastcgi` block.
pub open spec fn fastcgi_option(c: FastCgiTransportConfigV, d: DirectiveV) -> Result<
    FastCgiTransportConfigV,
    ErrorV,
> {
    if d.name == "root"@ {
        error::with(args::sole(d), |v: Seq<char>| FastCgiTransportConfigV { root: Some(v), ..c })
    } else if d.name == "split"@ {
        if d.args.len() == 0 {
            Err(ErrorV::ArgumentCount("transport fastcgi split"@, 1, 0))
        } else {
            Ok(FastCgiTransportConfigV { split_path: d.args, ..c })
        }
    } else if d.name == "env"@ {
        if d.args.len() != 2 {
            Err(ErrorV::ArgumentCount("transport fastcgi env"@, 2, d.args.len() as usize))
        } else {
            Ok(FastCgiTransportConfigV { env: c.env.insert(d.args[0], d.args[1]), ..c })
        }
    } else if d.name == "resolve_root_symlink"@ {
        error::with(args::bare(d), |v: ()| FastCgiTransportConfigV { resolve_root_symlink: true, ..c })
    } else if d.name == "dial_timeout"@ {
        error::with(args::span(d), |ms: u64| FastCgiTransportConfigV { dial_timeout_ms: Some(ms), ..c })
    } else if d.name == "read_timeout"@ {
        error::with(args::span(d), |ms: u64| FastCgiTransportConfigV { read_timeout_ms: Some(ms), ..c })
    } else if d.name == "write_timeout"@ {
        error::with(args::span(d), |ms: u64| FastCgiTransportConfigV { write_timeout_ms: Some(ms), ..c })
    } else if d.name == "capture_stderr"@ {
        error::with(args::bare(d), |v: ()| FastCgiTransportConfigV { capture_stderr: true, ..c })
    } else {
        Err(ErrorV::UnknownDirective("transport fastcgi: "@ + d.name))
    }
}

fn read_fastcgi_option(c: FastCgiTransportConfig, d: &Directive) -> (r: Result<
    FastCgiTransportConfig,
    AdapterError,
>)
    ensures
        error::outcome(r) == fastcgi_option(c.deep_view(), d.deep_view()),
{
    let mut c = c;
    let name = d.name.as_str();
    if same(name, "root") {
        c.root = Some(expect_one_argument(d)?.to_owned());
    } else if same(name, "split") {
        if d.args.len() == 0 {
            return Err(miscount("transport fastcgi split", 1, 0));
        }
        c.split_path = d.args.duplicate();
    } else if same(name, "env") {
        if d.args.len() != 2 {
            return Err(miscount("transport fastcgi env", 2, d.args.len()));
        }
        c.env.insert(d.args[0].clone(), d.args[1].clone());
    } else if same(name, "resolve_root_symlink") {
        expect_no_arguments(d)?;
        c.resolve_root_symlink = true;
    } else if same(name, "dial_timeout") {
        c.dial_timeout_ms = Some(parse_required_duration(d)?);
    } else if same(name, "read_timeout") {
        c.read_timeout_ms = Some(parse_required_duration(d)?);
    } else if same(name, "write_timeout") {
        c.write_timeout_ms = Some(parse_required_duration(d)?);
    } else if same(name, "capture_stderr") {
        expect_no_arguments(d)?;
        c.capture_stderr = true;
    } else {
        return Err(unknown_in("transport fastcgi: ", name));
    }
    Ok(c)
}

/// Whether every character of `s` is ASCII.
pub open spec fn ascii(s: Seq<char>) -> bool {
    forall|i: int| 0 <= i < s.len() ==> #[trigger] s[i] <= '\u{7f}'
}

fn is_ascii(s: &str) -> (r: bool)
    ensures
        r == ascii(s@),
{
    let x = chars_of(s);
    let mut i: usize = 0;
    while i < x.len()
        invariant
            i <= x.len(),
            x@ == s@,
            forall|j: int| 0 <= j < i ==> #[trigger] s@[j] <= '\u{7f}',
        decreases x.len() - i,
    {
        if x[i] > '\u{7f}' {
            assert(s@[i as int] > '\u{7f}');
            return false;
        }
        i += 1;
    }
    true
}

/// The suffixes that end a script name are ASCII; the first that is not decides.
pub open spec fn split_path(list: Seq<Seq<char>>) -> Result<(), ErrorV>
    decreases list.len(),
{
    if list.len() == 0 {
        Ok(())
    } else if !ascii(list[0]) {
        Err(
            ErrorV::InvalidArgument(
                "transport fastcgi split"@,
                "split path `"@ + list[0] + "` contains non-ASCII characters"@,
            ),
        )
    } else {
        split_path(list.drop_first())
    }
}

/// Refuses a suffix that is not ASCII.
pub fn validate_fastcgi_split_path(list: &Vec<String>) -> (r: Result<(), AdapterError>)
    ensures
        error::outcome(r) == split_path(list.deep_view()),
{
    let ghost all = list.deep_view();
    let mut i: usize = 0;
    assert(all.skip(0) =~= all);
    while i < list.len()
        invariant
            i <= list.len(),
            all == list.deep_view(),
            split_path(all) == split_path(all.skip(i as int)),
        decreases list.len() - i,
    {
        assert(all.skip(i as int)[0] == list@[i as int]@);
        assert(all.skip(i as int).drop_first() =~= all.skip(i + 1));
        let value = list[i].as_str();
        if !is_ascii(value) {
            let reason = cat3("split path `", value, "` contains non-ASCII characters");
            return Err(invalid("transport fastcgi split", reason.as_str()));
        }
        i += 1;
    }
    Ok(())
}

/// What `transport fastcgi` configures.
pub open spec fn fastcgi_transport(lines: Option<Seq<DirectiveV>>) -> Result<
    FastCgiTransportConfigV,
    ErrorV,
> {
    let read = match lines {
        None => Ok(FastCgiTransportConfigV::unset()),
        Some(list) => fold::fold(
            |c: FastCgiTransportConfigV, o: DirectiveV| fastcgi_option(c, o),
            FastCgiTransportConfigV::unset(),
            list,
        ),
    };
    match read {
        Err(e) => Err(e),
        Ok(c) => error::with(split_path(c.split_path), |v: ()| c),
    }
}

/// Adapts `transport fastcgi`.
pub fn adapt_fastcgi_transport(d: &Directive) -> (r: Result<FastCgiTransportConfig, AdapterError>)
    ensures
        error::outcome(r) == fastcgi_transport(d.deep_view().block),
{
    let c = match &d.block {
        None => FastCgiTransportConfig::unset(),
        Some(block) => fold_directives(
            read_fastcgi_option,
            FastCgiTransportConfig::unset(),
            &block.directives,
            Ghost(|c: FastCgiTransportConfigV, o: DirectiveV| fastcgi_option(c, o)),
        )?,
    };
    validate_fastcgi_split_path(&c.split_path)?;
    Ok(c)
}

} // verus!
