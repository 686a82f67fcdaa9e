//! What the settings of a site and of the whole configuration mean.

use crate::adapter::args;
use crate::adapter::handler_laws;
use crate::adapter::limits;
use crate::adapter::logs;
use crate::adapter::policy_laws;
use crate::adapter::profile::Profile;
use crate::adapter::settings;
use crate::adapter::sites;
use crate::adapter::sites::SiteDraftV;
use crate::adapter::tls;
use crate::ast::log::{
    LogBlockV, LogFormatType, LogFormatV, LogLevel, LogOutputV, LogRotationBlockV, LogSampling,
};
use crate::ast::server::{
    CompressionAlgo, ListenAddrV, LongConnectionLimits, ResourceLimitsConfig, TlsDirectiveV,
};
use crate::ast::tree::ServerBlockV;
use crate::duration;
use crate::error::ErrorV;
use crate::fold;
use crate::syntax::{line, with_block, DirectiveV};
use crate::text;
use vstd::prelude::*;

verus! {

// ---------------------------------------------------------------------------
// limits
// ---------------------------------------------------------------------------
proof fn lemma_limit_line(
    d: DirectiveV,
    front: Seq<DirectiveV>,
    c: ResourceLimitsConfig,
    o: DirectiveV,
)
    requires
        limits::limits(with_block(d, front)) == Ok::<ResourceLimitsConfig, ErrorV>(c),
    ensures
        limits::limits(with_block(d, front.push(o))) == limits::limit_option(c, o),
{
    fold::a_last_directive_is_read_last(
        |c: ResourceLimitsConfig, o: DirectiveV| limits::limit_option(c, o),
        ResourceLimitsConfig::none(),
        front,
        o,
    );
}

/// A line of a `limits` block bounds what it names, and nothing else.
#[verifier::rlimit(60)]
pub proof fn a_limit_is_the_one_that_is_named(
    d: DirectiveV,
    front: Seq<DirectiveV>,
    c: ResourceLimitsConfig,
    t: Seq<char>,
    ms: u64,
    n: usize,
    b: u64,
)
    requires
        limits::limits(with_block(d, front)) == Ok::<ResourceLimitsConfig, ErrorV>(c),
        n > 0,
        b > 0,
        duration::millis(t) == Some(ms),
        0 < ms <= args::LONGEST_MS,
    ensures
        limits::limits(
            with_block(d, front.push(line("header_timeout"@, seq![t]))),
        ) == Ok::<ResourceLimitsConfig, ErrorV>(
            ResourceLimitsConfig { header_timeout_ms: Some(ms), ..c },
        ),
        limits::limits(
            with_block(d, front.push(line("body_timeout"@, seq![t]))),
        ) == Ok::<ResourceLimitsConfig, ErrorV>(
            ResourceLimitsConfig { body_timeout_ms: Some(ms), ..c },
        ),
        limits::limits(
            with_block(d, front.push(line("idle_timeout"@, seq![t]))),
        ) == Ok::<ResourceLimitsConfig, ErrorV>(
            ResourceLimitsConfig { idle_timeout_ms: Some(ms), ..c },
        ),
        limits::limits(
            with_block(d, front.push(line("request_timeout"@, seq![t]))),
        ) == Ok::<ResourceLimitsConfig, ErrorV>(
            ResourceLimitsConfig { request_timeout_ms: Some(ms), ..c },
        ),
        limits::limits(
            with_block(d, front.push(line("max_headers"@, seq![text::shown(n as nat)]))),
        ) == Ok::<ResourceLimitsConfig, ErrorV>(
            ResourceLimitsConfig { max_header_count: Some(n), ..c },
        ),
        limits::limits(
            with_block(d, front.push(line("max_header_bytes"@, seq![text::shown(n as nat)]))),
        ) == Ok::<ResourceLimitsConfig, ErrorV>(
            ResourceLimitsConfig { max_header_bytes: Some(n), ..c },
        ),
        limits::limits(
            with_block(d, front.push(line("max_connections"@, seq![text::shown(n as nat)]))),
        ) == Ok::<ResourceLimitsConfig, ErrorV>(
            ResourceLimitsConfig { max_connections: Some(n), ..c },
        ),
        limits::limits(
            with_block(d, front.push(line("upload_bytes_per_sec"@, seq![text::shown(b as nat)]))),
        ) == Ok::<ResourceLimitsConfig, ErrorV>(
            ResourceLimitsConfig { upload_bytes_per_sec: Some(b), ..c },
        ),
        limits::limits(
            with_block(d, front.push(line("download_bytes_per_sec"@, seq![text::shown(b as nat)]))),
        ) == Ok::<ResourceLimitsConfig, ErrorV>(
            ResourceLimitsConfig { download_bytes_per_sec: Some(b), ..c },
        ),
{
    reveal_strlit("header_timeout");
    reveal_strlit("body_timeout");
    reveal_strlit("idle_timeout");
    reveal_strlit("request_timeout");
    reveal_strlit("max_headers");
    reveal_strlit("max_header_bytes");
    reveal_strlit("max_connections");
    reveal_strlit("upload_bytes_per_sec");
    reveal_strlit("download_bytes_per_sec");
    reveal_strlit("long_connections");
    assert("header_timeout"@.len() == 14);
    assert("body_timeout"@.len() == 12 && "body_timeout"@[0] == 'b');
    assert("idle_timeout"@.len() == 12 && "idle_timeout"@[0] == 'i');
    assert("request_timeout"@.len() == 15 && "request_timeout"@[0] == 'r');
    assert("max_headers"@.len() == 11);
    assert("max_header_bytes"@.len() == 16 && "max_header_bytes"@[0] == 'm');
    assert("max_connections"@.len() == 15 && "max_connections"@[0] == 'm');
    assert("upload_bytes_per_sec"@.len() == 20);
    assert("download_bytes_per_sec"@.len() == 22);
    assert("long_connections"@.len() == 16 && "long_connections"@[0] == 'l');
    text::a_shown_number_reads_back(n as nat);
    assert(text::number(text::shown(n as nat), u64::MAX as nat) == Some(n as nat));
    text::a_shown_number_reads_back(b as nat);
    assert(text::number(text::shown(b as nat), u64::MAX as nat) == Some(b as nat));
    lemma_limit_line(d, front, c, line("header_timeout"@, seq![t]));
    lemma_limit_line(d, front, c, line("body_timeout"@, seq![t]));
    lemma_limit_line(d, front, c, line("idle_timeout"@, seq![t]));
    lemma_limit_line(d, front, c, line("request_timeout"@, seq![t]));
    lemma_limit_line(d, front, c, line("max_headers"@, seq![text::shown(n as nat)]));
    lemma_limit_line(d, front, c, line("max_header_bytes"@, seq![text::shown(n as nat)]));
    lemma_limit_line(d, front, c, line("max_connections"@, seq![text::shown(n as nat)]));
    lemma_limit_line(d, front, c, line("upload_bytes_per_sec"@, seq![text::shown(b as nat)]));
    lemma_limit_line(d, front, c, line("download_bytes_per_sec"@, seq![text::shown(b as nat)]));
}

/// The limits of long connections are those of the block that is named so.
pub proof fn long_connections_have_limits_of_their_own(
    d: DirectiveV,
    front: Seq<DirectiveV>,
    c: ResourceLimitsConfig,
    o: DirectiveV,
    long: LongConnectionLimits,
)
    requires
        limits::limits(with_block(d, front)) == Ok::<ResourceLimitsConfig, ErrorV>(c),
        o.name == "long_connections"@,
        limits::long_connections(o) == Ok::<LongConnectionLimits, ErrorV>(long),
    ensures
        limits::limits(with_block(d, front.push(o))) == Ok::<ResourceLimitsConfig, ErrorV>(
            ResourceLimitsConfig { long_connections: long, ..c },
        ),
{
    reveal_strlit("header_timeout");
    reveal_strlit("body_timeout");
    reveal_strlit("idle_timeout");
    reveal_strlit("request_timeout");
    reveal_strlit("max_headers");
    reveal_strlit("max_header_bytes");
    reveal_strlit("max_connections");
    reveal_strlit("upload_bytes_per_sec");
    reveal_strlit("download_bytes_per_sec");
    reveal_strlit("long_connections");
    assert("header_timeout"@.len() == 14);
    assert("body_timeout"@.len() == 12 && "body_timeout"@[0] == 'b');
    assert("idle_timeout"@.len() == 12 && "idle_timeout"@[0] == 'i');
    assert("request_timeout"@.len() == 15 && "request_timeout"@[0] == 'r');
    assert("max_headers"@.len() == 11);
    assert("max_header_bytes"@.len() == 16 && "max_header_bytes"@[0] == 'm');
    assert("max_connections"@.len() == 15 && "max_connections"@[0] == 'm');
    assert("upload_bytes_per_sec"@.len() == 20);
    assert("download_bytes_per_sec"@.len() == 22);
    assert("long_connections"@.len() == 16 && "long_connections"@[0] == 'l');
    lemma_limit_line(d, front, c, o);
}

proof fn lemma_long_line(
    d: DirectiveV,
    front: Seq<DirectiveV>,
    c: LongConnectionLimits,
    o: DirectiveV,
)
    requires
        limits::long_connections(with_block(d, front)) == Ok::<LongConnectionLimits, ErrorV>(c),
    ensures
        limits::long_connections(with_block(d, front.push(o))) == limits::long_option(c, o),
{
    fold::a_last_directive_is_read_last(
        |c: LongConnectionLimits, o: DirectiveV| limits::long_option(c, o),
        LongConnectionLimits::none(),
        front,
        o,
    );
}

/// A deadline of long connections is the one that is named; `off` and `none` take it away.
pub proof fn a_deadline_is_the_one_that_is_named(
    d: DirectiveV,
    front: Seq<DirectiveV>,
    c: LongConnectionLimits,
    t: Seq<char>,
    ms: u64,
)
    requires
        limits::long_connections(with_block(d, front)) == Ok::<LongConnectionLimits, ErrorV>(c),
        t != "off"@,
        t != "none"@,
        duration::millis(t) == Some(ms),
        0 < ms <= args::LONGEST_MS,
    ensures
        limits::long_connections(
            with_block(d, front.push(line("idle_timeout"@, seq![t]))),
        ) == Ok::<LongConnectionLimits, ErrorV>(
            LongConnectionLimits { idle_timeout_ms: Some(ms), ..c },
        ),
        limits::long_connections(
            with_block(d, front.push(line("request_timeout"@, seq![t]))),
        ) == Ok::<LongConnectionLimits, ErrorV>(
            LongConnectionLimits { request_timeout_ms: Some(ms), ..c },
        ),
        limits::long_connections(
            with_block(d, front.push(line("idle_timeout"@, seq!["off"@]))),
        ) == Ok::<LongConnectionLimits, ErrorV>(
            LongConnectionLimits { idle_timeout_ms: Some(0), ..c },
        ),
        limits::long_connections(
            with_block(d, front.push(line("request_timeout"@, seq!["none"@]))),
        ) == Ok::<LongConnectionLimits, ErrorV>(
            LongConnectionLimits { request_timeout_ms: Some(0), ..c },
        ),
{
    reveal_strlit("idle_timeout");
    reveal_strlit("request_timeout");
    assert("idle_timeout"@.len() == 12);
    assert("request_timeout"@.len() == 15);
    lemma_long_line(d, front, c, line("idle_timeout"@, seq![t]));
    lemma_long_line(d, front, c, line("request_timeout"@, seq![t]));
    lemma_long_line(d, front, c, line("idle_timeout"@, seq!["off"@]));
    lemma_long_line(d, front, c, line("request_timeout"@, seq!["none"@]));
}

// ---------------------------------------------------------------------------
// tls
// ---------------------------------------------------------------------------
/// The words of a `tls` line switch on what they name, and two files are a certificate and its key.
pub proof fn a_tls_line_says_where_certificates_come_from(
    name: Seq<char>,
    cert: Seq<char>,
    key: Seq<char>,
)
    ensures
        tls::tls(line(name, seq!["off"@])) == Ok::<TlsDirectiveV, ErrorV>(
            TlsDirectiveV { off: true, ..TlsDirectiveV::unset() },
        ),
        tls::tls(line(name, seq!["auto"@])) == Ok::<TlsDirectiveV, ErrorV>(
            TlsDirectiveV { auto: true, ..TlsDirectiveV::unset() },
        ),
        tls::tls(line(name, seq!["internal"@])) == Ok::<TlsDirectiveV, ErrorV>(
            TlsDirectiveV { internal: true, ..TlsDirectiveV::unset() },
        ),
        tls::tls(line(name, seq![cert, key])) == Ok::<TlsDirectiveV, ErrorV>(
            TlsDirectiveV { cert: Some(cert), key: Some(key), ..TlsDirectiveV::unset() },
        ),
{
    reveal_strlit("off");
    reveal_strlit("auto");
    reveal_strlit("internal");
    assert("off"@.len() == 3);
    assert("auto"@.len() == 4);
    assert("internal"@.len() == 8);
}

proof fn lemma_tls_line(d: DirectiveV, front: Seq<DirectiveV>, c: TlsDirectiveV, o: DirectiveV)
    requires
        tls::tls(with_block(d, front)) == Ok::<TlsDirectiveV, ErrorV>(c),
    ensures
        (c.cert is Some) == (c.key is Some),
        c.internal ==> !c.auto && c.cert is None && c.acme_email is None,
        tls::tls_option(c, o) matches Ok(n) ==> ((n.cert is Some) == (n.key is Some) && !(n.internal
            && (n.auto || n.cert is Some || n.acme_email is Some)) ==> tls::tls(
            with_block(d, front.push(o)),
        ) == Ok::<TlsDirectiveV, ErrorV>(n)),
        tls::tls_option(c, o) matches Ok(n) ==> ((n.cert is Some) != (n.key is Some) || (n.internal
            && (n.auto || n.cert is Some || n.acme_email is Some)) ==> tls::tls(
            with_block(d, front.push(o)),
        ) is Err),
{
    fold::a_last_directive_is_read_last(
        |c: TlsDirectiveV, o: DirectiveV| tls::tls_option(c, o),
        TlsDirectiveV::unset(),
        front,
        o,
    );
}

/// A line of a `tls` block sets what it names, where nothing contradicts it.
#[verifier::rlimit(40)]
pub proof fn a_tls_option_sets_what_it_names(
    d: DirectiveV,
    front: Seq<DirectiveV>,
    c: TlsDirectiveV,
    v: Seq<char>,
)
    requires
        tls::tls(with_block(d, front)) == Ok::<TlsDirectiveV, ErrorV>(c),
        !c.internal,
        c.cert is Some,
    ensures
        tls::tls(with_block(d, front.push(line("cert"@, seq![v])))) == Ok::<TlsDirectiveV, ErrorV>(
            TlsDirectiveV { cert: Some(v), ..c },
        ),
        tls::tls(with_block(d, front.push(line("key"@, seq![v])))) == Ok::<TlsDirectiveV, ErrorV>(
            TlsDirectiveV { key: Some(v), ..c },
        ),
        tls::tls(
            with_block(d, front.push(line("acme_email"@, seq![v]))),
        ) == Ok::<TlsDirectiveV, ErrorV>(
            TlsDirectiveV { acme_email: Some(v), ..c },
        ),
        tls::tls(with_block(d, front.push(line("email"@, seq![v])))) == Ok::<TlsDirectiveV, ErrorV>(
            TlsDirectiveV { acme_email: Some(v), ..c },
        ),
        tls::tls(
            with_block(d, front.push(line("auto"@, Seq::empty()))),
        ) == Ok::<TlsDirectiveV, ErrorV>(
            TlsDirectiveV { auto: true, ..c },
        ),
        tls::tls(
            with_block(d, front.push(line("http3"@, Seq::empty()))),
        ) == Ok::<TlsDirectiveV, ErrorV>(
            TlsDirectiveV { http3: Some(true), ..c },
        ),
        tls::tls(
            with_block(d, front.push(line("http3"@, seq!["off"@]))),
        ) == Ok::<TlsDirectiveV, ErrorV>(
            TlsDirectiveV { http3: Some(false), ..c },
        ),
        tls::tls(
            with_block(d, front.push(line("http3"@, seq!["false"@]))),
        ) == Ok::<TlsDirectiveV, ErrorV>(
            TlsDirectiveV { http3: Some(false), ..c },
        ),
{
    reveal_strlit("cert");
    reveal_strlit("key");
    reveal_strlit("acme_email");
    reveal_strlit("email");
    reveal_strlit("auto");
    reveal_strlit("internal");
    reveal_strlit("http3");
    reveal_strlit("off");
    reveal_strlit("false");
    assert("cert"@.len() == 4 && "cert"@[0] == 'c');
    assert("key"@.len() == 3 && "key"@[0] == 'k');
    assert("acme_email"@.len() == 10);
    assert("email"@.len() == 5 && "email"@[0] == 'e');
    assert("auto"@.len() == 4 && "auto"@[0] == 'a');
    assert("internal"@.len() == 8);
    assert("http3"@.len() == 5 && "http3"@[0] == 'h');
    assert("off"@.len() == 3 && "off"@[0] == 'o');
    assert("false"@.len() == 5 && "false"@[0] == 'f');
    lemma_tls_line(d, front, c, line("cert"@, seq![v]));
    lemma_tls_line(d, front, c, line("key"@, seq![v]));
    lemma_tls_line(d, front, c, line("acme_email"@, seq![v]));
    lemma_tls_line(d, front, c, line("email"@, seq![v]));
    lemma_tls_line(d, front, c, line("auto"@, Seq::empty()));
    lemma_tls_line(d, front, c, line("http3"@, Seq::empty()));
    lemma_tls_line(d, front, c, line("http3"@, seq!["off"@]));
    lemma_tls_line(d, front, c, line("http3"@, seq!["false"@]));
}

/// The local authority excludes every other source of certificates, and a certificate needs its
/// key.
pub proof fn the_local_authority_stands_alone(
    d: DirectiveV,
    front: Seq<DirectiveV>,
    c: TlsDirectiveV,
    v: Seq<char>,
)
    requires
        tls::tls(with_block(d, front)) == Ok::<TlsDirectiveV, ErrorV>(c),
    ensures
        !c.auto && c.cert is None && c.acme_email is None ==> tls::tls(
            with_block(d, front.push(line("internal"@, Seq::empty()))),
        ) == Ok::<TlsDirectiveV, ErrorV>(TlsDirectiveV { internal: true, ..c }),
        c.auto || c.cert is Some || c.acme_email is Some ==> tls::tls(
            with_block(d, front.push(line("internal"@, Seq::empty()))),
        ) is Err,
        c.cert is None ==> tls::tls(with_block(d, front.push(line("cert"@, seq![v])))) is Err
            && tls::tls(with_block(d, front.push(line("key"@, seq![v])))) is Err,
{
    reveal_strlit("cert");
    reveal_strlit("key");
    reveal_strlit("acme_email");
    reveal_strlit("email");
    reveal_strlit("auto");
    reveal_strlit("internal");
    assert("cert"@.len() == 4 && "cert"@[0] == 'c');
    assert("key"@.len() == 3);
    assert("acme_email"@.len() == 10);
    assert("email"@.len() == 5);
    assert("auto"@.len() == 4 && "auto"@[0] == 'a');
    assert("internal"@.len() == 8);
    lemma_tls_line(d, front, c, line("internal"@, Seq::empty()));
    lemma_tls_line(d, front, c, line("cert"@, seq![v]));
    lemma_tls_line(d, front, c, line("key"@, seq![v]));
}

// ---------------------------------------------------------------------------
// log
// ---------------------------------------------------------------------------
/// The name of a level.
pub open spec fn level_name(level: LogLevel) -> Seq<char> {
    match level {
        LogLevel::Trace => "trace"@,
        LogLevel::Debug => "debug"@,
        LogLevel::Info => "info"@,
        LogLevel::Warn => "warn"@,
        LogLevel::Error => "error"@,
    }
}

/// A level is named by its name, in any case; `warning` is a second name of one.
pub proof fn a_level_is_named_by_its_name(name: Seq<char>, word: Seq<char>, level: LogLevel)
    ensures
        logs::level(line(name, seq![word])) == Ok::<LogLevel, ErrorV>(level) <==> text::lower(word)
            == level_name(level) || (text::lower(word) == "warning"@ && level == LogLevel::Warn),
{
    reveal_strlit("trace");
    reveal_strlit("debug");
    reveal_strlit("info");
    reveal_strlit("warn");
    reveal_strlit("warning");
    reveal_strlit("error");
    assert("trace"@.len() == 5 && "trace"@[0] == 't');
    assert("debug"@.len() == 5 && "debug"@[0] == 'd');
    assert("info"@.len() == 4 && "info"@[0] == 'i');
    assert("warn"@.len() == 4 && "warn"@[0] == 'w');
    assert("warning"@.len() == 7);
    assert("error"@.len() == 5 && "error"@[0] == 'e');
}

proof fn lemma_log_line(
    profile: Profile,
    front: Seq<DirectiveV>,
    c: LogBlockV,
    o: DirectiveV,
)
    requires
        logs::log_block(profile, front) == Ok::<LogBlockV, ErrorV>(c),
    ensures
        logs::log_block(profile, front.push(o)) == logs::log_option(profile, c, o),
{
    fold::a_last_directive_is_read_last(
        |c: LogBlockV, o: DirectiveV| logs::log_option(profile, c, o),
        LogBlockV::standard(),
        front,
        o,
    );
}

/// `output` says where a log goes: to standard output, to standard error, or to the file that is
/// named.
pub proof fn a_log_goes_where_it_says(
    profile: Profile,
    front: Seq<DirectiveV>,
    c: LogBlockV,
    path: Seq<char>,
)
    requires
        logs::log_block(profile, front) == Ok::<LogBlockV, ErrorV>(c),
    ensures
        logs::log_block(
            profile,
            front.push(line("output"@, seq!["stdout"@])),
        ) == Ok::<LogBlockV, ErrorV>(
            LogBlockV { output: LogOutputV::Stdout, ..c },
        ),
        logs::log_block(
            profile,
            front.push(line("output"@, seq!["stderr"@])),
        ) == Ok::<LogBlockV, ErrorV>(
            LogBlockV { output: LogOutputV::Stderr, ..c },
        ),
        logs::log_block(
            profile,
            front.push(line("output"@, seq!["file"@, path])),
        ) == Ok::<LogBlockV, ErrorV>(
            LogBlockV { output: LogOutputV::File(path), ..c },
        ),
{
    reveal_strlit("file");
    reveal_strlit("stdout");
    reveal_strlit("stderr");
    assert("file"@.len() == 4);
    assert("stdout"@.len() == 6 && "stdout"@[3] == 'o');
    assert("stderr"@.len() == 6 && "stderr"@[3] == 'e');
    lemma_log_line(profile, front, c, line("output"@, seq!["stdout"@]));
    lemma_log_line(profile, front, c, line("output"@, seq!["stderr"@]));
    lemma_log_line(profile, front, c, line("output"@, seq!["file"@, path]));
}

/// `format` says how an entry is written.
pub proof fn a_log_has_the_format_that_is_named(
    profile: Profile,
    front: Seq<DirectiveV>,
    c: LogBlockV,
)
    requires
        logs::log_block(profile, front) == Ok::<LogBlockV, ErrorV>(c),
    ensures
        logs::log_block(
            profile,
            front.push(line("format"@, seq!["json"@])),
        ) == Ok::<LogBlockV, ErrorV>(
            LogBlockV { format: LogFormatV { format_type: Some(
                LogFormatType::Json,
            ), ..c.format }, ..c },
        ),
        logs::log_block(
            profile,
            front.push(line("format"@, seq!["text"@])),
        ) == Ok::<LogBlockV, ErrorV>(
            LogBlockV { format: LogFormatV { format_type: Some(
                LogFormatType::Text,
            ), ..c.format }, ..c },
        ),
{
    reveal_strlit("output");
    reveal_strlit("format");
    reveal_strlit("json");
    reveal_strlit("text");
    reveal_strlit("console");
    reveal_strlit("filter");
    assert("output"@.len() == 6 && "output"@[0] == 'o');
    assert("format"@.len() == 6 && "format"@[0] == 'f' && "format"@[1] == 'o');
    assert("json"@.len() == 4 && "json"@[0] == 'j');
    assert("text"@.len() == 4 && "text"@[0] == 't');
    assert("console"@.len() == 7);
    assert("filter"@.len() == 6 && "filter"@[0] == 'f' && "filter"@[1] == 'i');
    lemma_log_line(profile, front, c, line("format"@, seq!["json"@]));
    lemma_log_line(profile, front, c, line("format"@, seq!["text"@]));
}

/// In the extended profile `console` is a second word for text.
pub proof fn a_log_line_has_a_second_word_for_text(
    front: Seq<DirectiveV>,
    c: LogBlockV,
)
    requires
        logs::log_block(Profile::Extended, front) == Ok::<LogBlockV, ErrorV>(c),
    ensures
        logs::log_block(
            Profile::Extended,
            front.push(line("format"@, seq!["console"@])),
        ) == Ok::<LogBlockV, ErrorV>(
            LogBlockV { format: LogFormatV { format_type: Some(
                LogFormatType::Text,
            ), ..c.format }, ..c },
        ),
{
    reveal_strlit("output");
    reveal_strlit("format");
    reveal_strlit("json");
    reveal_strlit("text");
    reveal_strlit("console");
    reveal_strlit("filter");
    assert("output"@.len() == 6 && "output"@[0] == 'o');
    assert("format"@.len() == 6 && "format"@[0] == 'f' && "format"@[1] == 'o');
    assert("json"@.len() == 4 && "json"@[0] == 'j');
    assert("text"@.len() == 4 && "text"@[0] == 't');
    assert("console"@.len() == 7);
    assert("filter"@.len() == 6 && "filter"@[0] == 'f' && "filter"@[1] == 'i');
    lemma_log_line(Profile::Extended, front, c, line("format"@, seq!["console"@]));
}

/// `level` sets the level that it names.
pub proof fn a_log_has_the_level_that_is_named(
    profile: Profile,
    front: Seq<DirectiveV>,
    c: LogBlockV,
    word: Seq<char>,
    level: LogLevel,
)
    requires
        logs::log_block(profile, front) == Ok::<LogBlockV, ErrorV>(c),
        text::lower(word) == level_name(level),
    ensures
        logs::log_block(profile, front.push(line("level"@, seq![word]))) == Ok::<LogBlockV, ErrorV>(
            LogBlockV { level: Some(level), ..c },
        ),
{
    reveal_strlit("output");
    reveal_strlit("format");
    reveal_strlit("level");
    assert("output"@.len() == 6 && "output"@[0] == 'o');
    assert("format"@.len() == 6 && "format"@[0] == 'f');
    assert("level"@.len() == 5);
    a_level_is_named_by_its_name("level"@, word, level);
    lemma_log_line(profile, front, c, line("level"@, seq![word]));
}

/// Hosts, and loggers that are included or excluded, are added to the lists that are named so.
pub proof fn a_log_line_adds_to_the_list_it_names(
    front: Seq<DirectiveV>,
    c: LogBlockV,
    list: Seq<Seq<char>>,
)
    requires
        logs::log_block(Profile::Extended, front) == Ok::<LogBlockV, ErrorV>(c),
        list.len() > 0,
    ensures
        logs::log_block(
            Profile::Extended,
            front.push(line("hostnames"@, list)),
        ) == Ok::<LogBlockV, ErrorV>(
            LogBlockV { hostnames: c.hostnames + list, ..c },
        ),
        logs::log_block(
            Profile::Extended,
            front.push(line("include"@, list)),
        ) == Ok::<LogBlockV, ErrorV>(
            LogBlockV { included: c.included + list, ..c },
        ),
        logs::log_block(
            Profile::Extended,
            front.push(line("exclude"@, list)),
        ) == Ok::<LogBlockV, ErrorV>(
            LogBlockV { excluded: c.excluded + list, ..c },
        ),
{
    reveal_strlit("output");
    reveal_strlit("format");
    reveal_strlit("level");
    reveal_strlit("roll");
    reveal_strlit("headers");
    reveal_strlit("hostnames");
    reveal_strlit("include");
    reveal_strlit("exclude");
    reveal_strlit("sampling");
    assert("output"@.len() == 6 && "output"@[0] == 'o');
    assert("format"@.len() == 6 && "format"@[0] == 'f');
    assert("level"@.len() == 5);
    assert("roll"@.len() == 4);
    assert("headers"@.len() == 7 && "headers"@[0] == 'h');
    assert("hostnames"@.len() == 9);
    assert("include"@.len() == 7 && "include"@[0] == 'i');
    assert("exclude"@.len() == 7 && "exclude"@[0] == 'e');
    assert("sampling"@.len() == 8);
    lemma_log_line(Profile::Extended, front, c, line("hostnames"@, list));
    lemma_log_line(Profile::Extended, front, c, line("include"@, list));
    lemma_log_line(Profile::Extended, front, c, line("exclude"@, list));
}

/// The headers of the request and those of the response are recorded apart, by their names in lower
/// case.
pub proof fn a_log_records_the_headers_that_are_named(
    front: Seq<DirectiveV>,
    c: LogBlockV,
    list: Seq<Seq<char>>,
)
    requires
        logs::log_block(Profile::Extended, front) == Ok::<LogBlockV, ErrorV>(c),
    ensures
        logs::log_block(Profile::Extended, front.push(DirectiveV {
                    name: "headers"@,
                    args: Seq::empty(),
                    block: Some(seq![line("request"@, list)]),
                })) == Ok::<LogBlockV, ErrorV>(
            LogBlockV { request_headers: c.request_headers + text::lowered(list), ..c },
        ),
        logs::log_block(Profile::Extended, front.push(DirectiveV {
                    name: "headers"@,
                    args: Seq::empty(),
                    block: Some(seq![line("response"@, list)]),
                })) == Ok::<LogBlockV, ErrorV>(
            LogBlockV { response_headers: c.response_headers + text::lowered(list), ..c },
        ),
        logs::log_block(Profile::Extended, front.push(DirectiveV {
                    name: "headers"@,
                    args: Seq::empty(),
                    block: Some(seq![line("tls"@, list)]),
                })) == Ok::<LogBlockV, ErrorV>(
            LogBlockV { include_tls: true, ..c },
        ),
{
    reveal_strlit("output");
    reveal_strlit("format");
    reveal_strlit("level");
    reveal_strlit("roll");
    reveal_strlit("headers");
    reveal_strlit("request");
    reveal_strlit("response");
    reveal_strlit("tls");
    assert("output"@.len() == 6 && "output"@[0] == 'o');
    assert("format"@.len() == 6 && "format"@[0] == 'f');
    assert("level"@.len() == 5);
    assert("roll"@.len() == 4);
    assert("headers"@.len() == 7 && "headers"@[0] == 'h');
    assert("request"@.len() == 7 && "request"@[0] == 'r');
    assert("response"@.len() == 8);
    assert("tls"@.len() == 3);
    fold::a_lone_directive_is_read_by_itself(|c: LogBlockV, o: DirectiveV| logs::recorded(c, o), c, line("request"@, list));
    fold::a_lone_directive_is_read_by_itself(|c: LogBlockV, o: DirectiveV| logs::recorded(c, o), c, line("response"@, list));
    fold::a_lone_directive_is_read_by_itself(|c: LogBlockV, o: DirectiveV| logs::recorded(c, o), c, line("tls"@, list));
    lemma_log_line(Profile::Extended, front, c, DirectiveV {
                    name: "headers"@,
                    args: Seq::empty(),
                    block: Some(seq![line("request"@, list)]),
                });
    lemma_log_line(Profile::Extended, front, c, DirectiveV {
                    name: "headers"@,
                    args: Seq::empty(),
                    block: Some(seq![line("response"@, list)]),
                });
    lemma_log_line(Profile::Extended, front, c, DirectiveV {
                    name: "headers"@,
                    args: Seq::empty(),
                    block: Some(seq![line("tls"@, list)]),
                });
}

/// A block for sampling configures sampling, and one for rolling the rotation.
pub proof fn a_log_block_configures_what_it_is_named_after(
    front: Seq<DirectiveV>,
    c: LogBlockV,
    sampling: DirectiveV,
    sampled: LogSampling,
    roll: DirectiveV,
    rotation: LogRotationBlockV,
)
    requires
        logs::log_block(Profile::Extended, front) == Ok::<LogBlockV, ErrorV>(c),
        sampling.name == "sampling"@,
        logs::sampled(sampling) == Ok::<LogSampling, ErrorV>(sampled),
        roll.name == "roll"@,
        logs::rotated(c.rotation, roll) == Ok::<LogRotationBlockV, ErrorV>(rotation),
    ensures
        logs::log_block(Profile::Extended, front.push(sampling)) == Ok::<LogBlockV, ErrorV>(
            LogBlockV { sampling: Some(sampled), ..c },
        ),
        logs::log_block(Profile::Extended, front.push(roll)) == Ok::<LogBlockV, ErrorV>(
            LogBlockV { rotation, ..c },
        ),
{
    reveal_strlit("output");
    reveal_strlit("format");
    reveal_strlit("level");
    reveal_strlit("roll");
    reveal_strlit("headers");
    reveal_strlit("hostnames");
    reveal_strlit("include");
    reveal_strlit("exclude");
    reveal_strlit("sampling");
    assert("output"@.len() == 6 && "output"@[0] == 'o');
    assert("format"@.len() == 6 && "format"@[0] == 'f');
    assert("level"@.len() == 5);
    assert("roll"@.len() == 4);
    assert("headers"@.len() == 7 && "headers"@[0] == 'h');
    assert("hostnames"@.len() == 9);
    assert("include"@.len() == 7 && "include"@[0] == 'i');
    assert("exclude"@.len() == 7 && "exclude"@[0] == 'e');
    assert("sampling"@.len() == 8);
    lemma_log_line(Profile::Extended, front, c, sampling);
    lemma_log_line(Profile::Extended, front, c, roll);
}

proof fn lemma_sampling_line(
    d: DirectiveV,
    front: Seq<DirectiveV>,
    c: LogSampling,
    o: DirectiveV,
)
    requires
        logs::sampled(with_block(d, front)) == Ok::<LogSampling, ErrorV>(c),
    ensures
        logs::sampling_option(c, o) matches Ok(n) ==> (n.interval_secs > 0 ==> logs::sampled(
            with_block(d, front.push(o)),
        ) == Ok::<LogSampling, ErrorV>(n)),
        c.interval_secs > 0,
{
    fold::a_last_directive_is_read_last(
        |c: LogSampling, o: DirectiveV| logs::sampling_option(c, o),
        LogSampling { interval_secs: 0, first: 0, thereafter: 0 },
        front,
        o,
    );
}

/// A line of a `sampling` block sets what it names: the interval in seconds, how many entries of it
/// are written first, and how many of those that follow make one.
pub proof fn a_sampling_line_sets_what_it_names(
    d: DirectiveV,
    front: Seq<DirectiveV>,
    c: LogSampling,
    n: usize,
    t: Seq<char>,
    ms: u64,
)
    requires
        logs::sampled(with_block(d, front)) == Ok::<LogSampling, ErrorV>(c),
        n > 0,
        ms >= 1_000,
        duration::millis(t) == Some(ms),
        0 < ms <= args::LONGEST_MS,
    ensures
        logs::sampled(
            with_block(d, front.push(line("interval"@, seq![t]))),
        ) == Ok::<LogSampling, ErrorV>(
            LogSampling { interval_secs: (ms / 1_000) as u64, ..c },
        ),
        logs::sampled(
            with_block(d, front.push(line("first"@, seq![text::shown(n as nat)]))),
        ) == Ok::<LogSampling, ErrorV>(
            LogSampling { first: n, ..c },
        ),
        logs::sampled(
            with_block(d, front.push(line("thereafter"@, seq![text::shown(n as nat)]))),
        ) == Ok::<LogSampling, ErrorV>(
            LogSampling { thereafter: n, ..c },
        ),
{
    reveal_strlit("interval");
    reveal_strlit("first");
    reveal_strlit("thereafter");
    assert("interval"@.len() == 8);
    assert("first"@.len() == 5);
    assert("thereafter"@.len() == 10);
    text::a_shown_number_reads_back(n as nat);
    assert(text::number(text::shown(n as nat), u64::MAX as nat) == Some(n as nat));
    lemma_sampling_line(d, front, c, line("interval"@, seq![t]));
    lemma_sampling_line(d, front, c, line("first"@, seq![text::shown(n as nat)]));
    lemma_sampling_line(d, front, c, line("thereafter"@, seq![text::shown(n as nat)]));
}

proof fn lemma_rotation_line(
    d: DirectiveV,
    front: Seq<DirectiveV>,
    start: LogRotationBlockV,
    c: LogRotationBlockV,
    o: DirectiveV,
)
    requires
        logs::rotated(start, with_block(d, front)) == Ok::<LogRotationBlockV, ErrorV>(c),
    ensures
        logs::rotation_option(c, o) matches Ok(n) ==> (n.compress || n.keep is None || logs::rolls(
            n,
        ) ==> logs::rotated(start, with_block(d, front.push(o))) == Ok::<LogRotationBlockV, ErrorV>(
            n,
        )),
        c.compress || c.keep is None || logs::rolls(c),
{
    fold::a_last_directive_is_read_last(
        |c: LogRotationBlockV, o: DirectiveV| logs::rotation_option(c, o),
        start,
        front,
        o,
    );
}

/// A line of a `roll` block sets what it names: the size and the age at which a file rolls, and how
/// many are kept.
pub proof fn a_rotation_line_sets_what_it_names(
    d: DirectiveV,
    front: Seq<DirectiveV>,
    start: LogRotationBlockV,
    c: LogRotationBlockV,
    n: usize,
    t: Seq<char>,
    ms: u64,
    size: Seq<char>,
    bytes: u64,
)
    requires
        logs::rotated(start, with_block(d, front)) == Ok::<LogRotationBlockV, ErrorV>(c),
        n > 0,
        c.max_size_bytes is Some,
        logs::byte_size(line("size"@, seq![size])) == Ok::<u64, ErrorV>(bytes),
        duration::millis(t) == Some(ms),
        0 < ms <= args::LONGEST_MS,
    ensures
        logs::rotated(
            start,
            with_block(d, front.push(line("size"@, seq![size]))),
        ) == Ok::<LogRotationBlockV, ErrorV>(
            LogRotationBlockV { max_size_bytes: Some(bytes), ..c },
        ),
        logs::rotated(
            start,
            with_block(d, front.push(line("age"@, seq![t]))),
        ) == Ok::<LogRotationBlockV, ErrorV>(
            LogRotationBlockV { max_age_secs: Some((ms / 1_000) as u64), ..c },
        ),
        logs::rotated(
            start,
            with_block(d, front.push(line("keep"@, seq![text::shown(n as nat)]))),
        ) == Ok::<LogRotationBlockV, ErrorV>(
            LogRotationBlockV { keep: Some(n), ..c },
        ),
        logs::rotated(
            start,
            with_block(d, front.push(line("compress"@, Seq::empty()))),
        ) == Ok::<LogRotationBlockV, ErrorV>(
            LogRotationBlockV { compress: true, ..c },
        ),
{
    reveal_strlit("size");
    reveal_strlit("age");
    reveal_strlit("keep");
    reveal_strlit("compress");
    assert("size"@.len() == 4 && "size"@[0] == 's');
    assert("age"@.len() == 3);
    assert("keep"@.len() == 4 && "keep"@[0] == 'k');
    assert("compress"@.len() == 8);
    text::a_shown_number_reads_back(n as nat);
    assert(text::number(text::shown(n as nat), u64::MAX as nat) == Some(n as nat));
    lemma_rotation_line(d, front, start, c, line("size"@, seq![size]));
    lemma_rotation_line(d, front, start, c, line("age"@, seq![t]));
    lemma_rotation_line(d, front, start, c, line("keep"@, seq![text::shown(n as nat)]));
    lemma_rotation_line(d, front, start, c, line("compress"@, Seq::empty()));
}

/// A size is a number of its unit: bytes, or powers of 1024 of them.
pub proof fn a_size_counts_its_unit(name: Seq<char>, n: u64, unit: Seq<char>, each: nat)
    requires
        (unit == ""@ && each == 1) || (unit == "b"@ && each == 1) || (unit == "kb"@ && each
            == 1_024) || (unit == "mb"@ && each == 1_024 * 1_024) || (unit == "gb"@ && each == 1_024
            * 1_024 * 1_024),
        n * each <= u64::MAX,
    ensures
        logs::byte_size(line(name, seq![text::shown(n as nat) + unit])) == Ok::<u64, ErrorV>(
            (n * each) as u64,
        ),
{
    let count = text::shown(n as nat);
    let raw = count + unit;
    text::a_shown_number_reads_back(n as nat);
    assert(text::number(count, u64::MAX as nat) == Some(n as nat));
    reveal_strlit("b");
    reveal_strlit("k");
    reveal_strlit("kb");
    reveal_strlit("kib");
    reveal_strlit("m");
    reveal_strlit("mb");
    reveal_strlit("mib");
    reveal_strlit("g");
    reveal_strlit("gb");
    reveal_strlit("gib");
    assert("b"@.len() == 1 && "b"@[0] == 'b');
    assert("k"@.len() == 1 && "k"@[0] == 'k');
    assert("kb"@.len() == 2 && "kb"@[0] == 'k');
    assert("kib"@.len() == 3 && "kib"@[0] == 'k');
    assert("m"@.len() == 1 && "m"@[0] == 'm');
    assert("mb"@.len() == 2 && "mb"@[0] == 'm');
    assert("mib"@.len() == 3 && "mib"@[0] == 'm');
    assert("g"@.len() == 1 && "g"@[0] == 'g');
    assert("gb"@.len() == 2 && "gb"@[0] == 'g');
    assert("gib"@.len() == 3 && "gib"@[0] == 'g');
    reveal_strlit("");
    assert(""@.len() == 0);
    assert("b"@[0] == 'b' && "kb"@[0] == 'k' && "kb"@[1] == 'b' && "mb"@[0] == 'm' && "mb"@[1]
        == 'b' && "gb"@[0] == 'g' && "gb"@[1] == 'b');
    assert forall|i: int| 0 <= i < count.len() implies text::lower_char(#[trigger] count[i])
        == count[i] by {
        assert(text::digit(count[i]));
    }
    assert(text::lower(raw) =~= raw);
    assert(count.len() > 0);
    assert(text::digit(count[count.len() - 1]));
    let f = |c: char| logs::letter(c);
    lemma_trailing_letters(count, unit);
    assert(raw.skip(count.len() as int) =~= unit);
}

/// Letters behind digits are trimmed, and the digits stay.
proof fn lemma_trailing_letters(a: Seq<char>, r: Seq<char>)
    requires
        a.len() > 0,
        text::digit(a.last()),
        forall|i: int| 0 <= i < r.len() ==> logs::letter(#[trigger] r[i]),
    ensures
        text::trim_right(a + r, |c: char| logs::letter(c)) == a,
    decreases r.len(),
{
    let s = a + r;
    if r.len() == 0 {
        assert(s =~= a);
    } else {
        assert(s.last() == r.last());
        assert(logs::letter(r[r.len() - 1]));
        assert(s.drop_last() =~= a + r.drop_last());
        assert forall|i: int| 0 <= i < r.drop_last().len() implies logs::letter(
            #[trigger] r.drop_last()[i],
        ) by {
            assert(r.drop_last()[i] == r[i]);
        }
        lemma_trailing_letters(a, r.drop_last());
    }
}

proof fn lemma_roll_line(
    start: LogRotationBlockV,
    front: Seq<DirectiveV>,
    c: LogRotationBlockV,
    o: DirectiveV,
) -> (draft: logs::RollDraftV)
    requires
        logs::rolled(start, front) == Ok::<LogRotationBlockV, ErrorV>(c),
        front.len() > 0,
    ensures
        c == (LogRotationBlockV { compress: !draft.uncompressed, ..draft.rotation }),
        logs::roll_option(draft, o) matches Ok(n) ==> (n.rotation.keep is None || logs::rolls(
            n.rotation,
        ) ==> logs::rolled(start, front.push(o)) == Ok::<LogRotationBlockV, ErrorV>(
            LogRotationBlockV { compress: !n.uncompressed, ..n.rotation },
        )),
{
    let step = |c: logs::RollDraftV, o: DirectiveV| logs::roll_option(c, o);
    let first = logs::RollDraftV { rotation: start, uncompressed: false };
    fold::a_last_directive_is_read_last(step, first, front, o);
    fold::fold(step, first, front)->Ok_0
}

/// A line on the file of a log sets what it names: the size and the age at which it rolls, how many\nfiles are kept, and whether they are compressed.
#[verifier::rlimit(60)]
pub proof fn a_rolling_line_sets_what_it_names(
    start: LogRotationBlockV,
    front: Seq<DirectiveV>,
    c: LogRotationBlockV,
    n: usize,
    t: Seq<char>,
    ms: u64,
    size: Seq<char>,
    bytes: u64,
    v: Seq<char>,
)
    requires
        logs::rolled(start, front) == Ok::<LogRotationBlockV, ErrorV>(c),
        front.len() > 0,
        n > 0,
        c.max_size_bytes is Some,
        logs::byte_size(line("roll_size"@, seq![size])) == Ok::<u64, ErrorV>(bytes),
        duration::millis(t) == Some(ms),
        0 < ms <= args::LONGEST_MS,
    ensures
        logs::rolled(
            start,
            front.push(line("roll_size"@, seq![size])),
        ) == Ok::<LogRotationBlockV, ErrorV>(
            LogRotationBlockV { max_size_bytes: Some(bytes), ..c },
        ),
        logs::rolled(
            start,
            front.push(line("roll_keep"@, seq![text::shown(n as nat)])),
        ) == Ok::<LogRotationBlockV, ErrorV>(
            LogRotationBlockV { keep: Some(n), ..c },
        ),
        logs::rolled(
            start,
            front.push(line("roll_keep_for"@, seq![t])),
        ) == Ok::<LogRotationBlockV, ErrorV>(
            LogRotationBlockV { max_age_secs: Some((ms / 1_000) as u64), ..c },
        ),
        logs::rolled(
            start,
            front.push(line("roll_uncompressed"@, Seq::empty())),
        ) == Ok::<LogRotationBlockV, ErrorV>(
            LogRotationBlockV { compress: false, ..c },
        ),
{
    reveal_strlit("roll_size");
    reveal_strlit("roll_keep");
    reveal_strlit("roll_keep_for");
    reveal_strlit("roll_uncompressed");
    reveal_strlit("mode");
    reveal_strlit("dir_mode");
    reveal_strlit("roll_compression");
    reveal_strlit("roll_local_time");
    reveal_strlit("roll_interval");
    reveal_strlit("roll_at");
    reveal_strlit("roll_minutes");
    assert("roll_size"@.len() == 9 && "roll_size"@[5] == 's');
    assert("roll_keep"@.len() == 9 && "roll_keep"@[5] == 'k');
    assert("roll_keep_for"@.len() == 13 && "roll_keep_for"@[5] == 'k');
    assert("roll_uncompressed"@.len() == 17);
    assert("mode"@.len() == 4);
    assert("dir_mode"@.len() == 8);
    assert("roll_compression"@.len() == 16);
    assert("roll_local_time"@.len() == 15);
    assert("roll_interval"@.len() == 13 && "roll_interval"@[5] == 'i');
    assert("roll_at"@.len() == 7);
    assert("roll_minutes"@.len() == 12);
    text::a_shown_number_reads_back(n as nat);
    assert(text::number(text::shown(n as nat), u64::MAX as nat) == Some(n as nat));
    assert(text::joined(seq![v], " "@) == v);
    let draft1 = lemma_roll_line(start, front, c, line("roll_size"@, seq![size]));
    let draft2 = lemma_roll_line(start, front, c, line("roll_keep"@, seq![text::shown(n as nat)]));
    let draft3 = lemma_roll_line(start, front, c, line("roll_keep_for"@, seq![t]));
    let draft4 = lemma_roll_line(start, front, c, line("roll_uncompressed"@, Seq::empty()));
}

/// A line on the file of a log sets what it names: the modes of the file and of its directory, and\nhow it is compressed and named.
#[verifier::rlimit(60)]
pub proof fn a_file_line_of_a_log_sets_what_it_names(
    start: LogRotationBlockV,
    front: Seq<DirectiveV>,
    c: LogRotationBlockV,
    n: usize,
    t: Seq<char>,
    ms: u64,
    size: Seq<char>,
    bytes: u64,
    v: Seq<char>,
)
    requires
        logs::rolled(start, front) == Ok::<LogRotationBlockV, ErrorV>(c),
        front.len() > 0,
        n > 0,
        c.max_size_bytes is Some,
        logs::byte_size(line("roll_size"@, seq![size])) == Ok::<u64, ErrorV>(bytes),
        duration::millis(t) == Some(ms),
        0 < ms <= args::LONGEST_MS,
    ensures
        logs::rolled(start, front.push(line("mode"@, seq![v]))) == Ok::<LogRotationBlockV, ErrorV>(
            LogRotationBlockV { mode: Some(v), ..c },
        ),
        logs::rolled(
            start,
            front.push(line("dir_mode"@, seq![v])),
        ) == Ok::<LogRotationBlockV, ErrorV>(
            LogRotationBlockV { dir_mode: Some(v), ..c },
        ),
        logs::rolled(
            start,
            front.push(line("roll_compression"@, seq![v])),
        ) == Ok::<LogRotationBlockV, ErrorV>(
            LogRotationBlockV { roll_compression: Some(v), ..c },
        ),
        logs::rolled(
            start,
            front.push(line("roll_local_time"@, Seq::empty())),
        ) == Ok::<LogRotationBlockV, ErrorV>(
            LogRotationBlockV { roll_local_time: true, ..c },
        ),
{
    reveal_strlit("roll_size");
    reveal_strlit("roll_keep");
    reveal_strlit("roll_keep_for");
    reveal_strlit("roll_uncompressed");
    reveal_strlit("mode");
    reveal_strlit("dir_mode");
    reveal_strlit("roll_compression");
    reveal_strlit("roll_local_time");
    reveal_strlit("roll_interval");
    reveal_strlit("roll_at");
    reveal_strlit("roll_minutes");
    assert("roll_size"@.len() == 9 && "roll_size"@[5] == 's');
    assert("roll_keep"@.len() == 9 && "roll_keep"@[5] == 'k');
    assert("roll_keep_for"@.len() == 13 && "roll_keep_for"@[5] == 'k');
    assert("roll_uncompressed"@.len() == 17);
    assert("mode"@.len() == 4);
    assert("dir_mode"@.len() == 8);
    assert("roll_compression"@.len() == 16);
    assert("roll_local_time"@.len() == 15);
    assert("roll_interval"@.len() == 13 && "roll_interval"@[5] == 'i');
    assert("roll_at"@.len() == 7);
    assert("roll_minutes"@.len() == 12);
    text::a_shown_number_reads_back(n as nat);
    assert(text::number(text::shown(n as nat), u64::MAX as nat) == Some(n as nat));
    assert(text::joined(seq![v], " "@) == v);
    let draft1 = lemma_roll_line(start, front, c, line("mode"@, seq![v]));
    let draft2 = lemma_roll_line(start, front, c, line("dir_mode"@, seq![v]));
    let draft3 = lemma_roll_line(start, front, c, line("roll_compression"@, seq![v]));
    let draft4 = lemma_roll_line(start, front, c, line("roll_local_time"@, Seq::empty()));
}

/// A line on the file of a log sets the time at which it rolls that it names.
#[verifier::rlimit(60)]
pub proof fn a_rolling_time_is_the_one_that_is_named(
    start: LogRotationBlockV,
    front: Seq<DirectiveV>,
    c: LogRotationBlockV,
    n: usize,
    t: Seq<char>,
    ms: u64,
    size: Seq<char>,
    bytes: u64,
    v: Seq<char>,
)
    requires
        logs::rolled(start, front) == Ok::<LogRotationBlockV, ErrorV>(c),
        front.len() > 0,
        n > 0,
        c.max_size_bytes is Some,
        logs::byte_size(line("roll_size"@, seq![size])) == Ok::<u64, ErrorV>(bytes),
        duration::millis(t) == Some(ms),
        0 < ms <= args::LONGEST_MS,
    ensures
        logs::rolled(
            start,
            front.push(line("roll_interval"@, seq![t])),
        ) == Ok::<LogRotationBlockV, ErrorV>(
            LogRotationBlockV { roll_interval_secs: Some((ms / 1_000) as u64), ..c },
        ),
        logs::rolled(
            start,
            front.push(line("roll_at"@, seq![v])),
        ) == Ok::<LogRotationBlockV, ErrorV>(
            LogRotationBlockV { roll_at: Some(v), ..c },
        ),
        logs::rolled(
            start,
            front.push(line("roll_minutes"@, seq![v])),
        ) == Ok::<LogRotationBlockV, ErrorV>(
            LogRotationBlockV { roll_minutes: Some(v), ..c },
        ),
{
    reveal_strlit("roll_size");
    reveal_strlit("roll_keep");
    reveal_strlit("roll_keep_for");
    reveal_strlit("roll_uncompressed");
    reveal_strlit("mode");
    reveal_strlit("dir_mode");
    reveal_strlit("roll_compression");
    reveal_strlit("roll_local_time");
    reveal_strlit("roll_interval");
    reveal_strlit("roll_at");
    reveal_strlit("roll_minutes");
    assert("roll_size"@.len() == 9 && "roll_size"@[5] == 's');
    assert("roll_keep"@.len() == 9 && "roll_keep"@[5] == 'k');
    assert("roll_keep_for"@.len() == 13 && "roll_keep_for"@[5] == 'k');
    assert("roll_uncompressed"@.len() == 17);
    assert("mode"@.len() == 4);
    assert("dir_mode"@.len() == 8);
    assert("roll_compression"@.len() == 16);
    assert("roll_local_time"@.len() == 15);
    assert("roll_interval"@.len() == 13 && "roll_interval"@[5] == 'i');
    assert("roll_at"@.len() == 7);
    assert("roll_minutes"@.len() == 12);
    text::a_shown_number_reads_back(n as nat);
    assert(text::number(text::shown(n as nat), u64::MAX as nat) == Some(n as nat));
    assert(text::joined(seq![v], " "@) == v);
    let draft1 = lemma_roll_line(start, front, c, line("roll_interval"@, seq![t]));
    let draft2 = lemma_roll_line(start, front, c, line("roll_at"@, seq![v]));
    let draft3 = lemma_roll_line(start, front, c, line("roll_minutes"@, seq![v]));
}

// ---------------------------------------------------------------------------
// Settings of a site
// ---------------------------------------------------------------------------
/// The word for a coding.
pub open spec fn coding_word(coding: CompressionAlgo) -> Seq<char> {
    match coding {
        CompressionAlgo::Gzip => "gzip"@,
        CompressionAlgo::Br => "br"@,
        CompressionAlgo::Zstd => "zstd"@,
    }
}

/// A coding is named by its word, in any case; `brotli` is a second word for one.
pub proof fn a_coding_is_named_by_its_word(
    name: Seq<char>,
    word: Seq<char>,
    coding: CompressionAlgo,
)
    ensures
        settings::coding(name, word) == Ok::<CompressionAlgo, ErrorV>(coding) <==> text::lowercase(
            word,
        ) == coding_word(coding) || (text::lowercase(word) == "brotli"@ && coding
            == CompressionAlgo::Br),
        settings::codings(line(name, Seq::empty())) == Ok::<Seq<CompressionAlgo>, ErrorV>(
            seq![CompressionAlgo::Gzip],
        ),
        text::lowercase(word) == "off"@ || text::lowercase(word) == "none"@ ==> settings::codings(
            line(name, seq![word]),
        ) == Ok::<Seq<CompressionAlgo>, ErrorV>(Seq::empty()),
{
    reveal_strlit("gzip");
    reveal_strlit("br");
    reveal_strlit("brotli");
    reveal_strlit("zstd");
    reveal_strlit("off");
    reveal_strlit("none");
    assert("gzip"@.len() == 4 && "gzip"@[0] == 'g');
    assert("br"@.len() == 2);
    assert("brotli"@.len() == 6);
    assert("zstd"@.len() == 4 && "zstd"@[0] == 'z');
    assert("off"@.len() == 3);
    assert("none"@.len() == 4 && "none"@[0] == 'n');
}

proof fn lemma_codings(name: Seq<char>, words: Seq<Seq<char>>, list: Seq<CompressionAlgo>)
    requires
        words.len() == list.len(),
        forall|i: int|
            0 <= i < list.len() ==> text::lowercase(#[trigger] words[i]) == coding_word(list[i]),
    ensures
        fold::each(|word: Seq<char>| settings::coding(name, word), words) == Ok::<
            Seq<CompressionAlgo>,
            ErrorV,
        >(list),
    decreases words.len(),
{
    if words.len() == 0 {
        assert(list =~= Seq::empty());
    } else {
        let n = words.len() - 1;
        lemma_codings(name, words.drop_last(), list.drop_last());
        assert(words.last() == words[n]);
        a_coding_is_named_by_its_word(name, words[n], list[n]);
        assert(list.drop_last().push(list[n]) =~= list);
    }
}

proof fn lemma_unique(list: Seq<CompressionAlgo>)
    requires
        list.no_duplicates(),
    ensures
        settings::unique(list) == list,
    decreases list.len(),
{
    if list.len() > 0 {
        let front = list.drop_last();
        lemma_unique(front);
        assert(!front.contains(list.last())) by {
            if front.contains(list.last()) {
                let i = choose|i: int| 0 <= i < front.len() && front[i] == list.last();
                assert(list[i] == list[list.len() - 1]);
            }
        }
        assert(front.push(list.last()) =~= list);
    } else {
        assert(list =~= Seq::empty());
    }
}

/// Codings are preferred in the order in which they are written.
pub proof fn codings_are_preferred_as_written(
    name: Seq<char>,
    words: Seq<Seq<char>>,
    list: Seq<CompressionAlgo>,
)
    requires
        words.len() > 0,
        words.len() == list.len(),
        list.no_duplicates(),
        forall|i: int|
            0 <= i < list.len() ==> text::lowercase(#[trigger] words[i]) == coding_word(list[i]),
    ensures
        settings::codings(line(name, words)) == Ok::<Seq<CompressionAlgo>, ErrorV>(list),
{
    reveal_strlit("gzip");
    reveal_strlit("br");
    reveal_strlit("zstd");
    reveal_strlit("off");
    reveal_strlit("none");
    assert("gzip"@.len() == 4 && "gzip"@[0] == 'g');
    assert("br"@.len() == 2);
    assert("zstd"@.len() == 4 && "zstd"@[0] == 'z');
    assert("off"@.len() == 3);
    assert("none"@.len() == 4 && "none"@[0] == 'n');
    assert(text::lowercase(words[0]) == coding_word(list[0]));
    lemma_codings(name, words, list);
    lemma_unique(list);
}

/// Each status of an `error_page` line has the page at its end, and only the statuses of errors
/// have one.
pub proof fn an_error_page_is_for_each_status_before_it(
    name: Seq<char>,
    codes: Seq<u16>,
    page: Seq<char>,
)
    requires
        codes.len() > 0,
        forall|i: int| 0 <= i < codes.len() ==> 400 <= #[trigger] codes[i] <= 599,
    ensures
        settings::error_pages(line(name, policy_laws::written_codes(codes).push(page))) matches Ok(
            list,
        ) && (list.len() == codes.len() && forall|i: int|
            0 <= i < codes.len() ==> #[trigger] list[i] == (codes[i], page)),
{
    let args = policy_laws::written_codes(codes).push(page);
    assert(args.drop_last() =~= policy_laws::written_codes(codes));
    lemma_error_codes(codes);
}

proof fn lemma_error_codes(codes: Seq<u16>)
    requires
        forall|i: int| 0 <= i < codes.len() ==> 400 <= #[trigger] codes[i] <= 599,
    ensures
        fold::each(
            |word: Seq<char>| settings::error_code(word),
            policy_laws::written_codes(codes),
        ) == Ok::<Seq<u16>, ErrorV>(codes),
    decreases codes.len(),
{
    if codes.len() == 0 {
        assert(codes =~= Seq::empty());
    } else {
        let front = codes.drop_last();
        lemma_error_codes(front);
        assert(policy_laws::written_codes(codes).drop_last() =~= policy_laws::written_codes(front));
        handler_laws::lemma_code(codes.last());
        assert(400 <= codes[codes.len() - 1] <= 599);
        assert(front.push(codes.last()) =~= codes);
    }
}

/// A status that is no error has no page.
pub proof fn only_errors_have_a_page(name: Seq<char>, code: u16, page: Seq<char>)
    requires
        !(400 <= code <= 599),
    ensures
        settings::error_pages(line(name, seq![text::shown(code as nat), page])) is Err,
{
    let args = seq![text::shown(code as nat), page];
    handler_laws::lemma_code(code);
    assert(args.drop_last() =~= seq![text::shown(code as nat)]);
    assert(args.drop_last().drop_last() =~= Seq::empty());
    assert(args.drop_last().last() == text::shown(code as nat));
}

/// The directory of `root` is its argument, behind an optional `*`.
pub proof fn a_root_is_its_directory(name: Seq<char>, path: Seq<char>)
    requires
        path != "*"@,
    ensures
        settings::document_root(line(name, seq![path])) == Ok::<Seq<char>, ErrorV>(path),
        settings::document_root(line(name, seq!["*"@, path])) == Ok::<Seq<char>, ErrorV>(path),
{
    assert(seq!["*"@, path].skip(1) =~= seq![path]);
}

proof fn lemma_site_line(
    profile: Profile,
    d: DirectiveV,
    front: Seq<DirectiveV>,
    c: SiteDraftV,
    o: DirectiveV,
    order: Seq<Seq<char>>,
)
    requires
        sites::drafted(profile, d, front, order) == Ok::<SiteDraftV, ErrorV>(c),
        sites::is_setting(o.name),
    ensures
        sites::drafted(profile, d, front.push(o), order) == (match sites::setting(
            profile,
            c.server,
            o,
        ) {
            Ok(server) => Ok(SiteDraftV { server, ..c }),
            Err(e) => Err(e),
        }),
{
    fold::a_last_directive_is_read_last(
        |c: SiteDraftV, o: DirectiveV| sites::site_line(profile, c, o, order),
        sites::opening(profile, d)->Ok_0,
        front,
        o,
    );
}

/// A setting of a site sets what it names, and nothing else: where the site is bound and listens, its
/// directory, its codings and their types, its certificates, its limits and its error pages.
#[verifier::rlimit(60)]
pub proof fn a_setting_sets_what_it_names(
    profile: Profile,
    d: DirectiveV,
    front: Seq<DirectiveV>,
    c: SiteDraftV,
    order: Seq<Seq<char>>,
    v: Seq<char>,
    listen: DirectiveV,
    listener: ListenAddrV,
    root: DirectiveV,
    encode: DirectiveV,
    codings: Seq<CompressionAlgo>,
    types: Seq<Seq<char>>,
    secure: DirectiveV,
    certificates: TlsDirectiveV,
    bounded: DirectiveV,
    bounds: ResourceLimitsConfig,
    page: DirectiveV,
    pages: Seq<(u16, Seq<char>)>,
)
    requires
        sites::drafted(profile, d, front, order) == Ok::<SiteDraftV, ErrorV>(c),
        listen.name == "listen"@,
        settings::listener(profile, listen) == Ok::<ListenAddrV, ErrorV>(listener),
        root.name == "root"@,
        settings::document_root(root) == Ok::<Seq<char>, ErrorV>(v),
        encode.name == "encode"@ || encode.name == "compress"@,
        settings::codings(encode) == Ok::<Seq<CompressionAlgo>, ErrorV>(codings),
        settings::mime_patterns(types) == Ok::<Seq<Seq<char>>, ErrorV>(types),
        secure.name == "tls"@,
        tls::tls(secure) == Ok::<TlsDirectiveV, ErrorV>(certificates),
        bounded.name == "limits"@,
        limits::limits(bounded) == Ok::<ResourceLimitsConfig, ErrorV>(bounds),
        page.name == "error_page"@,
        settings::error_pages(page) == Ok::<Seq<(u16, Seq<char>)>, ErrorV>(pages),
    ensures
        sites::drafted(
            profile,
            d,
            front.push(line("bind"@, seq![v])),
            order,
        ) == Ok::<SiteDraftV, ErrorV>(
            SiteDraftV { server: ServerBlockV { bind: Some(v), ..c.server }, ..c },
        ),
        sites::drafted(profile, d, front.push(listen), order) == Ok::<SiteDraftV, ErrorV>(
            SiteDraftV { server: ServerBlockV { listens: c.server.listens.push(
                listener,
            ), ..c.server }, ..c },
        ),
        sites::drafted(profile, d, front.push(root), order) == Ok::<SiteDraftV, ErrorV>(
            SiteDraftV { server: ServerBlockV { root: Some(v), ..c.server }, ..c },
        ),
        sites::drafted(profile, d, front.push(encode), order) == Ok::<SiteDraftV, ErrorV>(
            SiteDraftV { server: ServerBlockV { compress: Some(codings), ..c.server }, ..c },
        ),
        sites::drafted(
            profile,
            d,
            front.push(line("gzip_types"@, types)),
            order,
        ) == Ok::<SiteDraftV, ErrorV>(
            SiteDraftV { server: ServerBlockV { gzip_types: types, ..c.server }, ..c },
        ),
        sites::drafted(profile, d, front.push(secure), order) == Ok::<SiteDraftV, ErrorV>(
            SiteDraftV { server: ServerBlockV { tls: Some(certificates), ..c.server }, ..c },
        ),
        sites::drafted(profile, d, front.push(bounded), order) == Ok::<SiteDraftV, ErrorV>(
            SiteDraftV { server: ServerBlockV { limits: bounds, ..c.server }, ..c },
        ),
        sites::drafted(profile, d, front.push(page), order) == Ok::<SiteDraftV, ErrorV>(
            SiteDraftV { server: ServerBlockV { error_pages: c.server.error_pages + pages, ..c.server }, ..c },
        ),
{
    reveal_strlit("bind");
    reveal_strlit("listen");
    reveal_strlit("root");
    reveal_strlit("compress");
    reveal_strlit("encode");
    reveal_strlit("gzip_types");
    reveal_strlit("log");
    reveal_strlit("tls");
    reveal_strlit("limits");
    reveal_strlit("error_page");
    assert("bind"@.len() == 4 && "bind"@[0] == 'b');
    assert("listen"@.len() == 6 && "listen"@[0] == 'l' && "listen"@[2] == 's');
    assert("root"@.len() == 4 && "root"@[0] == 'r');
    assert("compress"@.len() == 8);
    assert("encode"@.len() == 6 && "encode"@[0] == 'e');
    assert("gzip_types"@.len() == 10 && "gzip_types"@[0] == 'g');
    assert("log"@.len() == 3 && "log"@[0] == 'l');
    assert("tls"@.len() == 3 && "tls"@[0] == 't');
    assert("limits"@.len() == 6 && "limits"@[0] == 'l' && "limits"@[2] == 'm');
    assert("error_page"@.len() == 10 && "error_page"@[0] == 'e');
    lemma_site_line(profile, d, front, c, line("bind"@, seq![v]), order);
    lemma_site_line(profile, d, front, c, listen, order);
    lemma_site_line(profile, d, front, c, root, order);
    lemma_site_line(profile, d, front, c, encode, order);
    lemma_site_line(profile, d, front, c, line("gzip_types"@, types), order);
    lemma_site_line(profile, d, front, c, secure, order);
    lemma_site_line(profile, d, front, c, bounded, order);
    lemma_site_line(profile, d, front, c, page, order);
}

/// A `log` with a block is the log of the site, or one of its own name; without a block it is the
/// standard log, or refers to a channel.
#[verifier::rlimit(40)]
pub proof fn a_log_of_a_site_is_its_own_or_a_channel(
    d: DirectiveV,
    front: Seq<DirectiveV>,
    c: SiteDraftV,
    order: Seq<Seq<char>>,
    name: Seq<char>,
    lines: Seq<DirectiveV>,
    log: LogBlockV,
)
    requires
        sites::drafted(Profile::Extended, d, front, order) == Ok::<SiteDraftV, ErrorV>(c),
        logs::log_block(Profile::Extended, lines) == Ok::<LogBlockV, ErrorV>(log),
    ensures
        sites::drafted(
            Profile::Extended,
            d,
            front.push(line("log"@, Seq::empty())),
            order,
        ) == Ok::<SiteDraftV, ErrorV>(
            SiteDraftV { server: ServerBlockV { log: Some(
                LogBlockV::standard(),
            ), ..c.server }, ..c },
        ),
        sites::drafted(
            Profile::Extended,
            d,
            front.push(line("log"@, seq![name])),
            order,
        ) == Ok::<SiteDraftV, ErrorV>(
            SiteDraftV { server: ServerBlockV { log_channels: c.server.log_channels.push(
                name,
            ), ..c.server }, ..c },
        ),
        sites::drafted(
            Profile::Extended,
            d,
            front.push(with_block(line("log"@, Seq::empty()), lines)),
            order,
        ) == Ok::<SiteDraftV, ErrorV>(
            SiteDraftV { server: ServerBlockV { log: Some(log), ..c.server }, ..c },
        ),
        sites::drafted(
            Profile::Extended,
            d,
            front.push(with_block(line("log"@, seq![name]), lines)),
            order,
        ) == Ok::<SiteDraftV, ErrorV>(
            SiteDraftV { server: ServerBlockV { named_logs: c.server.named_logs.push(
                LogBlockV { name: Some(name), ..log },
            ), ..c.server }, ..c },
        ),
{
    reveal_strlit("bind");
    reveal_strlit("listen");
    reveal_strlit("root");
    reveal_strlit("compress");
    reveal_strlit("encode");
    reveal_strlit("gzip_types");
    reveal_strlit("log");
    reveal_strlit("tls");
    reveal_strlit("limits");
    reveal_strlit("error_page");
    assert("bind"@.len() == 4 && "bind"@[0] == 'b');
    assert("listen"@.len() == 6 && "listen"@[0] == 'l' && "listen"@[2] == 's');
    assert("root"@.len() == 4 && "root"@[0] == 'r');
    assert("compress"@.len() == 8);
    assert("encode"@.len() == 6 && "encode"@[0] == 'e');
    assert("gzip_types"@.len() == 10 && "gzip_types"@[0] == 'g');
    assert("log"@.len() == 3 && "log"@[0] == 'l');
    assert("tls"@.len() == 3 && "tls"@[0] == 't');
    assert("limits"@.len() == 6 && "limits"@[0] == 'l' && "limits"@[2] == 'm');
    assert("error_page"@.len() == 10 && "error_page"@[0] == 'e');
    lemma_site_line(Profile::Extended, d, front, c, line("log"@, Seq::empty()), order);
    lemma_site_line(Profile::Extended, d, front, c, line("log"@, seq![name]), order);
    lemma_site_line(
        Profile::Extended,
        d,
        front,
        c,
        with_block(line("log"@, Seq::empty()), lines),
        order,
    );
    lemma_site_line(
        Profile::Extended,
        d,
        front,
        c,
        with_block(line("log"@, seq![name]), lines),
        order,
    );
}

} // verus!
