//! What the handler directives mean.

use crate::adapter::content;
use crate::adapter::directives;
use crate::adapter::profile::Profile;
use crate::ast::handler::{
    AccessControlConfigV, BasicAuthAlgorithm, BasicAuthConfigV, CorsConfigV, ErrorConfigV,
    FileServerConfigV, HeadersConfigV, RateLimitConfigV, RateLimitKeyV, RedirectConfigV,
};
use crate::ast::proxy::ExprV;
use crate::duration;
use crate::error::ErrorV;
use crate::fold;
use crate::syntax::{line, with_block, DirectiveV};
use crate::text;
use vstd::prelude::*;

verus! {

// ---------------------------------------------------------------------------
// redir and respond
// ---------------------------------------------------------------------------
/// A status code that is written out is read as that code.
pub proof fn lemma_code(code: u16)
    ensures
        text::as_u16(text::shown(code as nat)) == Some(code),
{
    text::a_shown_number_reads_back(code as nat);
    assert(text::number(text::shown(code as nat), u16::MAX as nat) == Some(code as nat));
}

/// A redirect with a code from 300 to 399 goes to its target with that code, and any other code is
/// refused.
pub proof fn a_redirect_carries_its_code(name: Seq<char>, to: Seq<char>, code: u16)
    ensures
        300 <= code <= 399 ==> directives::redirect(line(name, seq![to, text::shown(code as nat)]))
            == Ok::<RedirectConfigV, ErrorV>(RedirectConfigV { to, code }),
        !(300 <= code <= 399) ==> directives::redirect(
            line(name, seq![to, text::shown(code as nat)]),
        ) is Err,
{
    lemma_code(code);
    text::a_shown_number_reads_back(code as nat);
    let word = text::shown(code as nat);
    assert(text::digit(word[0]));
    reveal_strlit("temporary");
    reveal_strlit("permanent");
    assert("temporary"@.len() == 9 && "temporary"@[0] == 't');
    assert("permanent"@.len() == 9 && "permanent"@[0] == 'p');
}

/// `permanent` stands for 301 and `temporary` for 302, which is also the code of a redirect that
/// names none.
pub proof fn the_words_of_a_redirect_stand_for_codes(name: Seq<char>, to: Seq<char>)
    ensures
        directives::redirect(line(name, seq![to, "permanent"@])) == Ok::<RedirectConfigV, ErrorV>(
            RedirectConfigV { to, code: 301 },
        ),
        directives::redirect(line(name, seq![to, "permanent"@])) == directives::redirect(
            line(name, seq![to, text::shown(301)]),
        ),
        directives::redirect(line(name, seq![to, "temporary"@])) == Ok::<RedirectConfigV, ErrorV>(
            RedirectConfigV { to, code: 302 },
        ),
        directives::redirect(line(name, seq![to, "temporary"@])) == directives::redirect(
            line(name, seq![to, text::shown(302)]),
        ),
        directives::redirect(line(name, seq![to])) == directives::redirect(
            line(name, seq![to, text::shown(302)]),
        ),
{
    a_redirect_carries_its_code(name, to, 301);
    a_redirect_carries_its_code(name, to, 302);
    reveal_strlit("temporary");
    reveal_strlit("permanent");
    assert("temporary"@.len() == 9 && "temporary"@[0] == 't');
    assert("permanent"@.len() == 9 && "permanent"@[0] == 'p');
}

/// A redirect has a target, at most one further argument, and no block.
pub proof fn a_redirect_needs_one_target(d: DirectiveV)
    requires
        d.block is Some || d.args.len() == 0 || d.args.len() > 2,
    ensures
        directives::redirect(d) is Err,
{
}

/// A response carries the code and the text that are written, in either order of the two; without
/// a code it is 200, and without a text it has none.
pub proof fn a_response_carries_what_is_written(
    profile: Profile,
    name: Seq<char>,
    body: Seq<char>,
    code: u16,
)
    requires
        text::as_u16(body) is None,
    ensures
        directives::respond(profile, line(name, seq![body])) matches Ok(r) && r.status == 200
            && r.body == Some(ExprV::String(body)) && r.headers == Map::<
            Seq<char>,
            Seq<char>,
        >::empty(),
        directives::respond(profile, line(name, seq![text::shown(code as nat)])) matches Ok(r)
            && r.status == code && r.body is None,
        directives::respond(profile, line(name, seq![body, text::shown(code as nat)])) matches Ok(r)
            && r.status == code && r.body == Some(ExprV::String(body)),
        directives::respond(profile, line(name, seq![text::shown(code as nat), body]))
            == directives::respond(profile, line(name, seq![body, text::shown(code as nat)])),
{
    lemma_code(code);
}

/// Of two numbers the second is the status of a response and the first its text; of more than two
/// arguments the first is the text, and the last the status where it is a number.
pub proof fn the_last_number_of_a_response_is_its_status(
    profile: Profile,
    name: Seq<char>,
    args: Seq<Seq<char>>,
)
    requires
        args.len() > 1,
        text::as_u16(args.last()) is Some,
    ensures
        directives::respond(profile, line(name, args)) matches Ok(r) && Some(r.status)
            == text::as_u16(args.last()) && r.body == Some(ExprV::String(args[0])),
{
}

/// A response without a number among its last two arguments is 200 with its first argument.
pub proof fn a_response_without_a_number_is_plain(
    profile: Profile,
    name: Seq<char>,
    args: Seq<Seq<char>>,
)
    requires
        args.len() > 0,
        text::as_u16(args.last()) is None,
        args.len() == 2 ==> text::as_u16(args[0]) is None,
    ensures
        directives::respond(profile, line(name, args)) matches Ok(r) && r.status == 200 && r.body
            == Some(ExprV::String(args[0])),
{
}

/// A response that says nothing is an empty one in the core profile, and refused in the extended
/// one.
pub proof fn a_response_without_arguments(name: Seq<char>)
    ensures
        directives::respond(Profile::Core, line(name, Seq::empty())) matches Ok(r) && r.status
            == 200 && r.body is None,
        directives::respond(Profile::Extended, line(name, Seq::empty())) is Err,
{
}

// ---------------------------------------------------------------------------
// rewrite, uri, try_files
// ---------------------------------------------------------------------------
/// `rewrite` with one argument replaces the path by it, and with two replaces what matches the
/// first by the second.
pub proof fn a_rewrite_tells_its_forms_apart(name: Seq<char>, a: Seq<char>, b: Seq<char>)
    ensures
        directives::rewrite(line(name, seq![a])) matches Ok(r) && r.replace == Some(a) && r.regex
            is None && r.regex_replace is None && r.strip_prefix is None && r.strip_suffix is None
            && !r.uri_directive,
        directives::rewrite(line(name, seq![a, b])) matches Ok(r) && r.replace is None && r.regex
            == Some(a) && r.regex_replace == Some(b) && r.strip_prefix is None && r.strip_suffix
            is None && !r.uri_directive,
{
}

/// Any other number of arguments, or a block, is no rewrite.
pub proof fn other_rewrites_are_refused(d: DirectiveV)
    requires
        d.block is Some || d.args.len() == 0 || d.args.len() > 2,
    ensures
        directives::rewrite(d) is Err,
{
}

/// Each operation of `uri` does what it is called: strips a prefix, strips a suffix, or replaces
/// what matches; and none of them is a `rewrite`.
pub proof fn a_uri_operation_does_what_it_is_called(name: Seq<char>, a: Seq<char>, b: Seq<char>)
    ensures
        directives::uri(line(name, seq!["strip_prefix"@, a])) matches Ok(r) && r.strip_prefix
            == Some(a) && r.strip_suffix is None && r.regex is None && r.regex_replace is None
            && r.replace is None && r.uri_directive,
        directives::uri(line(name, seq!["strip_suffix"@, a])) matches Ok(r) && r.strip_suffix
            == Some(a) && r.strip_prefix is None && r.regex is None && r.regex_replace is None
            && r.replace is None && r.uri_directive,
        directives::uri(line(name, seq!["path_regexp"@, a, b])) matches Ok(r) && r.regex == Some(a)
            && r.regex_replace == Some(b) && r.strip_prefix is None && r.strip_suffix is None
            && r.replace is None && r.uri_directive,
{
    reveal_strlit("strip_prefix");
    reveal_strlit("strip_suffix");
    reveal_strlit("path_regexp");
    assert("strip_prefix"@.len() == 12 && "strip_prefix"@[6] == 'p');
    assert("strip_suffix"@.len() == 12 && "strip_suffix"@[6] == 's');
    assert("path_regexp"@.len() == 11);
}

/// What `uri` accepts is one of its three operations with the operands that it needs.
pub proof fn a_uri_operation_is_one_of_three(d: DirectiveV)
    requires
        d.args.len() <= usize::MAX,
        directives::uri(d) is Ok,
    ensures
        d.block is None,
        (d.args.len() == 2 && (d.args[0] == "strip_prefix"@ || d.args[0] == "strip_suffix"@)) || (
        d.args.len() == 3 && d.args[0] == "path_regexp"@),
{
    reveal_strlit("strip_prefix");
    reveal_strlit("strip_suffix");
    reveal_strlit("path_regexp");
    reveal_strlit("replace");
    reveal_strlit("query");
    assert("strip_prefix"@.len() == 12 && "strip_prefix"@[6] == 'p');
    assert("strip_suffix"@.len() == 12 && "strip_suffix"@[6] == 's');
    assert("path_regexp"@.len() == 11);
    assert("replace"@.len() == 7);
    assert("query"@.len() == 5);
}

/// `try_files` tries the candidates as they are written, and takes them if none has a query.
pub proof fn candidates_are_tried_as_written(name: Seq<char>, args: Seq<Seq<char>>)
    ensures
        directives::try_files(line(name, args)) matches Ok(list) ==> list == args,
        directives::try_files(line(name, args)) is Ok <==> args.len() > 0 && forall|i: int|
            0 <= i < args.len() ==> !(#[trigger] args[i]).contains('?'),
{
    lemma_first_with(args, '?');
}

proof fn lemma_first_with(list: Seq<Seq<char>>, c: char)
    ensures
        directives::first_with(list, c) is None <==> forall|i: int|
            0 <= i < list.len() ==> !(#[trigger] list[i]).contains(c),
        directives::first_with(list, c) matches Some(s) ==> list.contains(s) && s.contains(c),
    decreases list.len(),
{
    if list.len() > 0 {
        let rest = list.drop_first();
        lemma_first_with(rest, c);
        assert forall|i: int| 0 < i < list.len() implies #[trigger] list[i] == rest[i - 1] by {}
        if directives::first_with(rest, c) is None {
            assert forall|i: int| 0 < i < list.len() implies !(#[trigger] list[i]).contains(c) by {
                assert(list[i] == rest[i - 1]);
            }
        } else {
            let s = directives::first_with(rest, c)->Some_0;
            let k = choose|k: int| 0 <= k < rest.len() && rest[k] == s;
            assert(list[k + 1] == s);
        }
        if list[0].contains(c) {
            assert(list.contains(list[0]));
        }
    }
}

// ---------------------------------------------------------------------------
// cors and access_control
// ---------------------------------------------------------------------------
/// Each line of a `cors` block sets what it names and leaves the rest.
pub proof fn a_cors_line_sets_what_it_names(c: CorsConfigV, args: Seq<Seq<char>>, age: u64)
    ensures
        directives::cors_option(c, line("origins"@, args)) == Ok::<CorsConfigV, ErrorV>(
            CorsConfigV { allowed_origins: args, ..c },
        ),
        directives::cors_option(c, line("methods"@, args)) == Ok::<CorsConfigV, ErrorV>(
            CorsConfigV { allowed_methods: args, ..c },
        ),
        directives::cors_option(c, line("headers"@, args)) == Ok::<CorsConfigV, ErrorV>(
            CorsConfigV { allowed_headers: args, ..c },
        ),
        directives::cors_option(c, line("expose_headers"@, args)) == Ok::<CorsConfigV, ErrorV>(
            CorsConfigV { exposed_headers: args, ..c },
        ),
        directives::cors_option(c, line("allow_credentials"@, args)) == Ok::<CorsConfigV, ErrorV>(
            CorsConfigV {
                allow_credentials: args.len() == 0 || args[0] == "true"@ || args[0] == "on"@,
                ..c
            },
        ),
        directives::cors_option(c, line("max_age"@, seq![text::shown(age as nat)])) == Ok::<
            CorsConfigV,
            ErrorV,
        >(CorsConfigV { max_age: Some(age), ..c }),
{
    text::a_shown_number_reads_back(age as nat);
    assert(text::number(text::shown(age as nat), u64::MAX as nat) == Some(age as nat));
    reveal_strlit("origins");
    reveal_strlit("methods");
    reveal_strlit("headers");
    reveal_strlit("expose_headers");
    reveal_strlit("allow_credentials");
    reveal_strlit("max_age");
    assert("origins"@.len() == 7 && "origins"@[0] == 'o');
    assert("methods"@.len() == 7 && "methods"@[0] == 'm' && "methods"@[1] == 'e');
    assert("headers"@.len() == 7 && "headers"@[0] == 'h');
    assert("expose_headers"@.len() == 14);
    assert("allow_credentials"@.len() == 17);
    assert("max_age"@.len() == 7 && "max_age"@[0] == 'm' && "max_age"@[1] == 'a');
}

/// `cors` allows the origins that it names, and nothing beyond them until its block says so.
pub proof fn cors_starts_with_its_origins(name: Seq<char>, origins: Seq<Seq<char>>)
    ensures
        directives::cors(line(name, origins)) matches Ok(c) && c.allowed_origins == origins
            && c.allowed_methods.len() == 0 && c.allowed_headers.len() == 0
            && c.exposed_headers.len() == 0 && !c.allow_credentials && c.max_age is None,
{
}

/// Each line of an `access_control` block adds to the list that it names and leaves the others: what
/// is allowed is never denied by it, nor the other way round.
pub proof fn an_access_line_adds_to_the_list_it_names(c: AccessControlConfigV, args: Seq<Seq<char>>)
    requires
        args.len() > 0,
    ensures
        directives::access_option(c, line("allow_ip"@, args)) == Ok::<AccessControlConfigV, ErrorV>(
            AccessControlConfigV { allowed_ips: c.allowed_ips + args, ..c },
        ),
        directives::access_option(c, line("deny_ip"@, args)) == Ok::<AccessControlConfigV, ErrorV>(
            AccessControlConfigV { denied_ips: c.denied_ips + args, ..c },
        ),
        directives::access_option(c, line("allow_referer"@, args)) == Ok::<
            AccessControlConfigV,
            ErrorV,
        >(AccessControlConfigV { allowed_referers: c.allowed_referers + args, ..c }),
        directives::access_option(c, line("deny_referer"@, args)) == Ok::<
            AccessControlConfigV,
            ErrorV,
        >(AccessControlConfigV { denied_referers: c.denied_referers + args, ..c }),
        directives::access_option(c, line("allow_user_agent"@, args)) == Ok::<
            AccessControlConfigV,
            ErrorV,
        >(AccessControlConfigV { allowed_user_agents: c.allowed_user_agents + args, ..c }),
        directives::access_option(c, line("deny_user_agent"@, args)) == Ok::<
            AccessControlConfigV,
            ErrorV,
        >(AccessControlConfigV { denied_user_agents: c.denied_user_agents + args, ..c }),
{
    reveal_strlit("allow_ip");
    reveal_strlit("deny_ip");
    reveal_strlit("allow_referer");
    reveal_strlit("deny_referer");
    reveal_strlit("allow_user_agent");
    reveal_strlit("deny_user_agent");
    assert("allow_ip"@.len() == 8);
    assert("deny_ip"@.len() == 7);
    assert("allow_referer"@.len() == 13);
    assert("deny_referer"@.len() == 12);
    assert("allow_user_agent"@.len() == 16);
    assert("deny_user_agent"@.len() == 15);
}

/// An access rule names at least one value, and its block stands alone and starts from nothing.
pub proof fn access_control_starts_from_nothing(name: Seq<char>, args: Seq<Seq<char>>)
    ensures
        directives::access_option(AccessControlConfigV::unset(), line(name, Seq::empty())) is Err,
        directives::access_control(line(name, args)) is Err,
        directives::access_control(with_block(line(name, Seq::empty()), Seq::empty())) matches Ok(c)
            && c.allowed_ips.len() == 0 && c.denied_ips.len() == 0 && c.allowed_referers.len() == 0
            && c.denied_referers.len() == 0 && c.allowed_user_agents.len() == 0
            && c.denied_user_agents.len() == 0,
{
}

// ---------------------------------------------------------------------------
// rate_limit
// ---------------------------------------------------------------------------
/// Requests are counted by what the key names.
pub proof fn requests_are_counted_by_what_the_key_names(name: Seq<char>, field: Seq<char>)
    ensures
        directives::rate_key(line(name, seq!["ip"@])) == Ok::<RateLimitKeyV, ErrorV>(
            RateLimitKeyV::Ip,
        ),
        directives::rate_key(line(name, seq!["global"@])) == Ok::<RateLimitKeyV, ErrorV>(
            RateLimitKeyV::Global,
        ),
        directives::rate_key(line(name, seq!["route"@])) == Ok::<RateLimitKeyV, ErrorV>(
            RateLimitKeyV::Route,
        ),
        directives::rate_key(line(name, seq!["api_key"@])) == Ok::<RateLimitKeyV, ErrorV>(
            RateLimitKeyV::ApiKey,
        ),
        directives::rate_key(line(name, seq!["header"@, field])) == Ok::<RateLimitKeyV, ErrorV>(
            RateLimitKeyV::Header(field),
        ),
        directives::rate_key(line(name, seq!["tenant"@, field])) == Ok::<RateLimitKeyV, ErrorV>(
            RateLimitKeyV::Tenant(field),
        ),
        directives::rate_key(line(name, seq!["tenant"@])) == directives::rate_key(
            line(name, seq!["tenant"@, "X-Tenant-ID"@]),
        ),
{
    reveal_strlit("ip");
    reveal_strlit("global");
    reveal_strlit("route");
    reveal_strlit("api_key");
    reveal_strlit("header");
    reveal_strlit("tenant");
    assert("ip"@.len() == 2);
    assert("global"@.len() == 6 && "global"@[0] == 'g');
    assert("route"@.len() == 5);
    assert("api_key"@.len() == 7);
    assert("header"@.len() == 6 && "header"@[0] == 'h');
    assert("tenant"@.len() == 6 && "tenant"@[0] == 't');
}

/// A limit counts by address, without a burst and for real, until its block says otherwise. It
/// needs at least one request and a window of whole seconds.
pub proof fn a_rate_limit_is_what_is_written(name: Seq<char>, requests: u64, window: Seq<char>)
    ensures
        match duration::millis(window) {
            Some(ms) => if requests > 0 && ms >= 1_000 && ms % 1_000 == 0 {
                directives::rate_limit(
                    line(name, seq![text::shown(requests as nat), window]),
                ) matches Ok(c) && c.requests == requests && c.window_ms == ms && c.burst == 0
                    && c.key == RateLimitKeyV::Ip && !c.dry_run
            } else {
                directives::rate_limit(
                    line(name, seq![text::shown(requests as nat), window]),
                ) is Err
            },
            None => directives::rate_limit(
                line(name, seq![text::shown(requests as nat), window]),
            ) is Err,
        },
{
    text::a_shown_number_reads_back(requests as nat);
    assert(text::number(text::shown(requests as nat), u64::MAX as nat) == Some(requests as nat));
}

/// Each line of a `rate_limit` block sets what it names and leaves the rest.
pub proof fn a_rate_line_sets_what_it_names(
    c: RateLimitConfigV,
    burst: u64,
    args: Seq<Seq<char>>,
    key: RateLimitKeyV,
)
    requires
        directives::rate_key(line("key"@, args)) == Ok::<RateLimitKeyV, ErrorV>(key),
    ensures
        directives::rate_option(c, line("burst"@, seq![text::shown(burst as nat)])) == Ok::<
            RateLimitConfigV,
            ErrorV,
        >(RateLimitConfigV { burst, ..c }),
        directives::rate_option(c, line("dry_run"@, Seq::empty())) == Ok::<
            RateLimitConfigV,
            ErrorV,
        >(RateLimitConfigV { dry_run: true, ..c }),
        directives::rate_option(c, line("key"@, args)) == Ok::<RateLimitConfigV, ErrorV>(
            RateLimitConfigV { key, ..c },
        ),
{
    text::a_shown_number_reads_back(burst as nat);
    assert(text::number(text::shown(burst as nat), u64::MAX as nat) == Some(burst as nat));
    reveal_strlit("burst");
    reveal_strlit("dry_run");
    reveal_strlit("key");
    assert("burst"@.len() == 5);
    assert("dry_run"@.len() == 7);
    assert("key"@.len() == 3);
}

// ---------------------------------------------------------------------------
// file_server
// ---------------------------------------------------------------------------
/// A file server serves the directory that it names, or the current one, with `index.html` as the
/// index; it lists directories only where it says `browse`.
pub proof fn a_file_server_serves_what_it_names(profile: Profile, name: Seq<char>, dir: Seq<char>)
    requires
        dir != "browse"@,
        !text::starts_char(dir, '@'),
    ensures
        content::file_server(profile, line(name, seq![dir])) matches Ok(c) && c.root == dir
            && c.index == seq!["index.html"@] && !c.browse && c.compress,
        content::file_server(profile, line(name, Seq::empty())) matches Ok(c) && c.root == "."@
            && c.index == seq!["index.html"@] && !c.browse && c.compress,
        content::file_server(profile, line(name, seq!["browse"@])) matches Ok(c) && c.root == "."@
            && c.index == seq!["index.html"@] && c.browse && c.compress,
{
}

/// A matcher in front is no directory.
pub proof fn a_matcher_is_no_directory(profile: Profile, name: Seq<char>, matcher: Seq<char>)
    requires
        text::starts_char(matcher, '@'),
    ensures
        content::file_server(profile, line(name, seq![matcher])) == content::file_server(
            profile,
            line(name, Seq::empty()),
        ),
{
    reveal_strlit("browse");
    assert("browse"@.len() == 6);
}

/// Each line of a `file_server` block sets what it names and leaves the rest; what was listed
/// already stays so.
pub proof fn a_file_line_sets_what_it_names(
    profile: Profile,
    listed: bool,
    c: FileServerConfigV,
    dir: Seq<char>,
    args: Seq<Seq<char>>,
)
    ensures
        content::file_option(profile, listed, c, line("root"@, seq![dir])) == Ok::<
            FileServerConfigV,
            ErrorV,
        >(FileServerConfigV { root: dir, ..c }),
        content::file_option(profile, listed, c, line("index"@, args)) == Ok::<
            FileServerConfigV,
            ErrorV,
        >(FileServerConfigV { index: args, ..c }),
        content::file_option(profile, listed, c, line("browse"@, args)) == Ok::<
            FileServerConfigV,
            ErrorV,
        >(
            FileServerConfigV { browse: listed || args.len() == 0 || args[0] == "true"@, ..c },
        ),
{
    reveal_strlit("root");
    reveal_strlit("index");
    reveal_strlit("browse");
    assert("root"@.len() == 4);
    assert("index"@.len() == 5);
    assert("browse"@.len() == 6);
}

// ---------------------------------------------------------------------------
// header
// ---------------------------------------------------------------------------
/// A field name without a sign and without a mark.
pub open spec fn plain_field(name: Seq<char>) -> bool {
    !text::starts_char(name, '-') && !text::starts_char(name, '+') && !text::starts_char(name, '@')
}

/// In a `header` block a name alone is set, one behind `+` is added and one behind `-` removed, and
/// nothing else changes.
pub proof fn the_sign_of_a_header_line_tells(
    c: HeadersConfigV,
    field: Seq<char>,
    value: Seq<char>,
    args: Seq<Seq<char>>,
)
    requires
        plain_field(field),
    ensures
        content::header_option(c, line(field, seq![value])) == Ok::<HeadersConfigV, ErrorV>(
            HeadersConfigV { set: c.set.insert(field, value), ..c },
        ),
        content::header_option(c, line(seq!['+'] + field, seq![value])) == Ok::<
            HeadersConfigV,
            ErrorV,
        >(HeadersConfigV { add: c.add.insert(field, value), ..c }),
        content::header_option(c, line(seq!['-'] + field, args)) == Ok::<HeadersConfigV, ErrorV>(
            HeadersConfigV { remove: c.remove.push(field), ..c },
        ),
{
    assert((seq!['+'] + field).skip(1) =~= field);
    assert((seq!['-'] + field).skip(1) =~= field);
}

/// A `header` line sets the field that it names, or removes it behind a `-`; a matcher in front
/// changes nothing of that.
pub proof fn a_header_line_sets_or_removes(
    name: Seq<char>,
    field: Seq<char>,
    value: Seq<char>,
    matcher: Seq<char>,
)
    requires
        plain_field(field),
        !text::starts_char(value, '@'),
        text::starts_char(matcher, '@'),
    ensures
        content::header(line(name, seq![field, value])) matches Ok(c) && c.set == Map::<
            Seq<char>,
            Seq<char>,
        >::empty().insert(field, value) && c.add == Map::<Seq<char>, Seq<char>>::empty()
            && c.remove.len() == 0,
        content::header(line(name, seq![seq!['-'] + field])) matches Ok(c) && c.remove == seq![
            field,
        ] && c.set == Map::<Seq<char>, Seq<char>>::empty() && c.add == Map::<
            Seq<char>,
            Seq<char>,
        >::empty(),
        content::header(line(name, seq![matcher, field, value])) == content::header(
            line(name, seq![field, value]),
        ),
        content::header(line(name, seq![matcher, seq!['-'] + field])) == content::header(
            line(name, seq![seq!['-'] + field]),
        ),
{
    let gone = seq!['-'] + field;
    assert(gone.skip(1) =~= field);
    reveal_with_fuel(content::unmarked, 4);
    assert(seq![field, value].drop_last() =~= seq![field]);
    assert(seq![field].drop_last() =~= Seq::empty());
    assert(seq![gone].drop_last() =~= Seq::empty());
    assert(seq![matcher].drop_last() =~= Seq::empty());
    assert(seq![matcher, field].drop_last() =~= seq![matcher]);
    assert(seq![matcher, field, value].drop_last() =~= seq![matcher, field]);
    assert(seq![matcher, gone].drop_last() =~= seq![matcher]);
    assert(content::unmarked(seq![field, value]) =~= seq![field, value]);
    assert(content::unmarked(seq![matcher, field, value]) =~= seq![field, value]);
    assert(content::unmarked(seq![gone]) =~= seq![gone]);
    assert(content::unmarked(seq![matcher, gone]) =~= seq![gone]);
}

// ---------------------------------------------------------------------------
// error and vars
// ---------------------------------------------------------------------------
/// An `error` carries the status and the message that are written; without a status it is 500.
pub proof fn an_error_carries_what_is_written(name: Seq<char>, message: Seq<char>, code: u16)
    requires
        100 <= code <= 599,
        text::as_u16(message) is None,
    ensures
        content::raised(line(name, Seq::empty())) == Ok::<ErrorConfigV, ErrorV>(
            ErrorConfigV { status: 500, message: None },
        ),
        content::raised(line(name, seq![message])) == Ok::<ErrorConfigV, ErrorV>(
            ErrorConfigV { status: 500, message: Some(message) },
        ),
        content::raised(line(name, seq![text::shown(code as nat)])) == Ok::<ErrorConfigV, ErrorV>(
            ErrorConfigV { status: code, message: None },
        ),
        content::raised(line(name, seq![message, text::shown(code as nat)])) == Ok::<
            ErrorConfigV,
            ErrorV,
        >(ErrorConfigV { status: code, message: Some(message) }),
{
    lemma_code(code);
    reveal_with_fuel(text::shown, 4);
    assert(text::shown(code as nat).len() == 3);
}

/// A status outside 100 to 599 is refused behind a message.
pub proof fn an_error_has_a_status_of_a_response(name: Seq<char>, message: Seq<char>, code: u16)
    requires
        !(100 <= code <= 599),
    ensures
        content::raised(line(name, seq![message, text::shown(code as nat)])) is Err,
{
    lemma_code(code);
}

/// The words of a `message` line are the message, with a space between them; it is said once.
pub proof fn a_message_line_joins_its_words(c: ErrorConfigV, words: Seq<Seq<char>>)
    requires
        words.len() > 0,
    ensures
        c.message is None ==> content::error_option(c, line("message"@, words)) == Ok::<
            ErrorConfigV,
            ErrorV,
        >(ErrorConfigV { message: Some(text::joined(words, " "@)), ..c }),
        c.message is Some ==> content::error_option(c, line("message"@, words)) is Err,
{
}

/// A variable has the value that is written behind its name, on the line and in the block alike.
pub proof fn a_variable_has_the_value_behind_its_name(
    name: Seq<char>,
    c: Map<Seq<char>, Seq<char>>,
    variable: Seq<char>,
    value: Seq<char>,
)
    ensures
        content::vars(line(name, seq![variable, value])) == Ok::<Map<Seq<char>, Seq<char>>, ErrorV>(
            Map::<Seq<char>, Seq<char>>::empty().insert(variable, value),
        ),
        content::vars_option(c, line(variable, seq![value])) == Ok::<
            Map<Seq<char>, Seq<char>>,
            ErrorV,
        >(c.insert(variable, value)),
        content::vars(
            with_block(line(name, Seq::empty()), seq![line(variable, seq![value])]),
        ) == content::vars(line(name, seq![variable, value])),
{
    let lines = seq![line(variable, seq![value])];
    reveal_with_fuel(fold::fold, 2);
    assert(lines.drop_first() =~= Seq::empty());
}

// ---------------------------------------------------------------------------
// basic_auth
// ---------------------------------------------------------------------------
/// The hash algorithm is the one that is named, and `bcrypt` where none is.
pub proof fn the_hash_algorithm_is_the_one_named(name: Seq<char>, lines: Seq<DirectiveV>)
    ensures
        content::hash_algorithm("bcrypt"@) == Ok::<BasicAuthAlgorithm, ErrorV>(
            BasicAuthAlgorithm::Bcrypt,
        ),
        content::hash_algorithm("argon2id"@) == Ok::<BasicAuthAlgorithm, ErrorV>(
            BasicAuthAlgorithm::Argon2id,
        ),
        content::basic_auth(Profile::Extended, with_block(line(name, Seq::empty()), lines))
            == content::basic_auth(
            Profile::Extended,
            with_block(line(name, seq!["bcrypt"@]), lines),
        ),
{
    reveal_strlit("bcrypt");
    reveal_strlit("argon2id");
    assert("bcrypt"@.len() == 6);
    assert("argon2id"@.len() == 8);
}

/// An account has the name and the hash of its line, and the accounts stand in the order of the
/// lines, under the algorithm and the realm that are named.
pub proof fn an_account_is_what_its_line_says(
    name: Seq<char>,
    algorithm: Seq<char>,
    realm: Seq<char>,
    users: Seq<(Seq<char>, Seq<char>)>,
)
    requires
        algorithm == "bcrypt"@ || algorithm == "argon2id"@,
        users.len() > 0,
        forall|i: int|
            0 <= i < users.len() ==> (#[trigger] users[i]).0 != "realm"@ && users[i].0.len() > 0
                && users[i].1.len() > 0,
    ensures
        content::basic_auth(
            Profile::Extended,
            with_block(line(name, seq![algorithm, realm]), account_lines(users)),
        ) == Ok::<BasicAuthConfigV, ErrorV>(
            BasicAuthConfigV {
                realm: Some(realm),
                algorithm: Some(
                    if algorithm == "bcrypt"@ {
                        BasicAuthAlgorithm::Bcrypt
                    } else {
                        BasicAuthAlgorithm::Argon2id
                    },
                ),
                credentials: users,
            },
        ),
{
    reveal_strlit("bcrypt");
    reveal_strlit("argon2id");
    assert("bcrypt"@.len() == 6);
    assert("argon2id"@.len() == 8);
    let d = with_block(line(name, seq![algorithm, realm]), account_lines(users));
    assert(d.args[0] == algorithm);
    assert(d.args[1] == realm);
    let start = BasicAuthConfigV {
        realm: Some(realm),
        algorithm: Some(content::hash_algorithm(algorithm)->Ok_0),
        credentials: Seq::empty(),
    };
    lemma_accounts(start, users);
    assert(Seq::<(Seq<char>, Seq<char>)>::empty() + users =~= users);
}

/// One line for each account.
pub open spec fn account_lines(users: Seq<(Seq<char>, Seq<char>)>) -> Seq<DirectiveV> {
    users.map_values(|u: (Seq<char>, Seq<char>)| line(u.0, seq![u.1]))
}

proof fn lemma_accounts(c: BasicAuthConfigV, users: Seq<(Seq<char>, Seq<char>)>)
    requires
        forall|i: int|
            0 <= i < users.len() ==> (#[trigger] users[i]).0 != "realm"@ && users[i].0.len() > 0
                && users[i].1.len() > 0,
    ensures
        fold::fold(
            |c: BasicAuthConfigV, o: DirectiveV| content::hashed_account(c, o),
            c,
            account_lines(users),
        ) == Ok::<BasicAuthConfigV, ErrorV>(
            BasicAuthConfigV { credentials: c.credentials + users, ..c },
        ),
    decreases users.len(),
{
    let lines = account_lines(users);
    if users.len() == 0 {
        assert(c.credentials + users =~= c.credentials);
    } else {
        let rest = users.drop_first();
        assert(lines[0] == line(users[0].0, seq![users[0].1]));
        assert(lines.drop_first() =~= account_lines(rest));
        assert forall|i: int| 0 <= i < rest.len() implies (#[trigger] rest[i]).0 != "realm"@
            && rest[i].0.len() > 0 && rest[i].1.len() > 0 by {
            assert(rest[i] == users[i + 1]);
        }
        let next = BasicAuthConfigV { credentials: c.credentials.push(users[0]), ..c };
        assert(content::hashed_account(c, lines[0]) == Ok::<BasicAuthConfigV, ErrorV>(next));
        lemma_accounts(next, rest);
        assert(c.credentials.push(users[0]) + rest =~= c.credentials + users);
    }
}

/// In the core profile credentials stand in pairs of a name and a password, on the line or in the
/// block.
pub proof fn credentials_stand_in_pairs(name: Seq<char>, user: Seq<char>, password: Seq<char>)
    requires
        user != "realm"@,
    ensures
        content::basic_auth(Profile::Core, line(name, seq![user, password])) matches Ok(c)
            && c.credentials == seq![(user, password)] && c.realm is None && c.algorithm is None,
        content::basic_auth(
            Profile::Core,
            with_block(line(name, Seq::empty()), seq![line(user, seq![password])]),
        ) == content::basic_auth(Profile::Core, line(name, seq![user, password])),
{
    let lines = seq![line(user, seq![password])];
    reveal_with_fuel(fold::fold, 2);
    assert(lines.drop_first() =~= Seq::empty());
    assert(seq![user] + seq![password] =~= seq![user, password]);
    let p = content::pairs(seq![user, password])->Ok_0;
    assert(p =~= seq![(user, password)]);
    assert(Seq::<(Seq<char>, Seq<char>)>::empty() + p =~= p);
}

/// In the core profile a `realm` line of the block names the realm.
pub proof fn a_realm_line_names_the_realm(c: BasicAuthConfigV, realm: Seq<char>)
    ensures
        content::core_account(c, line("realm"@, seq![realm])) == Ok::<BasicAuthConfigV, ErrorV>(
            BasicAuthConfigV { realm: Some(realm), ..c },
        ),
        content::hashed_account(c, line("realm"@, seq![realm])) is Err,
{
}

} // verus!
