//! One function for each directive that stands alone.

use crate::adapter::args;
use crate::adapter::args::{expect_no_arguments, expect_one_argument, extend};
use crate::adapter::profile::Profile;
use crate::ast::handler::{
    AccessControlConfig, AccessControlConfigV, CorsConfig, CorsConfigV, RateLimitConfig,
    RateLimitConfigV, RateLimitKey, RateLimitKeyV, RedirectConfig, RedirectConfigV, ResponseConfig,
    ResponseConfigV, RewriteConfig, RewriteConfigV,
};
use crate::ast::proxy::{Expr, ExprV};
use crate::duplicate::Duplicate;
use crate::duration;
use crate::duration::parse_duration_ms;
use crate::error;
use crate::error::{invalid, miscount, unknown, unknown_in, unsupported, AdapterError, ErrorV};
use crate::fold;
use crate::fold::fold_directives;
use crate::syntax::{Directive, DirectiveV};
use crate::table::Table;
use crate::text;
use crate::text::{cat, cat3, holds, parse_u16, parse_u64, same, show};
use vstd::prelude::*;

verus! {

// ---------------------------------------------------------------------------
// respond
// ---------------------------------------------------------------------------
/// A response with a status and a text.
pub open spec fn answer(status: u16, body: Option<Seq<char>>) -> ResponseConfigV {
    ResponseConfigV {
        status,
        body: match body {
            Some(text) => Some(ExprV::String(text)),
            None => None,
        },
        headers: Map::empty(),
    }
}

/// `respond [<body>] [<status>]`: a single number is the status, of two arguments the second is
/// tried as the status first, and of more the last may be it.
pub open spec fn respond(profile: Profile, d: DirectiveV) -> Result<ResponseConfigV, ErrorV> {
    if d.args.len() == 0 {
        match profile {
            Profile::Core => Ok(answer(200, None)),
            Profile::Extended => Err(
                ErrorV::InvalidArgument(
                    d.name,
                    "needs a status code, a body, or both (`respond 200`, `respond \"ok\"`, `respond \"nope\" 403`)"@,
                ),
            ),
        }
    } else if d.args.len() == 1 {
        match text::as_u16(d.args[0]) {
            Some(code) => Ok(answer(code, None)),
            None => Ok(answer(200, Some(d.args[0]))),
        }
    } else if d.args.len() == 2 {
        match (text::as_u16(d.args[0]), text::as_u16(d.args[1])) {
            (_, Some(code)) => Ok(answer(code, Some(d.args[0]))),
            (Some(code), None) => Ok(answer(code, Some(d.args[1]))),
            (None, None) => Ok(answer(200, Some(d.args[0]))),
        }
    } else {
        match text::as_u16(d.args.last()) {
            Some(code) => Ok(answer(code, Some(d.args[0]))),
            None => Ok(answer(200, Some(d.args[0]))),
        }
    }
}

fn make_answer(status: u16, body: Option<String>) -> (r: ResponseConfig)
    ensures
        r.deep_view() == answer(status, body.deep_view()),
{
    let body = match body {
        Some(text) => Some(Expr::String(text)),
        None => None,
    };
    ResponseConfig { status, body, headers: Table::new() }
}

/// Adapts `respond`.
pub fn adapt_respond(profile: Profile, d: &Directive) -> (r: Result<ResponseConfig, AdapterError>)
    ensures
        error::outcome(r) == respond(profile, d.deep_view()),
{
    let n: usize = d.args.len();
    if n == 0 {
        return match profile {
            Profile::Core => Ok(make_answer(200, None)),
            Profile::Extended => Err(
                invalid(
                    d.name.as_str(),
                    "needs a status code, a body, or both (`respond 200`, `respond \"ok\"`, `respond \"nope\" 403`)",
                ),
            ),
        };
    }
    let first = d.args[0].clone();
    if n == 1 {
        return match parse_u16(first.as_str()) {
            Some(code) => Ok(make_answer(code, None)),
            None => Ok(make_answer(200, Some(first))),
        };
    }
    if n == 2 {
        return match (parse_u16(first.as_str()), parse_u16(d.args[1].as_str())) {
            (_, Some(code)) => Ok(make_answer(code, Some(first))),
            (Some(code), None) => Ok(make_answer(code, Some(d.args[1].clone()))),
            (None, None) => Ok(make_answer(200, Some(first))),
        };
    }
    match parse_u16(d.args[n - 1].as_str()) {
        Some(code) => Ok(make_answer(code, Some(first))),
        None => Ok(make_answer(200, Some(first))),
    }
}

// ---------------------------------------------------------------------------
// redir
// ---------------------------------------------------------------------------
/// The status that the word of a redirect stands for.
pub open spec fn redirect_status(name: Seq<char>, word: Seq<char>) -> Result<u16, ErrorV> {
    if word == "temporary"@ {
        Ok(302)
    } else if word == "permanent"@ {
        Ok(301)
    } else {
        args::port(name, word)
    }
}

/// `redir <location> [3xx|temporary|permanent]`.
pub open spec fn redirect(d: DirectiveV) -> Result<RedirectConfigV, ErrorV> {
    if d.block is Some {
        Err(ErrorV::BlockNotAllowed(d.name))
    } else if d.args.len() == 1 {
        Ok(RedirectConfigV { to: d.args[0], code: 302 })
    } else if d.args.len() == 2 {
        match redirect_status(d.name, d.args[1]) {
            Err(e) => Err(e),
            Ok(code) => if 300 <= code <= 399 {
                Ok(RedirectConfigV { to: d.args[0], code })
            } else {
                Err(
                    ErrorV::InvalidArgument(
                        d.name,
                        "status "@ + text::shown(code as nat) + " is not a redirect code"@,
                    ),
                )
            },
        }
    } else {
        Err(ErrorV::InvalidArgument(d.name, "expected <location> [3xx|temporary|permanent]"@))
    }
}

/// Adapts `redir`.
pub fn adapt_redirect(d: &Directive) -> (r: Result<RedirectConfig, AdapterError>)
    ensures
        error::outcome(r) == redirect(d.deep_view()),
{
    let name = d.name.as_str();
    if d.block.is_some() {
        return Err(AdapterError::BlockNotAllowed(d.name.clone()));
    }
    if d.args.len() == 1 {
        return Ok(RedirectConfig { to: d.args[0].clone(), code: 302 });
    }
    if d.args.len() != 2 {
        return Err(invalid(name, "expected <location> [3xx|temporary|permanent]"));
    }
    let word = d.args[1].as_str();
    let code: u16 = if same(word, "temporary") {
        302
    } else if same(word, "permanent") {
        301
    } else {
        args::read_u16(name, word)?
    };
    if code < 300 || code > 399 {
        let shown = show(code as u64);
        let reason = cat3("status ", shown.as_str(), " is not a redirect code");
        return Err(invalid(name, reason.as_str()));
    }
    Ok(RedirectConfig { to: d.args[0].clone(), code })
}

// ---------------------------------------------------------------------------
// rewrite, uri, try_files
// ---------------------------------------------------------------------------
/// `rewrite <replacement>` or `rewrite <regex> <replacement>`.
pub open spec fn rewrite(d: DirectiveV) -> Result<RewriteConfigV, ErrorV> {
    if d.block is Some {
        Err(ErrorV::BlockNotAllowed("rewrite"@))
    } else if d.args.len() == 1 {
        Ok(RewriteConfigV { replace: Some(d.args[0]), ..RewriteConfigV::unset() })
    } else if d.args.len() == 2 {
        Ok(
            RewriteConfigV {
                regex: Some(d.args[0]),
                regex_replace: Some(d.args[1]),
                ..RewriteConfigV::unset()
            },
        )
    } else {
        Err(
            ErrorV::InvalidArgument(
                "rewrite"@,
                "expected <replacement> or <regex> <replacement>"@,
            ),
        )
    }
}

/// Adapts `rewrite`.
///
/// The two forms are told apart by their number of arguments, so that punctuation in a plain
/// replacement is never read as a regular expression.
pub fn adapt_rewrite(d: &Directive) -> (r: Result<RewriteConfig, AdapterError>)
    ensures
        error::outcome(r) == rewrite(d.deep_view()),
{
    if d.block.is_some() {
        return Err(AdapterError::BlockNotAllowed("rewrite".to_owned()));
    }
    let mut c = RewriteConfig::unset();
    if d.args.len() == 1 {
        c.replace = Some(d.args[0].clone());
        Ok(c)
    } else if d.args.len() == 2 {
        c.regex = Some(d.args[0].clone());
        c.regex_replace = Some(d.args[1].clone());
        Ok(c)
    } else {
        Err(invalid("rewrite", "expected <replacement> or <regex> <replacement>"))
    }
}

/// `uri <operation> <operands>`: prefixes and suffixes are stripped and patterns replaced; a
/// substring replacement and query editing are refused by name.
pub open spec fn uri(d: DirectiveV) -> Result<RewriteConfigV, ErrorV> {
    let written = RewriteConfigV { uri_directive: true, ..RewriteConfigV::unset() };
    if d.block is Some {
        Err(ErrorV::BlockNotAllowed("uri"@))
    } else if d.args.len() == 0 {
        Err(
            ErrorV::InvalidArgument(
                "uri"@,
                "expected strip_prefix, strip_suffix, or path_regexp"@,
            ),
        )
    } else {
        let operation = d.args[0];
        let operands = (d.args.len() - 1) as usize;
        if operation == "strip_prefix"@ {
            if operands == 1 {
                Ok(RewriteConfigV { strip_prefix: Some(d.args[1]), ..written })
            } else {
                Err(ErrorV::ArgumentCount("uri "@ + operation, 1, operands))
            }
        } else if operation == "strip_suffix"@ {
            if operands == 1 {
                Ok(RewriteConfigV { strip_suffix: Some(d.args[1]), ..written })
            } else {
                Err(ErrorV::ArgumentCount("uri "@ + operation, 1, operands))
            }
        } else if operation == "path_regexp"@ {
            if operands == 2 {
                Ok(
                    RewriteConfigV {
                        regex: Some(d.args[1]),
                        regex_replace: Some(d.args[2]),
                        ..written
                    },
                )
            } else {
                Err(ErrorV::ArgumentCount("uri path_regexp"@, 2, operands))
            }
        } else if operation == "replace"@ {
            Err(
                ErrorV::UnsupportedFeature(
                    "uri replace"@,
                    "`uri replace` substitutes a substring of the path, while Pingclair's rewrite replaces the whole path; rather than silently produce a different URL, this is refused until substring replacement exists"@,
                ),
            )
        } else if operation == "query"@ {
            Err(
                ErrorV::UnsupportedFeature(
                    "uri query"@,
                    "Pingclair does not rewrite query strings yet"@,
                ),
            )
        } else {
            Err(
                ErrorV::InvalidArgument(
                    "uri"@,
                    "unknown operation `"@ + operation
                        + "` (expected strip_prefix, strip_suffix, or path_regexp)"@,
                ),
            )
        }
    }
}

/// Adapts `uri`.
pub fn adapt_uri(d: &Directive) -> (r: Result<RewriteConfig, AdapterError>)
    ensures
        error::outcome(r) == uri(d.deep_view()),
{
    if d.block.is_some() {
        return Err(AdapterError::BlockNotAllowed("uri".to_owned()));
    }
    if d.args.len() == 0 {
        return Err(invalid("uri", "expected strip_prefix, strip_suffix, or path_regexp"));
    }
    let operation = d.args[0].as_str();
    let operands: usize = d.args.len() - 1;
    let mut c = RewriteConfig::unset();
    c.uri_directive = true;
    if same(operation, "strip_prefix") {
        if operands != 1 {
            let name = cat("uri ", operation);
            return Err(miscount(name.as_str(), 1, operands));
        }
        c.strip_prefix = Some(d.args[1].clone());
    } else if same(operation, "strip_suffix") {
        if operands != 1 {
            let name = cat("uri ", operation);
            return Err(miscount(name.as_str(), 1, operands));
        }
        c.strip_suffix = Some(d.args[1].clone());
    } else if same(operation, "path_regexp") {
        if operands != 2 {
            return Err(miscount("uri path_regexp", 2, operands));
        }
        c.regex = Some(d.args[1].clone());
        c.regex_replace = Some(d.args[2].clone());
    } else if same(operation, "replace") {
        return Err(
            unsupported(
                "uri replace",
                "`uri replace` substitutes a substring of the path, while Pingclair's rewrite replaces the whole path; rather than silently produce a different URL, this is refused until substring replacement exists",
            ),
        );
    } else if same(operation, "query") {
        return Err(
            unsupported("uri query", "Pingclair does not rewrite query strings yet"),
        );
    } else {
        let reason = cat3(
            "unknown operation `",
            operation,
            "` (expected strip_prefix, strip_suffix, or path_regexp)",
        );
        return Err(invalid("uri", reason.as_str()));
    }
    Ok(c)
}

/// The first text of `list` that holds `c`.
pub open spec fn first_with(list: Seq<Seq<char>>, c: char) -> Option<Seq<char>>
    decreases list.len(),
{
    if list.len() == 0 {
        None
    } else if list[0].contains(c) {
        Some(list[0])
    } else {
        first_with(list.drop_first(), c)
    }
}

/// The first text of `list` that holds `c`.
pub fn find_with<'a>(list: &'a Vec<String>, c: char) -> (r: Option<&'a str>)
    ensures
        r.deep_view() == first_with(list.deep_view(), c),
{
    let mut i: usize = 0;
    let ghost all = list.deep_view();
    assert(all.skip(0) =~= all);
    while i < list.len()
        invariant
            i <= list.len(),
            all == list.deep_view(),
            first_with(all, c) == first_with(all.skip(i as int), c),
        decreases list.len() - i,
    {
        assert(all.skip(i as int)[0] == list@[i as int]@);
        assert(all.skip(i as int).drop_first() =~= all.skip(i + 1));
        if holds(list[i].as_str(), c) {
            return Some(list[i].as_str());
        }
        i += 1;
    }
    None
}

/// `try_files <candidate...>`; a candidate with a query string is refused.
pub open spec fn try_files(d: DirectiveV) -> Result<Seq<Seq<char>>, ErrorV> {
    if d.block is Some {
        Err(ErrorV::BlockNotAllowed("try_files"@))
    } else if d.args.len() == 0 {
        Err(ErrorV::InvalidArgument("try_files"@, "expected at least one candidate path"@))
    } else {
        match first_with(d.args, '?') {
            Some(candidate) => Err(
                ErrorV::UnsupportedFeature(
                    "try_files "@ + candidate,
                    "a candidate with a query string is not supported; Pingclair rewrites the path only and would drop the query without saying so"@,
                ),
            ),
            None => Ok(d.args),
        }
    }
}

/// Adapts `try_files`.
pub fn adapt_try_files(d: &Directive) -> (r: Result<Vec<String>, AdapterError>)
    ensures
        error::outcome(r) == try_files(d.deep_view()),
{
    if d.block.is_some() {
        return Err(AdapterError::BlockNotAllowed("try_files".to_owned()));
    }
    if d.args.len() == 0 {
        return Err(invalid("try_files", "expected at least one candidate path"));
    }
    match find_with(&d.args, '?') {
        Some(candidate) => {
            let name = cat("try_files ", candidate);
            Err(
                unsupported(
                    name.as_str(),
                    "a candidate with a query string is not supported; Pingclair rewrites the path only and would drop the query without saying so",
                ),
            )
        },
        None => Ok(d.args.duplicate()),
    }
}

// ---------------------------------------------------------------------------
// cors, access_control
// ---------------------------------------------------------------------------
/// One line of a `cors` block.
pub open spec fn cors_option(c: CorsConfigV, d: DirectiveV) -> Result<CorsConfigV, ErrorV> {
    if d.name == "origins"@ {
        Ok(CorsConfigV { allowed_origins: d.args, ..c })
    } else if d.name == "methods"@ {
        Ok(CorsConfigV { allowed_methods: d.args, ..c })
    } else if d.name == "headers"@ {
        Ok(CorsConfigV { allowed_headers: d.args, ..c })
    } else if d.name == "expose_headers"@ {
        Ok(CorsConfigV { exposed_headers: d.args, ..c })
    } else if d.name == "allow_credentials"@ {
        Ok(
            CorsConfigV {
                allow_credentials: d.args.len() == 0 || d.args[0] == "true"@ || d.args[0]
                    == "on"@,
                ..c
            },
        )
    } else if d.name == "max_age"@ {
        if d.args.len() == 0 {
            Err(ErrorV::ArgumentCount("cors max_age"@, 1, 0))
        } else {
            match text::as_u64(d.args[0]) {
                Some(n) => Ok(CorsConfigV { max_age: Some(n), ..c }),
                None => Err(ErrorV::InvalidArgument("cors max_age"@, d.args[0])),
            }
        }
    } else {
        Err(ErrorV::UnknownDirective("cors: "@ + d.name))
    }
}

/// `cors <origin...>` with an optional block.
pub open spec fn cors(d: DirectiveV) -> Result<CorsConfigV, ErrorV> {
    let start = CorsConfigV { allowed_origins: d.args, ..CorsConfigV::unset() };
    match d.block {
        None => Ok(start),
        Some(list) => fold::fold(
            |c: CorsConfigV, o: DirectiveV| cors_option(c, o),
            start,
            list,
        ),
    }
}

fn read_cors_option(c: CorsConfig, d: &Directive) -> (r: Result<CorsConfig, AdapterError>)
    ensures
        error::outcome(r) == cors_option(c.deep_view(), d.deep_view()),
{
    let mut c = c;
    let name = d.name.as_str();
    if same(name, "origins") {
        c.allowed_origins = d.args.duplicate();
    } else if same(name, "methods") {
        c.allowed_methods = d.args.duplicate();
    } else if same(name, "headers") {
        c.allowed_headers = d.args.duplicate();
    } else if same(name, "expose_headers") {
        c.exposed_headers = d.args.duplicate();
    } else if same(name, "allow_credentials") {
        c.allow_credentials = d.args.len() == 0 || same(d.args[0].as_str(), "true") || same(
            d.args[0].as_str(),
            "on",
        );
    } else if same(name, "max_age") {
        if d.args.len() == 0 {
            return Err(miscount("cors max_age", 1, 0));
        }
        match parse_u64(d.args[0].as_str()) {
            Some(n) => {
                c.max_age = Some(n);
            },
            None => {
                return Err(invalid("cors max_age", d.args[0].as_str()));
            },
        }
    } else {
        return Err(unknown_in("cors: ", name));
    }
    Ok(c)
}

/// Adapts `cors`.
pub fn adapt_cors(d: &Directive) -> (r: Result<CorsConfig, AdapterError>)
    ensures
        error::outcome(r) == cors(d.deep_view()),
{
    let mut c = CorsConfig::unset();
    c.allowed_origins = d.args.duplicate();
    match &d.block {
        None => Ok(c),
        Some(block) => fold_directives(
            read_cors_option,
            c,
            &block.directives,
            Ghost(|c: CorsConfigV, o: DirectiveV| cors_option(c, o)),
        ),
    }
}

/// One line of an `access_control` block.
pub open spec fn access_option(c: AccessControlConfigV, d: DirectiveV) -> Result<
    AccessControlConfigV,
    ErrorV,
> {
    if d.args.len() == 0 {
        Err(ErrorV::ArgumentCount(d.name, 1, 0))
    } else if d.name == "allow_ip"@ {
        Ok(AccessControlConfigV { allowed_ips: c.allowed_ips + d.args, ..c })
    } else if d.name == "deny_ip"@ {
        Ok(AccessControlConfigV { denied_ips: c.denied_ips + d.args, ..c })
    } else if d.name == "allow_referer"@ {
        Ok(AccessControlConfigV { allowed_referers: c.allowed_referers + d.args, ..c })
    } else if d.name == "deny_referer"@ {
        Ok(AccessControlConfigV { denied_referers: c.denied_referers + d.args, ..c })
    } else if d.name == "allow_user_agent"@ {
        Ok(AccessControlConfigV { allowed_user_agents: c.allowed_user_agents + d.args, ..c })
    } else if d.name == "deny_user_agent"@ {
        Ok(AccessControlConfigV { denied_user_agents: c.denied_user_agents + d.args, ..c })
    } else {
        Err(ErrorV::UnknownDirective("access_control: "@ + d.name))
    }
}

/// `access_control { ... }`.
pub open spec fn access_control(d: DirectiveV) -> Result<AccessControlConfigV, ErrorV> {
    match d.block {
        Some(list) if d.args.len() == 0 => fold::fold(
            |c: AccessControlConfigV, o: DirectiveV| access_option(c, o),
            AccessControlConfigV::unset(),
            list,
        ),
        _ => Err(
            ErrorV::InvalidArgument("access_control"@, "expected a block of allow_/deny_ rules"@),
        ),
    }
}

fn read_access_option(c: AccessControlConfig, d: &Directive) -> (r: Result<
    AccessControlConfig,
    AdapterError,
>)
    ensures
        error::outcome(r) == access_option(c.deep_view(), d.deep_view()),
{
    let mut c = c;
    let name = d.name.as_str();
    if d.args.len() == 0 {
        return Err(miscount(name, 1, 0));
    }
    if same(name, "allow_ip") {
        extend(&mut c.allowed_ips, &d.args);
    } else if same(name, "deny_ip") {
        extend(&mut c.denied_ips, &d.args);
    } else if same(name, "allow_referer") {
        extend(&mut c.allowed_referers, &d.args);
    } else if same(name, "deny_referer") {
        extend(&mut c.denied_referers, &d.args);
    } else if same(name, "allow_user_agent") {
        extend(&mut c.allowed_user_agents, &d.args);
    } else if same(name, "deny_user_agent") {
        extend(&mut c.denied_user_agents, &d.args);
    } else {
        return Err(unknown_in("access_control: ", name));
    }
    Ok(c)
}

/// Adapts `access_control`.
pub fn adapt_access_control(d: &Directive) -> (r: Result<AccessControlConfig, AdapterError>)
    ensures
        error::outcome(r) == access_control(d.deep_view()),
{
    match &d.block {
        Some(block) => {
            if d.args.len() != 0 {
                return Err(invalid("access_control", "expected a block of allow_/deny_ rules"));
            }
            fold_directives(
                read_access_option,
                AccessControlConfig::unset(),
                &block.directives,
                Ghost(|c: AccessControlConfigV, o: DirectiveV| access_option(c, o)),
            )
        },
        None => Err(invalid("access_control", "expected a block of allow_/deny_ rules")),
    }
}

// ---------------------------------------------------------------------------
// rate_limit
// ---------------------------------------------------------------------------
/// What requests are counted by.
pub open spec fn rate_key(d: DirectiveV) -> Result<RateLimitKeyV, ErrorV> {
    let complaint = ErrorV::InvalidArgument(
        d.name,
        "expected ip, global, route, api_key, header <name>, or tenant [name]"@,
    );
    if d.args.len() == 1 {
        let kind = d.args[0];
        if kind == "ip"@ {
            Ok(RateLimitKeyV::Ip)
        } else if kind == "global"@ {
            Ok(RateLimitKeyV::Global)
        } else if kind == "route"@ {
            Ok(RateLimitKeyV::Route)
        } else if kind == "api_key"@ {
            Ok(RateLimitKeyV::ApiKey)
        } else if kind == "tenant"@ {
            Ok(RateLimitKeyV::Tenant("X-Tenant-ID"@))
        } else {
            Err(complaint)
        }
    } else if d.args.len() == 2 {
        let kind = d.args[0];
        if kind == "header"@ {
            Ok(RateLimitKeyV::Header(d.args[1]))
        } else if kind == "tenant"@ {
            Ok(RateLimitKeyV::Tenant(d.args[1]))
        } else {
            Err(complaint)
        }
    } else {
        Err(complaint)
    }
}

/// One line of a `rate_limit` block.
pub open spec fn rate_option(c: RateLimitConfigV, d: DirectiveV) -> Result<
    RateLimitConfigV,
    ErrorV,
> {
    if d.name == "burst"@ {
        match args::sole(d) {
            Err(e) => Err(e),
            Ok(value) => match text::as_u64(value) {
                Some(burst) => Ok(RateLimitConfigV { burst, ..c }),
                None => Err(ErrorV::InvalidArgument(d.name, value)),
            },
        }
    } else if d.name == "dry_run"@ {
        error::with(args::bare(d), |u: ()| RateLimitConfigV { dry_run: true, ..c })
    } else if d.name == "key"@ {
        error::with(rate_key(d), |key: RateLimitKeyV| RateLimitConfigV { key, ..c })
    } else {
        Err(ErrorV::UnknownDirective(d.name))
    }
}

/// `rate_limit <requests> <window>` with an optional block; the window is whole seconds.
pub open spec fn rate_limit(d: DirectiveV) -> Result<RateLimitConfigV, ErrorV> {
    if d.args.len() != 2 {
        Err(
            ErrorV::InvalidArgument(
                d.name,
                "expected <requests> <window> followed by an optional block"@,
            ),
        )
    } else {
        match text::as_u64(d.args[0]) {
            Some(requests) if requests > 0 => match duration::millis(d.args[1]) {
                Some(window_ms) if window_ms >= 1_000 && window_ms % 1_000 == 0 => {
                    let start = RateLimitConfigV {
                        requests,
                        window_ms,
                        burst: 0,
                        key: RateLimitKeyV::Ip,
                        dry_run: false,
                    };
                    match d.block {
                        None => Ok(start),
                        Some(list) => fold::fold(
                            |c: RateLimitConfigV, o: DirectiveV| rate_option(c, o),
                            start,
                            list,
                        ),
                    }
                },
                _ => Err(ErrorV::InvalidArgument("rate_limit"@, d.args[1])),
            },
            _ => Err(ErrorV::InvalidArgument("rate_limit"@, d.args[0])),
        }
    }
}

fn read_rate_key(d: &Directive) -> (r: Result<RateLimitKey, AdapterError>)
    ensures
        error::outcome(r) == rate_key(d.deep_view()),
{
    if d.args.len() == 1 {
        let kind = d.args[0].as_str();
        if same(kind, "ip") {
            return Ok(RateLimitKey::Ip);
        } else if same(kind, "global") {
            return Ok(RateLimitKey::Global);
        } else if same(kind, "route") {
            return Ok(RateLimitKey::Route);
        } else if same(kind, "api_key") {
            return Ok(RateLimitKey::ApiKey);
        } else if same(kind, "tenant") {
            return Ok(RateLimitKey::Tenant("X-Tenant-ID".to_owned()));
        }
    } else if d.args.len() == 2 {
        let kind = d.args[0].as_str();
        if same(kind, "header") {
            return Ok(RateLimitKey::Header(d.args[1].clone()));
        } else if same(kind, "tenant") {
            return Ok(RateLimitKey::Tenant(d.args[1].clone()));
        }
    }
    Err(
        invalid(
            d.name.as_str(),
            "expected ip, global, route, api_key, header <name>, or tenant [name]",
        ),
    )
}

fn read_rate_option(c: RateLimitConfig, d: &Directive) -> (r: Result<
    RateLimitConfig,
    AdapterError,
>)
    ensures
        error::outcome(r) == rate_option(c.deep_view(), d.deep_view()),
{
    let mut c = c;
    let name = d.name.as_str();
    if same(name, "burst") {
        let value = expect_one_argument(d)?;
        match parse_u64(value) {
            Some(burst) => {
                c.burst = burst;
            },
            None => {
                return Err(invalid(name, value));
            },
        }
    } else if same(name, "dry_run") {
        expect_no_arguments(d)?;
        c.dry_run = true;
    } else if same(name, "key") {
        c.key = read_rate_key(d)?;
    } else {
        return Err(unknown(name));
    }
    Ok(c)
}

/// Adapts `rate_limit`.
pub fn adapt_rate_limit(d: &Directive) -> (r: Result<RateLimitConfig, AdapterError>)
    ensures
        error::outcome(r) == rate_limit(d.deep_view()),
{
    if d.args.len() != 2 {
        return Err(
            invalid(
                d.name.as_str(),
                "expected <requests> <window> followed by an optional block",
            ),
        );
    }
    let requests: u64 = match parse_u64(d.args[0].as_str()) {
        Some(n) => n,
        None => {
            return Err(invalid("rate_limit", d.args[0].as_str()));
        },
    };
    if requests == 0 {
        return Err(invalid("rate_limit", d.args[0].as_str()));
    }
    let window_ms: u64 = match parse_duration_ms(d.args[1].as_str()) {
        Some(n) => n,
        None => {
            return Err(invalid("rate_limit", d.args[1].as_str()));
        },
    };
    if window_ms < 1_000 || window_ms % 1_000 != 0 {
        return Err(invalid("rate_limit", d.args[1].as_str()));
    }
    let c = RateLimitConfig { requests, window_ms, burst: 0, key: RateLimitKey::Ip, dry_run: false };
    match &d.block {
        None => Ok(c),
        Some(block) => fold_directives(
            read_rate_option,
            c,
            &block.directives,
            Ghost(|c: RateLimitConfigV, o: DirectiveV| rate_option(c, o)),
        ),
    }
}

} // verus!
