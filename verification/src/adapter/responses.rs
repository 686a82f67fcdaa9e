//! Steps taken on the response of an upstream.

use crate::adapter::args;
use crate::adapter::args::{args_from, extend};
use crate::adapter::content;
use crate::adapter::content::{
    adapt_error_directive, adapt_header_directive, adapt_vars_directive,
};
use crate::adapter::directives;
use crate::adapter::directives::{adapt_respond, adapt_rewrite};
use crate::adapter::profile::Profile;
use crate::ast::proxy::{
    Expr, ExprV, HandlerConfig, HandlerConfigV, ResponseHandlerConfig, ResponseHandlerConfigV,
    ResponseMatcher, ResponseMatcherV,
};
use crate::duplicate::Duplicate;
use crate::error;
use crate::error::{invalid, miscount, unknown_in, unsupported, AdapterError, ErrorV};
use crate::fold;
use crate::fold::{each_text, fold_directives};
use crate::syntax::{Directive, DirectiveV};
use crate::table::Table;
use crate::text;
use crate::text::{begins_with, cat3, chars_of, parse_u16, same, strip_end};
use vstd::prelude::*;

verus! {

// ---------------------------------------------------------------------------
// Response matchers
// ---------------------------------------------------------------------------
/// A status, or a class such as `5xx` written as its first digit.
pub open spec fn status_or_class(value: Seq<char>) -> Result<u16, ErrorV> {
    let complaint = ErrorV::InvalidArgument("status"@, value);
    match text::stripped_end(value, "xx"@) {
        Some(head) => match text::as_u16(head) {
            Some(class) => if 1 <= class <= 5 {
                Ok(class)
            } else {
                Err(complaint)
            },
            None => Err(complaint),
        },
        None => match text::as_u16(value) {
            Some(code) => if content::response_status(code) {
                Ok(code)
            } else {
                Err(complaint)
            },
            None => Err(complaint),
        },
    }
}

fn read_status_or_class(value: &str) -> (r: Result<u16, AdapterError>)
    ensures
        error::outcome(r) == status_or_class(value@),
{
    match strip_end(value, "xx") {
        Some(head) => match parse_u16(head) {
            Some(class) => if class >= 1 && class <= 5 {
                Ok(class)
            } else {
                Err(invalid("status", value))
            },
            None => Err(invalid("status", value)),
        },
        None => match parse_u16(value) {
            Some(code) => if code >= 100 && code <= 599 {
                Ok(code)
            } else {
                Err(invalid("status", value))
            },
            None => Err(invalid("status", value)),
        },
    }
}

/// ASCII white space.
pub open spec fn ascii_white(c: char) -> bool {
    c == ' ' || c == '\t' || c == '\n' || c == '\u{c}' || c == '\r'
}

/// A text that can name a header field: not empty, and without white space.
pub open spec fn field_name(s: Seq<char>) -> bool {
    s.len() > 0 && forall|i: int| 0 <= i < s.len() ==> !ascii_white(#[trigger] s[i])
}

fn is_field_name(s: &str) -> (r: bool)
    ensures
        r == field_name(s@),
{
    let x = chars_of(s);
    let mut i: usize = 0;
    while i < x.len()
        invariant
            i <= x.len(),
            x@ == s@,
            forall|j: int| 0 <= j < i ==> !ascii_white(#[trigger] s@[j]),
        decreases x.len() - i,
    {
        let c = x[i];
        if c == ' ' || c == '\t' || c == '\n' || c == '\u{c}' || c == '\r' {
            assert(ascii_white(s@[i as int]));
            return false;
        }
        i += 1;
    }
    x.len() > 0
}

/// A `status` line: at least one status or class.
pub open spec fn with_statuses(m: ResponseMatcherV, list: Seq<Seq<char>>) -> Result<
    ResponseMatcherV,
    ErrorV,
> {
    if list.len() == 0 {
        Err(ErrorV::ArgumentCount("status"@, 1, 0))
    } else {
        error::with(
            fold::each(|value: Seq<char>| status_or_class(value), list),
            |codes: Seq<u16>| ResponseMatcherV { status_codes: m.status_codes + codes, ..m },
        )
    }
}

/// A `header` line: a field name and the patterns its values may have.
pub open spec fn with_header(m: ResponseMatcherV, list: Seq<Seq<char>>) -> Result<
    ResponseMatcherV,
    ErrorV,
> {
    if list.len() == 0 {
        Err(ErrorV::ArgumentCount("header"@, 1, 0))
    } else if !field_name(list[0]) {
        Err(
            ErrorV::InvalidArgument("header"@, "`"@ + list[0] + "` is not a header name"@),
        )
    } else {
        let known = if m.headers.dom().contains(list[0]) {
            m.headers[list[0]]
        } else {
            Seq::empty()
        };
        Ok(ResponseMatcherV { headers: m.headers.insert(list[0], known + list.skip(1)), ..m })
    }
}

/// One line of a response matcher's block.
pub open spec fn response_condition(m: ResponseMatcherV, d: DirectiveV) -> Result<
    ResponseMatcherV,
    ErrorV,
> {
    if d.name == "status"@ {
        with_statuses(m, d.args)
    } else if d.name == "header"@ {
        with_header(m, d.args)
    } else {
        Err(ErrorV::UnknownDirective("response matcher: "@ + d.name))
    }
}

/// `@name status 500`, `@name header X-A b`, or a block of such lines.
pub open spec fn response_matcher(d: DirectiveV) -> Result<ResponseMatcherV, ErrorV> {
    match d.block {
        Some(list) => fold::fold(
            |m: ResponseMatcherV, o: DirectiveV| response_condition(m, o),
            ResponseMatcherV::unset(),
            list,
        ),
        None => if d.args.len() == 0 {
            Err(
                ErrorV::InvalidArgument(
                    d.name,
                    "a response matcher needs `status` or `header`"@,
                ),
            )
        } else if d.args[0] == "status"@ {
            with_statuses(ResponseMatcherV::unset(), d.args.skip(1))
        } else if d.args[0] == "header"@ {
            with_header(ResponseMatcherV::unset(), d.args.skip(1))
        } else {
            Err(
                ErrorV::InvalidArgument(
                    d.name,
                    "`"@ + d.args[0] + "` is not `status` or `header`"@,
                ),
            )
        },
    }
}

fn add_statuses(m: ResponseMatcher, list: &Vec<String>) -> (r: Result<
    ResponseMatcher,
    AdapterError,
>)
    ensures
        error::outcome(r) == with_statuses(m.deep_view(), list.deep_view()),
{
    let mut m = m;
    if list.len() == 0 {
        return Err(miscount("status", 1, 0));
    }
    let mut codes = each_text(
        read_status_or_class,
        list,
        Ghost(|value: Seq<char>| status_or_class(value)),
    )?;
    let ghost held = m.status_codes.deep_view();
    let ghost added = codes.deep_view();
    m.status_codes.append(&mut codes);
    assert(m.status_codes.deep_view() =~= held + added);
    Ok(m)
}

fn add_header(m: ResponseMatcher, list: &Vec<String>) -> (r: Result<ResponseMatcher, AdapterError>)
    ensures
        error::outcome(r) == with_header(m.deep_view(), list.deep_view()),
{
    let mut m = m;
    if list.len() == 0 {
        return Err(miscount("header", 1, 0));
    }
    let name = list[0].as_str();
    if !is_field_name(name) {
        let reason = cat3("`", name, "` is not a header name");
        return Err(invalid("header", reason.as_str()));
    }
    let mut patterns: Vec<String> = match m.headers.get(name) {
        Some(known) => known.duplicate(),
        None => {
            let fresh: Vec<String> = Vec::new();
            assert(fresh.deep_view() =~= Seq::<Seq<char>>::empty());
            fresh
        },
    };
    let more = args_from(list, 1);
    extend(&mut patterns, &more);
    m.headers.insert(list[0].clone(), patterns);
    Ok(m)
}

fn read_response_condition(m: ResponseMatcher, d: &Directive) -> (r: Result<
    ResponseMatcher,
    AdapterError,
>)
    ensures
        error::outcome(r) == response_condition(m.deep_view(), d.deep_view()),
{
    let name = d.name.as_str();
    if same(name, "status") {
        add_statuses(m, &d.args)
    } else if same(name, "header") {
        add_header(m, &d.args)
    } else {
        Err(unknown_in("response matcher: ", name))
    }
}

/// Reads one named response matcher.
pub fn parse_response_matcher(d: &Directive) -> (r: Result<ResponseMatcher, AdapterError>)
    ensures
        error::outcome(r) == response_matcher(d.deep_view()),
{
    match &d.block {
        Some(block) => fold_directives(
            read_response_condition,
            ResponseMatcher::unset(),
            &block.directives,
            Ghost(|m: ResponseMatcherV, o: DirectiveV| response_condition(m, o)),
        ),
        None => {
            if d.args.len() == 0 {
                return Err(
                    invalid(
                        d.name.as_str(),
                        "a response matcher needs `status` or `header`",
                    ),
                );
            }
            let kind = d.args[0].as_str();
            let rest = args_from(&d.args, 1);
            if same(kind, "status") {
                add_statuses(ResponseMatcher::unset(), &rest)
            } else if same(kind, "header") {
                add_header(ResponseMatcher::unset(), &rest)
            } else {
                let reason = cat3("`", kind, "` is not `status` or `header`");
                Err(invalid(d.name.as_str(), reason.as_str()))
            }
        },
    }
}

// ---------------------------------------------------------------------------
// Steps
// ---------------------------------------------------------------------------
/// The texts of a `copy_response_headers` block read so far.
pub struct HeaderLists {
    pub included: Vec<String>,
    pub excluded: Vec<String>,
}

/// The mathematical value of [`HeaderLists`].
#[verifier::ext_equal]
pub struct HeaderListsV {
    pub included: Seq<Seq<char>>,
    pub excluded: Seq<Seq<char>>,
}

impl DeepView for HeaderLists {
    type V = HeaderListsV;

    open spec fn deep_view(&self) -> HeaderListsV {
        HeaderListsV {
            included: self.included.deep_view(),
            excluded: self.excluded.deep_view(),
        }
    }
}

/// One line of a `copy_response_headers` block.
pub open spec fn copied_header(c: HeaderListsV, d: DirectiveV) -> Result<HeaderListsV, ErrorV> {
    if d.name == "include"@ {
        Ok(HeaderListsV { included: c.included + d.args, ..c })
    } else if d.name == "exclude"@ {
        Ok(HeaderListsV { excluded: c.excluded + d.args, ..c })
    } else {
        Err(ErrorV::UnknownDirective("copy_response_headers: "@ + d.name))
    }
}

/// Which headers of the response are copied.
pub open spec fn copied_headers(d: DirectiveV) -> Result<HeaderListsV, ErrorV> {
    let none = HeaderListsV { included: Seq::empty(), excluded: Seq::empty() };
    match d.block {
        Some(list) => fold::fold(
            |c: HeaderListsV, o: DirectiveV| copied_header(c, o),
            none,
            list,
        ),
        None => Ok(HeaderListsV { included: d.args, ..none }),
    }
}

/// The document root in a response subroute, after an optional `*`.
pub open spec fn response_root(list: Seq<Seq<char>>) -> Result<Seq<char>, ErrorV> {
    let rest = if list.len() > 0 && list[0] == "*"@ {
        list.skip(1)
    } else {
        list
    };
    if rest.len() == 1 {
        Ok(rest[0])
    } else {
        Err(ErrorV::ArgumentCount("root"@, 1, rest.len() as usize))
    }
}

/// One directive inside a `handle_response` block.
pub open spec fn response_handler(d: DirectiveV) -> Result<HandlerConfigV, ErrorV> {
    if d.name == "respond"@ {
        match directives::respond(Profile::Extended, d) {
            Err(e) => Err(e),
            Ok(c) => Ok(
                HandlerConfigV::Respond {
                    status: c.status,
                    body: match c.body {
                        Some(ExprV::String(text)) => Some(text),
                        None => None,
                    },
                    headers: c.headers,
                },
            ),
        }
    } else if d.name == "copy_response"@ {
        if d.args.len() == 0 {
            Ok(HandlerConfigV::CopyResponse { status_code: None })
        } else {
            match text::as_u16(d.args[0]) {
                Some(code) => Ok(HandlerConfigV::CopyResponse { status_code: Some(code) }),
                None => Err(ErrorV::InvalidArgument("copy_response"@, d.args[0])),
            }
        }
    } else if d.name == "copy_response_headers"@ {
        error::with(
            copied_headers(d),
            |c: HeaderListsV|
                HandlerConfigV::CopyResponseHeaders { included: c.included, excluded: c.excluded },
        )
    } else if d.name == "header"@ {
        match content::header(d) {
            Err(e) => Err(e),
            Ok(c) => Ok(HandlerConfigV::Headers { set: c.set, add: c.add, remove: c.remove }),
        }
    } else if d.name == "error"@ {
        match content::raised(d) {
            Err(e) => Err(e),
            Ok(c) => Ok(HandlerConfigV::Error { status: c.status, message: c.message }),
        }
    } else if d.name == "vars"@ {
        match content::vars(d) {
            Err(e) => Err(e),
            Ok(values) => Ok(HandlerConfigV::Vars { values }),
        }
    } else if d.name == "root"@ {
        match response_root(d.args) {
            Err(e) => Err(e),
            Ok(root) => Ok(HandlerConfigV::Vars { values: Map::empty().insert("root"@, root) }),
        }
    } else if d.name == "rewrite"@ {
        match directives::rewrite(d) {
            Err(e) => Err(e),
            Ok(c) => if c.regex is Some || c.regex_replace is Some {
                Err(
                    ErrorV::UnsupportedFeature(
                        "handle_response rewrite"@,
                        "only a plain `<replacement>` rewrite is supported in response subroutes yet"@,
                    ),
                )
            } else {
                Ok(HandlerConfigV::Rewrite { replace: c.replace })
            },
        }
    } else if d.name == "file_server"@ {
        if d.block is Some || d.args.len() != 0 {
            Err(
                ErrorV::UnsupportedFeature(
                    "handle_response file_server"@,
                    "only a bare `file_server` is supported in response subroutes yet"@,
                ),
            )
        } else {
            Ok(
                HandlerConfigV::FileServer {
                    root: "."@,
                    index: seq!["index.html"@],
                    browse: false,
                    compress: true,
                    canonical_uris: true,
                },
            )
        }
    } else {
        Err(
            ErrorV::UnsupportedFeature(
                "handle_response"@,
                "`"@ + d.name + "` is not a supported response handler yet"@,
            ),
        )
    }
}

fn read_copied_header(c: HeaderLists, d: &Directive) -> (r: Result<HeaderLists, AdapterError>)
    ensures
        error::outcome(r) == copied_header(c.deep_view(), d.deep_view()),
{
    let mut c = c;
    let name = d.name.as_str();
    if same(name, "include") {
        extend(&mut c.included, &d.args);
    } else if same(name, "exclude") {
        extend(&mut c.excluded, &d.args);
    } else {
        return Err(unknown_in("copy_response_headers: ", name));
    }
    Ok(c)
}

fn read_copied_headers(d: &Directive) -> (r: Result<HeaderLists, AdapterError>)
    ensures
        error::outcome(r) == copied_headers(d.deep_view()),
{
    let mut c = HeaderLists { included: Vec::new(), excluded: Vec::new() };
    assert(c.included.deep_view() =~= Seq::<Seq<char>>::empty());
    assert(c.excluded.deep_view() =~= Seq::<Seq<char>>::empty());
    match &d.block {
        Some(block) => fold_directives(
            read_copied_header,
            c,
            &block.directives,
            Ghost(|c: HeaderListsV, o: DirectiveV| copied_header(c, o)),
        ),
        None => {
            c.included = d.args.duplicate();
            Ok(c)
        },
    }
}

fn read_response_root(list: &Vec<String>) -> (r: Result<String, AdapterError>)
    ensures
        error::outcome(r) == response_root(list.deep_view()),
{
    if list.len() > 0 && same(list[0].as_str(), "*") {
        let rest = args_from(list, 1);
        assert(rest.deep_view().len() == rest@.len());
        if rest.len() == 1 {
            Ok(rest[0].clone())
        } else {
            Err(miscount("root", 1, rest.len()))
        }
    } else if list.len() == 1 {
        Ok(list[0].clone())
    } else {
        Err(miscount("root", 1, list.len()))
    }
}

/// Adapts one directive inside a `handle_response` block.
pub fn adapt_response_handler(d: &Directive) -> (r: Result<HandlerConfig, AdapterError>)
    ensures
        error::outcome(r) == response_handler(d.deep_view()),
{
    let name = d.name.as_str();
    if same(name, "respond") {
        let c = adapt_respond(Profile::Extended, d)?;
        let body = match c.body {
            Some(Expr::String(text)) => Some(text),
            None => None,
        };
        Ok(HandlerConfig::Respond { status: c.status, body, headers: c.headers })
    } else if same(name, "copy_response") {
        if d.args.len() == 0 {
            return Ok(HandlerConfig::CopyResponse { status_code: None });
        }
        match parse_u16(d.args[0].as_str()) {
            Some(code) => Ok(HandlerConfig::CopyResponse { status_code: Some(code) }),
            None => Err(invalid("copy_response", d.args[0].as_str())),
        }
    } else if same(name, "copy_response_headers") {
        let c = read_copied_headers(d)?;
        Ok(HandlerConfig::CopyResponseHeaders { included: c.included, excluded: c.excluded })
    } else if same(name, "header") {
        let c = adapt_header_directive(d)?;
        Ok(HandlerConfig::Headers { set: c.set, add: c.add, remove: c.remove })
    } else if same(name, "error") {
        let c = adapt_error_directive(d)?;
        Ok(HandlerConfig::Error { status: c.status, message: c.message })
    } else if same(name, "vars") {
        let values = adapt_vars_directive(d)?;
        Ok(HandlerConfig::Vars { values })
    } else if same(name, "root") {
        let root = read_response_root(&d.args)?;
        let mut values: Table<String> = Table::new();
        values.insert("root".to_owned(), root);
        Ok(HandlerConfig::Vars { values })
    } else if same(name, "rewrite") {
        let c = adapt_rewrite(d)?;
        if c.regex.is_some() || c.regex_replace.is_some() {
            return Err(
                unsupported(
                    "handle_response rewrite",
                    "only a plain `<replacement>` rewrite is supported in response subroutes yet",
                ),
            );
        }
        Ok(HandlerConfig::Rewrite { replace: c.replace })
    } else if same(name, "file_server") {
        if d.block.is_some() || d.args.len() != 0 {
            return Err(
                unsupported(
                    "handle_response file_server",
                    "only a bare `file_server` is supported in response subroutes yet",
                ),
            );
        }
        let mut index: Vec<String> = Vec::new();
        index.push("index.html".to_owned());
        assert(index.deep_view() =~= seq!["index.html"@]);
        Ok(
            HandlerConfig::FileServer {
                root: ".".to_owned(),
                index,
                browse: false,
                compress: true,
                canonical_uris: true,
            },
        )
    } else {
        let reason = cat3("`", name, "` is not a supported response handler yet");
        Err(unsupported("handle_response", reason.as_str()))
    }
}

// ---------------------------------------------------------------------------
// Entries
// ---------------------------------------------------------------------------
/// `replace_status [@matcher] <status>`. A matcher that is not defined stands for none: the entry
/// then applies to every response.
pub open spec fn replaced_status(
    d: DirectiveV,
    matchers: Map<Seq<char>, ResponseMatcherV>,
) -> Result<ResponseHandlerConfigV, ErrorV> {
    if d.args.len() == 2 && text::starts_char(d.args[0], '@') {
        Ok(
            ResponseHandlerConfigV {
                matcher: if matchers.dom().contains(d.args[0]) {
                    Some(matchers[d.args[0]])
                } else {
                    None
                },
                status_code: Some(d.args[1]),
                handlers: Seq::empty(),
            },
        )
    } else if d.args.len() == 1 {
        Ok(
            ResponseHandlerConfigV {
                matcher: None,
                status_code: Some(d.args[0]),
                handlers: Seq::empty(),
            },
        )
    } else {
        Err(ErrorV::ArgumentCount("replace_status"@, 1, d.args.len() as usize))
    }
}

/// The matcher that a `handle_response` line refers to.
pub open spec fn handled_matcher(
    list: Seq<Seq<char>>,
    matchers: Map<Seq<char>, ResponseMatcherV>,
) -> Result<Option<ResponseMatcherV>, ErrorV> {
    if list.len() == 0 {
        Ok(None)
    } else if list.len() == 1 && text::starts_char(list[0], '@') {
        if matchers.dom().contains(list[0]) {
            Ok(Some(matchers[list[0]]))
        } else {
            Err(
                ErrorV::InvalidArgument(
                    "handle_response"@,
                    "unknown response matcher `"@ + list[0] + "`"@,
                ),
            )
        }
    } else {
        Err(ErrorV::ArgumentCount("handle_response"@, 1, list.len() as usize))
    }
}

/// One more step at the end of the steps.
pub open spec fn further_step(steps: Seq<HandlerConfigV>, d: DirectiveV) -> Result<
    Seq<HandlerConfigV>,
    ErrorV,
> {
    error::with(response_handler(d), |h: HandlerConfigV| steps.push(h))
}

/// `handle_response [@matcher] { ... }`.
pub open spec fn handled_response(
    d: DirectiveV,
    matchers: Map<Seq<char>, ResponseMatcherV>,
) -> Result<ResponseHandlerConfigV, ErrorV> {
    match handled_matcher(d.args, matchers) {
        Err(e) => Err(e),
        Ok(matcher) => match d.block {
            None => Err(ErrorV::InvalidArgument("handle_response"@, "block required"@)),
            Some(list) => if list.len() == 0 {
                Err(
                    ErrorV::InvalidArgument(
                        "handle_response"@,
                        "at least one response handler is required"@,
                    ),
                )
            } else {
                error::with(
                    fold::fold(
                        |steps: Seq<HandlerConfigV>, o: DirectiveV| further_step(steps, o),
                        Seq::<HandlerConfigV>::empty(),
                        list,
                    ),
                    |handlers: Seq<HandlerConfigV>|
                        ResponseHandlerConfigV { matcher, status_code: None, handlers },
                )
            },
        },
    }
}

/// Reads `replace_status`.
pub fn parse_replace_status(d: &Directive, matchers: &Table<ResponseMatcher>) -> (r: Result<
    ResponseHandlerConfig,
    AdapterError,
>)
    ensures
        error::outcome(r) == replaced_status(d.deep_view(), matchers.deep_view()),
{
    let handlers: Vec<HandlerConfig> = Vec::new();
    assert(handlers.deep_view() =~= Seq::<HandlerConfigV>::empty());
    if d.args.len() == 2 && begins_with(d.args[0].as_str(), '@') {
        let matcher = match matchers.get(d.args[0].as_str()) {
            Some(m) => Some(m.duplicate()),
            None => None,
        };
        Ok(
            ResponseHandlerConfig {
                matcher,
                status_code: Some(d.args[1].clone()),
                handlers,
            },
        )
    } else if d.args.len() == 1 {
        Ok(
            ResponseHandlerConfig {
                matcher: None,
                status_code: Some(d.args[0].clone()),
                handlers,
            },
        )
    } else {
        Err(miscount("replace_status", 1, d.args.len()))
    }
}

fn read_further_step(steps: Vec<HandlerConfig>, d: &Directive) -> (r: Result<
    Vec<HandlerConfig>,
    AdapterError,
>)
    ensures
        error::outcome(r) == further_step(steps.deep_view(), d.deep_view()),
{
    let mut steps = steps;
    let h = adapt_response_handler(d)?;
    let ghost held = steps.deep_view();
    steps.push(h);
    assert(steps.deep_view() =~= held.push(h.deep_view()));
    Ok(steps)
}

/// Reads one `handle_response` entry.
pub fn parse_handle_response(d: &Directive, matchers: &Table<ResponseMatcher>) -> (r: Result<
    ResponseHandlerConfig,
    AdapterError,
>)
    ensures
        error::outcome(r) == handled_response(d.deep_view(), matchers.deep_view()),
{
    let matcher = if d.args.len() == 0 {
        None
    } else if d.args.len() == 1 && begins_with(d.args[0].as_str(), '@') {
        match matchers.get(d.args[0].as_str()) {
            Some(m) => Some(m.duplicate()),
            None => {
                let reason = cat3("unknown response matcher `", d.args[0].as_str(), "`");
                return Err(invalid("handle_response", reason.as_str()));
            },
        }
    } else {
        return Err(miscount("handle_response", 1, d.args.len()));
    };
    match &d.block {
        None => Err(invalid("handle_response", "block required")),
        Some(block) => {
            if block.directives.len() == 0 {
                return Err(
                    invalid("handle_response", "at least one response handler is required"),
                );
            }
            let none: Vec<HandlerConfig> = Vec::new();
            assert(none.deep_view() =~= Seq::<HandlerConfigV>::empty());
            let handlers = fold_directives(
                read_further_step,
                none,
                &block.directives,
                Ghost(|steps: Seq<HandlerConfigV>, o: DirectiveV| further_step(steps, o)),
            )?;
            Ok(ResponseHandlerConfig { matcher, status_code: None, handlers })
        },
    }
}

/// The entries of a block that intercepts responses, read so far.
pub struct Interception {
    pub matchers: Table<ResponseMatcher>,
    pub ordered: Vec<ResponseHandlerConfig>,
    pub matcherless: Vec<ResponseHandlerConfig>,
}

/// The mathematical value of an [`Interception`].
#[verifier::ext_equal]
pub struct InterceptionV {
    pub matchers: Map<Seq<char>, ResponseMatcherV>,
    pub ordered: Seq<ResponseHandlerConfigV>,
    pub matcherless: Seq<ResponseHandlerConfigV>,
}

impl DeepView for Interception {
    type V = InterceptionV;

    open spec fn deep_view(&self) -> InterceptionV {
        InterceptionV {
            matchers: self.matchers.deep_view(),
            ordered: self.ordered.deep_view(),
            matcherless: self.matcherless.deep_view(),
        }
    }
}

/// One more entry; those without a matcher are kept apart.
pub open spec fn with_entry(c: InterceptionV, e: ResponseHandlerConfigV) -> InterceptionV {
    if e.matcher is Some {
        InterceptionV { ordered: c.ordered.push(e), ..c }
    } else {
        InterceptionV { matcherless: c.matcherless.push(e), ..c }
    }
}

fn add_entry(c: Interception, e: ResponseHandlerConfig) -> (r: Interception)
    ensures
        r.deep_view() == with_entry(c.deep_view(), e.deep_view()),
{
    let mut c = c;
    if e.matcher.is_some() {
        let ghost held = c.ordered.deep_view();
        c.ordered.push(e);
        assert(c.ordered.deep_view() =~= held.push(e.deep_view()));
    } else {
        let ghost held = c.matcherless.deep_view();
        c.matcherless.push(e);
        assert(c.matcherless.deep_view() =~= held.push(e.deep_view()));
    }
    c
}

/// One line of a block that intercepts responses.
pub open spec fn interception(c: InterceptionV, d: DirectiveV) -> Result<InterceptionV, ErrorV> {
    if text::starts_char(d.name, '@') {
        error::with(
            response_matcher(d),
            |m: ResponseMatcherV| InterceptionV { matchers: c.matchers.insert(d.name, m), ..c },
        )
    } else if d.name == "replace_status"@ {
        error::with(
            replaced_status(d, c.matchers),
            |e: ResponseHandlerConfigV| with_entry(c, e),
        )
    } else if d.name == "handle_response"@ {
        error::with(
            handled_response(d, c.matchers),
            |e: ResponseHandlerConfigV| with_entry(c, e),
        )
    } else {
        Err(ErrorV::UnknownDirective("response interception: "@ + d.name))
    }
}

/// The entries of a block that intercepts responses; those without a matcher come last.
pub open spec fn response_handlers(list: Seq<DirectiveV>) -> Result<
    Seq<ResponseHandlerConfigV>,
    ErrorV,
> {
    error::with(
        fold::fold(
            |c: InterceptionV, o: DirectiveV| interception(c, o),
            InterceptionV {
                matchers: Map::empty(),
                ordered: Seq::empty(),
                matcherless: Seq::empty(),
            },
            list,
        ),
        |c: InterceptionV| c.ordered + c.matcherless,
    )
}

fn read_interception(c: Interception, d: &Directive) -> (r: Result<Interception, AdapterError>)
    ensures
        error::outcome(r) == interception(c.deep_view(), d.deep_view()),
{
    let mut c = c;
    let name = d.name.as_str();
    if begins_with(name, '@') {
        let m = parse_response_matcher(d)?;
        c.matchers.insert(d.name.clone(), m);
    } else if same(name, "replace_status") {
        let e = parse_replace_status(d, &c.matchers)?;
        c = add_entry(c, e);
    } else if same(name, "handle_response") {
        let e = parse_handle_response(d, &c.matchers)?;
        c = add_entry(c, e);
    } else {
        return Err(unknown_in("response interception: ", name));
    }
    Ok(c)
}

/// Collects the response handlers of a block, those without a matcher last.
pub fn collect_response_handlers(list: &Vec<Directive>) -> (r: Result<
    Vec<ResponseHandlerConfig>,
    AdapterError,
>)
    ensures
        error::outcome(r) == response_handlers(crate::syntax::directives_view(list@)),
{
    let none = Interception {
        matchers: Table::new(),
        ordered: Vec::new(),
        matcherless: Vec::new(),
    };
    assert(none.ordered.deep_view() =~= Seq::<ResponseHandlerConfigV>::empty());
    assert(none.matcherless.deep_view() =~= Seq::<ResponseHandlerConfigV>::empty());
    let c = fold_directives(
        read_interception,
        none,
        list,
        Ghost(|c: InterceptionV, o: DirectiveV| interception(c, o)),
    )?;
    let mut out = c.ordered;
    let mut last = c.matcherless;
    let ghost held = out.deep_view();
    let ghost added = last.deep_view();
    out.append(&mut last);
    assert(out.deep_view() =~= held + added);
    Ok(out)
}

/// Whether each entry has a matcher, or none has.
pub open spec fn all_matched(list: Seq<ResponseHandlerConfigV>, matched: bool) -> bool {
    forall|i: int| 0 <= i < list.len() ==> ((#[trigger] list[i]).matcher is Some) == matched
}

proof fn lemma_kept_apart(c: InterceptionV, list: Seq<DirectiveV>)
    requires
        all_matched(c.ordered, true),
        all_matched(c.matcherless, false),
    ensures
        match fold::fold(|c: InterceptionV, o: DirectiveV| interception(c, o), c, list) {
            Ok(last) => all_matched(last.ordered, true) && all_matched(last.matcherless, false),
            Err(_) => true,
        },
    decreases list.len(),
{
    let step = |c: InterceptionV, o: DirectiveV| interception(c, o);
    if list.len() > 0 {
        if let Ok(next) = step(c, list[0]) {
            lemma_kept_apart(next, list.drop_first());
        }
    }
}

/// The entries of a block that intercepts responses come with those without a matcher last: none
/// of these hides an entry with a matcher.
pub proof fn entries_without_a_matcher_come_last(list: Seq<DirectiveV>, i: int, j: int)
    requires
        response_handlers(list) is Ok,
        0 <= i < j < response_handlers(list)->Ok_0.len(),
        response_handlers(list)->Ok_0[i].matcher is None,
    ensures
        response_handlers(list)->Ok_0[j].matcher is None,
{
    let start = InterceptionV {
        matchers: Map::empty(),
        ordered: Seq::empty(),
        matcherless: Seq::empty(),
    };
    lemma_kept_apart(start, list);
    let last = fold::fold(|c: InterceptionV, o: DirectiveV| interception(c, o), start, list)->Ok_0;
    let n = last.ordered.len() as int;
    let all = last.ordered + last.matcherless;
    if i < n {
        assert(all[i] == last.ordered[i]);
    } else {
        assert(all[j] == last.matcherless[j - n]);
    }
}

/// `intercept { ... }`.
pub open spec fn intercept(d: DirectiveV) -> Result<Seq<ResponseHandlerConfigV>, ErrorV> {
    match d.block {
        None => Err(ErrorV::InvalidArgument("intercept"@, "block required"@)),
        Some(list) => if d.args.len() != 0 {
            Err(ErrorV::ArgumentCount("intercept"@, 0, d.args.len() as usize))
        } else {
            response_handlers(list)
        },
    }
}

/// Adapts `intercept`.
pub fn adapt_intercept(d: &Directive) -> (r: Result<Vec<ResponseHandlerConfig>, AdapterError>)
    ensures
        error::outcome(r) == intercept(d.deep_view()),
{
    match &d.block {
        None => Err(invalid("intercept", "block required")),
        Some(block) => {
            if d.args.len() != 0 {
                return Err(miscount("intercept", 0, d.args.len()));
            }
            collect_response_handlers(&block.directives)
        },
    }
}

} // verus!
