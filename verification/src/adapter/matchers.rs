//! Matcher tokens and matcher definitions.

use crate::adapter::args::args_from;
use crate::adapter::profile::Profile;
use crate::ast::matcher::{
    HeaderCondition, HeaderConditionV, HeaderMatcher, HeaderMatcherV, HttpMethod, PathMatcher,
    PathMatcherV, QueryMatcher, QueryMatcherV,
};
use crate::ast::tree::{copy_matcher, Matcher, MatcherV};
use crate::duplicate::Duplicate;
use crate::error;
use crate::error::{invalid, miscount, unknown_in, unsupported, AdapterError, ErrorV};
use crate::fold;
use crate::fold::each_text;
use crate::syntax;
use crate::syntax::{Directive, DirectiveV};
use crate::text;
use crate::text::{
    after, before, begins_with, cat3, cat4, finishes_with, holds, mentions, parse_u16, same, show,
    to_uppercase,
};
use vstd::prelude::*;

verus! {

// ---------------------------------------------------------------------------
// Matcher tokens
// ---------------------------------------------------------------------------
/// A single path pattern.
pub open spec fn path_of(pattern: Seq<char>) -> MatcherV {
    MatcherV::Path(PathMatcherV { patterns: seq![pattern] })
}

pub fn make_path(pattern: &str) -> (r: Matcher)
    ensures
        r.deep_view() == path_of(pattern@),
{
    let patterns = vec![pattern.to_owned()];
    assert(patterns.deep_view() =~= seq![pattern@]);
    Matcher::Path(PathMatcher { patterns })
}

/// Whether `next` can be the target of a redirect: a path, or something with a scheme, and no
/// status code.
pub open spec fn target(next: Seq<char>) -> bool {
    (text::starts_char(next, '/') || text::position(next, "://"@) is Some) && text::as_u16(next)
        is None
}

pub fn is_target(next: &str) -> (r: bool)
    ensures
        r == target(next@),
{
    (begins_with(next, '/') || mentions(next, "://")) && parse_u16(next).is_none()
}

/// Whether the first argument of a directive is its own data although it may look like a matcher.
pub open spec fn data_first(d: DirectiveV) -> bool {
    d.args.len() > 0 && (if d.name == "redir"@ || d.name == "redirect"@ {
        !(d.args.len() > 1 && target(d.args[1]))
    } else if d.name == "root"@ {
        d.args.len() == 1
    } else if d.name == "file_server"@ {
        !d.args[0].contains('*')
    } else {
        false
    })
}

/// Whether the first argument of a directive is its own data although it may look like a matcher.
///
/// A handful of directives take a path as their first argument; for those the shape of the whole
/// line decides.
pub fn first_argument_is_data(d: &Directive) -> (r: bool)
    ensures
        r == data_first(d.deep_view()),
{
    if d.args.len() == 0 {
        return false;
    }
    let name = d.name.as_str();
    if same(name, "redir") || same(name, "redirect") {
        !(d.args.len() > 1 && is_target(d.args[1].as_str()))
    } else if same(name, "root") {
        d.args.len() == 1
    } else if same(name, "file_server") {
        !holds(d.args[0].as_str(), '*')
    } else {
        false
    }
}

/// The matcher that a first argument stands for: a name that starts with `@`, or a path.
pub open spec fn token(arg: Seq<char>) -> Option<MatcherV> {
    if text::starts_char(arg, '@') {
        Some(MatcherV::Named(arg))
    } else if text::starts_char(arg, '/') {
        Some(path_of(arg))
    } else {
        None
    }
}

fn read_token(arg: &str) -> (r: Option<Matcher>)
    ensures
        r.deep_view() == token(arg@),
{
    if begins_with(arg, '@') {
        Some(Matcher::Named(arg.to_owned()))
    } else if begins_with(arg, '/') {
        Some(make_path(arg))
    } else {
        None
    }
}

/// The matcher token of a directive.
///
/// In the extended profile a leading `/` or `@` makes the first argument a matcher unless it is
/// the directive's own data; in the core profile a path needs a wildcard to count as one.
pub open spec fn matcher_of(profile: Profile, d: DirectiveV) -> Option<MatcherV> {
    if d.args.len() == 0 {
        None
    } else {
        match profile {
            Profile::Core => if text::starts_char(d.args[0], '/') && !d.args[0].contains('*') {
                None
            } else {
                token(d.args[0])
            },
            Profile::Extended => if data_first(d) {
                None
            } else {
                token(d.args[0])
            },
        }
    }
}

/// Reads the optional matcher token in a directive's first argument.
pub fn matcher_token(profile: Profile, d: &Directive) -> (r: Option<Matcher>)
    ensures
        r.deep_view() == matcher_of(profile, d.deep_view()),
{
    if d.args.len() == 0 {
        return None;
    }
    let arg = d.args[0].as_str();
    match profile {
        Profile::Core => if begins_with(arg, '/') && !holds(arg, '*') {
            None
        } else {
            read_token(arg)
        },
        Profile::Extended => if first_argument_is_data(d) {
            None
        } else {
            read_token(arg)
        },
    }
}

/// The matcher of a `route` or `handle` directive, whose first argument is a matcher by position.
pub open spec fn route_matcher_of(d: DirectiveV) -> Option<MatcherV> {
    if d.args.len() == 0 {
        None
    } else {
        token(d.args[0])
    }
}

/// Reads the matcher of a `route` or `handle` directive.
pub fn parse_route_matcher(d: &Directive) -> (r: Option<Matcher>)
    ensures
        r.deep_view() == route_matcher_of(d.deep_view()),
{
    if d.args.len() == 0 {
        return None;
    }
    read_token(d.args[0].as_str())
}

// ---------------------------------------------------------------------------
// Single conditions
// ---------------------------------------------------------------------------
/// How deeply `not` may nest.
pub const MAX_MATCHER_NESTING: usize = 32;

/// The method that `word` names, in any case.
pub open spec fn method(word: Seq<char>) -> Result<HttpMethod, ErrorV> {
    let upper = text::uppercase(word);
    if upper == "GET"@ {
        Ok(HttpMethod::Get)
    } else if upper == "POST"@ {
        Ok(HttpMethod::Post)
    } else if upper == "PUT"@ {
        Ok(HttpMethod::Put)
    } else if upper == "DELETE"@ {
        Ok(HttpMethod::Delete)
    } else if upper == "PATCH"@ {
        Ok(HttpMethod::Patch)
    } else if upper == "HEAD"@ {
        Ok(HttpMethod::Head)
    } else if upper == "OPTIONS"@ {
        Ok(HttpMethod::Options)
    } else {
        Err(ErrorV::InvalidArgument("method"@, "unknown HTTP method `"@ + upper + "`"@))
    }
}

fn read_method(word: &str) -> (r: Result<HttpMethod, AdapterError>)
    ensures
        error::outcome(r) == method(word@),
{
    let upper = to_uppercase(word);
    let u = upper.as_str();
    if same(u, "GET") {
        Ok(HttpMethod::Get)
    } else if same(u, "POST") {
        Ok(HttpMethod::Post)
    } else if same(u, "PUT") {
        Ok(HttpMethod::Put)
    } else if same(u, "DELETE") {
        Ok(HttpMethod::Delete)
    } else if same(u, "PATCH") {
        Ok(HttpMethod::Patch)
    } else if same(u, "HEAD") {
        Ok(HttpMethod::Head)
    } else if same(u, "OPTIONS") {
        Ok(HttpMethod::Options)
    } else {
        let reason = cat3("unknown HTTP method `", u, "`");
        Err(invalid("method", reason.as_str()))
    }
}

/// `query <key>=<value>`, where `*` stands for any value.
pub open spec fn query(d: DirectiveV) -> Result<MatcherV, ErrorV> {
    if d.args.len() != 1 {
        Err(ErrorV::ArgumentCount("query"@, 1, d.args.len() as usize))
    } else if d.args[0].len() == 0 {
        Err(
            ErrorV::UnsupportedFeature(
                "query"@,
                "the empty-query matcher (`query \"\"`) is not implemented yet"@,
            ),
        )
    } else {
        match d.args[0].index_of_first('=') {
            None => Err(
                ErrorV::InvalidArgument(
                    "query"@,
                    "expected `key=value`, got `"@ + d.args[0] + "`"@,
                ),
            ),
            Some(i) => {
                let value = d.args[0].skip(i + 1);
                Ok(
                    MatcherV::Query(
                        QueryMatcherV {
                            name: d.args[0].take(i),
                            condition: if value == "*"@ {
                                HeaderConditionV::Exists
                            } else {
                                HeaderConditionV::Equals(value)
                            },
                        },
                    ),
                )
            },
        }
    }
}

fn read_query(d: &Directive) -> (r: Result<Matcher, AdapterError>)
    ensures
        error::outcome(r) == query(d.deep_view()),
{
    if d.args.len() != 1 {
        return Err(miscount("query", 1, d.args.len()));
    }
    let spec_text = d.args[0].as_str();
    if spec_text.unicode_len() == 0 {
        return Err(
            unsupported(
                "query",
                "the empty-query matcher (`query \"\"`) is not implemented yet",
            ),
        );
    }
    match text::find(spec_text, '=') {
        None => {
            let reason = cat3("expected `key=value`, got `", spec_text, "`");
            Err(invalid("query", reason.as_str()))
        },
        Some(i) => {
            let n: usize = spec_text.unicode_len();
            let value = after(spec_text, i + 1);
            let condition = if same(value, "*") {
                HeaderCondition::Exists
            } else {
                HeaderCondition::Equals(value.to_owned())
            };
            Ok(
                Matcher::Query(
                    QueryMatcher { name: before(spec_text, i).to_owned(), condition },
                ),
            )
        },
    }
}

/// The first text that holds a slash decides.
pub open spec fn versioned(list: Seq<Seq<char>>) -> bool {
    exists|i: int| 0 <= i < list.len() && (#[trigger] list[i]).contains('/')
}

fn is_versioned(list: &Vec<String>) -> (r: bool)
    ensures
        r == versioned(list.deep_view()),
{
    let ghost all = list.deep_view();
    let mut i: usize = 0;
    while i < list.len()
        invariant
            i <= list.len(),
            all == list.deep_view(),
            forall|j: int| 0 <= j < i ==> !(#[trigger] all[j]).contains('/'),
        decreases list.len() - i,
    {
        assert(all[i as int] == list@[i as int]@);
        if holds(list[i].as_str(), '/') {
            return true;
        }
        i += 1;
    }
    false
}

/// The condition that a value with optional wildcards at its ends states.
pub open spec fn header_condition(value: Seq<char>) -> HeaderConditionV {
    if value == "*"@ {
        HeaderConditionV::Exists
    } else if text::starts_char(value, '*') && text::ends_char(value, '*') && value.len() >= 2 {
        HeaderConditionV::Contains(value.subrange(1, value.len() - 1))
    } else if text::starts_char(value, '*') {
        HeaderConditionV::EndsWith(value.skip(1))
    } else if text::ends_char(value, '*') {
        HeaderConditionV::StartsWith(value.take(value.len() - 1))
    } else {
        HeaderConditionV::Equals(value)
    }
}

fn read_header_condition(value: &str) -> (r: HeaderCondition)
    ensures
        r.deep_view() == header_condition(value@),
{
    let n: usize = value.unicode_len();
    if same(value, "*") {
        HeaderCondition::Exists
    } else if begins_with(value, '*') && finishes_with(value, '*') && n >= 2 {
        let inner = after(before(value, n - 1), 1);
        assert(inner@ =~= value@.subrange(1, value@.len() - 1));
        HeaderCondition::Contains(inner.to_owned())
    } else if begins_with(value, '*') {
        HeaderCondition::EndsWith(after(value, 1).to_owned())
    } else if finishes_with(value, '*') {
        HeaderCondition::StartsWith(before(value, n - 1).to_owned())
    } else {
        HeaderCondition::Equals(value.to_owned())
    }
}

/// `header <field> [<value>]`; a `!` before the field means that it must not exist.
pub open spec fn header(d: DirectiveV) -> Result<MatcherV, ErrorV> {
    if d.args.len() == 0 {
        Err(ErrorV::ArgumentCount("header"@, 1, 0))
    } else if d.args.len() > 2 {
        Err(ErrorV::ArgumentCount("header"@, 2, d.args.len() as usize))
    } else {
        let negated = text::starts_char(d.args[0], '!');
        let field = MatcherV::Header(
            HeaderMatcherV {
                name: if negated {
                    d.args[0].skip(1)
                } else {
                    d.args[0]
                },
                condition: if d.args.len() == 2 {
                    header_condition(d.args[1])
                } else {
                    HeaderConditionV::Exists
                },
            },
        );
        Ok(
            if negated {
                MatcherV::Not(Box::new(field))
            } else {
                field
            },
        )
    }
}

fn read_header(d: &Directive) -> (r: Result<Matcher, AdapterError>)
    ensures
        error::outcome(r) == header(d.deep_view()),
{
    if d.args.len() == 0 {
        return Err(miscount("header", 1, 0));
    }
    if d.args.len() > 2 {
        return Err(miscount("header", 2, d.args.len()));
    }
    let raw = d.args[0].as_str();
    let negated = begins_with(raw, '!');
    let name = if negated {
        after(raw, 1)
    } else {
        raw
    };
    let condition = if d.args.len() == 2 {
        read_header_condition(d.args[1].as_str())
    } else {
        HeaderCondition::Exists
    };
    let found = HeaderMatcher { name: name.to_owned(), condition };
    let field = Matcher::Header(found);
    assert(field.deep_view() == MatcherV::Header(found.deep_view()));
    if negated {
        Ok(Matcher::Not(Box::new(field)))
    } else {
        Ok(field)
    }
}

/// What the `regex` crate says is wrong with a pattern, on a machine with words of `bits` bits;
/// `None` if it compiles.
pub uninterp spec fn regex_problem(pattern: Seq<char>, bits: u32) -> Option<Seq<char>>;

/// `regex::Regex::new` and the text of its error: a function of the pattern and of the width of a
/// machine word, on which depends how large a compiled pattern is and so whether it exceeds the
/// limit of the crate. Which patterns compile, and what the text says, is left open.
#[verifier::external_body]
fn find_regex_problem(pattern: &str) -> (r: Option<String>)
    ensures
        r.deep_view() == regex_problem(pattern@, usize::BITS),
{
    match regex::Regex::new(pattern) {
        Ok(_) => None,
        Err(error) => Some(error.to_string()),
    }
}

/// A field matched against a regular expression; `problem` is what is wrong with the pattern.
pub open spec fn field_pattern(
    field: Seq<char>,
    pattern: Seq<char>,
    problem: Option<Seq<char>>,
) -> Result<MatcherV, ErrorV> {
    match problem {
        Some(why) => Err(
            ErrorV::InvalidArgument(
                "header_regexp"@,
                "`"@ + pattern + "` is not a valid regular expression: "@ + why,
            ),
        ),
        None => Ok(
            MatcherV::Header(
                HeaderMatcherV { name: field, condition: HeaderConditionV::Regex(pattern) },
            ),
        ),
    }
}

/// Makes a matcher of a field and a pattern, or refuses the pattern for its `problem`.
pub fn match_field_pattern(field: &str, pattern: &str, problem: Option<String>) -> (r: Result<
    Matcher,
    AdapterError,
>)
    ensures
        error::outcome(r) == field_pattern(field@, pattern@, problem.deep_view()),
{
    match problem {
        Some(why) => {
            let reason = cat4(
                "`",
                pattern,
                "` is not a valid regular expression: ",
                why.as_str(),
            );
            Err(invalid("header_regexp", reason.as_str()))
        },
        None => Ok(
            Matcher::Header(
                HeaderMatcher {
                    name: field.to_owned(),
                    condition: HeaderCondition::Regex(pattern.to_owned()),
                },
            ),
        ),
    }
}

/// `header_regexp <field> <pattern>`; the form that names capture groups is refused.
pub open spec fn header_regexp(d: DirectiveV) -> Result<MatcherV, ErrorV> {
    if d.args.len() == 2 {
        field_pattern(d.args[0], d.args[1], regex_problem(d.args[1], usize::BITS))
    } else if d.args.len() == 3 {
        Err(
            ErrorV::UnsupportedFeature(
                "header_regexp with a capture-group name"@,
                "the name exists to read capture groups back as placeholders, which Pingclair does not support; drop it to match without capturing"@,
            ),
        )
    } else {
        Err(ErrorV::ArgumentCount("header_regexp"@, 2, d.args.len() as usize))
    }
}

fn read_header_regexp(d: &Directive) -> (r: Result<Matcher, AdapterError>)
    ensures
        error::outcome(r) == header_regexp(d.deep_view()),
{
    if d.args.len() == 3 {
        return Err(
            unsupported(
                "header_regexp with a capture-group name",
                "the name exists to read capture groups back as placeholders, which Pingclair does not support; drop it to match without capturing",
            ),
        );
    }
    if d.args.len() != 2 {
        return Err(miscount("header_regexp", 2, d.args.len()));
    }
    let pattern = d.args[1].as_str();
    let problem = find_regex_problem(pattern);
    match_field_pattern(d.args[0].as_str(), pattern, problem)
}

/// A matcher that the format defines and that is refused by name.
pub open spec fn refused_matcher(name: Seq<char>) -> bool {
    name == "expression"@ || name == "path_regexp"@ || name == "url_pattern"@ || name == "vars"@
        || name == "vars_regexp"@ || name == "tls"@
}

/// Whether the format defines a matcher of this name that is not implemented.
pub fn is_known_matcher(name: &str) -> (r: bool)
    ensures
        r == refused_matcher(name@),
{
    same(name, "expression") || same(name, "path_regexp") || same(name, "url_pattern") || same(
        name,
        "vars",
    ) || same(name, "vars_regexp") || same(name, "tls")
}

/// A condition that holds no other.
pub open spec fn plain_condition(profile: Profile, d: DirectiveV) -> Result<MatcherV, ErrorV> {
    if d.name == "path"@ {
        Ok(MatcherV::Path(PathMatcherV { patterns: d.args }))
    } else if d.name == "method"@ {
        error::with(
            fold::each(|word: Seq<char>| method(word), d.args),
            |list: Seq<HttpMethod>| MatcherV::Method(list),
        )
    } else if d.name == "host"@ {
        if d.args.len() == 0 {
            Err(ErrorV::ArgumentCount("host"@, 1, 0))
        } else {
            Ok(MatcherV::Host(d.args))
        }
    } else if d.name == "query"@ {
        query(d)
    } else if d.name == "protocol"@ {
        if d.args.len() == 0 {
            Err(ErrorV::ArgumentCount("protocol"@, 1, 0))
        } else if versioned(d.args) {
            Err(
                ErrorV::UnsupportedFeature(
                    "protocol"@,
                    "versioned protocol matchers (http/2+, grpc) are not implemented yet"@,
                ),
            )
        } else {
            Ok(MatcherV::Protocol(d.args))
        }
    } else if d.name == "remote_ip"@ || d.name == "client_ip"@ {
        if d.args.len() == 0 {
            Err(ErrorV::ArgumentCount(d.name, 1, 0))
        } else {
            Ok(MatcherV::RemoteIp(d.args))
        }
    } else if d.name == "header"@ {
        header(d)
    } else if profile == Profile::Extended && d.name == "header_regexp"@ {
        header_regexp(d)
    } else if profile == Profile::Extended && refused_matcher(d.name) {
        Err(
            ErrorV::UnsupportedFeature(
                d.name + " matcher"@,
                "Pingclair does not implement this matcher yet"@,
            ),
        )
    } else {
        Err(ErrorV::UnknownDirective("matcher: "@ + d.name))
    }
}

fn read_plain_condition(profile: Profile, d: &Directive) -> (r: Result<Matcher, AdapterError>)
    ensures
        error::outcome(r) == plain_condition(profile, d.deep_view()),
{
    let name = d.name.as_str();
    if same(name, "path") {
        return Ok(Matcher::Path(PathMatcher { patterns: d.args.duplicate() }));
    }
    if same(name, "method") {
        let list = each_text(read_method, &d.args, Ghost(|word: Seq<char>| method(word)))?;
        return Ok(Matcher::Method(list));
    }
    if same(name, "host") {
        if d.args.len() == 0 {
            return Err(miscount("host", 1, 0));
        }
        return Ok(Matcher::Host(d.args.duplicate()));
    }
    if same(name, "query") {
        return read_query(d);
    }
    if same(name, "protocol") {
        if d.args.len() == 0 {
            return Err(miscount("protocol", 1, 0));
        }
        if is_versioned(&d.args) {
            return Err(
                unsupported(
                    "protocol",
                    "versioned protocol matchers (http/2+, grpc) are not implemented yet",
                ),
            );
        }
        return Ok(Matcher::Protocol(d.args.duplicate()));
    }
    if same(name, "remote_ip") || same(name, "client_ip") {
        if d.args.len() == 0 {
            return Err(miscount(name, 1, 0));
        }
        return Ok(Matcher::RemoteIp(d.args.duplicate()));
    }
    if same(name, "header") {
        return read_header(d);
    }
    if profile == Profile::Extended {
        if same(name, "header_regexp") {
            return read_header_regexp(d);
        }
        if is_known_matcher(name) {
            let feature = text::cat(name, " matcher");
            return Err(
                unsupported(feature.as_str(), "Pingclair does not implement this matcher yet"),
            );
        }
    }
    Err(unknown_in("matcher: ", name))
}

// ---------------------------------------------------------------------------
// Nested conditions
// ---------------------------------------------------------------------------
/// All of `list`, which must not be empty.
pub open spec fn conjunction(list: Seq<MatcherV>) -> MatcherV
    decreases list.len(),
{
    if list.len() <= 1 {
        list[0]
    } else {
        MatcherV::And(Box::new(conjunction(list.drop_last())), Box::new(list.last()))
    }
}

/// Any of `list`, which must not be empty.
pub open spec fn disjunction(list: Seq<MatcherV>) -> MatcherV
    decreases list.len(),
{
    if list.len() <= 1 {
        list[0]
    } else {
        MatcherV::Or(Box::new(disjunction(list.drop_last())), Box::new(list.last()))
    }
}

/// Combines all of `list`.
pub fn conjoin(list: &Vec<Matcher>) -> (r: Matcher)
    requires
        list.len() > 0,
    ensures
        r.deep_view() == conjunction(list.deep_view()),
{
    let ghost all = list.deep_view();
    let mut out = copy_matcher(&list[0]);
    let mut i: usize = 1;
    assert(all.take(1)[0] == list@[0].deep_view());
    while i < list.len()
        invariant
            1 <= i <= list.len(),
            all == list.deep_view(),
            out.deep_view() == conjunction(all.take(i as int)),
        decreases list.len() - i,
    {
        assert(all.take(i + 1).drop_last() =~= all.take(i as int));
        assert(all.take(i + 1).last() == list@[i as int].deep_view());
        out = Matcher::And(Box::new(out), Box::new(copy_matcher(&list[i])));
        i += 1;
    }
    assert(all.take(i as int) =~= all);
    out
}

/// Combines any of `list`.
pub fn disjoin(list: &Vec<Matcher>) -> (r: Matcher)
    requires
        list.len() > 0,
    ensures
        r.deep_view() == disjunction(list.deep_view()),
{
    let ghost all = list.deep_view();
    let mut out = copy_matcher(&list[0]);
    let mut i: usize = 1;
    assert(all.take(1)[0] == list@[0].deep_view());
    while i < list.len()
        invariant
            1 <= i <= list.len(),
            all == list.deep_view(),
            out.deep_view() == disjunction(all.take(i as int)),
        decreases list.len() - i,
    {
        assert(all.take(i + 1).drop_last() =~= all.take(i as int));
        assert(all.take(i + 1).last() == list@[i as int].deep_view());
        out = Matcher::Or(Box::new(out), Box::new(copy_matcher(&list[i])));
        i += 1;
    }
    assert(all.take(i as int) =~= all);
    out
}

/// How many levels of conditions can follow below `depth`.
pub open spec fn levels_left(depth: int) -> int {
    if depth <= MAX_MATCHER_NESTING {
        MAX_MATCHER_NESTING + 1 - depth
    } else {
        0
    }
}

/// The condition that one directive states, `depth` levels below the definition.
pub open spec fn condition(profile: Profile, d: DirectiveV, depth: int) -> Result<MatcherV, ErrorV>
    decreases MAX_MATCHER_NESTING + 1 - depth, 0int,
{
    if depth > MAX_MATCHER_NESTING {
        Err(
            ErrorV::InvalidArgument(
                d.name,
                "matcher nesting exceeds the maximum depth of "@ + text::shown(
                    MAX_MATCHER_NESTING as nat,
                ),
            ),
        )
    } else if d.name == "not"@ {
        match d.block {
            Some(lines) => match conditions(profile, lines, depth + 1) {
                Err(e) => Err(e),
                Ok(list) => if list.len() == 0 {
                    Err(ErrorV::InvalidArgument("not"@, "empty matcher block"@))
                } else {
                    Ok(MatcherV::Not(Box::new(conjunction(list))))
                },
            },
            None => if d.args.len() == 0 {
                Err(ErrorV::ArgumentCount("not"@, 1, 0))
            } else {
                error::with(
                    condition(
                        profile,
                        DirectiveV { name: d.args[0], args: d.args.skip(1), block: None },
                        depth + 1,
                    ),
                    |inner: MatcherV| MatcherV::Not(Box::new(inner)),
                )
            },
        }
    } else {
        plain_condition(profile, d)
    }
}

/// The conditions that directives state, in order; the first that is refused decides.
pub open spec fn conditions(profile: Profile, lines: Seq<DirectiveV>, depth: int) -> Result<
    Seq<MatcherV>,
    ErrorV,
>
    decreases MAX_MATCHER_NESTING + 1 - depth, 1 + lines.len(),
{
    if lines.len() == 0 {
        Ok(Seq::empty())
    } else {
        match conditions(profile, lines.drop_last(), depth) {
            Err(e) => Err(e),
            Ok(front) => match condition(profile, lines.last(), depth) {
                Err(e) => Err(e),
                Ok(m) => Ok(front.push(m)),
            },
        }
    }
}

proof fn lemma_conditions_fail(profile: Profile, lines: Seq<DirectiveV>, depth: int, n: int)
    requires
        0 <= n <= lines.len(),
        conditions(profile, lines.take(n), depth) is Err,
    ensures
        conditions(profile, lines, depth) == conditions(profile, lines.take(n), depth),
    decreases lines.len() - n,
{
    if n == lines.len() {
        assert(lines.take(n) =~= lines);
    } else {
        assert(lines.take(n + 1).drop_last() =~= lines.take(n));
        lemma_conditions_fail(profile, lines, depth, n + 1);
    }
}

/// Reads the condition that one directive states, `depth` levels below the definition.
pub fn parse_single_matcher_at(profile: Profile, d: &Directive, depth: usize) -> (r: Result<
    Matcher,
    AdapterError,
>)
    ensures
        error::outcome(r) == condition(profile, d.deep_view(), depth as int),
    decreases levels_left(depth as int), 0int,
{
    if depth > MAX_MATCHER_NESTING {
        let most = show(MAX_MATCHER_NESTING as u64);
        let reason = text::cat("matcher nesting exceeds the maximum depth of ", most.as_str());
        return Err(invalid(d.name.as_str(), reason.as_str()));
    }
    if !same(d.name.as_str(), "not") {
        return read_plain_condition(profile, d);
    }
    match &d.block {
        Some(block) => {
            let list = parse_matchers(profile, &block.directives, depth + 1)?;
            if list.len() == 0 {
                return Err(invalid("not", "empty matcher block"));
            }
            Ok(Matcher::Not(Box::new(conjoin(&list))))
        },
        None => {
            if d.args.len() == 0 {
                return Err(miscount("not", 1, 0));
            }
            let nested = Directive {
                name: d.args[0].clone(),
                args: args_from(&d.args, 1),
                block: None,
            };
            let inner = parse_single_matcher_at(profile, &nested, depth + 1)?;
            Ok(Matcher::Not(Box::new(inner)))
        },
    }
}

/// Reads the conditions that directives state.
pub fn parse_matchers(profile: Profile, lines: &Vec<Directive>, depth: usize) -> (r: Result<
    Vec<Matcher>,
    AdapterError,
>)
    ensures
        error::outcome(r) == conditions(
            profile,
            syntax::directives_view(lines@),
            depth as int,
        ),
    decreases levels_left(depth as int), 1int,
{
    let ghost all = syntax::directives_view(lines@);
    let mut out: Vec<Matcher> = Vec::new();
    let mut i: usize = 0;
    assert(out.deep_view() =~= Seq::<MatcherV>::empty());
    assert(all.take(0).len() == 0);
    while i < lines.len()
        invariant
            i <= lines.len(),
            all == syntax::directives_view(lines@),
            conditions(profile, all.take(i as int), depth as int) == Ok::<
                Seq<MatcherV>,
                ErrorV,
            >(out.deep_view()),
        decreases lines.len() - i,
    {
        assert(all.take(i + 1).drop_last() =~= all.take(i as int));
        assert(all.take(i + 1).last() == lines@[i as int].deep_view());
        match parse_single_matcher_at(profile, &lines[i], depth) {
            Err(e) => {
                proof {
                    lemma_conditions_fail(profile, all, depth as int, i + 1);
                }
                return Err(e);
            },
            Ok(m) => {
                let ghost held = out.deep_view();
                out.push(m);
                assert(out.deep_view() =~= held.push(m.deep_view()));
            },
        }
        i += 1;
    }
    assert(all.take(i as int) =~= all);
    Ok(out)
}

} // verus!
