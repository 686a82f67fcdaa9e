//! Retry conditions: a boolean combination of tests on the response and on the request.
//!
//! ```text
//! expression := or
//! or         := and ( "||" and )*
//! and        := primary ( "&&" primary )*
//! primary    := "(" expression ")" | test
//! test       := "{rp.status_code}" ( "==" int | ">=" int | "in" "[" int,* "]" )
//!             | "{rp.is_transport_error}"
//!             | "{rp.header." name "}" "==" string
//!             | func "(" args ")"
//! ```
//!
//! Everything else is refused: a retry rule that silently does nothing means duplicate writes.

use crate::text;
use crate::text::{
    after, before, begins_with, cat3, cat5, chars_of, count_leading, find, is_digit, is_white,
    parse_u16, same, show, strip, to_lower, trim, trim_both, upper_each,
};
use vstd::prelude::*;

verus! {

/// How deeply parentheses may nest.
pub const MAX_RETRY_PREDICATE_DEPTH: usize = 32;

// ---------------------------------------------------------------------------
// Conditions
// ---------------------------------------------------------------------------
/// When a request is tried again.
#[allow(inconsistent_fields)]
#[derive(Debug, PartialEq, Eq)]
pub enum RetryPredicate {
    /// Any of these holds.
    Any { of: Vec<RetryPredicate> },
    /// All of these hold.
    All { of: Vec<RetryPredicate> },
    TransportError,
    /// A response header has this value.
    ResponseHeader { name: String, value: String },
    /// The status is one of these.
    Status { any_of: Vec<u16> },
    StatusAtLeast { code: u16 },
    Method { any_of: Vec<String> },
    Path { any_of: Vec<String> },
    Host { any_of: Vec<String> },
    PathRegexp { pattern: String },
    Protocol { name: String },
    /// A request header matches this pattern.
    HeaderRegexp { name: String, pattern: String },
    /// A request header has one of these values.
    RequestHeader { name: String, any_of: Vec<String> },
    /// A query key has one of these values.
    Query { key: String, any_of: Vec<String> },
}

/// The mathematical value of a [`RetryPredicate`].
#[verifier::ext_equal]
pub enum PredicateV {
    Any(Seq<PredicateV>),
    All(Seq<PredicateV>),
    TransportError,
    ResponseHeader(Seq<char>, Seq<char>),
    Status(Seq<u16>),
    StatusAtLeast(u16),
    Method(Seq<Seq<char>>),
    Path(Seq<Seq<char>>),
    Host(Seq<Seq<char>>),
    PathRegexp(Seq<char>),
    Protocol(Seq<char>),
    HeaderRegexp(Seq<char>, Seq<char>),
    RequestHeader(Seq<char>, Seq<Seq<char>>),
    Query(Seq<char>, Seq<Seq<char>>),
}

/// The mathematical value of a condition.
pub open spec fn predicate_view(p: RetryPredicate) -> PredicateV
    decreases p,
{
    match p {
        RetryPredicate::Any { of } => PredicateV::Any(predicates_view(of@)),
        RetryPredicate::All { of } => PredicateV::All(predicates_view(of@)),
        RetryPredicate::TransportError => PredicateV::TransportError,
        RetryPredicate::ResponseHeader { name, value } => PredicateV::ResponseHeader(
            name@,
            value@,
        ),
        RetryPredicate::Status { any_of } => PredicateV::Status(any_of@),
        RetryPredicate::StatusAtLeast { code } => PredicateV::StatusAtLeast(code),
        RetryPredicate::Method { any_of } => PredicateV::Method(any_of.deep_view()),
        RetryPredicate::Path { any_of } => PredicateV::Path(any_of.deep_view()),
        RetryPredicate::Host { any_of } => PredicateV::Host(any_of.deep_view()),
        RetryPredicate::PathRegexp { pattern } => PredicateV::PathRegexp(pattern@),
        RetryPredicate::Protocol { name } => PredicateV::Protocol(name@),
        RetryPredicate::HeaderRegexp { name, pattern } => PredicateV::HeaderRegexp(
            name@,
            pattern@,
        ),
        RetryPredicate::RequestHeader { name, any_of } => PredicateV::RequestHeader(
            name@,
            any_of.deep_view(),
        ),
        RetryPredicate::Query { key, any_of } => PredicateV::Query(key@, any_of.deep_view()),
    }
}

/// The mathematical value of a list of conditions.
pub open spec fn predicates_view(s: Seq<RetryPredicate>) -> Seq<PredicateV>
    decreases s,
{
    Seq::new(
        s.len(),
        |i: int|
            if 0 <= i < s.len() {
                predicate_view(s[i])
            } else {
                arbitrary()
            },
    )
}

impl DeepView for RetryPredicate {
    type V = PredicateV;

    open spec fn deep_view(&self) -> PredicateV {
        predicate_view(*self)
    }
}

/// Why an expression is no condition.
#[derive(Debug, PartialEq, Eq)]
pub struct RetryExprError {
    pub message: String,
}

fn refuse(message: String) -> (r: RetryExprError)
    ensures
        r.message@ == message@,
{
    RetryExprError { message }
}

// ---------------------------------------------------------------------------
// Reading
// ---------------------------------------------------------------------------
/// What reading a piece of text comes to.
pub enum Read<T> {
    /// A value, and the text after it.
    Done(T, Seq<char>),
    /// The text is no such thing, for this reason.
    Refused(Seq<char>),
}

/// Why white space beyond ASCII is refused.
pub open spec fn foreign_space() -> Seq<char> {
    "white space beyond ASCII cannot stand between the parts of a condition"@
}

/// The text goes on with white space that is not ASCII, where none can be skipped.
pub open spec fn foreign<T>() -> Read<T> {
    Read::Refused(foreign_space())
}

/// Whether a result of reading is what was read.
pub open spec fn reads<T: DeepView>(r: Result<(T, &str), RetryExprError>, v: Read<T::V>) -> bool {
    match r {
        Ok((t, rest)) => v == Read::Done(t.deep_view(), rest@),
        Err(e) => v == Read::<T::V>::Refused(e.message@),
    }
}

/// `s` without leading ASCII white space; nothing where white space beyond ASCII leads.
pub open spec fn skipped(s: Seq<char>) -> Option<Seq<char>>
    decreases s.len(),
{
    if s.len() > 0 && text::white(s[0]) {
        if s[0] <= '\u{7f}' {
            skipped(s.skip(1))
        } else {
            None
        }
    } else {
        Some(s)
    }
}

/// Skipping leaves no more than there was.
pub proof fn lemma_skipped(s: Seq<char>)
    ensures
        match skipped(s) {
            Some(t) => t.len() <= s.len(),
            None => true,
        },
    decreases s.len(),
{
    if s.len() > 0 && text::white(s[0]) {
        lemma_skipped(s.skip(1));
    }
}

fn skip_space<'a>(s: &'a str) -> (r: Result<&'a str, RetryExprError>)
    ensures
        match r {
            Ok(t) => skipped(s@) == Some(t@) && t@.len() <= s@.len(),
            Err(e) => skipped(s@) is None && e.message@ == foreign_space(),
        },
{
    let x = chars_of(s);
    let mut i: usize = 0;
    assert(s@.skip(0) =~= s@);
    while i < x.len() && is_white(x[i])
        invariant
            i <= x.len(),
            x@ == s@,
            skipped(s@) == skipped(s@.skip(i as int)),
        decreases x.len() - i,
    {
        assert(s@.skip(i as int)[0] == x@[i as int]);
        assert(s@.skip(i as int).skip(1) =~= s@.skip(i + 1));
        if x[i] > '\u{7f}' {
            return Err(
                refuse(
                    "white space beyond ASCII cannot stand between the parts of a condition".to_owned(),
                ),
            );
        }
        i += 1;
    }
    assert(i < x@.len() ==> s@.skip(i as int)[0] == x@[i as int]);
    Ok(after(s, i))
}

/// Whether `s` goes on with `c`, and what is left.
pub open spec fn eaten(s: Seq<char>, c: char) -> Option<(bool, Seq<char>)> {
    match skipped(s) {
        None => None,
        Some(t) => if t.len() > 0 && t[0] == c {
            Some((true, t.skip(1)))
        } else {
            Some((false, t))
        },
    }
}

/// Whether `s` goes on with `a` and `b`, and what is left.
pub open spec fn eaten_pair(s: Seq<char>, a: char, b: char) -> Option<(bool, Seq<char>)> {
    match skipped(s) {
        None => None,
        Some(t) => if t.len() > 1 && t[0] == a && t[1] == b {
            Some((true, t.skip(2)))
        } else {
            Some((false, t))
        },
    }
}

fn eat<'a>(s: &'a str, c: char) -> (r: Result<(bool, &'a str), RetryExprError>)
    ensures
        match r {
            Ok((found, t)) => eaten(s@, c) == Some((found, t@)) && t@.len() <= s@.len() && (found
                ==> t@.len() < s@.len()),
            Err(e) => eaten(s@, c) is None && e.message@ == foreign_space(),
        },
{
    let t = skip_space(s)?;
    let x = chars_of(t);
    if x.len() > 0 && x[0] == c {
        Ok((true, after(t, 1)))
    } else {
        Ok((false, t))
    }
}

fn eat_pair<'a>(s: &'a str, a: char, b: char) -> (r: Result<(bool, &'a str), RetryExprError>)
    ensures
        match r {
            Ok((found, t)) => eaten_pair(s@, a, b) == Some((found, t@)) && t@.len() <= s@.len() && (found
                ==> t@.len() < s@.len()),
            Err(e) => eaten_pair(s@, a, b) is None && e.message@ == foreign_space(),
        },
{
    let t = skip_space(s)?;
    let x = chars_of(t);
    if x.len() > 1 && x[0] == a && x[1] == b {
        Ok((true, after(t, 2)))
    } else {
        Ok((false, t))
    }
}

// ---------------------------------------------------------------------------
// Values
// ---------------------------------------------------------------------------
/// A status code.
pub open spec fn status(s: Seq<char>) -> Read<u16> {
    match skipped(s) {
        None => foreign(),
        Some(t) => {
            let digits = text::leading(t, |c: char| text::digit(c));
            if digits.len() == 0 {
                Read::Refused("expected a status code"@)
            } else {
                match text::as_u16(digits) {
                    None => Read::Refused("`"@ + digits + "` is not a status code"@),
                    Some(code) => if 100 <= code <= 599 {
                        Read::Done(code, text::trim_left(t, |c: char| text::digit(c)))
                    } else {
                        Read::Refused(
                            "`"@ + text::shown(code as nat)
                                + "` is not a status code between 100 and 599"@,
                        )
                    },
                }
            }
        },
    }
}

fn parse_status<'a>(s: &'a str) -> (r: Result<(u16, &'a str), RetryExprError>)
    ensures
        reads(r, status(s@)),
        match r {
            Ok((_, rest)) => rest@.len() < s@.len(),
            Err(_) => true,
        },
{
    let t = skip_space(s)?;
    let n: usize = count_leading(t, is_digit, Ghost(|c: char| text::digit(c)));
    if n == 0 {
        return Err(refuse("expected a status code".to_owned()));
    }
    let digits = before(t, n);
    match parse_u16(digits) {
        None => Err(refuse(cat3("`", digits, "` is not a status code"))),
        Some(code) => {
            if 100 <= code && code <= 599 {
                return Ok((code, after(t, n)));
            }
            let shown = show(code as u64);
            Err(
                refuse(
                    cat3("`", shown.as_str(), "` is not a status code between 100 and 599"),
                ),
            )
        },
    }
}

/// A literal between single or double quotation marks, without escapes.
pub open spec fn literal(s: Seq<char>) -> Read<Seq<char>> {
    match skipped(s) {
        None => foreign(),
        Some(t) => if t.len() == 0 || (t[0] != '\'' && t[0] != '"') {
            Read::Refused("expected a quoted value"@)
        } else {
            match t.skip(1).index_of_first(t[0]) {
                None => Read::Refused("a quoted value is never closed"@),
                Some(end) => Read::Done(t.skip(1).take(end), t.skip(end + 2)),
            }
        },
    }
}

fn parse_string<'a>(s: &'a str) -> (r: Result<(String, &'a str), RetryExprError>)
    ensures
        reads(r, literal(s@)),
        match r {
            Ok((_, rest)) => rest@.len() < s@.len(),
            Err(_) => true,
        },
{
    let t = skip_space(s)?;
    let x = chars_of(t);
    if x.len() == 0 || (x[0] != '\'' && x[0] != '"') {
        return Err(refuse("expected a quoted value".to_owned()));
    }
    let body = after(t, 1);
    match find(body, x[0]) {
        None => Err(refuse("a quoted value is never closed".to_owned())),
        Some(end) => {
            let value = before(body, end).to_owned();
            let m: usize = body.unicode_len();
            let rest = after(body, end + 1);
            assert(rest@ =~= t@.skip(end + 2));
            Ok((value, rest))
        },
    }
}

/// Literals with commas between them, after those of `held`.
pub open spec fn more_literals(held: Seq<Seq<char>>, s: Seq<char>) -> Read<Seq<Seq<char>>>
    decreases s.len(),
{
    match eaten(s, ',') {
        None => foreign(),
        Some((false, t)) => Read::Done(held, t),
        Some((true, t)) => match literal(t) {
            Read::Refused(why) => Read::Refused(why),
            Read::Done(value, rest) => if rest.len() < s.len() {
                more_literals(held.push(value), rest)
            } else {
                foreign()
            },
        },
    }
}

/// One literal or more, with commas between them.
pub open spec fn literals(s: Seq<char>) -> Read<Seq<Seq<char>>> {
    match literal(s) {
        Read::Refused(why) => Read::Refused(why),
        Read::Done(value, rest) => more_literals(seq![value], rest),
    }
}

fn parse_string_list<'a>(s: &'a str) -> (r: Result<(Vec<String>, &'a str), RetryExprError>)
    ensures
        reads(r, literals(s@)),
        match r {
            Ok((_, rest)) => rest@.len() < s@.len(),
            Err(_) => true,
        },
{
    let (first, rest) = parse_string(s)?;
    let mut out: Vec<String> = vec![first];
    assert(out.deep_view() =~= seq![first@]);
    let mut now = rest;
    loop
        invariant
            now@.len() < s@.len(),
            literals(s@) == more_literals(out.deep_view(), now@),
        decreases now@.len(),
    {
        let (comma, t) = eat(now, ',')?;
        if !comma {
            return Ok((out, t));
        }
        let (value, rest) = parse_string(t)?;
        let ghost held = out.deep_view();
        out.push(value);
        assert(out.deep_view() =~= held.push(value@));
        now = rest;
    }
}

/// `{'name': 'value'}`: one entry, with one value.
pub open spec fn entry(s: Seq<char>, function: Seq<char>) -> Read<(Seq<char>, Seq<char>)> {
    match eaten(s, '{') {
        None => foreign(),
        Some((false, _)) => Read::Refused(
            "`"@ + function + "` takes a map, as in `"@ + function + "({'Name': 'value'})`"@,
        ),
        Some((true, t)) => match literal(t) {
            Read::Refused(why) => Read::Refused(why),
            Read::Done(key, t) => match eaten(t, ':') {
                None => foreign(),
                Some((false, _)) => Read::Refused(
                    "`"@ + function + "` needs a value for `"@ + key + "`"@,
                ),
                Some((true, t)) => match literal(t) {
                    Read::Refused(why) => Read::Refused(why),
                    Read::Done(value, t) => match eaten(t, ',') {
                        None => foreign(),
                        Some((true, _)) => Read::Refused(
                            "`"@ + function
                                + "` accepts one field here; write the second condition with `&&` so it is clear both must match"@,
                        ),
                        Some((false, t)) => match eaten(t, '}') {
                            None => foreign(),
                            Some((false, _)) => Read::Refused(
                                "`"@ + function + "(` is never closed"@,
                            ),
                            Some((true, t)) => Read::Done((key, value), t),
                        },
                    },
                },
            },
        },
    }
}

fn parse_map_entry<'a>(s: &'a str, function: &str) -> (r: Result<
    ((String, String), &'a str),
    RetryExprError,
>)
    ensures
        reads(r, entry(s@, function@)),
        match r {
            Ok((_, rest)) => rest@.len() < s@.len(),
            Err(_) => true,
        },
{
    let (open, t) = eat(s, '{')?;
    if !open {
        return Err(
            refuse(
                cat5(
                    "`",
                    function,
                    "` takes a map, as in `",
                    function,
                    "({'Name': 'value'})`",
                ),
            ),
        );
    }
    let (key, t) = parse_string(t)?;
    let (colon, t) = eat(t, ':')?;
    if !colon {
        return Err(
            refuse(cat5("`", function, "` needs a value for `", key.as_str(), "`")),
        );
    }
    let (value, t) = parse_string(t)?;
    let (comma, t) = eat(t, ',')?;
    if comma {
        return Err(
            refuse(
                cat3(
                    "`",
                    function,
                    "` accepts one field here; write the second condition with `&&` so it is clear both must match",
                ),
            ),
        );
    }
    let (close, t) = eat(t, '}')?;
    if !close {
        return Err(refuse(cat3("`", function, "(` is never closed")));
    }
    Ok(((key, value), t))
}

// ---------------------------------------------------------------------------
// Tests on the response
// ---------------------------------------------------------------------------
/// Status codes with commas between them, after those of `held`, up to the closing bracket.
pub open spec fn more_statuses(held: Seq<u16>, s: Seq<char>) -> Read<Seq<u16>>
    decreases s.len(),
{
    match status(s) {
        Read::Refused(why) => Read::Refused(why),
        Read::Done(code, t) => match eaten(t, ',') {
            None => foreign(),
            Some((true, rest)) => if rest.len() < s.len() {
                more_statuses(held.push(code), rest)
            } else {
                foreign()
            },
            Some((false, t)) => match eaten(t, ']') {
                None => foreign(),
                Some((true, rest)) => Read::Done(held.push(code), rest),
                Some((false, _)) => Read::Refused("a status list is never closed"@),
            },
        },
    }
}

fn parse_status_list<'a>(s: &'a str) -> (r: Result<(Vec<u16>, &'a str), RetryExprError>)
    ensures
        match r {
            Ok((list, rest)) => more_statuses(Seq::empty(), s@) == Read::Done(list@, rest@)
                && rest@.len() < s@.len(),
            Err(e) => more_statuses(Seq::empty(), s@) == Read::<Seq<u16>>::Refused(e.message@),
        },
{
    let mut out: Vec<u16> = Vec::new();
    let mut now = s;
    assert(out@ =~= Seq::<u16>::empty());
    loop
        invariant
            now@.len() <= s@.len(),
            more_statuses(Seq::empty(), s@) == more_statuses(out@, now@),
        decreases now@.len(),
    {
        let (code, t) = parse_status(now)?;
        out.push(code);
        let (comma, t) = eat(t, ',')?;
        if comma {
            now = t;
            continue;
        }
        let (close, t) = eat(t, ']')?;
        if close {
            return Ok((out, t));
        }
        return Err(refuse("a status list is never closed".to_owned()));
    }
}

/// What follows `{rp.status_code}`.
pub open spec fn status_test(s: Seq<char>) -> Read<PredicateV> {
    match eaten_pair(s, '=', '=') {
        None => foreign(),
        Some((true, t)) => match status(t) {
            Read::Refused(why) => Read::Refused(why),
            Read::Done(code, rest) => Read::Done(PredicateV::Status(seq![code]), rest),
        },
        Some((false, t)) => match eaten_pair(t, '>', '=') {
            None => foreign(),
            Some((true, t)) => match status(t) {
                Read::Refused(why) => Read::Refused(why),
                Read::Done(code, rest) => Read::Done(PredicateV::StatusAtLeast(code), rest),
            },
            Some((false, t)) => match eaten_pair(t, 'i', 'n') {
                None => foreign(),
                Some((false, _)) => Read::Refused(
                    "`{rp.status_code}` needs `==`, `>=` or `in [ … ]`"@,
                ),
                Some((true, t)) => match eaten(t, '[') {
                    None => foreign(),
                    Some((false, _)) => Read::Refused(
                        "`in` needs a list, as in `in [502, 503]`"@,
                    ),
                    Some((true, t)) => match more_statuses(Seq::empty(), t) {
                        Read::Refused(why) => Read::Refused(why),
                        Read::Done(list, rest) => Read::Done(PredicateV::Status(list), rest),
                    },
                },
            },
        },
    }
}

fn parse_status_test<'a>(s: &'a str) -> (r: Result<(RetryPredicate, &'a str), RetryExprError>)
    ensures
        reads(r, status_test(s@)),
        match r {
            Ok((_, rest)) => rest@.len() < s@.len(),
            Err(_) => true,
        },
{
    let (equal, t) = eat_pair(s, '=', '=')?;
    if equal {
        let (code, rest) = parse_status(t)?;
        let list: Vec<u16> = vec![code];
        assert(list@ =~= seq![code]);
        return Ok((RetryPredicate::Status { any_of: list }, rest));
    }
    let (least, t) = eat_pair(t, '>', '=')?;
    if least {
        let (code, rest) = parse_status(t)?;
        return Ok((RetryPredicate::StatusAtLeast { code }, rest));
    }
    let (member, t) = eat_pair(t, 'i', 'n')?;
    if !member {
        return Err(
            refuse("`{rp.status_code}` needs `==`, `>=` or `in [ … ]`".to_owned()),
        );
    }
    let (open, t) = eat(t, '[')?;
    if !open {
        return Err(refuse("`in` needs a list, as in `in [502, 503]`".to_owned()));
    }
    let (list, rest) = parse_status_list(t)?;
    Ok((RetryPredicate::Status { any_of: list }, rest))
}

/// The field of a placeholder, in its short or its long spelling.
pub open spec fn placeholder_field(name: Seq<char>) -> Option<Seq<char>> {
    match text::stripped(name, "rp."@) {
        Some(field) => Some(field),
        None => text::stripped(name, "http.reverse_proxy."@),
    }
}

/// A test that starts with a placeholder; `s` starts with the brace.
pub open spec fn placeholder_test(s: Seq<char>) -> Read<PredicateV> {
    match s.index_of_first('}') {
        None => Read::Refused("a `{` is never closed"@),
        Some(end) => {
            let name = s.subrange(1, end);
            let rest = s.skip(end + 1);
            match placeholder_field(name) {
                None => Read::Refused(
                    "`{"@ + name
                        + "}` is not a retry placeholder; only `{rp.…}` is available here"@,
                ),
                Some(field) => if field == "is_transport_error"@ {
                    Read::Done(PredicateV::TransportError, rest)
                } else {
                    match text::stripped(field, "header."@) {
                        Some(header) => match eaten_pair(rest, '=', '=') {
                            None => foreign(),
                            Some((false, _)) => Read::Refused(
                                "`{rp.header."@ + header + "}` needs `== \"value\"`"@,
                            ),
                            Some((true, t)) => match literal(t) {
                                Read::Refused(why) => Read::Refused(why),
                                Read::Done(value, rest) => Read::Done(
                                    PredicateV::ResponseHeader(header, value),
                                    rest,
                                ),
                            },
                        },
                        None => if field != "status_code"@ {
                            Read::Refused(
                                "`{rp."@ + field
                                    + "}` is not a retry placeholder; expected `status_code`, `is_transport_error` or `header.<name>`"@,
                            )
                        } else {
                            status_test(rest)
                        },
                    }
                },
            }
        },
    }
}

fn parse_placeholder_test<'a>(s: &'a str) -> (r: Result<(RetryPredicate, &'a str), RetryExprError>)
    requires
        s@.len() > 0,
        s@[0] == '{',
    ensures
        reads(r, placeholder_test(s@)),
        match r {
            Ok((_, rest)) => rest@.len() < s@.len(),
            Err(_) => true,
        },
{
    match find(s, '}') {
        None => Err(refuse("a `{` is never closed".to_owned())),
        Some(end) => {
            let n: usize = s.unicode_len();
            proof {
                s@.index_of_first_ensures('}');
            }
            assert(end > 0);
            let name = after(before(s, end), 1);
            assert(name@ =~= s@.subrange(1, end as int));
            let rest = after(s, end + 1);
            let field = match strip(name, "rp.") {
                Some(field) => field,
                None => match strip(name, "http.reverse_proxy.") {
                    Some(field) => field,
                    None => {
                        return Err(
                            refuse(
                                cat3(
                                    "`{",
                                    name,
                                    "}` is not a retry placeholder; only `{rp.…}` is available here",
                                ),
                            ),
                        );
                    },
                },
            };
            if same(field, "is_transport_error") {
                return Ok((RetryPredicate::TransportError, rest));
            }
            if let Some(header) = strip(field, "header.") {
                let (equal, t) = eat_pair(rest, '=', '=')?;
                if !equal {
                    return Err(
                        refuse(cat3("`{rp.header.", header, "}` needs `== \"value\"`")),
                    );
                }
                let (value, rest) = parse_string(t)?;
                return Ok((RetryPredicate::ResponseHeader { name: header.to_owned(), value }, rest));
            }
            if !same(field, "status_code") {
                return Err(
                    refuse(
                        cat3(
                            "`{rp.",
                            field,
                            "}` is not a retry placeholder; expected `status_code`, `is_transport_error` or `header.<name>`",
                        ),
                    ),
                );
            }
            parse_status_test(rest)
        },
    }
}

// ---------------------------------------------------------------------------
// Tests on the request
// ---------------------------------------------------------------------------
/// A character of a function name.
pub open spec fn name_char(c: char) -> bool {
    ('a' <= c && c <= 'z') || ('A' <= c && c <= 'Z') || ('0' <= c && c <= '9') || c == '_'
}

fn is_name_char(c: char) -> (r: bool)
    ensures
        r == name_char(c),
{
    ('a' <= c && c <= 'z') || ('A' <= c && c <= 'Z') || ('0' <= c && c <= '9') || c == '_'
}

/// The arguments of the function `name`, after the opening parenthesis.
pub open spec fn arguments(name: Seq<char>, s: Seq<char>) -> Read<PredicateV> {
    if name == "method"@ || name == "path"@ || name == "host"@ {
        match literals(s) {
            Read::Refused(why) => Read::Refused(why),
            Read::Done(list, rest) => Read::Done(
                if name == "method"@ {
                    PredicateV::Method(text::uppered(list))
                } else if name == "path"@ {
                    PredicateV::Path(list)
                } else {
                    PredicateV::Host(list)
                },
                rest,
            ),
        }
    } else if name == "path_regexp"@ || name == "protocol"@ {
        match literal(s) {
            Read::Refused(why) => Read::Refused(why),
            Read::Done(value, rest) => Read::Done(
                if name == "path_regexp"@ {
                    PredicateV::PathRegexp(value)
                } else {
                    PredicateV::Protocol(text::lower(value))
                },
                rest,
            ),
        }
    } else if name == "header_regexp"@ {
        match literal(s) {
            Read::Refused(why) => Read::Refused(why),
            Read::Done(header, t) => match eaten(t, ',') {
                None => foreign(),
                Some((false, _)) => Read::Refused(
                    "`header_regexp` needs a header name and a pattern"@,
                ),
                Some((true, t)) => match literal(t) {
                    Read::Refused(why) => Read::Refused(why),
                    Read::Done(pattern, rest) => Read::Done(
                        PredicateV::HeaderRegexp(header, pattern),
                        rest,
                    ),
                },
            },
        }
    } else if name == "header"@ || name == "query"@ {
        match entry(s, name) {
            Read::Refused(why) => Read::Refused(why),
            Read::Done((key, value), rest) => Read::Done(
                if name == "header"@ {
                    PredicateV::RequestHeader(key, seq![value])
                } else {
                    PredicateV::Query(key, seq![value])
                },
                rest,
            ),
        }
    } else {
        Read::Refused(
            "`"@ + name
                + "()` is not a retry condition; available are `method`, `path`, `host`, `protocol`, `path_regexp`, `header`, `header_regexp` and `query`"@,
        )
    }
}

fn parse_arguments<'a>(name: &str, s: &'a str) -> (r: Result<
    (RetryPredicate, &'a str),
    RetryExprError,
>)
    ensures
        reads(r, arguments(name@, s@)),
        match r {
            Ok((_, rest)) => rest@.len() < s@.len(),
            Err(_) => true,
        },
{
    if same(name, "method") {
        let (list, rest) = parse_string_list(s)?;
        return Ok((RetryPredicate::Method { any_of: upper_each(&list) }, rest));
    }
    if same(name, "path") {
        let (list, rest) = parse_string_list(s)?;
        return Ok((RetryPredicate::Path { any_of: list }, rest));
    }
    if same(name, "host") {
        let (list, rest) = parse_string_list(s)?;
        return Ok((RetryPredicate::Host { any_of: list }, rest));
    }
    if same(name, "path_regexp") {
        let (value, rest) = parse_string(s)?;
        return Ok((RetryPredicate::PathRegexp { pattern: value }, rest));
    }
    if same(name, "protocol") {
        let (value, rest) = parse_string(s)?;
        return Ok((RetryPredicate::Protocol { name: to_lower(value.as_str()) }, rest));
    }
    if same(name, "header_regexp") {
        let (header, t) = parse_string(s)?;
        let (comma, t) = eat(t, ',')?;
        if !comma {
            return Err(
                refuse("`header_regexp` needs a header name and a pattern".to_owned()),
            );
        }
        let (pattern, rest) = parse_string(t)?;
        return Ok((RetryPredicate::HeaderRegexp { name: header, pattern }, rest));
    }
    if same(name, "header") || same(name, "query") {
        let ((key, value), rest) = parse_map_entry(s, name)?;
        let list: Vec<String> = vec![value];
        assert(list.deep_view() =~= seq![value@]);
        if same(name, "header") {
            return Ok((RetryPredicate::RequestHeader { name: key, any_of: list }, rest));
        }
        return Ok((RetryPredicate::Query { key, any_of: list }, rest));
    }
    Err(
        refuse(
            cat3(
                "`",
                name,
                "()` is not a retry condition; available are `method`, `path`, `host`, `protocol`, `path_regexp`, `header`, `header_regexp` and `query`",
            ),
        ),
    )
}

/// The first characters of a text, enough to show where reading stopped.
pub open spec fn glimpse(s: Seq<char>) -> Seq<char> {
    if s.len() <= 24 {
        s
    } else {
        s.take(24)
    }
}

/// `name(arguments)`.
pub open spec fn function(s: Seq<char>) -> Read<PredicateV> {
    match skipped(s) {
        None => foreign(),
        Some(t) => {
            let name = text::leading(t, |c: char| name_char(c));
            if name.len() == 0 {
                Read::Refused("expected a condition, found `"@ + glimpse(t) + "`"@)
            } else {
                match eaten(text::trim_left(t, |c: char| name_char(c)), '(') {
                    None => foreign(),
                    Some((false, _)) => Read::Refused("`"@ + name + "` needs its arguments"@),
                    Some((true, t)) => match arguments(name, t) {
                        Read::Refused(why) => Read::Refused(why),
                        Read::Done(p, t) => match eaten(t, ')') {
                            None => foreign(),
                            Some((false, _)) => Read::Refused(
                                "`"@ + name + "(` is never closed"@,
                            ),
                            Some((true, rest)) => Read::Done(p, rest),
                        },
                    },
                }
            }
        },
    }
}

fn parse_function<'a>(s: &'a str) -> (r: Result<(RetryPredicate, &'a str), RetryExprError>)
    ensures
        reads(r, function(s@)),
        match r {
            Ok((_, rest)) => rest@.len() < s@.len(),
            Err(_) => true,
        },
{
    let t = skip_space(s)?;
    let n: usize = count_leading(t, is_name_char, Ghost(|c: char| name_char(c)));
    if n == 0 {
        let length: usize = t.unicode_len();
        let shown = if length <= 24 {
            t
        } else {
            before(t, 24)
        };
        return Err(refuse(cat3("expected a condition, found `", shown, "`")));
    }
    let name = before(t, n);
    let (open, t) = eat(after(t, n), '(')?;
    if !open {
        return Err(refuse(cat3("`", name, "` needs its arguments")));
    }
    let (p, t) = parse_arguments(name, t)?;
    let (close, rest) = eat(t, ')')?;
    if !close {
        return Err(refuse(cat3("`", name, "(` is never closed")));
    }
    Ok((p, rest))
}

// ---------------------------------------------------------------------------
// Combinations
// ---------------------------------------------------------------------------
/// One condition stands for itself; several are combined.
pub open spec fn any_of(list: Seq<PredicateV>) -> PredicateV {
    if list.len() == 1 {
        list[0]
    } else {
        PredicateV::Any(list)
    }
}

/// One condition stands for itself; several are combined.
pub open spec fn all_of(list: Seq<PredicateV>) -> PredicateV {
    if list.len() == 1 {
        list[0]
    } else {
        PredicateV::All(list)
    }
}

/// `and ( "||" and )*`; `depth` parentheses are open.
pub open spec fn or(s: Seq<char>, depth: int) -> Read<PredicateV>
    decreases MAX_RETRY_PREDICATE_DEPTH - depth, s.len(), 5int,
{
    match and(s, depth) {
        Read::Refused(why) => Read::Refused(why),
        Read::Done(first, rest) => if rest.len() < s.len() {
            or_more(seq![first], rest, depth)
        } else {
            foreign()
        },
    }
}

/// `( "||" and )*`, after the alternatives of `held`.
pub open spec fn or_more(held: Seq<PredicateV>, s: Seq<char>, depth: int) -> Read<PredicateV>
    decreases MAX_RETRY_PREDICATE_DEPTH - depth, s.len(), 6int,
{
    proof {
        lemma_skipped(s);
    }
    match eaten_pair(s, '|', '|') {
        None => foreign(),
        Some((false, t)) => Read::Done(any_of(held), t),
        Some((true, t)) => match and(t, depth) {
            Read::Refused(why) => Read::Refused(why),
            Read::Done(next, rest) => if rest.len() < s.len() {
                or_more(held.push(next), rest, depth)
            } else {
                foreign()
            },
        },
    }
}

/// `primary ( "&&" primary )*`.
pub open spec fn and(s: Seq<char>, depth: int) -> Read<PredicateV>
    decreases MAX_RETRY_PREDICATE_DEPTH - depth, s.len(), 4int,
{
    match primary(s, depth) {
        Read::Refused(why) => Read::Refused(why),
        Read::Done(first, rest) => if rest.len() < s.len() {
            and_more(seq![first], rest, depth)
        } else {
            foreign()
        },
    }
}

/// `( "&&" primary )*`, after the conditions of `held`.
pub open spec fn and_more(held: Seq<PredicateV>, s: Seq<char>, depth: int) -> Read<PredicateV>
    decreases MAX_RETRY_PREDICATE_DEPTH - depth, s.len(), 6int,
{
    proof {
        lemma_skipped(s);
    }
    match eaten_pair(s, '&', '&') {
        None => foreign(),
        Some((false, t)) => Read::Done(all_of(held), t),
        Some((true, t)) => match primary(t, depth) {
            Read::Refused(why) => Read::Refused(why),
            Read::Done(next, rest) => if rest.len() < s.len() {
                and_more(held.push(next), rest, depth)
            } else {
                foreign()
            },
        },
    }
}

/// A parenthesised expression or a test, one level deeper.
pub open spec fn primary(s: Seq<char>, depth: int) -> Read<PredicateV>
    decreases MAX_RETRY_PREDICATE_DEPTH - depth, s.len(), 3int,
{
    if depth + 1 > MAX_RETRY_PREDICATE_DEPTH {
        Read::Refused(
            "nested more than "@ + text::shown(MAX_RETRY_PREDICATE_DEPTH as nat)
                + " levels deep"@,
        )
    } else {
        match eaten(s, '(') {
            None => foreign(),
            Some((true, t)) => match or(t, depth + 1) {
                Read::Refused(why) => Read::Refused(why),
                Read::Done(inner, t) => match eaten(t, ')') {
                    None => foreign(),
                    Some((false, _)) => Read::Refused("a `(` is never closed"@),
                    Some((true, rest)) => Read::Done(inner, rest),
                },
            },
            Some((false, t)) => if t.len() > 0 && t[0] == '{' {
                placeholder_test(t)
            } else {
                function(t)
            },
        }
    }
}

fn parse_or<'a>(s: &'a str, depth: usize) -> (r: Result<(RetryPredicate, &'a str), RetryExprError>)
    requires
        depth <= MAX_RETRY_PREDICATE_DEPTH,
    ensures
        reads(r, or(s@, depth as int)),
        match r {
            Ok((_, rest)) => rest@.len() < s@.len(),
            Err(_) => true,
        },
    decreases MAX_RETRY_PREDICATE_DEPTH - depth, 5int,
{
    let (first, rest) = parse_and(s, depth)?;
    let mut branches: Vec<RetryPredicate> = vec![first];
    let mut now = rest;
    assert(predicates_view(branches@) =~= seq![first.deep_view()]);
    loop
        invariant
            depth <= MAX_RETRY_PREDICATE_DEPTH,
            now@.len() < s@.len(),
            branches@.len() > 0,
            or(s@, depth as int) == or_more(predicates_view(branches@), now@, depth as int),
        decreases now@.len(),
    {
        let (bars, t) = eat_pair(now, '|', '|')?;
        if !bars {
            if branches.len() == 1 {
                let only = branches.remove(0);
                return Ok((only, t));
            }
            return Ok((RetryPredicate::Any { of: branches }, t));
        }
        let (next, rest) = parse_and(t, depth)?;
        let ghost held = predicates_view(branches@);
        branches.push(next);
        assert(predicates_view(branches@) =~= held.push(next.deep_view()));
        now = rest;
    }
}

fn parse_and<'a>(s: &'a str, depth: usize) -> (r: Result<(RetryPredicate, &'a str), RetryExprError>)
    requires
        depth <= MAX_RETRY_PREDICATE_DEPTH,
    ensures
        reads(r, and(s@, depth as int)),
        match r {
            Ok((_, rest)) => rest@.len() < s@.len(),
            Err(_) => true,
        },
    decreases MAX_RETRY_PREDICATE_DEPTH - depth, 4int,
{
    let (first, rest) = parse_primary(s, depth)?;
    let mut branches: Vec<RetryPredicate> = vec![first];
    let mut now = rest;
    assert(predicates_view(branches@) =~= seq![first.deep_view()]);
    loop
        invariant
            depth <= MAX_RETRY_PREDICATE_DEPTH,
            now@.len() < s@.len(),
            branches@.len() > 0,
            and(s@, depth as int) == and_more(predicates_view(branches@), now@, depth as int),
        decreases now@.len(),
    {
        let (ampersands, t) = eat_pair(now, '&', '&')?;
        if !ampersands {
            if branches.len() == 1 {
                let only = branches.remove(0);
                return Ok((only, t));
            }
            return Ok((RetryPredicate::All { of: branches }, t));
        }
        let (next, rest) = parse_primary(t, depth)?;
        let ghost held = predicates_view(branches@);
        branches.push(next);
        assert(predicates_view(branches@) =~= held.push(next.deep_view()));
        now = rest;
    }
}

fn parse_primary<'a>(s: &'a str, depth: usize) -> (r: Result<
    (RetryPredicate, &'a str),
    RetryExprError,
>)
    requires
        depth <= MAX_RETRY_PREDICATE_DEPTH,
    ensures
        reads(r, primary(s@, depth as int)),
        match r {
            Ok((_, rest)) => rest@.len() < s@.len(),
            Err(_) => true,
        },
    decreases MAX_RETRY_PREDICATE_DEPTH - depth, 3int,
{
    if depth + 1 > MAX_RETRY_PREDICATE_DEPTH {
        let most = show(MAX_RETRY_PREDICATE_DEPTH as u64);
        return Err(refuse(cat3("nested more than ", most.as_str(), " levels deep")));
    }
    let (open, t) = eat(s, '(')?;
    if open {
        let (inner, t) = parse_or(t, depth + 1)?;
        let (close, rest) = eat(t, ')')?;
        if !close {
            return Err(refuse("a `(` is never closed".to_owned()));
        }
        return Ok((inner, rest));
    }
    if begins_with(t, '{') {
        parse_placeholder_test(t)
    } else {
        parse_function(t)
    }
}

/// The expression without the marks around it.
pub open spec fn unmarked(expression: Seq<char>) -> Seq<char> {
    text::trimmed(text::trimmed_both(text::trimmed(expression), '`'))
}

/// What a whole expression comes to.
pub open spec fn parsed(expression: Seq<char>) -> Read<PredicateV> {
    let s = unmarked(expression);
    if s.len() == 0 {
        Read::Refused("the expression is empty"@)
    } else {
        match or(s, 0) {
            Read::Refused(why) => Read::Refused(why),
            Read::Done(p, rest) => match skipped(rest) {
                None => foreign(),
                Some(t) => if t.len() == 0 {
                    Read::Done(p, t)
                } else {
                    Read::Refused("unexpected `"@ + t + "` after a complete condition"@)
                },
            },
        }
    }
}

/// Reads one expression as a condition, or says why it is none.
pub fn parse(expression: &str) -> (r: Result<RetryPredicate, RetryExprError>)
    ensures
        match r {
            Ok(p) => parsed(expression@) matches Read::Done(v, rest) && v == p.deep_view(),
            Err(e) => parsed(expression@) == Read::<PredicateV>::Refused(e.message@),
        },
{
    let s = trim(trim_both(trim(expression), '`'));
    if s.unicode_len() == 0 {
        return Err(refuse("the expression is empty".to_owned()));
    }
    let (p, rest) = parse_or(s, 0)?;
    let t = skip_space(rest)?;
    if t.unicode_len() > 0 {
        return Err(refuse(cat3("unexpected `", t, "` after a complete condition")));
    }
    Ok(p)
}

// ---------------------------------------------------------------------------
// Laws
// ---------------------------------------------------------------------------
/// Every status that a condition names is one.
pub open spec fn sensible(p: PredicateV) -> bool
    decreases p,
{
    match p {
        PredicateV::Any(of) => all_sensible(of),
        PredicateV::All(of) => all_sensible(of),
        PredicateV::Status(list) => real_codes(list),
        PredicateV::StatusAtLeast(code) => 100 <= code <= 599,
        _ => true,
    }
}

/// Every status that one of these conditions names is one.
pub open spec fn all_sensible(list: Seq<PredicateV>) -> bool
    decreases list,
{
    forall|i: int| 0 <= i < list.len() ==> sensible(#[trigger] list[i])
}

/// Each of these numbers is a status.
pub open spec fn real_codes(list: Seq<u16>) -> bool {
    forall|i: int| 0 <= i < list.len() ==> 100 <= #[trigger] list[i] <= 599
}

proof fn lemma_codes(held: Seq<u16>, s: Seq<char>)
    requires
        real_codes(held),
    ensures
        more_statuses(held, s) matches Read::Done(list, rest) ==> real_codes(list),
    decreases s.len(),
{
    if let Read::Done(code, t) = status(s) {
        assert(real_codes(held.push(code)));
        if let Some((true, rest)) = eaten(t, ',') {
            if rest.len() < s.len() {
                lemma_codes(held.push(code), rest);
            }
        }
    }
}

proof fn lemma_status_test(s: Seq<char>)
    ensures
        status_test(s) matches Read::Done(p, rest) ==> sensible(p),
{
    if let Some((false, t)) = eaten_pair(s, '=', '=') {
        if let Some((false, t)) = eaten_pair(t, '>', '=') {
            if let Some((true, t)) = eaten_pair(t, 'i', 'n') {
                if let Some((true, t)) = eaten(t, '[') {
                    lemma_codes(Seq::empty(), t);
                }
            }
        }
    }
}

proof fn lemma_push_sensible(held: Seq<PredicateV>, next: PredicateV)
    requires
        all_sensible(held),
        sensible(next),
    ensures
        all_sensible(held.push(next)),
{
}

proof fn lemma_or(s: Seq<char>, depth: int)
    ensures
        or(s, depth) matches Read::Done(p, rest) ==> sensible(p),
    decreases MAX_RETRY_PREDICATE_DEPTH - depth, s.len(), 5int,
{
    lemma_and(s, depth);
    if let Read::Done(first, rest) = and(s, depth) {
        if rest.len() < s.len() {
            lemma_or_more(seq![first], rest, depth);
        }
    }
}

proof fn lemma_or_more(held: Seq<PredicateV>, s: Seq<char>, depth: int)
    requires
        all_sensible(held),
        held.len() > 0,
    ensures
        or_more(held, s, depth) matches Read::Done(p, rest) ==> sensible(p),
    decreases MAX_RETRY_PREDICATE_DEPTH - depth, s.len(), 6int,
{
    lemma_skipped(s);
    if let Some((true, t)) = eaten_pair(s, '|', '|') {
        lemma_and(t, depth);
        if let Read::Done(next, rest) = and(t, depth) {
            if rest.len() < s.len() {
                lemma_push_sensible(held, next);
                lemma_or_more(held.push(next), rest, depth);
            }
        }
    }
}

proof fn lemma_and(s: Seq<char>, depth: int)
    ensures
        and(s, depth) matches Read::Done(p, rest) ==> sensible(p),
    decreases MAX_RETRY_PREDICATE_DEPTH - depth, s.len(), 4int,
{
    lemma_primary(s, depth);
    if let Read::Done(first, rest) = primary(s, depth) {
        if rest.len() < s.len() {
            lemma_and_more(seq![first], rest, depth);
        }
    }
}

proof fn lemma_and_more(held: Seq<PredicateV>, s: Seq<char>, depth: int)
    requires
        all_sensible(held),
        held.len() > 0,
    ensures
        and_more(held, s, depth) matches Read::Done(p, rest) ==> sensible(p),
    decreases MAX_RETRY_PREDICATE_DEPTH - depth, s.len(), 6int,
{
    lemma_skipped(s);
    if let Some((true, t)) = eaten_pair(s, '&', '&') {
        lemma_primary(t, depth);
        if let Read::Done(next, rest) = primary(t, depth) {
            if rest.len() < s.len() {
                lemma_push_sensible(held, next);
                lemma_and_more(held.push(next), rest, depth);
            }
        }
    }
}

proof fn lemma_primary(s: Seq<char>, depth: int)
    ensures
        primary(s, depth) matches Read::Done(p, rest) ==> sensible(p),
    decreases MAX_RETRY_PREDICATE_DEPTH - depth, s.len(), 3int,
{
    if depth + 1 <= MAX_RETRY_PREDICATE_DEPTH {
        match eaten(s, '(') {
            Some((true, t)) => {
                lemma_or(t, depth + 1);
            },
            Some((false, t)) => {
                if t.len() > 0 && t[0] == '{' {
                    if let Some(end) = t.index_of_first('}') {
                        lemma_status_test(t.skip(end + 1));
                    }
                }
            },
            None => {},
        }
    }
}

/// A condition that was read names statuses only.
pub proof fn a_condition_names_statuses_only(expression: Seq<char>)
    ensures
        parsed(expression) matches Read::Done(p, rest) ==> sensible(p),
{
    lemma_or(unmarked(expression), 0);
}

/// A conjunction binds tighter than a disjunction: what stands on either side of `||` is read as
/// a conjunction of its own, and only parentheses hold a disjunction together.
pub proof fn a_conjunction_binds_tighter(s: Seq<char>, depth: int)
    requires
        and(s, depth) matches Read::Done(first, t) && t.len() < s.len() && (eaten_pair(t, '|', '|')
            matches Some((true, u)) && (and(u, depth) matches Read::Done(second, v) && v.len()
            < t.len() && (eaten_pair(v, '|', '|') matches Some((false, w))))),
    ensures
        or(s, depth) matches Read::Done(p, rest) && (and(s, depth) matches Read::Done(first, t)
            && (eaten_pair(t, '|', '|') matches Some((_, u)) && (and(u, depth) matches Read::Done(
            second,
            _,
        ) && p == PredicateV::Any(seq![first, second])))),
{
    let first = and(s, depth)->Done_0;
    let t = and(s, depth)->Done_1;
    let u = eaten_pair(t, '|', '|')->Some_0.1;
    let second = and(u, depth)->Done_0;
    let v = and(u, depth)->Done_1;
    let held = seq![first];
    assert(held.push(second) =~= seq![first, second]);
    assert(or_more(held.push(second), v, depth) is Done);
    assert(or_more(held, t, depth) == or_more(held.push(second), v, depth));
}

} // verus!
