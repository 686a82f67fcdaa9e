//! What the lines about responses and retries mean.

use crate::adapter::content;
use crate::adapter::handler_laws;
use crate::adapter::responses;
use crate::adapter::responses::HeaderListsV;
use crate::adapter::retry_expr;
use crate::adapter::retry_expr::{PredicateV, Read};
use crate::adapter::retry_laws;
use crate::adapter::retry_match;
use crate::ast::proxy::{
    HandlerConfigV, ResponseHandlerConfigV, ResponseMatcherV, RetryConfigV,
};
use crate::error::ErrorV;
use crate::fold;
use crate::syntax::{line, with_block, DirectiveV};
use crate::text;
use vstd::prelude::*;

verus! {

// ---------------------------------------------------------------------------
// Response matchers
// ---------------------------------------------------------------------------
/// A status of a response matcher is the code that is written, or the class whose digit is.
pub proof fn a_status_is_a_code_or_a_class(code: u16, class: u16)
    requires
        100 <= code <= 599,
        1 <= class <= 5,
    ensures
        responses::status_or_class(text::shown(code as nat)) == Ok::<u16, ErrorV>(code),
        responses::status_or_class(text::shown(class as nat) + "xx"@) == Ok::<u16, ErrorV>(class),
{
    reveal_strlit("xx");
    handler_laws::lemma_code(code);
    handler_laws::lemma_code(class);
    text::a_shown_number_reads_back(code as nat);
    let a = text::shown(code as nat);
    assert("xx"@.len() == 2 && "xx"@[1] == 'x');
    assert(!text::ends(a, "xx"@)) by {
        if text::ends(a, "xx"@) {
            assert(a.skip(a.len() - 2)[1] == a[a.len() - 1]);
            assert(text::digit(a[a.len() - 1]));
        }
    }
    let b = text::shown(class as nat);
    let s = b + "xx"@;
    assert(s.skip(s.len() - 2) =~= "xx"@);
    assert(s.take(s.len() - 2) =~= b);
}

/// A status that no response has is refused.
pub proof fn a_status_that_no_response_has_is_refused(code: u16)
    requires
        !(100 <= code <= 599),
    ensures
        responses::status_or_class(text::shown(code as nat)) is Err,
{
    reveal_strlit("xx");
    handler_laws::lemma_code(code);
    text::a_shown_number_reads_back(code as nat);
    let a = text::shown(code as nat);
    assert("xx"@.len() == 2 && "xx"@[1] == 'x');
    assert(!text::ends(a, "xx"@)) by {
        if text::ends(a, "xx"@) {
            assert(a.skip(a.len() - 2)[1] == a[a.len() - 1]);
            assert(text::digit(a[a.len() - 1]));
        }
    }
}

proof fn lemma_matcher_line(
    d: DirectiveV,
    front: Seq<DirectiveV>,
    m: ResponseMatcherV,
    o: DirectiveV,
)
    requires
        responses::response_matcher(with_block(d, front)) == Ok::<ResponseMatcherV, ErrorV>(m),
    ensures
        responses::response_matcher(with_block(d, front.push(o))) == responses::response_condition(
            m,
            o,
        ),
{
    fold::a_last_directive_is_read_last(
        |m: ResponseMatcherV, o: DirectiveV| responses::response_condition(m, o),
        ResponseMatcherV::unset(),
        front,
        o,
    );
}

/// A line of a response matcher adds to what it names: a status to the statuses, and patterns to
/// those of a header.
pub proof fn a_response_line_adds_to_what_it_names(
    d: DirectiveV,
    front: Seq<DirectiveV>,
    m: ResponseMatcherV,
    code: u16,
    field: Seq<char>,
    patterns: Seq<Seq<char>>,
)
    requires
        responses::response_matcher(with_block(d, front)) == Ok::<ResponseMatcherV, ErrorV>(m),
        100 <= code <= 599,
        responses::field_name(field),
    ensures
        responses::response_matcher(
            with_block(d, front.push(line("status"@, seq![text::shown(code as nat)]))),
        ) == Ok::<ResponseMatcherV, ErrorV>(
            ResponseMatcherV { status_codes: m.status_codes.push(code), ..m },
        ),
        responses::response_matcher(
            with_block(d, front.push(line("header"@, seq![field] + patterns))),
        ) matches Ok(n) && (n.status_codes == m.status_codes && n.headers.dom()
            == m.headers.dom().insert(field) && n.headers[field] == (if m.headers.dom().contains(
            field,
        ) {
            m.headers[field] + patterns
        } else {
            patterns
        }) && forall|other: Seq<char>|
            other != field && m.headers.dom().contains(other) ==> #[trigger] n.headers[other]
                == m.headers[other]),
{
    reveal_strlit("status");
    reveal_strlit("header");
    assert("status"@.len() == 6 && "status"@[0] == 's');
    assert("header"@.len() == 6 && "header"@[0] == 'h');
    let a = line("status"@, seq![text::shown(code as nat)]);
    let b = line("header"@, seq![field] + patterns);
    lemma_matcher_line(d, front, m, a);
    lemma_matcher_line(d, front, m, b);
    a_status_is_a_code_or_a_class(code, 1);
    let f = |value: Seq<char>| responses::status_or_class(value);
    assert(a.args.drop_last() =~= Seq::empty());
    assert(fold::each(f, a.args.drop_last()) == Ok::<Seq<u16>, ErrorV>(Seq::empty()));
    assert(fold::each(f, a.args) == Ok::<Seq<u16>, ErrorV>(Seq::empty().push(code)));
    assert(m.status_codes + Seq::empty().push(code) =~= m.status_codes.push(code));
    assert(b.args[0] == field);
    assert(b.args.skip(1) =~= patterns);
    let n = responses::response_condition(m, b)->Ok_0;
    assert(n.headers.dom() =~= m.headers.dom().insert(field));
    if !m.headers.dom().contains(field) {
        assert(Seq::<Seq<char>>::empty() + patterns =~= patterns);
    }
}

/// On one line, a response matcher says what the same line of a block says.
pub proof fn a_response_matcher_can_stand_on_one_line(
    d: DirectiveV,
    kind: Seq<char>,
    list: Seq<Seq<char>>,
)
    requires
        kind == "status"@ || kind == "header"@,
    ensures
        responses::response_matcher(line(d.name, seq![kind] + list)) == responses::response_matcher(
            with_block(d, seq![line(kind, list)]),
        ),
{
    reveal_strlit("status");
    reveal_strlit("header");
    assert("status"@.len() == 6 && "status"@[0] == 's');
    assert("header"@.len() == 6 && "header"@[0] == 'h');
    let o = line(kind, list);
    let step = |m: ResponseMatcherV, o: DirectiveV| responses::response_condition(m, o);
    fold::a_last_directive_is_read_last(step, ResponseMatcherV::unset(), Seq::empty(), o);
    assert(Seq::<DirectiveV>::empty().push(o) =~= seq![o]);
    assert((seq![kind] + list).skip(1) =~= list);
}

// ---------------------------------------------------------------------------
// Response handlers
// ---------------------------------------------------------------------------
/// `replace_status` answers with the status that is written, where the matcher before it holds.
pub proof fn a_status_is_replaced_where_the_matcher_holds(
    name: Seq<char>,
    tag: Seq<char>,
    status: Seq<char>,
    matchers: Map<Seq<char>, ResponseMatcherV>,
)
    requires
        text::starts_char(tag, '@'),
    ensures
        responses::replaced_status(line(name, seq![status]), matchers) == Ok::<
            ResponseHandlerConfigV,
            ErrorV,
        >(
            ResponseHandlerConfigV {
                matcher: None,
                status_code: Some(status),
                handlers: Seq::empty(),
            },
        ),
        matchers.dom().contains(tag) ==> responses::replaced_status(
            line(name, seq![tag, status]),
            matchers,
        ) == Ok::<ResponseHandlerConfigV, ErrorV>(
            ResponseHandlerConfigV {
                matcher: Some(matchers[tag]),
                status_code: Some(status),
                handlers: Seq::empty(),
            },
        ),
{
}

proof fn lemma_response_steps(list: Seq<DirectiveV>, steps: Seq<HandlerConfigV>)
    requires
        list.len() == steps.len(),
        forall|i: int|
            0 <= i < list.len() ==> responses::response_handler(#[trigger] list[i]) == Ok::<
                HandlerConfigV,
                ErrorV,
            >(steps[i]),
    ensures
        fold::fold(
            |steps: Seq<HandlerConfigV>, o: DirectiveV| responses::further_step(steps, o),
            Seq::<HandlerConfigV>::empty(),
            list,
        ) == Ok::<Seq<HandlerConfigV>, ErrorV>(steps),
    decreases list.len(),
{
    let step = |steps: Seq<HandlerConfigV>, o: DirectiveV| responses::further_step(steps, o);
    if list.len() == 0 {
        assert(steps =~= Seq::empty());
    } else {
        let n = list.len() - 1;
        let front = list.drop_last();
        assert forall|i: int| 0 <= i < front.len() implies responses::response_handler(
            #[trigger] front[i],
        ) == Ok::<HandlerConfigV, ErrorV>(steps.drop_last()[i]) by {
            assert(front[i] == list[i]);
        }
        lemma_response_steps(front, steps.drop_last());
        fold::a_last_directive_is_read_last(step, Seq::empty(), front, list[n]);
        assert(front.push(list[n]) =~= list);
        assert(steps.drop_last().push(steps[n]) =~= steps);
    }
}

/// `handle_response` takes the steps of its block in the order in which they are written, where the
/// matcher that it names holds.
pub proof fn a_response_is_handled_in_the_order_of_the_lines(
    name: Seq<char>,
    tag: Seq<char>,
    matchers: Map<Seq<char>, ResponseMatcherV>,
    list: Seq<DirectiveV>,
    steps: Seq<HandlerConfigV>,
)
    requires
        list.len() > 0,
        list.len() == steps.len(),
        forall|i: int|
            0 <= i < list.len() ==> responses::response_handler(#[trigger] list[i]) == Ok::<
                HandlerConfigV,
                ErrorV,
            >(steps[i]),
        text::starts_char(tag, '@'),
    ensures
        responses::handled_response(
            with_block(line(name, Seq::empty()), list),
            matchers,
        ) == Ok::<ResponseHandlerConfigV, ErrorV>(
            ResponseHandlerConfigV { matcher: None, status_code: None, handlers: steps },
        ),
        matchers.dom().contains(tag) ==> responses::handled_response(
            with_block(line(name, seq![tag]), list),
            matchers,
        ) == Ok::<ResponseHandlerConfigV, ErrorV>(
            ResponseHandlerConfigV {
                matcher: Some(matchers[tag]),
                status_code: None,
                handlers: steps,
            },
        ),
        !matchers.dom().contains(tag) ==> responses::handled_response(
            with_block(line(name, seq![tag]), list),
            matchers,
        ) is Err,
{
    lemma_response_steps(list, steps);
}

/// A step on a response does what its directive says.
#[verifier::rlimit(40)]
pub proof fn a_response_step_does_what_it_is_called(
    o: DirectiveV,
    code: u16,
    list: Seq<Seq<char>>,
    path: Seq<char>,
)
    requires
        path != "*"@,
    ensures
        responses::response_handler(line("copy_response"@, Seq::empty())) == Ok::<
            HandlerConfigV,
            ErrorV,
        >(HandlerConfigV::CopyResponse { status_code: None }),
        responses::response_handler(line("copy_response"@, seq![text::shown(code as nat)])) == Ok::<
            HandlerConfigV,
            ErrorV,
        >(HandlerConfigV::CopyResponse { status_code: Some(code) }),
        responses::response_handler(line("copy_response_headers"@, list)) == Ok::<
            HandlerConfigV,
            ErrorV,
        >(HandlerConfigV::CopyResponseHeaders { included: list, excluded: Seq::empty() }),
        responses::response_handler(
            with_block(
                line("copy_response_headers"@, Seq::empty()),
                seq![line("exclude"@, list)],
            ),
        ) matches Ok(HandlerConfigV::CopyResponseHeaders { included, excluded }) && (included.len()
            == 0 && excluded == list),
        responses::response_handler(
            with_block(
                line("copy_response_headers"@, Seq::empty()),
                seq![line("include"@, list)],
            ),
        ) matches Ok(HandlerConfigV::CopyResponseHeaders { included, excluded }) && (included
            == list && excluded.len() == 0),
        responses::response_handler(line("root"@, seq![path])) == Ok::<HandlerConfigV, ErrorV>(
            HandlerConfigV::Vars { values: Map::empty().insert("root"@, path) },
        ),
        o.name == "header"@ ==> (content::header(o) matches Ok(c) ==> responses::response_handler(o)
            == Ok::<HandlerConfigV, ErrorV>(
            HandlerConfigV::Headers { set: c.set, add: c.add, remove: c.remove },
        )),
        o.name == "error"@ ==> (content::raised(o) matches Ok(c) ==> responses::response_handler(o)
            == Ok::<HandlerConfigV, ErrorV>(
            HandlerConfigV::Error { status: c.status, message: c.message },
        )),
        o.name == "vars"@ ==> (content::vars(o) matches Ok(values)
            ==> responses::response_handler(o) == Ok::<HandlerConfigV, ErrorV>(
            HandlerConfigV::Vars { values },
        )),
{
    reveal_strlit("respond");
    reveal_strlit("copy_response");
    reveal_strlit("copy_response_headers");
    reveal_strlit("header");
    reveal_strlit("error");
    reveal_strlit("vars");
    reveal_strlit("root");
    reveal_strlit("rewrite");
    reveal_strlit("file_server");
    reveal_strlit("include");
    reveal_strlit("exclude");
    assert("respond"@.len() == 7 && "respond"@[0] == 'r' && "respond"@[2] == 's');
    assert("copy_response"@.len() == 13);
    assert("copy_response_headers"@.len() == 21);
    assert("header"@.len() == 6);
    assert("error"@.len() == 5);
    assert("vars"@.len() == 4 && "vars"@[0] == 'v');
    assert("root"@.len() == 4 && "root"@[0] == 'r');
    assert("rewrite"@.len() == 7 && "rewrite"@[0] == 'r' && "rewrite"@[2] == 'w');
    assert("file_server"@.len() == 11);
    assert("include"@.len() == 7 && "include"@[0] == 'i');
    assert("exclude"@.len() == 7 && "exclude"@[0] == 'e');
    handler_laws::lemma_code(code);
    let step = |c: HeaderListsV, x: DirectiveV| responses::copied_header(c, x);
    let none = HeaderListsV { included: Seq::empty(), excluded: Seq::empty() };
    let a = line("include"@, list);
    let b = line("exclude"@, list);
    fold::a_last_directive_is_read_last(step, none, Seq::empty(), a);
    fold::a_last_directive_is_read_last(step, none, Seq::empty(), b);
    assert(Seq::<DirectiveV>::empty().push(a) =~= seq![a]);
    assert(Seq::<DirectiveV>::empty().push(b) =~= seq![b]);
    assert(Seq::<Seq<char>>::empty() + list =~= list);
}

// ---------------------------------------------------------------------------
// Retry matches
// ---------------------------------------------------------------------------
/// A retry match adds what its form names: a path, the methods, or a condition on a header.
pub proof fn a_retry_match_adds_what_its_form_names(
    c: RetryConfigV,
    name: Seq<char>,
    path: Seq<char>,
    words: Seq<Seq<char>>,
    field: Seq<char>,
    value: Seq<char>,
)
    requires
        words.len() > 0,
    ensures
        retry_match::retry_match(c, line(name, seq!["path"@, path])) == Ok::<RetryConfigV, ErrorV>(
            RetryConfigV { path_patterns: c.path_patterns.push(path), ..c },
        ),
        retry_match::retry_match(c, line(name, seq!["method"@] + words)) == Ok::<
            RetryConfigV,
            ErrorV,
        >(RetryConfigV { methods: text::uppered(words), ..c }),
        retry_match::retry_match(c, line(name, seq!["header"@, field, value])) == Ok::<
            RetryConfigV,
            ErrorV,
        >(RetryConfigV { expressions: c.expressions.push(header_test(field, value)), ..c }),
{
    reveal_strlit("path");
    reveal_strlit("method");
    reveal_strlit("header");
    reveal_strlit("expression");
    assert("path"@.len() == 4);
    assert("method"@.len() == 6 && "method"@[0] == 'm');
    assert("header"@.len() == 6 && "header"@[0] == 'h');
    assert("expression"@.len() == 10);
    assert(seq!["path"@, path].skip(1) =~= seq![path]);
    assert((seq!["method"@] + words).skip(1) =~= words);
    assert(seq!["header"@, field, value].skip(1) =~= seq![field, value]);
}

/// In a block, the forms of a retry match say what they say on a line of their own, one after the
/// other.
pub proof fn the_forms_of_a_retry_match_add_up(
    c: RetryConfigV,
    d: DirectiveV,
    front: Seq<DirectiveV>,
    before: RetryConfigV,
    kind: Seq<char>,
    list: Seq<Seq<char>>,
)
    requires
        retry_match::retry_match(c, with_block(d, front)) == Ok::<RetryConfigV, ErrorV>(before),
        retry_match::form_name(kind),
        list.len() > 0,
    ensures
        retry_match::retry_match(c, with_block(d, front.push(line(kind, list))))
            == retry_match::retry_match(before, line(d.name, seq![kind] + list)),
{
    fold::a_last_directive_is_read_last(
        |c: RetryConfigV, o: DirectiveV| retry_match::retry_form(c, o.name, o.args),
        c,
        front,
        line(kind, list),
    );
    assert((seq![kind] + list).skip(1) =~= list);
    assert((seq![kind] + list)[0] == kind);
}

/// A condition on a header, as it is kept.
pub open spec fn header_test(field: Seq<char>, value: Seq<char>) -> Seq<char> {
    "header({'"@ + field + "': '"@ + value + "'})"@
}

/// A condition on a header that is kept is read as one on that header and that value.
pub proof fn a_header_test_is_read_as_one(field: Seq<char>, value: Seq<char>)
    requires
        retry_laws::quotable(field),
        retry_laws::quotable(value),
    ensures
        retry_expr::function(header_test(field, value)) == Read::Done(
            PredicateV::RequestHeader(field, seq![value]),
            Seq::<char>::empty(),
        ),
{
    reveal_strlit("header({'");
    reveal_strlit("': '");
    reveal_strlit("'})");
    reveal_strlit("header");
    let none = Seq::<char>::empty();
    let d = seq!['}'] + seq![')'];
    let c = retry_laws::quoted(value) + d;
    let b = seq![':'] + (seq![' '] + c);
    let a = retry_laws::quoted(field) + b;
    let inside = seq!['{'] + a;
    let s = header_test(field, value);
    let tail = seq!['('] + inside;
    assert(s =~= "header"@ + tail);
    let f = |x: char| retry_expr::name_char(x);
    retry_laws::lemma_leading("header"@, tail, f);
    assert(s[0] == 'h');
    retry_laws::lemma_not_skipped(s);
    retry_laws::lemma_not_skipped(tail);
    assert(tail.skip(1) =~= inside);
    retry_laws::lemma_not_skipped(inside);
    assert(inside.skip(1) =~= a);
    retry_laws::lemma_literal(field, b);
    retry_laws::lemma_not_skipped(b);
    assert(b.skip(1) =~= seq![' '] + c);
    assert((seq![' '] + c).skip(1) =~= c);
    retry_laws::lemma_not_skipped(c);
    assert(retry_expr::skipped(seq![' '] + c) == retry_expr::skipped(c));
    retry_laws::lemma_literal(value, d);
    assert(retry_expr::literal(seq![' '] + c) == retry_expr::literal(c));
    retry_laws::lemma_not_skipped(d);
    assert(d.skip(1) =~= seq![')']);
    retry_laws::lemma_not_skipped(seq![')']);
    assert(seq![')'].skip(1) =~= none);
    retry_laws::lemma_functions();
}

/// A status test that names a lower bound names every status from the bound to 599, and no other.
pub proof fn a_lower_bound_names_every_status_above_it(low: u16, code: u16)
    ensures
        retry_match::at_least(low).contains(code) <==> low <= code <= 599,
{
    let all = retry_match::at_least(low);
    if low <= code <= 599 {
        assert(all[code - low] == code);
    }
}

/// A text that begins at the only brace of a text begins nowhere else.
proof fn lemma_only_at_start(s: Seq<char>, p: Seq<char>, from: int)
    requires
        0 < from,
        p.len() > 0,
        p[0] == '{',
        forall|i: int| 0 < i < s.len() ==> #[trigger] s[i] != '{',
    ensures
        text::position_from(s, p, from) is None,
    decreases s.len() + 1 - from,
{
    if from + p.len() <= s.len() {
        assert(s.subrange(from, from + p.len())[0] == s[from]);
        lemma_only_at_start(s, p, from + 1);
    }
}

/// What an expression that tests the status with one operator names.
proof fn lemma_status_expression(code: u16)
    ensures
        ({
            let e = "{rp.status_code} == "@ + text::shown(code as nat);
            retry_match::named_codes(e) == Some(seq![code]) && retry_match::status_test(e)
        }),
        ({
            let e = "{rp.status_code} >= "@ + text::shown(code as nat);
            retry_match::named_codes(e) == Some(retry_match::at_least(code))
                && retry_match::status_test(e)
        }),
{
    let digits = text::shown(code as nat);
    let within = "{rp.status_code} in ["@;
    let equal = "{rp.status_code} == "@;
    let least = "{rp.status_code} >= "@;
    reveal_strlit("{rp.status_code} in [");
    reveal_strlit("{rp.status_code} == ");
    reveal_strlit("{rp.status_code} >= ");
    assert(within.len() == 21 && equal.len() == 20 && least.len() == 20);
    assert(within[0] == '{' && equal[0] == '{' && least[0] == '{');
    assert(within[17] == 'i' && equal[17] == '=' && least[17] == '>');
    handler_laws::lemma_code(code);
    text::a_shown_number_reads_back(code as nat);
    lemma_first_word(digits);
    let a = equal + digits;
    let b = least + digits;
    assert forall|i: int| 0 < i < a.len() implies #[trigger] a[i] != '{' by {
        if i >= 20 {
            assert(text::digit(digits[i - 20]));
        } else {
            assert(equal[i] != '{');
        }
    }
    assert forall|i: int| 0 < i < b.len() implies #[trigger] b[i] != '{' by {
        if i >= 20 {
            assert(text::digit(digits[i - 20]));
        } else {
            assert(least[i] != '{');
        }
    }
    lemma_only_at_start(a, within, 1);
    lemma_only_at_start(b, within, 1);
    lemma_only_at_start(b, equal, 1);
    assert(a.len() >= 21 ==> a.subrange(0, 21)[17] == a[17]);
    assert(b.len() >= 21 ==> b.subrange(0, 21)[17] == b[17]);
    assert(b.subrange(0, 20)[17] == b[17]);
    assert(a.subrange(0, 20) =~= equal);
    assert(b.subrange(0, 20) =~= least);
    assert(a.take(20) =~= equal);
    assert(b.take(20) =~= least);
    assert(a.skip(20) =~= digits);
    assert(b.skip(20) =~= digits);
    assert(text::position(a, within) is None);
    assert(text::position(b, within) is None);
    assert(text::position(b, equal) is None);
    assert(text::position(a, equal) == Some(0int));
    assert(text::position(b, least) == Some(0int));
    assert(!text::starts(a, within)) by {
        if text::starts(a, within) {
            assert(a.take(21)[17] == a[17]);
        }
    }
    assert(!text::starts(b, within)) by {
        if text::starts(b, within) {
            assert(b.take(21)[17] == b[17]);
        }
    }
    assert(!text::starts(b, equal)) by {
        if text::starts(b, equal) {
            assert(b.take(20)[17] == b[17]);
        }
    }
}

/// Digits are one word.
proof fn lemma_first_word(s: Seq<char>)
    requires
        s.len() > 0,
        text::digits(s),
    ensures
        text::first_word(s) == Some(s),
{
    assert(text::digit(s[0]));
    let f = |c: char| !text::white(c);
    assert forall|i: int| 0 <= i < s.len() implies f(#[trigger] s[i]) by {
        assert(text::digit(s[i]));
    }
    assert(s + Seq::<char>::empty() =~= s);
    retry_laws::lemma_leading(s, Seq::empty(), f);
}

/// A text that holds a character which another text lacks does not occur in it.
proof fn lemma_lacks(s: Seq<char>, p: Seq<char>, k: int, from: int)
    requires
        0 <= k < p.len(),
        !s.contains(p[k]),
        0 <= from,
    ensures
        text::position_from(s, p, from) is None,
    decreases s.len() + 1 - from,
{
    if from + p.len() <= s.len() {
        if s.subrange(from, from + p.len()) == p {
            assert(s.subrange(from, from + p.len())[k] == s[from + k]);
            assert(s.contains(p[k]));
        }
        lemma_lacks(s, p, k, from + 1);
    }
}

/// Nothing is trimmed from an expression that begins and ends with neither white space nor a
/// backtick.
proof fn lemma_tidy(s: Seq<char>)
    requires
        s.len() > 0,
        !text::white(s[0]) && s[0] != '`',
        !text::white(s.last()) && s.last() != '`',
    ensures
        text::trimmed_both(text::trimmed(s), '`') == s,
{
    assert(text::trimmed(s) == s);
    assert(text::trimmed_start(s, '`') == s);
    assert(text::trimmed_end(s, '`') == s);
}

/// An expression that tests the status adds the statuses that it names, and leaves the rest as it
/// is: one status, or all from a bound on.
pub proof fn a_status_expression_adds_its_statuses(c: RetryConfigV, code: u16, k: u16)
    ensures
        ({
            let e = "{rp.status_code} == "@ + text::shown(code as nat);
            let n = retry_match::with_expression(c, e);
            &&& n == (RetryConfigV { status_codes: n.status_codes, ..c })
            &&& n.status_codes.contains(k) <==> c.status_codes.contains(k) || k == code
        }),
        ({
            let e = "{rp.status_code} >= "@ + text::shown(code as nat);
            let n = retry_match::with_expression(c, e);
            &&& n == (RetryConfigV { status_codes: n.status_codes, ..c })
            &&& n.status_codes.contains(k) <==> c.status_codes.contains(k) || code <= k <= 599
        }),
{
    let digits = text::shown(code as nat);
    let a = "{rp.status_code} == "@ + digits;
    let b = "{rp.status_code} >= "@ + digits;
    lemma_status_expression(code);
    reveal_strlit("{rp.status_code} == ");
    reveal_strlit("{rp.status_code} >= ");
    reveal_strlit("method('");
    reveal_strlit("&&");
    text::a_shown_number_reads_back(code as nat);
    assert(text::digit(digits[digits.len() - 1]));
    assert("&&"@[0] == '&' && "method('"@[7] == '\'');
    assert(!a.contains('&') && !a.contains('\'') && !b.contains('&') && !b.contains('\'')) by {
        assert forall|i: int| 0 <= i < a.len() implies a[i] != '&' && a[i] != '\'' && b[i] != '&'
            && b[i] != '\'' by {
            if i >= 20 {
                assert(text::digit(digits[i - 20]));
            }
        }
    }
    lemma_lacks(a, "&&"@, 0, 0);
    lemma_lacks(b, "&&"@, 0, 0);
    lemma_lacks(a, "method('"@, 7, 0);
    lemma_lacks(b, "method('"@, 7, 0);
    assert(a.last() == digits.last() && b.last() == digits.last());
    lemma_tidy(a);
    lemma_tidy(b);
    let one = c.status_codes + seq![code];
    let many = c.status_codes + retry_match::at_least(code);
    retry_match::codes_are_ordered_once(one);
    retry_match::codes_are_ordered_once(many);
    a_lower_bound_names_every_status_above_it(code, k);
    lemma_either(c.status_codes, seq![code], k);
    lemma_either(c.status_codes, retry_match::at_least(code), k);
    assert(seq![code].contains(k) <==> k == code) by {
        assert(seq![code][0] == code);
    }
}

proof fn lemma_either(a: Seq<u16>, b: Seq<u16>, k: u16)
    ensures
        (a + b).contains(k) <==> a.contains(k) || b.contains(k),
{
    if a.contains(k) {
        let i = choose|i: int| 0 <= i < a.len() && a[i] == k;
        assert((a + b)[i] == k);
    }
    if b.contains(k) {
        let i = choose|i: int| 0 <= i < b.len() && b[i] == k;
        assert((a + b)[a.len() + i] == k);
    }
    if (a + b).contains(k) {
        let i = choose|i: int| 0 <= i < (a + b).len() && (a + b)[i] == k;
        if i < a.len() {
            assert(a[i] == k);
        } else {
            assert(b[i - a.len()] == k);
        }
    }
}

/// An expression that tests the method retries that method alone, in upper case, and says nothing
/// else.
pub proof fn a_method_expression_names_its_method(c: RetryConfigV, name: Seq<char>)
    requires
        !name.contains('\'') && !name.contains('(') && !name.contains('{') && !name.contains('&'),
    ensures
        ({
            let e = "method('"@ + name + "')"@;
            let n = retry_match::with_expression(c, e);
            &&& n.methods == seq![text::upper(name)]
            &&& n.expressions == c.expressions
            &&& n.path_patterns == c.path_patterns
            &&& forall|k: u16| #[trigger]
                n.status_codes.contains(k) <==> c.status_codes.contains(k)
        }),
{
    reveal_strlit("method('");
    reveal_strlit("')");
    reveal_strlit("&&");
    reveal_strlit("{rp.status_code} in [");
    reveal_strlit("{rp.status_code} == ");
    reveal_strlit("{rp.status_code} >= ");
    let m = "method('"@;
    let e = m + name + "')"@;
    assert(m.len() == 8 && "')"@.len() == 2 && "')"@[0] == '\'' && "')"@[1] == ')');
    assert("&&"@[0] == '&');
    assert("{rp.status_code} in ["@[0] == '{' && "{rp.status_code} == "@[0] == '{'
        && "{rp.status_code} >= "@[0] == '{');
    assert(!e.contains('&') && !e.contains('{')) by {
        assert forall|i: int| 0 <= i < e.len() implies e[i] != '&' && e[i] != '{' by {
            if 8 <= i < 8 + name.len() {
                assert(name.contains(name[i - 8]));
            }
        }
    }
    lemma_lacks(e, "&&"@, 0, 0);
    lemma_lacks(e, "{rp.status_code} in ["@, 0, 0);
    lemma_lacks(e, "{rp.status_code} == "@, 0, 0);
    lemma_lacks(e, "{rp.status_code} >= "@, 0, 0);
    assert(e.last() == ')');
    assert(e[0] == 'm');
    lemma_tidy(e);
    let rest = name + "')"@;
    assert(e.take(8) =~= m);
    assert(e.subrange(0, 8) =~= m);
    assert(e.skip(8) =~= rest);
    assert(text::position(e, m) == Some(0int));
    assert(rest =~= name + seq!['\''] + seq![')']);
    crate::piece_laws::a_text_without_separators_is_one_piece(name, '\'');
    crate::piece_laws::the_last_piece_stands_behind_the_last_separator(name, seq![')'], '\'');
    assert(text::pieces(rest, '\'')[0] == name);
    assert(rest.skip(rest.len() - 2) =~= "')"@);
    assert(rest.take(rest.len() - 2) =~= name);
    assert(retry_match::method_test(e));
    retry_match::codes_are_ordered_once(c.status_codes);
}

} // verus!
