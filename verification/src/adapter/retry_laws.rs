//! What a retry condition means: written out and read again, it is itself.

use crate::adapter::retry_expr;
use crate::adapter::retry_expr::{PredicateV, Read, MAX_RETRY_PREDICATE_DEPTH};
use crate::text;
use vstd::prelude::*;

verus! {

// ---------------------------------------------------------------------------
// Writing
// ---------------------------------------------------------------------------
/// A text between single quotation marks.
pub open spec fn quoted(s: Seq<char>) -> Seq<char> {
    seq!['\''] + s + seq!['\'']
}

/// The texts of a list behind commas.
pub open spec fn more_quoted(list: Seq<Seq<char>>) -> Seq<char>
    decreases list.len(),
{
    if list.len() == 0 {
        Seq::empty()
    } else {
        seq![','] + quoted(list[0]) + more_quoted(list.skip(1))
    }
}

/// The texts of a list with commas between them.
pub open spec fn listed(list: Seq<Seq<char>>) -> Seq<char> {
    quoted(list[0]) + more_quoted(list.skip(1))
}

/// Numbers behind commas.
pub open spec fn more_numbers(list: Seq<u16>) -> Seq<char>
    decreases list.len(),
{
    if list.len() == 0 {
        Seq::empty()
    } else {
        seq![','] + text::shown(list[0] as nat) + more_numbers(list.skip(1))
    }
}

/// Numbers with commas between them.
pub open spec fn numbers(list: Seq<u16>) -> Seq<char> {
    text::shown(list[0] as nat) + more_numbers(list.skip(1))
}

/// A call of a function.
pub open spec fn call(name: Seq<char>, inside: Seq<char>) -> Seq<char> {
    name + seq!['('] + inside + seq![')']
}

/// A condition that combines no others, as it is written.
pub open spec fn written_test(p: PredicateV) -> Seq<char> {
    match p {
        PredicateV::TransportError => "{rp.is_transport_error}"@,
        PredicateV::ResponseHeader(name, value) => "{rp.header."@ + name + "}=="@ + quoted(value),
        PredicateV::Status(list) => if list.len() == 1 {
            "{rp.status_code}=="@ + text::shown(list[0] as nat)
        } else {
            "{rp.status_code}in["@ + numbers(list) + "]"@
        },
        PredicateV::StatusAtLeast(code) => "{rp.status_code}>="@ + text::shown(code as nat),
        PredicateV::Method(list) => call("method"@, listed(list)),
        PredicateV::Path(list) => call("path"@, listed(list)),
        PredicateV::Host(list) => call("host"@, listed(list)),
        PredicateV::PathRegexp(pattern) => call("path_regexp"@, quoted(pattern)),
        PredicateV::Protocol(name) => call("protocol"@, quoted(name)),
        PredicateV::HeaderRegexp(name, pattern) => call(
            "header_regexp"@,
            quoted(name) + seq![','] + quoted(pattern),
        ),
        PredicateV::RequestHeader(name, list) => call(
            "header"@,
            seq!['{'] + quoted(name) + seq![':'] + quoted(list[0]) + seq!['}'],
        ),
        PredicateV::Query(key, list) => call(
            "query"@,
            seq!['{'] + quoted(key) + seq![':'] + quoted(list[0]) + seq!['}'],
        ),
        _ => Seq::empty(),
    }
}

/// A condition as one operand of `&&`: a combination stands in parentheses.
pub open spec fn written_operand(p: PredicateV) -> Seq<char>
    decreases p, 2int,
{
    match p {
        PredicateV::Any(list) => seq!['('] + written_any(list) + seq![')'],
        PredicateV::All(list) => seq!['('] + written_all(list) + seq![')'],
        _ => written_test(p),
    }
}

/// A condition as one operand of `||`: a conjunction needs no parentheses there.
pub open spec fn written_alternative(p: PredicateV) -> Seq<char>
    decreases p, 2int,
{
    match p {
        PredicateV::Any(list) => seq!['('] + written_any(list) + seq![')'],
        PredicateV::All(list) => written_all(list),
        _ => written_test(p),
    }
}

/// Conditions with `&&` between them.
pub open spec fn written_all(list: Seq<PredicateV>) -> Seq<char>
    decreases list, 1int,
{
    if list.len() == 0 {
        Seq::empty()
    } else {
        written_operand(list[0]) + more_all(list.subrange(1, list.len() as int))
    }
}

/// Conditions behind `&&`.
pub open spec fn more_all(list: Seq<PredicateV>) -> Seq<char>
    decreases list, 1int,
{
    if list.len() == 0 {
        Seq::empty()
    } else {
        seq!['&', '&'] + written_operand(list[0]) + more_all(list.subrange(1, list.len() as int))
    }
}

/// Conditions with `||` between them.
pub open spec fn written_any(list: Seq<PredicateV>) -> Seq<char>
    decreases list, 1int,
{
    if list.len() == 0 {
        Seq::empty()
    } else {
        written_alternative(list[0]) + more_any(list.subrange(1, list.len() as int))
    }
}

/// Conditions behind `||`.
pub open spec fn more_any(list: Seq<PredicateV>) -> Seq<char>
    decreases list, 1int,
{
    if list.len() == 0 {
        Seq::empty()
    } else {
        seq!['|', '|'] + written_alternative(list[0]) + more_any(
            list.subrange(1, list.len() as int),
        )
    }
}

/// A whole condition, as it is written.
pub open spec fn written(p: PredicateV) -> Seq<char> {
    match p {
        PredicateV::Any(list) => written_any(list),
        PredicateV::All(list) => written_all(list),
        _ => written_test(p),
    }
}

// ---------------------------------------------------------------------------
// What can be written
// ---------------------------------------------------------------------------
/// A text that can stand between single quotation marks.
pub open spec fn quotable(s: Seq<char>) -> bool {
    !s.contains('\'')
}

/// Texts that can stand between single quotation marks, at least one.
pub open spec fn all_quotable(list: Seq<Seq<char>>) -> bool {
    list.len() > 0 && forall|i: int| 0 <= i < list.len() ==> quotable(#[trigger] list[i])
}

/// A condition that combines no others and can be written.
pub open spec fn writable(p: PredicateV) -> bool {
    match p {
        PredicateV::TransportError => true,
        PredicateV::ResponseHeader(name, value) => !name.contains('}') && quotable(value),
        PredicateV::Status(list) => list.len() > 0 && retry_expr::real_codes(list),
        PredicateV::StatusAtLeast(code) => 100 <= code <= 599,
        PredicateV::Method(list) => all_quotable(list) && text::uppered(list) == list,
        PredicateV::Path(list) => all_quotable(list),
        PredicateV::Host(list) => all_quotable(list),
        PredicateV::PathRegexp(pattern) => quotable(pattern),
        PredicateV::Protocol(name) => quotable(name) && text::lower(name) == name,
        PredicateV::HeaderRegexp(name, pattern) => quotable(name) && quotable(pattern),
        PredicateV::RequestHeader(name, list) => quotable(name) && list.len() == 1 && quotable(
            list[0],
        ),
        PredicateV::Query(key, list) => quotable(key) && list.len() == 1 && quotable(list[0]),
        _ => false,
    }
}

/// Whether a condition can be read as one operand of `&&`, `depth` parentheses being open.
pub open spec fn fits_operand(p: PredicateV, depth: int) -> bool
    decreases MAX_RETRY_PREDICATE_DEPTH + 1 - depth, 1int,
{
    depth + 1 <= MAX_RETRY_PREDICATE_DEPTH && (match p {
        PredicateV::Any(list) => list.len() > 1 && forall|i: int|
            0 <= i < list.len() ==> fits_alternative(#[trigger] list[i], depth + 1),
        PredicateV::All(list) => list.len() > 1 && forall|i: int|
            0 <= i < list.len() ==> fits_operand(#[trigger] list[i], depth + 1),
        _ => writable(p),
    })
}

/// Whether a condition can be read as one operand of `||`, `depth` parentheses being open.
pub open spec fn fits_alternative(p: PredicateV, depth: int) -> bool
    decreases MAX_RETRY_PREDICATE_DEPTH + 1 - depth, 2int,
{
    match p {
        PredicateV::All(list) => list.len() > 1 && forall|i: int|
            0 <= i < list.len() ==> fits_operand(#[trigger] list[i], depth),
        _ => fits_operand(p, depth),
    }
}

/// Whether a whole condition can be read: each combination combines at least two, what is quoted
/// holds no quotation mark, statuses are between 100 and 599, and parentheses do not nest too
/// deep.
pub open spec fn fits(p: PredicateV) -> bool {
    match p {
        PredicateV::Any(list) => list.len() > 1 && forall|i: int|
            0 <= i < list.len() ==> fits_alternative(#[trigger] list[i], 0),
        _ => fits_alternative(p, 0),
    }
}

// ---------------------------------------------------------------------------
// Reading
// ---------------------------------------------------------------------------
/// What can follow an operand: nothing, an operator or a closing parenthesis.
spec fn follows(r: Seq<char>) -> bool {
    r.len() == 0 || r[0] == '&' || r[0] == '|' || r[0] == ')'
}

/// Where no white space leads, none is skipped.
pub proof fn lemma_not_skipped(s: Seq<char>)
    requires
        s.len() == 0 || !text::white(s[0]),
    ensures
        retry_expr::skipped(s) == Some(s),
{
}

/// A quoted text is read as itself.
pub proof fn lemma_literal(s: Seq<char>, r: Seq<char>)
    requires
        quotable(s),
    ensures
        retry_expr::literal(quoted(s) + r) == Read::Done(s, r),
{
    let t = quoted(s) + r;
    lemma_not_skipped(t);
    let u = t.skip(1);
    assert(u =~= s + seq!['\''] + r);
    assert(u[s.len() as int] == '\'');
    assert(u.contains('\''));
    u.index_of_first_ensures('\'');
    let end = u.index_of_first('\'')->Some_0;
    assert(end == s.len()) by {
        if end < s.len() {
            assert(s[end] == '\'');
            assert(s.contains('\''));
        }
    }
    assert(u.take(end) =~= s);
    assert(t.skip(end + 2) =~= r);
}

proof fn lemma_more_literals(held: Seq<Seq<char>>, list: Seq<Seq<char>>, r: Seq<char>)
    requires
        forall|i: int| 0 <= i < list.len() ==> quotable(#[trigger] list[i]),
        r.len() > 0,
        r[0] == ')',
    ensures
        retry_expr::more_literals(held, more_quoted(list) + r) == Read::Done(held + list, r),
    decreases list.len(),
{
    let s = more_quoted(list) + r;
    if list.len() == 0 {
        assert(s =~= r);
        lemma_not_skipped(s);
        assert(held + list =~= held);
    } else {
        let rest = list.skip(1);
        let after = more_quoted(rest) + r;
        assert(s =~= seq![','] + (quoted(list[0]) + after));
        lemma_not_skipped(s);
        assert(s.skip(1) =~= quoted(list[0]) + after);
        lemma_literal(list[0], after);
        assert forall|i: int| 0 <= i < rest.len() implies quotable(#[trigger] rest[i]) by {
            assert(rest[i] == list[i + 1]);
        }
        lemma_more_literals(held.push(list[0]), rest, r);
        assert(held.push(list[0]) + rest =~= held + list);
    }
}

/// A list of quoted texts is read as itself.
proof fn lemma_literals(list: Seq<Seq<char>>, r: Seq<char>)
    requires
        all_quotable(list),
        r.len() > 0,
        r[0] == ')',
    ensures
        retry_expr::literals(listed(list) + r) == Read::Done(list, r),
{
    let rest = list.skip(1);
    let after = more_quoted(rest) + r;
    assert(listed(list) + r =~= quoted(list[0]) + after);
    lemma_literal(list[0], after);
    assert forall|i: int| 0 <= i < rest.len() implies quotable(#[trigger] rest[i]) by {
        assert(rest[i] == list[i + 1]);
    }
    lemma_more_literals(seq![list[0]], rest, r);
    assert(seq![list[0]] + rest =~= list);
}

/// The leading characters of one kind, where another kind follows.
pub proof fn lemma_leading(a: Seq<char>, r: Seq<char>, f: spec_fn(char) -> bool)
    requires
        forall|i: int| 0 <= i < a.len() ==> f(#[trigger] a[i]),
        r.len() == 0 || !f(r[0]),
    ensures
        text::trim_left(a + r, f) == r,
        text::leading(a + r, f) == a,
    decreases a.len(),
{
    let s = a + r;
    if a.len() == 0 {
        assert(s =~= r);
        assert(text::leading(s, f) =~= a);
    } else {
        assert(s[0] == a[0]);
        assert(s.drop_first() =~= a.drop_first() + r);
        assert forall|i: int| 0 <= i < a.drop_first().len() implies f(
            #[trigger] a.drop_first()[i],
        ) by {
            assert(a.drop_first()[i] == a[i + 1]);
        }
        lemma_leading(a.drop_first(), r, f);
        assert(text::leading(s, f) =~= a);
    }
}

/// A status is read as itself.
proof fn lemma_status(code: u16, r: Seq<char>)
    requires
        100 <= code <= 599,
        r.len() == 0 || !text::digit(r[0]),
    ensures
        retry_expr::status(text::shown(code as nat) + r) == Read::Done(code, r),
{
    let a = text::shown(code as nat);
    let f = |c: char| text::digit(c);
    text::a_shown_number_reads_back(code as nat);
    assert(text::number(a, u16::MAX as nat) == Some(code as nat));
    lemma_leading(a, r, f);
    assert(text::digit(a[0]));
    assert((a + r)[0] == a[0]);
    lemma_not_skipped(a + r);
}

proof fn lemma_more_statuses(held: Seq<u16>, list: Seq<u16>, r: Seq<char>)
    requires
        list.len() > 0,
        retry_expr::real_codes(list),
    ensures
        retry_expr::more_statuses(held, numbers(list) + "]"@ + r) == Read::Done(held + list, r),
    decreases list.len(),
{
    reveal_strlit("]");
    assert("]"@ =~= seq![']']);
    let s = numbers(list) + "]"@ + r;
    let rest = list.skip(1);
    assert(100 <= list[0] <= 599);
    text::a_shown_number_reads_back(list[0] as nat);
    if rest.len() == 0 {
        let after = seq![']'] + r;
        assert(s =~= text::shown(list[0] as nat) + after);
        lemma_status(list[0], after);
        lemma_not_skipped(after);
        assert(after.skip(1) =~= r);
        assert(held.push(list[0]) =~= held + list);
    } else {
        let next = numbers(rest) + "]"@ + r;
        let after = seq![','] + next;
        assert(s =~= text::shown(list[0] as nat) + after);
        lemma_status(list[0], after);
        lemma_not_skipped(after);
        assert(after.skip(1) =~= next);
        assert forall|i: int| 0 <= i < rest.len() implies 100 <= #[trigger] rest[i] <= 599 by {
            assert(rest[i] == list[i + 1]);
        }
        lemma_more_statuses(held.push(list[0]), rest, r);
        assert(held.push(list[0]) + rest =~= held + list);
    }
}

/// What a placeholder test comes to depends on the field and on what follows.
proof fn lemma_placeholder(field: Seq<char>, rest: Seq<char>)
    requires
        !field.contains('}'),
    ensures
        ({
            let s = seq!['{', 'r', 'p', '.'] + field + seq!['}'] + rest;
            s.index_of_first('}') == Some((4 + field.len()) as int) && s.subrange(
                1,
                (4 + field.len()) as int,
            ) == seq!['r', 'p', '.'] + field && s.skip((4 + field.len()) as int + 1) == rest
                && retry_expr::placeholder_field(seq!['r', 'p', '.'] + field) == Some(field)
                && s.len() > 0 && s[0] == '{'
        }),
{
    let s = seq!['{', 'r', 'p', '.'] + field + seq!['}'] + rest;
    let n = (4 + field.len()) as int;
    assert(s[n] == '}');
    assert(s.contains('}'));
    s.index_of_first_ensures('}');
    let end = s.index_of_first('}')->Some_0;
    assert(end == n) by {
        if end < n {
            if end >= 4 {
                assert(field[end - 4] == '}');
                assert(field.contains('}'));
            }
        }
    }
    let name = seq!['r', 'p', '.'] + field;
    assert(s.subrange(1, n) =~= name);
    assert(s.skip(n + 1) =~= rest);
    reveal_strlit("rp.");
    assert("rp."@ =~= seq!['r', 'p', '.']);
    assert(name.take(3) =~= "rp."@);
    assert(name.skip(3) =~= field);
}

proof fn lemma_transport_error(r: Seq<char>)
    ensures
        retry_expr::placeholder_test("{rp.is_transport_error}"@ + r) == Read::Done(
            PredicateV::TransportError,
            r,
        ),
        ("{rp.is_transport_error}"@ + r)[0] == '{',
{
    reveal_strlit("{rp.is_transport_error}");
    reveal_strlit("is_transport_error");
    let field = "is_transport_error"@;
    assert(!field.contains('}'));
    lemma_placeholder(field, r);
    assert("{rp.is_transport_error}"@ + r =~= seq!['{', 'r', 'p', '.'] + field + seq!['}'] + r);
}

proof fn lemma_response_header(name: Seq<char>, value: Seq<char>, r: Seq<char>)
    requires
        !name.contains('}'),
        quotable(value),
    ensures
        retry_expr::placeholder_test(
            "{rp.header."@ + name + "}=="@ + quoted(value) + r,
        ) == Read::Done(PredicateV::ResponseHeader(name, value), r),
{
    reveal_strlit("{rp.header.");
    reveal_strlit("header.");
    reveal_strlit("}==");
    reveal_strlit("is_transport_error");
    let field = "header."@ + name;
    assert(!field.contains('}')) by {
        if field.contains('}') {
            let k = choose|k: int| 0 <= k < field.len() && field[k] == '}';
            if k >= 7 {
                assert(name[k - 7] == '}');
                assert(name.contains('}'));
            }
        }
    }
    let rest = seq!['=', '='] + (quoted(value) + r);
    lemma_placeholder(field, rest);
    assert("{rp.header."@ + name + "}=="@ + quoted(value) + r =~= seq!['{', 'r', 'p', '.'] + field
        + seq!['}'] + rest);
    assert(field[0] == 'h');
    assert("is_transport_error"@[0] == 'i');
    assert(field.take(7) =~= "header."@);
    assert(field.skip(7) =~= name);
    lemma_not_skipped(rest);
    assert(rest.skip(2) =~= quoted(value) + r);
    lemma_literal(value, r);
}

/// What a test of the status comes to is what follows the placeholder.
proof fn lemma_status_field(rest: Seq<char>)
    ensures
        retry_expr::placeholder_test("{rp.status_code}"@ + rest) == retry_expr::status_test(rest),
        ("{rp.status_code}"@ + rest)[0] == '{',
{
    reveal_strlit("{rp.status_code}");
    reveal_strlit("status_code");
    reveal_strlit("header.");
    reveal_strlit("is_transport_error");
    let field = "status_code"@;
    assert(!field.contains('}'));
    lemma_placeholder(field, rest);
    assert("{rp.status_code}"@ + rest =~= seq!['{', 'r', 'p', '.'] + field + seq!['}'] + rest);
    assert(field[0] == 's');
    assert("is_transport_error"@[0] == 'i');
    assert("header."@[0] == 'h');
    assert(!text::starts(field, "header."@)) by {
        assert(field.take(7)[0] == 's');
    }
}

proof fn lemma_status_tests(list: Seq<u16>, r: Seq<char>)
    requires
        list.len() > 0,
        retry_expr::real_codes(list),
        follows(r),
    ensures
        retry_expr::placeholder_test(written_test(PredicateV::Status(list)) + r) == Read::Done(
            PredicateV::Status(list),
            r,
        ),
        retry_expr::placeholder_test(
            written_test(PredicateV::StatusAtLeast(list[0])) + r,
        ) == Read::Done(PredicateV::StatusAtLeast(list[0]), r),
        (written_test(PredicateV::Status(list)) + r)[0] == '{',
        (written_test(PredicateV::StatusAtLeast(list[0])) + r)[0] == '{',
{
    reveal_strlit("{rp.status_code}");
    reveal_strlit("{rp.status_code}==");
    reveal_strlit("{rp.status_code}>=");
    reveal_strlit("{rp.status_code}in[");
    let code = text::shown(list[0] as nat);
    assert(100 <= list[0] <= 599);
    lemma_status(list[0], r);
    let least = seq!['>', '='] + (code + r);
    assert("{rp.status_code}>="@ + code + r =~= "{rp.status_code}"@ + least);
    lemma_status_field(least);
    lemma_not_skipped(least);
    assert(least.skip(2) =~= code + r);
    if list.len() == 1 {
        let rest = seq!['=', '='] + (code + r);
        assert("{rp.status_code}=="@ + code + r =~= "{rp.status_code}"@ + rest);
        lemma_status_field(rest);
        lemma_not_skipped(rest);
        assert(rest.skip(2) =~= code + r);
        assert(seq![list[0]] =~= list);
    } else {
        let inside = numbers(list) + "]"@ + r;
        let rest = seq!['i', 'n'] + (seq!['['] + inside);
        assert("{rp.status_code}in["@ + numbers(list) + "]"@ + r =~= "{rp.status_code}"@ + rest);
        lemma_status_field(rest);
        lemma_not_skipped(rest);
        assert(rest.skip(2) =~= seq!['['] + inside);
        lemma_not_skipped(seq!['['] + inside);
        assert((seq!['['] + inside).skip(1) =~= inside);
        lemma_more_statuses(Seq::empty(), list, r);
        assert(Seq::<u16>::empty() + list =~= list);
    }
}

/// A call is read as what its arguments come to.
proof fn lemma_call(name: Seq<char>, inside: Seq<char>, p: PredicateV, r: Seq<char>)
    requires
        name.len() > 0,
        forall|i: int| 0 <= i < name.len() ==> retry_expr::name_char(#[trigger] name[i]),
        retry_expr::arguments(name, inside + (seq![')'] + r)) == Read::Done(p, seq![')'] + r),
    ensures
        retry_expr::function(call(name, inside) + r) == Read::Done(p, r),
        (call(name, inside) + r)[0] == name[0],
{
    let s = call(name, inside) + r;
    let f = |c: char| retry_expr::name_char(c);
    let rest = seq!['('] + (inside + (seq![')'] + r));
    assert(s =~= name + rest);
    assert(s[0] == name[0]);
    assert(retry_expr::name_char(name[0]));
    lemma_not_skipped(s);
    lemma_leading(name, rest, f);
    lemma_not_skipped(rest);
    assert(rest.skip(1) =~= inside + (seq![')'] + r));
    let last = seq![')'] + r;
    lemma_not_skipped(last);
    assert(last.skip(1) =~= r);
}

/// One entry of a map is read as itself.
proof fn lemma_entry(key: Seq<char>, value: Seq<char>, function: Seq<char>, r: Seq<char>)
    requires
        quotable(key),
        quotable(value),
    ensures
        retry_expr::entry(
            seq!['{'] + quoted(key) + seq![':'] + quoted(value) + seq!['}'] + r,
            function,
        ) == Read::Done((key, value), r),
{
    let s = seq!['{'] + quoted(key) + seq![':'] + quoted(value) + seq!['}'] + r;
    let a = quoted(key) + (seq![':'] + (quoted(value) + (seq!['}'] + r)));
    let b = seq![':'] + (quoted(value) + (seq!['}'] + r));
    let c = quoted(value) + (seq!['}'] + r);
    let d = seq!['}'] + r;
    assert(s =~= seq!['{'] + a);
    lemma_not_skipped(s);
    assert(s.skip(1) =~= a);
    lemma_literal(key, b);
    lemma_not_skipped(b);
    assert(b.skip(1) =~= c);
    lemma_literal(value, d);
    lemma_not_skipped(d);
    assert(d.skip(1) =~= r);
}

/// The functions of the grammar, and what they are not.
pub proof fn lemma_functions()
    ensures
        "method"@ != "path"@ && "method"@ != "host"@ && "path"@ != "host"@,
        "path_regexp"@ != "method"@ && "path_regexp"@ != "path"@ && "path_regexp"@ != "host"@
            && "path_regexp"@ != "protocol"@,
        "protocol"@ != "method"@ && "protocol"@ != "path"@ && "protocol"@ != "host"@,
        "header_regexp"@ != "method"@ && "header_regexp"@ != "path"@ && "header_regexp"@ != "host"@
            && "header_regexp"@ != "path_regexp"@ && "header_regexp"@ != "protocol"@,
        "header"@ != "method"@ && "header"@ != "path"@ && "header"@ != "host"@ && "header"@
            != "path_regexp"@ && "header"@ != "protocol"@ && "header"@ != "header_regexp"@,
        "query"@ != "method"@ && "query"@ != "path"@ && "query"@ != "host"@ && "query"@
            != "path_regexp"@ && "query"@ != "protocol"@ && "query"@ != "header_regexp"@ && "query"@
            != "header"@,
{
    reveal_strlit("method");
    reveal_strlit("path");
    reveal_strlit("host");
    reveal_strlit("path_regexp");
    reveal_strlit("protocol");
    reveal_strlit("header_regexp");
    reveal_strlit("header");
    reveal_strlit("query");
    assert("method"@.len() == 6 && "method"@[0] == 'm');
    assert("path"@.len() == 4 && "path"@[0] == 'p');
    assert("host"@.len() == 4 && "host"@[0] == 'h');
    assert("path_regexp"@.len() == 11);
    assert("protocol"@.len() == 8);
    assert("header_regexp"@.len() == 13);
    assert("header"@.len() == 6 && "header"@[0] == 'h');
    assert("query"@.len() == 5);
}

/// The names of functions are made of the characters of names.
proof fn lemma_function_names(name: Seq<char>)
    requires
        name == "method"@ || name == "path"@ || name == "host"@ || name == "path_regexp"@ || name
            == "protocol"@ || name == "header_regexp"@ || name == "header"@ || name == "query"@,
    ensures
        name.len() > 0,
        forall|i: int| 0 <= i < name.len() ==> retry_expr::name_char(#[trigger] name[i]),
{
    reveal_strlit("method");
    reveal_strlit("path");
    reveal_strlit("host");
    reveal_strlit("path_regexp");
    reveal_strlit("protocol");
    reveal_strlit("header_regexp");
    reveal_strlit("header");
    reveal_strlit("query");
}

/// A condition that combines no others is read as itself.
proof fn lemma_test(p: PredicateV, r: Seq<char>)
    requires
        writable(p),
        follows(r),
    ensures
        ({
            let s = written_test(p) + r;
            s.len() > 0 && !text::white(s[0]) && s[0] != '(' && (if s[0] == '{' {
                retry_expr::placeholder_test(s)
            } else {
                retry_expr::function(s)
            }) == Read::Done(p, r)
        }),
{
    let last = seq![')'] + r;
    lemma_functions();
    match p {
        PredicateV::TransportError => {
            lemma_transport_error(r);
            reveal_strlit("{rp.is_transport_error}");
        },
        PredicateV::ResponseHeader(name, value) => {
            lemma_response_header(name, value, r);
            reveal_strlit("{rp.header.");
        },
        PredicateV::Status(list) => {
            lemma_status_tests(list, r);
            reveal_strlit("{rp.status_code}==");
            reveal_strlit("{rp.status_code}in[");
        },
        PredicateV::StatusAtLeast(code) => {
            lemma_status_tests(seq![code], r);
            reveal_strlit("{rp.status_code}>=");
        },
        PredicateV::Method(list) => {
            lemma_literals(list, last);
            lemma_function_names("method"@);
            lemma_call("method"@, listed(list), p, r);
        },
        PredicateV::Path(list) => {
            lemma_literals(list, last);
            lemma_function_names("path"@);
            lemma_call("path"@, listed(list), p, r);
        },
        PredicateV::Host(list) => {
            lemma_literals(list, last);
            lemma_function_names("host"@);
            lemma_call("host"@, listed(list), p, r);
        },
        PredicateV::PathRegexp(pattern) => {
            lemma_literal(pattern, last);
            lemma_function_names("path_regexp"@);
            lemma_call("path_regexp"@, quoted(pattern), p, r);
        },
        PredicateV::Protocol(name) => {
            lemma_literal(name, last);
            lemma_function_names("protocol"@);
            lemma_call("protocol"@, quoted(name), p, r);
        },
        PredicateV::HeaderRegexp(name, pattern) => {
            let inside = quoted(name) + seq![','] + quoted(pattern);
            let next = seq![','] + (quoted(pattern) + last);
            assert(inside + last =~= quoted(name) + next);
            lemma_literal(name, next);
            lemma_not_skipped(next);
            assert(next.skip(1) =~= quoted(pattern) + last);
            lemma_literal(pattern, last);
            lemma_function_names("header_regexp"@);
            lemma_call("header_regexp"@, inside, p, r);
        },
        PredicateV::RequestHeader(name, list) => {
            lemma_entry(name, list[0], "header"@, last);
            assert(seq![list[0]] =~= list);
            lemma_function_names("header"@);
            lemma_call(
                "header"@,
                seq!['{'] + quoted(name) + seq![':'] + quoted(list[0]) + seq!['}'],
                p,
                r,
            );
        },
        PredicateV::Query(key, list) => {
            lemma_entry(key, list[0], "query"@, last);
            assert(seq![list[0]] =~= list);
            lemma_function_names("query"@);
            lemma_call(
                "query"@,
                seq!['{'] + quoted(key) + seq![':'] + quoted(list[0]) + seq!['}'],
                p,
                r,
            );
        },
        _ => {},
    }
}

proof fn lemma_operand(p: PredicateV, depth: int, r: Seq<char>)
    requires
        0 <= depth,
        fits_operand(p, depth),
        follows(r),
    ensures
        retry_expr::primary(written_operand(p) + r, depth) == Read::Done(p, r),
        written_operand(p).len() > 0,
        !text::white(written_operand(p)[0]),
    decreases MAX_RETRY_PREDICATE_DEPTH + 1 - depth, 1int, 0int,
{
    let s = written_operand(p) + r;
    let last = seq![')'] + r;
    match p {
        PredicateV::Any(list) => {
            let inner = written_any(list) + last;
            assert(s =~= seq!['('] + inner);
            lemma_not_skipped(s);
            assert(s.skip(1) =~= inner);
            lemma_any(list, depth + 1, last);
            lemma_not_skipped(last);
            assert(last.skip(1) =~= r);
            assert(written_operand(p)[0] == '(');
        },
        PredicateV::All(list) => {
            let inner = written_all(list) + last;
            assert(s =~= seq!['('] + inner);
            lemma_not_skipped(s);
            assert(s.skip(1) =~= inner);
            lemma_all(list, depth + 1, last);
            lemma_not_skipped(last);
            assert(last.skip(1) =~= r);
            assert(written_operand(p)[0] == '(');
            let rest = retry_expr::and(inner, depth + 1)->Done_1;
            assert(rest == last);
            assert(retry_expr::eaten_pair(last, '|', '|') == Some((false, last)));
            assert(retry_expr::or_more(seq![p], last, depth + 1) == Read::Done(p, last));
        },
        _ => {
            lemma_test(p, r);
            lemma_not_skipped(s);
            if written_test(p).len() == 0 {
                lemma_test(p, Seq::empty());
            }
            assert(s[0] == written_test(p)[0]);
        },
    }
}

proof fn lemma_more_all(held: Seq<PredicateV>, list: Seq<PredicateV>, depth: int, r: Seq<char>)
    requires
        0 <= depth,
        held.len() > 0,
        held.len() + list.len() > 1,
        forall|i: int| 0 <= i < list.len() ==> fits_operand(#[trigger] list[i], depth),
        r.len() == 0 || r[0] == '|' || r[0] == ')',
    ensures
        retry_expr::and_more(held, more_all(list) + r, depth) == Read::Done(
            PredicateV::All(held + list),
            r,
        ),
    decreases MAX_RETRY_PREDICATE_DEPTH + 1 - depth, 2int, list.len(),
{
    let s = more_all(list) + r;
    if list.len() == 0 {
        assert(s =~= r);
        lemma_not_skipped(s);
        assert(held + list =~= held);
    } else {
        let rest = list.subrange(1, list.len() as int);
        let after = more_all(rest) + r;
        let next = written_operand(list[0]) + after;
        assert(s =~= seq!['&', '&'] + next);
        lemma_not_skipped(s);
        assert(s.skip(2) =~= next);
        assert(follows(after)) by {
            if rest.len() > 0 {
                assert(after[0] == '&');
            } else {
                assert(after =~= r);
            }
        }
        lemma_operand(list[0], depth, after);
        assert forall|i: int| 0 <= i < rest.len() implies fits_operand(
            #[trigger] rest[i],
            depth,
        ) by {
            assert(rest[i] == list[i + 1]);
        }
        lemma_more_all(held.push(list[0]), rest, depth, r);
        assert(held.push(list[0]) + rest =~= held + list);
    }
}

proof fn lemma_all(list: Seq<PredicateV>, depth: int, r: Seq<char>)
    requires
        0 <= depth,
        list.len() > 1,
        forall|i: int| 0 <= i < list.len() ==> fits_operand(#[trigger] list[i], depth),
        r.len() == 0 || r[0] == '|' || r[0] == ')',
    ensures
        retry_expr::and(written_all(list) + r, depth) == Read::Done(PredicateV::All(list), r),
        written_all(list).len() > 0,
        !text::white(written_all(list)[0]),
    decreases MAX_RETRY_PREDICATE_DEPTH + 1 - depth, 3int, 0int,
{
    let rest = list.subrange(1, list.len() as int);
    let after = more_all(rest) + r;
    assert(written_all(list) + r =~= written_operand(list[0]) + after);
    assert(after[0] == '&');
    lemma_operand(list[0], depth, after);
    assert forall|i: int| 0 <= i < rest.len() implies fits_operand(#[trigger] rest[i], depth) by {
        assert(rest[i] == list[i + 1]);
    }
    lemma_more_all(seq![list[0]], rest, depth, r);
    assert(seq![list[0]] + rest =~= list);
    assert(written_all(list)[0] == written_operand(list[0])[0]);
}

proof fn lemma_alternative(p: PredicateV, depth: int, r: Seq<char>)
    requires
        0 <= depth,
        fits_alternative(p, depth),
        r.len() == 0 || r[0] == '|' || r[0] == ')',
    ensures
        retry_expr::and(written_alternative(p) + r, depth) == Read::Done(p, r),
        written_alternative(p).len() > 0,
        !text::white(written_alternative(p)[0]),
    decreases MAX_RETRY_PREDICATE_DEPTH + 1 - depth, 4int, 0int,
{
    match p {
        PredicateV::All(list) => {
            lemma_all(list, depth, r);
        },
        _ => {
            lemma_operand(p, depth, r);
            lemma_not_skipped(r);
            assert(retry_expr::and_more(seq![p], r, depth) == Read::Done(p, r));
        },
    }
}

proof fn lemma_more_any(held: Seq<PredicateV>, list: Seq<PredicateV>, depth: int, r: Seq<char>)
    requires
        0 <= depth,
        held.len() > 0,
        held.len() + list.len() > 1,
        forall|i: int| 0 <= i < list.len() ==> fits_alternative(#[trigger] list[i], depth),
        r.len() == 0 || r[0] == ')',
    ensures
        retry_expr::or_more(held, more_any(list) + r, depth) == Read::Done(
            PredicateV::Any(held + list),
            r,
        ),
    decreases MAX_RETRY_PREDICATE_DEPTH + 1 - depth, 5int, list.len(),
{
    let s = more_any(list) + r;
    if list.len() == 0 {
        assert(s =~= r);
        lemma_not_skipped(s);
        assert(held + list =~= held);
    } else {
        let rest = list.subrange(1, list.len() as int);
        let after = more_any(rest) + r;
        let next = written_alternative(list[0]) + after;
        assert(s =~= seq!['|', '|'] + next);
        lemma_not_skipped(s);
        assert(s.skip(2) =~= next);
        assert(after.len() == 0 || after[0] == '|' || after[0] == ')') by {
            if rest.len() > 0 {
                assert(after[0] == '|');
            } else {
                assert(after =~= r);
            }
        }
        lemma_alternative(list[0], depth, after);
        assert forall|i: int| 0 <= i < rest.len() implies fits_alternative(
            #[trigger] rest[i],
            depth,
        ) by {
            assert(rest[i] == list[i + 1]);
        }
        lemma_more_any(held.push(list[0]), rest, depth, r);
        assert(held.push(list[0]) + rest =~= held + list);
    }
}

proof fn lemma_any(list: Seq<PredicateV>, depth: int, r: Seq<char>)
    requires
        0 <= depth,
        list.len() > 1,
        forall|i: int| 0 <= i < list.len() ==> fits_alternative(#[trigger] list[i], depth),
        r.len() == 0 || r[0] == ')',
    ensures
        retry_expr::or(written_any(list) + r, depth) == Read::Done(PredicateV::Any(list), r),
        written_any(list).len() > 0,
        !text::white(written_any(list)[0]),
    decreases MAX_RETRY_PREDICATE_DEPTH + 1 - depth, 6int, 0int,
{
    let rest = list.subrange(1, list.len() as int);
    let after = more_any(rest) + r;
    assert(written_any(list) + r =~= written_alternative(list[0]) + after);
    assert(after[0] == '|');
    lemma_alternative(list[0], depth, after);
    assert forall|i: int| 0 <= i < rest.len() implies fits_alternative(
        #[trigger] rest[i],
        depth,
    ) by {
        assert(rest[i] == list[i + 1]);
    }
    lemma_more_any(seq![list[0]], rest, depth, r);
    assert(seq![list[0]] + rest =~= list);
    assert(written_any(list)[0] == written_alternative(list[0])[0]);
}

/// A character that can stand at either end of a condition.
spec fn neat(c: char) -> bool {
    !text::white(c) && c != '`'
}

/// A text that nothing is trimmed from.
spec fn tidy(s: Seq<char>) -> bool {
    s.len() > 0 && neat(s[0]) && neat(s.last())
}

proof fn lemma_tidy_test(p: PredicateV)
    requires
        writable(p),
    ensures
        tidy(written_test(p)),
{
    reveal_strlit("{rp.is_transport_error}");
    reveal_strlit("{rp.header.");
    reveal_strlit("{rp.status_code}==");
    reveal_strlit("{rp.status_code}>=");
    reveal_strlit("{rp.status_code}in[");
    reveal_strlit("]");
    let s = written_test(p);
    match p {
        PredicateV::Status(list) => {
            text::a_shown_number_reads_back(list[0] as nat);
            let a = text::shown(list[0] as nat);
            assert(text::digit(a[a.len() - 1]));
        },
        PredicateV::StatusAtLeast(code) => {
            text::a_shown_number_reads_back(code as nat);
            let a = text::shown(code as nat);
            assert(text::digit(a[a.len() - 1]));
        },
        PredicateV::Method(_) => {
            lemma_function_names("method"@);
        },
        PredicateV::Path(_) => {
            lemma_function_names("path"@);
        },
        PredicateV::Host(_) => {
            lemma_function_names("host"@);
        },
        PredicateV::PathRegexp(_) => {
            lemma_function_names("path_regexp"@);
        },
        PredicateV::Protocol(_) => {
            lemma_function_names("protocol"@);
        },
        PredicateV::HeaderRegexp(_, _) => {
            lemma_function_names("header_regexp"@);
        },
        PredicateV::RequestHeader(_, _) => {
            lemma_function_names("header"@);
        },
        PredicateV::Query(_, _) => {
            lemma_function_names("query"@);
        },
        _ => {},
    }
}

proof fn lemma_tidy_operand(p: PredicateV, depth: int)
    requires
        fits_operand(p, depth),
    ensures
        tidy(written_operand(p)),
{
    match p {
        PredicateV::Any(list) => {},
        PredicateV::All(list) => {},
        _ => {
            lemma_tidy_test(p);
        },
    }
}

proof fn lemma_tidy_more_all(list: Seq<PredicateV>, depth: int)
    requires
        list.len() > 0,
        forall|i: int| 0 <= i < list.len() ==> fits_operand(#[trigger] list[i], depth),
    ensures
        tidy(more_all(list)),
    decreases list.len(),
{
    let rest = list.subrange(1, list.len() as int);
    lemma_tidy_operand(list[0], depth);
    if rest.len() > 0 {
        assert forall|i: int| 0 <= i < rest.len() implies fits_operand(
            #[trigger] rest[i],
            depth,
        ) by {
            assert(rest[i] == list[i + 1]);
        }
        lemma_tidy_more_all(rest, depth);
    }
    let first = seq!['&', '&'] + written_operand(list[0]);
    assert(more_all(list) == first + more_all(rest));
    assert(first.last() == written_operand(list[0]).last());
    assert(more_all(list)[0] == '&');
    assert(more_all(list).last() == if rest.len() > 0 {
        more_all(rest).last()
    } else {
        first.last()
    });
}

proof fn lemma_tidy_all(list: Seq<PredicateV>, depth: int)
    requires
        list.len() > 1,
        forall|i: int| 0 <= i < list.len() ==> fits_operand(#[trigger] list[i], depth),
    ensures
        tidy(written_all(list)),
{
    let rest = list.subrange(1, list.len() as int);
    lemma_tidy_operand(list[0], depth);
    assert forall|i: int| 0 <= i < rest.len() implies fits_operand(#[trigger] rest[i], depth) by {
        assert(rest[i] == list[i + 1]);
    }
    lemma_tidy_more_all(rest, depth);
}

proof fn lemma_tidy_alternative(p: PredicateV, depth: int)
    requires
        fits_alternative(p, depth),
    ensures
        tidy(written_alternative(p)),
{
    match p {
        PredicateV::All(list) => {
            lemma_tidy_all(list, depth);
        },
        _ => {
            lemma_tidy_operand(p, depth);
        },
    }
}

proof fn lemma_tidy_more_any(list: Seq<PredicateV>, depth: int)
    requires
        list.len() > 0,
        forall|i: int| 0 <= i < list.len() ==> fits_alternative(#[trigger] list[i], depth),
    ensures
        tidy(more_any(list)),
    decreases list.len(),
{
    let rest = list.subrange(1, list.len() as int);
    lemma_tidy_alternative(list[0], depth);
    if rest.len() > 0 {
        assert forall|i: int| 0 <= i < rest.len() implies fits_alternative(
            #[trigger] rest[i],
            depth,
        ) by {
            assert(rest[i] == list[i + 1]);
        }
        lemma_tidy_more_any(rest, depth);
    }
    let first = seq!['|', '|'] + written_alternative(list[0]);
    assert(more_any(list) == first + more_any(rest));
    assert(first.last() == written_alternative(list[0]).last());
    assert(more_any(list)[0] == '|');
    assert(more_any(list).last() == if rest.len() > 0 {
        more_any(rest).last()
    } else {
        first.last()
    });
}

proof fn lemma_tidy_written(p: PredicateV)
    requires
        fits(p),
    ensures
        tidy(written(p)),
{
    match p {
        PredicateV::Any(list) => {
            let rest = list.subrange(1, list.len() as int);
            lemma_tidy_alternative(list[0], 0);
            assert forall|i: int| 0 <= i < rest.len() implies fits_alternative(
                #[trigger] rest[i],
                0,
            ) by {
                assert(rest[i] == list[i + 1]);
            }
            lemma_tidy_more_any(rest, 0);
        },
        _ => {
            lemma_tidy_alternative(p, 0);
        },
    }
}

proof fn lemma_marks(s: Seq<char>)
    requires
        tidy(s),
    ensures
        text::trimmed_both(s, '`') == s,
        text::trimmed_both(seq!['`'] + s + seq!['`'], '`') == s,
{
    let mark = seq!['`'];
    let front = s + mark;
    let marked = mark + s + mark;
    assert(marked[0] == '`');
    assert(marked.drop_first() =~= front);
    assert(front[0] == s[0]);
    assert(front.last() == '`');
    assert(front.drop_last() =~= s);
    assert(text::trimmed_start(front, '`') == front);
    assert(text::trimmed_start(marked, '`') == front);
    assert(text::trimmed_end(s, '`') == s);
    assert(text::trimmed_end(front, '`') == s);
    assert(text::trimmed_start(s, '`') == s);
}

/// What is tidy stays as it is, and backticks around it go.
proof fn lemma_unmarked(s: Seq<char>)
    requires
        tidy(s),
    ensures
        retry_expr::unmarked(s) == s,
        retry_expr::unmarked(seq!['`'] + s + seq!['`']) == s,
{
    let marked = seq!['`'] + s + seq!['`'];
    assert(text::trimmed(s) == s);
    assert(text::trimmed(marked) == marked);
    lemma_marks(s);
}

/// Written out and read again, a condition is itself, with or without backticks around it. A
/// conjunction needs no parentheses inside a disjunction.
pub proof fn a_condition_that_is_written_is_read_back(p: PredicateV)
    requires
        fits(p),
    ensures
        retry_expr::parsed(written(p)) == Read::Done(p, Seq::<char>::empty()),
        retry_expr::parsed(seq!['`'] + written(p) + seq!['`']) == Read::Done(
            p,
            Seq::<char>::empty(),
        ),
{
    let none = Seq::<char>::empty();
    let s = written(p);
    lemma_tidy_written(p);
    lemma_unmarked(s);
    assert(s + none =~= s);
    match p {
        PredicateV::Any(list) => {
            lemma_any(list, 0, none);
        },
        _ => {
            lemma_alternative(p, 0, none);
            lemma_not_skipped(none);
            assert(retry_expr::or_more(seq![p], none, 0) == Read::Done(p, none));
        },
    }
    lemma_not_skipped(none);
}

/// A test of the path is about the path and one of the host about the host, whatever text they
/// name.
pub proof fn a_test_is_about_what_it_names(s: Seq<char>)
    requires
        quotable(s),
    ensures
        retry_expr::parsed(call("path"@, quoted(s))) == Read::Done(
            PredicateV::Path(seq![s]),
            Seq::<char>::empty(),
        ),
        retry_expr::parsed(call("host"@, quoted(s))) == Read::Done(
            PredicateV::Host(seq![s]),
            Seq::<char>::empty(),
        ),
        retry_expr::parsed(call("path_regexp"@, quoted(s))) == Read::Done(
            PredicateV::PathRegexp(s),
            Seq::<char>::empty(),
        ),
{
    let list = seq![s];
    assert(more_quoted(list.skip(1)) =~= Seq::empty());
    assert(listed(list) =~= quoted(s));
    assert(all_quotable(list));
    a_condition_that_is_written_is_read_back(PredicateV::Path(list));
    a_condition_that_is_written_is_read_back(PredicateV::Host(list));
    a_condition_that_is_written_is_read_back(PredicateV::PathRegexp(s));
}

/// Different conditions are written differently.
pub proof fn different_conditions_are_written_differently(p: PredicateV, q: PredicateV)
    requires
        fits(p),
        fits(q),
        p != q,
    ensures
        written(p) != written(q),
{
    a_condition_that_is_written_is_read_back(p);
    a_condition_that_is_written_is_read_back(q);
}

/// Methods are written in any case and read in upper case; a protocol is read in lower case.
pub proof fn methods_and_protocols_are_written_in_any_case(
    list: Seq<Seq<char>>,
    name: Seq<char>,
    rest: Seq<char>,
)
    requires
        all_quotable(list),
        quotable(name),
    ensures
        retry_expr::function(call("method"@, listed(list)) + rest) == Read::Done(
            PredicateV::Method(text::uppered(list)),
            rest,
        ),
        retry_expr::function(call("protocol"@, quoted(name)) + rest) == Read::Done(
            PredicateV::Protocol(text::lower(name)),
            rest,
        ),
{
    let last = seq![')'] + rest;
    lemma_functions();
    lemma_literals(list, last);
    lemma_function_names("method"@);
    lemma_call("method"@, listed(list), PredicateV::Method(text::uppered(list)), rest);
    lemma_literal(name, last);
    lemma_function_names("protocol"@);
    lemma_call("protocol"@, quoted(name), PredicateV::Protocol(text::lower(name)), rest);
}

/// A placeholder has a short and a long spelling that mean the same.
pub proof fn a_placeholder_has_a_long_spelling(field: Seq<char>)
    ensures
        retry_expr::placeholder_field("rp."@ + field) == Some(field),
        retry_expr::placeholder_field("http.reverse_proxy."@ + field) == Some(field),
{
    reveal_strlit("rp.");
    reveal_strlit("http.reverse_proxy.");
    assert("rp."@.len() == 3 && "rp."@[0] == 'r' && "http.reverse_proxy."@[0] == 'h');
    let a = "rp."@ + field;
    let b = "http.reverse_proxy."@ + field;
    assert(a.take(3) =~= "rp."@);
    assert(a.skip(3) =~= field);
    assert(b.take("http.reverse_proxy."@.len() as int) =~= "http.reverse_proxy."@);
    assert(b.skip("http.reverse_proxy."@.len() as int) =~= field);
    assert(!text::starts(b, "rp."@)) by {
        if text::starts(b, "rp."@) {
            assert(b.take(3)[0] == b[0]);
        }
    }
}

/// A number that is no status between 100 and 599 is refused.
pub proof fn a_status_is_between_100_and_599(code: u16, rest: Seq<char>)
    requires
        !(100 <= code <= 599),
        rest.len() == 0 || !text::digit(rest[0]),
    ensures
        retry_expr::status(text::shown(code as nat) + rest) is Refused,
{
    let a = text::shown(code as nat);
    let f = |c: char| text::digit(c);
    text::a_shown_number_reads_back(code as nat);
    assert(text::number(a, u16::MAX as nat) == Some(code as nat));
    lemma_leading(a, rest, f);
    assert(text::digit(a[0]));
    assert((a + rest)[0] == a[0]);
    lemma_not_skipped(a + rest);
}

/// Parentheses nest no deeper than the bound.
pub proof fn parentheses_nest_no_deeper_than_the_bound(s: Seq<char>)
    ensures
        retry_expr::primary(s, MAX_RETRY_PREDICATE_DEPTH as int) is Refused,
{
}

} // verus!
