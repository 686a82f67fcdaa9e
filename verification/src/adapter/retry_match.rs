//! The `lb_retry_match` option of a reverse proxy.

use crate::adapter::args;
use crate::adapter::args::args_from;
use crate::ast::proxy::{RetryConfig, RetryConfigV};
use crate::error;
use crate::error::{invalid, miscount, AdapterError, ErrorV};
use crate::fold;
use crate::fold::fold_directives;
use crate::syntax::{Directive, DirectiveV};
use crate::text;
use crate::text::{
    cat3, cat5, cut_at, holds, parse_u16, same, split, strip, strip_end, to_upper, trim, trim_both,
    upper_each, word,
};
use vstd::prelude::*;

verus! {

/// `code` in its place among codes in ascending order.
pub open spec fn placed(codes: Seq<u16>, code: u16) -> Seq<u16>
    decreases codes.len(),
{
    if codes.len() == 0 || codes.last() < code {
        codes.push(code)
    } else if codes.last() == code {
        codes
    } else {
        placed(codes.drop_last(), code).push(codes.last())
    }
}

/// The codes in ascending order, each once.
pub open spec fn ordered(codes: Seq<u16>) -> Seq<u16>
    decreases codes.len(),
{
    if codes.len() == 0 {
        codes
    } else {
        placed(ordered(codes.drop_last()), codes.last())
    }
}

/// Each code is greater than the one before it.
pub open spec fn ascending(codes: Seq<u16>) -> bool {
    forall|i: int, j: int| 0 <= i < j < codes.len() ==> codes[i] < codes[j]
}

/// Putting a code in its place keeps the order and adds that code alone.
proof fn lemma_placed(codes: Seq<u16>, code: u16)
    requires
        ascending(codes),
    ensures
        ascending(placed(codes, code)),
        forall|c: u16| #[trigger]
            placed(codes, code).contains(c) <==> (codes.contains(c) || c == code),
    decreases codes.len(),
{
    let p = placed(codes, code);
    if codes.len() == 0 || codes.last() < code {
        assert forall|i: int, j: int| 0 <= i < j < p.len() implies p[i] < p[j] by {
            if j == codes.len() {
                assert(codes[i] <= codes.last());
            }
        }
        assert(p[codes.len() as int] == code);
        assert forall|c: u16| #[trigger] p.contains(c) <==> (codes.contains(c) || c == code) by {
            if codes.contains(c) {
                let k = choose|k: int| 0 <= k < codes.len() && codes[k] == c;
                assert(p[k] == c);
            }
        }
    } else if codes.last() == code {
        assert(codes[codes.len() - 1] == code);
    } else {
        let front = codes.drop_last();
        lemma_placed(front, code);
        let q = placed(front, code);
        assert forall|i: int, j: int| 0 <= i < j < p.len() implies p[i] < p[j] by {
            if j == q.len() {
                assert(q.contains(q[i]));
                if q[i] != code {
                    let k = choose|k: int| 0 <= k < front.len() && front[k] == q[i];
                    assert(codes[k] < codes.last());
                }
            }
        }
        assert forall|c: u16| #[trigger] p.contains(c) <==> (codes.contains(c) || c == code) by {
            if p.contains(c) {
                let k = choose|k: int| 0 <= k < p.len() && p[k] == c;
                if k < q.len() {
                    assert(q.contains(c));
                    if c != code {
                        let m = choose|m: int| 0 <= m < front.len() && front[m] == c;
                        assert(codes[m] == c);
                    }
                } else {
                    assert(codes[codes.len() - 1] == c);
                }
            }
            if codes.contains(c) || c == code {
                if c == codes.last() {
                    assert(p[q.len() as int] == c);
                } else {
                    if codes.contains(c) {
                        let m = choose|m: int| 0 <= m < codes.len() && codes[m] == c;
                        assert(front[m] == c);
                    }
                    assert(q.contains(c));
                    let k = choose|k: int| 0 <= k < q.len() && q[k] == c;
                    assert(p[k] == c);
                }
            }
        }
    }
}

/// The ordered codes ascend without repetition and are the given ones, no more and no fewer.
pub proof fn codes_are_ordered_once(codes: Seq<u16>)
    ensures
        ascending(ordered(codes)),
        forall|c: u16| #[trigger] ordered(codes).contains(c) <==> codes.contains(c),
    decreases codes.len(),
{
    if codes.len() > 0 {
        let front = codes.drop_last();
        codes_are_ordered_once(front);
        lemma_placed(ordered(front), codes.last());
        assert forall|c: u16| #[trigger] ordered(codes).contains(c) <==> codes.contains(c) by {
            if codes.contains(c) {
                let k = choose|k: int| 0 <= k < codes.len() && codes[k] == c;
                if k < front.len() {
                    assert(front[k] == c);
                }
            }
            if front.contains(c) {
                let k = choose|k: int| 0 <= k < front.len() && front[k] == c;
                assert(codes[k] == c);
            }
            assert(codes[codes.len() - 1] == codes.last());
        }
    }
}

fn place(codes: Vec<u16>, code: u16) -> (r: Vec<u16>)
    ensures
        r@ == placed(codes@, code),
    decreases codes@.len(),
{
    let mut codes = codes;
    let ghost all = codes@;
    match codes.pop() {
        None => {
            codes.push(code);
            codes
        },
        Some(last) => {
            assert(codes@ =~= all.drop_last());
            if last < code {
                codes.push(last);
                codes.push(code);
                assert(codes@ =~= all.push(code));
                codes
            } else if last == code {
                codes.push(last);
                assert(codes@ =~= all);
                codes
            } else {
                let mut front = place(codes, code);
                front.push(last);
                front
            }
        },
    }
}

fn order(codes: &Vec<u16>) -> (r: Vec<u16>)
    ensures
        r@ == ordered(codes@),
{
    let mut out: Vec<u16> = Vec::new();
    let mut i: usize = 0;
    while i < codes.len()
        invariant
            i <= codes.len(),
            out@ == ordered(codes@.take(i as int)),
        decreases codes.len() - i,
    {
        assert(codes@.take(i + 1).drop_last() =~= codes@.take(i as int));
        out = place(out, codes[i]);
        i += 1;
    }
    assert(codes@.take(i as int) =~= codes@);
    out
}

/// The numbers among the texts of `list`; the others are passed over.
pub open spec fn readable(list: Seq<Seq<char>>) -> Seq<u16>
    decreases list.len(),
{
    if list.len() == 0 {
        Seq::empty()
    } else {
        match text::as_u16(text::trimmed(list.last())) {
            Some(code) => readable(list.drop_last()).push(code),
            None => readable(list.drop_last()),
        }
    }
}

fn read_readable(list: &Vec<String>) -> (r: Vec<u16>)
    ensures
        r@ == readable(list.deep_view()),
{
    let mut out: Vec<u16> = Vec::new();
    let mut i: usize = 0;
    let ghost all = list.deep_view();
    while i < list.len()
        invariant
            i <= list.len(),
            all == list.deep_view(),
            out@ == readable(all.take(i as int)),
        decreases list.len() - i,
    {
        assert(all.take(i + 1).drop_last() =~= all.take(i as int));
        assert(all.take(i + 1).last() == list@[i as int]@);
        if let Some(code) = parse_u16(trim(list[i].as_str())) {
            out.push(code);
        }
        i += 1;
    }
    assert(all.take(i as int) =~= all);
    out
}

/// The number that the first word of `s` stands for.
pub open spec fn leading_code(s: Seq<char>) -> Option<u16> {
    match text::first_word(s) {
        Some(w) => text::as_u16(w),
        None => None,
    }
}

fn read_leading_code(s: &str) -> (r: Option<u16>)
    ensures
        r == leading_code(s@),
{
    match word(s) {
        Some(w) => parse_u16(w),
        None => None,
    }
}

/// The codes from `low` to 599.
pub open spec fn at_least(low: u16) -> Seq<u16> {
    if low > 599 {
        Seq::empty()
    } else {
        Seq::new((600 - low) as nat, |i: int| (low + i) as u16)
    }
}

fn list_at_least(low: u16) -> (r: Vec<u16>)
    ensures
        r@ == at_least(low),
{
    let mut out: Vec<u16> = Vec::new();
    let mut code: u16 = low;
    while code <= 599
        invariant
            low <= code,
            low <= 599 ==> code <= 600,
            low <= 599 ==> out@.len() == code - low,
            low > 599 ==> out@.len() == 0,
            forall|i: int| 0 <= i < out@.len() ==> out@[i] == low + i,
        decreases 600 - code,
    {
        out.push(code);
        code += 1;
    }
    assert(out@ =~= at_least(low));
    out
}

/// The status codes that an expression names, where it names any.
pub open spec fn named_codes(e: Seq<char>) -> Option<Seq<u16>> {
    match text::cut(e, "{rp.status_code} in ["@) {
        Some((_, rest)) => match text::stripped_end(rest, "]"@) {
            Some(list) => Some(readable(text::pieces(list, ','))),
            None => None,
        },
        None => match text::cut(e, "{rp.status_code} == "@) {
            Some((_, rest)) => match leading_code(rest) {
                Some(code) => Some(seq![code]),
                None => None,
            },
            None => match text::cut(e, "{rp.status_code} >= "@) {
                Some((_, rest)) => match leading_code(rest) {
                    Some(code) => Some(at_least(code)),
                    None => None,
                },
                None => None,
            },
        },
    }
}

fn read_named_codes(e: &str) -> (r: Option<Vec<u16>>)
    ensures
        match r {
            Some(v) => named_codes(e@) == Some(v@),
            None => named_codes(e@) is None,
        },
{
    if let Some((_, rest)) = cut_at(e, "{rp.status_code} in [") {
        return match strip_end(rest, "]") {
            Some(list) => {
                let parts = split(list, ',');
                Some(read_readable(&parts))
            },
            None => None,
        };
    }
    if let Some((_, rest)) = cut_at(e, "{rp.status_code} == ") {
        return match read_leading_code(rest) {
            Some(code) => {
                let mut v: Vec<u16> = Vec::new();
                v.push(code);
                assert(v@ =~= seq![code]);
                Some(v)
            },
            None => None,
        };
    }
    if let Some((_, rest)) = cut_at(e, "{rp.status_code} >= ") {
        return match read_leading_code(rest) {
            Some(code) => Some(list_at_least(code)),
            None => None,
        };
    }
    None
}

/// The method that an expression names, where it names one.
pub open spec fn named_method(e: Seq<char>) -> Option<Seq<char>> {
    match text::cut(e, "method('"@) {
        Some((_, rest)) => Some(text::upper(text::pieces(rest, '\'')[0])),
        None => None,
    }
}

/// A condition on the method alone: `method('...')`, with one name that the list of methods takes
/// over.
pub open spec fn method_test(t: Seq<char>) -> bool {
    match text::stripped(t, "method('"@) {
        Some(rest) => match text::stripped_end(rest, "')"@) {
            Some(name) => !name.contains('\'') && !name.contains('(') && !name.contains('{'),
            None => false,
        },
        None => false,
    }
}

/// Whether each of the texts is a number.
pub open spec fn all_codes(list: Seq<Seq<char>>) -> bool {
    forall|i: int|
        0 <= i < list.len() ==> text::as_u16(text::trimmed(#[trigger] list[i])) is Some
}

/// A condition on the status alone, each code of which the list of codes takes over.
pub open spec fn status_test(t: Seq<char>) -> bool {
    match text::stripped(t, "{rp.status_code} in ["@) {
        Some(rest) => match text::stripped_end(rest, "]"@) {
            Some(list) => all_codes(text::pieces(list, ',')),
            None => false,
        },
        None => match text::stripped(t, "{rp.status_code} == "@) {
            Some(rest) => text::as_u16(rest) is Some,
            None => match text::stripped(t, "{rp.status_code} >= "@) {
                Some(rest) => text::as_u16(rest) is Some,
                None => false,
            },
        },
    }
}

/// Whether the lists of methods and codes say all that an expression says: it is a condition on
/// the method, one on the status whose codes were read, or both of them together.
pub open spec fn said_by_lists(e: Seq<char>) -> bool {
    match text::cut(e, "&&"@) {
        None => method_test(e) || (status_test(e) && named_codes(e) is Some),
        Some((left, right)) => {
            let a = text::trimmed(left);
            let b = text::trimmed(right);
            named_codes(e) is Some && ((method_test(a) && status_test(b)) || (status_test(a)
                && method_test(b)))
        },
    }
}

fn is_method_test(t: &str) -> (r: bool)
    ensures
        r == method_test(t@),
{
    match strip(t, "method('") {
        Some(rest) => match strip_end(rest, "')") {
            Some(name) => !holds(name, '\'') && !holds(name, '(') && !holds(name, '{'),
            None => false,
        },
        None => false,
    }
}

fn are_codes(list: &Vec<String>) -> (r: bool)
    ensures
        r == all_codes(list.deep_view()),
{
    let ghost all = list.deep_view();
    let mut i: usize = 0;
    while i < list.len()
        invariant
            i <= list.len(),
            all == list.deep_view(),
            forall|j: int|
                0 <= j < i ==> text::as_u16(text::trimmed(#[trigger] all[j])) is Some,
        decreases list.len() - i,
    {
        assert(all[i as int] == list@[i as int]@);
        if parse_u16(trim(list[i].as_str())).is_none() {
            assert(text::as_u16(text::trimmed(all[i as int])) is None);
            return false;
        }
        i += 1;
    }
    true
}

fn is_status_test(t: &str) -> (r: bool)
    ensures
        r == status_test(t@),
{
    if let Some(rest) = strip(t, "{rp.status_code} in [") {
        return match strip_end(rest, "]") {
            Some(list) => are_codes(&split(list, ',')),
            None => false,
        };
    }
    if let Some(rest) = strip(t, "{rp.status_code} == ") {
        return parse_u16(rest).is_some();
    }
    match strip(t, "{rp.status_code} >= ") {
        Some(rest) => parse_u16(rest).is_some(),
        None => false,
    }
}

fn is_said_by_lists(e: &str, codes: bool) -> (r: bool)
    requires
        codes == (named_codes(e@) is Some),
    ensures
        r == said_by_lists(e@),
{
    match cut_at(e, "&&") {
        None => is_method_test(e) || (codes && is_status_test(e)),
        Some((left, right)) => {
            let a = trim(left);
            let b = trim(right);
            codes && ((is_method_test(a) && is_status_test(b)) || (is_status_test(a)
                && is_method_test(b)))
        },
    }
}

/// `c` with the expression `raw` folded in: what it names goes to the lists, and the text is kept
/// where the lists do not say all of it.
pub open spec fn with_expression(c: RetryConfigV, raw: Seq<char>) -> RetryConfigV {
    let e = text::trimmed_both(text::trimmed(raw), '`');
    RetryConfigV {
        methods: match named_method(e) {
            Some(m) => seq![m],
            None => c.methods,
        },
        status_codes: ordered(
            match named_codes(e) {
                Some(more) => c.status_codes + more,
                None => c.status_codes,
            },
        ),
        expressions: if said_by_lists(e) {
            c.expressions
        } else {
            c.expressions.push(e)
        },
        ..c
    }
}

/// Whether each call in the text is one of `method`, and each placeholder `{rp.status_code}`.
pub open spec fn of_method_and_status(s: Seq<char>) -> bool {
    forall|i: int|
        0 <= i < s.len() ==> (#[trigger] s[i] == '(' ==> i >= 6 && s.subrange(i - 6, i)
            == "method"@) && (s[i] == '{' ==> text::starts(s.skip(i), "{rp.status_code}"@))
}

/// A text without calls and placeholders.
spec fn calm(s: Seq<char>) -> bool {
    forall|i: int| 0 <= i < s.len() ==> #[trigger] s[i] != '(' && s[i] != '{'
}

proof fn lemma_together(a: Seq<char>, b: Seq<char>)
    requires
        of_method_and_status(a),
        of_method_and_status(b),
    ensures
        of_method_and_status(a + b),
{
    let s = a + b;
    let n = a.len() as int;
    assert forall|i: int| 0 <= i < s.len() implies (#[trigger] s[i] == '(' ==> i >= 6
        && s.subrange(i - 6, i) == "method"@) && (s[i] == '{' ==> text::starts(
        s.skip(i),
        "{rp.status_code}"@,
    )) by {
        let k = "{rp.status_code}"@.len() as int;
        if i < n {
            assert(s[i] == a[i]);
            if s[i] == '(' {
                assert(s.subrange(i - 6, i) =~= a.subrange(i - 6, i));
            }
            if s[i] == '{' {
                assert(s.skip(i).take(k) =~= a.skip(i).take(k));
            }
        } else {
            assert(s[i] == b[i - n]);
            if s[i] == '(' {
                assert(s.subrange(i - 6, i) =~= b.subrange(i - n - 6, i - n));
            }
            if s[i] == '{' {
                assert(s.skip(i) =~= b.skip(i - n));
            }
        }
    }
}

proof fn lemma_number_is_calm(s: Seq<char>)
    requires
        text::as_u16(s) is Some,
    ensures
        calm(s),
{
    assert forall|i: int| 0 <= i < s.len() implies #[trigger] s[i] != '(' && s[i] != '{' by {
        if text::starts_char(s, '+') {
            if i > 0 {
                assert(s[i] == s.skip(1)[i - 1]);
                assert(text::digit(s.skip(1)[i - 1]));
            }
        } else {
            assert(text::digit(s[i]));
        }
    }
}

/// Around what trimming leaves of a text there are neither calls nor placeholders.
proof fn lemma_trimmings_are_calm(s: Seq<char>) -> (r: (Seq<char>, Seq<char>))
    ensures
        s == r.0 + text::trimmed(s) + r.1,
        calm(r.0),
        calm(r.1),
{
    let f = |c: char| text::white(c);
    let before = lemma_calm_before(s, f);
    let after = lemma_calm_after(text::trim_left(s, f), f);
    assert(s =~= before + text::trimmed(s) + after);
    (before, after)
}

proof fn lemma_calm_before(s: Seq<char>, f: spec_fn(char) -> bool) -> (r: Seq<char>)
    requires
        forall|c: char| #[trigger] f(c) ==> c != '(' && c != '{',
    ensures
        s == r + text::trim_left(s, f),
        calm(r),
    decreases s.len(),
{
    if s.len() > 0 && f(s[0]) {
        let more = lemma_calm_before(s.drop_first(), f);
        let r = seq![s[0]] + more;
        assert(s =~= seq![s[0]] + s.drop_first());
        assert(s =~= r + text::trim_left(s, f));
        assert forall|i: int| 0 <= i < r.len() implies #[trigger] r[i] != '(' && r[i] != '{' by {
            if i > 0 {
                assert(r[i] == more[i - 1]);
            }
        }
        r
    } else {
        assert(s =~= Seq::empty() + text::trim_left(s, f));
        Seq::empty()
    }
}

proof fn lemma_calm_after(s: Seq<char>, f: spec_fn(char) -> bool) -> (r: Seq<char>)
    requires
        forall|c: char| #[trigger] f(c) ==> c != '(' && c != '{',
    ensures
        s == text::trim_right(s, f) + r,
        calm(r),
    decreases s.len(),
{
    if s.len() > 0 && f(s.last()) {
        let more = lemma_calm_after(s.drop_last(), f);
        let r = more.push(s.last());
        assert(s =~= s.drop_last().push(s.last()));
        assert(s =~= text::trim_right(s, f) + r);
        assert forall|i: int| 0 <= i < r.len() implies #[trigger] r[i] != '(' && r[i] != '{' by {
            if i < more.len() {
                assert(r[i] == more[i]);
            }
        }
        r
    } else {
        assert(s =~= text::trim_right(s, f) + Seq::empty());
        Seq::empty()
    }
}

proof fn lemma_pieces_are_calm(s: Seq<char>)
    requires
        forall|k: int|
            0 <= k < text::pieces(s, ',').len() ==> calm(#[trigger] text::pieces(s, ',')[k]),
    ensures
        calm(s),
    decreases s.len(),
{
    if s.len() > 0 {
        let front = s.drop_last();
        let all = text::pieces(s, ',');
        let rest = text::pieces(front, ',');
        lemma_some_piece(front);
        let last = rest.len() - 1;
        assert forall|k: int| 0 <= k < rest.len() implies calm(#[trigger] rest[k]) by {
            if s.last() == ',' || k < last {
                assert(all[k] == rest[k]);
            } else {
                let grown = rest[k].push(s.last());
                assert(all[k] == grown);
                assert forall|i: int| 0 <= i < rest[k].len() implies #[trigger] rest[k][i] != '('
                    && rest[k][i] != '{' by {
                    assert(grown[i] == rest[k][i]);
                }
            }
        }
        lemma_pieces_are_calm(front);
        if s.last() != ',' {
            let grown = rest[last].push(s.last());
            assert(all[last] == grown);
            assert(grown[rest[last].len() as int] == s.last());
        }
        assert forall|i: int| 0 <= i < s.len() implies #[trigger] s[i] != '(' && s[i] != '{' by {
            if i < front.len() {
                assert(s[i] == front[i]);
            }
        }
    }
}

proof fn lemma_some_piece(s: Seq<char>)
    ensures
        text::pieces(s, ',').len() > 0,
    decreases s.len(),
{
    if s.len() > 0 {
        lemma_some_piece(s.drop_last());
    }
}

proof fn lemma_method_test(t: Seq<char>)
    requires
        method_test(t),
    ensures
        of_method_and_status(t),
{
    reveal_strlit("method('");
    reveal_strlit("method");
    reveal_strlit("')");
    let rest = t.skip(8);
    let name = rest.take(rest.len() - 2);
    assert(t.take(8) =~= "method('"@);
    assert(rest.skip(rest.len() - 2) =~= "')"@);
    assert forall|i: int| 0 <= i < t.len() implies (#[trigger] t[i] == '(' ==> i >= 6 && t.subrange(
        i - 6,
        i,
    ) == "method"@) && (t[i] == '{' ==> text::starts(t.skip(i), "{rp.status_code}"@)) by {
        if i < 8 {
            assert(t[i] == t.take(8)[i]);
            if i == 6 {
                assert(t.subrange(0, 6) =~= t.take(8).take(6));
                assert("method('"@.take(6) =~= "method"@);
            }
        } else if i < t.len() - 2 {
            assert(t[i] == name[i - 8]);
            assert(name.contains(t[i]));
        } else {
            assert(t[i] == rest.skip(rest.len() - 2)[i - t.len() + 2]);
        }
    }
}

proof fn lemma_codes_are_calm(s: Seq<char>)
    requires
        all_codes(text::pieces(s, ',')),
    ensures
        calm(s),
{
    assert forall|k: int| 0 <= k < text::pieces(s, ',').len() implies calm(
        #[trigger] text::pieces(s, ',')[k],
    ) by {
        let piece = text::pieces(s, ',')[k];
        lemma_number_is_calm(text::trimmed(piece));
        let (before, after) = lemma_trimmings_are_calm(piece);
        let middle = text::trimmed(piece);
        assert forall|i: int| 0 <= i < piece.len() implies #[trigger] piece[i] != '(' && piece[i]
            != '{' by {
            if i < before.len() {
                assert(piece[i] == before[i]);
            } else if i < before.len() + middle.len() {
                assert(piece[i] == middle[i - before.len()]);
            } else {
                assert(piece[i] == after[i - before.len() - middle.len()]);
            }
        }
    }
    lemma_pieces_are_calm(s);
}

/// What starts with the placeholder of the status and holds nothing else of the kind.
proof fn lemma_status_first(t: Seq<char>, p: Seq<char>)
    requires
        text::starts(t, p),
        text::starts(p, "{rp.status_code}"@),
        calm(p.skip(1)),
        calm(t.skip(p.len() as int)),
    ensures
        of_method_and_status(t),
{
    reveal_strlit("{rp.status_code}");
    let k = "{rp.status_code}"@.len() as int;
    let n = p.len() as int;
    assert forall|i: int| 0 <= i < t.len() implies (#[trigger] t[i] == '(' ==> i >= 6 && t.subrange(
        i - 6,
        i,
    ) == "method"@) && (t[i] == '{' ==> text::starts(t.skip(i), "{rp.status_code}"@)) by {
        if i == 0 {
            assert(t.take(n)[0] == p[0]);
            assert(p.take(k)[0] == "{rp.status_code}"@[0]);
            assert(t.skip(0).take(k) =~= t.take(n).take(k));
        } else if i < n {
            assert(t[i] == t.take(n)[i]);
            assert(p[i] == p.skip(1)[i - 1]);
        } else {
            assert(t[i] == t.skip(n)[i - n]);
        }
    }
}

proof fn lemma_status_test(t: Seq<char>)
    requires
        status_test(t),
    ensures
        of_method_and_status(t),
{
    reveal_strlit("{rp.status_code}");
    reveal_strlit("{rp.status_code} in [");
    reveal_strlit("{rp.status_code} == ");
    reveal_strlit("{rp.status_code} >= ");
    reveal_strlit("]");
    if text::starts(t, "{rp.status_code} in ["@) {
        let p = "{rp.status_code} in ["@;
        let rest = t.skip(p.len() as int);
        let list = rest.take(rest.len() - 1);
        lemma_codes_are_calm(list);
        assert(rest.skip(rest.len() - 1)[0] == "]"@[0]);
        assert forall|i: int| 0 <= i < rest.len() implies #[trigger] rest[i] != '(' && rest[i]
            != '{' by {
            if i < rest.len() - 1 {
                assert(rest[i] == list[i]);
            }
        }
        assert(p.take(16) =~= "{rp.status_code}"@);
        lemma_status_first(t, p);
    } else if text::starts(t, "{rp.status_code} == "@) {
        let p = "{rp.status_code} == "@;
        lemma_number_is_calm(t.skip(p.len() as int));
        assert(p.take(16) =~= "{rp.status_code}"@);
        lemma_status_first(t, p);
    } else {
        let p = "{rp.status_code} >= "@;
        lemma_number_is_calm(t.skip(p.len() as int));
        assert(p.take(16) =~= "{rp.status_code}"@);
        lemma_status_first(t, p);
    }
}

proof fn lemma_part(s: Seq<char>)
    requires
        of_method_and_status(text::trimmed(s)),
    ensures
        of_method_and_status(s),
{
    let (before, after) = lemma_trimmings_are_calm(s);
    lemma_together(before, text::trimmed(s));
    lemma_together(before + text::trimmed(s), after);
}

proof fn lemma_found(s: Seq<char>, p: Seq<char>, from: int)
    requires
        text::position_from(s, p, from) is Some,
    ensures
        ({
            let i = text::position_from(s, p, from)->0;
            0 <= i <= s.len() - p.len() && s.subrange(i, i + p.len()) == p
        }),
    decreases s.len() + 1 - from,
{
    if s.subrange(from, from + p.len()) != p {
        lemma_found(s, p, from + 1);
    }
}

/// An expression whose text is not kept speaks of the method and the status alone: it calls no
/// other function and holds no other placeholder. Whatever mentions a header, the transport or
/// another property of the request is kept word for word.
pub proof fn an_expression_that_says_more_is_kept(c: RetryConfigV, raw: Seq<char>)
    ensures
        ({
            let e = text::trimmed_both(text::trimmed(raw), '`');
            !of_method_and_status(e) ==> with_expression(c, raw).expressions
                == c.expressions.push(e)
        }),
{
    let e = text::trimmed_both(text::trimmed(raw), '`');
    if said_by_lists(e) {
        match text::cut(e, "&&"@) {
            None => {
                if method_test(e) {
                    lemma_method_test(e);
                } else {
                    lemma_status_test(e);
                }
            },
            Some((left, right)) => {
                let a = text::trimmed(left);
                let b = text::trimmed(right);
                if method_test(a) && status_test(b) {
                    lemma_method_test(a);
                    lemma_status_test(b);
                } else {
                    lemma_status_test(a);
                    lemma_method_test(b);
                }
                lemma_part(left);
                lemma_part(right);
                reveal_strlit("&&");
                lemma_found(e, "&&"@, 0);
                lemma_together(left, "&&"@);
                lemma_together(left + "&&"@, right);
                assert(e =~= left + "&&"@ + right);
            },
        }
    }
}

/// Folds one expression into the lists of a retry policy.
pub fn fold_retry_expression(retry: RetryConfig, raw: &str) -> (r: RetryConfig)
    ensures
        r.deep_view() == with_expression(retry.deep_view(), raw@),
{
    let mut c = retry;
    let e = trim_both(trim(raw), '`');
    let mut codes = false;
    if let Some((_, rest)) = cut_at(e, "method('") {
        let parts = split(rest, '\'');
        assert(parts.deep_view()[0] == parts@[0]@);
        let mut methods: Vec<String> = Vec::new();
        methods.push(to_upper(parts[0].as_str()));
        assert(methods.deep_view() =~= seq![text::upper(text::pieces(rest@, '\'')[0])]);
        c.methods = methods;
    }
    assert(c.status_codes.deep_view() =~= c.status_codes@);
    if let Some(mut more) = read_named_codes(e) {
        let ghost held = c.status_codes@;
        let ghost added = more@;
        c.status_codes.append(&mut more);
        assert(c.status_codes@ =~= held + added);
        codes = true;
    }
    if !is_said_by_lists(e, codes) {
        let ghost held = c.expressions.deep_view();
        c.expressions.push(e.to_owned());
        assert(c.expressions.deep_view() =~= held.push(e@));
    }
    c.status_codes = order(&c.status_codes);
    assert(c.status_codes.deep_view() =~= c.status_codes@);
    c
}

/// One form of a retry match.
pub open spec fn retry_form(c: RetryConfigV, kind: Seq<char>, list: Seq<Seq<char>>) -> Result<
    RetryConfigV,
    ErrorV,
> {
    if kind == "path"@ {
        if list.len() == 0 {
            Err(ErrorV::ArgumentCount("lb_retry_match path"@, 1, 0))
        } else {
            Ok(RetryConfigV { path_patterns: c.path_patterns.push(list[0]), ..c })
        }
    } else if kind == "method"@ {
        if list.len() == 0 {
            Err(ErrorV::ArgumentCount("lb_retry_match method"@, 1, 0))
        } else {
            Ok(RetryConfigV { methods: text::uppered(list), ..c })
        }
    } else if kind == "header"@ {
        if list.len() != 2 {
            Err(ErrorV::ArgumentCount("lb_retry_match header"@, 2, list.len() as usize))
        } else {
            Ok(
                RetryConfigV {
                    expressions: c.expressions.push(
                        "header({'"@ + list[0] + "': '"@ + list[1] + "'})"@,
                    ),
                    ..c
                },
            )
        }
    } else if kind == "expression"@ {
        if list.len() == 0 {
            Err(ErrorV::ArgumentCount("lb_retry_match expression"@, 1, 0))
        } else {
            Ok(with_expression(c, list[0]))
        }
    } else {
        Err(
            ErrorV::InvalidArgument(
                "lb_retry_match"@,
                "`"@ + kind + "` is not a retry-match form"@,
            ),
        )
    }
}

/// A word that names a form of a retry match.
pub open spec fn form_name(s: Seq<char>) -> bool {
    s == "path"@ || s == "method"@ || s == "header"@ || s == "expression"@
}

/// `lb_retry_match <expression>`, `lb_retry_match <form> <arg>`, or a block of forms.
pub open spec fn retry_match(c: RetryConfigV, d: DirectiveV) -> Result<RetryConfigV, ErrorV> {
    match d.block {
        Some(list) => fold::fold(
            |c: RetryConfigV, o: DirectiveV| retry_form(c, o.name, o.args),
            c,
            list,
        ),
        None => if d.args.len() >= 2 && form_name(d.args[0]) {
            retry_form(c, d.args[0], d.args.skip(1))
        } else if d.args.len() > 0 {
            Ok(with_expression(c, d.args[0]))
        } else {
            Ok(c)
        },
    }
}

fn apply_form(c: RetryConfig, kind: &str, list: &Vec<String>) -> (r: Result<
    RetryConfig,
    AdapterError,
>)
    ensures
        error::outcome(r) == retry_form(c.deep_view(), kind@, list.deep_view()),
{
    let mut c = c;
    if same(kind, "path") {
        if list.len() == 0 {
            return Err(miscount("lb_retry_match path", 1, 0));
        }
        let ghost held = c.path_patterns.deep_view();
        c.path_patterns.push(list[0].clone());
        assert(c.path_patterns.deep_view() =~= held.push(list@[0]@));
        Ok(c)
    } else if same(kind, "method") {
        if list.len() == 0 {
            return Err(miscount("lb_retry_match method", 1, 0));
        }
        c.methods = upper_each(list);
        Ok(c)
    } else if same(kind, "header") {
        if list.len() != 2 {
            return Err(miscount("lb_retry_match header", 2, list.len()));
        }
        let e = cat5("header({'", list[0].as_str(), "': '", list[1].as_str(), "'})");
        let ghost held = c.expressions.deep_view();
        c.expressions.push(e);
        assert(c.expressions.deep_view() =~= held.push(e@));
        Ok(c)
    } else if same(kind, "expression") {
        if list.len() == 0 {
            return Err(miscount("lb_retry_match expression", 1, 0));
        }
        Ok(fold_retry_expression(c, list[0].as_str()))
    } else {
        let reason = cat3("`", kind, "` is not a retry-match form");
        Err(invalid("lb_retry_match", reason.as_str()))
    }
}

fn read_form(c: RetryConfig, d: &Directive) -> (r: Result<RetryConfig, AdapterError>)
    ensures
        error::outcome(r) == retry_form(c.deep_view(), d.deep_view().name, d.deep_view().args),
{
    apply_form(c, d.name.as_str(), &d.args)
}

/// Folds one `lb_retry_match` into a retry policy.
pub fn apply_retry_match(retry: RetryConfig, directive: &Directive) -> (r: Result<
    RetryConfig,
    AdapterError,
>)
    ensures
        error::outcome(r) == retry_match(retry.deep_view(), directive.deep_view()),
{
    match &directive.block {
        Some(block) => fold_directives(
            read_form,
            retry,
            &block.directives,
            Ghost(|c: RetryConfigV, o: DirectiveV| retry_form(c, o.name, o.args)),
        ),
        None => {
            if directive.args.len() == 0 {
                return Ok(retry);
            }
            let first = directive.args[0].as_str();
            if directive.args.len() >= 2 && (same(first, "path") || same(first, "method") || same(
                first,
                "header",
            ) || same(first, "expression")) {
                let rest = args_from(&directive.args, 1);
                apply_form(retry, first, &rest)
            } else {
                Ok(fold_retry_expression(retry, first))
            }
        },
    }
}

} // verus!
