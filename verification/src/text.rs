//! Text as a sequence of characters.
//!
//! Every function here works on whole characters and states its result over
//! the sequence of characters that a string holds.

use vstd::prelude::*;
use vstd::utf8::is_ascii_chars;

verus! {

/// `String::push` appends one character.
pub assume_specification[ std::string::String::push ](s: &mut std::string::String, c: char)
    ensures
        final(s)@ == old(s)@.push(c),
;

// ---------------------------------------------------------------------------
// Comparing
// ---------------------------------------------------------------------------
/// `s` begins with `p`.
pub open spec fn starts(s: Seq<char>, p: Seq<char>) -> bool {
    p.len() <= s.len() && s.take(p.len() as int) == p
}

/// `s` ends with `p`.
pub open spec fn ends(s: Seq<char>, p: Seq<char>) -> bool {
    p.len() <= s.len() && s.skip(s.len() - p.len()) == p
}

/// `s` begins with the character `c`.
pub open spec fn starts_char(s: Seq<char>, c: char) -> bool {
    s.len() > 0 && s[0] == c
}

/// `s` ends with the character `c`.
pub open spec fn ends_char(s: Seq<char>, c: char) -> bool {
    s.len() > 0 && s.last() == c
}

/// The characters of a string.
pub fn chars_of(s: &str) -> (r: Vec<char>)
    ensures
        r@ == s@,
{
    let mut out: Vec<char> = Vec::new();
    for c in it: s.chars()
        invariant
            it.seq() == s@,
            out@ == s@.take(it.index()),
    {
        out.push(c);
        assert(out@ =~= s@.take(it.index() + 1));
    }
    assert(s@.take(s@.len() as int) =~= s@);
    out
}

/// Whether `x` holds `y` at position `at`.
fn holds_at(x: &Vec<char>, y: &Vec<char>, at: usize) -> (r: bool)
    requires
        at + y@.len() <= x@.len(),
    ensures
        r == (x@.subrange(at as int, at + y@.len()) == y@),
{
    let mut i: usize = 0;
    while i < y.len()
        invariant
            i <= y.len(),
            at + y.len() <= x.len(),
            forall|j: int| 0 <= j < i ==> x@[at + j] == y@[j],
        decreases y.len() - i,
    {
        if x[at + i] != y[i] {
            assert(x@.subrange(at as int, at + y@.len())[i as int] != y@[i as int]);
            return false;
        }
        i += 1;
    }
    assert(x@.subrange(at as int, at + y@.len()) =~= y@);
    true
}

/// Whether two strings hold the same characters.
pub fn same(a: &str, b: &str) -> (r: bool)
    ensures
        r == (a@ == b@),
{
    let x = chars_of(a);
    let y = chars_of(b);
    if x.len() != y.len() {
        return false;
    }
    let r = holds_at(&x, &y, 0);
    assert(x@.subrange(0, y@.len() as int) =~= x@);
    r
}

/// Whether `s` begins with `p`.
pub fn begins(s: &str, p: &str) -> (r: bool)
    ensures
        r == starts(s@, p@),
{
    let x = chars_of(s);
    let y = chars_of(p);
    if y.len() > x.len() {
        return false;
    }
    assert(x@.subrange(0, y@.len() as int) =~= x@.take(y@.len() as int));
    holds_at(&x, &y, 0)
}

/// Whether `s` ends with `p`.
pub fn finishes(s: &str, p: &str) -> (r: bool)
    ensures
        r == ends(s@, p@),
{
    let x = chars_of(s);
    let y = chars_of(p);
    if y.len() > x.len() {
        return false;
    }
    assert(x@.subrange(x@.len() - y@.len(), x@.len() as int) =~= x@.skip(x@.len() - y@.len()));
    holds_at(&x, &y, x.len() - y.len())
}

/// Whether `s` begins with the character `c`.
pub fn begins_with(s: &str, c: char) -> (r: bool)
    ensures
        r == starts_char(s@, c),
{
    let x = chars_of(s);
    x.len() > 0 && x[0] == c
}

/// Whether `s` ends with the character `c`.
pub fn finishes_with(s: &str, c: char) -> (r: bool)
    ensures
        r == ends_char(s@, c),
{
    let x = chars_of(s);
    x.len() > 0 && x[x.len() - 1] == c
}

/// Whether `s` is one of the words of `list`.
pub fn among(s: &str, list: &Vec<&str>) -> (r: bool)
    ensures
        r == list.deep_view().contains(s@),
{
    let mut i: usize = 0;
    while i < list.len()
        invariant
            i <= list.len(),
            forall|j: int| 0 <= j < i ==> list@[j]@ != s@,
        decreases list.len() - i,
    {
        if same(list[i], s) {
            assert(list.deep_view()[i as int] == s@);
            return true;
        }
        i += 1;
    }
    assert forall|j: int| 0 <= j < list.deep_view().len() implies list.deep_view()[j] != s@ by {
        assert(list.deep_view()[j] == list@[j]@);
    }
    false
}

/// Whether the text `s` is an element of `list`.
pub fn listed(s: &str, list: &Vec<String>) -> (r: bool)
    ensures
        r == list.deep_view().contains(s@),
{
    let mut i: usize = 0;
    while i < list.len()
        invariant
            i <= list.len(),
            forall|j: int| 0 <= j < i ==> list@[j]@ != s@,
        decreases list.len() - i,
    {
        if same(list[i].as_str(), s) {
            assert(list.deep_view()[i as int] == s@);
            return true;
        }
        i += 1;
    }
    assert forall|j: int| 0 <= j < list.deep_view().len() implies list.deep_view()[j] != s@ by {
        assert(list.deep_view()[j] == list@[j]@);
    }
    false
}

// ---------------------------------------------------------------------------
// Parts
// ---------------------------------------------------------------------------
/// The first `n` characters of `s`.
pub fn before<'a>(s: &'a str, n: usize) -> (r: &'a str)
    requires
        n <= s@.len(),
    ensures
        r@ == s@.take(n as int),
{
    assert(s@.subrange(0, n as int) =~= s@.take(n as int));
    s.substring_char(0, n)
}

/// What follows the first `n` characters of `s`.
pub fn after<'a>(s: &'a str, n: usize) -> (r: &'a str)
    requires
        n <= s@.len(),
    ensures
        r@ == s@.skip(n as int),
{
    assert(s@.subrange(n as int, s@.len() as int) =~= s@.skip(n as int));
    s.substring_char(n, s.unicode_len())
}

/// `s` without the prefix `p`, where it has it.
pub open spec fn stripped(s: Seq<char>, p: Seq<char>) -> Option<Seq<char>> {
    if starts(s, p) {
        Some(s.skip(p.len() as int))
    } else {
        None
    }
}

/// `s` without the prefix `p`, where it has it.
pub fn strip<'a>(s: &'a str, p: &str) -> (r: Option<&'a str>)
    ensures
        r.deep_view() == stripped(s@, p@),
{
    if begins(s, p) {
        Some(after(s, p.unicode_len()))
    } else {
        None
    }
}

/// `s` without the suffix `p`, where it has it.
pub open spec fn stripped_end(s: Seq<char>, p: Seq<char>) -> Option<Seq<char>> {
    if ends(s, p) {
        Some(s.take(s.len() - p.len()))
    } else {
        None
    }
}

/// `s` without the suffix `p`, where it has it.
pub fn strip_end<'a>(s: &'a str, p: &str) -> (r: Option<&'a str>)
    ensures
        r.deep_view() == stripped_end(s@, p@),
{
    if finishes(s, p) {
        Some(before(s, s.unicode_len() - p.unicode_len()))
    } else {
        None
    }
}

/// The first position of `c` in `s`.
pub fn find(s: &str, c: char) -> (r: Option<usize>)
    ensures
        match r {
            Some(i) => s@.index_of_first(c) == Some(i as int) && i < s@.len(),
            None => s@.index_of_first(c) is None,
        },
{
    let x = chars_of(s);
    proof {
        s@.index_of_first_ensures(c);
    }
    let mut i: usize = 0;
    while i < x.len()
        invariant
            i <= x.len(),
            x@ == s@,
            forall|j: int| 0 <= j < i ==> s@[j] != c,
            match s@.index_of_first(c) {
                Some(index) => 0 <= index < s@.len() && s@[index] == c && forall|j: int|
                    0 <= j < index ==> s@[j] != c,
                None => !s@.contains(c),
            },
        decreases x.len() - i,
    {
        if x[i] == c {
            assert(s@[i as int] == c);
            return Some(i);
        }
        i += 1;
    }
    None
}

/// The last position of `c` in `s`.
pub fn find_last(s: &str, c: char) -> (r: Option<usize>)
    ensures
        match r {
            Some(i) => s@.index_of_last(c) == Some(i as int) && i < s@.len(),
            None => s@.index_of_last(c) is None,
        },
{
    let x = chars_of(s);
    proof {
        s@.index_of_last_ensures(c);
    }
    let mut i: usize = x.len();
    while i > 0
        invariant
            i <= x.len(),
            x@ == s@,
            forall|j: int| i <= j < s@.len() ==> s@[j] != c,
            match s@.index_of_last(c) {
                Some(index) => 0 <= index < s@.len() && s@[index] == c && forall|j: int|
                    index < j < s@.len() ==> s@[j] != c,
                None => !s@.contains(c),
            },
        decreases i,
    {
        i -= 1;
        if x[i] == c {
            assert(s@[i as int] == c);
            return Some(i);
        }
    }
    None
}

/// Whether `c` occurs in `s`.
pub fn holds(s: &str, c: char) -> (r: bool)
    ensures
        r == s@.contains(c),
{
    proof {
        s@.index_of_first_ensures(c);
    }
    find(s, c).is_some()
}

/// The first position at or after `from` at which `p` occurs in `s`.
pub open spec fn position_from(s: Seq<char>, p: Seq<char>, from: int) -> Option<int>
    decreases s.len() + 1 - from,
{
    if from < 0 || from + p.len() > s.len() {
        None
    } else if s.subrange(from, from + p.len()) == p {
        Some(from)
    } else {
        position_from(s, p, from + 1)
    }
}

/// The first position at which `p` occurs in `s`.
pub open spec fn position(s: Seq<char>, p: Seq<char>) -> Option<int> {
    position_from(s, p, 0)
}

/// `s` cut at the first occurrence of `p`.
pub open spec fn cut(s: Seq<char>, p: Seq<char>) -> Option<(Seq<char>, Seq<char>)> {
    match position(s, p) {
        Some(i) => Some((s.take(i), s.skip(i + p.len()))),
        None => None,
    }
}

/// The first position at which `p` occurs in `s`.
pub fn find_text(s: &str, p: &str) -> (r: Option<usize>)
    ensures
        match r {
            Some(i) => position(s@, p@) == Some(i as int) && i + p@.len() <= s@.len(),
            None => position(s@, p@) is None,
        },
{
    let x = chars_of(s);
    let y = chars_of(p);
    if y.len() > x.len() {
        return None;
    }
    let mut i: usize = 0;
    let last: usize = x.len() - y.len();
    while i <= last
        invariant
            x@ == s@,
            y@ == p@,
            last == x@.len() - y@.len(),
            i <= last + 1,
            position(s@, p@) == position_from(s@, p@, i as int),
        decreases last + 1 - i,
    {
        if holds_at(&x, &y, i) {
            return Some(i);
        }
        if i == last {
            assert(position_from(s@, p@, i + 1) is None);
            return None;
        }
        i += 1;
    }
    None
}

/// `s` cut at the first occurrence of `p`.
pub fn cut_at<'a>(s: &'a str, p: &str) -> (r: Option<(&'a str, &'a str)>)
    ensures
        r.deep_view() == cut(s@, p@),
{
    let n: usize = s.unicode_len();
    match find_text(s, p) {
        Some(i) => {
            assert(i + p@.len() <= n);
            Some((before(s, i), after(s, i + p.unicode_len())))
        },
        None => None,
    }
}

/// Whether `p` occurs in `s`.
pub fn mentions(s: &str, p: &str) -> (r: bool)
    ensures
        r == (position(s@, p@) is Some),
{
    find_text(s, p).is_some()
}

/// The pieces of `s` between the occurrences of `c`.
pub open spec fn pieces(s: Seq<char>, c: char) -> Seq<Seq<char>>
    decreases s.len(),
{
    if s.len() == 0 {
        seq![Seq::<char>::empty()]
    } else if s.last() == c {
        pieces(s.drop_last(), c).push(Seq::<char>::empty())
    } else {
        let rest = pieces(s.drop_last(), c);
        rest.drop_last().push(rest.last().push(s.last()))
    }
}

/// The pieces of `s` between the occurrences of `c`.
pub fn split(s: &str, c: char) -> (r: Vec<String>)
    ensures
        r.deep_view() == pieces(s@, c),
        r@.len() > 0,
{
    let x = chars_of(s);
    let mut out: Vec<String> = Vec::new();
    let mut cur = String::new();
    let mut i: usize = 0;
    assert(out.deep_view().push(cur@) =~= pieces(s@.take(0), c));
    while i < x.len()
        invariant
            i <= x.len(),
            x@ == s@,
            out.deep_view().push(cur@) == pieces(s@.take(i as int), c),
        decreases x.len() - i,
    {
        let ghost before_out = out.deep_view();
        let ghost before_cur = cur@;
        assert(s@.take(i + 1).drop_last() =~= s@.take(i as int));
        assert(s@.take(i + 1).last() == x@[i as int]);
        assert(before_out.push(before_cur).drop_last() =~= before_out);
        if x[i] == c {
            out.push(cur);
            assert(out.deep_view() =~= before_out.push(before_cur));
            cur = String::new();
        } else {
            cur.push(x[i]);
        }
        i += 1;
    }
    assert(s@.take(x@.len() as int) =~= s@);
    let ghost before_out = out.deep_view();
    let ghost before_cur = cur@;
    out.push(cur);
    assert(out.deep_view() =~= before_out.push(before_cur));
    out
}

// ---------------------------------------------------------------------------
// Trimming
// ---------------------------------------------------------------------------
/// `s` without its leading characters that satisfy `f`.
pub open spec fn trim_left(s: Seq<char>, f: spec_fn(char) -> bool) -> Seq<char>
    decreases s.len(),
{
    if s.len() > 0 && f(s[0]) {
        trim_left(s.drop_first(), f)
    } else {
        s
    }
}

/// `s` without its trailing characters that satisfy `f`.
pub open spec fn trim_right(s: Seq<char>, f: spec_fn(char) -> bool) -> Seq<char>
    decreases s.len(),
{
    if s.len() > 0 && f(s.last()) {
        trim_right(s.drop_last(), f)
    } else {
        s
    }
}

/// Trimming on the right leaves a prefix.
pub proof fn lemma_trim_right(s: Seq<char>, f: spec_fn(char) -> bool)
    ensures
        trim_right(s, f).len() <= s.len(),
        trim_right(s, f) == s.take(trim_right(s, f).len() as int),
    decreases s.len(),
{
    if s.len() > 0 && f(s.last()) {
        lemma_trim_right(s.drop_last(), f);
    }
    assert(trim_right(s, f) =~= s.take(trim_right(s, f).len() as int));
}

/// The leading characters of `s` that satisfy `f`.
pub open spec fn leading(s: Seq<char>, f: spec_fn(char) -> bool) -> Seq<char> {
    s.take(s.len() - trim_left(s, f).len())
}

/// Trimming on the left drops a prefix of characters that satisfy `f`, and no more.
pub proof fn lemma_trim_left(s: Seq<char>, f: spec_fn(char) -> bool)
    ensures
        trim_left(s, f).len() <= s.len(),
        trim_left(s, f) == s.skip(s.len() - trim_left(s, f).len()),
        forall|i: int| 0 <= i < s.len() - trim_left(s, f).len() ==> f(#[trigger] s[i]),
        trim_left(s, f).len() > 0 ==> !f(trim_left(s, f)[0]),
    decreases s.len(),
{
    if s.len() > 0 && f(s[0]) {
        lemma_trim_left(s.drop_first(), f);
        let t = trim_left(s, f);
        assert(t =~= s.skip(s.len() - t.len()));
        assert forall|i: int| 0 <= i < s.len() - t.len() implies f(#[trigger] s[i]) by {
            if i > 0 {
                assert(s[i] == s.drop_first()[i - 1]);
            }
        }
    } else {
        assert(s.skip(0) =~= s);
    }
}

/// How many leading characters of `s` satisfy `f`.
pub fn count_leading<F: Fn(char) -> bool>(
    s: &str,
    f: F,
    g: Ghost<spec_fn(char) -> bool>,
) -> (r: usize)
    requires
        forall|c: char| #[trigger] f.requires((c,)),
        forall|c: char, b: bool| #[trigger] f.ensures((c,), b) ==> b == (g@)(c),
    ensures
        r <= s@.len(),
        r == s@.len() - trim_left(s@, g@).len(),
        s@.skip(r as int) == trim_left(s@, g@),
        s@.take(r as int) == leading(s@, g@),
{
    let x = chars_of(s);
    let mut i: usize = 0;
    assert(s@.skip(0) =~= s@);
    proof {
        lemma_trim_left(s@, g@);
    }
    while i < x.len()
        invariant
            i <= x.len(),
            x@ == s@,
            forall|c: char| #[trigger] f.requires((c,)),
            forall|c: char, b: bool| #[trigger] f.ensures((c,), b) ==> b == (g@)(c),
            trim_left(s@, g@) == trim_left(s@.skip(i as int), g@),
        decreases x.len() - i,
    {
        assert(s@.skip(i as int)[0] == x@[i as int]);
        assert(s@.skip(i as int).drop_first() =~= s@.skip(i + 1));
        if !f(x[i]) {
            return i;
        }
        i += 1;
    }
    assert(s@.skip(i as int).len() == 0);
    i
}

/// `s` without its leading characters that satisfy `f`.
pub fn trim_left_by<'a, F: Fn(char) -> bool>(
    s: &'a str,
    f: F,
    g: Ghost<spec_fn(char) -> bool>,
) -> (r: &'a str)
    requires
        forall|c: char| #[trigger] f.requires((c,)),
        forall|c: char, b: bool| #[trigger] f.ensures((c,), b) ==> b == (g@)(c),
    ensures
        r@ == trim_left(s@, g@),
{
    let n = count_leading(s, f, g);
    after(s, n)
}

/// `s` without its trailing characters that satisfy `f`.
pub fn trim_right_by<'a, F: Fn(char) -> bool>(
    s: &'a str,
    f: F,
    g: Ghost<spec_fn(char) -> bool>,
) -> (r: &'a str)
    requires
        forall|c: char| #[trigger] f.requires((c,)),
        forall|c: char, b: bool| #[trigger] f.ensures((c,), b) ==> b == (g@)(c),
    ensures
        r@ == trim_right(s@, g@),
{
    let x = chars_of(s);
    let mut i: usize = x.len();
    assert(s@.take(i as int) =~= s@);
    while i > 0
        invariant
            i <= x.len(),
            x@ == s@,
            forall|c: char| #[trigger] f.requires((c,)),
            forall|c: char, b: bool| #[trigger] f.ensures((c,), b) ==> b == (g@)(c),
            trim_right(s@, g@) == trim_right(s@.take(i as int), g@),
        decreases i,
    {
        assert(s@.take(i as int).last() == x@[i - 1]);
        assert(s@.take(i as int).drop_last() =~= s@.take(i - 1));
        if !f(x[i - 1]) {
            return before(s, i);
        }
        i -= 1;
    }
    before(s, 0)
}

/// The characters with the Unicode property White_Space.
pub open spec fn white(c: char) -> bool {
    ||| '\u{9}' <= c <= '\u{d}'
    ||| c == ' '
    ||| c == '\u{85}'
    ||| c == '\u{a0}'
    ||| c == '\u{1680}'
    ||| '\u{2000}' <= c <= '\u{200a}'
    ||| c == '\u{2028}'
    ||| c == '\u{2029}'
    ||| c == '\u{202f}'
    ||| c == '\u{205f}'
    ||| c == '\u{3000}'
}

/// Whether `c` is white space.
pub fn is_white(c: char) -> (r: bool)
    ensures
        r == white(c),
{
    ('\u{9}' <= c && c <= '\u{d}') || c == ' ' || c == '\u{85}' || c == '\u{a0}' || c == '\u{1680}'
        || ('\u{2000}' <= c && c <= '\u{200a}') || c == '\u{2028}' || c == '\u{2029}' || c
        == '\u{202f}' || c == '\u{205f}' || c == '\u{3000}'
}

/// `s` without white space at its ends.
pub open spec fn trimmed(s: Seq<char>) -> Seq<char> {
    trim_right(trim_left(s, |c: char| white(c)), |c: char| white(c))
}

/// `s` without white space at its ends.
pub fn trim<'a>(s: &'a str) -> (r: &'a str)
    ensures
        r@ == trimmed(s@),
{
    let t = trim_left_by(s, is_white, Ghost(|c: char| white(c)));
    trim_right_by(t, is_white, Ghost(|c: char| white(c)))
}

/// `s` without the characters `m` at its end.
pub open spec fn trimmed_end(s: Seq<char>, m: char) -> Seq<char>
    decreases s.len(),
{
    if s.len() > 0 && s.last() == m {
        trimmed_end(s.drop_last(), m)
    } else {
        s
    }
}

/// `s` without the characters `m` at its end.
pub fn trim_end<'a>(s: &'a str, m: char) -> (r: &'a str)
    ensures
        r@ == trimmed_end(s@, m),
{
    let x = chars_of(s);
    let mut i: usize = x.len();
    assert(s@.take(i as int) =~= s@);
    while i > 0
        invariant
            i <= x.len(),
            x@ == s@,
            trimmed_end(s@, m) == trimmed_end(s@.take(i as int), m),
        decreases i,
    {
        assert(s@.take(i as int).last() == x@[i - 1]);
        assert(s@.take(i as int).drop_last() =~= s@.take(i - 1));
        if x[i - 1] != m {
            return before(s, i);
        }
        i -= 1;
    }
    before(s, 0)
}

/// `s` without the characters `m` at its start.
pub open spec fn trimmed_start(s: Seq<char>, m: char) -> Seq<char>
    decreases s.len(),
{
    if s.len() > 0 && s[0] == m {
        trimmed_start(s.drop_first(), m)
    } else {
        s
    }
}

/// `s` without the characters `m` at its start.
pub fn trim_start<'a>(s: &'a str, m: char) -> (r: &'a str)
    ensures
        r@ == trimmed_start(s@, m),
{
    let x = chars_of(s);
    let mut i: usize = 0;
    assert(s@.skip(0) =~= s@);
    while i < x.len()
        invariant
            i <= x.len(),
            x@ == s@,
            trimmed_start(s@, m) == trimmed_start(s@.skip(i as int), m),
        decreases x.len() - i,
    {
        assert(s@.skip(i as int)[0] == x@[i as int]);
        assert(s@.skip(i as int).drop_first() =~= s@.skip(i + 1));
        if x[i] != m {
            return after(s, i);
        }
        i += 1;
    }
    after(s, i)
}

/// `s` without the characters `m` at either end.
pub open spec fn trimmed_both(s: Seq<char>, m: char) -> Seq<char> {
    trimmed_end(trimmed_start(s, m), m)
}

/// `s` without the characters `m` at either end.
pub fn trim_both<'a>(s: &'a str, m: char) -> (r: &'a str)
    ensures
        r@ == trimmed_both(s@, m),
{
    trim_end(trim_start(s, m), m)
}

/// `s` without the prefixes `p` that it begins with, however often.
pub open spec fn unprefixed(s: Seq<char>, p: Seq<char>) -> Seq<char>
    decreases s.len(),
{
    if p.len() > 0 && starts(s, p) {
        unprefixed(s.skip(p.len() as int), p)
    } else {
        s
    }
}

/// `s` without the prefixes `p` that it begins with, however often.
pub fn unprefix<'a>(s: &'a str, p: &str) -> (r: &'a str)
    requires
        p@.len() > 0,
    ensures
        r@ == unprefixed(s@, p@),
    decreases s@.len(),
{
    match strip(s, p) {
        Some(rest) => unprefix(rest, p),
        None => s,
    }
}

/// The first word of `s`: what stands before and after white space is dropped.
pub open spec fn first_word(s: Seq<char>) -> Option<Seq<char>> {
    let t = trim_left(s, |c: char| white(c));
    if t.len() == 0 {
        None
    } else {
        Some(leading(t, |c: char| !white(c)))
    }
}

fn is_not_white(c: char) -> (r: bool)
    ensures
        r == !white(c),
{
    !is_white(c)
}

/// The first word of `s`.
pub fn word<'a>(s: &'a str) -> (r: Option<&'a str>)
    ensures
        r.deep_view() == first_word(s@),
{
    let t = trim_left_by(s, is_white, Ghost(|c: char| white(c)));
    if t.is_empty() {
        None
    } else {
        let n = count_leading(t, is_not_white, Ghost(|c: char| !white(c)));
        Some(before(t, n))
    }
}

// ---------------------------------------------------------------------------
// Joining
// ---------------------------------------------------------------------------
/// `a` followed by `b`.
pub fn cat(a: &str, b: &str) -> (r: String)
    ensures
        r@ == a@ + b@,
{
    a.to_owned().concat(b)
}

/// Three texts in a row.
pub fn cat3(a: &str, b: &str, c: &str) -> (r: String)
    ensures
        r@ == a@ + b@ + c@,
{
    a.to_owned().concat(b).concat(c)
}

/// Four texts in a row.
pub fn cat4(a: &str, b: &str, c: &str, d: &str) -> (r: String)
    ensures
        r@ == a@ + b@ + c@ + d@,
{
    a.to_owned().concat(b).concat(c).concat(d)
}

/// Five texts in a row.
pub fn cat5(a: &str, b: &str, c: &str, d: &str, e: &str) -> (r: String)
    ensures
        r@ == a@ + b@ + c@ + d@ + e@,
{
    a.to_owned().concat(b).concat(c).concat(d).concat(e)
}

/// The texts of `list` with `sep` between them.
pub open spec fn joined(list: Seq<Seq<char>>, sep: Seq<char>) -> Seq<char>
    decreases list.len(),
{
    if list.len() == 0 {
        Seq::empty()
    } else if list.len() == 1 {
        list[0]
    } else {
        joined(list.drop_last(), sep) + sep + list.last()
    }
}

/// The texts of `list` with `sep` between them.
pub fn join(list: &Vec<String>, sep: &str) -> (r: String)
    ensures
        r@ == joined(list.deep_view(), sep@),
{
    let mut out = String::new();
    let mut i: usize = 0;
    let ghost all = list.deep_view();
    while i < list.len()
        invariant
            i <= list.len(),
            all == list.deep_view(),
            out@ == joined(all.take(i as int), sep@),
        decreases list.len() - i,
    {
        assert(all.take(i + 1).drop_last() =~= all.take(i as int));
        assert(all.take(i + 1).last() == list@[i as int]@);
        if i > 0 {
            out.append(sep);
        }
        out.append(list[i].as_str());
        assert(out@ =~= joined(all.take(i + 1), sep@));
        i += 1;
    }
    assert(all.take(all.len() as int) =~= all);
    out
}

// ---------------------------------------------------------------------------
// Letter case
// ---------------------------------------------------------------------------
/// The ASCII lower-case form of `c`.
pub open spec fn lower_char(c: char) -> char {
    if 'A' <= c <= 'Z' {
        (c as u32 + 32) as char
    } else {
        c
    }
}

/// The ASCII upper-case form of `c`.
pub open spec fn upper_char(c: char) -> char {
    if 'a' <= c <= 'z' {
        (c as u32 - 32) as char
    } else {
        c
    }
}

/// `s` with its ASCII letters in lower case.
pub open spec fn lower(s: Seq<char>) -> Seq<char> {
    s.map_values(|c: char| lower_char(c))
}

/// `s` with its ASCII letters in upper case.
pub open spec fn upper(s: Seq<char>) -> Seq<char> {
    s.map_values(|c: char| upper_char(c))
}

/// `s` with its ASCII letters in lower case.
pub fn to_lower(s: &str) -> (r: String)
    ensures
        r@ == lower(s@),
{
    let x = chars_of(s);
    let mut out = String::new();
    let mut i: usize = 0;
    while i < x.len()
        invariant
            i <= x.len(),
            x@ == s@,
            out@ == lower(s@.take(i as int)),
        decreases x.len() - i,
    {
        let c = x[i];
        if 'A' <= c && c <= 'Z' {
            out.push((c as u8 + 32) as char);
        } else {
            out.push(c);
        }
        i += 1;
        assert(out@ =~= lower(s@.take(i as int)));
    }
    assert(s@.take(x@.len() as int) =~= s@);
    out
}

/// `s` with its ASCII letters in upper case.
pub fn to_upper(s: &str) -> (r: String)
    ensures
        r@ == upper(s@),
{
    let x = chars_of(s);
    let mut out = String::new();
    let mut i: usize = 0;
    while i < x.len()
        invariant
            i <= x.len(),
            x@ == s@,
            out@ == upper(s@.take(i as int)),
        decreases x.len() - i,
    {
        let c = x[i];
        if 'a' <= c && c <= 'z' {
            out.push((c as u8 - 32) as char);
        } else {
            out.push(c);
        }
        i += 1;
        assert(out@ =~= upper(s@.take(i as int)));
    }
    assert(s@.take(x@.len() as int) =~= s@);
    out
}

/// Each text of `list` with its ASCII letters in lower case.
pub open spec fn lowered(list: Seq<Seq<char>>) -> Seq<Seq<char>> {
    list.map_values(|s: Seq<char>| lower(s))
}

/// Each text of `list` with its ASCII letters in lower case.
pub fn lower_each(list: &Vec<String>) -> (r: Vec<String>)
    ensures
        r.deep_view() == lowered(list.deep_view()),
{
    let mut out: Vec<String> = Vec::new();
    let mut i: usize = 0;
    while i < list.len()
        invariant
            i <= list.len(),
            out@.len() == i,
            forall|j: int| 0 <= j < i ==> out@[j]@ == lower(list@[j]@),
        decreases list.len() - i,
    {
        out.push(to_lower(list[i].as_str()));
        i += 1;
    }
    assert(out.deep_view() =~= lowered(list.deep_view()));
    out
}

/// Each text of `list` with its ASCII letters in upper case.
pub open spec fn uppered(list: Seq<Seq<char>>) -> Seq<Seq<char>> {
    list.map_values(|s: Seq<char>| upper(s))
}

/// Each text of `list` with its ASCII letters in upper case.
pub fn upper_each(list: &Vec<String>) -> (r: Vec<String>)
    ensures
        r.deep_view() == uppered(list.deep_view()),
{
    let mut out: Vec<String> = Vec::new();
    let mut i: usize = 0;
    while i < list.len()
        invariant
            i <= list.len(),
            out@.len() == i,
            forall|j: int| 0 <= j < i ==> out@[j]@ == upper(list@[j]@),
        decreases list.len() - i,
    {
        out.push(to_upper(list[i].as_str()));
        i += 1;
    }
    assert(out.deep_view() =~= uppered(list.deep_view()));
    out
}

/// What `str::to_lowercase` makes of a text.
pub uninterp spec fn unicode_lowercase(s: Seq<char>) -> Seq<char>;

/// What `str::to_uppercase` makes of a text.
pub uninterp spec fn unicode_uppercase(s: Seq<char>) -> Seq<char>;

/// `s` in lower case by the Unicode tables, which on ASCII text change the ASCII letters alone.
pub open spec fn lowercase(s: Seq<char>) -> Seq<char> {
    if is_ascii_chars(s) {
        lower(s)
    } else {
        unicode_lowercase(s)
    }
}

/// `s` in upper case by the Unicode tables, which on ASCII text change the ASCII letters alone.
pub open spec fn uppercase(s: Seq<char>) -> Seq<char> {
    if is_ascii_chars(s) {
        upper(s)
    } else {
        unicode_uppercase(s)
    }
}

/// `str::to_lowercase`: on ASCII text it changes the ASCII letters alone; on other text the
/// result is a function of the text, which is all that is claimed.
#[verifier::external_body]
fn std_lowercase(s: &str) -> (r: String)
    ensures
        is_ascii_chars(s@) ==> r@ == lower(s@),
        !is_ascii_chars(s@) ==> r@ == unicode_lowercase(s@),
{
    s.to_lowercase()
}

/// `str::to_uppercase`: on ASCII text it changes the ASCII letters alone; on other text the
/// result is a function of the text, which is all that is claimed.
#[verifier::external_body]
fn std_uppercase(s: &str) -> (r: String)
    ensures
        is_ascii_chars(s@) ==> r@ == upper(s@),
        !is_ascii_chars(s@) ==> r@ == unicode_uppercase(s@),
{
    s.to_uppercase()
}

/// `s` in lower case.
pub fn to_lowercase(s: &str) -> (r: String)
    ensures
        r@ == lowercase(s@),
{
    std_lowercase(s)
}

/// `s` in upper case.
pub fn to_uppercase(s: &str) -> (r: String)
    ensures
        r@ == uppercase(s@),
{
    std_uppercase(s)
}

// ---------------------------------------------------------------------------
// Quoting
// ---------------------------------------------------------------------------
/// How `Debug` renders a text that holds characters it may have to escape.
pub uninterp spec fn escaped(s: Seq<char>) -> Seq<char>;

/// Printable ASCII other than the quotation mark and the backslash.
pub open spec fn plain(s: Seq<char>) -> bool {
    forall|i: int| 0 <= i < s.len() ==> ' ' <= #[trigger] s[i] <= '~' && s[i] != '"' && s[i] != '\\'
}

/// `s` between quotation marks, with what needs it escaped.
pub open spec fn quoted(s: Seq<char>) -> Seq<char> {
    if plain(s) {
        "\""@ + s + "\""@
    } else {
        escaped(s)
    }
}

/// `format!("{:?}")` of a text: plain text comes between quotation marks; of other text only
/// that the result is a function of the text is claimed.
#[verifier::external_body]
fn debug_text(s: &str) -> (r: String)
    ensures
        plain(s@) ==> r@ == "\""@ + s@ + "\""@,
        !plain(s@) ==> r@ == escaped(s@),
{
    format!("{:?}", s)
}

/// `s` between quotation marks.
pub fn quote(s: &str) -> (r: String)
    ensures
        r@ == quoted(s@),
{
    debug_text(s)
}

/// How many bytes `s` takes in UTF-8.
pub open spec fn size(s: Seq<char>) -> usize {
    vstd::utf8::encode_utf8(s).len() as usize
}

/// How many bytes `s` takes in UTF-8.
pub fn byte_length(s: &str) -> (r: usize)
    ensures
        r == size(s@),
{
    s.len()
}

// ---------------------------------------------------------------------------
// Numbers
// ---------------------------------------------------------------------------
/// A decimal digit.
pub open spec fn digit(c: char) -> bool {
    '0' <= c <= '9'
}

/// Whether `c` is a decimal digit.
pub fn is_digit(c: char) -> (r: bool)
    ensures
        r == digit(c),
{
    '0' <= c && c <= '9'
}

/// Decimal digits alone.
pub open spec fn digits(s: Seq<char>) -> bool {
    forall|i: int| 0 <= i < s.len() ==> digit(#[trigger] s[i])
}

/// The number that decimal digits stand for.
pub open spec fn value(s: Seq<char>) -> nat
    decreases s.len(),
{
    if s.len() == 0 {
        0
    } else {
        value(s.drop_last()) * 10 + (s.last() as nat - '0' as nat) as nat
    }
}

/// The number that `s` stands for: an optional plus sign, then digits alone, at most `max`.
pub open spec fn number(s: Seq<char>, max: nat) -> Option<nat> {
    let body = if starts_char(s, '+') {
        s.skip(1)
    } else {
        s
    };
    if body.len() > 0 && digits(body) && value(body) <= max {
        Some(value(body))
    } else {
        None
    }
}

/// More digits stand for a number that is not smaller.
pub proof fn lemma_value_grows(s: Seq<char>, n: int)
    requires
        0 <= n <= s.len(),
    ensures
        value(s.take(n)) <= value(s),
    decreases s.len() - n,
{
    if n == s.len() {
        assert(s.take(n) =~= s);
    } else {
        lemma_value_grows(s, n + 1);
        assert(s.take(n + 1).drop_last() =~= s.take(n));
    }
}

/// The number that `s` stands for, if it is at most `max`.
pub fn parse_number(s: &str, max: u64) -> (r: Option<u64>)
    ensures
        match r {
            Some(n) => number(s@, max as nat) == Some(n as nat),
            None => number(s@, max as nat) is None,
        },
{
    let signed = begins_with(s, '+');
    let body = if signed {
        after(s, 1)
    } else {
        s
    };
    let x = chars_of(body);
    if x.len() == 0 {
        return None;
    }
    let mut n: u64 = 0;
    let mut i: usize = 0;
    while i < x.len()
        invariant
            i <= x.len(),
            x@ == body@,
            body@ == if starts_char(s@, '+') {
                s@.skip(1)
            } else {
                s@
            },
            n <= max,
            n == value(x@.take(i as int)),
            forall|j: int| 0 <= j < i ==> digit(#[trigger] x@[j]),
        decreases x.len() - i,
    {
        let c = x[i];
        if !is_digit(c) {
            assert(!digit(body@[i as int]));
            return None;
        }
        let d: u64 = (c as u32 - '0' as u32) as u64;
        proof {
            assert(x@.take(i + 1).drop_last() =~= x@.take(i as int));
            assert(value(x@.take(i + 1)) == n as nat * 10 + d as nat);
            lemma_value_grows(x@, i + 1);
        }
        if n > max / 10 {
            return None;
        }
        if d > max || n * 10 > max - d {
            return None;
        }
        n = n * 10 + d;
        i += 1;
    }
    assert(x@.take(x@.len() as int) =~= x@);
    Some(n)
}

/// The `u16` that `s` stands for.
pub open spec fn as_u16(s: Seq<char>) -> Option<u16> {
    match number(s, u16::MAX as nat) {
        Some(n) => Some(n as u16),
        None => None,
    }
}

/// The `u32` that `s` stands for.
pub open spec fn as_u32(s: Seq<char>) -> Option<u32> {
    match number(s, u32::MAX as nat) {
        Some(n) => Some(n as u32),
        None => None,
    }
}

/// The `u64` that `s` stands for.
pub open spec fn as_u64(s: Seq<char>) -> Option<u64> {
    match number(s, u64::MAX as nat) {
        Some(n) => Some(n as u64),
        None => None,
    }
}

/// The `usize` that `s` stands for.
pub open spec fn as_usize(s: Seq<char>) -> Option<usize> {
    match number(s, usize::MAX as nat) {
        Some(n) => Some(n as usize),
        None => None,
    }
}

/// The `u16` that `s` stands for.
pub fn parse_u16(s: &str) -> (r: Option<u16>)
    ensures
        r == as_u16(s@),
{
    match parse_number(s, u16::MAX as u64) {
        Some(n) => Some(n as u16),
        None => None,
    }
}

/// The `u32` that `s` stands for.
pub fn parse_u32(s: &str) -> (r: Option<u32>)
    ensures
        r == as_u32(s@),
{
    match parse_number(s, u32::MAX as u64) {
        Some(n) => Some(n as u32),
        None => None,
    }
}

/// The `u64` that `s` stands for.
pub fn parse_u64(s: &str) -> (r: Option<u64>)
    ensures
        r == as_u64(s@),
{
    parse_number(s, u64::MAX)
}

/// The `usize` that `s` stands for.
pub fn parse_usize(s: &str) -> (r: Option<usize>)
    ensures
        r == as_usize(s@),
{
    match parse_number(s, usize::MAX as u64) {
        Some(n) => Some(n as usize),
        None => None,
    }
}

/// The decimal form of `n`.
pub open spec fn shown(n: nat) -> Seq<char>
    decreases n,
{
    if n < 10 {
        seq![(48 + n) as char]
    } else {
        shown(n / 10).push((48 + n % 10) as char)
    }
}

/// The decimal form of `n`.
pub fn show(n: u64) -> (r: String)
    ensures
        r@ == shown(n as nat),
    decreases n,
{
    let d: u8 = (n % 10) as u8;
    if n < 10 {
        let mut s = String::new();
        s.push((48 + d) as char);
        assert(s@ =~= shown(n as nat));
        s
    } else {
        let mut s = show(n / 10);
        s.push((48 + d) as char);
        s
    }
}

/// The decimal form of a number stands for that number.
pub proof fn a_shown_number_reads_back(n: nat)
    ensures
        shown(n).len() > 0,
        digits(shown(n)),
        value(shown(n)) == n,
        forall|max: nat| n <= max ==> #[trigger] number(shown(n), max) == Some(n),
    decreases n,
{
    let s = shown(n);
    if n < 10 {
        assert(s.drop_last() =~= Seq::<char>::empty());
        assert(value(s.drop_last()) == 0);
    } else {
        a_shown_number_reads_back(n / 10);
        let front = shown(n / 10);
        assert(s.drop_last() =~= front);
        assert forall|i: int| 0 <= i < s.len() implies digit(#[trigger] s[i]) by {
            if i < front.len() {
                assert(digit(front[i]));
            }
        }
    }
    assert(digit(s[0]));
}

// ---------------------------------------------------------------------------
// Order
// ---------------------------------------------------------------------------
/// Whether `a` comes before `b` in the order of names: the first character in which they differ
/// decides, and a name comes before those that continue it.
pub open spec fn sooner(a: Seq<char>, b: Seq<char>) -> bool
    decreases a.len(),
{
    if b.len() == 0 {
        false
    } else if a.len() == 0 {
        true
    } else if a[0] == b[0] {
        sooner(a.skip(1), b.skip(1))
    } else {
        a[0] < b[0]
    }
}

/// The first character in which two names differ decides.
pub proof fn lemma_sooner_at(a: Seq<char>, b: Seq<char>, k: int)
    requires
        0 <= k <= a.len(),
        k < b.len(),
        forall|i: int| 0 <= i < k ==> #[trigger] a[i] == b[i],
        k == a.len() || a[k] < b[k],
    ensures
        sooner(a, b),
    decreases k,
{
    if k > 0 {
        let x = a.skip(1);
        let y = b.skip(1);
        assert(a[0] == b[0]);
        assert forall|i: int| 0 <= i < k - 1 implies #[trigger] x[i] == y[i] by {
            assert(a[i + 1] == b[i + 1]);
        }
        lemma_sooner_at(x, y, k - 1);
    }
}

/// The order of names is an order: no name comes before itself, and what comes before a name comes
/// before those after it.
pub proof fn lemma_sooner_is_an_order(a: Seq<char>, b: Seq<char>, c: Seq<char>)
    ensures
        !sooner(a, a),
        sooner(a, b) && sooner(b, c) ==> sooner(a, c),
    decreases a.len(),
{
    if a.len() > 0 {
        lemma_sooner_is_an_order(a.skip(1), b.skip(1), c.skip(1));
    }
}

/// Whether a list of names is in alphabetical order, each name once.
pub open spec fn alphabetical(list: Seq<Seq<char>>) -> bool {
    forall|i: int, j: int| 0 <= i < j < list.len() ==> sooner(#[trigger] list[i], #[trigger] list[j])
}

/// A list is in alphabetical order if each name comes before the next one.
pub proof fn lemma_alphabetical(list: Seq<Seq<char>>)
    requires
        forall|i: int| 0 < i < list.len() ==> sooner(list[i - 1], #[trigger] list[i]),
    ensures
        alphabetical(list),
        list.no_duplicates(),
    decreases list.len(),
{
    if list.len() > 0 {
        let front = list.drop_last();
        let n = front.len() as int;
        assert forall|i: int| 0 < i < front.len() implies sooner(
            front[i - 1],
            #[trigger] front[i],
        ) by {
            assert(list[i] == front[i]);
        }
        lemma_alphabetical(front);
        assert forall|i: int, j: int| 0 <= i < j < list.len() implies sooner(
            #[trigger] list[i],
            #[trigger] list[j],
        ) by {
            if j < n {
                assert(sooner(front[i], front[j]));
            } else if i < n - 1 {
                assert(sooner(front[i], front[n - 1]));
                assert(sooner(list[n - 1], list[n]));
                lemma_sooner_is_an_order(list[i], list[n - 1], list[n]);
            }
        }
        assert forall|i: int, j: int|
            0 <= i < list.len() && 0 <= j < list.len() && i != j implies list[i] != list[j] by {
            lemma_sooner_is_an_order(list[i], list[i], list[i]);
            if i < j {
                assert(sooner(list[i], list[j]));
            } else {
                assert(sooner(list[j], list[i]));
            }
        }
    }
}

/// A name that comes between two neighbours of a list in alphabetical order is not in it.
pub proof fn lemma_not_listed(list: Seq<Seq<char>>, name: Seq<char>, k: int)
    requires
        alphabetical(list),
        0 <= k <= list.len(),
        k > 0 ==> sooner(list[k - 1], name),
        k < list.len() ==> sooner(name, list[k]),
    ensures
        !list.contains(name),
{
    if list.contains(name) {
        let i = choose|i: int| 0 <= i < list.len() && list[i] == name;
        lemma_sooner_is_an_order(name, name, name);
        if i < k - 1 {
            assert(sooner(list[i], list[k - 1]));
            lemma_sooner_is_an_order(list[i], list[k - 1], name);
        } else if i > k {
            assert(sooner(list[k], list[i]));
            lemma_sooner_is_an_order(name, list[k], list[i]);
        }
    }
}

} // verus!
