//! Durations as they are written in a configuration.
//!
//! A duration is a run of parts such as `1.5h` or `2h45m`. The parts are added exactly, however
//! many decimals they have, and only the sum is rounded to whole milliseconds.

use crate::text;
use crate::text::{after, before, chars_of, count_leading, find, is_digit, strip, trim};
use vstd::arithmetic::div_mod::lemma_fundamental_div_mod_converse;
use vstd::prelude::*;

verus! {

/// The unit that `s` begins with, and how many nanoseconds it stands for.
pub open spec fn unit_of(s: Seq<char>) -> Option<(Seq<char>, nat)> {
    if text::starts(s, "ns"@) {
        Some(("ns"@, 1))
    } else if text::starts(s, "us"@) {
        Some(("us"@, 1_000))
    } else if text::starts(s, "µs"@) {
        Some(("µs"@, 1_000))
    } else if text::starts(s, "ms"@) {
        Some(("ms"@, 1_000_000))
    } else if text::starts(s, "s"@) {
        Some(("s"@, 1_000_000_000))
    } else if text::starts(s, "m"@) {
        Some(("m"@, 60_000_000_000))
    } else if text::starts(s, "h"@) {
        Some(("h"@, 3_600_000_000_000))
    } else if text::starts(s, "d"@) {
        Some(("d"@, 86_400_000_000_000))
    } else {
        None
    }
}

/// A character of a number: a digit or the decimal point.
pub open spec fn numeric(c: char) -> bool {
    text::digit(c) || c == '.'
}

/// The `n`th power of ten.
pub open spec fn tens(n: nat) -> nat
    decreases n,
{
    if n == 0 {
        1
    } else {
        10 * tens((n - 1) as nat)
    }
}

/// `s` times a unit, in the `scale`th decimal of a nanosecond; `s` has at least one digit, at most
/// one decimal point, and no more than `scale` decimals.
pub open spec fn amount(s: Seq<char>, unit: nat, scale: nat) -> Option<nat> {
    match s.index_of_first('.') {
        None => if s.len() > 0 && text::digits(s) {
            Some(text::value(s) * unit * tens(scale))
        } else {
            None
        },
        Some(i) => {
            let part = s.skip(i + 1);
            if s.len() > 1 && text::digits(s.take(i)) && text::digits(part) {
                Some(
                    text::value(s.take(i)) * unit * tens(scale) + text::value(part) * unit * tens(
                        (scale - part.len()) as nat,
                    ),
                )
            } else {
                None
            }
        },
    }
}

/// The sum of the parts of `s`, added to `sum`, in the `scale`th decimal of a nanosecond.
pub open spec fn added(s: Seq<char>, scale: nat, sum: nat) -> Option<nat>
    decreases s.len(),
{
    if s.len() == 0 {
        Some(sum)
    } else {
        let rest = text::trim_left(s, |c: char| numeric(c));
        if rest.len() >= s.len() {
            None
        } else {
            let count = text::leading(s, |c: char| numeric(c));
            match unit_of(rest) {
                None => None,
                Some((name, unit)) => match amount(count, unit, scale) {
                    None => None,
                    Some(n) => added(rest.skip(name.len() as int), scale, sum + n),
                },
            }
        }
    }
}

/// The whole nanoseconds in the sum of the parts of `s`. A text has no more decimals than
/// characters, so that many are counted and nothing is lost before the parts are added.
pub open spec fn nanos(s: Seq<char>) -> Option<nat> {
    match added(s, s.len(), 0) {
        None => None,
        Some(sum) => Some(sum / tens(s.len())),
    }
}

/// The milliseconds that `s` stands for, rounded half up and never more than `u64` holds; less
/// than one millisecond, a number without a unit and malformed text have none.
pub open spec fn millis(s: Seq<char>) -> Option<u64> {
    let t = text::trimmed(s);
    if t.len() == 0 {
        None
    } else {
        match nanos(t) {
            None => None,
            Some(n) => if n < 1_000_000 {
                None
            } else if (n + 500_000) / 1_000_000 > u64::MAX {
                Some(u64::MAX)
            } else {
                Some(((n + 500_000) / 1_000_000) as u64)
            },
        }
    }
}

/// A count of nanoseconds beyond which the rounded milliseconds no longer fit `u64`.
pub const CEILING: u128 = 20_000_000_000_000_000_000_000_000;

/// `n`, or the ceiling where `n` is beyond it.
spec fn capped(n: nat) -> nat {
    if n > CEILING {
        CEILING as nat
    } else {
        n
    }
}

/// Whether `c` is a digit or the decimal point.
fn is_numeric(c: char) -> (r: bool)
    ensures
        r == numeric(c),
{
    is_digit(c) || c == '.'
}

/// Dropping the first digit.
proof fn lemma_value_first(s: Seq<char>)
    requires
        s.len() > 0,
        text::digits(s),
    ensures
        text::value(s) == (s[0] as nat - '0' as nat) * tens((s.len() - 1) as nat) + text::value(
            s.drop_first(),
        ),
    decreases s.len(),
{
    let d: int = s[0] as nat - '0' as nat;
    if s.len() == 1 {
        assert(s.drop_last() =~= Seq::<char>::empty());
        assert(s.drop_first() =~= Seq::<char>::empty());
        assert(text::value(s.drop_last()) == 0);
        let p: int = tens(0) as int;
        assert(d * p == d) by (nonlinear_arith)
            requires
                p == 1,
        ;
    } else {
        let front = s.drop_last();
        lemma_value_first(front);
        assert(front.drop_first() =~= s.drop_first().drop_last());
        assert(s.drop_first().last() == s.last());
        assert(front[0] == s[0]);
        let t: int = tens((s.len() - 2) as nat) as int;
        let w: int = text::value(front.drop_first()) as int;
        assert(tens((s.len() - 1) as nat) == 10 * t);
        assert((d * t + w) * 10 == d * (10 * t) + w * 10) by (nonlinear_arith);
        assert(text::value(front) == d * t + w);
        assert(text::value(s.drop_first()) == w * 10 + (s.last() as nat - '0' as nat));
    }
}

proof fn lemma_tens_positive(n: nat)
    ensures
        tens(n) > 0,
    decreases n,
{
    if n > 0 {
        lemma_tens_positive((n - 1) as nat);
    }
}

proof fn lemma_tens_add(a: nat, b: nat)
    ensures
        tens(a) * tens(b) == tens(a + b),
    decreases a,
{
    if a == 0 {
        assert(1 * tens(b) == tens(b));
    } else {
        lemma_tens_add((a - 1) as nat, b);
        let x = tens((a - 1) as nat);
        let y = tens(b);
        assert(10 * x * y == 10 * (x * y)) by (nonlinear_arith);
        assert(((a - 1) + b) as nat == a + b - 1);
    }
}

/// The number that decimal digits stand for.
spec fn weight(s: Seq<u8>) -> nat
    decreases s.len(),
{
    if s.len() == 0 {
        0
    } else {
        s[0] as nat * tens((s.len() - 1) as nat) + weight(s.drop_first())
    }
}

/// Whether each of the numbers is a decimal digit.
spec fn decimals(s: Seq<u8>) -> bool {
    forall|i: int| 0 <= i < s.len() ==> #[trigger] s[i] <= 9
}

proof fn lemma_weight_bound(s: Seq<u8>)
    requires
        decimals(s),
    ensures
        weight(s) < tens(s.len()),
    decreases s.len(),
{
    if s.len() > 0 {
        lemma_weight_bound(s.drop_first());
        let d = s[0] as nat;
        let t = tens((s.len() - 1) as nat);
        assert(d * t <= 9 * t) by (nonlinear_arith)
            requires
                d <= 9,
        ;
    }
}

proof fn lemma_no_weight(n: nat)
    ensures
        weight(Seq::new(n, |i: int| 0u8)) == 0,
    decreases n,
{
    if n > 0 {
        let s = Seq::new(n, |i: int| 0u8);
        assert(s.drop_first() =~= Seq::new((n - 1) as nat, |i: int| 0u8));
        lemma_no_weight((n - 1) as nat);
        let t = tens((n - 1) as nat);
        assert(0 * t == 0);
    }
}

/// One digit of an addition: `old` and `d` units and what was carried make the digit `t % 10`, and
/// `t / 10` is carried on.
proof fn lemma_digit(t: int, old: int, d: int, unit: int, carry: int, p: int, w: int, rest: int)
    requires
        t == old + d * unit + carry,
        w + carry * p == rest,
        t >= 0,
    ensures
        (t % 10) * p + w + (t / 10) * (10 * p) == old * p + d * unit * p + rest,
{
    let q: int = t % 10;
    let c: int = t / 10;
    assert(t == 10 * c + q);
    assert(q * p + c * (10 * p) == (10 * c + q) * p) by (nonlinear_arith);
    assert((old + d * unit + carry) * p == old * p + d * unit * p + carry * p)
        by (nonlinear_arith);
}

/// Adds the decimal fraction `0.part` of a unit to the decimals of a nanosecond, and returns the
/// whole nanoseconds that this makes.
fn add_fraction(decimal: &mut Vec<u8>, part: &str, unit: u64) -> (r: u64)
    requires
        decimals(old(decimal)@),
        text::digits(part@),
        part@.len() <= old(decimal)@.len(),
        0 < unit <= 86_400_000_000_000,
    ensures
        r <= unit,
        final(decimal)@.len() == old(decimal)@.len(),
        decimals(final(decimal)@),
        weight(final(decimal)@) + r * tens(old(decimal)@.len()) == weight(old(decimal)@)
            + text::value(part@) * unit as nat * tens(
            (old(decimal)@.len() - part@.len()) as nat,
        ),
{
    let x = chars_of(part);
    let ghost before = decimal@;
    let ghost n = decimal@.len();
    let ghost last = tens((n - part@.len()) as nat);
    let mut i: usize = x.len();
    let mut carry: u64 = 0;
    proof {
        assert(part@.skip(i as int) =~= Seq::<char>::empty());
        assert(text::value(part@.skip(i as int)) == 0);
        let u = unit as nat;
        assert(0 * u * last == 0) by (nonlinear_arith);
        let p = tens((n - i) as nat);
        assert(0 * p == 0);
    }
    while i > 0
        invariant
            i <= x.len(),
            x@ == part@,
            text::digits(part@),
            n == before.len(),
            decimal@.len() == n,
            part@.len() <= n,
            last == tens((n - part@.len()) as nat),
            0 < unit <= 86_400_000_000_000,
            carry <= unit,
            decimals(before),
            decimals(decimal@),
            forall|k: int| 0 <= k < i ==> decimal@[k] == before[k],
            weight(decimal@.skip(i as int)) + carry * tens((n - i) as nat) == weight(
                before.skip(i as int),
            ) + text::value(part@.skip(i as int)) * unit as nat * last,
        decreases i,
    {
        let ghost held = decimal@;
        let ghost after = i as int;
        let ghost carried = carry;
        i -= 1;
        let c = x[i];
        assert(text::digit(part@[i as int]));
        let d: u64 = (c as u32 - '0' as u32) as u64;
        assert(d * unit <= 9 * unit) by (nonlinear_arith)
            requires
                d <= 9,
        ;
        assert(decimal@[i as int] <= 9);
        let t: u64 = decimal[i] as u64 + d * unit + carry;
        decimal.set(i, (t % 10) as u8);
        carry = t / 10;
        proof {
            let p = tens((n - after) as nat);
            let u = unit as nat;
            let tail = part@.skip(i as int);
            let now = decimal@.skip(i as int);
            let then = before.skip(i as int);
            assert(tail.drop_first() =~= part@.skip(after));
            assert(now.drop_first() =~= held.skip(after));
            assert(then.drop_first() =~= before.skip(after));
            assert(tens((n - i) as nat) == 10 * p);
            assert forall|j: int| 0 <= j < tail.len() implies text::digit(#[trigger] tail[j]) by {
                assert(tail[j] == part@[i + j]);
            }
            lemma_value_first(tail);
            lemma_tens_add((part@.len() - after) as nat, (n - part@.len()) as nat);
            let v = text::value(part@.skip(after)) as int;
            let e = tens((part@.len() - after) as nat) as int;
            let rest = weight(before.skip(after)) + v * u * last;
            lemma_digit(
                t as int,
                before[i as int] as int,
                d as int,
                u as int,
                carried as int,
                p as int,
                weight(held.skip(after)) as int,
                rest as int,
            );
            assert((d * e + v) * u * last == d * u * (e * last) + v * u * last)
                by (nonlinear_arith);
        }
    }
    proof {
        assert(part@.skip(0) =~= part@);
        assert(decimal@.skip(0) =~= decimal@);
        assert(before.skip(0) =~= before);
    }
    carry
}

/// The number that the digits of `s` stand for times a unit, up to the ceiling.
fn measure_whole(s: &str, unit: u64) -> (r: u128)
    requires
        text::digits(s@),
        0 < unit <= 86_400_000_000_000,
    ensures
        r == capped(text::value(s@) * unit as nat),
{
    let x = chars_of(s);
    let mut i: usize = 0;
    let mut n: u128 = 0;
    while i < x.len()
        invariant
            i <= x.len(),
            x@ == s@,
            text::digits(s@),
            n == capped(text::value(s@.take(i as int))),
        decreases x.len() - i,
    {
        let c = x[i];
        assert(text::digit(s@[i as int]));
        let d: u128 = (c as u32 - '0' as u32) as u128;
        assert(s@.take(i + 1).drop_last() =~= s@.take(i as int));
        n = n * 10 + d;
        if n > CEILING {
            n = CEILING;
        }
        i += 1;
    }
    assert(s@.take(i as int) =~= s@);
    let ghost v = text::value(s@);
    proof {
        let u = unit as nat;
        if v > CEILING {
            assert(v * u > CEILING) by (nonlinear_arith)
                requires
                    v > CEILING,
                    u >= 1,
            ;
            assert(n as nat * u >= CEILING) by (nonlinear_arith)
                requires
                    n == CEILING,
                    u >= 1,
            ;
        }
        assert(n as nat * u == n * unit) by (nonlinear_arith)
            requires
                u == unit,
        ;
    }
    match n.checked_mul(unit as u128) {
        Some(p) => if p > CEILING {
            CEILING
        } else {
            p
        },
        None => CEILING,
    }
}

/// Adds `s` times a unit to whole nanoseconds, up to the ceiling, and to the decimals of one.
fn add_amount(
    s: &str,
    unit: u64,
    decimal: &mut Vec<u8>,
    sum: u128,
    whole: Ghost<nat>,
) -> (r: Option<(u128, Ghost<nat>)>)
    requires
        0 < unit <= 86_400_000_000_000,
        forall|i: int| 0 <= i < s@.len() ==> numeric(#[trigger] s@[i]),
        s@.len() <= old(decimal)@.len(),
        decimals(old(decimal)@),
        sum == capped(whole@),
    ensures
        final(decimal)@.len() == old(decimal)@.len(),
        decimals(final(decimal)@),
        match r {
            Some((n, next)) => n == capped(next@) && (match amount(
                s@,
                unit as nat,
                old(decimal)@.len(),
            ) {
                Some(more) => next@ * tens(old(decimal)@.len()) + weight(final(decimal)@) == whole@
                    * tens(old(decimal)@.len()) + weight(old(decimal)@) + more,
                None => false,
            }),
            None => amount(s@, unit as nat, old(decimal)@.len()) is None,
        },
{
    let ghost scale = decimal@.len();
    let ghost p = tens(scale);
    let ghost u = unit as nat;
    proof {
        s@.index_of_first_ensures('.');
    }
    match find(s, '.') {
        None => {
            assert forall|i: int| 0 <= i < s@.len() implies text::digit(#[trigger] s@[i]) by {
                assert(numeric(s@[i]));
                assert(s@[i] != '.') by {
                    if s@[i] == '.' {
                        assert(s@.contains('.'));
                    }
                }
            }
            if s.is_empty() {
                return None;
            }
            let large = measure_whole(s, unit);
            let ghost more = text::value(s@) * u;
            let mut total: u128 = sum + large;
            if total > CEILING {
                total = CEILING;
            }
            assert((whole@ + more) * p == whole@ * p + more * p) by (nonlinear_arith);
            Some((total, Ghost(whole@ + more)))
        },
        Some(i) => {
            let front = before(s, i);
            let n: usize = s.unicode_len();
            let part = after(s, i + 1);
            assert forall|j: int| 0 <= j < front@.len() implies text::digit(
                #[trigger] front@[j],
            ) by {
                assert(numeric(s@[j]));
            }
            proof {
                part@.index_of_first_ensures('.');
            }
            if find(part, '.').is_some() {
                assert(!text::digits(part@)) by {
                    let k = part@.index_of_first('.').unwrap();
                    assert(!text::digit(part@[k]));
                }
                return None;
            }
            assert forall|j: int| 0 <= j < part@.len() implies text::digit(
                #[trigger] part@[j],
            ) by {
                assert(part@[j] == s@[i + 1 + j]);
                assert(numeric(s@[i + 1 + j]));
                assert(part@[j] != '.') by {
                    if part@[j] == '.' {
                        assert(part@.contains('.'));
                    }
                }
            }
            if n < 2 {
                return None;
            }
            let large = measure_whole(front, unit);
            let small = add_fraction(decimal, part, unit);
            let ghost more = text::value(front@) * u;
            let mut total: u128 = sum + large + small as u128;
            if total > CEILING {
                total = CEILING;
            }
            assert((whole@ + more + small as nat) * p == whole@ * p + more * p + small as nat * p)
                by (nonlinear_arith);
            Some((total, Ghost(whole@ + more + small as nat)))
        },
    }
}

/// The unit that `s` begins with: how many nanoseconds it stands for, and what follows it.
fn read_unit<'a>(s: &'a str) -> (r: Option<(u64, &'a str)>)
    ensures
        match r {
            Some((unit, rest)) => unit_of(s@) is Some && unit == (unit_of(s@)->Some_0).1
                && rest@ == s@.skip((unit_of(s@)->Some_0).0.len() as int) && 0 < unit
                <= 86_400_000_000_000 && rest@.len() <= s@.len(),
            None => unit_of(s@) is None,
        },
{
    if let Some(rest) = strip(s, "ns") {
        Some((1, rest))
    } else if let Some(rest) = strip(s, "us") {
        Some((1_000, rest))
    } else if let Some(rest) = strip(s, "µs") {
        Some((1_000, rest))
    } else if let Some(rest) = strip(s, "ms") {
        Some((1_000_000, rest))
    } else if let Some(rest) = strip(s, "s") {
        Some((1_000_000_000, rest))
    } else if let Some(rest) = strip(s, "m") {
        Some((60_000_000_000, rest))
    } else if let Some(rest) = strip(s, "h") {
        Some((3_600_000_000_000, rest))
    } else if let Some(rest) = strip(s, "d") {
        Some((86_400_000_000_000, rest))
    } else {
        None
    }
}

/// The whole nanoseconds in the parts of `s`, added to `sum` and to the decimals of a nanosecond,
/// up to the ceiling.
fn add_parts(s: &str, decimal: Vec<u8>, sum: u128, whole: Ghost<nat>) -> (r: Option<u128>)
    requires
        s@.len() <= decimal@.len(),
        decimals(decimal@),
        sum == capped(whole@),
    ensures
        match r {
            Some(n) => match added(
                s@,
                decimal@.len(),
                whole@ * tens(decimal@.len()) + weight(decimal@),
            ) {
                Some(total) => n == capped(total / tens(decimal@.len())),
                None => false,
            },
            None => added(s@, decimal@.len(), whole@ * tens(decimal@.len()) + weight(decimal@)) is
                None,
        },
    decreases s@.len(),
{
    let mut decimal = decimal;
    let ghost p = tens(decimal@.len());
    if s.is_empty() {
        proof {
            lemma_weight_bound(decimal@);
            lemma_fundamental_div_mod_converse(
                (whole@ * p + weight(decimal@)) as int,
                p as int,
                whole@ as int,
                weight(decimal@) as int,
            );
        }
        return Some(sum);
    }
    proof {
        text::lemma_trim_left(s@, |c: char| numeric(c));
    }
    let n = count_leading(s, is_numeric, Ghost(|c: char| numeric(c)));
    if n == 0 {
        return None;
    }
    let count = before(s, n);
    let rest = after(s, n);
    match read_unit(rest) {
        None => None,
        Some((unit, next)) => {
            assert forall|i: int| 0 <= i < count@.len() implies numeric(#[trigger] count@[i]) by {
                assert(count@[i] == s@[i]);
            }
            match add_amount(count, unit, &mut decimal, sum, whole) {
                None => None,
                Some((total, more)) => add_parts(next, decimal, total, more),
            }
        },
    }
}

fn zeros(n: usize) -> (r: Vec<u8>)
    ensures
        r@ == Seq::new(n as nat, |i: int| 0u8),
{
    let mut out: Vec<u8> = Vec::new();
    let mut i: usize = 0;
    while i < n
        invariant
            i <= n,
            out@ == Seq::new(i as nat, |k: int| 0u8),
        decreases n - i,
    {
        out.push(0);
        i += 1;
        assert(out@ =~= Seq::new(i as nat, |k: int| 0u8));
    }
    out
}

/// Reads a duration in milliseconds.
///
/// A bare number is refused: `30` would mean thirty milliseconds to a machine and thirty
/// seconds to the person who wrote it.
pub fn parse_duration_ms(s: &str) -> (r: Option<u64>)
    ensures
        r == millis(s@),
{
    let t = trim(s);
    if t.is_empty() {
        return None;
    }
    let decimal = zeros(t.unicode_len());
    proof {
        lemma_no_weight(t@.len());
        let p = tens(t@.len());
        assert(0 * p == 0);
    }
    match add_parts(t, decimal, 0, Ghost(0nat)) {
        None => None,
        Some(n) => if n < 1_000_000 {
            None
        } else {
            let rounded: u128 = (n + 500_000) / 1_000_000;
            if rounded > u64::MAX as u128 {
                Some(u64::MAX)
            } else {
                Some(rounded as u64)
            }
        },
    }
}

} // verus!
