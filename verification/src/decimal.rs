//! Decimal fractions.

use crate::text;
use crate::text::{after, before, begins_with, chars_of, count_leading, is_digit, parse_number};
use vstd::prelude::*;

verus! {

/// A decimal number: an optional plus sign, digits, an optional point with more digits, and an
/// optional exponent. Its value is the first component times ten to the second.
pub open spec fn decimal(s: Seq<char>) -> Option<(nat, int)> {
    let body = if text::starts_char(s, '+') {
        s.skip(1)
    } else {
        s
    };
    let whole = text::leading(body, |c: char| text::digit(c));
    let rest = text::trim_left(body, |c: char| text::digit(c));
    let pointed = text::starts_char(rest, '.');
    let part = if pointed {
        text::leading(rest.skip(1), |c: char| text::digit(c))
    } else {
        Seq::empty()
    };
    let tail = if pointed {
        text::trim_left(rest.skip(1), |c: char| text::digit(c))
    } else {
        rest
    };
    if whole.len() + part.len() == 0 {
        None
    } else if tail.len() == 0 {
        Some((text::value(whole + part), -part.len()))
    } else if tail[0] != 'e' && tail[0] != 'E' {
        None
    } else {
        match exponent(tail.skip(1)) {
            None => None,
            Some(e) => Some((text::value(whole + part), e - part.len())),
        }
    }
}

/// The digits of an exponent, with an optional sign.
pub open spec fn exponent(s: Seq<char>) -> Option<int> {
    let negative = text::starts_char(s, '-');
    let body = if negative || text::starts_char(s, '+') {
        s.skip(1)
    } else {
        s
    };
    if body.len() == 0 || !text::digits(body) {
        None
    } else if negative {
        Some(-text::value(body))
    } else {
        Some(text::value(body) as int)
    }
}

/// Ten to the power `n`.
pub open spec fn ten(n: nat) -> nat
    decreases n,
{
    if n == 0 {
        1
    } else {
        10 * ten((n - 1) as nat)
    }
}

/// Whether `s` is a decimal number strictly between zero and one.
pub open spec fn fraction(s: Seq<char>) -> bool {
    match decimal(s) {
        None => false,
        Some((n, scale)) => 0 < n && scale < 0 && n < ten((-scale) as nat),
    }
}

proof fn lemma_ten_grows(a: nat, b: nat)
    requires
        a <= b,
    ensures
        0 < ten(a) <= ten(b),
    decreases b,
{
    if b > 0 && a < b {
        lemma_ten_grows(a, (b - 1) as nat);
    } else if b > 0 {
        lemma_ten_grows((a - 1) as nat, (b - 1) as nat);
    }
}

/// Digits stand for less than ten to their number, and the first one decides from below.
proof fn lemma_value_bounds(s: Seq<char>)
    requires
        text::digits(s),
    ensures
        text::value(s) < ten(s.len()),
        s.len() > 0 && s[0] != '0' ==> text::value(s) >= ten((s.len() - 1) as nat),
    decreases s.len(),
{
    if s.len() > 0 {
        let front = s.drop_last();
        assert(text::digit(s.last()));
        assert forall|i: int| 0 <= i < front.len() implies text::digit(#[trigger] front[i]) by {
            assert(text::digit(s[i]));
        }
        lemma_value_bounds(front);
        if front.len() > 0 {
            assert(front[0] == s[0]);
        } else {
            assert(text::value(front) == 0);
            assert(s[0] == s.last());
        }
    }
}

/// Leading zeros do not count.
proof fn lemma_leading_zeros(s: Seq<char>, z: int)
    requires
        0 <= z <= s.len(),
        forall|i: int| 0 <= i < z ==> #[trigger] s[i] == '0',
    ensures
        text::value(s) == text::value(s.skip(z)),
    decreases s.len(),
{
    if z == s.len() {
        assert(s.skip(z) =~= Seq::<char>::empty());
        if s.len() > 0 {
            lemma_leading_zeros(s.drop_last(), z - 1);
            assert(s.drop_last().skip(z - 1) =~= Seq::<char>::empty());
            assert(s.last() == '0');
        }
    } else {
        lemma_leading_zeros(s.drop_last(), z);
        assert(s.skip(z).drop_last() =~= s.drop_last().skip(z));
        assert(s.skip(z).last() == s.last());
    }
}

/// How many digits are left after the leading zeros decides whether the number reaches a power
/// of ten.
fn significant(s: &Vec<char>) -> (r: usize)
    requires
        text::digits(s@),
    ensures
        r <= s@.len(),
        r == 0 <==> text::value(s@) == 0,
        r > 0 ==> ten((r - 1) as nat) <= text::value(s@) < ten(r as nat),
{
    let mut z: usize = 0;
    while z < s.len() && s[z] == '0'
        invariant
            z <= s.len(),
            forall|i: int| 0 <= i < z ==> #[trigger] s@[i] == '0',
        decreases s.len() - z,
    {
        z += 1;
    }
    proof {
        lemma_leading_zeros(s@, z as int);
        let rest = s@.skip(z as int);
        assert forall|i: int| 0 <= i < rest.len() implies text::digit(#[trigger] rest[i]) by {
            assert(text::digit(s@[i + z]));
        }
        lemma_value_bounds(rest);
        if rest.len() > 0 {
            assert(rest[0] == s@[z as int]);
            lemma_ten_grows(0, (rest.len() - 1) as nat);
        }
    }
    s.len() - z
}

/// Whether the digits of `s` reach its end.
fn all_digits(s: &str) -> (r: bool)
    ensures
        r == text::digits(s@),
{
    let x = chars_of(s);
    let mut i: usize = 0;
    while i < x.len()
        invariant
            i <= x.len(),
            x@ == s@,
            forall|j: int| 0 <= j < i ==> text::digit(#[trigger] s@[j]),
        decreases x.len() - i,
    {
        if !is_digit(x[i]) {
            assert(!text::digit(s@[i as int]));
            return false;
        }
        i += 1;
    }
    true
}

/// Whether `n`, which has `size` digits and `places` of them behind the point, is strictly
/// between zero and one once the exponent `power` is applied.
fn shifted_below_one(Ghost(n): Ghost<nat>, size: usize, places: usize, power: &str) -> (r: bool)
    requires
        size == 0 <==> n == 0,
        size > 0 ==> ten((size - 1) as nat) <= n < ten(size as nat),
    ensures
        r == (match exponent(power@) {
            None => false,
            Some(e) => 0 < n && e - places < 0 && n < ten((places - e) as nat),
        }),
{
    let negative = begins_with(power, '-');
    let digits = if negative || begins_with(power, '+') {
        after(power, 1)
    } else {
        power
    };
    if digits.unicode_len() == 0 || !all_digits(digits) {
        return false;
    }
    if size == 0 {
        return false;
    }
    assert(!text::starts_char(digits@, '+')) by {
        assert(text::digit(digits@[0]));
    }
    let ghost e = text::value(digits@) as int;
    match parse_number(digits, u64::MAX) {
        None => {
            proof {
                if negative {
                    lemma_ten_grows(size as nat, (e + places) as nat);
                }
            }
            negative
        },
        Some(e) => {
            if negative {
                let reach: u128 = e as u128 + places as u128;
                proof {
                    if size <= reach {
                        lemma_ten_grows(size as nat, reach as nat);
                    } else {
                        lemma_ten_grows(reach as nat, (size - 1) as nat);
                    }
                }
                size as u128 <= reach
            } else {
                let shifted: u128 = e as u128 + size as u128;
                proof {
                    if shifted <= places {
                        lemma_ten_grows(size as nat, (places - e) as nat);
                    } else if places >= e {
                        lemma_ten_grows((places - e) as nat, (size - 1) as nat);
                    }
                }
                shifted <= places as u128
            }
        },
    }
}

/// Whether `s` is a decimal number strictly between zero and one.
pub fn is_fraction(s: &str) -> (r: bool)
    ensures
        r == fraction(s@),
{
    let ghost g = |c: char| text::digit(c);
    let body = if begins_with(s, '+') {
        after(s, 1)
    } else {
        s
    };
    let n: usize = count_leading(body, is_digit, Ghost(g));
    proof {
        text::lemma_trim_left(body@, g);
    }
    let whole = before(body, n);
    let rest = after(body, n);
    let pointed = begins_with(rest, '.');
    let (part, tail) = if pointed {
        let more = after(rest, 1);
        let k: usize = count_leading(more, is_digit, Ghost(g));
        proof {
            text::lemma_trim_left(more@, g);
        }
        (before(more, k), after(more, k))
    } else {
        (before(rest, 0), rest)
    };
    let ghost all = whole@ + part@;
    assert(!pointed ==> part@ =~= Seq::<char>::empty());
    assert(text::digits(all)) by {
        assert forall|i: int| 0 <= i < all.len() implies text::digit(#[trigger] all[i]) by {
            if i < whole@.len() {
                assert(g(body@[i]));
            } else {
                assert(g(rest@.skip(1)[i - whole@.len()]));
            }
        }
    }
    let mut count = chars_of(whole);
    let mut more = chars_of(part);
    count.append(&mut more);
    assert(count@ =~= all);
    if count.len() == 0 {
        return false;
    }
    let places: usize = part.unicode_len();
    let size: usize = significant(&count);
    let t = chars_of(tail);
    if t.len() == 0 {
        proof {
            if size > 0 {
                lemma_ten_grows(size as nat, if places >= size {
                    places as nat
                } else {
                    size as nat
                });
                if places < size {
                    lemma_ten_grows(places as nat, (size - 1) as nat);
                }
            }
        }
        return size > 0 && size <= places;
    }
    if t[0] != 'e' && t[0] != 'E' {
        return false;
    }
    shifted_below_one(Ghost(text::value(all)), size, places, after(tail, 1))
}

} // verus!
