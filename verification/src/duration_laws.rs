//! What durations mean.

use crate::duration;
use crate::text;
use vstd::prelude::*;

verus! {

/// How many nanoseconds a unit stands for; the units of a text are the second, its thousandths, its
/// millionths and its billionths, the minute, the hour and the day.
pub open spec fn is_unit(unit: Seq<char>, nanos: nat) -> bool {
    ||| unit == "ns"@ && nanos == 1
    ||| (unit == "us"@ || unit == "µs"@) && nanos == 1_000
    ||| unit == "ms"@ && nanos == 1_000 * 1_000
    ||| unit == "s"@ && nanos == 1_000 * 1_000 * 1_000
    ||| unit == "m"@ && nanos == 60 * 1_000 * 1_000 * 1_000
    ||| unit == "h"@ && nanos == 60 * 60 * 1_000 * 1_000 * 1_000
    ||| unit == "d"@ && nanos == 24 * 60 * 60 * 1_000 * 1_000 * 1_000
}

/// A number of units, as it is written.
pub open spec fn written(n: nat, unit: Seq<char>) -> Seq<char> {
    text::shown(n) + unit
}

/// What can follow a unit: nothing, or another number.
spec fn follows(rest: Seq<char>) -> bool {
    rest.len() == 0 || text::digit(rest[0])
}

proof fn lemma_unit(unit: Seq<char>, nanos: nat, rest: Seq<char>)
    requires
        is_unit(unit, nanos),
        follows(rest),
    ensures
        unit.len() > 0,
        !duration::numeric(unit[0]),
        duration::unit_of(unit + rest) == Some((unit, nanos)),
{
    reveal_strlit("ns");
    reveal_strlit("us");
    reveal_strlit("µs");
    reveal_strlit("ms");
    reveal_strlit("s");
    reveal_strlit("m");
    reveal_strlit("h");
    reveal_strlit("d");
    assert("ns"@.len() == 2 && "us"@.len() == 2 && "µs"@.len() == 2 && "ms"@.len() == 2);
    assert("s"@.len() == 1 && "m"@.len() == 1 && "h"@.len() == 1 && "d"@.len() == 1);
    assert("ns"@[0] == 'n' && "us"@[0] == 'u' && "µs"@[0] == 'µ' && "ms"@[0] == 'm');
    assert("s"@[0] == 's' && "m"@[0] == 'm' && "h"@[0] == 'h' && "d"@[0] == 'd');
    assert("ms"@[1] == 's');
    let s = unit + rest;
    assert(s.take(unit.len() as int) =~= unit);
    assert(s[0] == unit[0]);
    assert(s.len() > 1 ==> s.take(2)[0] == s[0] && s.take(2)[1] == s[1]);
    assert(s.take(1)[0] == s[0]);
    if unit == "m"@ {
        assert(s.len() > 1 ==> s[1] == rest[0]);
        assert(!text::starts(s, "ms"@));
    }
}

proof fn lemma_leading_digits(a: Seq<char>, r: Seq<char>)
    requires
        text::digits(a),
        r.len() > 0,
        !duration::numeric(r[0]),
    ensures
        text::trim_left(a + r, |c: char| duration::numeric(c)) == r,
        text::leading(a + r, |c: char| duration::numeric(c)) == a,
    decreases a.len(),
{
    let s = a + r;
    if a.len() == 0 {
        assert(s =~= r);
        assert(text::leading(s, |c: char| duration::numeric(c)) =~= a);
    } else {
        assert(s[0] == a[0]);
        assert(text::digit(a[0]));
        assert(s.drop_first() =~= a.drop_first() + r);
        assert(text::digits(a.drop_first())) by {
            assert forall|i: int| 0 <= i < a.drop_first().len() implies text::digit(
                #[trigger] a.drop_first()[i],
            ) by {
                assert(a.drop_first()[i] == a[i + 1]);
                assert(text::digit(a[i + 1]));
            }
        }
        lemma_leading_digits(a.drop_first(), r);
        assert(text::leading(s, |c: char| duration::numeric(c)) =~= a);
    }
}

/// A part of a duration adds its number of units to the sum.
proof fn lemma_part(n: nat, unit: Seq<char>, nanos: nat, rest: Seq<char>, scale: nat, sum: nat)
    requires
        is_unit(unit, nanos),
        follows(rest),
    ensures
        duration::added(written(n, unit) + rest, scale, sum) == duration::added(
            rest,
            scale,
            sum + n * nanos * duration::tens(scale),
        ),
{
    let count = text::shown(n);
    let behind = unit + rest;
    let s = written(n, unit) + rest;
    lemma_unit(unit, nanos, rest);
    text::a_shown_number_reads_back(n);
    assert(s =~= count + behind);
    lemma_leading_digits(count, behind);
    assert(!count.contains('.')) by {
        if count.contains('.') {
            let i = choose|i: int| 0 <= i < count.len() && count[i] == '.';
            assert(text::digit(count[i]));
        }
    }
    count.index_of_first_ensures('.');
    assert(duration::amount(count, nanos, scale) == Some(n * nanos * duration::tens(scale)));
    assert(behind.skip(unit.len() as int) =~= rest);
}

proof fn lemma_tens_positive(n: nat)
    ensures
        duration::tens(n) > 0,
    decreases n,
{
    if n > 0 {
        lemma_tens_positive((n - 1) as nat);
    }
}

/// A number of units lasts that many times the unit.
pub proof fn a_duration_counts_its_unit(n: nat, unit: Seq<char>, nanos: nat)
    requires
        is_unit(unit, nanos),
    ensures
        duration::nanos(written(n, unit)) == Some(n * nanos),
{
    let s = written(n, unit);
    let none = Seq::<char>::empty();
    let t = duration::tens(s.len());
    assert(s + none =~= s);
    lemma_part(n, unit, nanos, none, s.len(), 0);
    lemma_tens_positive(s.len());
    assert((n * nanos) * t / t == n * nanos) by (nonlinear_arith)
        requires
            t > 0,
    ;
}

/// The parts of a duration add up.
pub proof fn the_parts_of_a_duration_add_up(
    n: nat,
    unit: Seq<char>,
    nanos: nat,
    m: nat,
    other: Seq<char>,
    more: nat,
)
    requires
        is_unit(unit, nanos),
        is_unit(other, more),
    ensures
        duration::nanos(written(n, unit) + written(m, other)) == Some(n * nanos + m * more),
{
    let rest = written(m, other);
    let s = written(n, unit) + rest;
    let none = Seq::<char>::empty();
    let t = duration::tens(s.len());
    text::a_shown_number_reads_back(m);
    assert(text::digit(text::shown(m)[0]));
    assert(rest[0] == text::shown(m)[0]);
    lemma_part(n, unit, nanos, rest, s.len(), 0);
    assert(rest + none =~= rest);
    lemma_part(m, other, more, none, s.len(), n * nanos * t);
    lemma_tens_positive(s.len());
    let a = n * nanos;
    let b = m * more;
    assert((a * t + b * t) / t == a + b) by (nonlinear_arith)
        requires
            t > 0,
    ;
}

proof fn lemma_no_space(s: Seq<char>)
    requires
        s.len() > 0,
        !text::white(s[0]),
        !text::white(s.last()),
    ensures
        text::trimmed(s) == s,
{
}

/// A duration of whole milliseconds is that many of them.
pub proof fn a_duration_is_counted_in_milliseconds(
    n: nat,
    unit: Seq<char>,
    nanos: nat,
    each: nat,
)
    requires
        is_unit(unit, nanos),
        nanos == each * 1_000_000,
        0 < n * each <= u64::MAX,
    ensures
        duration::millis(written(n, unit)) == Some((n * each) as u64),
{
    let s = written(n, unit);
    a_duration_counts_its_unit(n, unit, nanos);
    lemma_unit(unit, nanos, Seq::empty());
    text::a_shown_number_reads_back(n);
    assert(text::digit(text::shown(n)[0]));
    assert(s[0] == text::shown(n)[0]);
    assert(s.last() == unit.last());
    lemma_unit_ends(unit, nanos);
    lemma_no_space(s);
    let total = n * nanos;
    assert(total == (n * each) * 1_000_000) by (nonlinear_arith)
        requires
            total == n * nanos,
            nanos == each * 1_000_000,
    ;
    assert((total + 500_000) / 1_000_000 == n * each);
}

proof fn lemma_unit_ends(unit: Seq<char>, nanos: nat)
    requires
        is_unit(unit, nanos),
    ensures
        unit.len() > 0,
        !text::white(unit.last()),
{
    reveal_strlit("ns");
    reveal_strlit("us");
    reveal_strlit("µs");
    reveal_strlit("ms");
    reveal_strlit("s");
    reveal_strlit("m");
    reveal_strlit("h");
    reveal_strlit("d");
    assert("ns"@.last() == 's' && "us"@.last() == 's' && "µs"@.last() == 's' && "ms"@.last()
        == 's');
    assert("s"@.last() == 's' && "m"@.last() == 'm' && "h"@.last() == 'h' && "d"@.last() == 'd');
}

/// A number without a unit is no duration.
pub proof fn a_number_without_a_unit_is_no_duration(n: nat)
    ensures
        duration::nanos(text::shown(n)) is None,
{
    let s = text::shown(n);
    text::a_shown_number_reads_back(n);
    let rest = text::trim_left(s, |c: char| duration::numeric(c));
    lemma_all_digits(s);
    reveal_strlit("ns");
    reveal_strlit("us");
    reveal_strlit("µs");
    reveal_strlit("ms");
    reveal_strlit("s");
    reveal_strlit("m");
    reveal_strlit("h");
    reveal_strlit("d");
    assert("ns"@.len() == 2 && "us"@.len() == 2 && "µs"@.len() == 2 && "ms"@.len() == 2);
    assert("s"@.len() == 1 && "m"@.len() == 1 && "h"@.len() == 1 && "d"@.len() == 1);
    assert(duration::unit_of(rest) is None);
}

proof fn lemma_all_digits(s: Seq<char>)
    requires
        text::digits(s),
    ensures
        text::trim_left(s, |c: char| duration::numeric(c)).len() == 0,
    decreases s.len(),
{
    if s.len() > 0 {
        assert(text::digit(s[0]));
        assert(text::digits(s.drop_first())) by {
            assert forall|i: int| 0 <= i < s.drop_first().len() implies text::digit(
                #[trigger] s.drop_first()[i],
            ) by {
                assert(s.drop_first()[i] == s[i + 1]);
                assert(text::digit(s[i + 1]));
            }
        }
        lemma_all_digits(s.drop_first());
    }
}

} // verus!
