//! What the arguments of a directive mean.

use crate::adapter::args;
use crate::adapter::handler_laws;
use crate::adapter::profile::Profile;
use crate::adapter::settings;
use crate::ast::server::{ListenAddrV, Scheme};
use crate::decimal;
use crate::duration;
use crate::error::ErrorV;
use crate::fold;
use crate::syntax::{line, DirectiveV};
use crate::text;
use vstd::prelude::*;

verus! {

/// A directive that takes one argument takes exactly one, and a flag takes none.
pub proof fn arguments_are_counted(d: DirectiveV)
    ensures
        args::sole(d) is Ok <==> d.args.len() == 1,
        d.args.len() == 1 ==> args::sole(d) == Ok::<Seq<char>, ErrorV>(d.args[0]),
        args::bare(d) is Ok <==> d.args.len() == 0,
{
}

/// A number that must be positive is the one that is written, unless it is zero or too large.
pub proof fn a_positive_number_is_what_is_written(name: Seq<char>, n: nat)
    ensures
        args::positive(line(name, seq![text::shown(n)])) is Ok <==> 0 < n <= u64::MAX,
        args::positive(line(name, seq![text::shown(n)])) matches Ok(k) ==> k == n,
        args::positive_size(line(name, seq![text::shown(n)])) is Ok <==> 0 < n <= usize::MAX,
        args::positive_size(line(name, seq![text::shown(n)])) matches Ok(k) ==> k == n,
        args::positive_u32(line(name, seq![text::shown(n)])) is Ok <==> 0 < n <= u32::MAX,
        args::positive_u32(line(name, seq![text::shown(n)])) matches Ok(k) ==> k == n,
{
    let s = text::shown(n);
    text::a_shown_number_reads_back(n);
    assert(text::digit(s[0]));
    if n <= u64::MAX {
        assert(text::number(s, u64::MAX as nat) == Some(n));
    } else {
        assert(text::number(s, u64::MAX as nat) is None);
    }
}

/// A duration is what is written, where it is no longer than a year.
pub proof fn a_duration_is_what_is_written(name: Seq<char>, t: Seq<char>)
    ensures
        args::span(line(name, seq![t])) matches Ok(ms) ==> duration::millis(t) == Some(ms) && 0 < ms
            <= 365 * 24 * 60 * 60 * 1_000,
        duration::millis(t) matches Some(ms) ==> (0 < ms <= 365 * 24 * 60 * 60 * 1_000
            ==> args::span(line(name, seq![t])) == Ok::<u64, ErrorV>(ms)),
{
}

/// A duration in seconds is a whole number of them.
pub proof fn a_duration_in_seconds_is_whole(name: Seq<char>, t: Seq<char>, complaint: Seq<char>)
    ensures
        args::seconds(line(name, seq![t]), complaint) matches Ok(s) ==> duration::millis(t) == Some(
            (s * 1_000) as u64,
        ) && s > 0,
{
}

/// A port is the number that is written, where there is such a port.
pub proof fn a_port_is_what_is_written(name: Seq<char>, n: nat)
    ensures
        args::port(name, text::shown(n)) is Ok <==> n <= u16::MAX,
        args::port(name, text::shown(n)) matches Ok(p) ==> p == n,
{
    let s = text::shown(n);
    text::a_shown_number_reads_back(n);
    assert(text::digit(s[0]));
    if n <= u16::MAX {
        assert(text::number(s, u16::MAX as nat) == Some(n));
    } else {
        assert(text::number(s, u16::MAX as nat) is None);
    }
}

// ---------------------------------------------------------------------------
// Fractions
// ---------------------------------------------------------------------------
proof fn lemma_value_of_zero(s: Seq<char>)
    ensures
        text::value(seq!['0'] + s) == text::value(s),
    decreases s.len(),
{
    let t = seq!['0'] + s;
    if s.len() == 0 {
        assert(t.drop_last() =~= Seq::empty());
        assert(text::value(t.drop_last()) == 0);
    } else {
        assert(t.drop_last() =~= seq!['0'] + s.drop_last());
        assert(t.last() == s.last());
        lemma_value_of_zero(s.drop_last());
    }
}

proof fn lemma_value_bound(s: Seq<char>)
    requires
        text::digits(s),
    ensures
        text::value(s) < decimal::ten(s.len()),
    decreases s.len(),
{
    if s.len() > 0 {
        let front = s.drop_last();
        assert(text::digits(front)) by {
            assert forall|i: int| 0 <= i < front.len() implies text::digit(#[trigger] front[i]) by {
                assert(front[i] == s[i]);
            }
        }
        lemma_value_bound(front);
        assert(text::digit(s[s.len() - 1]));
    }
}

proof fn lemma_digits_end(a: Seq<char>, r: Seq<char>)
    requires
        text::digits(a),
        r.len() == 0 || !text::digit(r[0]),
    ensures
        text::trim_left(a + r, |c: char| text::digit(c)) == r,
        text::leading(a + r, |c: char| text::digit(c)) == a,
    decreases a.len(),
{
    let s = a + r;
    if a.len() == 0 {
        assert(s =~= r);
        assert(text::leading(s, |c: char| text::digit(c)) =~= a);
    } else {
        assert(s[0] == a[0]);
        assert(text::digit(a[0]));
        assert(s.drop_first() =~= a.drop_first() + r);
        assert(text::digits(a.drop_first())) by {
            assert forall|i: int| 0 <= i < a.drop_first().len() implies text::digit(
                #[trigger] a.drop_first()[i],
            ) by {
                assert(a.drop_first()[i] == a[i + 1]);
                assert(text::digit(a[i + 1]));
            }
        }
        lemma_digits_end(a.drop_first(), r);
        assert(text::leading(s, |c: char| text::digit(c)) =~= a);
    }
}

/// Decimals behind a zero are a fraction, unless all of them are zero; a whole number is none.
pub proof fn decimals_behind_a_zero_are_a_fraction(part: Seq<char>, n: nat)
    requires
        part.len() > 0,
        text::digits(part),
    ensures
        decimal::fraction(seq!['0', '.'] + part) <==> text::value(part) > 0,
        !decimal::fraction(text::shown(n)),
{
    let zero = seq!['0'];
    let rest = seq!['.'] + part;
    let s = seq!['0', '.'] + part;
    let none = Seq::<char>::empty();
    assert(s =~= zero + rest);
    assert(text::digits(zero));
    lemma_digits_end(zero, rest);
    assert(rest.skip(1) =~= part);
    assert(part + none =~= part);
    lemma_digits_end(part, none);
    lemma_value_of_zero(part);
    lemma_value_bound(part);
    assert(decimal::decimal(s) == Some((text::value(part), -(part.len() as int))));
    let whole = text::shown(n);
    text::a_shown_number_reads_back(n);
    assert(text::digit(whole[0]));
    assert(whole + none =~= whole);
    lemma_digits_end(whole, none);
    assert(decimal::decimal(whole) matches Some((v, e)) && e == 0);
}

// ---------------------------------------------------------------------------
// Listeners
// ---------------------------------------------------------------------------
/// `listen` listens on the port behind the last colon, with TLS where the address says so, and
/// expects the PROXY protocol where the flag says so.
pub proof fn a_listener_listens_where_it_says(
    profile: Profile,
    name: Seq<char>,
    address: Seq<char>,
    port: u16,
)
    ensures
        ({
            let whole = address + seq![':'] + text::shown(port as nat);
            let plain = settings::listener(profile, line(name, seq![whole]));
            let flagged = settings::listener(profile, line(name, seq![whole, "proxy_protocol"@]));
            &&& plain is Ok && flagged is Ok
            &&& plain->Ok_0.port == Some(port) && !plain->Ok_0.proxy_protocol
            &&& plain->Ok_0.scheme == Scheme::Https <==> text::starts(whole, "https"@)
            &&& flagged->Ok_0 == ListenAddrV { proxy_protocol: true, ..plain->Ok_0 }
        }),
{
    let digits = text::shown(port as nat);
    let whole = address + seq![':'] + digits;
    handler_laws::lemma_code(port);
    text::a_shown_number_reads_back(port as nat);
    let n = address.len() as int;
    assert(whole[n] == ':');
    assert(whole.contains(':'));
    whole.index_of_last_ensures(':');
    let i = whole.index_of_last(':')->Some_0;
    assert(i == n) by {
        if i > n {
            assert(text::digit(digits[i - n - 1]));
        }
    }
    assert(whole.skip(n + 1) =~= digits);
    let f = |word: Seq<char>| settings::listener_flag(word);
    let flag = seq!["proxy_protocol"@];
    assert(seq![whole].skip(1) =~= Seq::empty());
    assert(seq![whole, "proxy_protocol"@].skip(1) =~= flag);
    assert(flag.drop_last() =~= Seq::empty());
    assert(fold::each(f, Seq::empty()) == Ok::<Seq<()>, ErrorV>(Seq::empty()));
    assert(flag.last() == "proxy_protocol"@);
}

} // verus!
