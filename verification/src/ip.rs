//! IP address literals.

use crate::text;
use crate::text::{after, before, chars_of, find_text, is_digit, split};
use vstd::prelude::*;

verus! {

/// An IP address: four octets, or eight groups of sixteen bits.
#[derive(Debug, PartialEq, Eq)]
pub enum IpAddress {
    V4(u8, u8, u8, u8),
    V6(Vec<u16>),
}

/// The mathematical value of an [`IpAddress`].
#[verifier::ext_equal]
pub enum IpAddressV {
    V4(u8, u8, u8, u8),
    V6(Seq<u16>),
}

impl DeepView for IpAddress {
    type V = IpAddressV;

    open spec fn deep_view(&self) -> IpAddressV {
        match self {
            IpAddress::V4(a, b, c, d) => IpAddressV::V4(*a, *b, *c, *d),
            IpAddress::V6(groups) => IpAddressV::V6(groups@),
        }
    }
}

/// The octet that `s` stands for: at most three digits, no leading zero, at most 255.
pub open spec fn octet(s: Seq<char>) -> Option<u8> {
    if 0 < s.len() <= 3 && text::digits(s) && (s.len() == 1 || s[0] != '0') && text::value(s)
        <= 255 {
        Some(text::value(s) as u8)
    } else {
        None
    }
}

/// The four octets of a dotted quad.
pub open spec fn quad(s: Seq<char>) -> Option<(u8, u8, u8, u8)> {
    let p = text::pieces(s, '.');
    if p.len() != 4 {
        None
    } else {
        match (octet(p[0]), octet(p[1]), octet(p[2]), octet(p[3])) {
            (Some(a), Some(b), Some(c), Some(d)) => Some((a, b, c, d)),
            _ => None,
        }
    }
}

/// A hexadecimal digit.
pub open spec fn hex(c: char) -> bool {
    ('0' <= c <= '9') || ('a' <= c <= 'f') || ('A' <= c <= 'F')
}

/// The number that a hexadecimal digit stands for.
pub open spec fn hex_digit(c: char) -> nat {
    if '0' <= c <= '9' {
        (c as nat - '0' as nat) as nat
    } else if 'a' <= c <= 'f' {
        (c as nat - 'a' as nat + 10) as nat
    } else {
        (c as nat - 'A' as nat + 10) as nat
    }
}

/// The number that hexadecimal digits stand for.
pub open spec fn hex_value(s: Seq<char>) -> nat
    decreases s.len(),
{
    if s.len() == 0 {
        0
    } else {
        hex_value(s.drop_last()) * 16 + hex_digit(s.last())
    }
}

/// The group that `s` stands for: one to four hexadecimal digits.
pub open spec fn group(s: Seq<char>) -> Option<u16> {
    if 0 < s.len() <= 4 && (forall|i: int| 0 <= i < s.len() ==> hex(#[trigger] s[i])) {
        Some(hex_value(s) as u16)
    } else {
        None
    }
}

/// The groups that the texts of `list` stand for.
pub open spec fn groups(list: Seq<Seq<char>>) -> Option<Seq<u16>>
    decreases list.len(),
{
    if list.len() == 0 {
        Some(Seq::empty())
    } else {
        match (groups(list.drop_last()), group(list.last())) {
            (Some(rest), Some(g)) => Some(rest.push(g)),
            _ => None,
        }
    }
}

/// The groups that the texts of `list` stand for, of which the last may be a dotted quad.
pub open spec fn closing_groups(list: Seq<Seq<char>>) -> Option<Seq<u16>> {
    if list.len() == 0 {
        Some(Seq::empty())
    } else {
        match (groups(list.drop_last()), quad(list.last())) {
            (Some(rest), Some((a, b, c, d))) => Some(
                rest.push((a * 256 + b) as u16).push((c * 256 + d) as u16),
            ),
            _ => groups(list),
        }
    }
}

/// The parts of `s` between colons; no text has no parts.
pub open spec fn colon_parts(s: Seq<char>) -> Seq<Seq<char>> {
    if s.len() == 0 {
        Seq::empty()
    } else {
        text::pieces(s, ':')
    }
}

/// `n` groups of zero.
pub open spec fn zeros(n: nat) -> Seq<u16> {
    Seq::new(n, |i: int| 0u16)
}

/// The eight groups of an IPv6 literal, in which `::` stands for one or more groups of zero.
pub open spec fn eight(s: Seq<char>) -> Option<Seq<u16>> {
    match text::position(s, "::"@) {
        None => match closing_groups(colon_parts(s)) {
            Some(g) => if g.len() == 8 {
                Some(g)
            } else {
                None
            },
            None => None,
        },
        Some(i) => match (
            groups(colon_parts(s.take(i))),
            closing_groups(colon_parts(s.skip(i + 2))),
        ) {
            (Some(head), Some(tail)) => if head.len() + tail.len() <= 7 {
                Some(head + zeros((8 - head.len() - tail.len()) as nat) + tail)
            } else {
                None
            },
            _ => None,
        },
    }
}

/// The address that `s` is a literal of.
pub open spec fn literal(s: Seq<char>) -> Option<IpAddressV> {
    match quad(s) {
        Some((a, b, c, d)) => Some(IpAddressV::V4(a, b, c, d)),
        None => match eight(s) {
            Some(g) => Some(IpAddressV::V6(g)),
            None => None,
        },
    }
}

/// An address of the machine itself: `127.0.0.0/8` or `::1`.
pub open spec fn loopback(ip: IpAddressV) -> bool {
    match ip {
        IpAddressV::V4(a, b, c, d) => a == 127,
        IpAddressV::V6(g) => g == zeros(7).push(1u16),
    }
}

fn read_octet(s: &str) -> (r: Option<u8>)
    ensures
        r == octet(s@),
{
    let x = chars_of(s);
    if x.len() == 0 || x.len() > 3 {
        return None;
    }
    if x.len() > 1 && x[0] == '0' {
        return None;
    }
    let mut n: u32 = 0;
    let mut i: usize = 0;
    while i < x.len()
        invariant
            i <= x.len() <= 3,
            x@ == s@,
            n == text::value(s@.take(i as int)),
            i == 0 ==> n == 0,
            i == 1 ==> n <= 9,
            i == 2 ==> n <= 99,
            i == 3 ==> n <= 999,
            forall|j: int| 0 <= j < i ==> text::digit(#[trigger] s@[j]),
        decreases x.len() - i,
    {
        let c = x[i];
        if !is_digit(c) {
            assert(!text::digit(s@[i as int]));
            return None;
        }
        assert(s@.take(i + 1).drop_last() =~= s@.take(i as int));
        n = n * 10 + (c as u32 - '0' as u32);
        i += 1;
    }
    assert(s@.take(i as int) =~= s@);
    if n <= 255 {
        Some(n as u8)
    } else {
        None
    }
}

fn read_quad(s: &str) -> (r: Option<(u8, u8, u8, u8)>)
    ensures
        r == quad(s@),
{
    let p = split(s, '.');
    assert(p.deep_view() == text::pieces(s@, '.'));
    if p.len() != 4 {
        return None;
    }
    match (
        read_octet(p[0].as_str()),
        read_octet(p[1].as_str()),
        read_octet(p[2].as_str()),
        read_octet(p[3].as_str()),
    ) {
        (Some(a), Some(b), Some(c), Some(d)) => Some((a, b, c, d)),
        _ => None,
    }
}

fn read_group(s: &str) -> (r: Option<u16>)
    ensures
        r == group(s@),
{
    let x = chars_of(s);
    if x.len() == 0 || x.len() > 4 {
        return None;
    }
    let mut n: u32 = 0;
    let mut i: usize = 0;
    while i < x.len()
        invariant
            i <= x.len() <= 4,
            x@ == s@,
            n == hex_value(s@.take(i as int)),
            i == 0 ==> n == 0,
            i == 1 ==> n <= 15,
            i == 2 ==> n <= 255,
            i == 3 ==> n <= 4095,
            i == 4 ==> n <= 65535,
            forall|j: int| 0 <= j < i ==> hex(#[trigger] s@[j]),
        decreases x.len() - i,
    {
        let c = x[i];
        assert(s@.take(i + 1).drop_last() =~= s@.take(i as int));
        let d: u32 = if '0' <= c && c <= '9' {
            c as u32 - '0' as u32
        } else if 'a' <= c && c <= 'f' {
            c as u32 - 'a' as u32 + 10
        } else if 'A' <= c && c <= 'F' {
            c as u32 - 'A' as u32 + 10
        } else {
            assert(!hex(s@[i as int]));
            return None;
        };
        n = n * 16 + d;
        i += 1;
    }
    assert(s@.take(i as int) =~= s@);
    Some(n as u16)
}

fn read_groups(list: &Vec<String>, count: usize) -> (r: Option<Vec<u16>>)
    requires
        count <= list.len(),
    ensures
        r.deep_view() == groups(list.deep_view().take(count as int)),
{
    let mut out: Vec<u16> = Vec::new();
    let mut i: usize = 0;
    let ghost all = list.deep_view();
    assert(out.deep_view() =~= Seq::<u16>::empty());
    while i < count
        invariant
            i <= count <= list.len(),
            all == list.deep_view(),
            Some(out.deep_view()) == groups(all.take(i as int)),
        decreases count - i,
    {
        assert(all.take(i + 1).drop_last() =~= all.take(i as int));
        assert(all.take(i + 1).last() == list@[i as int]@);
        match read_group(list[i].as_str()) {
            Some(g) => {
                let ghost held = out.deep_view();
                out.push(g);
                assert(out.deep_view() =~= held.push(g));
            },
            None => {
                proof {
                    lemma_groups_fail(all.take(count as int), i + 1);
                    assert(all.take(count as int).take(i + 1) =~= all.take(i + 1));
                }
                return None;
            },
        }
        i += 1;
    }
    Some(out)
}

/// A prefix that does not stand for groups spoils the whole list.
proof fn lemma_groups_fail(list: Seq<Seq<char>>, n: int)
    requires
        0 <= n <= list.len(),
        groups(list.take(n)) is None,
    ensures
        groups(list) is None,
    decreases list.len() - n,
{
    if n == list.len() {
        assert(list.take(n) =~= list);
    } else {
        assert(list.take(n + 1).drop_last() =~= list.take(n));
        lemma_groups_fail(list, n + 1);
    }
}

fn read_parts(s: &str) -> (r: Vec<String>)
    ensures
        r.deep_view() == colon_parts(s@),
{
    if s.is_empty() {
        let r: Vec<String> = Vec::new();
        assert(r.deep_view() =~= colon_parts(s@));
        r
    } else {
        split(s, ':')
    }
}

fn read_closing(list: &Vec<String>) -> (r: Option<Vec<u16>>)
    ensures
        r.deep_view() == closing_groups(list.deep_view()),
{
    let n: usize = list.len();
    let ghost all = list.deep_view();
    if n == 0 {
        let r: Vec<u16> = Vec::new();
        assert(r.deep_view() =~= Seq::<u16>::empty());
        return Some(r);
    }
    assert(all.take(n - 1) =~= all.drop_last());
    assert(all.take(n as int) =~= all);
    assert(all.last() == list@[n - 1]@);
    if let Some((a, b, c, d)) = read_quad(list[n - 1].as_str()) {
        if let Some(mut rest) = read_groups(list, n - 1) {
            let ghost held = rest.deep_view();
            rest.push(a as u16 * 256 + b as u16);
            rest.push(c as u16 * 256 + d as u16);
            assert(rest.deep_view() =~= held.push((a * 256 + b) as u16).push(
                (c * 256 + d) as u16,
            ));
            return Some(rest);
        }
    }
    read_groups(list, n)
}

fn read_eight(s: &str) -> (r: Option<Vec<u16>>)
    ensures
        r.deep_view() == eight(s@),
{
    proof {
        reveal_strlit("::");
    }
    match find_text(s, "::") {
        None => match read_closing(&read_parts(s)) {
            Some(g) => if g.len() == 8 {
                Some(g)
            } else {
                None
            },
            None => None,
        },
        Some(i) => {
            let front = read_parts(before(s, i));
            let n: usize = s.unicode_len();
            assert(i + 2 <= n);
            let back = read_parts(after(s, i + 2));
            assert(front.deep_view().take(front@.len() as int) =~= front.deep_view());
            match (read_groups(&front, front.len()), read_closing(&back)) {
                (Some(head), Some(tail)) => {
                    if head.len() > 7 || tail.len() > 7 - head.len() {
                        return None;
                    }
                    let mut out: Vec<u16> = Vec::new();
                    let mut k: usize = 0;
                    while k < 8
                        invariant
                            k <= 8,
                            out@.len() == k,
                            head@.len() + tail@.len() <= 7,
                            out@ == (head@ + zeros((8 - head@.len() - tail@.len()) as nat)
                                + tail@).take(k as int),
                        decreases 8 - k,
                    {
                        if k < head.len() {
                            out.push(head[k]);
                        } else if k < 8 - tail.len() {
                            out.push(0);
                        } else {
                            out.push(tail[k - (8 - tail.len())]);
                        }
                        k += 1;
                        assert(out@ =~= (head@ + zeros((8 - head@.len() - tail@.len()) as nat)
                            + tail@).take(k as int));
                    }
                    assert(head.deep_view() =~= head@);
                    assert(tail.deep_view() =~= tail@);
                    assert(out.deep_view() =~= head@ + zeros(
                        (8 - head@.len() - tail@.len()) as nat,
                    ) + tail@);
                    Some(out)
                },
                _ => None,
            }
        },
    }
}

/// Reads an IP address literal.
pub fn parse_ip(s: &str) -> (r: Option<IpAddress>)
    ensures
        r.deep_view() == literal(s@),
{
    if let Some((a, b, c, d)) = read_quad(s) {
        return Some(IpAddress::V4(a, b, c, d));
    }
    match read_eight(s) {
        Some(g) => {
            assert(g.deep_view() =~= g@);
            Some(IpAddress::V6(g))
        },
        None => None,
    }
}

/// Whether `s` is an IP address literal.
pub fn is_ip(s: &str) -> (r: bool)
    ensures
        r == (literal(s@) is Some),
{
    parse_ip(s).is_some()
}

impl IpAddress {
    /// Whether this is an address of the machine itself.
    pub fn is_loopback(&self) -> (r: bool)
        ensures
            r == loopback(self.deep_view()),
    {
        match self {
            IpAddress::V4(a, _, _, _) => *a == 127,
            IpAddress::V6(g) => {
                if g.len() != 8 {
                    assert(zeros(7).push(1u16).len() == 8);
                    return false;
                }
                let mut i: usize = 0;
                while i < 7
                    invariant
                        i <= 7,
                        g@.len() == 8,
                        self.deep_view() == IpAddressV::V6(g@),
                        forall|j: int| 0 <= j < i ==> g@[j] == 0,
                    decreases 7 - i,
                {
                    if g[i] != 0 {
                        assert(zeros(7).push(1u16)[i as int] == 0);
                        return false;
                    }
                    i += 1;
                }
                assert(zeros(7).push(1u16)[7] == 1);
                assert(g@[7] == 1 ==> g@ =~= zeros(7).push(1u16));
                g[7] == 1
            },
        }
    }
}

} // verus!
