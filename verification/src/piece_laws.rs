//! What cutting a text into pieces gives back of what was joined.

use crate::ip;
use crate::ip::IpAddressV;
use crate::text;
use vstd::prelude::*;

verus! {

/// What stands behind the last separator is the last piece.
pub proof fn the_last_piece_stands_behind_the_last_separator(a: Seq<char>, b: Seq<char>, c: char)
    requires
        !b.contains(c),
    ensures
        text::pieces(a + seq![c] + b, c) == text::pieces(a, c).push(b),
    decreases b.len(),
{
    let s = a + seq![c] + b;
    if b.len() == 0 {
        assert(s =~= a + seq![c]);
        assert(s.last() == c);
        assert(s.drop_last() =~= a);
        assert(b =~= Seq::empty());
    } else {
        let front = b.drop_last();
        assert(!front.contains(c)) by {
            if front.contains(c) {
                let i = choose|i: int| 0 <= i < front.len() && front[i] == c;
                assert(b[i] == c);
            }
        }
        the_last_piece_stands_behind_the_last_separator(a, front, c);
        assert(s.last() == b.last());
        assert(b[b.len() - 1] != c);
        assert(s.drop_last() =~= a + seq![c] + front);
        let rest = text::pieces(s.drop_last(), c);
        assert(rest.drop_last() =~= text::pieces(a, c));
        assert(front.push(b.last()) =~= b);
    }
}

/// A text without separators is one piece.
pub proof fn a_text_without_separators_is_one_piece(s: Seq<char>, c: char)
    requires
        !s.contains(c),
    ensures
        text::pieces(s, c) == seq![s],
    decreases s.len(),
{
    if s.len() == 0 {
        assert(s =~= Seq::empty());
    } else {
        let front = s.drop_last();
        assert(!front.contains(c)) by {
            if front.contains(c) {
                let i = choose|i: int| 0 <= i < front.len() && front[i] == c;
                assert(s[i] == c);
            }
        }
        a_text_without_separators_is_one_piece(front, c);
        assert(s[s.len() - 1] != c);
        assert(front.push(s.last()) =~= s);
        assert(seq![front].drop_last().push(s) =~= seq![s]);
    }
}

/// Texts that are joined by a separator that none of them holds are the pieces of the whole.
pub proof fn joined_texts_are_cut_apart_again(list: Seq<Seq<char>>, c: char)
    requires
        list.len() > 0,
        forall|i: int| 0 <= i < list.len() ==> !(#[trigger] list[i]).contains(c),
    ensures
        text::pieces(text::joined(list, seq![c]), c) == list,
    decreases list.len(),
{
    if list.len() == 1 {
        a_text_without_separators_is_one_piece(list[0], c);
        assert(seq![list[0]] =~= list);
    } else {
        let front = list.drop_last();
        assert forall|i: int| 0 <= i < front.len() implies !(#[trigger] front[i]).contains(c) by {
            assert(front[i] == list[i]);
        }
        joined_texts_are_cut_apart_again(front, c);
        assert(list.last() == list[list.len() - 1]);
        the_last_piece_stands_behind_the_last_separator(
            text::joined(front, seq![c]),
            list.last(),
            c,
        );
        assert(front.push(list.last()) =~= list);
    }
}

/// An octet as it is written.
proof fn lemma_octet(n: u8)
    ensures
        ip::octet(text::shown(n as nat)) == Some(n),
        !text::shown(n as nat).contains('.'),
{
    let s = text::shown(n as nat);
    text::a_shown_number_reads_back(n as nat);
    reveal_with_fuel(text::shown, 3);
    assert(s.len() <= 3);
    assert(s.len() == 1 || s[0] != '0');
    if s.contains('.') {
        let i = choose|i: int| 0 <= i < s.len() && s[i] == '.';
        assert(text::digit(s[i]));
    }
}

/// An IPv4 address is written as its four octets, in their order.
pub proof fn a_dotted_quad_is_its_octets(a: u8, b: u8, c: u8, d: u8)
    ensures
        ip::literal(
            text::shown(a as nat) + seq!['.'] + text::shown(b as nat) + seq!['.'] + text::shown(
                c as nat,
            ) + seq!['.'] + text::shown(d as nat),
        ) == Some(IpAddressV::V4(a, b, c, d)),
{
    lemma_octet(a);
    lemma_octet(b);
    lemma_octet(c);
    lemma_octet(d);
    let p = text::shown(a as nat);
    let q = p + seq!['.'] + text::shown(b as nat);
    let r = q + seq!['.'] + text::shown(c as nat);
    a_text_without_separators_is_one_piece(p, '.');
    the_last_piece_stands_behind_the_last_separator(p, text::shown(b as nat), '.');
    the_last_piece_stands_behind_the_last_separator(q, text::shown(c as nat), '.');
    the_last_piece_stands_behind_the_last_separator(r, text::shown(d as nat), '.');
}

/// The machine itself is every IPv4 address whose first octet is 127.
pub proof fn the_machine_itself_is_127(a: u8, b: u8, c: u8, d: u8)
    ensures
        ip::loopback(IpAddressV::V4(a, b, c, d)) <==> a == 127,
        ip::loopback(IpAddressV::V6(seq![0u16, 0, 0, 0, 0, 0, 0, 1])),
        !ip::loopback(IpAddressV::V6(seq![0u16, 0, 0, 0, 0, 0, 0, 0])),
{
    assert(seq![0u16, 0, 0, 0, 0, 0, 0, 1] =~= ip::zeros(7).push(1u16));
    assert(ip::zeros(7).push(1u16)[7] == 1);
}

} // verus!
