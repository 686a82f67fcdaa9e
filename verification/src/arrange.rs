//! Stable sorting by keys.

use crate::duplicate::Duplicate;
use vstd::prelude::*;

verus! {

/// Whether the key `a` comes before the key `b`: at the first number in which they differ it has
/// the smaller one, or it ends there.
pub open spec fn precedes(a: Seq<usize>, b: Seq<usize>) -> bool
    decreases a.len(),
{
    if a.len() == 0 || b.len() == 0 {
        a.len() == 0 && b.len() > 0
    } else if a[0] != b[0] {
        a[0] < b[0]
    } else {
        precedes(a.skip(1), b.skip(1))
    }
}

/// The first place in `order` from `from` on whose key comes after `key`.
pub open spec fn slot(keys: Seq<Seq<usize>>, order: Seq<int>, key: Seq<usize>, from: int) -> int
    decreases order.len() - from,
{
    if from >= order.len() || precedes(key, keys[order[from]]) {
        from
    } else {
        slot(keys, order, key, from + 1)
    }
}

/// The places of `keys` in the order of the keys; equal keys keep their order.
pub open spec fn stable_order(keys: Seq<Seq<usize>>) -> Seq<int>
    decreases keys.len(),
{
    if keys.len() == 0 {
        Seq::empty()
    } else {
        let front = stable_order(keys.drop_last());
        front.insert(slot(keys, front, keys.last(), 0), keys.len() - 1)
    }
}

/// The elements of `list` in the order of `order`.
pub open spec fn arranged<T>(list: Seq<T>, order: Seq<int>) -> Seq<T> {
    Seq::new(order.len(), |i: int| list[order[i]])
}

// ---------------------------------------------------------------------------
// Keys
// ---------------------------------------------------------------------------
proof fn lemma_precedes_self(a: Seq<usize>)
    ensures
        !precedes(a, a),
    decreases a.len(),
{
    if a.len() > 0 {
        lemma_precedes_self(a.skip(1));
    }
}

proof fn lemma_precedes_transitive(a: Seq<usize>, b: Seq<usize>, c: Seq<usize>)
    requires
        precedes(a, b),
        precedes(b, c),
    ensures
        precedes(a, c),
    decreases a.len(),
{
    if a.len() > 0 && b.len() > 0 && c.len() > 0 && a[0] == b[0] && b[0] == c[0] {
        lemma_precedes_transitive(a.skip(1), b.skip(1), c.skip(1));
    }
}

proof fn lemma_precedes_total(a: Seq<usize>, b: Seq<usize>)
    ensures
        precedes(a, b) || precedes(b, a) || a == b,
    decreases a.len(),
{
    if a.len() > 0 && b.len() > 0 && a[0] == b[0] {
        lemma_precedes_total(a.skip(1), b.skip(1));
        if a.skip(1) == b.skip(1) {
            assert(a =~= seq![a[0]] + a.skip(1));
            assert(b =~= seq![b[0]] + b.skip(1));
            assert(a =~= b);
        }
    } else if a.len() == 0 && b.len() == 0 {
        assert(a =~= b);
    }
}

/// Whether the key `a` comes before the key `b`.
pub fn comes_before(a: &Vec<usize>, b: &Vec<usize>) -> (r: bool)
    ensures
        r == precedes(a@, b@),
{
    let mut i: usize = 0;
    assert(a@.skip(0) =~= a@);
    assert(b@.skip(0) =~= b@);
    while i < a.len() && i < b.len()
        invariant
            i <= a.len(),
            i <= b.len(),
            precedes(a@, b@) == precedes(a@.skip(i as int), b@.skip(i as int)),
        decreases a.len() - i,
    {
        assert(a@.skip(i as int)[0] == a@[i as int]);
        assert(b@.skip(i as int)[0] == b@[i as int]);
        if a[i] != b[i] {
            return a[i] < b[i];
        }
        assert(a@.skip(i as int).skip(1) =~= a@.skip(i + 1));
        assert(b@.skip(i as int).skip(1) =~= b@.skip(i + 1));
        i += 1;
    }
    a.len() < b.len() && i == a.len()
}

// ---------------------------------------------------------------------------
// Orders
// ---------------------------------------------------------------------------
/// Whether `order` lists each of the first `n` places once.
pub open spec fn covers(order: Seq<int>, n: int) -> bool {
    &&& order.len() == n
    &&& order.no_duplicates()
    &&& forall|i: int| 0 <= i < order.len() ==> 0 <= #[trigger] order[i] < n
}

/// Whether `order` follows the keys, and equal keys keep their order.
pub open spec fn follows(keys: Seq<Seq<usize>>, order: Seq<int>) -> bool {
    forall|i: int, j: int|
        0 <= i < j < order.len() ==> {
            ||| precedes(keys[#[trigger] order[i]], keys[#[trigger] order[j]])
            ||| keys[order[i]] == keys[order[j]] && order[i] < order[j]
        }
}

proof fn lemma_slot(keys: Seq<Seq<usize>>, order: Seq<int>, key: Seq<usize>, from: int)
    requires
        0 <= from <= order.len(),
    ensures
        from <= slot(keys, order, key, from) <= order.len(),
        forall|i: int|
            from <= i < slot(keys, order, key, from) ==> !precedes(
                key,
                keys[#[trigger] order[i]],
            ),
        slot(keys, order, key, from) < order.len() ==> precedes(
            key,
            keys[order[slot(keys, order, key, from)]],
        ),
    decreases order.len() - from,
{
    if from < order.len() && !precedes(key, keys[order[from]]) {
        lemma_slot(keys, order, key, from + 1);
    }
}

/// A stable order lists each place once, follows the keys, and keeps equal keys in their order.
pub proof fn a_stable_order_follows_the_keys(keys: Seq<Seq<usize>>)
    ensures
        covers(stable_order(keys), keys.len() as int),
        follows(keys, stable_order(keys)),
    decreases keys.len(),
{
    if keys.len() > 0 {
        let less = keys.drop_last();
        let n = less.len() as int;
        a_stable_order_follows_the_keys(less);
        let front = stable_order(less);
        let key = keys.last();
        let at = slot(keys, front, key, 0);
        lemma_slot(keys, front, key, 0);
        let order = front.insert(at, n);
        assert(stable_order(keys) == order);
        assert forall|i: int| 0 <= i < order.len() implies 0 <= #[trigger] order[i] < n + 1 by {
            if i != at {
                let k = if i < at {
                    i
                } else {
                    i - 1
                };
                assert(order[i] == front[k]);
            }
        }
        assert forall|i: int, j: int|
            0 <= i < order.len() && 0 <= j < order.len() && i != j implies order[i]
            != order[j] by {
            let a = if i < at {
                i
            } else {
                i - 1
            };
            let b = if j < at {
                j
            } else {
                j - 1
            };
            if i != at {
                assert(order[i] == front[a]);
            }
            if j != at {
                assert(order[j] == front[b]);
            }
        }
        assert forall|i: int, j: int| 0 <= i < j < order.len() implies {
            ||| precedes(keys[#[trigger] order[i]], keys[#[trigger] order[j]])
            ||| keys[order[i]] == keys[order[j]] && order[i] < order[j]
        } by {
            let a = if i < at {
                i
            } else {
                i - 1
            };
            let b = if j < at {
                j
            } else {
                j - 1
            };
            if i != at {
                assert(order[i] == front[a]);
                assert(less[front[a]] == keys[front[a]]);
            }
            if j != at {
                assert(order[j] == front[b]);
                assert(less[front[b]] == keys[front[b]]);
            }
            if j == at {
                assert(!precedes(key, keys[front[a]]));
                lemma_precedes_total(key, keys[front[a]]);
            } else if i == at {
                assert(precedes(key, keys[front[at]]));
                if b > at {
                    assert(less[front[at]] == keys[front[at]]);
                    if precedes(less[front[at]], less[front[b]]) {
                        lemma_precedes_transitive(key, keys[front[at]], keys[front[b]]);
                    }
                }
            }
        }
    }
}

/// Computes the places of `keys` in the order of the keys; equal keys keep their order.
pub fn sort_stable(keys: &Vec<Vec<usize>>) -> (r: Vec<usize>)
    ensures
        r.len() == keys.len(),
        forall|i: int| 0 <= i < r@.len() ==> (#[trigger] r@[i]) < keys.len(),
        r@.map_values(|i: usize| i as int) == stable_order(keys.deep_view()),
{
    let ghost all = keys.deep_view();
    let mut out: Vec<usize> = Vec::new();
    let mut n: usize = 0;
    assert(out@.map_values(|i: usize| i as int) =~= stable_order(all.take(0)));
    while n < keys.len()
        invariant
            n <= keys.len(),
            all == keys.deep_view(),
            out@.len() == n,
            forall|i: int| 0 <= i < n ==> (#[trigger] out@[i]) < n,
            out@.map_values(|i: usize| i as int) == stable_order(all.take(n as int)),
        decreases keys.len() - n,
    {
        let ghost front = stable_order(all.take(n as int));
        let ghost now = all.take(n + 1);
        assert(now.drop_last() =~= all.take(n as int));
        assert(now.last() == all[n as int]);
        let mut at: usize = 0;
        while at < out.len() && !comes_before(&keys[n], &keys[out[at]])
            invariant
                at <= out@.len(),
                n < keys.len(),
                out@.len() == n,
                all == keys.deep_view(),
                now == all.take(n + 1),
                forall|i: int| 0 <= i < n ==> (#[trigger] out@[i]) < n,
                out@.map_values(|i: usize| i as int) == front,
                slot(now, front, all[n as int], 0) == slot(now, front, all[n as int], at as int),
            decreases out.len() - at,
        {
            assert(front[at as int] == out@[at as int]);
            assert(now[front[at as int]] == keys@[out@[at as int] as int]@);
            assert(all[n as int] == keys@[n as int]@);
            at += 1;
        }
        proof {
            assert(all[n as int] == keys@[n as int]@);
            if at < out@.len() {
                assert(front[at as int] == out@[at as int]);
                assert(now[front[at as int]] == keys@[out@[at as int] as int]@);
            }
            lemma_slot(now, front, all[n as int], 0);
            assert(at == slot(now, front, all[n as int], 0));
        }
        let ghost held = out@;
        out.insert(at, n);
        assert(out@.map_values(|i: usize| i as int) =~= front.insert(at as int, n as int));
        assert forall|i: int| 0 <= i < out@.len() implies (#[trigger] out@[i]) < n + 1 by {
            if i < at {
                assert(out@[i] == held[i]);
            } else if i > at {
                assert(out@[i] == held[i - 1]);
            }
        }
        n += 1;
    }
    assert(all.take(n as int) =~= all);
    out
}

/// The elements of `list` in the order of `order`.
pub fn arrange<T: Duplicate>(list: &Vec<T>, order: &Vec<usize>) -> (r: Vec<T>)
    requires
        forall|i: int| 0 <= i < order@.len() ==> (#[trigger] order@[i]) < list.len(),
    ensures
        r.deep_view() == arranged(
            list.deep_view(),
            order@.map_values(|i: usize| i as int),
        ),
{
    let mut out: Vec<T> = Vec::new();
    let mut i: usize = 0;
    while i < order.len()
        invariant
            i <= order.len(),
            out@.len() == i,
            forall|j: int| 0 <= j < order@.len() ==> (#[trigger] order@[j]) < list.len(),
            forall|j: int|
                0 <= j < i ==> (#[trigger] out@[j]).deep_view()
                    == list.deep_view()[order@[j] as int],
        decreases order.len() - i,
    {
        out.push(list[order[i]].duplicate());
        i += 1;
    }
    assert(out.deep_view() =~= arranged(
        list.deep_view(),
        order@.map_values(|i: usize| i as int),
    ));
    out
}

/// Of two keys the one that precedes comes first.
pub proof fn what_precedes_comes_first(keys: Seq<Seq<usize>>, i: int, j: int)
    requires
        0 <= i < keys.len(),
        0 <= j < keys.len(),
        precedes(keys[i], keys[j]),
    ensures
        exists|p: int, q: int|
            0 <= p < q < keys.len() && #[trigger] stable_order(keys)[p] == i
                && #[trigger] stable_order(keys)[q] == j,
{
    let order = stable_order(keys);
    a_stable_order_follows_the_keys(keys);
    lemma_covers_all(order, keys.len() as int, i);
    lemma_covers_all(order, keys.len() as int, j);
    let p = choose|p: int| 0 <= p < order.len() && #[trigger] order[p] == i;
    let q = choose|q: int| 0 <= q < order.len() && #[trigger] order[q] == j;
    lemma_precedes_self(keys[i]);
    if q < p {
        assert(precedes(keys[order[q]], keys[order[p]]) || keys[order[q]] == keys[order[p]]);
        if precedes(keys[j], keys[i]) {
            lemma_precedes_transitive(keys[i], keys[j], keys[i]);
        }
    }
    assert(p < q);
}

/// An order that lists each place once lists every place.
pub proof fn lemma_covers_all(order: Seq<int>, n: int, i: int)
    requires
        covers(order, n),
        0 <= i < n,
    ensures
        exists|p: int| 0 <= p < order.len() && #[trigger] order[p] == i,
    decreases n,
{
    if !exists|p: int| 0 <= p < order.len() && #[trigger] order[p] == i {
        let places = order.to_set();
        let others = vstd::set_lib::set_int_range(0, n).remove(i);
        vstd::set_lib::lemma_int_range(0, n);
        order.unique_seq_to_set();
        assert forall|x: int| places.contains(x) implies others.contains(x) by {
            let p = choose|p: int| 0 <= p < order.len() && order[p] == x;
            assert(order[p] == x);
        }
        vstd::set_lib::lemma_len_subset(places, others);
        assert(false);
    }
}

/// Two orders of the same places that both follow the keys are the same.
proof fn lemma_same_order(keys: Seq<Seq<usize>>, a: Seq<int>, b: Seq<int>)
    requires
        a.no_duplicates(),
        b.no_duplicates(),
        forall|x: int| a.contains(x) <==> b.contains(x),
        follows(keys, a),
        follows(keys, b),
    ensures
        a == b,
    decreases a.len(),
{
    if a.len() == 0 {
        if b.len() > 0 {
            assert(b.contains(b[0]));
            assert(a.contains(b[0]));
        }
        assert(a =~= b);
    } else {
        let x = a.last();
        assert(a.contains(x));
        assert(b.contains(x));
        let y = b.last();
        assert(b.contains(y));
        assert(a.contains(y));
        if x != y {
            let q = choose|q: int| 0 <= q < b.len() && b[q] == x;
            let p = choose|p: int| 0 <= p < a.len() && a[p] == y;
            assert(precedes(keys[b[q]], keys[b[b.len() - 1]]) || keys[x] == keys[y]);
            assert(precedes(keys[a[p]], keys[a[a.len() - 1]]) || keys[x] == keys[y]);
            lemma_precedes_self(keys[x]);
            if precedes(keys[x], keys[y]) && precedes(keys[y], keys[x]) {
                lemma_precedes_transitive(keys[x], keys[y], keys[x]);
            }
            assert(false);
        }
        let less = a.drop_last();
        let fewer = b.drop_last();
        assert forall|v: int| less.contains(v) <==> fewer.contains(v) by {
            if less.contains(v) {
                let p = choose|p: int| 0 <= p < less.len() && less[p] == v;
                assert(a[p] == v && a.contains(v));
                let q = choose|q: int| 0 <= q < b.len() && b[q] == v;
                assert(fewer[q] == v);
            }
            if fewer.contains(v) {
                let q = choose|q: int| 0 <= q < fewer.len() && fewer[q] == v;
                assert(b[q] == v && b.contains(v));
                let p = choose|p: int| 0 <= p < a.len() && a[p] == v;
                assert(less[p] == v);
            }
        }
        assert forall|i: int, j: int| 0 <= i < j < less.len() implies {
            ||| precedes(keys[#[trigger] less[i]], keys[#[trigger] less[j]])
            ||| keys[less[i]] == keys[less[j]] && less[i] < less[j]
        } by {
            assert(less[i] == a[i] && less[j] == a[j]);
        }
        assert forall|i: int, j: int| 0 <= i < j < fewer.len() implies {
            ||| precedes(keys[#[trigger] fewer[i]], keys[#[trigger] fewer[j]])
            ||| keys[fewer[i]] == keys[fewer[j]] && fewer[i] < fewer[j]
        } by {
            assert(fewer[i] == b[i] && fewer[j] == b[j]);
        }
        lemma_same_order(keys, less, fewer);
        assert(a =~= less.push(x));
        assert(b =~= fewer.push(y));
    }
}

/// A stable order does not depend on where the keys stand, as long as equal keys stay in turn: if
/// the keys are rearranged by `moved`, their order leads to the same places.
pub proof fn a_stable_order_finds_moved_keys(keys: Seq<Seq<usize>>, moved: Seq<int>)
    requires
        covers(moved, keys.len() as int),
        forall|i: int, j: int|
            0 <= i < j < moved.len() && keys[#[trigger] moved[i]] == keys[#[trigger] moved[j]]
                ==> moved[i] < moved[j],
    ensures
        arranged(moved, stable_order(arranged(keys, moved))) == stable_order(keys),
{
    let there = arranged(keys, moved);
    let found = stable_order(there);
    let back = arranged(moved, found);
    let order = stable_order(keys);
    let n = keys.len() as int;
    a_stable_order_follows_the_keys(there);
    a_stable_order_follows_the_keys(keys);
    assert forall|i: int| 0 <= i < back.len() implies 0 <= #[trigger] back[i] < n by {
        assert(0 <= found[i] < n);
    }
    assert forall|i: int, j: int| 0 <= i < back.len() && 0 <= j < back.len() && i != j implies
        back[i] != back[j] by {
        assert(found[i] != found[j]);
        assert(moved[found[i]] != moved[found[j]]);
    }
    assert forall|i: int, j: int| 0 <= i < j < back.len() implies {
        ||| precedes(keys[#[trigger] back[i]], keys[#[trigger] back[j]])
        ||| keys[back[i]] == keys[back[j]] && back[i] < back[j]
    } by {
        assert(there[found[i]] == keys[back[i]] && there[found[j]] == keys[back[j]]);
        if there[found[i]] == there[found[j]] {
            lemma_precedes_self(keys[back[i]]);
            assert(found[i] < found[j]);
            assert(moved[found[i]] < moved[found[j]]);
        }
    }
    assert forall|x: int| back.contains(x) <==> order.contains(x) by {
        if 0 <= x < n {
            lemma_covers_all(back, n, x);
            lemma_covers_all(order, n, x);
        } else {
            if order.contains(x) {
                let p = choose|p: int| 0 <= p < order.len() && order[p] == x;
                assert(0 <= order[p] < n);
            }
            if back.contains(x) {
                let p = choose|p: int| 0 <= p < back.len() && back[p] == x;
                assert(0 <= back[p] < n);
            }
        }
    }
    lemma_same_order(keys, back, order);
}

// ---------------------------------------------------------------------------
// Parts
// ---------------------------------------------------------------------------
/// The places of a list of `n` elements, one after the other.
pub open spec fn in_turn(n: nat) -> Seq<int> {
    Seq::new(n, |i: int| i)
}

/// The places of `order` that are kept, in the same order.
pub open spec fn chosen(order: Seq<int>, keep: spec_fn(int) -> bool) -> Seq<int>
    decreases order.len(),
{
    if order.len() == 0 {
        Seq::empty()
    } else if keep(order.last()) {
        chosen(order.drop_last(), keep).push(order.last())
    } else {
        chosen(order.drop_last(), keep)
    }
}

/// The chosen places are those that are kept, and no others.
pub proof fn lemma_chosen(order: Seq<int>, keep: spec_fn(int) -> bool, x: int)
    ensures
        chosen(order, keep).contains(x) <==> order.contains(x) && keep(x),
    decreases order.len(),
{
    if order.len() > 0 {
        let front = order.drop_last();
        let less = chosen(front, keep);
        lemma_chosen(front, keep, x);
        assert(order =~= front.push(order.last()));
        assert(front.push(order.last()).contains(x) <==> front.contains(x) || x == order.last())
            by {
            lemma_contains_pushed(front, order.last(), x);
        }
        if keep(order.last()) {
            lemma_contains_pushed(less, order.last(), x);
        }
    }
}

proof fn lemma_contains_pushed(list: Seq<int>, last: int, x: int)
    ensures
        list.push(last).contains(x) <==> list.contains(x) || x == last,
{
    let all = list.push(last);
    if list.contains(x) {
        let i = choose|i: int| 0 <= i < list.len() && list[i] == x;
        assert(all[i] == x);
    }
    if x == last {
        assert(all[list.len() as int] == x);
    }
    if all.contains(x) {
        let i = choose|i: int| 0 <= i < all.len() && all[i] == x;
        if i < list.len() {
            assert(list[i] == x);
        }
    }
}

/// What holds of any two places that are kept, the first before the second, holds of the chosen
/// places in their order.
pub proof fn lemma_chosen_related(
    order: Seq<int>,
    keep: spec_fn(int) -> bool,
    related: spec_fn(int, int) -> bool,
)
    requires
        forall|i: int, j: int|
            0 <= i < j < order.len() && keep(#[trigger] order[i]) && keep(#[trigger] order[j])
                ==> related(order[i], order[j]),
    ensures
        forall|i: int, j: int|
            0 <= i < j < chosen(order, keep).len() ==> related(
                #[trigger] chosen(order, keep)[i],
                #[trigger] chosen(order, keep)[j],
            ),
    decreases order.len(),
{
    if order.len() > 0 {
        let front = order.drop_last();
        let less = chosen(front, keep);
        let last = order.len() - 1;
        assert forall|i: int, j: int|
            0 <= i < j < front.len() && keep(#[trigger] front[i]) && keep(
                #[trigger] front[j],
            ) implies related(front[i], front[j]) by {
            assert(front[i] == order[i] && front[j] == order[j]);
        }
        lemma_chosen_related(front, keep, related);
        if keep(order.last()) {
            let all = less.push(order.last());
            assert forall|i: int, j: int| 0 <= i < j < all.len() implies related(
                #[trigger] all[i],
                #[trigger] all[j],
            ) by {
                if j < less.len() {
                    assert(all[i] == less[i] && all[j] == less[j]);
                } else {
                    assert(all[i] == less[i]);
                    assert(less.contains(less[i]));
                    lemma_chosen(front, keep, less[i]);
                    let k = choose|k: int| 0 <= k < front.len() && front[k] == less[i];
                    assert(order[k] == less[i]);
                    assert(order[last] == order.last());
                }
            }
        }
    }
}

/// Places that ascend on both sides, and are the same on both, are in the same order.
pub proof fn lemma_ascending_places(a: Seq<int>, b: Seq<int>)
    requires
        forall|i: int, j: int| 0 <= i < j < a.len() ==> a[i] < a[j],
        forall|i: int, j: int| 0 <= i < j < b.len() ==> b[i] < b[j],
        forall|x: int| a.contains(x) <==> b.contains(x),
    ensures
        a == b,
    decreases a.len(),
{
    if a.len() == 0 {
        if b.len() > 0 {
            assert(b.contains(b[0]));
            assert(a.contains(b[0]));
        }
        assert(a =~= b);
    } else {
        let x = a.last();
        assert(a.contains(x));
        assert(b.contains(x));
        let y = b.last();
        assert(b.contains(y));
        assert(a.contains(y));
        let less = a.drop_last();
        let fewer = b.drop_last();
        assert(a =~= less.push(x));
        assert(b =~= fewer.push(y));
        assert(x == y);
        assert forall|v: int| less.contains(v) <==> fewer.contains(v) by {
            lemma_contains_pushed(less, x, v);
            lemma_contains_pushed(fewer, y, v);
            assert(a.contains(v) <==> b.contains(v));
            if less.contains(v) {
                let p = choose|p: int| 0 <= p < less.len() && less[p] == v;
                assert(a[p] < a[a.len() - 1]);
            }
            if fewer.contains(v) {
                let q = choose|q: int| 0 <= q < fewer.len() && fewer[q] == v;
                assert(b[q] < b[b.len() - 1]);
            }
        }
        lemma_ascending_places(less, fewer);
    }
}

/// The same places in another order: where each of `b` stands in `a`.
pub proof fn lemma_rearranged(a: Seq<int>, b: Seq<int>) -> (moved: Seq<int>)
    requires
        a.no_duplicates(),
        b.no_duplicates(),
        forall|x: int| a.contains(x) <==> b.contains(x),
    ensures
        covers(moved, a.len() as int),
        b == arranged(a, moved),
{
    let moved = Seq::new(b.len(), |i: int| a.index_of(b[i]));
    a.unique_seq_to_set();
    b.unique_seq_to_set();
    assert(a.to_set() =~= b.to_set());
    assert forall|i: int| 0 <= i < moved.len() implies 0 <= #[trigger] moved[i] < a.len()
        && a[moved[i]] == b[i] by {
        assert(b.contains(b[i]));
        assert(a.contains(b[i]));
    }
    assert forall|i: int, j: int| 0 <= i < moved.len() && 0 <= j < moved.len() && i != j implies
        moved[i] != moved[j] by {
        if moved[i] == moved[j] {
            assert(b[i] == b[j]);
        }
    }
    assert(b =~= arranged(a, moved));
    moved
}

} // verus!
