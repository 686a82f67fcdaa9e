//! Sibling `handle` blocks exclude each other.
//!
//! The exclusion is written into the elements themselves: no state has to be kept while a request
//! is served.

use crate::ast::tree;
use crate::ast::tree::{
    copy_element, copy_elements, Handler, HandlerElement, HandlerElementV, HandlerV, MatcherV,
};
use vstd::prelude::*;

verus! {

// ---------------------------------------------------------------------------
// Grouping
// ---------------------------------------------------------------------------
/// Whether an element is a `handle` or `handle_path` block.
pub open spec fn exclusive(e: HandlerElementV) -> bool {
    e.handler is Handle || e.handler is HandlePath
}

/// How many elements are `handle` or `handle_path` blocks.
pub open spec fn exclusive_count(list: Seq<HandlerElementV>) -> nat
    decreases list.len(),
{
    if list.len() == 0 {
        0
    } else {
        exclusive_count(list.drop_last()) + if exclusive(list.last()) {
            1nat
        } else {
            0
        }
    }
}

/// How many elements there are up to the last `handle` or `handle_path` block.
pub open spec fn reach(list: Seq<HandlerElementV>) -> nat
    decreases list.len(),
{
    if list.len() == 0 || exclusive(list.last()) {
        list.len()
    } else {
        reach(list.drop_last())
    }
}

/// The elements read so far, from the last one on.
#[verifier::ext_equal]
pub struct TailV {
    /// What runs if no sibling before was selected.
    pub open: Seq<HandlerElementV>,
    /// What runs if one was: the elements that are no `handle` blocks.
    pub taken: Seq<HandlerElementV>,
    /// Whether `open` is a group that the next sibling can join.
    pub adjacent: bool,
}

/// A handler without a matcher.
pub open spec fn always(handler: HandlerV) -> HandlerElementV {
    HandlerElementV { matcher: None, handler }
}

/// What the group that a sibling joins holds so far.
pub open spec fn branches(t: TailV) -> Seq<HandlerElementV> {
    if t.adjacent {
        match t.open[0].handler {
            HandlerV::HandleGroup(list) => list,
            _ => Seq::empty(),
        }
    } else if t.open.len() == 0 {
        Seq::empty()
    } else {
        seq![always(HandlerV::Pipeline(t.open))]
    }
}

/// One more element, before the others.
pub open spec fn extended(e: HandlerElementV, t: TailV) -> TailV {
    if !exclusive(e) {
        TailV { open: seq![e] + t.open, taken: seq![e] + t.taken, adjacent: false }
    } else {
        let selected = if t.taken.len() == 0 {
            e
        } else {
            HandlerElementV {
                handler: HandlerV::Pipeline(seq![always(e.handler)] + t.taken),
                ..e
            }
        };
        TailV {
            open: seq![always(HandlerV::HandleGroup(seq![selected] + branches(t)))],
            taken: t.taken,
            adjacent: true,
        }
    }
}

/// The elements of `list` from `from` on.
pub open spec fn tail(list: Seq<HandlerElementV>, from: int) -> TailV
    decreases list.len() - from,
{
    if from >= list.len() {
        TailV { open: Seq::empty(), taken: Seq::empty(), adjacent: false }
    } else {
        extended(list[from], tail(list, from + 1))
    }
}

/// The elements with sibling `handle` blocks made to exclude each other.
pub open spec fn grouped(list: Seq<HandlerElementV>) -> Seq<HandlerElementV> {
    if exclusive_count(list) < 2 {
        list
    } else {
        let n = reach(list) as int;
        tail(list.take(n), 0).open + list.skip(n)
    }
}

fn is_exclusive(e: &HandlerElement) -> (r: bool)
    ensures
        r == exclusive(e.deep_view()),
{
    match &e.handler {
        Handler::Handle(_) => true,
        Handler::HandlePath(_, _) => true,
        _ => false,
    }
}

fn count_exclusive(list: &Vec<HandlerElement>) -> (r: usize)
    ensures
        r == exclusive_count(list.deep_view()),
{
    let ghost all = list.deep_view();
    let mut n: usize = 0;
    let mut i: usize = 0;
    while i < list.len()
        invariant
            i <= list.len(),
            all == list.deep_view(),
            n <= i,
            n == exclusive_count(all.take(i as int)),
        decreases list.len() - i,
    {
        assert(all.take(i + 1).drop_last() =~= all.take(i as int));
        assert(all.take(i + 1).last() == list@[i as int].deep_view());
        if is_exclusive(&list[i]) {
            n += 1;
        }
        i += 1;
    }
    assert(all.take(i as int) =~= all);
    n
}

fn find_reach(list: &Vec<HandlerElement>) -> (r: usize)
    ensures
        r == reach(list.deep_view()),
        r <= list.len(),
{
    let ghost all = list.deep_view();
    let mut n: usize = list.len();
    assert(all.take(n as int) =~= all);
    while n > 0 && !is_exclusive(&list[n - 1])
        invariant
            n <= list.len(),
            all == list.deep_view(),
            reach(all) == reach(all.take(n as int)),
        decreases n,
    {
        assert(all.take(n as int).last() == list@[n - 1].deep_view());
        assert(all.take(n as int).drop_last() =~= all.take(n - 1));
        n -= 1;
    }
    assert(n > 0 ==> all.take(n as int).last() == list@[n - 1].deep_view());
    n
}

fn prepend(e: HandlerElement, list: Vec<HandlerElement>) -> (r: Vec<HandlerElement>)
    ensures
        r.deep_view() == seq![e.deep_view()] + list.deep_view(),
        tree::elements_view(r@) == r.deep_view(),
{
    let ghost held = list.deep_view();
    let mut list = list;
    list.insert(0, e);
    assert(list.deep_view() =~= seq![e.deep_view()] + held);
    proof {
        tree::lemma_elements_view(list);
    }
    list
}

fn single(handler: Handler) -> (r: Vec<HandlerElement>)
    ensures
        r.deep_view() == seq![always(handler.deep_view())],
        tree::elements_view(r@) == r.deep_view(),
{
    let list = vec![HandlerElement { matcher: None, handler }];
    assert(list.deep_view() =~= seq![always(handler.deep_view())]);
    proof {
        tree::lemma_elements_view(list);
    }
    list
}

struct Tail {
    open: Vec<HandlerElement>,
    taken: Vec<HandlerElement>,
    adjacent: bool,
}

impl DeepView for Tail {
    type V = TailV;

    closed spec fn deep_view(&self) -> TailV {
        TailV {
            open: self.open.deep_view(),
            taken: self.taken.deep_view(),
            adjacent: self.adjacent,
        }
    }
}

/// After a `handle` block the open elements are one group.
pub open spec fn sound(t: TailV) -> bool {
    t.adjacent ==> t.open.len() == 1 && t.open[0].handler is HandleGroup && t.open[0].matcher
        is None
}

fn take_branches(open: Vec<HandlerElement>, adjacent: bool) -> (r: Vec<HandlerElement>)
    requires
        adjacent ==> open.deep_view().len() == 1 && open.deep_view()[0].handler is HandleGroup,
    ensures
        r.deep_view() == branches(
            TailV { open: open.deep_view(), taken: Seq::empty(), adjacent },
        ),
{
    if adjacent {
        assert(open.deep_view()[0] == open@[0].deep_view());
        match &open[0].handler {
            Handler::HandleGroup(list) => {
                let copy = copy_elements(list);
                proof {
                    tree::lemma_elements_view(copy);
                }
                return copy;
            },
            _ => {},
        }
    }
    if open.len() == 0 {
        assert(open.deep_view() =~= Seq::<HandlerElementV>::empty());
        return open;
    }
    proof {
        tree::lemma_elements_view(open);
    }
    single(Handler::Pipeline(open))
}

fn extend_tail(e: &HandlerElement, t: Tail) -> (r: Tail)
    requires
        sound(t.deep_view()),
    ensures
        r.deep_view() == extended(e.deep_view(), t.deep_view()),
        sound(r.deep_view()),
{
    let Tail { open, taken, adjacent } = t;
    if !is_exclusive(e) {
        return Tail {
            open: prepend(copy_element(e), open),
            taken: prepend(copy_element(e), taken),
            adjacent: false,
        };
    }
    let copy = copy_element(e);
    let selected = if taken.len() == 0 {
        copy
    } else {
        let kept = copy_elements(&taken);
        proof {
            tree::lemma_elements_view(kept);
            tree::lemma_elements_view(taken);
        }
        let first = HandlerElement { matcher: None, handler: copy.handler };
        HandlerElement { matcher: copy.matcher, handler: Handler::Pipeline(prepend(first, kept)) }
    };
    let more = take_branches(open, adjacent);
    let group = Handler::HandleGroup(prepend(selected, more));
    Tail { open: single(group), taken, adjacent: true }
}

/// Makes sibling `handle` and `handle_path` blocks exclude each other.
///
/// Of the siblings the first one that matches runs; the elements between and after them run in
/// either case, in the order in which they were written.
pub fn group_siblings(list: &Vec<HandlerElement>) -> (r: Vec<HandlerElement>)
    ensures
        r.deep_view() == grouped(list.deep_view()),
{
    let ghost all = list.deep_view();
    if count_exclusive(list) < 2 {
        let copy = copy_elements(list);
        proof {
            tree::lemma_elements_view(copy);
            tree::lemma_elements_view(*list);
        }
        return copy;
    }
    let n: usize = find_reach(list);
    let ghost front = all.take(n as int);
    let mut t = Tail { open: Vec::new(), taken: Vec::new(), adjacent: false };
    assert(t.open.deep_view() =~= Seq::<HandlerElementV>::empty());
    assert(t.taken.deep_view() =~= Seq::<HandlerElementV>::empty());
    let mut i: usize = n;
    while i > 0
        invariant
            i <= n <= list.len(),
            all == list.deep_view(),
            front == all.take(n as int),
            t.deep_view() == tail(front, i as int),
            sound(t.deep_view()),
        decreases i,
    {
        i -= 1;
        assert(front[i as int] == list@[i as int].deep_view());
        t = extend_tail(&list[i], t);
    }
    let mut out = t.open;
    let ghost held = out.deep_view();
    let mut k: usize = n;
    assert(all.subrange(n as int, n as int) =~= Seq::<HandlerElementV>::empty());
    assert(held + Seq::<HandlerElementV>::empty() =~= held);
    while k < list.len()
        invariant
            n <= k <= list.len(),
            all == list.deep_view(),
            out.deep_view() == held + all.subrange(n as int, k as int),
        decreases list.len() - k,
    {
        let ghost before = out.deep_view();
        out.push(copy_element(&list[k]));
        assert(out.deep_view() =~= before.push(list@[k as int].deep_view()));
        assert(all[k as int] == list@[k as int].deep_view());
        assert(out.deep_view() =~= held + all.subrange(n as int, k + 1));
        k += 1;
    }
    assert(all.subrange(n as int, k as int) =~= all.skip(n as int));
    out
}

// ---------------------------------------------------------------------------
// What runs
// ---------------------------------------------------------------------------
/// The handlers that run for a request, where `holds` says which matchers it meets.
pub open spec fn trace(list: Seq<HandlerElementV>, holds: spec_fn(Option<MatcherV>) -> bool) -> Seq<
    HandlerV,
>
    decreases list,
{
    if list.len() == 0 {
        Seq::empty()
    } else {
        (if holds(list[0].matcher) {
            trace_of(list[0].handler, holds)
        } else {
            Seq::empty()
        }) + trace(list.subrange(1, list.len() as int), holds)
    }
}

/// The handlers that run for one handler: itself, or what it holds.
pub open spec fn trace_of(h: HandlerV, holds: spec_fn(Option<MatcherV>) -> bool) -> Seq<HandlerV>
    decreases h,
{
    match h {
        HandlerV::Pipeline(list) => trace(list, holds),
        HandlerV::HandleGroup(list) => trace_of_first(list, holds),
        _ => seq![h],
    }
}

/// The handlers that run for the first element whose matcher holds.
pub open spec fn trace_of_first(
    list: Seq<HandlerElementV>,
    holds: spec_fn(Option<MatcherV>) -> bool,
) -> Seq<HandlerV>
    decreases list,
{
    if list.len() == 0 {
        Seq::empty()
    } else if holds(list[0].matcher) {
        trace_of(list[0].handler, holds)
    } else {
        trace_of_first(list.subrange(1, list.len() as int), holds)
    }
}

/// The handlers that run where of the `handle` blocks only the first that matches does; `taken`
/// says that one already did.
pub open spec fn exclusive_trace(
    list: Seq<HandlerElementV>,
    taken: bool,
    holds: spec_fn(Option<MatcherV>) -> bool,
) -> Seq<HandlerV>
    decreases list.len(),
{
    if list.len() == 0 {
        Seq::empty()
    } else {
        let runs = holds(list[0].matcher) && !(taken && exclusive(list[0]));
        (if runs {
            trace_of(list[0].handler, holds)
        } else {
            Seq::empty()
        }) + exclusive_trace(
            list.subrange(1, list.len() as int),
            taken || (runs && exclusive(list[0])),
            holds,
        )
    }
}

proof fn lemma_trace_sum(
    a: Seq<HandlerElementV>,
    b: Seq<HandlerElementV>,
    holds: spec_fn(Option<MatcherV>) -> bool,
)
    ensures
        trace(a + b, holds) == trace(a, holds) + trace(b, holds),
    decreases a.len(),
{
    if a.len() == 0 {
        assert(a + b =~= b);
        assert(trace(a, holds) + trace(b, holds) =~= trace(b, holds));
    } else {
        let rest = a.subrange(1, a.len() as int);
        lemma_trace_sum(rest, b, holds);
        assert((a + b).subrange(1, (a + b).len() as int) =~= rest + b);
        assert((a + b)[0] == a[0]);
        let first = if holds(a[0].matcher) {
            trace_of(a[0].handler, holds)
        } else {
            Seq::empty()
        };
        assert(first + (trace(rest, holds) + trace(b, holds)) =~= first + trace(rest, holds)
            + trace(b, holds));
    }
}

proof fn lemma_trace_cons(
    e: HandlerElementV,
    list: Seq<HandlerElementV>,
    holds: spec_fn(Option<MatcherV>) -> bool,
)
    ensures
        trace(seq![e] + list, holds) == (if holds(e.matcher) {
            trace_of(e.handler, holds)
        } else {
            Seq::empty()
        }) + trace(list, holds),
{
    let all = seq![e] + list;
    assert(all.subrange(1, all.len() as int) =~= list);
    assert(all[0] == e);
}

proof fn lemma_trace_single(h: HandlerV, holds: spec_fn(Option<MatcherV>) -> bool)
    requires
        holds(None),
    ensures
        trace(seq![always(h)], holds) == trace_of(h, holds),
{
    let list = seq![always(h)];
    assert(list.subrange(1, 1) =~= Seq::<HandlerElementV>::empty());
    assert(trace(list.subrange(1, 1), holds) =~= Seq::<HandlerV>::empty());
    assert(trace_of(h, holds) + Seq::<HandlerV>::empty() =~= trace_of(h, holds));
}

proof fn lemma_trace_first(
    e: HandlerElementV,
    list: Seq<HandlerElementV>,
    holds: spec_fn(Option<MatcherV>) -> bool,
)
    ensures
        trace_of_first(seq![e] + list, holds) == if holds(e.matcher) {
            trace_of(e.handler, holds)
        } else {
            trace_of_first(list, holds)
        },
{
    let all = seq![e] + list;
    assert(all.subrange(1, all.len() as int) =~= list);
    assert(all[0] == e);
}

/// What runs of the elements from `from` on, before and after a sibling was selected.
proof fn lemma_tail(
    list: Seq<HandlerElementV>,
    from: int,
    holds: spec_fn(Option<MatcherV>) -> bool,
)
    requires
        holds(None),
        0 <= from <= list.len(),
    ensures
        sound(tail(list, from)),
        trace(tail(list, from).open, holds) == exclusive_trace(list.skip(from), false, holds),
        trace(tail(list, from).taken, holds) == exclusive_trace(list.skip(from), true, holds),
    decreases list.len() - from,
{
    let s = list.skip(from);
    if from < list.len() {
        let e = list[from];
        let t = tail(list, from + 1);
        lemma_tail(list, from + 1, holds);
        assert(s[0] == e);
        assert(s.subrange(1, s.len() as int) =~= list.skip(from + 1));
        lemma_trace_cons(e, t.open, holds);
        lemma_trace_cons(e, t.taken, holds);
        if exclusive(e) {
            let made = extended(e, t);
            let own = trace_of(e.handler, holds);
            assert(own == seq![e.handler]);
            let selected = if t.taken.len() == 0 {
                e
            } else {
                HandlerElementV {
                    handler: HandlerV::Pipeline(seq![always(e.handler)] + t.taken),
                    ..e
                }
            };
            let chosen = trace_of(selected.handler, holds);
            lemma_trace_cons(always(e.handler), t.taken, holds);
            if t.taken.len() == 0 {
                assert(trace(t.taken, holds) =~= Seq::<HandlerV>::empty());
                assert(own + Seq::<HandlerV>::empty() =~= own);
            }
            assert(chosen == own + trace(t.taken, holds));
            let more = branches(t);
            lemma_trace_first(selected, more, holds);
            assert(trace_of_first(more, holds) == trace(t.open, holds)) by {
                if t.adjacent {
                    lemma_trace_single(t.open[0].handler, holds);
                    assert(t.open =~= seq![always(t.open[0].handler)]);
                } else if t.open.len() == 0 {
                    assert(trace(t.open, holds) =~= Seq::<HandlerV>::empty());
                } else {
                    let rest = Seq::<HandlerElementV>::empty();
                    assert(more =~= seq![always(HandlerV::Pipeline(t.open))] + rest);
                    lemma_trace_first(always(HandlerV::Pipeline(t.open)), rest, holds);
                }
            }
            let group = HandlerV::HandleGroup(seq![selected] + more);
            lemma_trace_single(group, holds);
            assert(made.open == seq![always(group)]);
            assert(Seq::<HandlerV>::empty() + trace(t.open, holds) =~= trace(t.open, holds));
            assert(Seq::<HandlerV>::empty() + trace(t.taken, holds) =~= trace(t.taken, holds));
        }
    } else {
        assert(trace(Seq::<HandlerElementV>::empty(), holds) =~= Seq::<HandlerV>::empty());
    }
}

/// Without further `handle` blocks, exclusion changes nothing.
proof fn lemma_plain_trace(
    list: Seq<HandlerElementV>,
    taken: bool,
    holds: spec_fn(Option<MatcherV>) -> bool,
)
    requires
        forall|i: int| 0 <= i < list.len() ==> !exclusive(#[trigger] list[i]),
    ensures
        exclusive_trace(list, taken, holds) == trace(list, holds),
    decreases list.len(),
{
    if list.len() > 0 {
        let rest = list.subrange(1, list.len() as int);
        assert forall|i: int| 0 <= i < rest.len() implies !exclusive(#[trigger] rest[i]) by {
            assert(rest[i] == list[i + 1]);
        }
        lemma_plain_trace(rest, taken, holds);
        assert(!exclusive(list[0]));
    }
}

proof fn lemma_exclusive_trace_sum(
    a: Seq<HandlerElementV>,
    b: Seq<HandlerElementV>,
    taken: bool,
    holds: spec_fn(Option<MatcherV>) -> bool,
)
    requires
        forall|i: int| 0 <= i < b.len() ==> !exclusive(#[trigger] b[i]),
    ensures
        exclusive_trace(a + b, taken, holds) == exclusive_trace(a, taken, holds) + trace(
            b,
            holds,
        ),
    decreases a.len(),
{
    if a.len() == 0 {
        assert(a + b =~= b);
        lemma_plain_trace(b, taken, holds);
        assert(Seq::<HandlerV>::empty() + trace(b, holds) =~= trace(b, holds));
    } else {
        let rest = a.subrange(1, a.len() as int);
        let runs = holds(a[0].matcher) && !(taken && exclusive(a[0]));
        let now = taken || (runs && exclusive(a[0]));
        lemma_exclusive_trace_sum(rest, b, now, holds);
        assert((a + b).subrange(1, (a + b).len() as int) =~= rest + b);
        assert((a + b)[0] == a[0]);
        let first = if runs {
            trace_of(a[0].handler, holds)
        } else {
            Seq::empty()
        };
        assert(first + (exclusive_trace(rest, now, holds) + trace(b, holds)) =~= first
            + exclusive_trace(rest, now, holds) + trace(b, holds));
    }
}

/// After the last `handle` block there is none.
proof fn lemma_reach(list: Seq<HandlerElementV>)
    ensures
        reach(list) <= list.len(),
        forall|i: int| reach(list) <= i < list.len() ==> !exclusive(#[trigger] list[i]),
    decreases list.len(),
{
    if list.len() > 0 && !exclusive(list.last()) {
        let front = list.drop_last();
        lemma_reach(front);
        assert forall|i: int| reach(list) <= i < list.len() implies !exclusive(
            #[trigger] list[i],
        ) by {
            if i < front.len() {
                assert(front[i] == list[i]);
            }
        }
    }
}

proof fn lemma_none_exclusive(list: Seq<HandlerElementV>)
    requires
        exclusive_count(list) == 0,
    ensures
        forall|i: int| 0 <= i < list.len() ==> !exclusive(#[trigger] list[i]),
    decreases list.len(),
{
    if list.len() > 0 {
        let front = list.drop_last();
        lemma_none_exclusive(front);
        assert forall|i: int| 0 <= i < list.len() implies !exclusive(#[trigger] list[i]) by {
            if i < front.len() {
                assert(front[i] == list[i]);
            }
        }
    }
}

proof fn lemma_count_from_front(list: Seq<HandlerElementV>)
    requires
        list.len() > 0,
    ensures
        exclusive_count(list) == exclusive_count(list.subrange(1, list.len() as int)) + if exclusive(
            list[0],
        ) {
            1nat
        } else {
            0
        },
    decreases list.len(),
{
    let front = list.drop_last();
    let rest = list.subrange(1, list.len() as int);
    if front.len() > 0 {
        lemma_count_from_front(front);
        assert(rest.drop_last() =~= front.subrange(1, front.len() as int));
        assert(front[0] == list[0]);
        assert(rest.last() == list.last());
    } else {
        assert(exclusive_count(front) == 0);
        assert(exclusive_count(rest) == 0);
        assert(list.last() == list[0]);
    }
}

/// One `handle` block alone excludes nothing.
proof fn lemma_single_trace(
    list: Seq<HandlerElementV>,
    holds: spec_fn(Option<MatcherV>) -> bool,
)
    requires
        exclusive_count(list) <= 1,
    ensures
        exclusive_trace(list, false, holds) == trace(list, holds),
    decreases list.len(),
{
    if list.len() > 0 {
        let rest = list.subrange(1, list.len() as int);
        lemma_count_from_front(list);
        if exclusive(list[0]) {
            lemma_none_exclusive(rest);
            lemma_plain_trace(rest, false, holds);
            lemma_plain_trace(rest, true, holds);
        } else {
            lemma_single_trace(rest, holds);
        }
    }
}

/// Grouping keeps what runs, but for the exclusion: of sibling `handle` blocks the first whose
/// matcher holds runs and no other, and everything else runs as written, in its order.
pub proof fn grouping_selects_one_sibling(
    list: Seq<HandlerElementV>,
    holds: spec_fn(Option<MatcherV>) -> bool,
)
    requires
        holds(None),
    ensures
        trace(grouped(list), holds) == exclusive_trace(list, false, holds),
{
    if exclusive_count(list) < 2 {
        lemma_single_trace(list, holds);
    } else {
        let n = reach(list) as int;
        lemma_reach(list);
        let front = list.take(n);
        let back = list.skip(n);
        assert(front + back =~= list);
        assert forall|i: int| 0 <= i < back.len() implies !exclusive(#[trigger] back[i]) by {
            assert(back[i] == list[i + n]);
        }
        lemma_tail(front, 0, holds);
        assert(front.skip(0) =~= front);
        lemma_trace_sum(tail(front, 0).open, back, holds);
        lemma_exclusive_trace_sum(front, back, false, holds);
    }
}

} // verus!
