//! A site's routes as one ordered list.
//!
//! The first route in the list that matches answers. Routes are ordered by the rank of their
//! directive; within one rank a longer path goes before a shorter one and before none at all, a
//! matched route before an unmatched one, an exact path before the same path with a wildcard, and
//! what is left keeps the order of the file.
//!
//! The last two rules can contradict each other: of `/abc*`, `/xyz` and `/abc`, written in this
//! order, each would go before the next and the last before the first. There the exact path
//! moves ahead to the wildcard, and no further.

use crate::adapter::order;
use crate::adapter::order::DirectiveOrder;
use crate::adapter::ranks;
use crate::adapter::ranks::{handler_directive_name, handler_has_terminal};
use crate::arrange;
use crate::ast::tree::{Handler, HandlerElement, HandlerV, Matcher, MatcherV, RouteArm};
use crate::adapter::args::extend;
use crate::table::Table;
use crate::text;
use crate::text::{before, byte_length, finishes_with, same};
use vstd::prelude::*;

verus! {

// ---------------------------------------------------------------------------
// Path patterns
// ---------------------------------------------------------------------------
/// How far names are followed from one matcher to another.
pub const MAX_MATCHER_STEPS: usize = 16;

/// The path patterns that a matcher requires, through names and through `and`; a name that leads
/// back to itself ends somewhere.
pub open spec fn required_paths(m: MatcherV, scope: Map<Seq<char>, MatcherV>, depth: int) -> Seq<
    Seq<char>,
>
    decreases MAX_MATCHER_STEPS + 1 - depth,
{
    if depth > MAX_MATCHER_STEPS {
        Seq::empty()
    } else {
        match m {
            MatcherV::Path(p) => p.patterns,
            MatcherV::Named(name) => if scope.dom().contains(name) {
                required_paths(scope[name], scope, depth + 1)
            } else {
                Seq::empty()
            },
            MatcherV::And(a, b) => required_paths(*a, scope, depth + 1) + required_paths(
                *b,
                scope,
                depth + 1,
            ),
            _ => Seq::empty(),
        }
    }
}

/// Collects the path patterns that a matcher requires.
pub fn collect_paths(m: &Matcher, scope: &Table<Matcher>, depth: usize) -> (r: Vec<String>)
    ensures
        r.deep_view() == required_paths(m.deep_view(), scope.deep_view(), depth as int),
    decreases
        if depth <= MAX_MATCHER_STEPS {
            MAX_MATCHER_STEPS + 1 - depth
        } else {
            0
        },
{
    let mut out: Vec<String> = Vec::new();
    assert(out.deep_view() =~= Seq::<Seq<char>>::empty());
    if depth > MAX_MATCHER_STEPS {
        return out;
    }
    match m {
        Matcher::Path(p) => {
            extend(&mut out, &p.patterns);
            assert(out.deep_view() =~= p.patterns.deep_view());
        },
        Matcher::Named(name) => {
            if let Some(found) = scope.get(name.as_str()) {
                return collect_paths(found, scope, depth + 1);
            }
        },
        Matcher::And(a, b) => {
            let left = collect_paths(a, scope, depth + 1);
            let right = collect_paths(b, scope, depth + 1);
            extend(&mut out, &left);
            extend(&mut out, &right);
            assert(out.deep_view() =~= left.deep_view() + right.deep_view());
        },
        _ => {},
    }
    out
}

/// The path pattern that a matcher sorts by, if it requires exactly one.
pub open spec fn sorting_path(m: MatcherV, scope: Map<Seq<char>, MatcherV>) -> Option<Seq<char>> {
    let paths = required_paths(m, scope, 0);
    if paths.len() == 1 {
        Some(paths[0])
    } else {
        None
    }
}

/// The path pattern that a matcher sorts by.
pub fn sort_path(m: &Matcher, scope: &Table<Matcher>) -> (r: Option<String>)
    ensures
        r.deep_view() == sorting_path(m.deep_view(), scope.deep_view()),
{
    let paths = collect_paths(m, scope, 0);
    if paths.len() == 1 {
        Some(paths[0].clone())
    } else {
        None
    }
}

/// A pattern without its trailing wildcard.
pub open spec fn unglobbed(pattern: Seq<char>) -> Seq<char> {
    if text::ends_char(pattern, '*') {
        pattern.drop_last()
    } else {
        pattern
    }
}

/// A pattern without its trailing wildcard.
pub fn trim_wildcard<'a>(pattern: &'a str) -> (r: &'a str)
    ensures
        r@ == unglobbed(pattern@),
{
    if finishes_with(pattern, '*') {
        let n: usize = pattern.unicode_len();
        let out = before(pattern, n - 1);
        assert(out@ =~= pattern@.drop_last());
        out
    } else {
        pattern
    }
}

// ---------------------------------------------------------------------------
// Keys
// ---------------------------------------------------------------------------
/// Where one route sits in the ordered list.
#[derive(Debug, PartialEq, Eq)]
pub struct RouteOrderKey {
    pub rank: usize,
    /// The route's single path pattern, without a trailing wildcard.
    pub path: Option<String>,
    /// The length in bytes of that path.
    pub path_length: Option<usize>,
    pub unmatched: bool,
    pub wildcard: bool,
    pub file_index: usize,
}

/// The mathematical value of a [`RouteOrderKey`].
#[verifier::ext_equal]
pub struct RouteOrderKeyV {
    pub rank: usize,
    pub path: Option<Seq<char>>,
    pub path_length: Option<usize>,
    pub unmatched: bool,
    pub wildcard: bool,
    pub file_index: usize,
}

impl DeepView for RouteOrderKey {
    type V = RouteOrderKeyV;

    open spec fn deep_view(&self) -> RouteOrderKeyV {
        RouteOrderKeyV {
            rank: self.rank,
            path: self.path.deep_view(),
            path_length: self.path_length,
            unmatched: self.unmatched,
            wildcard: self.wildcard,
            file_index: self.file_index,
        }
    }
}

/// Whether a route with the key `a` goes before one with the key `b`.
pub open spec fn goes_first(a: RouteOrderKeyV, b: RouteOrderKeyV) -> bool {
    if a.rank != b.rank {
        a.rank < b.rank
    } else if a.path_length != b.path_length {
        match (a.path_length, b.path_length) {
            (Some(x), Some(y)) => x > y,
            (Some(_), None) => true,
            _ => false,
        }
    } else if a.unmatched != b.unmatched {
        b.unmatched
    } else if a.path == b.path && a.wildcard != b.wildcard {
        b.wildcard
    } else {
        a.file_index < b.file_index
    }
}

/// Whether the routes of two keys compete as exact path and wildcard: they have the same rank and
/// the same path once trimmed.
pub open spec fn akin(a: RouteOrderKeyV, b: RouteOrderKeyV) -> bool {
    a.rank == b.rank && a.path == b.path
}

/// The first place from `from` on, and before `end`, of a wildcard akin to `k`; else `end`.
pub open spec fn first_wildcard(
    keys: Seq<RouteOrderKeyV>,
    k: RouteOrderKeyV,
    from: int,
    end: int,
) -> int
    decreases end - from,
{
    if from >= end || (keys[from].wildcard && akin(keys[from], k)) {
        from
    } else {
        first_wildcard(keys, k, from + 1, end)
    }
}

/// The place in the file at which a route is considered: its own, unless it is an exact path and
/// a wildcard akin to it stands earlier.
pub open spec fn place(keys: Seq<RouteOrderKeyV>, i: int) -> int {
    if keys[i].wildcard {
        i
    } else {
        first_wildcard(keys, keys[i], 0, i)
    }
}

/// Whether the order of two routes in the file is overruled: their paths differ, nothing but the
/// file would order them, and the later one has moved ahead of the earlier one to its wildcard.
pub open spec fn tangled(keys: Seq<RouteOrderKeyV>, i: int, j: int) -> bool {
    &&& keys[i].rank == keys[j].rank
    &&& keys[i].path_length == keys[j].path_length
    &&& keys[i].unmatched == keys[j].unmatched
    &&& keys[i].path != keys[j].path
    &&& (i < j && place(keys, j) < place(keys, i)) || (j < i && place(keys, i) < place(keys, j))
}

/// Zero or one.
pub open spec fn bit(b: bool) -> usize {
    if b {
        1
    } else {
        0
    }
}

/// The numbers by which a route is sorted that is considered at a place.
pub open spec fn sort_numbers(k: RouteOrderKeyV, place: usize) -> Seq<usize> {
    let pathless = bit(k.path_length is None);
    let shortness = match k.path_length {
        Some(n) => (usize::MAX - n) as usize,
        None => 0,
    };
    seq![k.rank, pathless, shortness, bit(k.unmatched), place, bit(k.wildcard), k.file_index]
}

/// The numbers by which each route of a list is sorted.
pub open spec fn all_numbers(keys: Seq<RouteOrderKeyV>) -> Seq<Seq<usize>> {
    Seq::new(keys.len(), |i: int| sort_numbers(keys[i], place(keys, i) as usize))
}

proof fn lemma_first_wildcard(keys: Seq<RouteOrderKeyV>, k: RouteOrderKeyV, from: int, end: int)
    requires
        0 <= from <= end <= keys.len(),
    ensures
        from <= first_wildcard(keys, k, from, end) <= end,
        first_wildcard(keys, k, from, end) < end ==> keys[first_wildcard(
            keys,
            k,
            from,
            end,
        )].wildcard && akin(keys[first_wildcard(keys, k, from, end)], k),
        forall|j: int|
            from <= j < first_wildcard(keys, k, from, end) ==> !((#[trigger] keys[j]).wildcard
                && akin(keys[j], k)),
    decreases end - from,
{
    if from < end && !(keys[from].wildcard && akin(keys[from], k)) {
        lemma_first_wildcard(keys, k, from + 1, end);
    }
}

/// The numbers of two routes compare as their places and flags do, once rank, length and matcher
/// are the same.
pub proof fn lemma_numbers(a: RouteOrderKeyV, pa: usize, b: RouteOrderKeyV, pb: usize)
    ensures
        arrange::precedes(sort_numbers(a, pa), sort_numbers(b, pb)) <==> if a.rank == b.rank
            && a.path_length == b.path_length && a.unmatched == b.unmatched {
            if pa != pb {
                pa < pb
            } else if a.wildcard != b.wildcard {
                b.wildcard
            } else {
                a.file_index < b.file_index
            }
        } else {
            goes_first(a, b)
        },
{
    let x = sort_numbers(a, pa);
    let y = sort_numbers(b, pb);
    reveal_with_fuel(arrange::precedes, 9);
    let x1 = x.skip(1);
    let y1 = y.skip(1);
    let x2 = x1.skip(1);
    let y2 = y1.skip(1);
    let x3 = x2.skip(1);
    let y3 = y2.skip(1);
    let x4 = x3.skip(1);
    let y4 = y3.skip(1);
    let x5 = x4.skip(1);
    let y5 = y4.skip(1);
    let x6 = x5.skip(1);
    let y6 = y5.skip(1);
    assert(x1[0] == x[1] && y1[0] == y[1]);
    assert(x2[0] == x[2] && y2[0] == y[2]);
    assert(x3[0] == x[3] && y3[0] == y[3]);
    assert(x4[0] == x[4] && y4[0] == y[4]);
    assert(x5[0] == x[5] && y5[0] == y[5]);
    assert(x6[0] == x[6] && y6[0] == y[6]);
}

/// Sorting a list of routes by their numbers puts each two of them in their documented order,
/// unless they are tangled.
pub proof fn numbers_sort_as_keys_do(keys: Seq<RouteOrderKeyV>, i: int, j: int)
    requires
        keys.len() <= usize::MAX,
        forall|k: int| 0 <= k < keys.len() ==> (#[trigger] keys[k]).file_index == k,
        0 <= i < keys.len(),
        0 <= j < keys.len(),
        !tangled(keys, i, j),
    ensures
        arrange::precedes(all_numbers(keys)[i], all_numbers(keys)[j]) <==> goes_first(
            keys[i],
            keys[j],
        ),
{
    let a = keys[i];
    let b = keys[j];
    lemma_first_wildcard(keys, a, 0, i);
    lemma_first_wildcard(keys, b, 0, j);
    lemma_numbers(a, place(keys, i) as usize, b, place(keys, j) as usize);
}

/// A tangle cannot be put right: some wildcard stands before both routes, the later of which must
/// go before it, while it goes before the earlier one, which goes before the later one.
pub proof fn a_tangle_is_a_contradiction(keys: Seq<RouteOrderKeyV>, i: int, j: int)
    requires
        forall|k: int| 0 <= k < keys.len() ==> (#[trigger] keys[k]).file_index == k,
        forall|k: int|
            0 <= k < keys.len() && (#[trigger] keys[k]).wildcard ==> !keys[k].unmatched,
        forall|k: int|
            0 <= k < keys.len() ==> (#[trigger] keys[k]).path_length == match keys[k].path {
                Some(p) => Some(text::size(p)),
                None => None,
            },
        0 <= i < j < keys.len(),
        !keys[j].unmatched,
        tangled(keys, i, j),
    ensures
        goes_first(keys[i], keys[j]),
        exists|g: int|
            0 <= g < i && goes_first(keys[j], #[trigger] keys[g]) && goes_first(keys[g], keys[i]),
{
    lemma_first_wildcard(keys, keys[i], 0, i);
    lemma_first_wildcard(keys, keys[j], 0, j);
    let g = place(keys, j);
    assert(goes_first(keys[j], keys[g]) && goes_first(keys[g], keys[i]));
}

/// The key of a route with the matcher `m`.
pub open spec fn route_key(
    rank: usize,
    scope: Map<Seq<char>, MatcherV>,
    m: Option<MatcherV>,
    file_index: usize,
) -> RouteOrderKeyV {
    let pattern = match m {
        Some(found) => sorting_path(found, scope),
        None => None,
    };
    RouteOrderKeyV {
        rank,
        path: match pattern {
            Some(p) => Some(unglobbed(p)),
            None => None,
        },
        path_length: match pattern {
            Some(p) => Some(text::size(unglobbed(p))),
            None => None,
        },
        unmatched: m is None,
        wildcard: match pattern {
            Some(p) => text::ends_char(p, '*'),
            None => false,
        },
        file_index,
    }
}

/// The rank at which the default pipeline answers: that of its first handler that answers by
/// itself, other than `templates`. One that never answers comes last.
pub open spec fn answering_rank(order: Seq<Seq<char>>, defaults: Seq<HandlerV>) -> usize
    decreases defaults.len(),
{
    if defaults.len() == 0 {
        usize::MAX
    } else if !(defaults[0] is Templates) && ranks::answers(defaults[0]) {
        order::rank(order, ranks::directive_name(defaults[0])) as usize
    } else {
        answering_rank(order, defaults.drop_first())
    }
}

/// The rank of a route: its own if it answers by itself, else that of the pipeline with which it is
/// composed.
pub open spec fn arm_rank(order: Seq<Seq<char>>, h: HandlerV, pipeline_rank: usize) -> usize {
    if ranks::answers(h) {
        order::rank(order, ranks::directive_name(h)) as usize
    } else {
        pipeline_rank
    }
}

impl RouteOrderKey {
    /// The key of a route that one directive produced, before site middleware is composed into it.
    pub fn for_arm(
        order: &DirectiveOrder,
        scope: &Table<Matcher>,
        arm: &RouteArm,
        file_index: usize,
        pipeline_rank: usize,
    ) -> (r: RouteOrderKey)
        ensures
            r.deep_view() == route_key(
                arm_rank(order@, arm.deep_view().handler, pipeline_rank),
                scope.deep_view(),
                arm.deep_view().matcher,
                file_index,
            ),
    {
        let rank: usize = if handler_has_terminal(&arm.handler) {
            order.rank(handler_directive_name(&arm.handler))
        } else {
            pipeline_rank
        };
        RouteOrderKey::new(rank, scope, &arm.matcher, file_index)
    }

    /// The key of one element of a `handle` block.
    pub fn for_element(
        order: &DirectiveOrder,
        scope: &Table<Matcher>,
        element: &HandlerElement,
        file_index: usize,
    ) -> (r: RouteOrderKey)
        ensures
            r.deep_view() == route_key(
                order::rank(
                    order@,
                    ranks::directive_name(element.deep_view().handler),
                ) as usize,
                scope.deep_view(),
                element.deep_view().matcher,
                file_index,
            ),
    {
        let rank: usize = order.rank(handler_directive_name(&element.handler));
        RouteOrderKey::new(rank, scope, &element.matcher, file_index)
    }

    /// The key of the site's pipeline without a matcher, which sorts after every matched route of
    /// the same rank.
    pub fn for_catch_all(pipeline_rank: usize) -> (r: RouteOrderKey)
        ensures
            r.deep_view() == route_key(pipeline_rank, Map::empty(), None, usize::MAX),
    {
        RouteOrderKey {
            rank: pipeline_rank,
            path: None,
            path_length: None,
            unmatched: true,
            wildcard: false,
            file_index: usize::MAX,
        }
    }

    /// The rank at which the default pipeline answers.
    pub fn pipeline_rank(order: &DirectiveOrder, defaults: &Vec<Handler>) -> (r: usize)
        ensures
            r == answering_rank(order@, defaults.deep_view()),
    {
        let ghost all = defaults.deep_view();
        let mut i: usize = 0;
        assert(all.skip(0) =~= all);
        while i < defaults.len()
            invariant
                i <= defaults.len(),
                all == defaults.deep_view(),
                answering_rank(order@, all) == answering_rank(order@, all.skip(i as int)),
            decreases defaults.len() - i,
        {
            assert(all.skip(i as int)[0] == defaults@[i as int].deep_view());
            assert(all.skip(i as int).drop_first() =~= all.skip(i + 1));
            let templates = match &defaults[i] {
                Handler::Templates => true,
                _ => false,
            };
            if !templates && handler_has_terminal(&defaults[i]) {
                return order.rank(handler_directive_name(&defaults[i]));
            }
            i += 1;
        }
        usize::MAX
    }

    /// The key of a route.
    pub fn new(rank: usize, scope: &Table<Matcher>, m: &Option<Matcher>, file_index: usize) -> (r:
        RouteOrderKey)
        ensures
            r.deep_view() == route_key(rank, scope.deep_view(), m.deep_view(), file_index),
    {
        let pattern = match m {
            Some(found) => sort_path(found, scope),
            None => None,
        };
        let unmatched = m.is_none();
        match &pattern {
            Some(p) => {
                let path = trim_wildcard(p.as_str());
                RouteOrderKey {
                    rank,
                    path: Some(path.to_owned()),
                    path_length: Some(byte_length(path)),
                    unmatched,
                    wildcard: finishes_with(p.as_str(), '*'),
                    file_index,
                }
            },
            None => RouteOrderKey {
                rank,
                path: None,
                path_length: None,
                unmatched,
                wildcard: false,
                file_index,
            },
        }
    }

    fn has_path_of(&self, other: &RouteOrderKey) -> (r: bool)
        ensures
            r == (self.deep_view().path == other.deep_view().path),
    {
        match (&self.path, &other.path) {
            (Some(a), Some(b)) => same(a.as_str(), b.as_str()),
            (None, None) => true,
            _ => false,
        }
    }

    /// Whether the route goes before another one.
    pub fn precedes(&self, other: &RouteOrderKey) -> (r: bool)
        ensures
            r == goes_first(self.deep_view(), other.deep_view()),
    {
        if self.rank != other.rank {
            return self.rank < other.rank;
        }
        match (self.path_length, other.path_length) {
            (Some(x), Some(y)) => {
                if x != y {
                    return x > y;
                }
            },
            (Some(_), None) => {
                return true;
            },
            (None, Some(_)) => {
                return false;
            },
            (None, None) => {},
        }
        if self.unmatched != other.unmatched {
            return other.unmatched;
        }
        if self.has_path_of(other) && self.wildcard != other.wildcard {
            return other.wildcard;
        }
        self.file_index < other.file_index
    }

    /// The numbers by which the route is sorted that is considered at a place.
    pub fn numbers(&self, place: usize) -> (r: Vec<usize>)
        ensures
            r@ == sort_numbers(self.deep_view(), place),
    {
        let pathless: usize = if self.path_length.is_none() {
            1
        } else {
            0
        };
        let shortness: usize = match self.path_length {
            Some(n) => usize::MAX - n,
            None => 0,
        };
        let unmatched: usize = if self.unmatched {
            1
        } else {
            0
        };
        let wildcard: usize = if self.wildcard {
            1
        } else {
            0
        };
        let list: Vec<usize> = vec![
            self.rank,
            pathless,
            shortness,
            unmatched,
            place,
            wildcard,
            self.file_index,
        ];
        assert(list@ =~= sort_numbers(self.deep_view(), place));
        list
    }
}

fn find_place(keys: &Vec<RouteOrderKey>, i: usize) -> (r: usize)
    requires
        i < keys.len(),
    ensures
        r == place(keys.deep_view(), i as int),
{
    if keys[i].wildcard {
        return i;
    }
    let ghost all = keys.deep_view();
    let mut j: usize = 0;
    while j < i && !(keys[j].wildcard && keys[j].rank == keys[i].rank && keys[j].has_path_of(
        &keys[i],
    ))
        invariant
            j <= i < keys.len(),
            all == keys.deep_view(),
            first_wildcard(all, all[i as int], 0, i as int) == first_wildcard(
                all,
                all[i as int],
                j as int,
                i as int,
            ),
        decreases i - j,
    {
        assert(all[j as int] == keys@[j as int].deep_view());
        assert(all[i as int] == keys@[i as int].deep_view());
        j += 1;
    }
    assert(j < i ==> all[j as int] == keys@[j as int].deep_view());
    assert(all[i as int] == keys@[i as int].deep_view());
    j
}

/// The numbers by which each route of a list is sorted.
pub fn number_all(keys: &Vec<RouteOrderKey>) -> (r: Vec<Vec<usize>>)
    ensures
        r.deep_view() == all_numbers(keys.deep_view()),
{
    let ghost all = keys.deep_view();
    let mut out: Vec<Vec<usize>> = Vec::new();
    let mut i: usize = 0;
    while i < keys.len()
        invariant
            i <= keys.len(),
            all == keys.deep_view(),
            out@.len() == i,
            forall|j: int|
                0 <= j < i ==> (#[trigger] out@[j])@ == sort_numbers(
                    all[j],
                    place(all, j) as usize,
                ),
        decreases keys.len() - i,
    {
        assert(all[i as int] == keys@[i as int].deep_view());
        let at: usize = find_place(keys, i);
        out.push(keys[i].numbers(at));
        i += 1;
    }
    assert forall|j: int| 0 <= j < out@.len() implies (#[trigger] out.deep_view()[j])
        == all_numbers(all)[j] by {
        assert(out@[j].deep_view() =~= out@[j]@);
    }
    assert(out.deep_view() =~= all_numbers(all));
    out
}

} // verus!
