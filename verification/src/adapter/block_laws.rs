//! What the blocks of `route`, `handle` and `handle_path` hold.

use crate::adapter::handlers;
use crate::adapter::matcher_sets;
use crate::adapter::matchers;
use crate::adapter::order;
use crate::adapter::profile::Profile;
use crate::adapter::ranks;
use crate::arrange;
use crate::ast::matcher::PathMatcherV;
use crate::ast::tree::{HandlerElementV, HandlerV, MatcherV};
use crate::error::ErrorV;
use crate::syntax::{line, with_block, DirectiveV};
use crate::text;
use vstd::prelude::*;

verus! {

// ---------------------------------------------------------------------------
// The elements of a block
// ---------------------------------------------------------------------------
/// A line that defines a matcher and is no step of its block.
pub open spec fn defines(d: DirectiveV) -> bool {
    text::starts_char(d.name, '@')
}

/// How many of the first `n` lines are steps.
pub open spec fn steps_before(lines: Seq<DirectiveV>, n: int) -> int
    decreases n,
{
    if n <= 0 {
        0
    } else {
        steps_before(lines, n - 1) + if defines(lines[n - 1]) {
            0int
        } else {
            1int
        }
    }
}

/// The matchers in scope at line `n` of a block: those around the block, and those that lines
/// above define, a later one in place of an earlier one of the same name.
pub open spec fn scope_before(
    lines: Seq<DirectiveV>,
    n: int,
    scope: Map<Seq<char>, MatcherV>,
) -> Map<Seq<char>, MatcherV>
    decreases n,
{
    if n <= 0 {
        scope
    } else if defines(lines[n - 1]) {
        scope_before(lines, n - 1, scope).insert(
            lines[n - 1].name,
            matcher_sets::definition(Profile::Extended, lines[n - 1])->Ok_0,
        )
    } else {
        scope_before(lines, n - 1, scope)
    }
}

/// Whether `e` is what the line `d` comes to: its matcher, and the handler of the directive behind
/// the matcher.
#[verifier::opaque]
pub open spec fn is_step(
    e: HandlerElementV,
    d: DirectiveV,
    scope: Map<Seq<char>, MatcherV>,
    order: Seq<Seq<char>>,
) -> bool {
    if d.name == "handle_path"@ {
        handlers::path_handler(d, scope, order) matches Ok((m, h)) && (e.matcher == Some(m)
            && e.handler == h)
    } else {
        &&& e.matcher == handlers::resolved(d, scope)
        &&& handlers::handler(
            Profile::Extended,
            if e.matcher is Some {
                DirectiveV { args: d.args.skip(1), ..d }
            } else {
                d
            },
            scope,
            order,
        ) == Ok::<HandlerV, ErrorV>(e.handler)
    }
}

/// Whether `list` is what the lines of a block come to, in their order.
pub open spec fn are_steps(
    list: Seq<HandlerElementV>,
    lines: Seq<DirectiveV>,
    scope: Map<Seq<char>, MatcherV>,
    order: Seq<Seq<char>>,
) -> bool {
    &&& list.len() == steps_before(lines, lines.len() as int)
    &&& forall|k: int|
        0 <= k < lines.len() && !defines(#[trigger] lines[k]) ==> is_step(
            list[steps_before(lines, k)],
            lines[k],
            scope_before(lines, k, scope),
            order,
        )
}

proof fn lemma_steps_bound(lines: Seq<DirectiveV>, k: int)
    ensures
        0 <= steps_before(lines, k),
    decreases k,
{
    if k > 0 {
        lemma_steps_bound(lines, k - 1);
    }
}

/// The first line of a block and the others.
proof fn lemma_first_line(lines: Seq<DirectiveV>, k: int, scope: Map<Seq<char>, MatcherV>)
    requires
        0 < k <= lines.len(),
    ensures
        ({
            let rest = lines.subrange(1, lines.len() as int);
            let first = steps_before(lines, 1);
            &&& steps_before(lines, k) == first + steps_before(rest, k - 1)
            &&& scope_before(lines, k, scope) == scope_before(
                rest,
                k - 1,
                scope_before(lines, 1, scope),
            )
        }),
    decreases k,
{
    let rest = lines.subrange(1, lines.len() as int);
    assert(steps_before(lines, 0) == 0);
    assert(steps_before(rest, 0) == 0);
    if k > 1 {
        lemma_first_line(lines, k - 1, scope);
        assert(rest[k - 2] == lines[k - 1]);
    }
}

/// The first line of a block is read, and then the others.
#[verifier::rlimit(60)]
#[verifier::spinoff_prover]
proof fn lemma_first_step(
    lines: Seq<DirectiveV>,
    scope: Map<Seq<char>, MatcherV>,
    held: Seq<HandlerElementV>,
    order: Seq<Seq<char>>,
) -> (own: Seq<HandlerElementV>)
    requires
        lines.len() > 0,
        handlers::steps(Profile::Extended, lines, scope, held, order) is Ok,
    ensures
        handlers::steps(
            Profile::Extended,
            lines.subrange(1, lines.len() as int),
            scope_before(lines, 1, scope),
            own,
            order,
        ) == handlers::steps(Profile::Extended, lines, scope, held, order),
        own.len() == held.len() + steps_before(lines, 1),
        own.take(held.len() as int) == held,
        !defines(lines[0]) ==> steps_before(lines, 1) == 1 && is_step(
            own[held.len() as int],
            lines[0],
            scope,
            order,
        ),
        defines(lines[0]) ==> steps_before(lines, 1) == 0,
{
    let d = lines[0];
    assert(steps_before(lines, 0) == 0);
    assert(scope_before(lines, 0, scope) == scope);
    let own = if defines(d) {
        held
    } else if d.name == "handle_path"@ {
        let (m, h) = handlers::path_handler(d, scope, order)->Ok_0;
        held.push(HandlerElementV { matcher: Some(m), handler: h })
    } else {
        let m = handlers::resolved(d, scope);
        let behind = if m is Some {
            handlers::shifted(d)
        } else {
            d
        };
        held.push(
            HandlerElementV {
                matcher: m,
                handler: handlers::handler(Profile::Extended, behind, scope, order)->Ok_0,
            },
        )
    };
    assert(own.take(held.len() as int) =~= held);
    reveal(is_step);
    own
}

proof fn lemma_block_steps(
    lines: Seq<DirectiveV>,
    scope: Map<Seq<char>, MatcherV>,
    held: Seq<HandlerElementV>,
    order: Seq<Seq<char>>,
    list: Seq<HandlerElementV>,
)
    requires
        handlers::steps(Profile::Extended, lines, scope, held, order) == Ok::<
            Seq<HandlerElementV>,
            ErrorV,
        >(list),
    ensures
        list.len() == held.len() + steps_before(lines, lines.len() as int),
        list.take(held.len() as int) == held,
        are_steps(list.skip(held.len() as int), lines, scope, order),
    decreases lines.len(),
{
    if lines.len() == 0 {
        assert(list.take(held.len() as int) =~= held);
    } else {
        let rest = lines.subrange(1, lines.len() as int);
        let own = lemma_first_step(lines, scope, held, order);
        lemma_block_steps(rest, scope_before(lines, 1, scope), own, order, list);
        lemma_joined_steps(lines, scope, held, own, order, list);
    }
}

/// The step of the first line, and those of the others.
proof fn lemma_joined_steps(
    lines: Seq<DirectiveV>,
    scope: Map<Seq<char>, MatcherV>,
    held: Seq<HandlerElementV>,
    own: Seq<HandlerElementV>,
    order: Seq<Seq<char>>,
    list: Seq<HandlerElementV>,
)
    requires
        lines.len() > 0,
        own.len() == held.len() + steps_before(lines, 1),
        own.take(held.len() as int) == held,
        !defines(lines[0]) ==> steps_before(lines, 1) == 1 && is_step(
            own[held.len() as int],
            lines[0],
            scope,
            order,
        ),
        defines(lines[0]) ==> steps_before(lines, 1) == 0,
        ({
            let rest = lines.subrange(1, lines.len() as int);
            &&& list.len() == own.len() + steps_before(rest, rest.len() as int)
            &&& list.take(own.len() as int) == own
            &&& are_steps(
                list.skip(own.len() as int),
                rest,
                scope_before(lines, 1, scope),
                order,
            )
        }),
    ensures
        list.len() == held.len() + steps_before(lines, lines.len() as int),
        list.take(held.len() as int) == held,
        are_steps(list.skip(held.len() as int), lines, scope, order),
{
    let rest = lines.subrange(1, lines.len() as int);
    let n = held.len() as int;
    let m = own.len() as int;
    assert(steps_before(lines, 0) == 0);
    assert(scope_before(lines, 0, scope) == scope);
    lemma_first_line(lines, lines.len() as int, scope);
    lemma_steps_bound(rest, rest.len() as int);
    assert(list.take(n) =~= held) by {
        assert forall|i: int| 0 <= i < n implies list[i] == held[i] by {
            assert(list.take(m)[i] == own[i]);
            assert(own.take(n)[i] == own[i]);
        }
    }
    let tail = list.skip(n);
    assert forall|k: int| 0 <= k < lines.len() && !defines(#[trigger] lines[k]) implies is_step(
        tail[steps_before(lines, k)],
        lines[k],
        scope_before(lines, k, scope),
        order,
    ) by {
        if k == 0 {
            assert(list.take(m)[n] == own[n]);
            assert(tail[0] == own[n]);
        } else {
            lemma_first_line(lines, k, scope);
            lemma_steps_bound(rest, k - 1);
            assert(rest[k - 1] == lines[k]);
            assert(!defines(rest[k - 1]));
            lemma_steps_inside(rest, k - 1);
            assert(list.skip(m)[steps_before(rest, k - 1)] == tail[steps_before(lines, k)]);
        }
    }
}

/// A step stands inside its list.
proof fn lemma_steps_inside(lines: Seq<DirectiveV>, k: int)
    requires
        0 <= k < lines.len(),
        !defines(lines[k]),
    ensures
        0 <= steps_before(lines, k) < steps_before(lines, lines.len() as int),
{
    lemma_steps_bound(lines, k);
    assert(steps_before(lines, k + 1) == steps_before(lines, k) + 1);
    lemma_steps_grow(lines, k + 1, lines.len() as int);
}

proof fn lemma_steps_grow(lines: Seq<DirectiveV>, a: int, b: int)
    requires
        0 <= a <= b,
    ensures
        steps_before(lines, a) <= steps_before(lines, b),
    decreases b - a,
{
    if a < b {
        lemma_steps_grow(lines, a, b - 1);
    }
}

/// `route` runs its directives in the order in which they are written, whatever the order of the
/// directives is: the element at each place of the pipeline is the matcher and the handler of the
/// line at that place, the definitions of matchers left out.
pub proof fn a_route_keeps_the_order_of_its_lines(
    d: DirectiveV,
    lines: Seq<DirectiveV>,
    scope: Map<Seq<char>, MatcherV>,
    order: Seq<Seq<char>>,
)
    requires
        d.name == "route"@,
        handlers::handler(Profile::Extended, with_block(d, lines), scope, order) is Ok,
    ensures
        handlers::handler(Profile::Extended, with_block(d, lines), scope, order) matches Ok(
            HandlerV::Pipeline(list),
        ) && are_steps(list, lines, scope, order),
{
    lemma_block_names();
    let list = handlers::steps(
        Profile::Extended,
        lines,
        scope,
        Seq::empty(),
        order,
    )->Ok_0;
    lemma_block_steps(lines, scope, Seq::empty(), order, list);
    assert(list.skip(0) =~= list);
}

/// Without definitions among its lines, the pipeline of a `route` has one element to a line.
pub proof fn a_route_has_one_element_to_a_line(
    d: DirectiveV,
    lines: Seq<DirectiveV>,
    scope: Map<Seq<char>, MatcherV>,
    order: Seq<Seq<char>>,
    i: int,
)
    requires
        d.name == "route"@,
        handlers::handler(Profile::Extended, with_block(d, lines), scope, order) is Ok,
        forall|k: int| 0 <= k < lines.len() ==> !defines(#[trigger] lines[k]),
        0 <= i < lines.len(),
    ensures
        handlers::handler(Profile::Extended, with_block(d, lines), scope, order) matches Ok(
            HandlerV::Pipeline(list),
        ) && (list.len() == lines.len() && is_step(list[i], lines[i], scope, order)),
{
    a_route_keeps_the_order_of_its_lines(d, lines, scope, order);
    lemma_all_steps(lines, lines.len() as int, scope);
    lemma_all_steps(lines, i, scope);
    assert(!defines(lines[i]));
}

proof fn lemma_all_steps(lines: Seq<DirectiveV>, n: int, scope: Map<Seq<char>, MatcherV>)
    requires
        0 <= n <= lines.len(),
        forall|k: int| 0 <= k < lines.len() ==> !defines(#[trigger] lines[k]),
    ensures
        steps_before(lines, n) == n,
        scope_before(lines, n, scope) == scope,
    decreases n,
{
    if n > 0 {
        lemma_all_steps(lines, n - 1, scope);
        assert(!defines(lines[n - 1]));
    }
}

/// One more line at the end of a `route` adds its step at the end of the pipeline.
pub proof fn a_last_line_of_a_route_runs_last(
    d: DirectiveV,
    front: Seq<DirectiveV>,
    last: DirectiveV,
    scope: Map<Seq<char>, MatcherV>,
    order: Seq<Seq<char>>,
)
    requires
        d.name == "route"@,
        !defines(last),
        handlers::handler(Profile::Extended, with_block(d, front.push(last)), scope, order) is Ok,
    ensures
        handlers::handler(Profile::Extended, with_block(d, front.push(last)), scope, order) matches
            Ok(HandlerV::Pipeline(list)) && (list.len() > 0 && is_step(
            list.last(),
            last,
            scope_before(front, front.len() as int, scope),
            order,
        )),
{
    let lines = front.push(last);
    let n = front.len() as int;
    a_route_keeps_the_order_of_its_lines(d, lines, scope, order);
    assert(lines[n] == last);
    lemma_same_front(lines, front, n, scope);
    lemma_steps_bound(front, n);
    assert(steps_before(lines, n + 1) == steps_before(lines, n) + 1);
}

proof fn lemma_same_front(
    lines: Seq<DirectiveV>,
    front: Seq<DirectiveV>,
    n: int,
    scope: Map<Seq<char>, MatcherV>,
)
    requires
        0 <= n <= front.len() <= lines.len(),
        forall|k: int| 0 <= k < n ==> lines[k] == front[k],
    ensures
        steps_before(lines, n) == steps_before(front, n),
        scope_before(lines, n, scope) == scope_before(front, n, scope),
    decreases n,
{
    if n > 0 {
        lemma_same_front(lines, front, n - 1, scope);
    }
}

/// A named matcher before a directive is the last definition of that name above it in the block,
/// or the one around the block where the block defines none.
pub proof fn a_name_stands_for_the_last_definition_above(
    lines: Seq<DirectiveV>,
    n: int,
    scope: Map<Seq<char>, MatcherV>,
    name: Seq<char>,
    at: int,
)
    requires
        0 <= n <= lines.len(),
        -1 <= at < n,
        at >= 0 ==> defines(lines[at]) && lines[at].name == name,
        forall|k: int| at < k < n ==> (#[trigger] lines[k]).name != name,
    ensures
        at >= 0 ==> scope_before(lines, n, scope).dom().contains(name) && Ok::<MatcherV, ErrorV>(
            scope_before(lines, n, scope)[name],
        ) == Ok::<MatcherV, ErrorV>(
            matcher_sets::definition(Profile::Extended, lines[at])->Ok_0,
        ),
        at < 0 ==> (scope_before(lines, n, scope).dom().contains(name) <==> scope.dom().contains(
            name,
        )) && (scope.dom().contains(name) ==> scope_before(lines, n, scope)[name] == scope[name]),
    decreases n,
{
    if n > 0 && at < n - 1 {
        a_name_stands_for_the_last_definition_above(lines, n - 1, scope, name, at);
        assert(lines[n - 1].name != name);
    }
}

proof fn lemma_block_names()
    ensures
        "route"@ != "handle"@ && "route"@ != "handle_path"@ && "handle"@ != "handle_path"@,
{
    reveal_strlit("route");
    reveal_strlit("handle");
    reveal_strlit("handle_path");
    assert("route"@.len() == 5);
    assert("handle"@.len() == 6);
    assert("handle_path"@.len() == 11);
}

// ---------------------------------------------------------------------------
// Sorted blocks
// ---------------------------------------------------------------------------
/// Whether `e` runs before `f` by what they are: the directive of `e` comes first in the order of
/// the directives; or both have the same place there, and the path of `e` is exact where that of
/// `f` has a wildcard; or is longer.
pub open spec fn runs_first(
    order: Seq<Seq<char>>,
    e: HandlerElementV,
    f: HandlerElementV,
) -> bool {
    let a = order::rank(order, ranks::directive_name(e.handler));
    let b = order::rank(order, ranks::directive_name(f.handler));
    a < b || (a == b && is_more_specific(e.matcher, f.matcher))
}

/// Whether two elements have the same place by what they are.
pub open spec fn runs_alike(
    order: Seq<Seq<char>>,
    e: HandlerElementV,
    f: HandlerElementV,
) -> bool {
    order::rank(order, ranks::directive_name(e.handler)) == order::rank(
        order,
        ranks::directive_name(f.handler),
    ) && has_wildcard(e.matcher) == has_wildcard(f.matcher) && length_of(e.matcher) == length_of(
        f.matcher,
    )
}

/// Whether the first path of a matcher has a wildcard.
pub open spec fn has_wildcard(m: Option<MatcherV>) -> bool {
    m matches Some(MatcherV::Path(p)) && p.patterns.len() > 0 && p.patterns[0].contains('*')
}

/// How long the first path of a matcher is, in bytes.
pub open spec fn length_of(m: Option<MatcherV>) -> usize {
    match m {
        Some(MatcherV::Path(p)) => if p.patterns.len() > 0 {
            text::size(p.patterns[0])
        } else {
            0
        },
        _ => 0,
    }
}

/// An exact path is more specific than one with a wildcard, and of two of the same kind the longer
/// one.
pub open spec fn is_more_specific(m: Option<MatcherV>, n: Option<MatcherV>) -> bool {
    (!has_wildcard(m) && has_wildcard(n)) || (has_wildcard(m) == has_wildcard(n) && length_of(m)
        > length_of(n))
}

/// Whether `sorted` holds the elements of `list`, each once, in the order in which they run; those
/// of the same place keep the order of `list`.
pub open spec fn is_sorted_from(
    order: Seq<Seq<char>>,
    sorted: Seq<HandlerElementV>,
    list: Seq<HandlerElementV>,
    places: Seq<int>,
) -> bool {
    &&& arrange::covers(places, list.len() as int)
    &&& sorted.len() == list.len()
    &&& forall|i: int| 0 <= i < sorted.len() ==> #[trigger] sorted[i] == list[places[i]]
    &&& forall|i: int, j: int|
        0 <= i < j < sorted.len() ==> runs_first(
            order,
            #[trigger] sorted[i],
            #[trigger] sorted[j],
        ) || (runs_alike(order, sorted[i], sorted[j]) && places[i] < places[j])
}

proof fn lemma_rank_bound(names: Seq<Seq<char>>, name: Seq<char>, from: int)
    requires
        0 <= from <= names.len(),
    ensures
        from <= order::place_from(names, name, from) <= names.len(),
    decreases names.len() - from,
{
    if from < names.len() && names[from] != name {
        lemma_rank_bound(names, name, from + 1);
    }
}

proof fn lemma_specific_keys(
    order: Seq<Seq<char>>,
    e: HandlerElementV,
    f: HandlerElementV,
)
    requires
        order.len() <= usize::MAX,
    ensures
        ({
            let a = ranks::specific_key(
                ranks::handler_rank(Profile::Extended, order, e.handler),
                e.matcher,
            );
            let b = ranks::specific_key(
                ranks::handler_rank(Profile::Extended, order, f.handler),
                f.matcher,
            );
            (arrange::precedes(a, b) ==> runs_first(order, e, f)) && (a == b ==> runs_alike(
                order,
                e,
                f,
            ))
        }),
{
    let a = ranks::specific_key(
        ranks::handler_rank(Profile::Extended, order, e.handler),
        e.matcher,
    );
    let b = ranks::specific_key(
        ranks::handler_rank(Profile::Extended, order, f.handler),
        f.matcher,
    );
    lemma_rank_bound(order, ranks::directive_name(e.handler), 0);
    lemma_rank_bound(order, ranks::directive_name(f.handler), 0);
    reveal_with_fuel(arrange::precedes, 4);
    assert(a.skip(1)[0] == a[1] && b.skip(1)[0] == b[1]);
    assert(a.skip(1).skip(1)[0] == a[2] && b.skip(1).skip(1)[0] == b[2]);
    assert(a.len() == 3 && b.len() == 3);
    assert(a[0] == order::rank(order, ranks::directive_name(e.handler)));
    assert(b[0] == order::rank(order, ranks::directive_name(f.handler)));
    assert(a[2] == usize::MAX - length_of(e.matcher));
    assert(b[2] == usize::MAX - length_of(f.matcher));
    assert(a[1] == if has_wildcard(e.matcher) {
        1usize
    } else {
        0usize
    });
    assert(b[1] == if has_wildcard(f.matcher) {
        1usize
    } else {
        0usize
    });
}

proof fn lemma_sorted(order: Seq<Seq<char>>, list: Seq<HandlerElementV>) -> (places: Seq<int>)
    requires
        order.len() <= usize::MAX,
    ensures
        is_sorted_from(order, handlers::sorted_elements(order, list), list, places),
{
    let f = |e: HandlerElementV|
        ranks::specific_key(
            ranks::handler_rank(Profile::Extended, order, e.handler),
            e.matcher,
        );
    let keys = list.map_values(f);
    let places = arrange::stable_order(keys);
    arrange::a_stable_order_follows_the_keys(keys);
    let sorted = handlers::sorted_elements(order, list);
    assert(sorted == arrange::arranged(list, places));
    assert forall|i: int, j: int| 0 <= i < j < sorted.len() implies runs_first(
        order,
        #[trigger] sorted[i],
        #[trigger] sorted[j],
    ) || (runs_alike(order, sorted[i], sorted[j]) && places[i] < places[j]) by {
        assert(arrange::precedes(keys[places[i]], keys[places[j]]) || (keys[places[i]]
            == keys[places[j]] && places[i] < places[j]));
        lemma_specific_keys(order, sorted[i], sorted[j]);
    }
    assert(is_sorted_from(order, sorted, list, places));
    places
}

/// `handle` runs what `route` runs, in the order of the directives: each element of the pipeline
/// of the same block once, those of an earlier directive first, of one directive those with a more
/// specific path first, and the others as they are written.
#[verifier::rlimit(60)]
#[verifier::spinoff_prover]
pub proof fn a_handle_runs_what_a_route_does_in_directive_order(
    d: DirectiveV,
    lines: Seq<DirectiveV>,
    scope: Map<Seq<char>, MatcherV>,
    order: Seq<Seq<char>>,
) -> (places: Seq<int>)
    requires
        order.len() <= usize::MAX,
    ensures
        ({
            let as_route = handlers::handler(
                Profile::Extended,
                with_block(DirectiveV { name: "route"@, ..d }, lines),
                scope,
                order,
            );
            let as_handle = handlers::handler(
                Profile::Extended,
                with_block(DirectiveV { name: "handle"@, ..d }, lines),
                scope,
                order,
            );
            &&& as_route is Err ==> as_handle == as_route
            &&& as_route is Ok ==> as_route->Ok_0 is Pipeline && as_handle is Ok
                && as_handle->Ok_0 is Handle && is_sorted_from(
                order,
                as_handle->Ok_0->Handle_0,
                as_route->Ok_0->Pipeline_0,
                places,
            )
        }),
{
    lemma_block_names();
    let read = handlers::steps(Profile::Extended, lines, scope, Seq::empty(), order);
    let as_route = handlers::handler(
        Profile::Extended,
        with_block(DirectiveV { name: "route"@, ..d }, lines),
        scope,
        order,
    );
    let as_handle = handlers::handler(
        Profile::Extended,
        with_block(DirectiveV { name: "handle"@, ..d }, lines),
        scope,
        order,
    );
    if read is Ok {
        let list = read->Ok_0;
        let places = lemma_sorted(order, list);
        assert(as_route == Ok::<HandlerV, ErrorV>(HandlerV::Pipeline(list)));
        let sorted = handlers::sorted_elements(order, list);
        assert(as_handle == Ok::<HandlerV, ErrorV>(HandlerV::Handle(sorted)));
        places
    } else {
        assert(as_route == Err::<HandlerV, ErrorV>(read->Err_0));
        assert(as_handle == Err::<HandlerV, ErrorV>(read->Err_0));
        Seq::empty()
    }
}

/// `handle_path` runs what `handle` runs, behind the prefix that it strips.
pub proof fn a_handle_path_runs_what_a_handle_does(
    d: DirectiveV,
    lines: Seq<DirectiveV>,
    scope: Map<Seq<char>, MatcherV>,
    order: Seq<Seq<char>>,
    list: Seq<HandlerElementV>,
    m: MatcherV,
    prefix: Seq<char>,
)
    requires
        handlers::handler(
            Profile::Extended,
            with_block(DirectiveV { name: "handle"@, ..d }, lines),
            scope,
            order,
        ) == Ok::<HandlerV, ErrorV>(HandlerV::Handle(list)),
        handlers::stripped_path(d) == Ok::<(MatcherV, Seq<char>), ErrorV>((m, prefix)),
    ensures
        handlers::path_handler(with_block(d, lines), scope, order) == Ok::<
            (MatcherV, HandlerV),
            ErrorV,
        >((m, HandlerV::HandlePath(prefix, list))),
        handlers::handler(
            Profile::Extended,
            with_block(DirectiveV { name: "handle_path"@, ..d }, lines),
            scope,
            order,
        ) == Ok::<HandlerV, ErrorV>(HandlerV::HandlePath(prefix, list)),
{
    lemma_block_names();
    let renamed = with_block(DirectiveV { name: "handle_path"@, ..d }, lines);
    assert(handlers::stripped_path(renamed) == handlers::stripped_path(d));
    assert(handlers::stripped_path(with_block(d, lines)) == handlers::stripped_path(d));
}

/// What `handle_path` strips is the path without the slash and the wildcard at its end, and what it
/// matches is the path as it is written.
pub proof fn a_handle_path_strips_what_stands_before_the_wildcard(
    name: Seq<char>,
    prefix: Seq<char>,
    tail: Seq<char>,
    rest: Seq<Seq<char>>,
)
    requires
        text::starts_char(prefix, '/'),
        prefix.last() != '/',
        prefix.last() != '*',
        tail == Seq::<char>::empty() || tail == seq!['/'] || tail == seq!['*'] || tail == seq![
            '/',
            '*',
        ],
    ensures
        handlers::stripped_path(line(name, seq![prefix + tail] + rest)) == Ok::<
            (MatcherV, Seq<char>),
            ErrorV,
        >((MatcherV::Path(PathMatcherV { patterns: seq![prefix + tail] }), prefix)),
{
    let p = prefix + tail;
    let d = line(name, seq![p] + rest);
    assert(d.args[0] == p);
    assert(p[0] == '/');
    reveal_with_fuel(text::trimmed_end, 3);
    if tail == seq!['/', '*'] {
        assert(p.drop_last() =~= prefix + seq!['/']);
        assert((prefix + seq!['/']).drop_last() =~= prefix);
    } else if tail.len() == 1 {
        assert(p.drop_last() =~= prefix);
    } else {
        assert(p =~= prefix);
    }
    assert(text::trimmed_end(text::trimmed_end(p, '*'), '/') == prefix);
}

/// A handler stands for the directive that configured it.
#[verifier::rlimit(60)]
#[verifier::spinoff_prover]
pub proof fn a_handler_stands_for_its_directive(
    d: DirectiveV,
    scope: Map<Seq<char>, MatcherV>,
    order: Seq<Seq<char>>,
    h: HandlerV,
)
    requires
        handlers::handler(Profile::Extended, d, scope, order) == Ok::<HandlerV, ErrorV>(h),
    ensures
        ranks::directive_name(h) == (if d.name == "redirect"@ {
            "redir"@
        } else if d.name == "basicauth"@ {
            "basic_auth"@
        } else {
            d.name
        }),
{
    reveal_strlit("redirect");
    reveal_strlit("redir");
    reveal_strlit("basicauth");
    reveal_strlit("basic_auth");
    reveal_strlit("handle");
    reveal_strlit("route");
    reveal_strlit("handle_path");
    reveal_strlit("reverse_proxy");
    reveal_strlit("respond");
    reveal_strlit("file_server");
    reveal_strlit("header");
    reveal_strlit("rate_limit");
    reveal_strlit("rewrite");
    reveal_strlit("cors");
    reveal_strlit("access_control");
    reveal_strlit("templates");
    reveal_strlit("log_skip");
    reveal_strlit("error");
    reveal_strlit("uri");
    reveal_strlit("try_files");
    assert("redirect"@.len() == 8 && "redirect"@[0] == 'r');
    assert("redir"@.len() == 5 && "redir"@[0] == 'r' && "redir"@[1] == 'e');
    assert("basicauth"@.len() == 9 && "basicauth"@[0] == 'b');
    assert("basic_auth"@.len() == 10 && "basic_auth"@[0] == 'b');
    assert("handle"@.len() == 6 && "handle"@[1] == 'a');
    assert("route"@.len() == 5 && "route"@[0] == 'r' && "route"@[1] == 'o');
    assert("handle_path"@.len() == 11 && "handle_path"@[0] == 'h');
    assert("reverse_proxy"@.len() == 13);
    assert("respond"@.len() == 7 && "respond"@[2] == 's');
    assert("file_server"@.len() == 11 && "file_server"@[0] == 'f');
    assert("header"@.len() == 6 && "header"@[1] == 'e');
    assert("rate_limit"@.len() == 10 && "rate_limit"@[0] == 'r');
    assert("rewrite"@.len() == 7 && "rewrite"@[2] == 'w');
    assert("cors"@.len() == 4);
    assert("access_control"@.len() == 14);
    assert("templates"@.len() == 9 && "templates"@[0] == 't' && "templates"@[1] == 'e');
    assert("log_skip"@.len() == 8 && "log_skip"@[0] == 'l');
    assert("error"@.len() == 5 && "error"@[0] == 'e');
    assert("uri"@.len() == 3);
    assert("try_files"@.len() == 9 && "try_files"@[0] == 't' && "try_files"@[1] == 'r');
}

// ---------------------------------------------------------------------------
// The core profile
// ---------------------------------------------------------------------------
/// In the core profile a block has one element to a line, in the order of the lines, each the
/// handler of its directive and none with a matcher.
pub proof fn a_core_block_has_one_element_to_a_line(
    lines: Seq<DirectiveV>,
    scope: Map<Seq<char>, MatcherV>,
    held: Seq<HandlerElementV>,
    order: Seq<Seq<char>>,
    list: Seq<HandlerElementV>,
)
    requires
        handlers::steps(Profile::Core, lines, scope, held, order) == Ok::<
            Seq<HandlerElementV>,
            ErrorV,
        >(list),
    ensures
        list.len() == held.len() + lines.len(),
        forall|i: int| 0 <= i < held.len() ==> list[i] == held[i],
        forall|i: int|
            0 <= i < lines.len() ==> list[held.len() + i].matcher is None && handlers::handler(
                Profile::Core,
                #[trigger] lines[i],
                scope,
                order,
            ) == Ok::<HandlerV, ErrorV>(list[held.len() + i].handler),
    decreases lines.len(),
{
    if lines.len() > 0 {
        let rest = lines.subrange(1, lines.len() as int);
        let e = HandlerElementV {
            matcher: None,
            handler: handlers::handler(Profile::Core, lines[0], scope, order)->Ok_0,
        };
        let own = held.push(e);
        a_core_block_has_one_element_to_a_line(rest, scope, own, order, list);
        assert(list[held.len() as int] == own[held.len() as int]);
        assert forall|i: int| 0 <= i < held.len() implies list[i] == held[i] by {
            assert(list[i] == own[i]);
        }
        assert forall|i: int| 0 <= i < lines.len() implies list[held.len() + i].matcher is None
            && handlers::handler(Profile::Core, #[trigger] lines[i], scope, order) == Ok::<
            HandlerV,
            ErrorV,
        >(list[held.len() + i].handler) by {
            if i > 0 {
                assert(rest[i - 1] == lines[i]);
            }
        }
    }
}

/// In the core profile handlers run in a fixed order: what changes headers, then redirects,
/// rewrites, accounts, limits, blocks, files, proxies and responses.
pub proof fn core_handlers_rank_by_what_they_are(
    order: Seq<Seq<char>>,
    list: Seq<HandlerV>,
)
    requires
        list.len() == 9,
        list[0] is Headers,
        list[1] is Redirect,
        list[2] is Rewrite,
        list[3] is BasicAuth,
        list[4] is RateLimit || list[4] is Cors || list[4] is AccessControl,
        list[5] is Pipeline || list[5] is Handle,
        list[6] is FileServer,
        list[7] is Proxy,
        list[8] is Respond,
    ensures
        forall|i: int, j: int|
            0 <= i < j < list.len() ==> ranks::handler_rank(
                Profile::Core,
                order,
                #[trigger] list[i],
            ) < ranks::handler_rank(Profile::Core, order, #[trigger] list[j]),
{
}

/// In the extended profile the directive that is listed first ranks first.
pub proof fn extended_handlers_rank_by_the_order(
    order: Seq<Seq<char>>,
    h: HandlerV,
    at: int,
)
    requires
        0 <= at < order.len(),
        order[at] == ranks::directive_name(h),
        forall|i: int| 0 <= i < at ==> #[trigger] order[i] != order[at],
    ensures
        ranks::handler_rank(Profile::Extended, order, h) == at,
{
    lemma_place(order, ranks::directive_name(h), 0, at);
}

proof fn lemma_place(names: Seq<Seq<char>>, name: Seq<char>, from: int, at: int)
    requires
        0 <= from <= at < names.len(),
        names[at] == name,
        forall|i: int| from <= i < at ==> #[trigger] names[i] != name,
    ensures
        order::place_from(names, name, from) == at,
    decreases at - from,
{
    if from < at {
        assert(names[from] != name);
        lemma_place(names, name, from + 1, at);
    }
}

// ---------------------------------------------------------------------------
// What answers, and in which order
// ---------------------------------------------------------------------------
/// What sends a response answers a request by itself, and what only prepares one does not.
pub proof fn a_handler_answers_where_it_sends_a_response(h: HandlerV)
    ensures
        h is Proxy || h is Respond || h is Redirect || h is FileServer || h is Error || h
            is Templates ==> ranks::answers(h),
        h is Headers || h is BasicAuth || h is RateLimit || h is Rewrite || h is Cors || h
            is AccessControl || h is TryFiles || h is Vars || h is Intercept || h is LogSkip
            ==> !ranks::answers(h),
{
}

/// A block answers where one of its handlers does.
pub proof fn a_block_answers_where_one_of_its_handlers_does(
    list: Seq<HandlerElementV>,
    i: int,
    prefix: Seq<char>,
)
    requires
        0 <= i < list.len(),
        ranks::answers(list[i].handler),
    ensures
        ranks::answers(HandlerV::Pipeline(list)),
        ranks::answers(HandlerV::Handle(list)),
        ranks::answers(HandlerV::HandlePath(prefix, list)),
        ranks::answers(HandlerV::HandleGroup(list)),
{
    assert(ranks::any_answers(list));
}

/// The directives of the format that are handlers, from the first that runs to the last.
pub open spec fn handlers_in_turn() -> Seq<Seq<char>> {
    seq![
        "vars"@,
        "header"@,
        "redir"@,
        "rewrite"@,
        "uri"@,
        "try_files"@,
        "basic_auth"@,
        "intercept"@,
        "templates"@,
        "handle"@,
        "handle_path"@,
        "route"@,
        "error"@,
        "respond"@,
        "reverse_proxy"@,
        "file_server"@,
    ]
}

/// By default handlers run in the order of the format.
pub proof fn handlers_run_in_the_order_of_the_format(i: int, j: int)
    requires
        0 <= i < j < handlers_in_turn().len(),
    ensures
        order::rank(order::default_order(), handlers_in_turn()[i]) < order::rank(
            order::default_order(),
            handlers_in_turn()[j],
        ),
{
    the_default_order_lists_each_directive_once();
    let all = order::default_order();
    lemma_default_place(all, "vars"@, 2);
    lemma_default_place(all, "header"@, 9);
    lemma_default_place(all, "redir"@, 12);
    lemma_default_place(all, "rewrite"@, 14);
    lemma_default_place(all, "uri"@, 15);
    lemma_default_place(all, "try_files"@, 16);
    lemma_default_place(all, "basic_auth"@, 18);
    lemma_default_place(all, "intercept"@, 23);
    lemma_default_place(all, "templates"@, 24);
    lemma_default_place(all, "handle"@, 26);
    lemma_default_place(all, "handle_path"@, 27);
    lemma_default_place(all, "route"@, 28);
    lemma_default_place(all, "error"@, 30);
    lemma_default_place(all, "respond"@, 32);
    lemma_default_place(all, "reverse_proxy"@, 34);
    lemma_default_place(all, "file_server"@, 36);
    assert(0 <= i < 16 && 0 <= j < 16);
}

proof fn lemma_default_place(names: Seq<Seq<char>>, name: Seq<char>, at: int)
    requires
        0 <= at < names.len(),
        names[at] == name,
        names.no_duplicates(),
    ensures
        order::rank(names, name) == at,
{
    assert forall|i: int| 0 <= i < at implies #[trigger] names[i] != name by {
        assert(names[i] != names[at]);
    }
    lemma_place(names, name, 0, at);
}

/// By default each directive is listed once.
#[verifier::rlimit(100)]
#[verifier::spinoff_prover]
pub proof fn the_default_order_lists_each_directive_once()
    ensures
        order::default_order().no_duplicates(),
{
    let all = order::default_order();
    reveal_strlit("tracing");
    reveal_strlit("map");
    reveal_strlit("vars");
    reveal_strlit("fs");
    reveal_strlit("root");
    reveal_strlit("log_append");
    reveal_strlit("skip_log");
    reveal_strlit("log_skip");
    reveal_strlit("log_name");
    reveal_strlit("header");
    reveal_strlit("copy_response_headers");
    reveal_strlit("request_body");
    reveal_strlit("redir");
    reveal_strlit("method");
    reveal_strlit("rewrite");
    reveal_strlit("uri");
    reveal_strlit("try_files");
    reveal_strlit("basicauth");
    reveal_strlit("basic_auth");
    reveal_strlit("forward_auth");
    reveal_strlit("request_header");
    reveal_strlit("encode");
    reveal_strlit("push");
    reveal_strlit("intercept");
    reveal_strlit("templates");
    reveal_strlit("invoke");
    reveal_strlit("handle");
    reveal_strlit("handle_path");
    reveal_strlit("route");
    reveal_strlit("abort");
    reveal_strlit("error");
    reveal_strlit("copy_response");
    reveal_strlit("respond");
    reveal_strlit("metrics");
    reveal_strlit("reverse_proxy");
    reveal_strlit("php_fastcgi");
    reveal_strlit("file_server");
    reveal_strlit("acme_server");
    assert("tracing"@.len() == 7 && "tracing"@[0] == 't');
    assert("map"@.len() == 3 && "map"@[0] == 'm');
    assert("vars"@.len() == 4 && "vars"@[0] == 'v');
    assert("fs"@.len() == 2);
    assert("root"@.len() == 4 && "root"@[0] == 'r');
    assert("log_append"@.len() == 10 && "log_append"@[0] == 'l');
    assert("skip_log"@.len() == 8 && "skip_log"@[0] == 's');
    assert("log_skip"@.len() == 8 && "log_skip"@[0] == 'l' && "log_skip"@[4] == 's');
    assert("log_name"@.len() == 8 && "log_name"@[0] == 'l' && "log_name"@[4] == 'n');
    assert("header"@.len() == 6 && "header"@[0] == 'h' && "header"@[1] == 'e');
    assert("copy_response_headers"@.len() == 21);
    assert("request_body"@.len() == 12 && "request_body"@[0] == 'r');
    assert("redir"@.len() == 5 && "redir"@[0] == 'r' && "redir"@[1] == 'e');
    assert("method"@.len() == 6 && "method"@[0] == 'm');
    assert("rewrite"@.len() == 7 && "rewrite"@[0] == 'r' && "rewrite"@[2] == 'w');
    assert("uri"@.len() == 3 && "uri"@[0] == 'u');
    assert("try_files"@.len() == 9 && "try_files"@[0] == 't' && "try_files"@[1] == 'r');
    assert("basicauth"@.len() == 9 && "basicauth"@[0] == 'b');
    assert("basic_auth"@.len() == 10 && "basic_auth"@[0] == 'b');
    assert("forward_auth"@.len() == 12 && "forward_auth"@[0] == 'f');
    assert("request_header"@.len() == 14);
    assert("encode"@.len() == 6 && "encode"@[0] == 'e');
    assert("push"@.len() == 4 && "push"@[0] == 'p');
    assert("intercept"@.len() == 9 && "intercept"@[0] == 'i');
    assert("templates"@.len() == 9 && "templates"@[0] == 't' && "templates"@[1] == 'e');
    assert("invoke"@.len() == 6 && "invoke"@[0] == 'i');
    assert("handle"@.len() == 6 && "handle"@[0] == 'h' && "handle"@[1] == 'a');
    assert("handle_path"@.len() == 11 && "handle_path"@[0] == 'h');
    assert("route"@.len() == 5 && "route"@[0] == 'r' && "route"@[1] == 'o');
    assert("abort"@.len() == 5 && "abort"@[0] == 'a');
    assert("error"@.len() == 5 && "error"@[0] == 'e');
    assert("copy_response"@.len() == 13 && "copy_response"@[0] == 'c');
    assert("respond"@.len() == 7 && "respond"@[0] == 'r' && "respond"@[2] == 's');
    assert("metrics"@.len() == 7 && "metrics"@[0] == 'm');
    assert("reverse_proxy"@.len() == 13 && "reverse_proxy"@[0] == 'r');
    assert("php_fastcgi"@.len() == 11 && "php_fastcgi"@[0] == 'p');
    assert("file_server"@.len() == 11 && "file_server"@[0] == 'f');
    assert("acme_server"@.len() == 11 && "acme_server"@[0] == 'a');
    assert forall|i: int, j: int| 0 <= i < j < all.len() implies all[i] != all[j] by {
        assert(0 <= i < 38 && 0 <= j < 38);
    }
}

/// The words of an `order` option put a directive first, last, right before another or right behind
/// it.
pub proof fn the_words_of_an_order_say_where(
    names: Seq<Seq<char>>,
    name: Seq<char>,
    other: Seq<char>,
)
    ensures
        order::moved(names, seq![name, "first"@]).1 is Ok ==> order::rank(
            order::moved(names, seq![name, "first"@]).0,
            name,
        ) == 0,
        order::moved(names, seq![name, "last"@]).1 is Ok ==> order::rank(
            order::moved(names, seq![name, "last"@]).0,
            name,
        ) == order::moved(names, seq![name, "last"@]).0.len() - 1,
        order::moved(names, seq![name, "before"@, other]).1 is Ok ==> order::rank(
            order::moved(names, seq![name, "before"@, other]).0,
            name,
        ) + 1 == order::rank(order::moved(names, seq![name, "before"@, other]).0, other),
        order::moved(names, seq![name, "after"@, other]).1 is Ok ==> order::rank(
            order::moved(names, seq![name, "after"@, other]).0,
            name,
        ) == order::rank(order::moved(names, seq![name, "after"@, other]).0, other) + 1,
{
    reveal_strlit("first");
    reveal_strlit("last");
    reveal_strlit("before");
    reveal_strlit("after");
    assert("first"@.len() == 5 && "first"@[0] == 'f');
    assert("last"@.len() == 4);
    assert("before"@.len() == 6);
    assert("after"@.len() == 5 && "after"@[0] == 'a');
    if order::moved(names, seq![name, "first"@]).1 is Ok {
        order::an_order_puts_its_directive_in_place(names, seq![name, "first"@]);
    }
    if order::moved(names, seq![name, "last"@]).1 is Ok {
        order::an_order_puts_its_directive_in_place(names, seq![name, "last"@]);
    }
    if order::moved(names, seq![name, "before"@, other]).1 is Ok {
        order::an_order_puts_its_directive_in_place(names, seq![name, "before"@, other]);
    }
    if order::moved(names, seq![name, "after"@, other]).1 is Ok {
        order::an_order_puts_its_directive_in_place(names, seq![name, "after"@, other]);
    }
}

} // verus!
