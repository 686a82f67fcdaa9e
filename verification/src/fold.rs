//! Reading a block one directive after the other.

use crate::error;
use crate::error::{AdapterError, ErrorV};
use crate::syntax;
use crate::syntax::{Directive, DirectiveV};
use vstd::prelude::*;

verus! {

/// The state that `step` leads to from `state` over the directives of `list`, in order; the
/// first directive that `step` refuses decides.
pub open spec fn fold<S>(
    step: spec_fn(S, DirectiveV) -> Result<S, ErrorV>,
    state: S,
    list: Seq<DirectiveV>,
) -> Result<S, ErrorV>
    decreases list.len(),
{
    if list.len() == 0 {
        Ok(state)
    } else {
        match step(state, list[0]) {
            Ok(next) => fold(step, next, list.drop_first()),
            Err(e) => Err(e),
        }
    }
}

/// A list is read as its front is, and then its last directive.
pub proof fn a_last_directive_is_read_last<S>(
    step: spec_fn(S, DirectiveV) -> Result<S, ErrorV>,
    state: S,
    front: Seq<DirectiveV>,
    last: DirectiveV,
)
    ensures
        fold(step, state, front.push(last)) == (match fold(step, state, front) {
            Ok(next) => step(next, last),
            Err(e) => Err(e),
        }),
    decreases front.len(),
{
    let list = front.push(last);
    if front.len() == 0 {
        assert(list.drop_first() =~= Seq::empty());
        if step(state, last) is Ok {
            assert(fold(step, step(state, last)->Ok_0, Seq::empty()) == step(state, last));
        }
    } else {
        assert(list.drop_first() =~= front.drop_first().push(last));
        if step(state, front[0]) is Ok {
            a_last_directive_is_read_last(
                step,
                step(state, front[0])->Ok_0,
                front.drop_first(),
                last,
            );
        }
    }
}

/// A list of one directive is read as that directive is.
pub proof fn a_lone_directive_is_read_by_itself<S>(
    step: spec_fn(S, DirectiveV) -> Result<S, ErrorV>,
    state: S,
    d: DirectiveV,
)
    ensures
        fold(step, state, seq![d]) == step(state, d),
{
    a_last_directive_is_read_last(step, state, Seq::empty(), d);
    assert(Seq::<DirectiveV>::empty().push(d) =~= seq![d]);
}

/// Runs `f` over the directives of `list`, in order, until it refuses one.
pub fn fold_directives<S: DeepView, F: Fn(S, &Directive) -> Result<S, AdapterError>>(
    f: F,
    init: S,
    list: &Vec<Directive>,
    step: Ghost<spec_fn(S::V, DirectiveV) -> Result<S::V, ErrorV>>,
) -> (r: Result<S, AdapterError>)
    requires
        forall|s: S, i: int|
            0 <= i < list@.len() ==> #[trigger] f.requires((s, &list@[i])),
        forall|s: S, d: &Directive, r: Result<S, AdapterError>| #[trigger]
            f.ensures((s, d), r) ==> error::outcome(r) == (step@)(s.deep_view(), d.deep_view()),
    ensures
        error::outcome(r) == fold(step@, init.deep_view(), syntax::directives_view(list@)),
{
    let mut state = init;
    let mut i: usize = 0;
    let ghost all = syntax::directives_view(list@);
    assert(all.skip(0) =~= all);
    while i < list.len()
        invariant
            i <= list.len(),
            all == syntax::directives_view(list@),
            forall|s: S, i: int|
                0 <= i < list@.len() ==> #[trigger] f.requires((s, &list@[i])),
            forall|s: S, d: &Directive, r: Result<S, AdapterError>| #[trigger]
                f.ensures((s, d), r) ==> error::outcome(r) == (step@)(
                    s.deep_view(),
                    d.deep_view(),
                ),
            fold(step@, init.deep_view(), all) == fold(
                step@,
                state.deep_view(),
                all.skip(i as int),
            ),
        decreases list.len() - i,
    {
        assert(all.skip(i as int)[0] == list@[i as int].deep_view());
        assert(all.skip(i as int).drop_first() =~= all.skip(i + 1));
        match f(state, &list[i]) {
            Ok(next) => {
                state = next;
            },
            Err(e) => {
                return Err(e);
            },
        }
        i += 1;
    }
    Ok(state)
}

/// What `f` makes of the texts of `list`, in order; the first that it refuses decides.
pub open spec fn each<T>(f: spec_fn(Seq<char>) -> Result<T, ErrorV>, list: Seq<Seq<char>>) -> Result<
    Seq<T>,
    ErrorV,
>
    decreases list.len(),
{
    if list.len() == 0 {
        Ok(Seq::empty())
    } else {
        match each(f, list.drop_last()) {
            Err(e) => Err(e),
            Ok(front) => match f(list.last()) {
                Err(e) => Err(e),
                Ok(t) => Ok(front.push(t)),
            },
        }
    }
}

/// A prefix that is refused decides the whole list.
pub proof fn lemma_each_fails<T>(
    f: spec_fn(Seq<char>) -> Result<T, ErrorV>,
    list: Seq<Seq<char>>,
    n: int,
)
    requires
        0 <= n <= list.len(),
        each(f, list.take(n)) is Err,
    ensures
        each(f, list) == each(f, list.take(n)),
    decreases list.len() - n,
{
    if n == list.len() {
        assert(list.take(n) =~= list);
    } else {
        assert(list.take(n + 1).drop_last() =~= list.take(n));
        lemma_each_fails(f, list, n + 1);
    }
}

/// Runs `f` over the texts of `list`, in order, until it refuses one.
pub fn each_text<T: DeepView, F: Fn(&str) -> Result<T, AdapterError>>(
    f: F,
    list: &Vec<String>,
    g: Ghost<spec_fn(Seq<char>) -> Result<T::V, ErrorV>>,
) -> (r: Result<Vec<T>, AdapterError>)
    requires
        forall|s: &str| #[trigger] f.requires((s,)),
        forall|s: &str, r: Result<T, AdapterError>| #[trigger]
            f.ensures((s,), r) ==> error::outcome(r) == (g@)(s@),
    ensures
        error::outcome(r) == each(g@, list.deep_view()),
{
    let mut out: Vec<T> = Vec::new();
    let mut i: usize = 0;
    let ghost all = list.deep_view();
    assert(out.deep_view() =~= Seq::<T::V>::empty());
    while i < list.len()
        invariant
            i <= list.len(),
            all == list.deep_view(),
            forall|s: &str| #[trigger] f.requires((s,)),
            forall|s: &str, r: Result<T, AdapterError>| #[trigger]
                f.ensures((s,), r) ==> error::outcome(r) == (g@)(s@),
            each(g@, all.take(i as int)) == Ok::<Seq<T::V>, ErrorV>(out.deep_view()),
        decreases list.len() - i,
    {
        assert(all.take(i + 1).drop_last() =~= all.take(i as int));
        assert(all.take(i + 1).last() == list@[i as int]@);
        match f(list[i].as_str()) {
            Ok(t) => {
                let ghost held = out.deep_view();
                out.push(t);
                assert(out.deep_view() =~= held.push(t.deep_view()));
            },
            Err(e) => {
                proof {
                    lemma_each_fails(g@, all, i + 1);
                }
                return Err(e);
            },
        }
        i += 1;
    }
    assert(all.take(all.len() as int) =~= all);
    Ok(out)
}

} // verus!
