//! Named matchers: sets of conditions.
//!
//! In a set, conditions of the same kind are alternatives, and different kinds must all hold.

use crate::adapter::args::{args_from, extend};
use crate::adapter::matchers;
use crate::adapter::matchers::{conjoin, disjoin, parse_matchers, parse_single_matcher_at};
use crate::adapter::profile::Profile;
use crate::ast::matcher::{
    HeaderMatcherV, HttpMethod, PathMatcher, PathMatcherV, QueryMatcherV,
};
use crate::ast::tree::{copy_matcher, Matcher, MatcherV};
use crate::duplicate::Duplicate;
use crate::error;
use crate::error::{invalid, miscount, AdapterError, ErrorV};
use crate::fold;
use crate::syntax;
use crate::syntax::{Directive, DirectiveV};
use crate::text::same;
use vstd::prelude::*;

verus! {

// ---------------------------------------------------------------------------
// Sets of conditions
// ---------------------------------------------------------------------------
/// The kinds of conditions, as far as a set tells them apart.
#[derive(Debug, Clone, Copy, PartialEq, Eq, Structural)]
pub enum Kind {
    Header,
    Query,
    Path,
    Method,
    Host,
    RemoteIp,
    Other,
}

/// The kind of a condition.
pub open spec fn kind(m: MatcherV) -> Kind {
    match m {
        MatcherV::Header(_) => Kind::Header,
        MatcherV::Query(_) => Kind::Query,
        MatcherV::Path(_) => Kind::Path,
        MatcherV::Method(_) => Kind::Method,
        MatcherV::Host(_) => Kind::Host,
        MatcherV::RemoteIp(_) => Kind::RemoteIp,
        _ => Kind::Other,
    }
}

/// The conditions of one kind, in order.
pub open spec fn of_kind(list: Seq<MatcherV>, k: Kind) -> Seq<MatcherV>
    decreases list.len(),
{
    if list.len() == 0 {
        Seq::empty()
    } else if kind(list.last()) == k {
        of_kind(list.drop_last(), k).push(list.last())
    } else {
        of_kind(list.drop_last(), k)
    }
}

/// The field that a condition is about.
pub open spec fn field(m: MatcherV) -> Seq<char> {
    match m {
        MatcherV::Header(h) => h.name,
        MatcherV::Query(q) => q.name,
        _ => Seq::empty(),
    }
}

/// The fields that conditions are about, each once, in the order of their first mention.
pub open spec fn fields(list: Seq<MatcherV>) -> Seq<Seq<char>>
    decreases list.len(),
{
    if list.len() == 0 {
        Seq::empty()
    } else {
        let front = fields(list.drop_last());
        if front.contains(field(list.last())) {
            front
        } else {
            front.push(field(list.last()))
        }
    }
}

/// The conditions about one field, in order.
pub open spec fn about(list: Seq<MatcherV>, name: Seq<char>) -> Seq<MatcherV>
    decreases list.len(),
{
    if list.len() == 0 {
        Seq::empty()
    } else if field(list.last()) == name {
        about(list.drop_last(), name).push(list.last())
    } else {
        about(list.drop_last(), name)
    }
}

/// For each field, any of the conditions about it.
pub open spec fn groups(list: Seq<MatcherV>) -> Seq<MatcherV> {
    Seq::new(
        fields(list).len(),
        |i: int| matchers::disjunction(about(list, fields(list)[i])),
    )
}

/// The texts that a condition lists.
pub open spec fn listed(m: MatcherV) -> Seq<Seq<char>> {
    match m {
        MatcherV::Path(p) => p.patterns,
        MatcherV::Host(l) => l,
        MatcherV::RemoteIp(l) => l,
        _ => Seq::empty(),
    }
}

/// The texts that conditions of one kind list, together.
pub open spec fn all_listed(list: Seq<MatcherV>, k: Kind) -> Seq<Seq<char>>
    decreases list.len(),
{
    if list.len() == 0 {
        Seq::empty()
    } else if kind(list.last()) == k {
        all_listed(list.drop_last(), k) + listed(list.last())
    } else {
        all_listed(list.drop_last(), k)
    }
}

/// The methods that conditions list, together.
pub open spec fn all_methods(list: Seq<MatcherV>) -> Seq<HttpMethod>
    decreases list.len(),
{
    if list.len() == 0 {
        Seq::empty()
    } else {
        match list.last() {
            MatcherV::Method(l) => all_methods(list.drop_last()) + l,
            _ => all_methods(list.drop_last()),
        }
    }
}

/// A condition over a list, unless the list is empty.
pub open spec fn unless_empty<T>(list: Seq<T>, m: MatcherV) -> Seq<MatcherV> {
    if list.len() > 0 {
        seq![m]
    } else {
        Seq::empty()
    }
}

/// The conditions of a set, with those of the same kind made into one.
pub open spec fn parts(list: Seq<MatcherV>) -> Seq<MatcherV> {
    let paths = all_listed(list, Kind::Path);
    let methods = all_methods(list);
    let hosts = all_listed(list, Kind::Host);
    let remotes = all_listed(list, Kind::RemoteIp);
    groups(of_kind(list, Kind::Header)) + groups(of_kind(list, Kind::Query)) + unless_empty(
        paths,
        MatcherV::Path(PathMatcherV { patterns: paths }),
    ) + unless_empty(methods, MatcherV::Method(methods)) + unless_empty(
        hosts,
        MatcherV::Host(hosts),
    ) + unless_empty(remotes, MatcherV::RemoteIp(remotes)) + of_kind(list, Kind::Other)
}

/// The one condition that a set stands for.
pub open spec fn merged(list: Seq<MatcherV>) -> MatcherV {
    matchers::conjunction(parts(list))
}

/// A condition that lists nothing.
pub open spec fn blank(m: MatcherV) -> bool {
    match m {
        MatcherV::Path(p) => p.patterns.len() == 0,
        MatcherV::Method(l) => l.len() == 0,
        MatcherV::Host(l) => l.len() == 0,
        MatcherV::RemoteIp(l) => l.len() == 0,
        _ => false,
    }
}

/// A condition that says something makes a part of the set.
proof fn lemma_parts_nonempty(list: Seq<MatcherV>, i: int)
    requires
        0 <= i < list.len(),
        !blank(list[i]),
    ensures
        match kind(list[i]) {
            Kind::Header => fields(of_kind(list, Kind::Header)).len() > 0,
            Kind::Query => fields(of_kind(list, Kind::Query)).len() > 0,
            Kind::Path => all_listed(list, Kind::Path).len() > 0,
            Kind::Method => all_methods(list).len() > 0,
            Kind::Host => all_listed(list, Kind::Host).len() > 0,
            Kind::RemoteIp => all_listed(list, Kind::RemoteIp).len() > 0,
            Kind::Other => of_kind(list, Kind::Other).len() > 0,
        },
        parts(list).len() > 0,
    decreases list.len(),
{
    let front = list.drop_last();
    if i < front.len() {
        assert(front[i] == list[i]);
        lemma_parts_nonempty(front, i);
        let k = kind(list[i]);
        if k == kind(list.last()) && (k == Kind::Header || k == Kind::Query) {
            assert(of_kind(list, k).drop_last() =~= of_kind(front, k));
        }
    } else {
        let k = kind(list[i]);
        if k == Kind::Header || k == Kind::Query {
            assert(of_kind(list, k).drop_last() =~= of_kind(front, k));
        }
    }
}

/// A field that is mentioned has a condition about it.
proof fn lemma_about(list: Seq<MatcherV>, name: Seq<char>)
    ensures
        fields(list).contains(name) <==> about(list, name).len() > 0,
        fields(list).no_duplicates(),
    decreases list.len(),
{
    if list.len() > 0 {
        let front = list.drop_last();
        lemma_about(front, name);
        let held = fields(front);
        let last = field(list.last());
        if !held.contains(last) {
            let out = held.push(last);
            assert(out.contains(name) <==> held.contains(name) || name == last) by {
                if held.contains(name) {
                    let k = choose|k: int| 0 <= k < held.len() && held[k] == name;
                    assert(out[k] == name);
                }
                if name == last {
                    assert(out[held.len() as int] == name);
                }
                if out.contains(name) {
                    let k = choose|k: int| 0 <= k < out.len() && out[k] == name;
                    if k < held.len() {
                        assert(held[k] == name);
                    }
                }
            }
            assert forall|i: int, j: int|
                0 <= i < out.len() && 0 <= j < out.len() && i != j implies out[i] != out[j] by {
                if i < held.len() {
                    assert(held.contains(held[i]));
                }
                if j < held.len() {
                    assert(held.contains(held[j]));
                }
            }
        }
    }
}

fn kind_of(m: &Matcher) -> (r: Kind)
    ensures
        r == kind(m.deep_view()),
{
    match m {
        Matcher::Header(_) => Kind::Header,
        Matcher::Query(_) => Kind::Query,
        Matcher::Path(_) => Kind::Path,
        Matcher::Method(_) => Kind::Method,
        Matcher::Host(_) => Kind::Host,
        Matcher::RemoteIp(_) => Kind::RemoteIp,
        _ => Kind::Other,
    }
}

fn select(list: &Vec<Matcher>, k: Kind) -> (r: Vec<Matcher>)
    ensures
        r.deep_view() == of_kind(list.deep_view(), k),
{
    let ghost all = list.deep_view();
    let mut out: Vec<Matcher> = Vec::new();
    let mut i: usize = 0;
    assert(out.deep_view() =~= of_kind(all.take(0), k));
    while i < list.len()
        invariant
            i <= list.len(),
            all == list.deep_view(),
            out.deep_view() == of_kind(all.take(i as int), k),
        decreases list.len() - i,
    {
        assert(all.take(i + 1).drop_last() =~= all.take(i as int));
        assert(all.take(i + 1).last() == list@[i as int].deep_view());
        if kind_of(&list[i]) == k {
            let ghost held = out.deep_view();
            out.push(copy_matcher(&list[i]));
            assert(out.deep_view() =~= held.push(list@[i as int].deep_view()));
        }
        i += 1;
    }
    assert(all.take(i as int) =~= all);
    out
}

fn field_of<'a>(m: &'a Matcher) -> (r: &'a str)
    ensures
        r@ == field(m.deep_view()),
{
    match m {
        Matcher::Header(h) => h.name.as_str(),
        Matcher::Query(q) => q.name.as_str(),
        _ => {
            proof {
                reveal_strlit("");
            }
            assert(""@ =~= Seq::<char>::empty());
            ""
        },
    }
}

fn collect_fields(list: &Vec<Matcher>) -> (r: Vec<String>)
    ensures
        r.deep_view() == fields(list.deep_view()),
{
    let ghost all = list.deep_view();
    let mut out: Vec<String> = Vec::new();
    let mut i: usize = 0;
    assert(out.deep_view() =~= fields(all.take(0)));
    while i < list.len()
        invariant
            i <= list.len(),
            all == list.deep_view(),
            out.deep_view() == fields(all.take(i as int)),
        decreases list.len() - i,
    {
        assert(all.take(i + 1).drop_last() =~= all.take(i as int));
        assert(all.take(i + 1).last() == list@[i as int].deep_view());
        let name = field_of(&list[i]);
        if !crate::text::listed(name, &out) {
            let ghost held = out.deep_view();
            let copy = name.to_owned();
            out.push(copy);
            assert(out.deep_view() =~= held.push(copy@));
        }
        i += 1;
    }
    assert(all.take(i as int) =~= all);
    out
}

fn select_about(list: &Vec<Matcher>, name: &str) -> (r: Vec<Matcher>)
    ensures
        r.deep_view() == about(list.deep_view(), name@),
{
    let ghost all = list.deep_view();
    let mut out: Vec<Matcher> = Vec::new();
    let mut i: usize = 0;
    assert(out.deep_view() =~= about(all.take(0), name@));
    while i < list.len()
        invariant
            i <= list.len(),
            all == list.deep_view(),
            out.deep_view() == about(all.take(i as int), name@),
        decreases list.len() - i,
    {
        assert(all.take(i + 1).drop_last() =~= all.take(i as int));
        assert(all.take(i + 1).last() == list@[i as int].deep_view());
        if same(field_of(&list[i]), name) {
            let ghost held = out.deep_view();
            out.push(copy_matcher(&list[i]));
            assert(out.deep_view() =~= held.push(list@[i as int].deep_view()));
        }
        i += 1;
    }
    assert(all.take(i as int) =~= all);
    out
}

fn group(list: &Vec<Matcher>) -> (r: Vec<Matcher>)
    ensures
        r.deep_view() == groups(list.deep_view()),
{
    let names = collect_fields(list);
    let mut out: Vec<Matcher> = Vec::new();
    let mut i: usize = 0;
    while i < names.len()
        invariant
            i <= names.len(),
            names.deep_view() == fields(list.deep_view()),
            out@.len() == i,
            forall|j: int|
                0 <= j < i ==> (#[trigger] out@[j]).deep_view() == matchers::disjunction(
                    about(list.deep_view(), fields(list.deep_view())[j]),
                ),
        decreases names.len() - i,
    {
        let some = select_about(list, names[i].as_str());
        proof {
            assert(names.deep_view()[i as int] == names@[i as int]@);
            assert(fields(list.deep_view()).contains(names@[i as int]@));
            lemma_about(list.deep_view(), names@[i as int]@);
        }
        out.push(disjoin(&some));
        i += 1;
    }
    assert(out.deep_view() =~= groups(list.deep_view()));
    out
}

fn gather(list: &Vec<Matcher>, k: Kind) -> (r: Vec<String>)
    ensures
        r.deep_view() == all_listed(list.deep_view(), k),
{
    let ghost all = list.deep_view();
    let mut out: Vec<String> = Vec::new();
    let mut i: usize = 0;
    assert(out.deep_view() =~= all_listed(all.take(0), k));
    while i < list.len()
        invariant
            i <= list.len(),
            all == list.deep_view(),
            out.deep_view() == all_listed(all.take(i as int), k),
        decreases list.len() - i,
    {
        assert(all.take(i + 1).drop_last() =~= all.take(i as int));
        assert(all.take(i + 1).last() == list@[i as int].deep_view());
        if kind_of(&list[i]) == k {
            match &list[i] {
                Matcher::Path(p) => {
                    extend(&mut out, &p.patterns);
                },
                Matcher::Host(l) => {
                    extend(&mut out, l);
                },
                Matcher::RemoteIp(l) => {
                    extend(&mut out, l);
                },
                _ => {
                    assert(all_listed(all.take(i as int), k) + Seq::<Seq<char>>::empty()
                        =~= all_listed(all.take(i as int), k));
                },
            }
        }
        i += 1;
    }
    assert(all.take(i as int) =~= all);
    out
}

fn gather_methods(list: &Vec<Matcher>) -> (r: Vec<HttpMethod>)
    ensures
        r.deep_view() == all_methods(list.deep_view()),
{
    let ghost all = list.deep_view();
    let mut out: Vec<HttpMethod> = Vec::new();
    let mut i: usize = 0;
    assert(out.deep_view() =~= all_methods(all.take(0)));
    while i < list.len()
        invariant
            i <= list.len(),
            all == list.deep_view(),
            out.deep_view() == all_methods(all.take(i as int)),
        decreases list.len() - i,
    {
        assert(all.take(i + 1).drop_last() =~= all.take(i as int));
        assert(all.take(i + 1).last() == list@[i as int].deep_view());
        if let Matcher::Method(l) = &list[i] {
            let ghost held = out.deep_view();
            let mut more = l.duplicate();
            let ghost added = more.deep_view();
            out.append(&mut more);
            assert(out.deep_view() =~= held + added);
        }
        i += 1;
    }
    assert(all.take(i as int) =~= all);
    out
}

fn append_one(list: &mut Vec<Matcher>, m: Matcher)
    ensures
        final(list).deep_view() == old(list).deep_view() + seq![m.deep_view()],
{
    let ghost held = list.deep_view();
    list.push(m);
    assert(list.deep_view() =~= held + seq![m.deep_view()]);
}

fn append_all(list: &mut Vec<Matcher>, more: Vec<Matcher>)
    ensures
        final(list).deep_view() == old(list).deep_view() + more.deep_view(),
{
    let ghost held = list.deep_view();
    let mut more = more;
    let ghost added = more.deep_view();
    list.append(&mut more);
    assert(list.deep_view() =~= held + added);
}

/// Merges a set of conditions into one: alternatives of the same kind, and all of the kinds.
///
/// Header and query conditions are alternatives where they are about the same field. The fields
/// come in the order of their first mention.
pub fn merge_matcher_set(list: &Vec<Matcher>) -> (r: Matcher)
    requires
        exists|i: int| 0 <= i < list@.len() && !blank((#[trigger] list@[i]).deep_view()),
    ensures
        r.deep_view() == merged(list.deep_view()),
{
    let ghost all = list.deep_view();
    let headers = select(list, Kind::Header);
    let queries = select(list, Kind::Query);
    let paths = gather(list, Kind::Path);
    let methods = gather_methods(list);
    let hosts = gather(list, Kind::Host);
    let remotes = gather(list, Kind::RemoteIp);
    let others = select(list, Kind::Other);
    let mut out = group(&headers);
    append_all(&mut out, group(&queries));
    let ghost mut so_far = out.deep_view();
    assert(so_far + Seq::<MatcherV>::empty() =~= so_far);
    if paths.len() > 0 {
        append_one(&mut out, Matcher::Path(PathMatcher { patterns: paths }));
    }
    proof {
        so_far = out.deep_view();
    }
    assert(so_far + Seq::<MatcherV>::empty() =~= so_far);
    if methods.len() > 0 {
        append_one(&mut out, Matcher::Method(methods));
    }
    proof {
        so_far = out.deep_view();
    }
    assert(so_far + Seq::<MatcherV>::empty() =~= so_far);
    if hosts.len() > 0 {
        append_one(&mut out, Matcher::Host(hosts));
    }
    proof {
        so_far = out.deep_view();
    }
    assert(so_far + Seq::<MatcherV>::empty() =~= so_far);
    if remotes.len() > 0 {
        append_one(&mut out, Matcher::RemoteIp(remotes));
    }
    append_all(&mut out, others);
    assert(out.deep_view() =~= parts(all));
    proof {
        let i = choose|i: int| 0 <= i < list@.len() && !blank((#[trigger] list@[i]).deep_view());
        assert(all[i] == list@[i].deep_view());
        lemma_parts_nonempty(all, i);
    }
    conjoin(&out)
}

// ---------------------------------------------------------------------------
// What a set means
// ---------------------------------------------------------------------------
/// What a request looks like to matchers: which of the listed texts and fields it meets.
pub struct Seen {
    pub path: spec_fn(Seq<char>) -> bool,
    pub header: spec_fn(HeaderMatcherV) -> bool,
    pub query: spec_fn(QueryMatcherV) -> bool,
    pub method: HttpMethod,
    pub host: spec_fn(Seq<char>) -> bool,
    pub remote: spec_fn(Seq<char>) -> bool,
    pub protocol: spec_fn(Seq<char>) -> bool,
    pub named: spec_fn(Seq<char>) -> bool,
}

/// Whether any text of `list` meets `f`.
pub open spec fn any_meets(list: Seq<Seq<char>>, f: spec_fn(Seq<char>) -> bool) -> bool {
    exists|t: Seq<char>| #[trigger] list.contains(t) && f(t)
}

/// Whether a request meets a condition.
pub open spec fn met(m: MatcherV, seen: Seen) -> bool
    decreases m,
{
    match m {
        MatcherV::Path(p) => any_meets(p.patterns, seen.path),
        MatcherV::Named(name) => (seen.named)(name),
        MatcherV::And(a, b) => met(*a, seen) && met(*b, seen),
        MatcherV::Or(a, b) => met(*a, seen) || met(*b, seen),
        MatcherV::Not(a) => !met(*a, seen),
        MatcherV::Header(h) => (seen.header)(h),
        MatcherV::Query(q) => (seen.query)(q),
        MatcherV::Method(l) => l.contains(seen.method),
        MatcherV::Host(l) => any_meets(l, seen.host),
        MatcherV::RemoteIp(l) => any_meets(l, seen.remote),
        MatcherV::Protocol(l) => any_meets(l, seen.protocol),
    }
}

/// Whether two conditions of a set are alternatives of each other.
pub open spec fn alike(a: MatcherV, b: MatcherV) -> bool {
    &&& kind(a) == kind(b)
    &&& kind(a) == Kind::Header || kind(a) == Kind::Query ==> field(a) == field(b)
    &&& kind(a) == Kind::Other ==> a == b
}

/// Whether a request meets `m` or an alternative of it.
pub open spec fn kind_met(list: Seq<MatcherV>, m: MatcherV, seen: Seen) -> bool {
    exists|n: MatcherV| #[trigger] list.contains(n) && alike(m, n) && met(n, seen)
}

proof fn lemma_push_contains<T>(list: Seq<T>, last: T)
    ensures
        forall|t: T|
            #![trigger list.push(last).contains(t)]
            #![trigger list.contains(t)]
            list.push(last).contains(t) <==> list.contains(t) || t == last,
{
    let out = list.push(last);
    assert forall|t: T| out.contains(t) <==> list.contains(t) || t == last by {
        if list.contains(t) {
            let k = choose|k: int| 0 <= k < list.len() && list[k] == t;
            assert(out[k] == t);
        }
        assert(out[list.len() as int] == last);
        if out.contains(t) {
            let k = choose|k: int| 0 <= k < out.len() && out[k] == t;
            if k < list.len() {
                assert(list[k] == t);
            }
        }
    }
}

proof fn lemma_sum_contains<T>(a: Seq<T>, b: Seq<T>)
    ensures
        forall|t: T|
            #![trigger (a + b).contains(t)]
            #![trigger a.contains(t)]
            #![trigger b.contains(t)]
            (a + b).contains(t) <==> a.contains(t) || b.contains(t),
{
    let out = a + b;
    assert forall|t: T| out.contains(t) <==> a.contains(t) || b.contains(t) by {
        if a.contains(t) {
            let k = choose|k: int| 0 <= k < a.len() && a[k] == t;
            assert(out[k] == t);
        }
        if b.contains(t) {
            let k = choose|k: int| 0 <= k < b.len() && b[k] == t;
            assert(out[k + a.len()] == t);
        }
        if out.contains(t) {
            let k = choose|k: int| 0 <= k < out.len() && out[k] == t;
            if k < a.len() {
                assert(a[k] == t);
            } else {
                assert(b[k - a.len()] == t);
            }
        }
    }
}

proof fn lemma_conjunction_met(list: Seq<MatcherV>, seen: Seen)
    requires
        list.len() > 0,
    ensures
        met(matchers::conjunction(list), seen) <==> (forall|m: MatcherV| #[trigger]
            list.contains(m) ==> met(m, seen)),
    decreases list.len(),
{
    if list.len() == 1 {
        assert(list[0] == list.last());
        assert forall|m: MatcherV| #[trigger] list.contains(m) implies m == list[0] by {}
        assert(list.contains(list[0]));
    } else {
        let front = list.drop_last();
        lemma_conjunction_met(front, seen);
        lemma_push_contains(front, list.last());
        assert(front.push(list.last()) =~= list);
        assert(list.contains(list.last()));
    }
}

proof fn lemma_disjunction_met(list: Seq<MatcherV>, seen: Seen)
    requires
        list.len() > 0,
    ensures
        met(matchers::disjunction(list), seen) <==> (exists|m: MatcherV| #[trigger]
            list.contains(m) && met(m, seen)),
    decreases list.len(),
{
    if list.len() == 1 {
        assert forall|m: MatcherV| #[trigger] list.contains(m) implies m == list[0] by {}
        assert(list.contains(list[0]));
    } else {
        let front = list.drop_last();
        lemma_disjunction_met(front, seen);
        lemma_push_contains(front, list.last());
        assert(front.push(list.last()) =~= list);
        assert(list.contains(list.last()));
    }
}

proof fn lemma_of_kind(list: Seq<MatcherV>, k: Kind)
    ensures
        forall|m: MatcherV| #[trigger]
            of_kind(list, k).contains(m) <==> list.contains(m) && kind(m) == k,
    decreases list.len(),
{
    if list.len() > 0 {
        let front = list.drop_last();
        lemma_of_kind(front, k);
        lemma_push_contains(front, list.last());
        lemma_push_contains(of_kind(front, k), list.last());
        assert(front.push(list.last()) =~= list);
    }
}

proof fn lemma_about_contains(list: Seq<MatcherV>, name: Seq<char>)
    ensures
        forall|m: MatcherV| #[trigger]
            about(list, name).contains(m) <==> list.contains(m) && field(m) == name,
    decreases list.len(),
{
    if list.len() > 0 {
        let front = list.drop_last();
        lemma_about_contains(front, name);
        lemma_push_contains(front, list.last());
        lemma_push_contains(about(front, name), list.last());
        assert(front.push(list.last()) =~= list);
    }
}

proof fn lemma_all_listed(list: Seq<MatcherV>, k: Kind, t: Seq<char>)
    ensures
        all_listed(list, k).contains(t) <==> (exists|m: MatcherV| #[trigger]
            list.contains(m) && kind(m) == k && listed(m).contains(t)),
    decreases list.len(),
{
    if list.len() > 0 {
        let front = list.drop_last();
        lemma_all_listed(front, k, t);
        lemma_push_contains(front, list.last());
        lemma_sum_contains(all_listed(front, k), listed(list.last()));
        assert(front.push(list.last()) =~= list);
        assert(list.contains(list.last()));
    }
}

proof fn lemma_all_methods(list: Seq<MatcherV>, t: HttpMethod)
    ensures
        all_methods(list).contains(t) <==> (exists|m: MatcherV| #[trigger]
            list.contains(m) && (m matches MatcherV::Method(l) && l.contains(t))),
    decreases list.len(),
{
    if list.len() > 0 {
        let front = list.drop_last();
        lemma_all_methods(front, t);
        lemma_push_contains(front, list.last());
        if let MatcherV::Method(l) = list.last() {
            lemma_sum_contains(all_methods(front), l);
        }
        assert(front.push(list.last()) =~= list);
        assert(list.contains(list.last()));
    }
}

/// What the conditions about fields come to: one alternative for each field.
proof fn lemma_groups_met(list: Seq<MatcherV>, k: Kind, seen: Seen)
    requires
        k == Kind::Header || k == Kind::Query,
    ensures
        (forall|p: MatcherV| #[trigger]
            groups(of_kind(list, k)).contains(p) ==> met(p, seen)) <==> (forall|m: MatcherV|
         #[trigger]
            list.contains(m) && kind(m) == k ==> kind_met(list, m, seen)),
{
    let some = of_kind(list, k);
    let names = fields(some);
    let made = groups(some);
    lemma_of_kind(list, k);
    if forall|p: MatcherV| #[trigger] made.contains(p) ==> met(p, seen) {
        assert forall|m: MatcherV| #[trigger] list.contains(m) && kind(m) == k implies kind_met(
            list,
            m,
            seen,
        ) by {
            assert(some.contains(m));
            lemma_about_contains(some, field(m));
            let own = about(some, field(m));
            assert(own.contains(m));
            lemma_about(some, field(m));
            assert(own.len() > 0);
            let q = choose|q: int| 0 <= q < names.len() && names[q] == field(m);
            assert(made[q] == matchers::disjunction(own));
            assert(made.contains(made[q]));
            lemma_disjunction_met(own, seen);
            let n = choose|n: MatcherV| #[trigger] own.contains(n) && met(n, seen);
            assert(some.contains(n));
            assert(list.contains(n) && alike(m, n));
        }
    }
    if forall|m: MatcherV| #[trigger] list.contains(m) && kind(m) == k ==> kind_met(
        list,
        m,
        seen,
    ) {
        assert forall|p: MatcherV| #[trigger] made.contains(p) implies met(p, seen) by {
            let q = choose|q: int| 0 <= q < made.len() && made[q] == p;
            let own = about(some, names[q]);
            assert(names.contains(names[q]));
            lemma_about(some, names[q]);
            lemma_about_contains(some, names[q]);
            assert(own.contains(own[0]));
            let m = own[0];
            assert(some.contains(m));
            assert(list.contains(m) && kind(m) == k);
            assert(kind_met(list, m, seen));
            let n = choose|n: MatcherV| #[trigger]
                list.contains(n) && alike(m, n) && met(n, seen);
            assert(some.contains(n));
            assert(own.contains(n));
            lemma_disjunction_met(own, seen);
        }
    }
}

/// What the conditions that list texts come to: any of the texts.
proof fn lemma_listed_met(list: Seq<MatcherV>, k: Kind, f: spec_fn(Seq<char>) -> bool, seen: Seen)
    requires
        match k {
            Kind::Path => f == seen.path,
            Kind::Host => f == seen.host,
            Kind::RemoteIp => f == seen.remote,
            _ => false,
        },
    ensures
        (all_listed(list, k).len() > 0 ==> any_meets(all_listed(list, k), f)) <==> (forall|
            m: MatcherV,
        | #[trigger]
            list.contains(m) && kind(m) == k && !blank(m) ==> kind_met(list, m, seen)),
{
    let texts = all_listed(list, k);
    if texts.len() > 0 ==> any_meets(texts, f) {
        assert forall|m: MatcherV| #[trigger]
            list.contains(m) && kind(m) == k && !blank(m) implies kind_met(list, m, seen) by {
            assert(listed(m).contains(listed(m)[0]));
            lemma_all_listed(list, k, listed(m)[0]);
            assert(texts.len() > 0);
            let t = choose|t: Seq<char>| #[trigger] texts.contains(t) && f(t);
            lemma_all_listed(list, k, t);
            let n = choose|n: MatcherV| #[trigger]
                list.contains(n) && kind(n) == k && listed(n).contains(t);
            assert(met(n, seen));
            assert(alike(m, n));
        }
    }
    if forall|m: MatcherV| #[trigger]
        list.contains(m) && kind(m) == k && !blank(m) ==> kind_met(list, m, seen) {
        if texts.len() > 0 {
            assert(texts.contains(texts[0]));
            lemma_all_listed(list, k, texts[0]);
            let m = choose|m: MatcherV| #[trigger]
                list.contains(m) && kind(m) == k && listed(m).contains(texts[0]);
            assert(!blank(m));
            assert(kind_met(list, m, seen));
            let n = choose|n: MatcherV| #[trigger]
                list.contains(n) && alike(m, n) && met(n, seen);
            let t = choose|t: Seq<char>| #[trigger] listed(n).contains(t) && f(t);
            lemma_all_listed(list, k, t);
            assert(texts.contains(t));
        }
    }
}

/// What the conditions on the method come to: any of the methods.
proof fn lemma_methods_met(list: Seq<MatcherV>, seen: Seen)
    ensures
        (all_methods(list).len() > 0 ==> all_methods(list).contains(seen.method)) <==> (forall|
            m: MatcherV,
        | #[trigger]
            list.contains(m) && kind(m) == Kind::Method && !blank(m) ==> kind_met(
                list,
                m,
                seen,
            )),
{
    let methods = all_methods(list);
    lemma_all_methods(list, seen.method);
    if methods.len() > 0 ==> methods.contains(seen.method) {
        assert forall|m: MatcherV| #[trigger]
            list.contains(m) && kind(m) == Kind::Method && !blank(m) implies kind_met(
            list,
            m,
            seen,
        ) by {
            if let MatcherV::Method(l) = m {
                assert(l.contains(l[0]));
                lemma_all_methods(list, l[0]);
                assert(methods.len() > 0);
                let n = choose|n: MatcherV| #[trigger]
                    list.contains(n) && (n matches MatcherV::Method(l) && l.contains(
                        seen.method,
                    ));
                assert(met(n, seen) && alike(m, n));
            }
        }
    }
    if forall|m: MatcherV| #[trigger]
        list.contains(m) && kind(m) == Kind::Method && !blank(m) ==> kind_met(list, m, seen) {
        if methods.len() > 0 {
            assert(methods.contains(methods[0]));
            lemma_all_methods(list, methods[0]);
            let m = choose|m: MatcherV| #[trigger]
                list.contains(m) && (m matches MatcherV::Method(l) && l.contains(methods[0]));
            assert(kind_met(list, m, seen));
            let n = choose|n: MatcherV| #[trigger]
                list.contains(n) && alike(m, n) && met(n, seen);
            assert(n is Method);
        }
    }
}

/// The conditions that a set is made into.
proof fn lemma_parts_contains(list: Seq<MatcherV>)
    ensures
        forall|m: MatcherV| #[trigger]
            parts(list).contains(m) <==> {
                ||| groups(of_kind(list, Kind::Header)).contains(m)
                ||| groups(of_kind(list, Kind::Query)).contains(m)
                ||| all_listed(list, Kind::Path).len() > 0 && m == MatcherV::Path(
                    PathMatcherV { patterns: all_listed(list, Kind::Path) },
                )
                ||| all_methods(list).len() > 0 && m == MatcherV::Method(all_methods(list))
                ||| all_listed(list, Kind::Host).len() > 0 && m == MatcherV::Host(
                    all_listed(list, Kind::Host),
                )
                ||| all_listed(list, Kind::RemoteIp).len() > 0 && m == MatcherV::RemoteIp(
                    all_listed(list, Kind::RemoteIp),
                )
                ||| of_kind(list, Kind::Other).contains(m)
            },
{
    let paths = all_listed(list, Kind::Path);
    let methods = all_methods(list);
    let hosts = all_listed(list, Kind::Host);
    let remotes = all_listed(list, Kind::RemoteIp);
    let a = groups(of_kind(list, Kind::Header));
    let b = groups(of_kind(list, Kind::Query));
    let c = unless_empty(paths, MatcherV::Path(PathMatcherV { patterns: paths }));
    let d = unless_empty(methods, MatcherV::Method(methods));
    let e = unless_empty(hosts, MatcherV::Host(hosts));
    let f = unless_empty(remotes, MatcherV::RemoteIp(remotes));
    let g = of_kind(list, Kind::Other);
    lemma_sum_contains(a, b);
    lemma_sum_contains(a + b, c);
    lemma_sum_contains(a + b + c, d);
    lemma_sum_contains(a + b + c + d, e);
    lemma_sum_contains(a + b + c + d + e, f);
    lemma_sum_contains(a + b + c + d + e + f, g);
    lemma_unless_empty(paths, MatcherV::Path(PathMatcherV { patterns: paths }));
    lemma_unless_empty(methods, MatcherV::Method(methods));
    lemma_unless_empty(hosts, MatcherV::Host(hosts));
    lemma_unless_empty(remotes, MatcherV::RemoteIp(remotes));
}

proof fn lemma_unless_empty<T>(list: Seq<T>, m: MatcherV)
    ensures
        forall|n: MatcherV| #[trigger]
            unless_empty(list, m).contains(n) <==> list.len() > 0 && n == m,
{
    let made = unless_empty(list, m);
    assert forall|n: MatcherV| #[trigger] made.contains(n) <==> list.len() > 0 && n == m by {
        if list.len() > 0 {
            assert(made[0] == m);
        }
    }
}

/// In a set, conditions of the same kind are alternatives and different kinds must all hold: a
/// request meets the merged set exactly if, for each condition that lists anything, it meets the
/// condition or an alternative of it.
pub proof fn a_set_holds_if_each_kind_does(list: Seq<MatcherV>, seen: Seen)
    requires
        exists|m: MatcherV| #[trigger] list.contains(m) && !blank(m),
    ensures
        met(merged(list), seen) <==> (forall|m: MatcherV| #[trigger]
            list.contains(m) && !blank(m) ==> kind_met(list, m, seen)),
{
    let w = choose|m: MatcherV| #[trigger] list.contains(m) && !blank(m);
    let i = choose|i: int| 0 <= i < list.len() && list[i] == w;
    lemma_parts_nonempty(list, i);
    lemma_conjunction_met(parts(list), seen);
    lemma_parts_contains(list);
    lemma_groups_met(list, Kind::Header, seen);
    lemma_groups_met(list, Kind::Query, seen);
    lemma_listed_met(list, Kind::Path, seen.path, seen);
    lemma_listed_met(list, Kind::Host, seen.host, seen);
    lemma_listed_met(list, Kind::RemoteIp, seen.remote, seen);
    lemma_methods_met(list, seen);
    lemma_of_kind(list, Kind::Other);
    let all = parts(list);
    if forall|m: MatcherV| #[trigger] all.contains(m) ==> met(m, seen) {
        assert(all.contains(
            MatcherV::Path(PathMatcherV { patterns: all_listed(list, Kind::Path) }),
        ) || all_listed(list, Kind::Path).len() == 0);
        assert(all.contains(MatcherV::Method(all_methods(list))) || all_methods(list).len() == 0);
        assert(all.contains(MatcherV::Host(all_listed(list, Kind::Host))) || all_listed(
            list,
            Kind::Host,
        ).len() == 0);
        assert(all.contains(MatcherV::RemoteIp(all_listed(list, Kind::RemoteIp))) || all_listed(
            list,
            Kind::RemoteIp,
        ).len() == 0);
        assert forall|p: MatcherV| #[trigger]
            groups(of_kind(list, Kind::Header)).contains(p) implies met(p, seen) by {
            assert(all.contains(p));
        }
        assert forall|p: MatcherV| #[trigger]
            groups(of_kind(list, Kind::Query)).contains(p) implies met(p, seen) by {
            assert(all.contains(p));
        }
        assert forall|m: MatcherV| #[trigger] list.contains(m) && !blank(m) implies kind_met(
            list,
            m,
            seen,
        ) by {
            if kind(m) == Kind::Other {
                assert(of_kind(list, Kind::Other).contains(m));
                assert(all.contains(m));
                assert(alike(m, m));
            }
        }
    }
    if forall|m: MatcherV| #[trigger] list.contains(m) && !blank(m) ==> kind_met(list, m, seen) {
        assert forall|q: MatcherV| #[trigger] all.contains(q) implies met(q, seen) by {
            if of_kind(list, Kind::Other).contains(q) {
                assert(list.contains(q) && kind(q) == Kind::Other);
                assert(kind_met(list, q, seen));
            }
        }
    }
}

// ---------------------------------------------------------------------------
// Definitions
// ---------------------------------------------------------------------------
/// Whether none of the conditions of a set lists anything; so with an empty set.
pub open spec fn all_blank(list: Seq<MatcherV>) -> bool {
    forall|i: int| 0 <= i < list.len() ==> blank(#[trigger] list[i])
}

/// The matcher that a definition states: a set of conditions in a block, or one on the line. A
/// block whose lines list nothing to match is refused like an empty one.
pub open spec fn definition(profile: Profile, d: DirectiveV) -> Result<MatcherV, ErrorV> {
    match d.block {
        Some(lines) => match matchers::conditions(profile, lines, 0) {
            Err(e) => Err(e),
            Ok(list) => if all_blank(list) {
                Err(ErrorV::InvalidArgument(d.name, "Empty matcher block"@))
            } else {
                Ok(merged(list))
            },
        },
        None => if d.args.len() == 0 {
            Err(ErrorV::ArgumentCount(d.name, 1, 0))
        } else {
            matchers::condition(
                profile,
                DirectiveV { name: d.args[0], args: d.args.skip(1), block: None },
                0,
            )
        },
    }
}

fn is_blank(m: &Matcher) -> (r: bool)
    ensures
        r == blank(m.deep_view()),
{
    match m {
        Matcher::Path(p) => p.patterns.len() == 0,
        Matcher::Method(l) => l.len() == 0,
        Matcher::Host(l) => l.len() == 0,
        Matcher::RemoteIp(l) => l.len() == 0,
        _ => false,
    }
}

fn are_blank(list: &Vec<Matcher>) -> (r: bool)
    ensures
        r == all_blank(list.deep_view()),
        !r ==> exists|i: int| 0 <= i < list@.len() && !blank((#[trigger] list@[i]).deep_view()),
{
    let ghost all = list.deep_view();
    let mut i: usize = 0;
    while i < list.len()
        invariant
            i <= list.len(),
            all == list.deep_view(),
            forall|j: int| 0 <= j < i ==> blank(#[trigger] all[j]),
        decreases list.len() - i,
    {
        assert(all[i as int] == list@[i as int].deep_view());
        if !is_blank(&list[i]) {
            assert(!blank(all[i as int]));
            return false;
        }
        i += 1;
    }
    true
}

/// Reads the definition of a named matcher.
pub fn parse_matcher_definition(profile: Profile, d: &Directive) -> (r: Result<
    Matcher,
    AdapterError,
>)
    ensures
        error::outcome(r) == definition(profile, d.deep_view()),
{
    match &d.block {
        Some(block) => {
            let list = parse_matchers(profile, &block.directives, 0)?;
            if are_blank(&list) {
                return Err(invalid(d.name.as_str(), "Empty matcher block"));
            }
            Ok(merge_matcher_set(&list))
        },
        None => {
            if d.args.len() == 0 {
                return Err(miscount(d.name.as_str(), 1, 0));
            }
            let inline = Directive {
                name: d.args[0].clone(),
                args: args_from(&d.args, 1),
                block: None,
            };
            parse_single_matcher_at(profile, &inline, 0)
        },
    }
}

} // verus!
