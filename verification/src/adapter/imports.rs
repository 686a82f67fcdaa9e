//! Snippets, imports and sites without braces.

use crate::error;
use crate::error::{invalid, AdapterError, ErrorV};
use crate::syntax;
use crate::syntax::{copy_directive, copy_directives, Block, Directive, DirectiveV};
use crate::duplicate::Duplicate;
use crate::table::Table;
use crate::text;
use crate::text::{after, before, begins_with, finishes_with, same};
use vstd::prelude::*;

verus! {

// ---------------------------------------------------------------------------
// Snippets
// ---------------------------------------------------------------------------
/// The name of the snippet that a directive `(name)` defines.
pub open spec fn snippet_name(name: Seq<char>) -> Option<Seq<char>> {
    if text::starts_char(name, '(') && text::ends_char(name, ')') {
        Some(name.subrange(1, name.len() - 1))
    } else {
        None
    }
}

/// The lines of a directive's block; none where it has no block.
pub open spec fn body(d: DirectiveV) -> Seq<DirectiveV> {
    match d.block {
        Some(lines) => lines,
        None => Seq::empty(),
    }
}

/// The snippets that `list` defines, on top of those of `held`; a later definition replaces an
/// earlier one.
pub open spec fn snippets(
    held: Map<Seq<char>, Seq<DirectiveV>>,
    list: Seq<DirectiveV>,
) -> Map<Seq<char>, Seq<DirectiveV>>
    decreases list.len(),
{
    if list.len() == 0 {
        held
    } else {
        let front = snippets(held, list.drop_last());
        match snippet_name(list.last().name) {
            Some(name) => front.insert(name, body(list.last())),
            None => front,
        }
    }
}

/// The directives of `list` that define no snippet.
pub open spec fn remaining(list: Seq<DirectiveV>) -> Seq<DirectiveV>
    decreases list.len(),
{
    if list.len() == 0 {
        Seq::empty()
    } else if snippet_name(list.last().name) is Some {
        remaining(list.drop_last())
    } else {
        remaining(list.drop_last()).push(list.last())
    }
}

fn read_snippet_name<'a>(name: &'a str) -> (r: Option<&'a str>)
    ensures
        r.deep_view() == snippet_name(name@),
{
    if begins_with(name, '(') && finishes_with(name, ')') {
        let n: usize = name.unicode_len();
        assert(name@[0] == '(' && name@[name@.len() - 1] == ')');
        let inner = after(before(name, n - 1), 1);
        assert(inner@ =~= name@.subrange(1, name@.len() - 1));
        Some(inner)
    } else {
        None
    }
}

fn copy_body(d: &Directive) -> (r: Vec<Directive>)
    ensures
        r.deep_view() == body(d.deep_view()),
{
    match &d.block {
        Some(block) => {
            let copy = copy_directives(&block.directives);
            proof {
                syntax::lemma_directives_view(copy);
            }
            copy
        },
        None => {
            let none: Vec<Directive> = Vec::new();
            assert(none.deep_view() =~= Seq::<DirectiveV>::empty());
            none
        },
    }
}

/// Collects the snippets `(name) { ... }` of a configuration, on top of those of `held`, and the
/// directives that remain.
pub fn collect_snippets(held: Table<Vec<Directive>>, list: &Vec<Directive>) -> (r: (
    Table<Vec<Directive>>,
    Vec<Directive>,
))
    ensures
        r.0.deep_view() == snippets(held.deep_view(), syntax::directives_view(list@)),
        r.1.deep_view() == remaining(syntax::directives_view(list@)),
{
    let ghost all = syntax::directives_view(list@);
    let mut found = held;
    let mut rest: Vec<Directive> = Vec::new();
    let mut i: usize = 0;
    assert(rest.deep_view() =~= remaining(all.take(0)));
    while i < list.len()
        invariant
            i <= list.len(),
            all == syntax::directives_view(list@),
            found.deep_view() == snippets(held.deep_view(), all.take(i as int)),
            rest.deep_view() == remaining(all.take(i as int)),
        decreases list.len() - i,
    {
        assert(all.take(i + 1).drop_last() =~= all.take(i as int));
        assert(all.take(i + 1).last() == list@[i as int].deep_view());
        match read_snippet_name(list[i].name.as_str()) {
            Some(name) => {
                found.insert(name.to_owned(), copy_body(&list[i]));
            },
            None => {
                let ghost before = rest.deep_view();
                rest.push(copy_directive(&list[i]));
                assert(rest.deep_view() =~= before.push(list@[i as int].deep_view()));
            },
        }
        i += 1;
    }
    assert(all.take(i as int) =~= all);
    (found, rest)
}

// ---------------------------------------------------------------------------
// Imports
// ---------------------------------------------------------------------------
/// How deeply imports and blocks may nest.
pub const MAX_IMPORT_DEPTH: usize = 16;

/// `list` with each `import` replaced by what it names, inside blocks too; `depth` levels are
/// already open. An `import` that names nothing is replaced by nothing.
pub open spec fn imported(
    list: Seq<DirectiveV>,
    named: Map<Seq<char>, Seq<DirectiveV>>,
    depth: int,
) -> Result<Seq<DirectiveV>, ErrorV>
    decreases MAX_IMPORT_DEPTH + 1 - depth, list.len(),
{
    if depth > MAX_IMPORT_DEPTH {
        Err(ErrorV::RecursiveSnippet("nesting too deep"@))
    } else if list.len() == 0 {
        Ok(Seq::empty())
    } else {
        let d = list.last();
        match imported(list.drop_last(), named, depth) {
            Err(e) => Err(e),
            Ok(front) => if d.name == "import"@ {
                if d.args.len() == 0 {
                    Ok(front)
                } else if !named.dom().contains(d.args[0]) {
                    Err(ErrorV::UndefinedSnippet(d.args[0]))
                } else {
                    match imported(named[d.args[0]], named, depth + 1) {
                        Err(e) => Err(e),
                        Ok(more) => Ok(front + more),
                    }
                }
            } else {
                match d.block {
                    None => Ok(front.push(d)),
                    Some(lines) => match imported(lines, named, depth + 1) {
                        Err(e) => Err(e),
                        Ok(inner) => Ok(front.push(DirectiveV { block: Some(inner), ..d })),
                    },
                }
            },
        }
    }
}

proof fn lemma_import_fails(
    list: Seq<DirectiveV>,
    named: Map<Seq<char>, Seq<DirectiveV>>,
    depth: int,
    n: int,
)
    requires
        0 <= n <= list.len(),
        depth <= MAX_IMPORT_DEPTH,
        imported(list.take(n), named, depth) is Err,
    ensures
        imported(list, named, depth) == imported(list.take(n), named, depth),
    decreases list.len() - n,
{
    if n == list.len() {
        assert(list.take(n) =~= list);
    } else {
        assert(list.take(n + 1).drop_last() =~= list.take(n));
        lemma_import_fails(list, named, depth, n + 1);
    }
}

/// The directive at a place: which one of `list`, then which one of its block or, for an import,
/// of what it names, and so on.
pub open spec fn reached(
    list: Seq<DirectiveV>,
    named: Map<Seq<char>, Seq<DirectiveV>>,
    place: Seq<int>,
) -> Option<DirectiveV>
    decreases place.len(),
{
    if place.len() == 0 || !(0 <= place[0] < list.len()) {
        None
    } else if place.len() == 1 {
        Some(list[place[0]])
    } else {
        let d = list[place[0]];
        let inner = if d.name != "import"@ {
            d.block
        } else if d.args.len() > 0 && named.dom().contains(d.args[0]) {
            Some(named[d.args[0]])
        } else {
            None
        };
        match inner {
            Some(lines) => reached(lines, named, place.skip(1)),
            None => None,
        }
    }
}

/// Imports cannot be replaced where one of them names something that is not there, be it in a
/// block or in what another import names.
pub proof fn an_import_of_something_unknown_fails(
    list: Seq<DirectiveV>,
    named: Map<Seq<char>, Seq<DirectiveV>>,
    depth: int,
    place: Seq<int>,
)
    requires
        reached(list, named, place) matches Some(d) && d.name == "import"@ && d.args.len() > 0
            && !named.dom().contains(d.args[0]),
    ensures
        imported(list, named, depth) is Err,
    decreases place.len(),
{
    if depth <= MAX_IMPORT_DEPTH {
        let i = place[0];
        let front = list.take(i + 1);
        assert(front.last() == list[i]);
        if place.len() > 1 {
            let d = list[i];
            let inner = if d.name != "import"@ {
                d.block->Some_0
            } else {
                named[d.args[0]]
            };
            an_import_of_something_unknown_fails(inner, named, depth + 1, place.skip(1));
        }
        assert(imported(front, named, depth) is Err);
        lemma_import_fails(list, named, depth, i + 1);
    }
}

/// Only what is named already, or what a definition in `list` names, can be imported.
pub proof fn lemma_not_a_snippet(
    held: Map<Seq<char>, Seq<DirectiveV>>,
    list: Seq<DirectiveV>,
    name: Seq<char>,
)
    requires
        !held.dom().contains(name),
        forall|i: int| 0 <= i < list.len() ==> snippet_name((#[trigger] list[i]).name) != Some(name),
    ensures
        !snippets(held, list).dom().contains(name),
    decreases list.len(),
{
    if list.len() > 0 {
        let front = list.drop_last();
        assert forall|i: int| 0 <= i < front.len() implies snippet_name((#[trigger] front[i]).name)
            != Some(name) by {
            assert(front[i] == list[i]);
        }
        lemma_not_a_snippet(held, front, name);
        assert(snippet_name(list[list.len() - 1].name) != Some(name));
    }
}

/// One directive with its imports replaced: what takes its place.
fn expand_one(d: &Directive, named: &Table<Vec<Directive>>, depth: usize) -> (r: Result<
    Vec<Directive>,
    AdapterError,
>)
    requires
        depth <= MAX_IMPORT_DEPTH,
    ensures
        error::outcome(r) == imported(seq![d.deep_view()], named.deep_view(), depth as int),
    decreases MAX_IMPORT_DEPTH + 1 - depth, 0int,
{
    let ghost one = seq![d.deep_view()];
    assert(one.drop_last() =~= Seq::<DirectiveV>::empty());
    assert(one.last() == d.deep_view());
    assert(imported(one.drop_last(), named.deep_view(), depth as int) == Ok::<
        Seq<DirectiveV>,
        ErrorV,
    >(Seq::empty()));
    let mut out: Vec<Directive> = Vec::new();
    assert(out.deep_view() =~= Seq::<DirectiveV>::empty());
    if same(d.name.as_str(), "import") {
        if d.args.len() == 0 {
            return Ok(out);
        }
        return match named.get(d.args[0].as_str()) {
            None => Err(AdapterError::UndefinedSnippet(d.args[0].clone())),
            Some(lines) => {
                proof {
                    syntax::lemma_directives_view(*lines);
                }
                let more = expand_imports(lines, named, depth + 1)?;
                assert(Seq::<DirectiveV>::empty() + more.deep_view() =~= more.deep_view());
                Ok(more)
            },
        };
    }
    match &d.block {
        None => {
            out.push(copy_directive(d));
            assert(out.deep_view() =~= Seq::<DirectiveV>::empty().push(d.deep_view()));
        },
        Some(block) => {
            let inner = expand_imports(&block.directives, named, depth + 1)?;
            proof {
                syntax::lemma_directives_view(inner);
            }
            let ghost inner_v = inner.deep_view();
            let made = Directive {
                name: d.name.clone(),
                args: d.args.duplicate(),
                block: Some(Block { directives: inner }),
            };
            assert(made.deep_view() == (DirectiveV { block: Some(inner_v), ..d.deep_view() }));
            out.push(made);
            assert(out.deep_view() =~= Seq::<DirectiveV>::empty().push(made.deep_view()));
        },
    }
    Ok(out)
}

/// The imports of a list are those of its directives, one after the other.
proof fn lemma_import_last(
    list: Seq<DirectiveV>,
    named: Map<Seq<char>, Seq<DirectiveV>>,
    depth: int,
    front: Seq<DirectiveV>,
)
    requires
        list.len() > 0,
        depth <= MAX_IMPORT_DEPTH,
        imported(list.drop_last(), named, depth) == Ok::<Seq<DirectiveV>, ErrorV>(front),
    ensures
        imported(list, named, depth) == match imported(seq![list.last()], named, depth) {
            Err(e) => Err(e),
            Ok(more) => Ok::<Seq<DirectiveV>, ErrorV>(front + more),
        },
{
    let one = seq![list.last()];
    assert(one.drop_last() =~= Seq::<DirectiveV>::empty());
    assert(imported(one.drop_last(), named, depth) == Ok::<Seq<DirectiveV>, ErrorV>(
        Seq::empty(),
    ));
    assert(one.last() == list.last());
    match imported(one, named, depth) {
        Err(e) => {},
        Ok(more) => {
            let d = list.last();
            if d.name == "import"@ {
                if d.args.len() == 0 {
                    assert(front + more =~= front);
                } else if let Ok(inner) = imported(named[d.args[0]], named, depth + 1) {
                    assert(Seq::<DirectiveV>::empty() + inner =~= inner);
                }
            } else {
                match d.block {
                    None => {
                        assert(front + more =~= front.push(d));
                    },
                    Some(lines) => {
                        if let Ok(inner) = imported(lines, named, depth + 1) {
                            assert(front + more =~= front.push(
                                DirectiveV { block: Some(inner), ..d },
                            ));
                        }
                    },
                }
            }
        },
    }
}

/// Replaces each `import` by what it names, inside blocks too.
pub fn expand_imports(list: &Vec<Directive>, named: &Table<Vec<Directive>>, depth: usize) -> (r:
    Result<Vec<Directive>, AdapterError>)
    ensures
        error::outcome(r) == imported(
            syntax::directives_view(list@),
            named.deep_view(),
            depth as int,
        ),
    decreases
        if depth <= MAX_IMPORT_DEPTH {
            MAX_IMPORT_DEPTH + 1 - depth
        } else {
            0
        },
        1int,
{
    if depth > MAX_IMPORT_DEPTH {
        return Err(AdapterError::RecursiveSnippet("nesting too deep".to_owned()));
    }
    let ghost all = syntax::directives_view(list@);
    let mut out: Vec<Directive> = Vec::new();
    let mut i: usize = 0;
    assert(out.deep_view() =~= Seq::<DirectiveV>::empty());
    assert(all.take(0).len() == 0);
    while i < list.len()
        invariant
            i <= list.len(),
            depth <= MAX_IMPORT_DEPTH,
            all == syntax::directives_view(list@),
            imported(all.take(i as int), named.deep_view(), depth as int) == Ok::<
                Seq<DirectiveV>,
                ErrorV,
            >(out.deep_view()),
        decreases list.len() - i,
    {
        assert(all.take(i + 1).drop_last() =~= all.take(i as int));
        assert(all.take(i + 1).last() == list@[i as int].deep_view());
        proof {
            lemma_import_last(
                all.take(i + 1),
                named.deep_view(),
                depth as int,
                out.deep_view(),
            );
        }
        match expand_one(&list[i], named, depth) {
            Err(e) => {
                proof {
                    lemma_import_fails(all, named.deep_view(), depth as int, i + 1);
                }
                return Err(e);
            },
            Ok(more) => {
                let ghost held = out.deep_view();
                let ghost added = more.deep_view();
                let mut more = more;
                out.append(&mut more);
                assert(out.deep_view() =~= held + added);
            },
        }
        i += 1;
    }
    assert(all.take(i as int) =~= all);
    Ok(out)
}

/// No import is left in a list that was expanded.
pub open spec fn import_free(list: Seq<DirectiveV>) -> bool
    decreases list,
{
    forall|i: int|
        if 0 <= i < list.len() {
            no_import(#[trigger] list[i])
        } else {
            true
        }
}

/// Neither a directive nor its block is or holds an import.
pub open spec fn no_import(d: DirectiveV) -> bool
    decreases d,
{
    d.name != "import"@ && match d.block {
        Some(lines) => import_free(lines),
        None => true,
    }
}

/// Expansion leaves no import behind, at any depth.
pub proof fn expansion_leaves_no_import(
    list: Seq<DirectiveV>,
    named: Map<Seq<char>, Seq<DirectiveV>>,
    depth: int,
)
    requires
        imported(list, named, depth) is Ok,
    ensures
        import_free(imported(list, named, depth)->Ok_0),
    decreases MAX_IMPORT_DEPTH + 1 - depth, list.len(),
{
    let out = imported(list, named, depth)->Ok_0;
    if list.len() > 0 {
        let d = list.last();
        expansion_leaves_no_import(list.drop_last(), named, depth);
        let front = imported(list.drop_last(), named, depth)->Ok_0;
        assert forall|i: int| 0 <= i < front.len() implies no_import(#[trigger] front[i]) by {
            assert(import_free(front));
        }
        if d.name == "import"@ {
            if d.args.len() > 0 {
                expansion_leaves_no_import(named[d.args[0]], named, depth + 1);
                let more = imported(named[d.args[0]], named, depth + 1)->Ok_0;
                assert forall|i: int| 0 <= i < out.len() implies no_import(#[trigger] out[i]) by {
                    if i >= front.len() {
                        assert(out[i] == more[i - front.len()]);
                        assert(import_free(more));
                    } else {
                        assert(out[i] == front[i]);
                    }
                }
            }
        } else {
            if let Some(lines) = d.block {
                expansion_leaves_no_import(lines, named, depth + 1);
            }
            assert forall|i: int| 0 <= i < out.len() implies no_import(#[trigger] out[i]) by {
                if i < front.len() {
                    assert(out[i] == front[i]);
                }
            }
        }
    }
}

/// A configuration without imports is left as it is, where its blocks are not too deep.
pub proof fn nothing_imported_changes_nothing(
    list: Seq<DirectiveV>,
    named: Map<Seq<char>, Seq<DirectiveV>>,
    depth: int,
)
    requires
        import_free(list),
        0 <= depth,
        depth + syntax::depth_of_all(list) <= MAX_IMPORT_DEPTH,
    ensures
        imported(list, named, depth) == Ok::<Seq<DirectiveV>, ErrorV>(list),
    decreases MAX_IMPORT_DEPTH + 1 - depth, list.len(),
{
    if list.len() > 0 {
        let front = list.drop_last();
        let d = list.last();
        assert(no_import(list[list.len() - 1]));
        syntax::lemma_depth(list, list.len() - 1);
        syntax::lemma_depth_front(list);
        assert forall|i: int| 0 <= i < front.len() implies no_import(#[trigger] front[i]) by {
            assert(front[i] == list[i]);
        }
        nothing_imported_changes_nothing(front, named, depth);
        if let Some(lines) = d.block {
            nothing_imported_changes_nothing(lines, named, depth + 1);
            assert(DirectiveV { block: Some(lines), ..d } == d);
        }
        assert(front.push(d) =~= list);
    } else {
        assert(list =~= Seq::<DirectiveV>::empty());
    }
}

// ---------------------------------------------------------------------------
// Sites without braces
// ---------------------------------------------------------------------------
/// Whether a directive is the global block.
pub open spec fn global_name(name: Seq<char>) -> bool {
    name.len() == 0 || name == "global"@ || name == "options"@
}

/// Whether a directive is the global block.
pub fn is_global_name(name: &str) -> (r: bool)
    ensures
        r == global_name(name@),
{
    name.unicode_len() == 0 || same(name, "global") || same(name, "options")
}

/// Where a top-level directive belongs.
#[derive(Debug, Clone, Copy, PartialEq, Eq, Structural)]
pub enum Place {
    Global,
    Braced,
    Bare,
}

/// Where a top-level directive belongs: to the global options, to a site with braces, or to a site
/// without.
pub open spec fn place(d: DirectiveV) -> Place {
    if global_name(d.name) {
        Place::Global
    } else if d.block is Some {
        Place::Braced
    } else {
        Place::Bare
    }
}

/// The directives of `list` that belong to `p`.
pub open spec fn placed(list: Seq<DirectiveV>, p: Place) -> Seq<DirectiveV>
    decreases list.len(),
{
    if list.len() == 0 {
        Seq::empty()
    } else if place(list.last()) == p {
        placed(list.drop_last(), p).push(list.last())
    } else {
        placed(list.drop_last(), p)
    }
}

/// The global options and the sites, where a single site may omit its braces: its first line is the
/// address, and the lines after it are its content.
pub open spec fn coalesced(list: Seq<DirectiveV>) -> Result<Seq<DirectiveV>, ErrorV> {
    let globals = placed(list, Place::Global);
    let braced = placed(list, Place::Braced);
    let bare = placed(list, Place::Bare);
    if bare.len() == 0 {
        Ok(globals + braced)
    } else if braced.len() > 0 {
        Err(
            ErrorV::InvalidArgument(
                "site address"@,
                "bare (unbraced) directives cannot be mixed with braced site blocks; wrap every site in { } when there is more than one"@,
            ),
        )
    } else if bare.len() == 1 {
        Ok(globals.push(bare[0]))
    } else {
        Ok(globals.push(DirectiveV { block: Some(bare.skip(1)), ..bare[0] }))
    }
}

fn find_place(d: &Directive) -> (r: Place)
    ensures
        r == place(d.deep_view()),
{
    if is_global_name(d.name.as_str()) {
        Place::Global
    } else if d.block.is_some() {
        Place::Braced
    } else {
        Place::Bare
    }
}

fn select_placed(list: &Vec<Directive>, p: Place) -> (r: Vec<Directive>)
    ensures
        r.deep_view() == placed(syntax::directives_view(list@), p),
{
    let ghost all = syntax::directives_view(list@);
    let mut out: Vec<Directive> = Vec::new();
    let mut i: usize = 0;
    assert(out.deep_view() =~= placed(all.take(0), p));
    while i < list.len()
        invariant
            i <= list.len(),
            all == syntax::directives_view(list@),
            out.deep_view() == placed(all.take(i as int), p),
        decreases list.len() - i,
    {
        assert(all.take(i + 1).drop_last() =~= all.take(i as int));
        assert(all.take(i + 1).last() == list@[i as int].deep_view());
        if find_place(&list[i]) == p {
            let ghost held = out.deep_view();
            out.push(copy_directive(&list[i]));
            assert(out.deep_view() =~= held.push(list@[i as int].deep_view()));
        }
        i += 1;
    }
    assert(all.take(i as int) =~= all);
    out
}

/// Puts the lines of a single site without braces into a block.
pub fn coalesce_bare_single_site(list: &Vec<Directive>) -> (r: Result<
    Vec<Directive>,
    AdapterError,
>)
    ensures
        error::outcome(r) == coalesced(syntax::directives_view(list@)),
{
    let mut globals = select_placed(list, Place::Global);
    let mut braced = select_placed(list, Place::Braced);
    let mut bare = select_placed(list, Place::Bare);
    let ghost held = globals.deep_view();
    let ghost bare_v = bare.deep_view();
    assert(bare@.len() == bare_v.len());
    if bare.len() == 0 {
        let ghost more = braced.deep_view();
        globals.append(&mut braced);
        assert(globals.deep_view() =~= held + more);
        return Ok(globals);
    }
    if braced.len() > 0 {
        return Err(
            invalid(
                "site address",
                "bare (unbraced) directives cannot be mixed with braced site blocks; wrap every site in { } when there is more than one",
            ),
        );
    }
    let mut site = bare.remove(0);
    assert(site.deep_view() == bare_v[0]);
    assert(bare.deep_view() =~= bare_v.skip(1));
    if bare.len() > 0 {
        proof {
            syntax::lemma_directives_view(bare);
        }
        site = Directive {
            name: site.name,
            args: site.args,
            block: Some(Block { directives: bare }),
        };
    }
    let ghost made = site.deep_view();
    globals.push(site);
    assert(globals.deep_view() =~= held.push(made));
    Ok(globals)
}

} // verus!
