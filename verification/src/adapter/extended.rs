//! A whole configuration, in the extended profile.

use crate::adapter::caddyfile;
use crate::adapter::caddyfile::{assemble, prepare};
use crate::adapter::imports;
use crate::adapter::imports::is_global_name;
use crate::adapter::order;
use crate::adapter::order::DirectiveOrder;
use crate::adapter::profile::Profile;
use crate::ast::tree::{Ast, AstV, ServerBlockV};
use crate::duplicate::Duplicate;
use crate::error;
use crate::error::{invalid, AdapterError, ErrorV};
use crate::syntax;
use crate::syntax::{Directive, DirectiveV};
use crate::table::Table;
use crate::text;
use crate::text::{cat4, join, listed, same};
use vstd::prelude::*;

verus! {

/// The directive order after the `order` options among `lines`; the first that is malformed decides.
pub open spec fn ordered_by(names: Seq<Seq<char>>, lines: Seq<DirectiveV>) -> Result<
    Seq<Seq<char>>,
    ErrorV,
>
    decreases lines.len(),
{
    if lines.len() == 0 {
        Ok(names)
    } else if lines[0].name == "order"@ {
        match order::moved(names, lines[0].args).1 {
            Err(e) => Err(e),
            Ok(()) => ordered_by(order::moved(names, lines[0].args).0, lines.drop_first()),
        }
    } else {
        ordered_by(names, lines.drop_first())
    }
}

/// The directive order that the global blocks of a configuration ask for.
pub open spec fn requested_order(names: Seq<Seq<char>>, list: Seq<DirectiveV>) -> Result<
    Seq<Seq<char>>,
    ErrorV,
>
    decreases list.len(),
{
    if list.len() == 0 {
        Ok(names)
    } else if imports::global_name(list[0].name) && list[0].block is Some {
        match ordered_by(names, list[0].block->0) {
            Err(e) => Err(e),
            Ok(next) => requested_order(next, list.drop_first()),
        }
    } else {
        requested_order(names, list.drop_first())
    }
}

fn apply_orders(order: DirectiveOrder, lines: &Vec<Directive>) -> (r: Result<
    DirectiveOrder,
    AdapterError,
>)
    ensures
        match r {
            Ok(o) => ordered_by(order@, syntax::directives_view(lines@)) == Ok::<
                Seq<Seq<char>>,
                ErrorV,
            >(o@),
            Err(e) => ordered_by(order@, syntax::directives_view(lines@)) == Err::<
                Seq<Seq<char>>,
                ErrorV,
            >(e.deep_view()),
        },
{
    let ghost all = syntax::directives_view(lines@);
    let mut now = order;
    let mut i: usize = 0;
    assert(all.skip(0) =~= all);
    while i < lines.len()
        invariant
            i <= lines.len(),
            all == syntax::directives_view(lines@),
            ordered_by(order@, all) == ordered_by(now@, all.skip(i as int)),
        decreases lines.len() - i,
    {
        assert(all.skip(i as int)[0] == lines@[i as int].deep_view());
        assert(all.skip(i as int).drop_first() =~= all.skip(i + 1));
        if same(lines[i].name.as_str(), "order") {
            now.apply(&lines[i].args)?;
        }
        i += 1;
    }
    Ok(now)
}

fn find_order(order: DirectiveOrder, list: &Vec<Directive>) -> (r: Result<
    DirectiveOrder,
    AdapterError,
>)
    ensures
        match r {
            Ok(o) => requested_order(order@, syntax::directives_view(list@)) == Ok::<
                Seq<Seq<char>>,
                ErrorV,
            >(o@),
            Err(e) => requested_order(order@, syntax::directives_view(list@)) == Err::<
                Seq<Seq<char>>,
                ErrorV,
            >(e.deep_view()),
        },
{
    let ghost all = syntax::directives_view(list@);
    let mut now = order;
    let mut i: usize = 0;
    assert(all.skip(0) =~= all);
    while i < list.len()
        invariant
            i <= list.len(),
            all == syntax::directives_view(list@),
            requested_order(order@, all) == requested_order(now@, all.skip(i as int)),
        decreases list.len() - i,
    {
        assert(all.skip(i as int)[0] == list@[i as int].deep_view());
        assert(all.skip(i as int).drop_first() =~= all.skip(i + 1));
        if is_global_name(list[i].name.as_str()) {
            if let Some(block) = &list[i].block {
                now = apply_orders(now, &block.directives)?;
            }
        }
        i += 1;
    }
    Ok(now)
}

/// The channels that a configuration declares, in order.
pub open spec fn declared(ast: AstV) -> Seq<Seq<char>> {
    match ast.global {
        Some(g) => match g.logging {
            Some(logging) => logging.declared,
            None => Seq::empty(),
        },
        None => Seq::empty(),
    }
}

/// The first of `names` that is not among `known`.
pub open spec fn stray(names: Seq<Seq<char>>, known: Seq<Seq<char>>) -> Option<Seq<char>>
    decreases names.len(),
{
    if names.len() == 0 {
        None
    } else if known.contains(names[0]) {
        stray(names.drop_first(), known)
    } else {
        Some(names[0])
    }
}

/// The first channel that a site writes to although none of that name is declared.
pub open spec fn stray_channel(servers: Seq<ServerBlockV>, known: Seq<Seq<char>>) -> Option<
    Seq<char>,
>
    decreases servers.len(),
{
    if servers.len() == 0 {
        None
    } else {
        match stray(servers[0].log_channels, known) {
            Some(name) => Some(name),
            None => stray_channel(servers.drop_first(), known),
        }
    }
}

/// A configuration in which each site writes to declared channels only.
pub open spec fn connected(ast: AstV) -> Result<AstV, ErrorV> {
    match stray_channel(ast.servers, declared(ast)) {
        None => Ok(ast),
        Some(name) => Err(
            ErrorV::InvalidArgument(
                "log"@,
                "no channel named `"@ + name + "` is declared; declared channels: "@
                    + text::joined(declared(ast), ", "@),
            ),
        ),
    }
}

fn find_stray(names: &Vec<String>, known: &Vec<String>) -> (r: Option<String>)
    ensures
        r.deep_view() == stray(names.deep_view(), known.deep_view()),
{
    let ghost all = names.deep_view();
    let mut i: usize = 0;
    assert(all.skip(0) =~= all);
    while i < names.len()
        invariant
            i <= names.len(),
            all == names.deep_view(),
            stray(all, known.deep_view()) == stray(all.skip(i as int), known.deep_view()),
        decreases names.len() - i,
    {
        assert(all.skip(i as int)[0] == names@[i as int]@);
        assert(all.skip(i as int).drop_first() =~= all.skip(i + 1));
        if !listed(names[i].as_str(), known) {
            return Some(names[i].clone());
        }
        i += 1;
    }
    None
}

fn connect(ast: Ast) -> (r: Result<Ast, AdapterError>)
    ensures
        error::outcome(r) == connected(ast.deep_view()),
{
    let known = match &ast.global {
        Some(g) => match &g.logging {
            Some(logging) => logging.declared.duplicate(),
            None => Vec::new(),
        },
        None => Vec::new(),
    };
    assert(known.deep_view() =~= declared(ast.deep_view()));
    let ghost all = ast.servers.deep_view();
    let mut i: usize = 0;
    assert(all.skip(0) =~= all);
    while i < ast.servers.len()
        invariant
            i <= ast.servers.len(),
            all == ast.servers.deep_view(),
            all == ast.deep_view().servers,
            known.deep_view() == declared(ast.deep_view()),
            stray_channel(all, known.deep_view()) == stray_channel(
                all.skip(i as int),
                known.deep_view(),
            ),
        decreases ast.servers.len() - i,
    {
        assert(all.skip(i as int)[0] == ast.servers@[i as int].deep_view());
        assert(all.skip(i as int).drop_first() =~= all.skip(i + 1));
        if let Some(name) = find_stray(&ast.servers[i].log_channels, &known) {
            let list = join(&known, ", ");
            let reason = cat4(
                "no channel named `",
                name.as_str(),
                "` is declared; declared channels: ",
                list.as_str(),
            );
            return Err(invalid("log", reason.as_str()));
        }
        i += 1;
    }
    Ok(ast)
}

/// The configuration that generic directives stand for, in the extended profile.
pub open spec fn adapted(named: Map<Seq<char>, Seq<DirectiveV>>, list: Seq<DirectiveV>) -> Result<
    AstV,
    ErrorV,
> {
    match caddyfile::prepared(named, list) {
        Err(e) => Err(e),
        Ok(all) => match requested_order(order::default_order(), all) {
            Err(e) => Err(e),
            Ok(names) => match caddyfile::assembled(Profile::Extended, names, all) {
                Err(e) => Err(e),
                Ok(ast) => connected(ast),
            },
        },
    }
}

/// Names none of which is stray are all known.
proof fn lemma_none_stray(names: Seq<Seq<char>>, known: Seq<Seq<char>>, j: int)
    requires
        stray(names, known) is None,
        0 <= j < names.len(),
    ensures
        known.contains(names[j]),
    decreases names.len(),
{
    if j > 0 {
        lemma_none_stray(names.drop_first(), known, j - 1);
    }
}

proof fn lemma_no_stray_channel(
    servers: Seq<ServerBlockV>,
    known: Seq<Seq<char>>,
    i: int,
    j: int,
)
    requires
        stray_channel(servers, known) is None,
        0 <= i < servers.len(),
        0 <= j < servers[i].log_channels.len(),
    ensures
        known.contains(servers[i].log_channels[j]),
    decreases servers.len(),
{
    if i == 0 {
        lemma_none_stray(servers[0].log_channels, known, j);
    } else {
        lemma_no_stray_channel(servers.drop_first(), known, i - 1, j);
    }
}

/// In a configuration that is accepted, each channel that a site writes to is declared: no log
/// line goes to a channel that is not there.
pub proof fn every_channel_that_is_used_is_declared(
    named: Map<Seq<char>, Seq<DirectiveV>>,
    list: Seq<DirectiveV>,
    i: int,
    j: int,
)
    requires
        adapted(named, list) is Ok,
        0 <= i < adapted(named, list)->Ok_0.servers.len(),
        0 <= j < adapted(named, list)->Ok_0.servers[i].log_channels.len(),
    ensures
        declared(adapted(named, list)->Ok_0).contains(
            adapted(named, list)->Ok_0.servers[i].log_channels[j],
        ),
{
    let ast = adapted(named, list)->Ok_0;
    lemma_no_stray_channel(ast.servers, declared(ast), i, j);
}

/// A configuration is refused where an import names neither a snippet nor a file that was handed
/// over: without any files, a relative import is refused whatever there is on disk. The import may
/// stand in a block, in a snippet that is used, or in a file that is imported.
pub proof fn an_import_of_neither_a_snippet_nor_a_file_is_refused(
    files: Map<Seq<char>, Seq<DirectiveV>>,
    list: Seq<DirectiveV>,
    place: Seq<int>,
    name: Seq<char>,
)
    requires
        !files.dom().contains(name),
        forall|i: int|
            0 <= i < list.len() ==> imports::snippet_name((#[trigger] list[i]).name) != Some(name),
        imports::reached(
            imports::remaining(list),
            imports::snippets(files, list),
            place,
        ) matches Some(d) && d.name == "import"@ && d.args.len() > 0 && d.args[0] == name,
    ensures
        adapted(files, list) is Err,
        caddyfile::prepared(files, list) is Err,
{
    imports::lemma_not_a_snippet(files, list, name);
    imports::an_import_of_something_unknown_fails(
        imports::remaining(list),
        imports::snippets(files, list),
        0,
        place,
    );
}

/// Converts generic directives into a typed configuration; only snippets can be imported.
pub fn adapt(directives: Vec<Directive>) -> (r: Result<Ast, AdapterError>)
    ensures
        error::outcome(r) == adapted(Map::empty(), syntax::directives_view(directives@)),
{
    adapt_from(directives, Table::new())
}

/// Converts generic directives into a typed configuration. `files` holds the files that can be
/// imported, under the names by which they are; a snippet hides a file of the same name.
pub fn adapt_from(directives: Vec<Directive>, files: Table<Vec<Directive>>) -> (r: Result<
    Ast,
    AdapterError,
>)
    ensures
        error::outcome(r) == adapted(files.deep_view(), syntax::directives_view(directives@)),
{
    let all = prepare(files, &directives)?;
    proof {
        syntax::lemma_directives_view(all);
    }
    let order = find_order(DirectiveOrder::default(), &all)?;
    let ast = assemble(Profile::Extended, &order, &all)?;
    connect(ast)
}

} // verus!
