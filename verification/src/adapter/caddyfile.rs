//! A whole configuration, in the core profile.

use crate::adapter::imports;
use crate::adapter::imports::{
    coalesce_bare_single_site, collect_snippets, expand_imports, is_global_name,
};
use crate::adapter::options;
use crate::adapter::options::adapt_global;
use crate::adapter::order;
use crate::adapter::order::DirectiveOrder;
use crate::adapter::profile::Profile;
use crate::adapter::sites;
use crate::adapter::sites::adapt_server;
use crate::ast::tree::{Ast, AstV, GlobalBlockV, ServerBlockV};
use crate::error;
use crate::error::{AdapterError, ErrorV};
use crate::fold;
use crate::fold::fold_directives;
use crate::syntax;
use crate::syntax::{Directive, DirectiveV};
use crate::table::Table;
use crate::text::same;
use vstd::prelude::*;

verus! {

/// The top-level directives once snippets are taken out, imports are replaced and a site without
/// braces has got them. `named` holds what else can be imported.
pub open spec fn prepared(named: Map<Seq<char>, Seq<DirectiveV>>, list: Seq<DirectiveV>) -> Result<
    Seq<DirectiveV>,
    ErrorV,
> {
    match imports::imported(
        imports::remaining(list),
        imports::snippets(named, list),
        0,
    ) {
        Err(e) => Err(e),
        Ok(all) => imports::coalesced(all),
    }
}

/// Prepares the top-level directives; `named` holds what else can be imported.
pub fn prepare(named: Table<Vec<Directive>>, list: &Vec<Directive>) -> (r: Result<
    Vec<Directive>,
    AdapterError,
>)
    ensures
        error::outcome(r) == prepared(named.deep_view(), syntax::directives_view(list@)),
{
    let (snippets, rest) = collect_snippets(named, list);
    proof {
        syntax::lemma_directives_view(rest);
    }
    let all = expand_imports(&rest, &snippets, 0)?;
    proof {
        syntax::lemma_directives_view(all);
    }
    coalesce_bare_single_site(&all)
}

/// One top-level directive: the global block, which may come once, or a site. A `macro` is skipped.
pub open spec fn top_level(
    profile: Profile,
    order: Seq<Seq<char>>,
    ast: AstV,
    d: DirectiveV,
) -> Result<AstV, ErrorV> {
    if imports::global_name(d.name) {
        if ast.global is Some {
            Err(ErrorV::DuplicateGlobal)
        } else {
            error::with(
                options::global_block(profile, d),
                |g: GlobalBlockV| AstV { global: Some(g), ..ast },
            )
        }
    } else if d.name == "macro"@ {
        Ok(ast)
    } else {
        error::with(
            sites::site(profile, d, order),
            |s: ServerBlockV| AstV { servers: ast.servers.push(s), ..ast },
        )
    }
}

fn read_top_level(profile: Profile, order: &DirectiveOrder, ast: Ast, d: &Directive) -> (r: Result<
    Ast,
    AdapterError,
>)
    ensures
        error::outcome(r) == top_level(profile, order@, ast.deep_view(), d.deep_view()),
{
    let mut ast = ast;
    let name = d.name.as_str();
    if is_global_name(name) {
        if ast.global.is_some() {
            return Err(AdapterError::DuplicateGlobal);
        }
        ast.global = Some(adapt_global(profile, d)?);
    } else if same(name, "macro") {
        return Ok(ast);
    } else {
        let server = adapt_server(profile, d, order)?;
        let ghost held = ast.servers.deep_view();
        ast.servers.push(server);
        assert(ast.servers.deep_view() =~= held.push(server.deep_view()));
    }
    Ok(ast)
}

/// The configuration that prepared top-level directives stand for.
pub open spec fn assembled(
    profile: Profile,
    order: Seq<Seq<char>>,
    list: Seq<DirectiveV>,
) -> Result<AstV, ErrorV> {
    fold::fold(
        |ast: AstV, d: DirectiveV| top_level(profile, order, ast, d),
        AstV { global: None, servers: Seq::empty() },
        list,
    )
}

/// Adapts prepared top-level directives.
pub fn assemble(profile: Profile, order: &DirectiveOrder, list: &Vec<Directive>) -> (r: Result<
    Ast,
    AdapterError,
>)
    ensures
        error::outcome(r) == assembled(profile, order@, syntax::directives_view(list@)),
{
    let empty = Ast { global: None, servers: Vec::new() };
    assert(empty.servers.deep_view() =~= Seq::<ServerBlockV>::empty());
    let read = |ast: Ast, d: &Directive| -> (r: Result<Ast, AdapterError>)
        ensures
            error::outcome(r) == top_level(profile, order@, ast.deep_view(), d.deep_view()),
        { read_top_level(profile, order, ast, d) };
    fold_directives(
        read,
        empty,
        list,
        Ghost(|ast: AstV, d: DirectiveV| top_level(profile, order@, ast, d)),
    )
}

/// The configuration that generic directives stand for, in the core profile.
pub open spec fn adapted(list: Seq<DirectiveV>) -> Result<AstV, ErrorV> {
    match prepared(Map::empty(), list) {
        Err(e) => Err(e),
        Ok(all) => assembled(Profile::Core, order::default_order(), all),
    }
}

/// Converts generic directives into a typed configuration.
pub fn adapt(directives: Vec<Directive>) -> (r: Result<Ast, AdapterError>)
    ensures
        error::outcome(r) == adapted(syntax::directives_view(directives@)),
{
    let all = prepare(Table::new(), &directives)?;
    proof {
        syntax::lemma_directives_view(all);
    }
    let order = DirectiveOrder::default();
    assemble(Profile::Core, &order, &all)
}

} // verus!
