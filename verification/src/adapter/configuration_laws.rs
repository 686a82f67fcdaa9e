//! What a configuration as a whole means.

use crate::adapter::address_laws;
use crate::adapter::addresses;
use crate::adapter::caddyfile;
use crate::adapter::content;
use crate::adapter::extended;
use crate::adapter::handlers;
use crate::adapter::imports;
use crate::adapter::matcher_sets;
use crate::adapter::matchers;
use crate::adapter::options;
use crate::adapter::order;
use crate::adapter::profile::Profile;
use crate::adapter::sites;
use crate::adapter::sites::SiteDraftV;
use crate::ast::server::{Scheme, TlsDirectiveV};
use crate::ast::tree::{AstV, HandlerV, MatcherV, RouteArmV, ServerBlockV};
use crate::error::ErrorV;
use crate::fold;
use crate::syntax::{line, with_block, DirectiveV};
use crate::text;
use vstd::prelude::*;

verus! {

// ---------------------------------------------------------------------------
// Sites
// ---------------------------------------------------------------------------
/// A top-level directive that is a site.
pub open spec fn is_site(d: DirectiveV) -> bool {
    !imports::global_name(d.name) && d.name != "macro"@
}

proof fn lemma_last(
    profile: Profile,
    names: Seq<Seq<char>>,
    front: Seq<DirectiveV>,
    d: DirectiveV,
)
    ensures
        caddyfile::assembled(profile, names, front.push(d)) == (match caddyfile::assembled(
            profile,
            names,
            front,
        ) {
            Ok(ast) => caddyfile::top_level(profile, names, ast, d),
            Err(e) => Err(e),
        }),
{
    fold::a_last_directive_is_read_last(
        |ast: AstV, d: DirectiveV| caddyfile::top_level(profile, names, ast, d),
        AstV { global: None, servers: Seq::empty() },
        front,
        d,
    );
}

/// The servers of a configuration are its sites, in the order in which they are written.
pub proof fn the_servers_are_the_sites_in_order(
    profile: Profile,
    names: Seq<Seq<char>>,
    list: Seq<DirectiveV>,
    ast: AstV,
)
    requires
        caddyfile::assembled(profile, names, list) == Ok::<AstV, ErrorV>(ast),
        forall|i: int| 0 <= i < list.len() ==> is_site(#[trigger] list[i]),
    ensures
        ast.global is None,
        ast.servers.len() == list.len(),
        forall|i: int|
            0 <= i < list.len() ==> sites::site(profile, #[trigger] list[i], names) == Ok::<
                ServerBlockV,
                ErrorV,
            >(ast.servers[i]),
    decreases list.len(),
{
    if list.len() > 0 {
        let n = list.len() - 1;
        let front = list.drop_last();
        assert(front.push(list[n]) =~= list);
        lemma_last(profile, names, front, list[n]);
        let before = caddyfile::assembled(profile, names, front)->Ok_0;
        assert forall|i: int| 0 <= i < front.len() implies is_site(#[trigger] front[i]) by {
            assert(front[i] == list[i]);
        }
        the_servers_are_the_sites_in_order(profile, names, front, before);
        assert(is_site(list[n]));
        let last = sites::site(profile, list[n], names)->Ok_0;
        assert(ast.servers == before.servers.push(last));
        assert forall|i: int| 0 <= i < list.len() implies sites::site(
            profile,
            #[trigger] list[i],
            names,
        ) == Ok::<ServerBlockV, ErrorV>(ast.servers[i]) by {
            if i < n {
                assert(front[i] == list[i]);
                assert(ast.servers[i] == before.servers[i]);
            }
        }
    }
}

/// A macro adds nothing; the global block is the one that is written, and there is at most one.
pub proof fn a_configuration_has_one_global_block(
    profile: Profile,
    names: Seq<Seq<char>>,
    front: Seq<DirectiveV>,
    ast: AstV,
    d: DirectiveV,
)
    requires
        caddyfile::assembled(profile, names, front) == Ok::<AstV, ErrorV>(ast),
    ensures
        d.name == "macro"@ && !imports::global_name(d.name) ==> caddyfile::assembled(
            profile,
            names,
            front.push(d),
        ) == Ok::<AstV, ErrorV>(ast),
        imports::global_name(d.name) && ast.global is None ==> (options::global_block(
            profile,
            d,
        ) matches Ok(g) ==> caddyfile::assembled(profile, names, front.push(d)) == Ok::<
            AstV,
            ErrorV,
        >(AstV { global: Some(g), ..ast })),
        imports::global_name(d.name) && ast.global is Some ==> caddyfile::assembled(
            profile,
            names,
            front.push(d),
        ) == Err::<AstV, ErrorV>(ErrorV::DuplicateGlobal),
{
    lemma_last(profile, names, front, d);
}

/// The orders that are asked for are carried out one after the other, and other options leave the
/// order as it is.
pub proof fn orders_are_carried_out_in_turn(
    names: Seq<Seq<char>>,
    lines: Seq<DirectiveV>,
    o: DirectiveV,
)
    ensures
        o.name != "order"@ ==> extended::ordered_by(names, seq![o] + lines) == extended::ordered_by(
            names,
            lines,
        ),
        o.name == "order"@ && order::moved(names, o.args).1 is Ok ==> extended::ordered_by(
            names,
            seq![o] + lines,
        ) == extended::ordered_by(order::moved(names, o.args).0, lines),
        o.name == "order"@ && order::moved(names, o.args).1 is Err ==> extended::ordered_by(
            names,
            seq![o] + lines,
        ) is Err,
{
    assert((seq![o] + lines).drop_first() =~= lines);
    assert((seq![o] + lines)[0] == o);
}

// ---------------------------------------------------------------------------
// The lines of a site
// ---------------------------------------------------------------------------
proof fn lemma_site_line(
    profile: Profile,
    d: DirectiveV,
    front: Seq<DirectiveV>,
    c: SiteDraftV,
    o: DirectiveV,
    names: Seq<Seq<char>>,
)
    requires
        sites::drafted(profile, d, front, names) == Ok::<SiteDraftV, ErrorV>(c),
    ensures
        sites::drafted(profile, d, front.push(o), names) == sites::site_line(profile, c, o, names),
{
    fold::a_last_directive_is_read_last(
        |c: SiteDraftV, o: DirectiveV| sites::site_line(profile, c, o, names),
        sites::opening(profile, d)->Ok_0,
        front,
        o,
    );
}

/// A definition adds its matcher to the site, under its name.
pub proof fn a_definition_is_kept_under_its_name(
    profile: Profile,
    d: DirectiveV,
    front: Seq<DirectiveV>,
    c: SiteDraftV,
    o: DirectiveV,
    names: Seq<Seq<char>>,
    m: MatcherV,
)
    requires
        sites::drafted(profile, d, front, names) == Ok::<SiteDraftV, ErrorV>(c),
        text::starts_char(o.name, '@'),
        matcher_sets::definition(profile, o) == Ok::<MatcherV, ErrorV>(m),
    ensures
        sites::drafted(profile, d, front.push(o), names) == Ok::<SiteDraftV, ErrorV>(
            SiteDraftV {
                server: ServerBlockV {
                    matchers: c.server.matchers.insert(o.name, m),
                    ..c.server
                },
                ..c
            },
        ),
{
    reveal_strlit("bind");
    reveal_strlit("listen");
    reveal_strlit("root");
    reveal_strlit("compress");
    reveal_strlit("encode");
    reveal_strlit("gzip_types");
    reveal_strlit("log");
    reveal_strlit("tls");
    reveal_strlit("limits");
    reveal_strlit("error_page");
    reveal_strlit("route");
    reveal_strlit("handle");
    reveal_strlit("handle_path");
    assert("bind"@.len() == 4 && "bind"@[0] == 'b');
    assert("listen"@.len() == 6 && "listen"@[0] == 'l' && "listen"@[2] == 's');
    assert("root"@.len() == 4 && "root"@[0] == 'r');
    assert("compress"@.len() == 8);
    assert("encode"@.len() == 6 && "encode"@[0] == 'e');
    assert("gzip_types"@.len() == 10 && "gzip_types"@[0] == 'g');
    assert("log"@.len() == 3 && "log"@[0] == 'l');
    assert("tls"@.len() == 3 && "tls"@[0] == 't');
    assert("limits"@.len() == 6 && "limits"@[0] == 'l' && "limits"@[2] == 'm');
    assert("error_page"@.len() == 10 && "error_page"@[0] == 'e');
    assert("route"@.len() == 5);
    assert("handle"@.len() == 6 && "handle"@[0] == 'h');
    assert("handle_path"@.len() == 11);
    assert("bind"@[0] == 'b' && "listen"@[0] == 'l' && "root"@[0] == 'r' && "compress"@[0] == 'c'
        && "encode"@[0] == 'e' && "gzip_types"@[0] == 'g' && "log"@[0] == 'l' && "tls"@[0] == 't'
        && "limits"@[0] == 'l' && "error_page"@[0] == 'e' && "route"@[0] == 'r' && "handle"@[0]
        == 'h' && "handle_path"@[0] == 'h');
    lemma_site_line(profile, d, front, c, o, names);
}

/// A block with a matcher becomes a route, with the matcher that stands before it; a block without
/// one is a default.
#[verifier::rlimit(40)]
#[verifier::spinoff_prover]
pub proof fn a_block_with_a_matcher_is_a_route(
    d: DirectiveV,
    front: Seq<DirectiveV>,
    c: SiteDraftV,
    o: DirectiveV,
    names: Seq<Seq<char>>,
    h: HandlerV,
)
    requires
        sites::drafted(Profile::Extended, d, front, names) == Ok::<SiteDraftV, ErrorV>(c),
        o.name == "route"@ || o.name == "handle"@,
        handlers::handler(Profile::Extended, o, c.server.matchers, names) == Ok::<
            HandlerV,
            ErrorV,
        >(h),
    ensures
        sites::drafted(Profile::Extended, d, front.push(o), names) == Ok::<SiteDraftV, ErrorV>(
            if matchers::route_matcher_of(o) is Some {
                SiteDraftV {
                    arms: c.arms.push(
                        RouteArmV { matcher: matchers::route_matcher_of(o), handler: h },
                    ),
                    ..c
                }
            } else {
                SiteDraftV { defaults: c.defaults.push(h), ..c }
            },
        ),
{
    reveal_strlit("bind");
    reveal_strlit("listen");
    reveal_strlit("root");
    reveal_strlit("compress");
    reveal_strlit("encode");
    reveal_strlit("gzip_types");
    reveal_strlit("log");
    reveal_strlit("tls");
    reveal_strlit("limits");
    reveal_strlit("error_page");
    reveal_strlit("route");
    reveal_strlit("handle");
    reveal_strlit("handle_path");
    assert("bind"@.len() == 4 && "bind"@[0] == 'b');
    assert("listen"@.len() == 6 && "listen"@[0] == 'l' && "listen"@[2] == 's');
    assert("root"@.len() == 4 && "root"@[0] == 'r');
    assert("compress"@.len() == 8);
    assert("encode"@.len() == 6 && "encode"@[0] == 'e');
    assert("gzip_types"@.len() == 10 && "gzip_types"@[0] == 'g');
    assert("log"@.len() == 3 && "log"@[0] == 'l');
    assert("tls"@.len() == 3 && "tls"@[0] == 't');
    assert("limits"@.len() == 6 && "limits"@[0] == 'l' && "limits"@[2] == 'm');
    assert("error_page"@.len() == 10 && "error_page"@[0] == 'e');
    assert("route"@.len() == 5);
    assert("handle"@.len() == 6 && "handle"@[0] == 'h');
    assert("handle_path"@.len() == 11);
    lemma_site_line(Profile::Extended, d, front, c, o, names);
}

/// A handler with a matcher before it becomes a route for that matcher, with the handler that the
/// rest of the line configures.
#[verifier::rlimit(40)]
#[verifier::spinoff_prover]
pub proof fn a_line_with_a_matcher_is_a_route(
    profile: Profile,
    d: DirectiveV,
    front: Seq<DirectiveV>,
    c: SiteDraftV,
    o: DirectiveV,
    names: Seq<Seq<char>>,
    m: MatcherV,
    h: HandlerV,
)
    requires
        sites::drafted(profile, d, front, names) == Ok::<SiteDraftV, ErrorV>(c),
        !sites::is_setting(o.name),
        !text::starts_char(o.name, '@'),
        o.name != "route"@ && o.name != "handle"@ && o.name != "handle_path"@ && o.name
            != "header"@,
        sites::line_matcher(profile, o) == Some(m),
        sites::line_handler(
            profile,
            DirectiveV { args: o.args.skip(1), ..o },
            c.server.matchers,
            names,
        ) == Ok::<HandlerV, ErrorV>(h),
    ensures
        sites::drafted(profile, d, front.push(o), names) == Ok::<SiteDraftV, ErrorV>(
            SiteDraftV {
                arms: c.arms.push(RouteArmV { matcher: Some(m), handler: h }),
                ..c
            },
        ),
{
    lemma_site_line(profile, d, front, c, o, names);
    assert(sites::site_line(profile, c, o, names) == sites::handler_line(profile, c, o, names));
}

proof fn lemma_core_handlers(lines: Seq<DirectiveV>, list: Seq<HandlerV>)
    requires
        sites::core_handlers(lines) == Ok::<Seq<HandlerV>, ErrorV>(list),
    ensures
        list.len() == lines.len(),
        forall|i: int|
            0 <= i < lines.len() ==> handlers::handler(
                Profile::Core,
                #[trigger] lines[i],
                Map::empty(),
                Seq::empty(),
            ) == Ok::<HandlerV, ErrorV>(list[i]),
    decreases lines.len(),
{
    if lines.len() > 0 {
        let front = sites::core_handlers(lines.drop_last())->Ok_0;
        lemma_core_handlers(lines.drop_last(), front);
        assert forall|i: int| 0 <= i < lines.len() implies handlers::handler(
            Profile::Core,
            #[trigger] lines[i],
            Map::empty(),
            Seq::empty(),
        ) == Ok::<HandlerV, ErrorV>(list[i]) by {
            if i < lines.len() - 1 {
                assert(lines.drop_last()[i] == lines[i]);
                assert(list[i] == front[i]);
            }
        }
    }
}

/// In the core profile a `route` or `handle` runs its directives in the order in which they are
/// written, as a route where it has a matcher and by default where it has none.
#[verifier::rlimit(40)]
#[verifier::spinoff_prover]
pub proof fn a_core_route_keeps_the_order_of_its_lines(
    c: SiteDraftV,
    o: DirectiveV,
    lines: Seq<DirectiveV>,
    names: Seq<Seq<char>>,
    i: int,
)
    requires
        sites::route_block(Profile::Core, c, with_block(o, lines), names) is Ok,
        0 <= i < lines.len(),
    ensures
        ({
            let next = sites::route_block(Profile::Core, c, with_block(o, lines), names)->Ok_0;
            let h = if matchers::route_matcher_of(o) is Some {
                next.arms.last().handler
            } else {
                next.defaults.last()
            };
            &&& matchers::route_matcher_of(o) is Some ==> next.arms.len() == c.arms.len() + 1
                && next.arms.last().matcher == matchers::route_matcher_of(o) && next.defaults
                == c.defaults
            &&& matchers::route_matcher_of(o) is None ==> next.defaults.len() == c.defaults.len()
                + 1 && next.arms == c.arms
            &&& h matches HandlerV::Pipeline(list) && (list.len() == lines.len() && list[i].matcher
                is None && handlers::handler(
                Profile::Core,
                lines[i],
                Map::empty(),
                Seq::empty(),
            ) == Ok::<HandlerV, ErrorV>(list[i].handler))
        }),
{
    let list = sites::core_handlers(lines)->Ok_0;
    lemma_core_handlers(lines, list);
    assert(matchers::route_matcher_of(with_block(o, lines)) == matchers::route_matcher_of(o));
    assert(lines[i] == lines[i]);
}

// ---------------------------------------------------------------------------
// The address of a site
// ---------------------------------------------------------------------------
/// Without a comma at its end an address is itself.
proof fn lemma_no_comma(s: Seq<char>)
    requires
        s.len() > 0,
        s.last() != ',',
    ensures
        text::trimmed_end(s, ',') == s,
{
}

/// A site with one address in the core profile listens on the port that is written, and is named
/// after the host.
pub proof fn a_site_listens_on_its_port_and_is_named_after_its_host(host: Seq<char>, port: u16)
    requires
        address_laws::plain_host(host),
        host != "0.0.0.0"@,
        host.last() != ',',
    ensures
        sites::opening(
            Profile::Core,
            line(host + seq![':'] + text::shown(port as nat), Seq::empty()),
        ) matches Ok(c) && (c.server.name == host && c.server.names == seq![host]
            && c.server.listens.len() == 1 && c.server.listens[0].port == Some(port)
            && c.server.listens[0].scheme == Scheme::Http && c.arms.len() == 0 && c.defaults.len()
            == 0),
{
    let digits = text::shown(port as nat);
    let addr = host + seq![':'] + digits;
    let d = line(addr, Seq::empty());
    text::a_shown_number_reads_back(port as nat);
    assert(text::digit(digits[digits.len() - 1]));
    assert(addr.last() == digits[digits.len() - 1]);
    lemma_no_comma(addr);
    address_laws::a_written_port_is_listened_on(Profile::Core, host, port);
    reveal_strlit("http://");
    reveal_strlit("https://");
    assert("http://"@[6] == '/' && "https://"@[7] == '/');
    assert("http://"@.len() == 7 && "https://"@.len() == 8);
    assert(addr != "http://"@ && addr != "https://"@) by {
        assert(addr.last() != '/');
    }
    let list = seq![addr];
    assert(sites::site_addresses(d) =~= list);
    assert(list.drop_first() =~= Seq::empty());
    let s = sites::fresh(addr);
    let p = addresses::server_address(Profile::Core, addr)->Some_0;
    let next = sites::with_address(Profile::Core, s, addr)->Ok_0;
    assert(next.names =~= seq![host]);
    assert(next.listens =~= seq![p.listen]);
    reveal_with_fuel(sites::with_addresses, 2);
    assert(sites::with_addresses(Profile::Core, s, list) == Ok::<ServerBlockV, ErrorV>(next));
    address_laws::lemma_not_found(host, 0);
    assert(!text::starts_char(host, ':')) by {
        if text::starts_char(host, ':') {
            assert(host.contains(':'));
        }
    }
    assert(host != "http://"@ && host != "https://"@) by {
        if host == "http://"@ {
            assert(host[6] == '/');
            assert(host.contains('/'));
        }
        if host == "https://"@ {
            assert(host[7] == '/');
            assert(host.contains('/'));
        }
    }
}

/// A local site that says nothing of TLS, and does not ask for plain text, has a certificate of the
/// local authority.
pub proof fn a_local_site_has_a_local_certificate(
    profile: Profile,
    d: DirectiveV,
    names: Seq<Seq<char>>,
)
    requires
        d.block is None,
        sites::opening(profile, d) is Ok,
        sites::opening(profile, d)->Ok_0.server.tls is None,
    ensures
        ({
            let s = sites::opening(profile, d)->Ok_0.server;
            sites::site(profile, d, names) == Ok::<ServerBlockV, ErrorV>(
                if addresses::local_https_default(s.name) && !text::starts(d.name, "http://"@) {
                    ServerBlockV {
                        tls: Some(TlsDirectiveV { internal: true, ..TlsDirectiveV::unset() }),
                        ..s
                    }
                } else {
                    s
                },
            )
        }),
{
}

// ---------------------------------------------------------------------------
// Imports and braces
// ---------------------------------------------------------------------------
/// Lists are expanded one after the other: what stands first stays first.
pub proof fn lists_are_expanded_one_after_the_other(
    a: Seq<DirectiveV>,
    b: Seq<DirectiveV>,
    named: Map<Seq<char>, Seq<DirectiveV>>,
    depth: int,
)
    requires
        depth <= imports::MAX_IMPORT_DEPTH,
    ensures
        imports::imported(a, named, depth) is Ok && imports::imported(b, named, depth) is Ok
            ==> imports::imported(a + b, named, depth) == Ok::<Seq<DirectiveV>, ErrorV>(
            imports::imported(a, named, depth)->Ok_0 + imports::imported(b, named, depth)->Ok_0,
        ),
    decreases b.len(),
{
    if imports::imported(a, named, depth) is Ok && imports::imported(b, named, depth) is Ok {
        let x = imports::imported(a, named, depth)->Ok_0;
        let y = imports::imported(b, named, depth)->Ok_0;
        if b.len() == 0 {
            assert(a + b =~= a);
            assert(x + y =~= x);
        } else {
            let front = b.drop_last();
            assert((a + b).drop_last() =~= a + front);
            assert((a + b).last() == b.last());
            lists_are_expanded_one_after_the_other(a, front, named, depth);
            let z = imports::imported(front, named, depth)->Ok_0;
            let d = b.last();
            assert(imports::imported(a + front, named, depth) == Ok::<Seq<DirectiveV>, ErrorV>(
                x + z,
            ));
            if d.name == "import"@ {
                if d.args.len() == 0 {
                    assert(y == z);
                } else {
                    let more = imports::imported(named[d.args[0]], named, depth + 1)->Ok_0;
                    assert(y == z + more);
                    assert((x + z) + more =~= x + y);
                }
            } else {
                let own = match d.block {
                    None => d,
                    Some(lines) => DirectiveV {
                        block: Some(imports::imported(lines, named, depth + 1)->Ok_0),
                        ..d
                    },
                };
                assert(y == z.push(own));
                assert((x + z).push(own) =~= x + y);
            }
        }
    }
}

/// An import stands for the lines that it names, in its place.
pub proof fn an_import_stands_for_what_it_names(
    a: Seq<DirectiveV>,
    b: Seq<DirectiveV>,
    name: Seq<char>,
    named: Map<Seq<char>, Seq<DirectiveV>>,
    depth: int,
)
    requires
        depth <= imports::MAX_IMPORT_DEPTH,
        named.dom().contains(name),
        imports::imported(a, named, depth) is Ok,
        imports::imported(named[name], named, depth + 1) is Ok,
        imports::imported(b, named, depth) is Ok,
    ensures
        imports::imported(a + seq![line("import"@, seq![name])] + b, named, depth) == Ok::<
            Seq<DirectiveV>,
            ErrorV,
        >(
            imports::imported(a, named, depth)->Ok_0 + imports::imported(
                named[name],
                named,
                depth + 1,
            )->Ok_0 + imports::imported(b, named, depth)->Ok_0,
        ),
{
    let one = seq![line("import"@, seq![name])];
    let none = Seq::<DirectiveV>::empty();
    let more = imports::imported(named[name], named, depth + 1)->Ok_0;
    assert(one.drop_last() =~= none);
    assert(imports::imported(none, named, depth) == Ok::<Seq<DirectiveV>, ErrorV>(none));
    assert(none + more =~= more);
    assert(imports::imported(one, named, depth) == Ok::<Seq<DirectiveV>, ErrorV>(more));
    lists_are_expanded_one_after_the_other(a, one, named, depth);
    lists_are_expanded_one_after_the_other(a + one, b, named, depth);
}

/// A name in parentheses defines a snippet of that name, in place of an earlier one, and is no
/// directive of its own.
pub proof fn a_name_in_parentheses_defines_a_snippet(
    held: Map<Seq<char>, Seq<DirectiveV>>,
    front: Seq<DirectiveV>,
    name: Seq<char>,
    lines: Seq<DirectiveV>,
)
    ensures
        ({
            let d = with_block(line(seq!['('] + name + seq![')'], Seq::empty()), lines);
            &&& imports::snippets(held, front.push(d)) == imports::snippets(held, front).insert(
                name,
                lines,
            )
            &&& imports::remaining(front.push(d)) == imports::remaining(front)
        }),
{
    let whole = seq!['('] + name + seq![')'];
    let d = with_block(line(whole, Seq::empty()), lines);
    assert(whole.subrange(1, whole.len() - 1) =~= name);
    assert(front.push(d).drop_last() =~= front);
}

proof fn lemma_all_braced(list: Seq<DirectiveV>)
    requires
        forall|i: int|
            0 <= i < list.len() ==> !imports::global_name((#[trigger] list[i]).name)
                && list[i].block is Some,
    ensures
        imports::placed(list, imports::Place::Braced) == list,
        imports::placed(list, imports::Place::Global).len() == 0,
        imports::placed(list, imports::Place::Bare).len() == 0,
    decreases list.len(),
{
    if list.len() == 0 {
        assert(list =~= Seq::empty());
    } else {
        let front = list.drop_last();
        assert forall|i: int| 0 <= i < front.len() implies !imports::global_name(
            (#[trigger] front[i]).name,
        ) && front[i].block is Some by {
            assert(front[i] == list[i]);
        }
        lemma_all_braced(front);
        assert(imports::place(list[list.len() - 1]) == imports::Place::Braced);
        assert(front.push(list.last()) =~= list);
    }
}

proof fn lemma_all_bare(list: Seq<DirectiveV>)
    requires
        forall|i: int|
            0 <= i < list.len() ==> !imports::global_name((#[trigger] list[i]).name)
                && list[i].block is None,
    ensures
        imports::placed(list, imports::Place::Bare) == list,
        imports::placed(list, imports::Place::Global).len() == 0,
        imports::placed(list, imports::Place::Braced).len() == 0,
    decreases list.len(),
{
    if list.len() == 0 {
        assert(list =~= Seq::empty());
    } else {
        let front = list.drop_last();
        assert forall|i: int| 0 <= i < front.len() implies !imports::global_name(
            (#[trigger] front[i]).name,
        ) && front[i].block is None by {
            assert(front[i] == list[i]);
        }
        lemma_all_bare(front);
        assert(imports::place(list[list.len() - 1]) == imports::Place::Bare);
        assert(front.push(list.last()) =~= list);
    }
}

/// Sites with braces stay as they are, in their order.
pub proof fn sites_with_braces_stay_as_they_are(list: Seq<DirectiveV>)
    requires
        forall|i: int|
            0 <= i < list.len() ==> !imports::global_name((#[trigger] list[i]).name)
                && list[i].block is Some,
    ensures
        imports::coalesced(list) == Ok::<Seq<DirectiveV>, ErrorV>(list),
{
    lemma_all_braced(list);
    assert(imports::placed(list, imports::Place::Global) + list =~= list);
}

/// Without braces the first line is the address of the only site, and the lines behind it are its
/// content, in their order.
pub proof fn without_braces_the_first_line_is_the_address(
    first: DirectiveV,
    lines: Seq<DirectiveV>,
)
    requires
        lines.len() > 0,
        !imports::global_name(first.name) && first.block is None,
        forall|i: int|
            0 <= i < lines.len() ==> !imports::global_name((#[trigger] lines[i]).name)
                && lines[i].block is None,
    ensures
        imports::coalesced(seq![first] + lines) == Ok::<Seq<DirectiveV>, ErrorV>(
            seq![with_block(first, lines)],
        ),
{
    let list = seq![first] + lines;
    assert forall|i: int| 0 <= i < list.len() implies !imports::global_name(
        (#[trigger] list[i]).name,
    ) && list[i].block is None by {
        if i > 0 {
            assert(list[i] == lines[i - 1]);
        }
    }
    lemma_all_bare(list);
    assert(list.skip(1) =~= lines);
    assert(imports::placed(list, imports::Place::Global) =~= Seq::empty());
    assert(Seq::<DirectiveV>::empty().push(with_block(first, lines)) =~= seq![
        with_block(first, lines),
    ]);
}

} // verus!
