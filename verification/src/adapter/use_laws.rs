//! Every directive that is listed as implemented can be used.

use crate::adapter::content;
use crate::adapter::directives;
use crate::adapter::handlers;
use crate::adapter::profile::Profile;
use crate::adapter::registry;
use crate::adapter::registry_laws;
use crate::adapter::reverse_proxy;
use crate::adapter::settings;
use crate::adapter::sites;
use crate::adapter::upstreams;
use crate::duration;
use crate::error::ErrorV;
use crate::fold;
use crate::syntax::DirectiveV;
use crate::text;
use vstd::prelude::*;

verus! {

/// The name at place `k` of the table is no other name of the table, and no matcher.
proof fn lemma_names_differ(k: int, name: Seq<char>)
    requires
        0 <= k < registry::implemented_directives().len(),
        name == registry::implemented_directives()[k],
    ensures
        name != "access_control"@ || k == 0,
        name != "basic_auth"@ || k == 1,
        name != "basicauth"@ || k == 2,
        name != "bind"@ || k == 3,
        name != "compress"@ || k == 4,
        name != "cors"@ || k == 5,
        name != "encode"@ || k == 6,
        name != "error"@ || k == 7,
        name != "error_page"@ || k == 8,
        name != "file_server"@ || k == 9,
        name != "forward_auth"@ || k == 10,
        name != "gzip_types"@ || k == 11,
        name != "handle"@ || k == 12,
        name != "handle_errors"@ || k == 13,
        name != "handle_path"@ || k == 14,
        name != "header"@ || k == 15,
        name != "import"@ || k == 16,
        name != "intercept"@ || k == 17,
        name != "limits"@ || k == 18,
        name != "listen"@ || k == 19,
        name != "log"@ || k == 20,
        name != "log_skip"@ || k == 21,
        name != "php_fastcgi"@ || k == 22,
        name != "rate_limit"@ || k == 23,
        name != "redir"@ || k == 24,
        name != "redirect"@ || k == 25,
        name != "respond"@ || k == 26,
        name != "reverse_proxy"@ || k == 27,
        name != "rewrite"@ || k == 28,
        name != "root"@ || k == 29,
        name != "route"@ || k == 30,
        name != "templates"@ || k == 31,
        name != "tls"@ || k == 32,
        name != "try_files"@ || k == 33,
        name != "uri"@ || k == 34,
        name != "vars"@ || k == 35,
        !text::starts_char(name, '@'),
{
    let list = registry::implemented_directives();
    registry_laws::each_table_is_in_alphabetical_order();
    reveal_strlit("access_control");
    reveal_strlit("basic_auth");
    reveal_strlit("basicauth");
    reveal_strlit("bind");
    reveal_strlit("compress");
    reveal_strlit("cors");
    reveal_strlit("encode");
    reveal_strlit("error");
    reveal_strlit("error_page");
    reveal_strlit("file_server");
    reveal_strlit("forward_auth");
    reveal_strlit("gzip_types");
    reveal_strlit("handle");
    reveal_strlit("handle_errors");
    reveal_strlit("handle_path");
    reveal_strlit("header");
    reveal_strlit("import");
    reveal_strlit("intercept");
    reveal_strlit("limits");
    reveal_strlit("listen");
    reveal_strlit("log");
    reveal_strlit("log_skip");
    reveal_strlit("php_fastcgi");
    reveal_strlit("rate_limit");
    reveal_strlit("redir");
    reveal_strlit("redirect");
    reveal_strlit("respond");
    reveal_strlit("reverse_proxy");
    reveal_strlit("rewrite");
    reveal_strlit("root");
    reveal_strlit("route");
    reveal_strlit("templates");
    reveal_strlit("tls");
    reveal_strlit("try_files");
    reveal_strlit("uri");
    reveal_strlit("vars");
    assert(list[0] == "access_control"@);
    assert(list[1] == "basic_auth"@);
    assert(list[2] == "basicauth"@);
    assert(list[3] == "bind"@);
    assert(list[4] == "compress"@);
    assert(list[5] == "cors"@);
    assert(list[6] == "encode"@);
    assert(list[7] == "error"@);
    assert(list[8] == "error_page"@);
    assert(list[9] == "file_server"@);
    assert(list[10] == "forward_auth"@);
    assert(list[11] == "gzip_types"@);
    assert(list[12] == "handle"@);
    assert(list[13] == "handle_errors"@);
    assert(list[14] == "handle_path"@);
    assert(list[15] == "header"@);
    assert(list[16] == "import"@);
    assert(list[17] == "intercept"@);
    assert(list[18] == "limits"@);
    assert(list[19] == "listen"@);
    assert(list[20] == "log"@);
    assert(list[21] == "log_skip"@);
    assert(list[22] == "php_fastcgi"@);
    assert(list[23] == "rate_limit"@);
    assert(list[24] == "redir"@);
    assert(list[25] == "redirect"@);
    assert(list[26] == "respond"@);
    assert(list[27] == "reverse_proxy"@);
    assert(list[28] == "rewrite"@);
    assert(list[29] == "root"@);
    assert(list[30] == "route"@);
    assert(list[31] == "templates"@);
    assert(list[32] == "tls"@);
    assert(list[33] == "try_files"@);
    assert(list[34] == "uri"@);
    assert(list[35] == "vars"@);
}

/// A directive without arguments and without a block.
spec fn bare(name: Seq<char>) -> DirectiveV {
    DirectiveV { name, args: Seq::empty(), block: None }
}

/// A directive with one argument, a single letter.
spec fn lettered(name: Seq<char>) -> DirectiveV {
    DirectiveV { name, args: seq![seq!['a']], block: None }
}

/// A directive with an empty block.
spec fn emptied(name: Seq<char>) -> DirectiveV {
    DirectiveV { name, args: Seq::empty(), block: Some(Seq::empty()) }
}

/// Whether a site takes the line, as its next one.
spec fn taken(c: sites::SiteDraftV, d: DirectiveV, order: Seq<Seq<char>>) -> bool {
    sites::site_line(Profile::Extended, c, d, order) is Ok
}

/// Directives that may stand alone.
spec fn alone(name: Seq<char>) -> bool {
    name == "compress"@ || name == "encode"@ || name == "cors"@ || name == "error"@
        || name == "file_server"@ || name == "handle"@ || name == "header"@ || name == "log"@
        || name == "log_skip"@ || name == "route"@ || name == "templates"@ || name == "vars"@
}

/// Directives that take an empty block.
spec fn with_block(name: Seq<char>) -> bool {
    name == "access_control"@ || name == "intercept"@ || name == "limits"@ || name == "tls"@
}

/// Directives that take one word, whatever it is.
spec fn with_word(name: Seq<char>) -> bool {
    name == "bind"@ || name == "redir"@ || name == "redirect"@ || name == "respond"@
        || name == "rewrite"@
}

proof fn lemma_bare_lines(c: sites::SiteDraftV, name: Seq<char>, order: Seq<Seq<char>>)
    requires
        alone(name),
    ensures
        taken(c, bare(name), order),
{
    if name == "compress"@ {
        lemma_names_differ(4, name);
    }
    if name == "encode"@ {
        lemma_names_differ(6, name);
    }
    if name == "cors"@ {
        lemma_names_differ(5, name);
    }
    if name == "error"@ {
        lemma_names_differ(7, name);
    }
    if name == "file_server"@ {
        lemma_names_differ(9, name);
    }
    if name == "handle"@ {
        lemma_names_differ(12, name);
    }
    if name == "header"@ {
        lemma_names_differ(15, name);
    }
    if name == "log"@ {
        lemma_names_differ(20, name);
    }
    if name == "log_skip"@ {
        lemma_names_differ(21, name);
    }
    if name == "route"@ {
        lemma_names_differ(30, name);
    }
    if name == "templates"@ {
        lemma_names_differ(31, name);
    }
    if name == "vars"@ {
        lemma_names_differ(35, name);
    }
}

proof fn lemma_emptied_lines(c: sites::SiteDraftV, name: Seq<char>, order: Seq<Seq<char>>)
    requires
        with_block(name),
    ensures
        taken(c, emptied(name), order),
{
    if name == "access_control"@ {
        lemma_names_differ(0, name);
    }
    if name == "intercept"@ {
        lemma_names_differ(17, name);
    }
    if name == "limits"@ {
        lemma_names_differ(18, name);
    }
    if name == "tls"@ {
        lemma_names_differ(32, name);
    }
}

proof fn lemma_lettered_lines(c: sites::SiteDraftV, name: Seq<char>, order: Seq<Seq<char>>)
    requires
        with_word(name),
    ensures
        taken(c, lettered(name), order),
{
    if name == "bind"@ {
        lemma_names_differ(3, name);
    }
    if name == "redir"@ {
        lemma_names_differ(24, name);
    }
    if name == "redirect"@ {
        lemma_names_differ(25, name);
    }
    if name == "respond"@ {
        lemma_names_differ(26, name);
    }
    if name == "rewrite"@ {
        lemma_names_differ(28, name);
    }
}

/// A line whose handler stands alone is taken where its adapter reads it.
proof fn lemma_leaf_line(c: sites::SiteDraftV, d: DirectiveV, order: Seq<Seq<char>>)
    requires
        !sites::is_setting(d.name),
        d.name != "route"@ && d.name != "handle"@ && d.name != "handle_path"@ && d.name
            != "header"@ && d.name != "intercept"@ && d.name != "vars"@,
        !registry::adapted_elsewhere(d.name),
        !text::starts_char(d.name, '@'),
        sites::line_matcher(Profile::Extended, d) is None,
        handlers::leaf(Profile::Extended, d) is Ok,
    ensures
        taken(c, d, order),
{
    assert(handlers::handler(Profile::Extended, d, c.server.matchers, order) == handlers::leaf(
        Profile::Extended,
        d,
    ));
}

proof fn lemma_one_listener(d: DirectiveV)
    requires
        d.args.len() == 1,
    ensures
        settings::listener(Profile::Extended, d) is Ok,
{
    assert(d.args.skip(1).len() == 0);
}

proof fn lemma_listen(c: sites::SiteDraftV, order: Seq<Seq<char>>)
    ensures
        taken(c, lettered("listen"@), order),
{
    let d = lettered("listen"@);
    lemma_names_differ(19, d.name);
    lemma_one_listener(d);
    assert(sites::setting(Profile::Extended, c.server, d) is Ok);
}

proof fn lemma_root(c: sites::SiteDraftV, order: Seq<Seq<char>>)
    ensures
        taken(c, lettered("root"@), order),
{
    lemma_names_differ(29, "root"@);
    reveal_strlit("*");
    assert(seq!['a'] != "*"@) by {
        assert(seq!['a'][0] != "*"@[0]);
    }
}

proof fn lemma_try_files(c: sites::SiteDraftV, order: Seq<Seq<char>>)
    ensures
        taken(c, lettered("try_files"@), order),
{
    lemma_names_differ(33, "try_files"@);
    let args = lettered("try_files"@).args;
    assert(args.drop_first().len() == 0);
    assert(!args[0].contains('?'));
    reveal_with_fuel(directives::first_with, 2);
    assert(directives::first_with(args, '?') is None);
}

proof fn lemma_one_upstream(args: Seq<Seq<char>>)
    requires
        args == seq![seq!['a']],
    ensures
        upstreams::proxy_line(Profile::Extended, args) matches Ok(start) && start.upstreams.len()
            > 0,
{
    let word = seq!['a'];
    let check = |arg: Seq<char>| upstreams::upstream_argument(Profile::Extended, arg);
    assert(args.drop_last() =~= Seq::empty());
    assert(content::unmarked(args) =~= args) by {
        reveal_with_fuel(content::unmarked, 2);
    }
    assert(fold::each(check, args) == Ok::<Seq<Seq<char>>, ErrorV>(args)) by {
        reveal_with_fuel(fold::each, 2);
        assert(Seq::<Seq<char>>::empty().push(word) =~= args);
    }
    word.index_of_last_ensures(':');
    assert(upstreams::one_per_port(word) == seq![word]);
    assert(upstreams::expanded(args).len() > 0) by {
        reveal_with_fuel(upstreams::expanded, 2);
    }
}

proof fn lemma_one_proxy(d: DirectiveV)
    requires
        d.args == seq![seq!['a']],
        d.block is None,
    ensures
        reverse_proxy::reverse_proxy(Profile::Extended, d) is Ok,
{
    lemma_one_upstream(d.args);
}

proof fn lemma_reverse_proxy(c: sites::SiteDraftV, order: Seq<Seq<char>>)
    ensures
        taken(c, lettered("reverse_proxy"@), order),
{
    let d = lettered("reverse_proxy"@);
    lemma_names_differ(27, d.name);
    lemma_one_proxy(d);
    assert(sites::line_matcher(Profile::Extended, d) is None);
    assert(handlers::leaf(Profile::Extended, d) is Ok);
    lemma_leaf_line(c, d, order);
}

proof fn lemma_uri(c: sites::SiteDraftV, order: Seq<Seq<char>>)
    ensures
        taken(
            c,
            DirectiveV { name: "uri"@, args: seq!["strip_prefix"@, seq!['a']], block: None },
            order,
        ),
{
    lemma_names_differ(34, "uri"@);
    reveal_strlit("strip_prefix");
}

proof fn lemma_one_stripped_path(d: DirectiveV)
    requires
        d.args == seq![seq!['/', 'a']],
    ensures
        handlers::stripped_path(d) is Ok,
{
    let word = seq!['/', 'a'];
    assert(word.last() == 'a');
    assert(text::trimmed_end(word, '*') == word);
    assert(text::trimmed_end(word, '/') == word);
}

#[verifier::spinoff_prover]
proof fn lemma_handle_path(c: sites::SiteDraftV, order: Seq<Seq<char>>)
    ensures
        taken(
            c,
            DirectiveV { name: "handle_path"@, args: seq![seq!['/', 'a']], block: None },
            order,
        ),
{
    let d = DirectiveV { name: "handle_path"@, args: seq![seq!['/', 'a']], block: None };
    lemma_names_differ(14, d.name);
    lemma_one_stripped_path(d);
    assert(handlers::path_handler(d, c.server.matchers, order) is Ok);
}

proof fn lemma_gzip_types(c: sites::SiteDraftV, order: Seq<Seq<char>>)
    ensures
        taken(
            c,
            DirectiveV { name: "gzip_types"@, args: seq![seq!['a', '/', 'a']], block: None },
            order,
        ),
{
    lemma_names_differ(11, "gzip_types"@);
    let p = seq!['a', '/', 'a'];
    let check = |q: Seq<char>| settings::checked_mime_pattern(q);
    assert(p[1] == '/');
    assert(p.contains('/'));
    p.index_of_first_ensures('/');
    assert(p.index_of_first('/') == Some(1int));
    p.skip(2).index_of_first_ensures('*');
    reveal_strlit("*");
    assert(p.take(1) != "*"@) by {
        assert(p.take(1)[0] != "*"@[0]);
    }
    assert(!p.skip(2).contains('*'));
    assert(settings::mime_pattern(p));
    assert(seq![p].drop_last() =~= Seq::empty());
    reveal_with_fuel(fold::each, 2);
    assert(fold::each(check, seq![p]) is Ok);
}

proof fn lemma_error_page(c: sites::SiteDraftV, order: Seq<Seq<char>>)
    ensures
        taken(
            c,
            DirectiveV {
                name: "error_page"@,
                args: seq![seq!['4', '0', '4'], seq!['a']],
                block: None,
            },
            order,
        ),
{
    lemma_names_differ(8, "error_page"@);
    let word = seq!['4', '0', '4'];
    let check = |q: Seq<char>| settings::error_code(q);
    lemma_three_digits('4', '0', '4');
    assert(settings::error_code(word) is Ok);
    assert(seq![word, seq!['a']].drop_last() =~= seq![word]);
    assert(seq![word].drop_last() =~= Seq::empty());
    reveal_with_fuel(fold::each, 2);
    assert(fold::each(check, seq![word]) is Ok);
}

proof fn lemma_three_digits(a: char, b: char, c: char)
    requires
        text::digit(a),
        text::digit(b),
        text::digit(c),
    ensures
        text::as_u16(seq![a, b, c]) == Some(
            ((a as int - '0' as int) * 100 + (b as int - '0' as int) * 10 + (c as int
                - '0' as int)) as u16,
        ),
{
    reveal_with_fuel(text::value, 4);
    assert(seq![a, b, c].drop_last() =~= seq![a, b]);
    assert(seq![a, b].drop_last() =~= seq![a]);
    assert(seq![a].drop_last() =~= Seq::empty());
}

proof fn lemma_one()
    ensures
        text::as_u64(seq!['1']) == Some(1u64),
{
    reveal_with_fuel(text::value, 2);
    assert(seq!['1'].drop_last() =~= Seq::empty());
    assert(text::value(seq!['1']) == 1);
}

proof fn lemma_one_limit(d: DirectiveV)
    requires
        d.args == seq![seq!['1'], seq!['1', 's']],
        d.block is None,
    ensures
        directives::rate_limit(d) is Ok,
{
    lemma_one();
    lemma_one_second();
}

/// What the name `rate_limit` is not.
proof fn lemma_limit_name(name: Seq<char>)
    requires
        name == "rate_limit"@,
    ensures
        !sites::is_setting(name),
        name != "route"@ && name != "handle"@ && name != "handle_path"@ && name != "header"@ && name
            != "intercept"@ && name != "vars"@,
        name != "reverse_proxy"@ && name != "respond"@ && name != "redir"@ && name != "redirect"@
            && name != "file_server"@ && name != "basic_auth"@ && name != "basicauth"@,
        !registry::adapted_elsewhere(name),
        !text::starts_char(name, '@'),
{
    lemma_names_differ(23, name);
}

proof fn lemma_limit_line(c: sites::SiteDraftV, d: DirectiveV, order: Seq<Seq<char>>)
    requires
        d.name == "rate_limit"@,
        d.args.len() == 2,
        !text::starts_char(d.args[0], '@') && !text::starts_char(d.args[0], '/'),
        directives::rate_limit(d) is Ok,
    ensures
        taken(c, d, order),
{
    lemma_limit_name(d.name);
    assert(handlers::leaf(Profile::Extended, d) is Ok);
    assert(sites::line_matcher(Profile::Extended, d) is None);
    lemma_leaf_line(c, d, order);
}

proof fn lemma_rate_limit(c: sites::SiteDraftV, order: Seq<Seq<char>>)
    ensures
        taken(
            c,
            DirectiveV {
                name: "rate_limit"@,
                args: seq![seq!['1'], seq!['1', 's']],
                block: None,
            },
            order,
        ),
{
    let d = DirectiveV {
        name: "rate_limit"@,
        args: seq![seq!['1'], seq!['1', 's']],
        block: None,
    };
    lemma_one_limit(d);
    lemma_limit_line(c, d, order);
}

proof fn lemma_one_second()
    ensures
        duration::millis(seq!['1', 's']) == Some(1_000u64),
{
    let s = seq!['1', 's'];
    let numeric = |c: char| duration::numeric(c);
    assert(text::trimmed(s) == s);
    assert(s.drop_first() =~= seq!['s']);
    reveal_with_fuel(text::trim_left, 2);
    assert(text::trim_left(s, numeric) =~= seq!['s']);
    assert(text::leading(s, numeric) =~= seq!['1']);
    reveal_strlit("ns");
    reveal_strlit("us");
    reveal_strlit("µs");
    reveal_strlit("ms");
    reveal_strlit("s");
    assert(seq!['s'].take(1) =~= "s"@);
    assert(duration::unit_of(seq!['s']) == Some(("s"@, 1_000_000_000nat)));
    seq!['1'].index_of_first_ensures('.');
    assert(seq!['1'].drop_last() =~= Seq::empty());
    reveal_with_fuel(text::value, 2);
    reveal_with_fuel(duration::tens, 3);
    assert(duration::tens(2) == 100);
    assert(duration::amount(seq!['1'], 1_000_000_000, 2) == Some(100_000_000_000nat));
    assert(seq!['s'].skip(1) =~= Seq::empty());
    reveal_with_fuel(duration::added, 2);
    assert(duration::added(s, 2, 0) == Some(100_000_000_000nat));
}

/// An account with a name and a hash of one letter each.
spec fn account() -> DirectiveV {
    lettered(seq!['a'])
}

proof fn lemma_basic_auth(c: sites::SiteDraftV, name: Seq<char>, order: Seq<Seq<char>>)
    requires
        name == "basic_auth"@ || name == "basicauth"@,
    ensures
        taken(
            c,
            DirectiveV { name, args: Seq::empty(), block: Some(seq![account()]) },
            order,
        ),
{
    if name == "basic_auth"@ {
        lemma_names_differ(1, name);
    } else {
        lemma_names_differ(2, name);
    }
    reveal_strlit("realm");
    assert(account().name != "realm"@) by {
        assert(account().name.len() == 1);
    }
    assert(seq![account()].drop_first() =~= Seq::empty());
    reveal_with_fuel(fold::fold, 2);
    let d = DirectiveV { name, args: Seq::empty(), block: Some(seq![account()]) };
    assert(content::hashed_basic_auth(d) is Ok);
}

/// Every directive that the table lists as implemented can be used: wherever a site block stands,
/// it takes some line of that name as its next one. The exceptions are `import`, which is gone once
/// imports are expanded, and the directives that are adapted elsewhere.
pub proof fn every_implemented_directive_can_be_used(
    c: sites::SiteDraftV,
    name: Seq<char>,
    order: Seq<Seq<char>>,
)
    requires
        registry::implemented_directives().contains(name),
        name != "import"@,
        !registry::adapted_elsewhere(name),
    ensures
        exists|d: DirectiveV|
            d.name == name && (#[trigger] sites::site_line(Profile::Extended, c, d, order)) is Ok,
{
    let list = registry::implemented_directives();
    let k = choose|k: int| 0 <= k < list.len() && list[k] == name;
    assert(list[k] == name);
    let d = if alone(name) {
        lemma_bare_lines(c, name, order);
        bare(name)
    } else if with_block(name) {
        lemma_emptied_lines(c, name, order);
        emptied(name)
    } else if with_word(name) {
        lemma_lettered_lines(c, name, order);
        lettered(name)
    } else if name == "listen"@ {
        lemma_listen(c, order);
        lettered(name)
    } else if name == "root"@ {
        lemma_root(c, order);
        lettered(name)
    } else if name == "try_files"@ {
        lemma_try_files(c, order);
        lettered(name)
    } else if name == "reverse_proxy"@ {
        lemma_reverse_proxy(c, order);
        lettered(name)
    } else if name == "uri"@ {
        lemma_uri(c, order);
        DirectiveV { name, args: seq!["strip_prefix"@, seq!['a']], block: None }
    } else if name == "handle_path"@ {
        lemma_handle_path(c, order);
        DirectiveV { name, args: seq![seq!['/', 'a']], block: None }
    } else if name == "gzip_types"@ {
        lemma_gzip_types(c, order);
        DirectiveV { name, args: seq![seq!['a', '/', 'a']], block: None }
    } else if name == "error_page"@ {
        lemma_error_page(c, order);
        DirectiveV { name, args: seq![seq!['4', '0', '4'], seq!['a']], block: None }
    } else if name == "rate_limit"@ {
        lemma_rate_limit(c, order);
        DirectiveV { name, args: seq![seq!['1'], seq!['1', 's']], block: None }
    } else {
        lemma_basic_auth(c, name, order);
        DirectiveV { name, args: Seq::empty(), block: Some(seq![account()]) }
    };
    assert(taken(c, d, order));
}

} // verus!
