//! What matchers mean.

use crate::adapter::matcher_sets;
use crate::adapter::matcher_sets::Seen;
use crate::adapter::matchers;
use crate::adapter::profile::Profile;
use crate::ast::matcher::{
    HeaderConditionV, HeaderMatcherV, HttpMethod, PathMatcherV,
};
use crate::ast::tree::MatcherV;
use crate::error::ErrorV;
use crate::fold;
use crate::syntax::{line, with_block, DirectiveV};
use crate::text;
use vstd::prelude::*;

verus! {

// ---------------------------------------------------------------------------
// Conditions on values
// ---------------------------------------------------------------------------
/// Whether `s` occurs in `v`.
pub open spec fn occurs(s: Seq<char>, v: Seq<char>) -> bool {
    exists|i: int| 0 <= i <= v.len() && s.is_prefix_of(#[trigger] v.skip(i))
}

/// Whether the value `v` meets a condition; `matched` says which values meet a pattern.
pub open spec fn meets(
    c: HeaderConditionV,
    v: Seq<char>,
    matched: spec_fn(Seq<char>, Seq<char>) -> bool,
) -> bool {
    match c {
        HeaderConditionV::Exists => true,
        HeaderConditionV::Equals(s) => v == s,
        HeaderConditionV::StartsWith(s) => s.is_prefix_of(v),
        HeaderConditionV::EndsWith(s) => s.is_suffix_of(v),
        HeaderConditionV::Contains(s) => occurs(s, v),
        HeaderConditionV::Regex(pattern) => matched(pattern, v),
    }
}

/// Each value meets the condition that nothing must precede or follow.
proof fn lemma_nothing_occurs(v: Seq<char>)
    ensures
        Seq::<char>::empty().is_prefix_of(v),
        Seq::<char>::empty().is_suffix_of(v),
        occurs(Seq::<char>::empty(), v),
{
    assert(Seq::<char>::empty() =~= v.subrange(0, 0));
    assert(Seq::<char>::empty() =~= v.subrange(v.len() as int, v.len() as int));
    assert(v.skip(0) =~= v);
    assert(Seq::<char>::empty().is_prefix_of(v.skip(0)));
}

/// A condition is met by the values that the wildcards at its ends leave room for: with one behind
/// a text those that begin with the text, with one before it those that end with it, with one on
/// both sides those in which it occurs, and without any the text alone.
pub proof fn wildcards_stand_for_any_text(
    s: Seq<char>,
    v: Seq<char>,
    matched: spec_fn(Seq<char>, Seq<char>) -> bool,
)
    ensures
        !text::starts_char(s, '*') ==> (meets(
            matchers::header_condition(s + seq!['*']),
            v,
            matched,
        ) <==> s.is_prefix_of(v)),
        !text::ends_char(s, '*') ==> (meets(
            matchers::header_condition(seq!['*'] + s),
            v,
            matched,
        ) <==> s.is_suffix_of(v)),
        meets(matchers::header_condition(seq!['*'] + s + seq!['*']), v, matched) <==> occurs(s, v),
        !text::starts_char(s, '*') && !text::ends_char(s, '*') ==> (meets(
            matchers::header_condition(s),
            v,
            matched,
        ) <==> v == s),
{
    reveal_strlit("*");
    let star = seq!['*'];
    assert("*"@ =~= star);
    lemma_nothing_occurs(v);
    let a = s + star;
    let b = star + s;
    let c = star + s + star;
    assert(a.last() == '*');
    assert(a.take(a.len() - 1) =~= s);
    assert(b.skip(1) =~= s);
    assert(c.last() == '*' && c[0] == '*');
    assert(c.subrange(1, c.len() - 1) =~= s);
    assert(c != star) by {
        assert(c.len() >= 2);
    }
    if s.len() == 0 {
        assert(s =~= Seq::empty());
        assert(a =~= star);
        assert(b =~= star);
    } else {
        assert(a[0] == s[0]);
        assert(b.last() == s.last());
        assert(a.len() >= 2 && b.len() >= 2);
    }
}

/// A condition on a header is a condition on the field that the line names, and on the value that
/// stands behind the name.
pub proof fn a_header_matcher_looks_at_its_field(
    name: Seq<char>,
    field: Seq<char>,
    value: Seq<char>,
)
    requires
        !text::starts_char(field, '!'),
    ensures
        matchers::header(line(name, seq![field, value])) == Ok::<MatcherV, ErrorV>(
            MatcherV::Header(
                HeaderMatcherV { name: field, condition: matchers::header_condition(value) },
            ),
        ),
        matchers::header(line(name, seq![field])) == Ok::<MatcherV, ErrorV>(
            MatcherV::Header(HeaderMatcherV { name: field, condition: HeaderConditionV::Exists }),
        ),
{
}

/// With a `!` before the field, a header matcher is met where it would not be without.
pub proof fn a_mark_negates_a_header_matcher(
    name: Seq<char>,
    field: Seq<char>,
    rest: Seq<Seq<char>>,
    seen: Seen,
)
    requires
        !text::starts_char(field, '!'),
        rest.len() <= 1,
    ensures
        matchers::header(line(name, seq![field] + rest)) is Ok,
        matchers::header(line(name, seq![seq!['!'] + field] + rest)) is Ok,
        matcher_sets::met(
            matchers::header(line(name, seq![seq!['!'] + field] + rest))->Ok_0,
            seen,
        ) <==> !matcher_sets::met(matchers::header(line(name, seq![field] + rest))->Ok_0, seen),
{
    let a = seq![field] + rest;
    let b = seq![seq!['!'] + field] + rest;
    assert(b[0].skip(1) =~= field);
    assert(rest.len() == 1 ==> a[1] == rest[0] && b[1] == rest[0]);
    let inner = matchers::header(line(name, a))->Ok_0;
    let outer = matchers::header(line(name, b))->Ok_0;
    assert(outer == MatcherV::Not(Box::new(inner)));
}

/// A query matcher is about the key before the first `=`, and is met by the value behind it; a `*`
/// is met by every value.
pub proof fn a_query_matcher_looks_at_its_key(
    name: Seq<char>,
    key: Seq<char>,
    value: Seq<char>,
    v: Seq<char>,
    matched: spec_fn(Seq<char>, Seq<char>) -> bool,
)
    requires
        !key.contains('='),
    ensures
        matchers::query(line(name, seq![key + seq!['='] + value])) matches Ok(MatcherV::Query(q))
            && (q.name == key && (meets(q.condition, v, matched) <==> value == "*"@ || v == value)),
{
    let arg = key + seq!['='] + value;
    assert(arg[key.len() as int] == '=');
    assert(arg.contains('='));
    arg.index_of_first_ensures('=');
    let i = arg.index_of_first('=')->Some_0;
    assert(i == key.len()) by {
        if i < key.len() {
            assert(key[i] == '=');
            assert(key.contains('='));
        }
    }
    assert(arg.take(i) =~= key);
    assert(arg.skip(i + 1) =~= value);
}

/// A query matcher needs a key and a value.
pub proof fn a_query_matcher_without_a_value_is_refused(name: Seq<char>, arg: Seq<char>)
    requires
        !arg.contains('='),
    ensures
        matchers::query(line(name, seq![arg])) is Err,
{
    arg.index_of_first_ensures('=');
}

// ---------------------------------------------------------------------------
// Conditions by name
// ---------------------------------------------------------------------------
/// The name of a method.
pub open spec fn method_name(m: HttpMethod) -> Seq<char> {
    match m {
        HttpMethod::Get => "GET"@,
        HttpMethod::Post => "POST"@,
        HttpMethod::Put => "PUT"@,
        HttpMethod::Delete => "DELETE"@,
        HttpMethod::Patch => "PATCH"@,
        HttpMethod::Head => "HEAD"@,
        HttpMethod::Options => "OPTIONS"@,
    }
}

/// A word names a method exactly where it is the name of the method, in any case.
pub proof fn a_method_is_named_by_its_name(word: Seq<char>, m: HttpMethod)
    ensures
        matchers::method(word) == Ok::<HttpMethod, ErrorV>(m) <==> text::uppercase(word)
            == method_name(m),
{
    reveal_strlit("GET");
    reveal_strlit("POST");
    reveal_strlit("PUT");
    reveal_strlit("DELETE");
    reveal_strlit("PATCH");
    reveal_strlit("HEAD");
    reveal_strlit("OPTIONS");
    assert("GET"@.len() == 3 && "GET"@[0] == 'G');
    assert("POST"@.len() == 4 && "POST"@[0] == 'P');
    assert("PUT"@.len() == 3 && "PUT"@[0] == 'P');
    assert("DELETE"@.len() == 6);
    assert("PATCH"@.len() == 5);
    assert("HEAD"@.len() == 4 && "HEAD"@[0] == 'H');
    assert("OPTIONS"@.len() == 7);
}

/// A method matcher is met by the methods that it lists.
pub proof fn a_method_matcher_is_met_by_its_methods(
    profile: Profile,
    words: Seq<Seq<char>>,
    list: Seq<HttpMethod>,
    depth: int,
    seen: Seen,
)
    requires
        depth <= matchers::MAX_MATCHER_NESTING,
        words.len() == list.len(),
        forall|i: int|
            0 <= i < list.len() ==> text::uppercase(#[trigger] words[i]) == method_name(list[i]),
    ensures
        matchers::condition(profile, line("method"@, words), depth) matches Ok(m) && (
        matcher_sets::met(m, seen) <==> list.contains(seen.method)),
{
    lemma_condition_names();
    lemma_methods(words, list);
}

proof fn lemma_methods(words: Seq<Seq<char>>, list: Seq<HttpMethod>)
    requires
        words.len() == list.len(),
        forall|i: int|
            0 <= i < list.len() ==> text::uppercase(#[trigger] words[i]) == method_name(list[i]),
    ensures
        fold::each(|word: Seq<char>| matchers::method(word), words) == Ok::<
            Seq<HttpMethod>,
            ErrorV,
        >(list),
    decreases words.len(),
{
    if words.len() == 0 {
        assert(list =~= Seq::empty());
    } else {
        let n = words.len() - 1;
        lemma_methods(words.drop_last(), list.drop_last());
        a_method_is_named_by_its_name(words[n], list[n]);
        assert(words.last() == words[n]);
        assert(list.drop_last().push(list[n]) =~= list);
    }
}

/// The names of conditions are different.
proof fn lemma_condition_names()
    ensures
        "not"@ != "path"@ && "not"@ != "method"@ && "not"@ != "host"@ && "not"@ != "query"@
            && "not"@ != "protocol"@ && "not"@ != "remote_ip"@ && "not"@ != "client_ip"@ && "not"@
            != "header"@ && "not"@ != "header_regexp"@,
        "path"@ != "method"@ && "path"@ != "host"@ && "method"@ != "host"@,
        "query"@ != "path"@ && "query"@ != "method"@ && "query"@ != "host"@,
        "protocol"@ != "path"@ && "protocol"@ != "method"@ && "protocol"@ != "host"@ && "protocol"@
            != "query"@,
        "remote_ip"@ != "path"@ && "remote_ip"@ != "method"@ && "remote_ip"@ != "host"@
            && "remote_ip"@ != "query"@ && "remote_ip"@ != "protocol"@,
        "client_ip"@ != "path"@ && "client_ip"@ != "method"@ && "client_ip"@ != "host"@
            && "client_ip"@ != "query"@ && "client_ip"@ != "protocol"@,
        "header"@ != "path"@ && "header"@ != "method"@ && "header"@ != "host"@ && "header"@
            != "query"@ && "header"@ != "protocol"@ && "header"@ != "remote_ip"@ && "header"@
            != "client_ip"@,
        "header_regexp"@ != "path"@ && "header_regexp"@ != "method"@ && "header_regexp"@ != "host"@
            && "header_regexp"@ != "query"@ && "header_regexp"@ != "protocol"@ && "header_regexp"@
            != "remote_ip"@ && "header_regexp"@ != "client_ip"@ && "header_regexp"@ != "header"@,
{
    reveal_strlit("not");
    reveal_strlit("path");
    reveal_strlit("method");
    reveal_strlit("host");
    reveal_strlit("query");
    reveal_strlit("protocol");
    reveal_strlit("remote_ip");
    reveal_strlit("client_ip");
    reveal_strlit("header");
    reveal_strlit("header_regexp");
    assert("not"@.len() == 3);
    assert("path"@.len() == 4 && "path"@[0] == 'p');
    assert("method"@.len() == 6 && "method"@[0] == 'm');
    assert("host"@.len() == 4 && "host"@[0] == 'h');
    assert("query"@.len() == 5);
    assert("protocol"@.len() == 8);
    assert("remote_ip"@.len() == 9 && "remote_ip"@[0] == 'r');
    assert("client_ip"@.len() == 9 && "client_ip"@[0] == 'c');
    assert("header"@.len() == 6 && "header"@[0] == 'h');
    assert("header_regexp"@.len() == 13);
}

/// A condition is met by the requests whose part it names meets one of its texts: the path, the
/// host, the protocol or the address that the request comes from.
pub proof fn a_condition_looks_at_what_it_names(
    profile: Profile,
    list: Seq<Seq<char>>,
    depth: int,
    seen: Seen,
)
    requires
        depth <= matchers::MAX_MATCHER_NESTING,
        list.len() > 0,
    ensures
        matchers::condition(profile, line("path"@, list), depth) matches Ok(m) && (
        matcher_sets::met(m, seen) <==> matcher_sets::any_meets(list, seen.path)),
        matchers::condition(profile, line("host"@, list), depth) matches Ok(m) && (
        matcher_sets::met(m, seen) <==> matcher_sets::any_meets(list, seen.host)),
        matchers::condition(profile, line("remote_ip"@, list), depth) matches Ok(m) && (
        matcher_sets::met(m, seen) <==> matcher_sets::any_meets(list, seen.remote)),
        matchers::condition(profile, line("client_ip"@, list), depth) matches Ok(m) && (
        matcher_sets::met(m, seen) <==> matcher_sets::any_meets(list, seen.remote)),
        (forall|i: int| 0 <= i < list.len() ==> !(#[trigger] list[i]).contains('/')) ==> (
        matchers::condition(profile, line("protocol"@, list), depth) matches Ok(m) && (
        matcher_sets::met(m, seen) <==> matcher_sets::any_meets(list, seen.protocol))),
{
    lemma_condition_names();
}

/// Header and query conditions are those of the directives that they are named after.
pub proof fn a_condition_on_a_field_is_read_by_its_name(
    profile: Profile,
    list: Seq<Seq<char>>,
    depth: int,
)
    requires
        depth <= matchers::MAX_MATCHER_NESTING,
    ensures
        matchers::condition(profile, line("header"@, list), depth) == matchers::header(
            line("header"@, list),
        ),
        matchers::condition(profile, line("query"@, list), depth) == matchers::query(
            line("query"@, list),
        ),
        matchers::condition(Profile::Extended, line("header_regexp"@, list), depth)
            == matchers::header_regexp(line("header_regexp"@, list)),
{
    lemma_condition_names();
}

/// `not` is met where the condition behind it is not.
pub proof fn not_negates_the_condition_behind_it(
    profile: Profile,
    inner: Seq<char>,
    list: Seq<Seq<char>>,
    depth: int,
    seen: Seen,
)
    requires
        depth < matchers::MAX_MATCHER_NESTING,
    ensures
        matchers::condition(profile, line(inner, list), depth + 1) matches Ok(m) ==> (
        matchers::condition(profile, line("not"@, seq![inner] + list), depth) matches Ok(n) && (
        matcher_sets::met(n, seen) <==> !matcher_sets::met(m, seen))),
        matchers::condition(profile, line(inner, list), depth + 1) is Err ==> matchers::condition(
            profile,
            line("not"@, seq![inner] + list),
            depth,
        ) is Err,
{
    assert((seq![inner] + list).skip(1) =~= list);
}

/// A conjunction is met where each of its conditions is.
proof fn lemma_conjunction_met(list: Seq<MatcherV>, seen: Seen)
    requires
        list.len() > 0,
    ensures
        matcher_sets::met(matchers::conjunction(list), seen) <==> forall|i: int|
            0 <= i < list.len() ==> matcher_sets::met(#[trigger] list[i], seen),
    decreases list.len(),
{
    if list.len() > 1 {
        let front = list.drop_last();
        lemma_conjunction_met(front, seen);
        if forall|i: int| 0 <= i < front.len() ==> matcher_sets::met(#[trigger] front[i], seen) {
            if matcher_sets::met(list.last(), seen) {
                assert forall|i: int| 0 <= i < list.len() implies matcher_sets::met(
                    #[trigger] list[i],
                    seen,
                ) by {
                    if i < front.len() {
                        assert(front[i] == list[i]);
                    }
                }
            }
        } else {
            let i = choose|i: int|
                0 <= i < front.len() && !matcher_sets::met(#[trigger] front[i], seen);
            assert(list[i] == front[i]);
        }
        assert(list.last() == list[list.len() - 1]);
    }
}

/// `not` with a block is met where one of the conditions of the block is not.
pub proof fn not_negates_its_block_as_a_whole(
    profile: Profile,
    d: DirectiveV,
    lines: Seq<DirectiveV>,
    list: Seq<MatcherV>,
    depth: int,
    seen: Seen,
)
    requires
        depth < matchers::MAX_MATCHER_NESTING,
        d.name == "not"@,
        lines.len() > 0,
        lines.len() == list.len(),
        forall|i: int|
            0 <= i < lines.len() ==> matchers::condition(profile, #[trigger] lines[i], depth + 1)
                == Ok::<MatcherV, ErrorV>(list[i]),
    ensures
        matchers::condition(profile, with_block(d, lines), depth) matches Ok(m) && (
        matcher_sets::met(m, seen) <==> !(forall|i: int|
            0 <= i < list.len() ==> matcher_sets::met(#[trigger] list[i], seen))),
{
    lemma_conditions(profile, lines, list, depth + 1);
    lemma_conjunction_met(list, seen);
}

proof fn lemma_conditions(
    profile: Profile,
    lines: Seq<DirectiveV>,
    list: Seq<MatcherV>,
    depth: int,
)
    requires
        lines.len() == list.len(),
        forall|i: int|
            0 <= i < lines.len() ==> matchers::condition(profile, #[trigger] lines[i], depth)
                == Ok::<MatcherV, ErrorV>(list[i]),
    ensures
        matchers::conditions(profile, lines, depth) == Ok::<Seq<MatcherV>, ErrorV>(list),
    decreases lines.len(),
{
    if lines.len() == 0 {
        assert(list =~= Seq::empty());
    } else {
        let n = lines.len() - 1;
        assert forall|i: int| 0 <= i < n implies matchers::condition(
            profile,
            #[trigger] lines.drop_last()[i],
            depth,
        ) == Ok::<MatcherV, ErrorV>(list.drop_last()[i]) by {
            assert(lines.drop_last()[i] == lines[i]);
        }
        lemma_conditions(profile, lines.drop_last(), list.drop_last(), depth);
        assert(lines.last() == lines[n]);
        assert(list.drop_last().push(list[n]) =~= list);
    }
}

/// A definition on one line states the condition that follows the name.
pub proof fn a_definition_states_what_follows_its_name(
    profile: Profile,
    name: Seq<char>,
    inner: Seq<char>,
    list: Seq<Seq<char>>,
)
    ensures
        matcher_sets::definition(profile, line(name, seq![inner] + list)) == matchers::condition(
            profile,
            line(inner, list),
            0,
        ),
{
    assert((seq![inner] + list).skip(1) =~= list);
}

// ---------------------------------------------------------------------------
// Tokens
// ---------------------------------------------------------------------------
/// Before most directives, a first argument with a leading `@` is a named matcher and one with a
/// leading slash is a path; any other is no matcher.
pub proof fn a_leading_mark_makes_a_matcher(d: DirectiveV)
    requires
        d.args.len() > 0,
        d.name != "redir"@ && d.name != "redirect"@ && d.name != "root"@ && d.name
            != "file_server"@,
    ensures
        text::starts_char(d.args[0], '@') ==> matchers::matcher_of(Profile::Extended, d) == Some(
            MatcherV::Named(d.args[0]),
        ),
        text::starts_char(d.args[0], '/') ==> matchers::matcher_of(Profile::Extended, d) == Some(
            MatcherV::Path(PathMatcherV { patterns: seq![d.args[0]] }),
        ),
        !text::starts_char(d.args[0], '@') && !text::starts_char(d.args[0], '/')
            ==> matchers::matcher_of(Profile::Extended, d) is None,
{
}

/// A redirect has a matcher where a path or an address with a scheme follows it; a lone path, or
/// one before a status, is the target.
pub proof fn a_redirect_has_a_matcher_before_its_target(
    name: Seq<char>,
    path: Seq<char>,
    to: Seq<char>,
    rest: Seq<Seq<char>>,
    code: u16,
)
    requires
        name == "redir"@ || name == "redirect"@,
        text::starts_char(path, '/'),
        text::starts_char(to, '/'),
    ensures
        matchers::matcher_of(Profile::Extended, line(name, seq![path, to] + rest)) == Some(
            MatcherV::Path(PathMatcherV { patterns: seq![path] }),
        ),
        matchers::matcher_of(Profile::Extended, line(name, seq![path])) is None,
        matchers::matcher_of(
            Profile::Extended,
            line(name, seq![path, text::shown(code as nat)]),
        ) is None,
{
    let args = seq![path, to] + rest;
    assert(args[0] == path && args[1] == to);
    assert(!text::digits(to));
    assert(text::as_u16(to) is None);
    crate::adapter::handler_laws::lemma_code(code);
}

/// The only argument of `root` is its directory; with two, the first is a matcher.
pub proof fn a_root_has_a_matcher_before_its_directory(path: Seq<char>, to: Seq<char>)
    requires
        text::starts_char(path, '/'),
    ensures
        matchers::matcher_of(Profile::Extended, line("root"@, seq![path])) is None,
        matchers::matcher_of(Profile::Extended, line("root"@, seq![path, to])) == Some(
            MatcherV::Path(PathMatcherV { patterns: seq![path] }),
        ),
{
    reveal_strlit("root");
    reveal_strlit("redir");
    reveal_strlit("redirect");
    reveal_strlit("file_server");
    assert("root"@.len() == 4);
    assert("redir"@.len() == 5);
    assert("redirect"@.len() == 8);
    assert("file_server"@.len() == 11);
}

/// A path with a wildcard before `file_server` is a matcher; any other is its directory.
pub proof fn a_file_server_has_a_matcher_with_a_wildcard(path: Seq<char>, rest: Seq<Seq<char>>)
    requires
        text::starts_char(path, '/'),
    ensures
        matchers::matcher_of(Profile::Extended, line("file_server"@, seq![path] + rest)) == (
        if path.contains('*') {
            Some(MatcherV::Path(PathMatcherV { patterns: seq![path] }))
        } else {
            None
        }),
{
    reveal_strlit("root");
    reveal_strlit("redir");
    reveal_strlit("redirect");
    reveal_strlit("file_server");
    assert("root"@.len() == 4);
    assert("redir"@.len() == 5);
    assert("redirect"@.len() == 8);
    assert("file_server"@.len() == 11);
    assert((seq![path] + rest)[0] == path);
}

/// In the core profile a path is a matcher only with a wildcard in it.
pub proof fn a_core_matcher_needs_a_wildcard(d: DirectiveV)
    requires
        d.args.len() > 0,
    ensures
        text::starts_char(d.args[0], '/') && d.args[0].contains('*') ==> matchers::matcher_of(
            Profile::Core,
            d,
        ) == Some(MatcherV::Path(PathMatcherV { patterns: seq![d.args[0]] })),
        text::starts_char(d.args[0], '/') && !d.args[0].contains('*') ==> matchers::matcher_of(
            Profile::Core,
            d,
        ) is None,
        text::starts_char(d.args[0], '@') ==> matchers::matcher_of(Profile::Core, d) == Some(
            MatcherV::Named(d.args[0]),
        ),
{
}

/// The first argument of `route`, `handle` and `handle_path` is a matcher wherever it has a leading
/// mark.
pub proof fn a_block_has_its_matcher_first(d: DirectiveV)
    ensures
        d.args.len() == 0 ==> matchers::route_matcher_of(d) is None,
        d.args.len() > 0 && text::starts_char(d.args[0], '@') ==> matchers::route_matcher_of(d)
            == Some(MatcherV::Named(d.args[0])),
        d.args.len() > 0 && text::starts_char(d.args[0], '/') ==> matchers::route_matcher_of(d)
            == Some(MatcherV::Path(PathMatcherV { patterns: seq![d.args[0]] })),
{
}

} // verus!
