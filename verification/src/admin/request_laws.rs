//! What requests to the admin interface mean.

use crate::admin::auth;
use crate::admin::auth::AuthDecision;
use crate::admin::config_tree;
use crate::admin::config_tree::TreeErrorV;
use crate::admin::json;
use crate::admin::json::JsonV;
use crate::admin::requests;
use crate::admin::requests::{ActionV, Format, Method, ReplyV};
use crate::admin::tree_laws;
use crate::ip;
use crate::piece_laws;
use crate::text;
use vstd::prelude::*;

verus! {

// ---------------------------------------------------------------------------
// Paths
// ---------------------------------------------------------------------------
/// Segments as they are written in a path, each behind a slash.
pub open spec fn written_path(list: Seq<Seq<char>>) -> Seq<char>
    decreases list.len(),
{
    if list.len() == 0 {
        Seq::empty()
    } else {
        written_path(list.drop_last()) + seq!['/'] + list.last()
    }
}

/// Segments that can be written in a path: not empty, and without a slash.
pub open spec fn are_segments(list: Seq<Seq<char>>) -> bool {
    forall|i: int| 0 <= i < list.len() ==> (#[trigger] list[i]).len() > 0 && !list[i].contains('/')
}

/// What stands between the slashes of a written path.
proof fn lemma_path_pieces(list: Seq<Seq<char>>)
    requires
        are_segments(list),
    ensures
        text::pieces(written_path(list), '/') == seq![Seq::<char>::empty()] + list,
    decreases list.len(),
{
    if list.len() == 0 {
        assert(text::pieces(written_path(list), '/') =~= seq![Seq::<char>::empty()] + list);
    } else {
        let front = list.drop_last();
        lemma_fewer_segments(list);
        lemma_path_pieces(front);
        assert(!list[list.len() - 1].contains('/'));
        piece_laws::the_last_piece_stands_behind_the_last_separator(
            written_path(front),
            list.last(),
            '/',
        );
        assert((seq![Seq::<char>::empty()] + front).push(list.last()) =~= seq![
            Seq::<char>::empty(),
        ] + list);
    }
}

proof fn lemma_fewer_segments(list: Seq<Seq<char>>)
    requires
        are_segments(list),
        list.len() > 0,
    ensures
        are_segments(list.drop_last()),
{
    let front = list.drop_last();
    assert forall|i: int| 0 <= i < front.len() implies (#[trigger] front[i]).len() > 0
        && !front[i].contains('/') by {
        assert(front[i] == list[i]);
    }
}

/// Each segment is kept.
proof fn lemma_all_kept(list: Seq<Seq<char>>, keep: spec_fn(Seq<char>) -> bool)
    requires
        forall|i: int| 0 <= i < list.len() ==> keep(#[trigger] list[i]),
    ensures
        list.filter(keep) == list,
    decreases list.len(),
{
    reveal(Seq::filter);
    if list.len() > 0 {
        let front = list.drop_last();
        assert forall|i: int| 0 <= i < front.len() implies keep(#[trigger] front[i]) by {
            assert(front[i] == list[i]);
        }
        lemma_all_kept(front, keep);
        assert(keep(list[list.len() - 1]));
        assert(front.push(list.last()) =~= list);
    }
}

/// The empty piece before the first slash is no segment, and each other piece is one.
proof fn lemma_kept(list: Seq<Seq<char>>)
    requires
        are_segments(list),
    ensures
        (seq![Seq::<char>::empty()] + list).filter(|s: Seq<char>| s.len() > 0) == list,
{
    let keep = |s: Seq<char>| s.len() > 0;
    let one = seq![Seq::<char>::empty()];
    Seq::filter_distributes_over_add(one, list, keep);
    one.lemma_all_neg_filter_empty(keep);
    lemma_all_kept(list, keep);
    assert(one.filter(keep) + list =~= list);
}

/// Segments that are written in a path are read back from it.
pub proof fn a_path_is_its_segments(list: Seq<Seq<char>>)
    requires
        are_segments(list),
    ensures
        config_tree::segments(written_path(list)) == list,
{
    lemma_path_pieces(list);
    lemma_kept(list);
}

proof fn lemma_config_path(tail: Seq<char>)
    requires
        tail.len() > 1,
        tail[0] == '/',
    ensures
        ({
            let path = "/config"@ + tail;
            &&& path.skip("/config"@.len() as int) == tail
            &&& text::starts(path, "/config"@) && text::starts(path, "/config/"@)
            &&& path != "/config"@ && path != "/config/"@
            &&& path != "/health"@ && path != "/live"@ && path != "/ready"@ && path != "/metrics"@
            &&& path != "/cache/purge"@ && path != "/load"@ && path != "/adapt"@ && path
                != "/stop"@
        }),
{
    let path = "/config"@ + tail;
    reveal_strlit("/health");
    reveal_strlit("/live");
    reveal_strlit("/ready");
    reveal_strlit("/metrics");
    reveal_strlit("/cache/purge");
    reveal_strlit("/load");
    reveal_strlit("/adapt");
    reveal_strlit("/stop");
    reveal_strlit("/config");
    reveal_strlit("/config/");
    assert("/config"@.len() == 7 && "/config/"@.len() == 8);
    assert(path.skip(7) =~= tail);
    assert(path.take(7) =~= "/config"@);
    assert(path.take(8) =~= "/config/"@);
    assert(path.len() > 8);
    assert(path[1] == 'c' && path[2] == 'o');
    assert("/cache/purge"@[2] == 'a');
    assert("/health"@[1] == 'h' && "/live"@[1] == 'l' && "/ready"@[1] == 'r' && "/metrics"@[1]
        == 'm' && "/load"@[1] == 'l' && "/adapt"@[1] == 'a' && "/stop"@[1] == 's');
}

/// A request on the configuration is about the place that its path names, in the way of its method.
pub proof fn a_request_is_about_the_place_that_its_path_names(list: Seq<Seq<char>>)
    requires
        are_segments(list),
        list.len() > 1,
    ensures
        requests::requested(Method::Get, "/config"@ + written_path(list)) == ActionV::Read(list),
        requests::requested(Method::Post, "/config"@ + written_path(list)) == ActionV::Change(
            Method::Post,
            list,
        ),
        requests::requested(Method::Put, "/config"@ + written_path(list)) == ActionV::Change(
            Method::Put,
            list,
        ),
        requests::requested(Method::Patch, "/config"@ + written_path(list)) == ActionV::Change(
            Method::Patch,
            list,
        ),
        requests::requested(Method::Delete, "/config"@ + written_path(list)) == ActionV::Change(
            Method::Delete,
            list,
        ),
{
    a_path_is_its_segments(list);
    lemma_written_path(list);
    lemma_config_path(written_path(list));
}

proof fn lemma_written_path(list: Seq<Seq<char>>)
    requires
        are_segments(list),
        list.len() > 0,
    ensures
        written_path(list).len() > 1,
        written_path(list)[0] == '/',
    decreases list.len(),
{
    let front = list.drop_last();
    assert(list[list.len() - 1].len() > 0);
    if front.len() > 0 {
        assert(are_segments(front)) by {
            assert forall|i: int| 0 <= i < front.len() implies (#[trigger] front[i]).len() > 0
                && !front[i].contains('/') by {
                assert(front[i] == list[i]);
            }
        }
        lemma_written_path(front);
    } else {
        assert(written_path(front) =~= Seq::empty());
    }
}

/// A lone number stands for the server of that number.
pub proof fn a_lone_number_stands_for_a_server(n: usize)
    ensures
        requests::normalized(seq![text::shown(n as nat)]) == seq![
            "servers"@,
            text::shown(n as nat),
        ],
{
    text::a_shown_number_reads_back(n as nat);
    assert(text::number(text::shown(n as nat), usize::MAX as nat) == Some(n as nat));
}

/// A tag stands before the first slash, and a path behind it.
pub proof fn a_tag_stands_before_its_path(name: Seq<char>, rest: Seq<char>)
    requires
        !name.contains('/'),
    ensures
        requests::tag_parts(name + seq!['/'] + rest) == (name, rest),
        requests::tag_parts(name) == (name, Seq::<char>::empty()),
{
    let s = name + seq!['/'] + rest;
    assert(s[name.len() as int] == '/');
    assert(s.contains('/'));
    s.index_of_first_ensures('/');
    name.index_of_first_ensures('/');
    let i = s.index_of_first('/')->Some_0;
    assert(i == name.len()) by {
        if i < name.len() {
            assert(name[i] == '/');
            assert(name.contains('/'));
        }
    }
    assert(s.take(i) =~= name);
    assert(s.skip(i + 1) =~= rest);
}

// ---------------------------------------------------------------------------
// Methods
// ---------------------------------------------------------------------------
/// PATCH changes what is there and nothing else: where nothing is there it is answered with an
/// error.
pub proof fn patch_needs_something_that_is_there(
    doc: JsonV,
    path: Seq<Seq<char>>,
    value: JsonV,
)
    requires
        path.len() == 0 || path.last() != "..."@,
    ensures
        requests::changed(doc, Method::Patch, path, Some(value)) is Ok <==> config_tree::found(
            doc,
            path,
        ) is Ok,
{
    tree_laws::a_replacement_needs_something_to_replace(doc, path, value);
}

/// PUT creates a field and never replaces one: a field that is there is a conflict, where POST
/// replaces it.
pub proof fn put_creates_and_post_replaces(
    fields: Seq<(Seq<char>, JsonV)>,
    name: Seq<char>,
    value: JsonV,
)
    requires
        name != "..."@,
    ensures
        ({
            let doc = JsonV::Object(fields);
            let there = json::slot(fields, name) is Some;
            let put = requests::changed(doc, Method::Put, seq![name], Some(value));
            let post = requests::changed(doc, Method::Post, seq![name], Some(value));
            let patch = requests::changed(doc, Method::Patch, seq![name], Some(value));
            &&& there ==> (put matches Err(r) && r.status == 409)
            &&& !there ==> put is Ok && put == post
            &&& post is Ok
            &&& there ==> patch == post
            &&& !there ==> (patch matches Err(r) && r.status == 404)
        }),
{
    assert(seq![name].last() == name);
}

/// In a list PUT makes room for an item, and POST and PATCH replace one.
pub proof fn put_makes_room_in_a_list(items: Seq<JsonV>, i: usize, value: JsonV)
    requires
        i < items.len(),
    ensures
        ({
            let doc = JsonV::Array(items);
            let path = seq![text::shown(i as nat)];
            &&& requests::changed(doc, Method::Put, path, Some(value)) == Ok::<JsonV, ReplyV>(
                JsonV::Array(items.insert(i as int, value)),
            )
            &&& requests::changed(doc, Method::Post, path, Some(value)) == Ok::<JsonV, ReplyV>(
                JsonV::Array(items.update(i as int, value)),
            )
            &&& requests::changed(doc, Method::Patch, path, Some(value)) == Ok::<JsonV, ReplyV>(
                JsonV::Array(items.update(i as int, value)),
            )
            &&& requests::changed(doc, Method::Delete, path, None) == Ok::<JsonV, ReplyV>(
                JsonV::Array(items.remove(i as int)),
            )
        }),
{
    let path = seq![text::shown(i as nat)];
    text::a_shown_number_reads_back(i as nat);
    assert(text::number(text::shown(i as nat), usize::MAX as nat) == Some(i as nat));
    reveal_strlit("...");
    assert("..."@[0] == '.');
    assert(text::digit(text::shown(i as nat)[0]));
    assert(path.last() != "..."@);
}

/// A change without a body is refused, unless it removes something.
pub proof fn a_change_needs_a_body(doc: JsonV, method: Method, path: Seq<Seq<char>>)
    requires
        method != Method::Delete,
    ensures
        requests::changed(doc, method, path, None) matches Err(r) && r.status == 400,
{
}

/// What is not there is not found, what is there already is a conflict, and what makes no sense is
/// a bad request.
pub proof fn an_error_of_the_tree_is_answered_by_its_kind(reason: Seq<char>)
    ensures
        requests::refusal(TreeErrorV::NotFound).status == 404,
        requests::refusal(TreeErrorV::Conflict).status == 409,
        requests::refusal(TreeErrorV::Invalid(reason)).status == 400,
{
}

/// Where a text occurs, it is found.
proof fn lemma_found(s: Seq<char>, p: Seq<char>, from: int, at: int)
    requires
        0 <= from <= at,
        at + p.len() <= s.len(),
        s.subrange(at, at + p.len()) == p,
    ensures
        text::position_from(s, p, from) is Some,
    decreases at - from,
{
    if from < at {
        lemma_found(s, p, from + 1, at);
    }
}

/// A body is written in the format that its content type names, whatever stands around the name and
/// in any case; without a content type it is JSON.
pub proof fn a_content_type_names_the_format(before: Seq<char>, name: Seq<char>, behind: Seq<char>)
    requires
        text::lower(name) == "caddyfile"@,
    ensures
        requests::format_of(Some(before + name + behind)) == Format::Caddyfile,
        requests::format_of(None) == Format::Json,
{
    let s = text::lower(before + name + behind);
    let n = before.len() as int;
    assert(s.subrange(n, n + name.len()) =~= text::lower(name));
    lemma_found(s, "caddyfile"@, 0, n);
}

// ---------------------------------------------------------------------------
// Who may ask
// ---------------------------------------------------------------------------
/// With a key, a request is allowed exactly where it presents that key, wherever it comes from.
pub proof fn a_key_is_presented_as_it_is(
    key: Seq<char>,
    presented: Seq<char>,
    peer: ip::IpAddressV,
)
    ensures
        auth::decision(Some(key), Some("Bearer "@ + presented), peer) == AuthDecision::Allowed
            <==> presented == key,
        auth::decision(Some(key), None, peer) == AuthDecision::Unauthorized,
        presented != key ==> auth::decision(Some(key), Some("Bearer "@ + presented), peer)
            == AuthDecision::Unauthorized,
{
    let a = "Bearer "@ + key;
    let b = "Bearer "@ + presented;
    let n = "Bearer "@.len() as int;
    assert(a.skip(n) =~= key);
    assert(b.skip(n) =~= presented);
}

/// Without a key, what a request presents does not matter: those from the machine itself are
/// allowed, and others are forbidden.
pub proof fn without_a_key_only_the_machine_itself_may_ask(
    authorization: Option<Seq<char>>,
    peer: ip::IpAddressV,
)
    ensures
        auth::decision(None, authorization, peer) == AuthDecision::Allowed <==> ip::loopback(peer),
        !ip::loopback(peer) ==> auth::decision(None, authorization, peer)
            == AuthDecision::Forbidden,
{
}

/// The port of a host does not matter.
pub proof fn the_port_of_a_host_does_not_matter(host: Seq<char>, port: Seq<char>)
    requires
        !host.contains(':'),
        !host.contains(']'),
        !text::starts_char(host, '['),
        host.len() > 0,
    ensures
        auth::bare(host + seq![':'] + port) == host,
        auth::bare(host) == host,
{
    let s = host + seq![':'] + port;
    assert(s[host.len() as int] == ':');
    assert(s.contains(':'));
    s.index_of_first_ensures(':');
    host.index_of_first_ensures(':');
    host.index_of_first_ensures(']');
    let i = s.index_of_first(':')->Some_0;
    assert(i == host.len()) by {
        if i < host.len() {
            assert(host[i] == ':');
            assert(host.contains(':'));
        }
    }
    assert(s.take(i) =~= host);
    assert(s[0] == host[0]);
}

} // verus!
