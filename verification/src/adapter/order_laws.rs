//! What does not depend on where a line is written, and what does.

use crate::adapter::content;
use crate::adapter::handlers;
use crate::adapter::matchers;
use crate::adapter::order;
use crate::adapter::profile::Profile;
use crate::adapter::ranks;
use crate::adapter::route_order;
use crate::adapter::sites;
use crate::arrange;
use crate::ast::handler::HeadersConfigV;
use crate::ast::tree::{HandlerV, MatcherV, RouteArmV, ServerBlockV};
use crate::error;
use crate::error::ErrorV;
use crate::fold;
use crate::syntax::DirectiveV;
use crate::text;
use vstd::prelude::*;

verus! {

// ---------------------------------------------------------------------------
// Handlers without a matcher
// ---------------------------------------------------------------------------
/// The order in which handlers without a matcher are written does not matter, as long as those of
/// the same rank stay in turn: the pipeline is the same. `moved` tells which of the handlers
/// stands at each place.
pub proof fn the_pipeline_is_the_same_in_any_order(
    profile: Profile,
    names: Seq<Seq<char>>,
    list: Seq<HandlerV>,
    moved: Seq<int>,
)
    requires
        names.len() <= usize::MAX,
        arrange::covers(moved, list.len() as int),
        forall|i: int, j: int|
            0 <= i < j < moved.len() && ranks::handler_rank(
                profile,
                names,
                list[#[trigger] moved[i]],
            ) == ranks::handler_rank(profile, names, list[#[trigger] moved[j]]) ==> moved[i]
                < moved[j],
    ensures
        sites::sorted_defaults(profile, names, arrange::arranged(list, moved))
            == sites::sorted_defaults(profile, names, list),
{
    let other = arrange::arranged(list, moved);
    let key = |h: HandlerV| sites::rank_key(ranks::handler_rank(profile, names, h));
    let keys = list.map_values(key);
    assert(other.map_values(key) =~= arrange::arranged(keys, moved));
    assert forall|i: int, j: int|
        0 <= i < j < moved.len() && keys[#[trigger] moved[i]] == keys[#[trigger] moved[j]] implies
        moved[i] < moved[j] by {
        let a = list[moved[i]];
        let b = list[moved[j]];
        order::lemma_rank(names, ranks::directive_name(a));
        order::lemma_rank(names, ranks::directive_name(b));
        assert(keys[moved[i]][0] == keys[moved[j]][0]);
    }
    arrange::a_stable_order_finds_moved_keys(keys, moved);
    arrange::a_stable_order_follows_the_keys(keys);
    arrange::a_stable_order_follows_the_keys(arrange::arranged(keys, moved));
    let found = arrange::stable_order(arrange::arranged(keys, moved));
    let places = arrange::stable_order(keys);
    assert(sites::sorted_defaults(profile, names, other) =~= sites::sorted_defaults(
        profile,
        names,
        list,
    )) by {
        assert forall|p: int| 0 <= p < places.len() implies other[found[p]] == list[places[p]] by {
            assert(arrange::arranged(moved, found)[p] == moved[found[p]]);
        }
    }
}

proof fn lemma_fold_joined<S>(
    step: spec_fn(S, DirectiveV) -> Result<S, ErrorV>,
    state: S,
    a: Seq<DirectiveV>,
    b: Seq<DirectiveV>,
)
    ensures
        fold::fold(step, state, a + b) == match fold::fold(step, state, a) {
            Err(e) => Err(e),
            Ok(next) => fold::fold(step, next, b),
        },
    decreases a.len(),
{
    if a.len() == 0 {
        assert(a + b =~= b);
    } else {
        assert((a + b)[0] == a[0]);
        assert((a + b).drop_first() =~= a.drop_first() + b);
        if let Ok(next) = step(state, a[0]) {
            lemma_fold_joined(step, next, a.drop_first(), b);
        }
    }
}

/// The same draft with other handlers without a matcher.
pub open spec fn with_defaults(c: sites::SiteDraftV, defaults: Seq<HandlerV>) -> sites::SiteDraftV {
    sites::SiteDraftV { defaults, ..c }
}

/// Whether `r` and `s` are what a line makes of `c` and of the same draft with other handlers:
/// it keeps those that are there, and may put one behind them.
pub open spec fn alike(
    c: sites::SiteDraftV,
    r: Result<sites::SiteDraftV, ErrorV>,
    defaults: Seq<HandlerV>,
    s: Result<sites::SiteDraftV, ErrorV>,
) -> bool {
    match r {
        Err(e) => s == Err::<sites::SiteDraftV, ErrorV>(e),
        Ok(next) => s == Ok::<sites::SiteDraftV, ErrorV>(
            with_defaults(next, defaults + next.defaults.skip(c.defaults.len() as int)),
        ) && next.defaults.len() >= c.defaults.len() && next.defaults.take(
            c.defaults.len() as int,
        ) == c.defaults,
    }
}

proof fn lemma_handler_adds(
    c: sites::SiteDraftV,
    defaults: Seq<HandlerV>,
    m: Option<MatcherV>,
    r: Result<HandlerV, ErrorV>,
)
    ensures
        alike(
            c,
            error::with(r, |h: HandlerV| sites::with_handler(c, m, h)),
            defaults,
            error::with(r, |h: HandlerV| sites::with_handler(with_defaults(c, defaults), m, h)),
        ),
{
    let n = c.defaults.len() as int;
    if let Ok(h) = r {
        assert(defaults + c.defaults.skip(n) =~= defaults);
        assert(c.defaults.take(n) =~= c.defaults);
        assert(c.defaults.push(h).take(n) =~= c.defaults);
        assert(defaults + c.defaults.push(h).skip(n) =~= defaults.push(h));
    }
}

proof fn lemma_server_changes(
    c: sites::SiteDraftV,
    defaults: Seq<HandlerV>,
    r: Result<ServerBlockV, ErrorV>,
)
    ensures
        alike(
            c,
            error::with(r, |server: ServerBlockV| sites::SiteDraftV { server, ..c }),
            defaults,
            error::with(
                r,
                |server: ServerBlockV|
                    sites::SiteDraftV { server, ..with_defaults(c, defaults) },
            ),
        ),
{
    let n = c.defaults.len() as int;
    assert(defaults + c.defaults.skip(n) =~= defaults);
    assert(c.defaults.take(n) =~= c.defaults);
}

/// What a line does to a draft does not depend on the handlers without a matcher that are there.
#[verifier::rlimit(60)]
#[verifier::spinoff_prover]
proof fn lemma_line_adds(
    profile: Profile,
    c: sites::SiteDraftV,
    d: DirectiveV,
    names: Seq<Seq<char>>,
    defaults: Seq<HandlerV>,
)
    ensures
        alike(
            c,
            sites::site_line(profile, c, d, names),
            defaults,
            sites::site_line(profile, with_defaults(c, defaults), d, names),
        ),
{
    let n = c.defaults.len() as int;
    let other = with_defaults(c, defaults);
    let scope = c.server.matchers;
    assert(defaults + c.defaults.skip(n) =~= defaults);
    assert(c.defaults.take(n) =~= c.defaults);
    if sites::is_setting(d.name) {
        lemma_server_changes(c, defaults, sites::setting(profile, c.server, d));
    } else if d.name == "route"@ || d.name == "handle"@ {
        let m = matchers::route_matcher_of(d);
        match profile {
            Profile::Core => {
                if let Some(lines) = d.block {
                    lemma_handler_adds(
                        c,
                        defaults,
                        m,
                        error::with(
                            sites::core_handlers(lines),
                            |list: Seq<HandlerV>| HandlerV::Pipeline(sites::unguarded(list)),
                        ),
                    );
                }
            },
            Profile::Extended => {
                lemma_handler_adds(c, defaults, m, handlers::handler(profile, d, scope, names));
            },
        }
    } else if profile == Profile::Extended && d.name == "handle_path"@ {
        if let Ok((m, h)) = handlers::path_handler(d, scope, names) {
            lemma_handler_adds(c, defaults, Some(m), Ok(h));
        }
    } else if text::starts_char(d.name, '@') {
    } else if d.name == "header"@ {
        if let Ok(h) = content::header(d) {
            lemma_handler_adds(c, defaults, matchers::matcher_of(profile, d), Ok(HandlerV::Headers(h)));
        }
    } else {
        let m = sites::line_matcher(profile, d);
        let own = if m is Some {
            handlers::shifted(d)
        } else {
            d
        };
        lemma_handler_adds(c, defaults, m, sites::line_handler(profile, own, scope, names));
    }
}

/// One step of reading a site.
pub type Reading = spec_fn(sites::SiteDraftV, DirectiveV) -> Result<sites::SiteDraftV, ErrorV>;

/// Whether what a step does to a draft does not depend on the handlers without a matcher that are
/// there.
pub open spec fn additive(step: Reading) -> bool {
    forall|c: sites::SiteDraftV, d: DirectiveV, defaults: Seq<HandlerV>| #[trigger]
        alike(c, step(c, d), defaults, step(with_defaults(c, defaults), d))
}

/// How a site is read, line by line.
pub open spec fn reading(profile: Profile, names: Seq<Seq<char>>) -> Reading {
    |c: sites::SiteDraftV, o: DirectiveV| sites::site_line(profile, c, o, names)
}

proof fn lemma_reading_is_additive(profile: Profile, names: Seq<Seq<char>>)
    ensures
        additive(reading(profile, names)),
{
    let step = reading(profile, names);
    assert forall|c: sites::SiteDraftV, d: DirectiveV, defaults: Seq<HandlerV>| #[trigger]
        alike(c, step(c, d), defaults, step(with_defaults(c, defaults), d)) by {
        lemma_line_adds(profile, c, d, names, defaults);
    }
}

/// What reading a site after `front` makes of the line `line`: with `added`, it puts that handler
/// behind those without a matcher and does nothing else; without, it puts none there.
pub open spec fn adds(
    profile: Profile,
    names: Seq<Seq<char>>,
    d: DirectiveV,
    front: Seq<DirectiveV>,
    line: DirectiveV,
    added: Option<HandlerV>,
) -> bool {
    match sites::drafted(profile, d, front, names) {
        Err(_) => true,
        Ok(c) => match added {
            Some(h) => sites::site_line(profile, c, line, names) == Ok::<sites::SiteDraftV, ErrorV>(
                with_defaults(c, c.defaults.push(h)),
            ),
            None => sites::site_line(profile, c, line, names) matches Ok(next) ==> next.defaults
                == c.defaults,
        },
    }
}

/// Whether `added` tells of each line of a site which handler without a matcher it adds.
pub open spec fn tells(
    profile: Profile,
    names: Seq<Seq<char>>,
    d: DirectiveV,
    lines: Seq<DirectiveV>,
    added: Seq<Option<HandlerV>>,
) -> bool {
    added.len() == lines.len() && forall|i: int|
        0 <= i < lines.len() ==> adds(
            profile,
            names,
            d,
            #[trigger] lines.take(i),
            lines[i],
            added[i],
        )
}

proof fn lemma_fold_pushed<S>(
    step: spec_fn(S, DirectiveV) -> Result<S, ErrorV>,
    state: S,
    list: Seq<DirectiveV>,
    last: DirectiveV,
)
    ensures
        fold::fold(step, state, list.push(last)) == match fold::fold(step, state, list) {
            Err(e) => Err(e),
            Ok(next) => step(next, last),
        },
{
    assert(list.push(last) =~= list + seq![last]);
    lemma_fold_joined(step, state, list, seq![last]);
    if let Ok(next) = fold::fold(step, state, list) {
        assert(seq![last].drop_first() =~= Seq::empty());
        reveal_with_fuel(fold::fold, 2);
    }
}

/// The lines at these places add no handler without a matcher.
spec fn silent(added: Seq<Option<HandlerV>>) -> spec_fn(int) -> bool {
    |k: int| added[k] is None
}

/// The lines at these places add a handler without a matcher.
spec fn adding(added: Seq<Option<HandlerV>>) -> spec_fn(int) -> bool {
    |k: int| added[k] is Some
}

/// Reading lines in some order is reading those that add no handler without a matcher; the
/// handlers that the others add stand in the order of their lines.
proof fn lemma_lines_apart(
    step: Reading,
    start: sites::SiteDraftV,
    lines: Seq<DirectiveV>,
    added: Seq<Option<HandlerV>>,
    order: Seq<int>,
)
    requires
        additive(step),
        start.defaults.len() == 0,
        forall|i: int|
            0 <= i < order.len() ==> match fold::fold(
                step,
                start,
                arrange::arranged(lines, #[trigger] order.take(i)),
            ) {
                Err(_) => true,
                Ok(c) => match added[order[i]] {
                    Some(h) => step(c, lines[order[i]]) == Ok::<sites::SiteDraftV, ErrorV>(
                        with_defaults(c, c.defaults.push(h)),
                    ),
                    None => step(c, lines[order[i]]) matches Ok(next) ==> next.defaults
                        == c.defaults,
                },
            },
    ensures
        match fold::fold(
            step,
            start,
            arrange::arranged(lines, arrange::chosen(order, silent(added))),
        ) {
            Err(e) => fold::fold(step, start, arrange::arranged(lines, order)) == Err::<
                sites::SiteDraftV,
                ErrorV,
            >(e),
            Ok(c) => c.defaults.len() == 0 && fold::fold(
                step,
                start,
                arrange::arranged(lines, order),
            ) == Ok::<sites::SiteDraftV, ErrorV>(
                with_defaults(
                    c,
                    Seq::new(
                        arrange::chosen(order, adding(added)).len(),
                        |i: int| added[arrange::chosen(order, adding(added))[i]]->Some_0,
                    ),
                ),
            ),
        },
    decreases order.len(),
{
    let quiet = arrange::chosen(order, silent(added));
    let loud = arrange::chosen(order, adding(added));
    let handlers = Seq::new(loud.len(), |i: int| added[loud[i]]->Some_0);
    if order.len() == 0 {
        assert(arrange::arranged(lines, order) =~= Seq::empty());
        assert(arrange::arranged(lines, quiet) =~= Seq::empty());
        assert(handlers =~= start.defaults);
    } else {
        let front = order.drop_last();
        let k = order.last();
        assert forall|i: int| 0 <= i < front.len() implies #[trigger] front.take(i) == order.take(
            i,
        ) by {
            assert(front.take(i) =~= order.take(i));
        }
        lemma_lines_apart(step, start, lines, added, front);
        assert(order.take(order.len() - 1) =~= front);
        assert(arrange::arranged(lines, order) =~= arrange::arranged(lines, front).push(lines[k]));
        lemma_fold_pushed(step, start, arrange::arranged(lines, front), lines[k]);
        let before = arrange::chosen(front, silent(added));
        let held = arrange::chosen(front, adding(added));
        let shown = Seq::new(held.len(), |i: int| added[held[i]]->Some_0);
        match added[k] {
            Some(h) => {
                assert(quiet == before);
                assert(loud == held.push(k));
                assert(handlers =~= shown.push(h));
            },
            None => {
                assert(quiet == before.push(k));
                assert(loud == held);
                assert(handlers =~= shown);
                assert(arrange::arranged(lines, quiet) =~= arrange::arranged(lines, before).push(
                    lines[k],
                ));
                lemma_fold_pushed(step, start, arrange::arranged(lines, before), lines[k]);
                if let Ok(c) = fold::fold(step, start, arrange::arranged(lines, before)) {
                    assert(alike(
                        c,
                        step(c, lines[k]),
                        shown,
                        step(with_defaults(c, shown), lines[k]),
                    ));
                    if let Ok(next) = step(c, lines[k]) {
                        assert(next.defaults.skip(0) =~= next.defaults);
                        let all = shown + next.defaults;
                        assert(all == shown);
                        assert(all.len() == shown.len() + next.defaults.len());
                    }
                }
            },
        }
    }
}

/// The handlers of lines in another order, as long as those of one rank stay in turn, make the
/// same pipeline.
proof fn lemma_same_pipeline(
    profile: Profile,
    names: Seq<Seq<char>>,
    added: Seq<Option<HandlerV>>,
    moved: Seq<int>,
)
    requires
        names.len() <= usize::MAX,
        arrange::covers(moved, added.len() as int),
        forall|i: int, j: int|
            0 <= i < j < moved.len() && added[#[trigger] moved[i]] is Some && added[
                #[trigger] moved[j]] is Some && ranks::handler_rank(
                profile,
                names,
                added[moved[i]]->Some_0,
            ) == ranks::handler_rank(profile, names, added[moved[j]]->Some_0) ==> moved[i]
                < moved[j],
    ensures
        ({
            let whole = arrange::chosen(arrange::in_turn(added.len()), adding(added));
            let other = arrange::chosen(moved, adding(added));
            sites::sorted_defaults(
                profile,
                names,
                Seq::new(other.len(), |i: int| added[other[i]]->Some_0),
            ) == sites::sorted_defaults(
                profile,
                names,
                Seq::new(whole.len(), |i: int| added[whole[i]]->Some_0),
            )
        }),
{
    let keep = adding(added);
    let all = arrange::in_turn(added.len());
    let whole = arrange::chosen(all, keep);
    let other = arrange::chosen(moved, keep);
    let list = Seq::new(whole.len(), |i: int| added[whole[i]]->Some_0);
    let turned = Seq::new(other.len(), |i: int| added[other[i]]->Some_0);
    let rank = |k: int| ranks::handler_rank(profile, names, added[k]->Some_0);
    arrange::lemma_chosen_related(all, keep, |a: int, b: int| a < b);
    arrange::lemma_chosen_related(moved, keep, |a: int, b: int| a != b);
    arrange::lemma_chosen_related(moved, keep, |a: int, b: int| rank(a) == rank(b) ==> a < b);
    lemma_same_places(added.len(), moved, keep);
    let places = arrange::lemma_rearranged(whole, other);
    assert(turned =~= arrange::arranged(list, places));
    assert forall|i: int, j: int|
        0 <= i < j < places.len() && ranks::handler_rank(
            profile,
            names,
            list[#[trigger] places[i]],
        ) == ranks::handler_rank(profile, names, list[#[trigger] places[j]]) implies places[i]
        < places[j] by {
        assert(other[i] == whole[places[i]]);
        assert(other[j] == whole[places[j]]);
        assert(rank(other[i]) == rank(other[j]));
        assert(other[i] < other[j]);
        if places[j] < places[i] {
            assert(whole[places[j]] < whole[places[i]]);
        }
    }
    the_pipeline_is_the_same_in_any_order(profile, names, list, places);
}

/// The places that are kept are the same in any order.
proof fn lemma_same_places(n: nat, moved: Seq<int>, keep: spec_fn(int) -> bool)
    requires
        arrange::covers(moved, n as int),
    ensures
        forall|x: int|
            arrange::chosen(arrange::in_turn(n), keep).contains(x) <==> arrange::chosen(
                moved,
                keep,
            ).contains(x),
{
    let all = arrange::in_turn(n);
    assert forall|x: int|
        arrange::chosen(all, keep).contains(x) <==> arrange::chosen(moved, keep).contains(x) by {
        arrange::lemma_chosen(all, keep, x);
        arrange::lemma_chosen(moved, keep, x);
        if 0 <= x < n {
            assert(all[x] == x);
            arrange::lemma_covers_all(moved, n as int, x);
        }
        if all.contains(x) {
            let k = choose|k: int| 0 <= k < all.len() && all[k] == x;
            assert(0 <= x < n);
        }
        if moved.contains(x) {
            let k = choose|k: int| 0 <= k < moved.len() && moved[k] == x;
            assert(0 <= moved[k] < n);
        }
    }
}

/// Moving lines does not change what a site does. The lines that add a handler without a matcher
/// may be written in any order and anywhere among the others, as long as handlers of the same rank
/// and all other lines stay in turn: the site is the same, or fails with the same error. `moved`
/// tells which line stands at each place, and `added` which handler each line adds, in either
/// order of the lines.
pub proof fn lines_can_be_written_in_any_order(
    profile: Profile,
    names: Seq<Seq<char>>,
    d: DirectiveV,
    lines: Seq<DirectiveV>,
    added: Seq<Option<HandlerV>>,
    moved: Seq<int>,
)
    requires
        names.len() <= usize::MAX,
        arrange::covers(moved, lines.len() as int),
        tells(profile, names, d, lines, added),
        tells(
            profile,
            names,
            d,
            arrange::arranged(lines, moved),
            arrange::arranged(added, moved),
        ),
        forall|i: int, j: int|
            0 <= i < j < moved.len() && added[#[trigger] moved[i]] is None && added[
                #[trigger] moved[j]] is None ==> moved[i] < moved[j],
        forall|i: int, j: int|
            0 <= i < j < moved.len() && added[#[trigger] moved[i]] is Some && added[
                #[trigger] moved[j]] is Some && ranks::handler_rank(
                profile,
                names,
                added[moved[i]]->Some_0,
            ) == ranks::handler_rank(profile, names, added[moved[j]]->Some_0) ==> moved[i]
                < moved[j],
    ensures
        sites::site(
            profile,
            DirectiveV { block: Some(arrange::arranged(lines, moved)), ..d },
            names,
        ) == sites::site(profile, DirectiveV { block: Some(lines), ..d }, names),
{
    let step = reading(profile, names);
    let all = arrange::in_turn(lines.len());
    let turned = arrange::arranged(lines, moved);
    let one = DirectiveV { block: Some(lines), ..d };
    let two = DirectiveV { block: Some(turned), ..d };
    lemma_reading_is_additive(profile, names);
    assert(sites::opening(profile, one) == sites::opening(profile, d));
    assert(sites::opening(profile, two) == sites::opening(profile, d));
    if let Ok(start) = sites::opening(profile, d) {
        assert(arrange::arranged(lines, all) =~= lines);
        assert forall|i: int| 0 <= i < all.len() implies arrange::arranged(
            lines,
            #[trigger] all.take(i),
        ) == lines.take(i) by {
            assert(arrange::arranged(lines, all.take(i)) =~= lines.take(i));
        }
        assert forall|i: int| 0 <= i < moved.len() implies arrange::arranged(
            lines,
            #[trigger] moved.take(i),
        ) == turned.take(i) by {
            assert(arrange::arranged(lines, moved.take(i)) =~= turned.take(i));
        }
        lemma_lines_apart(step, start, lines, added, all);
        lemma_lines_apart(step, start, lines, added, moved);
        let quiet = silent(added);
        arrange::lemma_chosen_related(all, quiet, |a: int, b: int| a < b);
        arrange::lemma_chosen_related(moved, quiet, |a: int, b: int| a < b);
        lemma_same_places(lines.len(), moved, quiet);
        arrange::lemma_ascending_places(
            arrange::chosen(all, quiet),
            arrange::chosen(moved, quiet),
        );
        lemma_same_pipeline(profile, names, added, moved);
    }
}

/// Whether a line adds this handler without a matcher, or none, whatever was read before it.
pub open spec fn adds_anywhere(
    profile: Profile,
    names: Seq<Seq<char>>,
    line: DirectiveV,
    added: Option<HandlerV>,
) -> bool {
    forall|c: sites::SiteDraftV|
        match added {
            Some(h) => #[trigger] sites::site_line(profile, c, line, names) == Ok::<
                sites::SiteDraftV,
                ErrorV,
            >(with_defaults(c, c.defaults.push(h))),
            None => sites::site_line(profile, c, line, names) matches Ok(next) ==> next.defaults
                == c.defaults,
        }
}

/// What a line that holds no others configures does not depend on the matchers in scope.
#[verifier::spinoff_prover]
proof fn lemma_scope_is_not_read(
    profile: Profile,
    names: Seq<Seq<char>>,
    line: DirectiveV,
    scope: Map<Seq<char>, MatcherV>,
)
    requires
        line.name != "route"@ && line.name != "handle"@ && line.name != "handle_path"@,
    ensures
        sites::line_handler(profile, line, scope, names) == sites::line_handler(
            profile,
            line,
            Map::empty(),
            names,
        ),
{
    assert(handlers::handler(profile, line, scope, names) == handlers::leaf(profile, line));
    assert(handlers::handler(profile, line, Map::empty(), names) == handlers::leaf(profile, line));
}

/// What a handler line does to a draft, once it is known what it configures.
#[verifier::spinoff_prover]
proof fn lemma_handler_line(
    profile: Profile,
    names: Seq<Seq<char>>,
    c: sites::SiteDraftV,
    line: DirectiveV,
    h: HandlerV,
)
    requires
        !sites::is_setting(line.name),
        !text::starts_char(line.name, '@'),
        line.name != "route"@ && line.name != "handle"@ && line.name != "handle_path"@,
        if line.name == "header"@ {
            matchers::matcher_of(profile, line) is None && error::with(
                content::header(line),
                |x: HeadersConfigV| HandlerV::Headers(x),
            ) == Ok::<HandlerV, ErrorV>(h)
        } else {
            sites::line_matcher(profile, line) is None && sites::line_handler(
                profile,
                line,
                c.server.matchers,
                names,
            ) == Ok::<HandlerV, ErrorV>(h)
        },
    ensures
        sites::site_line(profile, c, line, names) == Ok::<sites::SiteDraftV, ErrorV>(
            with_defaults(c, c.defaults.push(h)),
        ),
{
    let next = sites::with_handler(c, None, h);
    assert(next == with_defaults(c, c.defaults.push(h)));
    if line.name != "header"@ {
        assert(sites::site_line(profile, c, line, names) == sites::handler_line(
            profile,
            c,
            line,
            names,
        ));
    }
}

/// A handler line without a matcher that holds no other lines adds its handler wherever it
/// stands.
pub proof fn a_plain_handler_line_adds_its_handler_anywhere(
    profile: Profile,
    names: Seq<Seq<char>>,
    line: DirectiveV,
    h: HandlerV,
)
    requires
        !sites::is_setting(line.name),
        !text::starts_char(line.name, '@'),
        line.name != "route"@ && line.name != "handle"@ && line.name != "handle_path"@,
        if line.name == "header"@ {
            matchers::matcher_of(profile, line) is None && error::with(
                content::header(line),
                |x: HeadersConfigV| HandlerV::Headers(x),
            ) == Ok::<HandlerV, ErrorV>(h)
        } else {
            sites::line_matcher(profile, line) is None && sites::line_handler(
                profile,
                line,
                Map::empty(),
                names,
            ) == Ok::<HandlerV, ErrorV>(h)
        },
    ensures
        adds_anywhere(profile, names, line, Some(h)),
{
    assert forall|c: sites::SiteDraftV| #[trigger]
        sites::site_line(profile, c, line, names) == Ok::<sites::SiteDraftV, ErrorV>(
            with_defaults(c, c.defaults.push(h)),
        ) by {
        lemma_scope_is_not_read(profile, names, line, c.server.matchers);
        lemma_handler_line(profile, names, c, line, h);
    }
}

/// Whether a line of a site has a matcher of its own.
pub open spec fn has_matcher(profile: Profile, line: DirectiveV) -> bool {
    if line.name == "route"@ || line.name == "handle"@ {
        matchers::route_matcher_of(line) is Some
    } else if line.name == "header"@ {
        matchers::matcher_of(profile, line) is Some
    } else {
        sites::line_matcher(profile, line) is Some
    }
}

/// A setting, the definition of a matcher and a line with a matcher add no handler without one,
/// wherever they stand.
pub proof fn other_lines_add_no_handler_without_a_matcher(
    profile: Profile,
    names: Seq<Seq<char>>,
    line: DirectiveV,
)
    requires
        sites::is_setting(line.name) || text::starts_char(line.name, '@') || has_matcher(
            profile,
            line,
        ),
    ensures
        adds_anywhere(profile, names, line, None),
{
    assert forall|c: sites::SiteDraftV|
        (#[trigger] sites::site_line(profile, c, line, names) matches Ok(next) ==> next.defaults
            == c.defaults) by {
        if sites::is_setting(line.name) || text::starts_char(line.name, '@') {
            lemma_no_handler(profile, names, c, line);
        } else {
            lemma_matched_handler(profile, names, c, line);
        }
    }
}

#[verifier::spinoff_prover]
proof fn lemma_no_handler(
    profile: Profile,
    names: Seq<Seq<char>>,
    c: sites::SiteDraftV,
    line: DirectiveV,
)
    requires
        sites::is_setting(line.name) || text::starts_char(line.name, '@'),
    ensures
        sites::site_line(profile, c, line, names) matches Ok(next) ==> next.defaults == c.defaults,
{
    reveal_strlit("route");
    reveal_strlit("handle");
    reveal_strlit("handle_path");
}

#[verifier::spinoff_prover]
#[verifier::rlimit(40)]
proof fn lemma_matched_handler(
    profile: Profile,
    names: Seq<Seq<char>>,
    c: sites::SiteDraftV,
    line: DirectiveV,
)
    requires
        !sites::is_setting(line.name),
        !text::starts_char(line.name, '@'),
        has_matcher(profile, line),
    ensures
        sites::site_line(profile, c, line, names) matches Ok(next) ==> next.defaults == c.defaults,
{
    if line.name == "route"@ || line.name == "handle"@ {
    } else if profile == Profile::Extended && line.name == "handle_path"@ {
    } else if line.name != "header"@ {
        assert(sites::site_line(profile, c, line, names) == sites::handler_line(
            profile,
            c,
            line,
            names,
        ));
    }
}

/// Moving lines does not change what a site does, where what each line adds does not depend on
/// the lines before it: the handlers without a matcher may be written in any order and anywhere
/// among the other lines, as long as those of the same rank stay in turn.
pub proof fn independent_lines_can_be_written_in_any_order(
    profile: Profile,
    names: Seq<Seq<char>>,
    d: DirectiveV,
    lines: Seq<DirectiveV>,
    added: Seq<Option<HandlerV>>,
    moved: Seq<int>,
)
    requires
        names.len() <= usize::MAX,
        added.len() == lines.len(),
        arrange::covers(moved, lines.len() as int),
        forall|k: int|
            0 <= k < lines.len() ==> adds_anywhere(profile, names, #[trigger] lines[k], added[k]),
        forall|i: int, j: int|
            0 <= i < j < moved.len() && added[#[trigger] moved[i]] is None && added[
                #[trigger] moved[j]] is None ==> moved[i] < moved[j],
        forall|i: int, j: int|
            0 <= i < j < moved.len() && added[#[trigger] moved[i]] is Some && added[
                #[trigger] moved[j]] is Some && ranks::handler_rank(
                profile,
                names,
                added[moved[i]]->Some_0,
            ) == ranks::handler_rank(profile, names, added[moved[j]]->Some_0) ==> moved[i]
                < moved[j],
    ensures
        sites::site(
            profile,
            DirectiveV { block: Some(arrange::arranged(lines, moved)), ..d },
            names,
        ) == sites::site(profile, DirectiveV { block: Some(lines), ..d }, names),
{
    let turned = arrange::arranged(lines, moved);
    let others = arrange::arranged(added, moved);
    assert forall|i: int| 0 <= i < lines.len() implies adds(
        profile,
        names,
        d,
        #[trigger] lines.take(i),
        lines[i],
        added[i],
    ) by {
        assert(adds_anywhere(profile, names, lines[i], added[i]));
    }
    assert forall|i: int| 0 <= i < turned.len() implies adds(
        profile,
        names,
        d,
        #[trigger] turned.take(i),
        turned[i],
        others[i],
    ) by {
        assert(turned[i] == lines[moved[i]]);
        assert(adds_anywhere(profile, names, lines[moved[i]], added[moved[i]]));
    }
    lines_can_be_written_in_any_order(profile, names, d, lines, added, moved);
}

// ---------------------------------------------------------------------------
// Routes
// ---------------------------------------------------------------------------
/// Whether `a` comes before `b` in a list of routes.
pub open spec fn tried_before(routes: Seq<RouteArmV>, a: RouteArmV, b: RouteArmV) -> bool {
    exists|p: int, q: int|
        0 <= p < q < routes.len() && #[trigger] routes[p] == a && #[trigger] routes[q] == b
}

/// In the extended profile the routes of a site are tried in their documented order: by rank, then
/// the longer path first, a matched route before an unmatched one, an exact path before the same
/// path with a wildcard, and then in the order of the file, unless the routes are tangled.
pub proof fn routes_are_tried_in_their_documented_order(
    names: Seq<Seq<char>>,
    scope: Map<Seq<char>, MatcherV>,
    arms: Seq<RouteArmV>,
    written: Seq<HandlerV>,
    i: int,
    j: int,
)
    requires
        arms.len() <= usize::MAX,
        0 <= i < arms.len(),
        0 <= j < arms.len(),
        ({
            let defaults = sites::sorted_defaults(Profile::Extended, names, written);
            let keys = sites::route_keys(names, scope, defaults, arms);
            route_order::goes_first(keys[i], keys[j]) && !route_order::tangled(keys, i, j)
        }),
    ensures
        ({
            let defaults = sites::sorted_defaults(Profile::Extended, names, written);
            sites::site_routes(Profile::Extended, names, scope, arms, written) matches Some(routes)
                && tried_before(
                routes,
                sites::answering(arms[i], defaults),
                sites::answering(arms[j], defaults),
            )
        }),
{
    let defaults = sites::sorted_defaults(Profile::Extended, names, written);
    let keys = sites::route_keys(names, scope, defaults, arms);
    route_order::numbers_sort_as_keys_do(keys, i, j);
    let numbers = route_order::all_numbers(keys);
    let more = if defaults.len() > 0 {
        seq![
            route_order::sort_numbers(
                route_order::route_key(
                    route_order::answering_rank(names, defaults),
                    Map::empty(),
                    None,
                    usize::MAX,
                ),
                0,
            ),
        ]
    } else {
        Seq::empty()
    };
    let all = numbers + more;
    assert(all[i] == numbers[i] && all[j] == numbers[j]);
    arrange::what_precedes_comes_first(all, i, j);
    arrange::a_stable_order_follows_the_keys(all);
    let places = arrange::stable_order(all);
    let (p, q) = choose|p: int, q: int|
        0 <= p < q < all.len() && #[trigger] places[p] == i && #[trigger] places[q] == j;
    let routes = sites::site_routes(Profile::Extended, names, scope, arms, written)->Some_0;
    assert(routes.len() == places.len());
    assert(routes[p] == sites::answering(arms[i], defaults));
    assert(routes[q] == sites::answering(arms[j], defaults));
}

/// In the extended profile a route with a matcher is tried before the handlers without one, if its
/// rank is not higher than theirs.
pub proof fn the_catch_all_is_tried_after_the_routes_of_its_rank(
    names: Seq<Seq<char>>,
    scope: Map<Seq<char>, MatcherV>,
    arms: Seq<RouteArmV>,
    written: Seq<HandlerV>,
    i: int,
)
    requires
        0 <= i < arms.len(),
        arms[i].matcher is Some,
        ({
            let defaults = sites::sorted_defaults(Profile::Extended, names, written);
            defaults.len() > 0 && sites::route_keys(names, scope, defaults, arms)[i].rank
                <= route_order::answering_rank(names, defaults)
        }),
    ensures
        ({
            let defaults = sites::sorted_defaults(Profile::Extended, names, written);
            sites::site_routes(Profile::Extended, names, scope, arms, written) matches Some(routes)
                && tried_before(
                routes,
                sites::answering(arms[i], defaults),
                sites::catch_all(defaults),
            )
        }),
{
    let defaults = sites::sorted_defaults(Profile::Extended, names, written);
    let keys = sites::route_keys(names, scope, defaults, arms);
    let numbers = route_order::all_numbers(keys);
    let key = route_order::route_key(
        route_order::answering_rank(names, defaults),
        Map::empty(),
        None,
        usize::MAX,
    );
    route_order::lemma_numbers(keys[i], route_order::place(keys, i) as usize, key, 0);
    let all = numbers + seq![route_order::sort_numbers(key, 0)];
    let n = arms.len() as int;
    assert(all[i] == numbers[i] && all[n] == route_order::sort_numbers(key, 0));
    arrange::what_precedes_comes_first(all, i, n);
    arrange::a_stable_order_follows_the_keys(all);
    let places = arrange::stable_order(all);
    let (p, q) = choose|p: int, q: int|
        0 <= p < q < all.len() && #[trigger] places[p] == i && #[trigger] places[q] == n;
    let routes = sites::site_routes(Profile::Extended, names, scope, arms, written)->Some_0;
    assert(routes.len() == places.len());
    assert(routes[p] == sites::answering(arms[i], defaults));
    assert(routes[q] == sites::catch_all(defaults));
}

} // verus!
