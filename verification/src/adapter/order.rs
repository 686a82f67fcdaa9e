//! The order in which directives run.
//!
//! Directives do not run in the order in which they were written: a rank is a position in a
//! list of names, and the `order` option produces another list.

use crate::adapter::registry;
use crate::adapter::registry::directive;
use crate::error;
use crate::error::{invalid, AdapterError, ErrorV};
use crate::text::{cat3, same};
use vstd::prelude::*;

verus! {

/// The order in which directives run unless a configuration says otherwise.
pub open spec fn default_order() -> Seq<Seq<char>> {
    seq![
        "tracing"@,
        "map"@,
        "vars"@,
        "fs"@,
        "root"@,
        "log_append"@,
        "skip_log"@,
        "log_skip"@,
        "log_name"@,
        "header"@,
        "copy_response_headers"@,
        "request_body"@,
        "redir"@,
        "method"@,
        "rewrite"@,
        "uri"@,
        "try_files"@,
        "basicauth"@,
        "basic_auth"@,
        "forward_auth"@,
        "request_header"@,
        "encode"@,
        "push"@,
        "intercept"@,
        "templates"@,
        "invoke"@,
        "handle"@,
        "handle_path"@,
        "route"@,
        "abort"@,
        "error"@,
        "copy_response"@,
        "respond"@,
        "metrics"@,
        "reverse_proxy"@,
        "php_fastcgi"@,
        "file_server"@,
        "acme_server"@,
    ]
}

/// Where a directive goes, relative to the rest.
#[derive(Debug, Clone, Copy, PartialEq, Eq, Structural)]
pub enum Position {
    First,
    Last,
    Before,
    After,
}

/// The position that `word` names.
pub open spec fn position(word: Seq<char>) -> Option<Position> {
    if word == "first"@ {
        Some(Position::First)
    } else if word == "last"@ {
        Some(Position::Last)
    } else if word == "before"@ {
        Some(Position::Before)
    } else if word == "after"@ {
        Some(Position::After)
    } else {
        None
    }
}

impl Position {
    /// Reads a position.
    pub fn parse(word: &str) -> (r: Option<Position>)
        ensures
            r == position(word@),
    {
        if same(word, "first") {
            Some(Position::First)
        } else if same(word, "last") {
            Some(Position::Last)
        } else if same(word, "before") {
            Some(Position::Before)
        } else if same(word, "after") {
            Some(Position::After)
        } else {
            None
        }
    }
}

/// A directive order, the default or one that a configuration changed.
#[derive(Debug, PartialEq, Eq)]
pub struct DirectiveOrder {
    pub names: Vec<String>,
}

impl View for DirectiveOrder {
    type V = Seq<Seq<char>>;

    open spec fn view(&self) -> Seq<Seq<char>> {
        self.names.deep_view()
    }
}

/// The first place of `name` from `from` on, or the length of the list where there is none.
pub open spec fn place_from(names: Seq<Seq<char>>, name: Seq<char>, from: int) -> int
    decreases names.len() - from,
{
    if from >= names.len() || names[from] == name {
        from
    } else {
        place_from(names, name, from + 1)
    }
}

/// Where a directive sits; a name that is not listed comes after all others.
pub open spec fn rank(names: Seq<Seq<char>>, name: Seq<char>) -> int {
    place_from(names, name, 0)
}

/// `names` without `name`.
pub open spec fn without(names: Seq<Seq<char>>, name: Seq<char>) -> Seq<Seq<char>>
    decreases names.len(),
{
    if names.len() == 0 {
        Seq::empty()
    } else if names.last() == name {
        without(names.drop_last(), name)
    } else {
        without(names.drop_last(), name).push(names.last())
    }
}

/// An `order` option is malformed, for the reason given.
pub open spec fn disorder(reason: Seq<char>) -> Result<(), ErrorV> {
    Err(ErrorV::InvalidArgument("order"@, reason))
}

/// The list of names after one `order` option, and whether the option was honoured.
///
/// A directive that is moved leaves the place where it was, also where the new place turns out
/// not to exist.
pub open spec fn moved(names: Seq<Seq<char>>, args: Seq<Seq<char>>) -> (
    Seq<Seq<char>>,
    Result<(), ErrorV>,
) {
    if args.len() < 2 {
        (
            names,
            disorder(
                "expected `order <directive> first|last` or `order <directive> before|after <other>`"@,
            ),
        )
    } else if registry::directive_support(args[0]) is None {
        (names, disorder("`"@ + args[0] + "` is not a directive"@))
    } else {
        let rest = without(names, args[0]);
        match position(args[1]) {
            None => (
                names,
                disorder(
                    "`"@ + args[1]
                        + "` is not a position; expected first, last, before or after"@,
                ),
            ),
            Some(Position::First) => if args.len() > 2 {
                (rest, disorder("`first` takes no further arguments"@))
            } else {
                (seq![args[0]] + rest, Ok(()))
            },
            Some(Position::Last) => if args.len() > 2 {
                (rest, disorder("`last` takes no further arguments"@))
            } else {
                (rest.push(args[0]), Ok(()))
            },
            Some(side) => if args.len() != 3 {
                (rest, disorder("before and after need exactly one other directive"@))
            } else if !rest.contains(args[2]) {
                (rest, disorder("`"@ + args[2] + "` is not in the directive order"@))
            } else {
                let at = rank(rest, args[2]) + (if side == Position::After {
                    1int
                } else {
                    0
                });
                (rest.insert(at, args[0]), Ok(()))
            },
        }
    }
}

/// The place of a name is the first one that holds it.
pub proof fn lemma_place(names: Seq<Seq<char>>, name: Seq<char>, from: int)
    requires
        0 <= from <= names.len(),
    ensures
        from <= place_from(names, name, from) <= names.len(),
        place_from(names, name, from) < names.len() ==> names[place_from(names, name, from)]
            == name,
        forall|i: int|
            from <= i < place_from(names, name, from) ==> #[trigger] names[i] != name,
    decreases names.len() - from,
{
    if from < names.len() && names[from] != name {
        lemma_place(names, name, from + 1);
    }
}

/// The rank of a name is within the list exactly if the list holds it.
pub proof fn lemma_rank(names: Seq<Seq<char>>, name: Seq<char>)
    ensures
        0 <= rank(names, name) <= names.len(),
        rank(names, name) < names.len() <==> names.contains(name),
{
    lemma_place(names, name, 0);
    if names.contains(name) {
        let k = choose|k: int| 0 <= k < names.len() && names[k] == name;
        assert(names[k] == name);
    }
}

/// A rank is known by what stands there and before.
proof fn lemma_rank_is(names: Seq<Seq<char>>, name: Seq<char>, k: int)
    requires
        0 <= k < names.len(),
        names[k] == name,
        forall|i: int| 0 <= i < k ==> #[trigger] names[i] != name,
    ensures
        rank(names, name) == k,
{
    lemma_place(names, name, 0);
    let r = rank(names, name);
    if r < k {
        assert(names[r] != name);
    } else if r > k {
        assert(names[k] != name);
    }
}

/// What is left without a name does not hold it, and holds every other name as before.
pub proof fn lemma_without(names: Seq<Seq<char>>, name: Seq<char>)
    ensures
        !without(names, name).contains(name),
        without(names, name).len() <= names.len(),
        !names.contains(name) ==> without(names, name) == names,
        forall|other: Seq<char>|
            other != name ==> (#[trigger] without(names, name).contains(other)
                <==> names.contains(other)),
        names.no_duplicates() ==> without(names, name).no_duplicates(),
        names.no_duplicates() && names.contains(name) ==> without(names, name).len() + 1
            == names.len(),
    decreases names.len(),
{
    if names.len() > 0 {
        let front = names.drop_last();
        let last = names.last();
        lemma_without(front, name);
        assert(names =~= front.push(last));
        let out = without(names, name);
        let kept = without(front, name);
        assert forall|other: Seq<char>| names.contains(other) == (front.contains(other) || other
            == last) by {
            if names.contains(other) {
                let k = choose|k: int| 0 <= k < names.len() && names[k] == other;
                if k < front.len() {
                    assert(front[k] == other);
                }
            }
            if front.contains(other) {
                let k = choose|k: int| 0 <= k < front.len() && front[k] == other;
                assert(names[k] == other);
            }
            assert(names[names.len() - 1] == last);
        }
        if last != name {
            assert forall|other: Seq<char>| out.contains(other) == (kept.contains(other) || other
                == last) by {
                if out.contains(other) {
                    let k = choose|k: int| 0 <= k < out.len() && out[k] == other;
                    if k < kept.len() {
                        assert(kept[k] == other);
                    }
                }
                if kept.contains(other) {
                    let k = choose|k: int| 0 <= k < kept.len() && kept[k] == other;
                    assert(out[k] == other);
                }
                assert(out[out.len() - 1] == last);
            }
        }
        if names.no_duplicates() {
            assert(front.no_duplicates());
            if front.contains(last) {
                let k = choose|k: int| 0 <= k < front.len() && front[k] == last;
                assert(names[k] == names[names.len() - 1]);
            }
            if last != name {
                assert(!kept.contains(last));
                assert forall|i: int, j: int|
                    0 <= i < out.len() && 0 <= j < out.len() && i != j implies out[i]
                    != out[j] by {
                    if i < kept.len() {
                        assert(kept.contains(kept[i]));
                    }
                    if j < kept.len() {
                        assert(kept.contains(kept[j]));
                    }
                }
            }
        }
    }
}

/// Taking a name out of a list into which it was put leaves the list.
proof fn lemma_without_inserted(names: Seq<Seq<char>>, name: Seq<char>, at: int)
    requires
        0 <= at <= names.len(),
        !names.contains(name),
    ensures
        without(names.insert(at, name), name) == names,
    decreases names.len(),
{
    let out = names.insert(at, name);
    lemma_without(names, name);
    if at == names.len() {
        assert(out.drop_last() =~= names);
        assert(out.last() == name);
    } else {
        let front = names.drop_last();
        assert forall|k: int| 0 <= k < front.len() implies front[k] != name by {
            assert(names[k] == front[k]);
            assert(names.contains(names[k]));
        }
        lemma_without_inserted(front, name, at);
        assert(out.drop_last() =~= front.insert(at, name));
        assert(out.last() == names.last());
        assert(names.contains(names.last()));
        assert(front.push(names.last()) =~= names);
    }
}

/// An `order` option moves one directive and leaves the others as they were, in the same order.
pub proof fn an_order_moves_one_directive(names: Seq<Seq<char>>, args: Seq<Seq<char>>)
    requires
        args.len() > 0,
    ensures
        without(moved(names, args).0, args[0]) == without(names, args[0]),
{
    let rest = without(names, args[0]);
    lemma_without(names, args[0]);
    lemma_without(rest, args[0]);
    if moved(names, args).1 is Ok {
        lemma_rank(rest, args[2]);
        let at = match position(args[1]) {
            Some(Position::First) => 0,
            Some(Position::Last) => rest.len() as int,
            Some(Position::Before) => rank(rest, args[2]),
            _ => rank(rest, args[2]) + 1,
        };
        lemma_without_inserted(rest, args[0], at);
        assert(moved(names, args).0 =~= rest.insert(at, args[0]));
    }
}

/// Moving a directive leaves no copy behind: where each name was listed once, each name still is,
/// and no name is lost.
pub proof fn an_order_lists_each_directive_once(names: Seq<Seq<char>>, args: Seq<Seq<char>>)
    requires
        names.no_duplicates(),
        moved(names, args).1 is Ok,
    ensures
        moved(names, args).0.no_duplicates(),
        moved(names, args).0.contains(args[0]),
        moved(names, args).0.len() == names.len() + (if names.contains(args[0]) {
            0int
        } else {
            1
        }),
        forall|other: Seq<char>|
            other != args[0] ==> (#[trigger] moved(names, args).0.contains(other)
                <==> names.contains(other)),
{
    let rest = without(names, args[0]);
    lemma_without(names, args[0]);
    lemma_rank(rest, args[2]);
    let at = match position(args[1]) {
        Some(Position::First) => 0,
        Some(Position::Last) => rest.len() as int,
        Some(Position::Before) => rank(rest, args[2]),
        _ => rank(rest, args[2]) + 1,
    };
    let out = moved(names, args).0;
    assert(out =~= rest.insert(at, args[0]));
    assert(out[at] == args[0]);
    assert forall|i: int, j: int|
        0 <= i < out.len() && 0 <= j < out.len() && i != j implies out[i] != out[j] by {
        let a = if i < at {
            i
        } else {
            i - 1
        };
        let b = if j < at {
            j
        } else {
            j - 1
        };
        if i != at {
            assert(out[i] == rest[a]);
            assert(rest.contains(rest[a]));
        }
        if j != at {
            assert(out[j] == rest[b]);
            assert(rest.contains(rest[b]));
        }
    }
    assert forall|other: Seq<char>| other != args[0] implies (#[trigger] out.contains(other)
        <==> names.contains(other)) by {
        assert(rest.contains(other) <==> names.contains(other));
        if out.contains(other) {
            let k = choose|k: int| 0 <= k < out.len() && out[k] == other;
            assert(rest[if k < at {
                k
            } else {
                k - 1
            }] == other);
        }
        if rest.contains(other) {
            let k = choose|k: int| 0 <= k < rest.len() && rest[k] == other;
            assert(out[if k < at {
                k
            } else {
                k + 1
            }] == other);
        }
    }
}

/// A directive ends up where the `order` option says: at either end, or right next to the other.
pub proof fn an_order_puts_its_directive_in_place(names: Seq<Seq<char>>, args: Seq<Seq<char>>)
    requires
        moved(names, args).1 is Ok,
    ensures
        position(args[1]) == Some(Position::First) ==> rank(moved(names, args).0, args[0]) == 0,
        position(args[1]) == Some(Position::Last) ==> rank(moved(names, args).0, args[0])
            == moved(names, args).0.len() - 1,
        position(args[1]) == Some(Position::Before) ==> rank(moved(names, args).0, args[0]) + 1
            == rank(moved(names, args).0, args[2]),
        position(args[1]) == Some(Position::After) ==> rank(moved(names, args).0, args[0])
            == rank(moved(names, args).0, args[2]) + 1,
{
    let rest = without(names, args[0]);
    lemma_without(names, args[0]);
    lemma_rank(rest, args[2]);
    lemma_place(rest, args[2], 0);
    let at = match position(args[1]) {
        Some(Position::First) => 0,
        Some(Position::Last) => rest.len() as int,
        Some(Position::Before) => rank(rest, args[2]),
        _ => rank(rest, args[2]) + 1,
    };
    let out = moved(names, args).0;
    assert(out =~= rest.insert(at, args[0]));
    assert(out[at] == args[0]);
    assert forall|i: int| 0 <= i < at implies #[trigger] out[i] != args[0] by {
        assert(out[i] == rest[i]);
        assert(rest.contains(rest[i]));
    }
    lemma_rank_is(out, args[0], at);
    if position(args[1]) == Some(Position::Before) {
        let k = rank(rest, args[2]);
        assert(out[k + 1] == rest[k]);
        assert forall|i: int| 0 <= i < k + 1 implies #[trigger] out[i] != args[2] by {
            if i < k {
                assert(out[i] == rest[i]);
            }
        }
        lemma_rank_is(out, args[2], k + 1);
    }
    if position(args[1]) == Some(Position::After) {
        let k = rank(rest, args[2]);
        assert(out[k] == rest[k]);
        assert forall|i: int| 0 <= i < k implies #[trigger] out[i] != args[2] by {
            assert(out[i] == rest[i]);
        }
        lemma_rank_is(out, args[2], k);
    }
}

fn find_name(names: &Vec<String>, name: &str) -> (r: usize)
    ensures
        r == rank(names.deep_view(), name@),
        r <= names.len(),
        r < names.len() <==> names.deep_view().contains(name@),
{
    let ghost all = names.deep_view();
    let mut i: usize = 0;
    proof {
        lemma_rank(all, name@);
    }
    while i < names.len()
        invariant
            i <= names.len(),
            all == names.deep_view(),
            rank(all, name@) == place_from(all, name@, i as int),
            rank(all, name@) < all.len() <==> all.contains(name@),
        decreases names.len() - i,
    {
        assert(all[i as int] == names@[i as int]@);
        if same(names[i].as_str(), name) {
            return i;
        }
        i += 1;
    }
    i
}

fn remove_name(names: &Vec<String>, name: &str) -> (r: Vec<String>)
    ensures
        r.deep_view() == without(names.deep_view(), name@),
{
    let ghost all = names.deep_view();
    let mut out: Vec<String> = Vec::new();
    let mut i: usize = 0;
    assert(out.deep_view() =~= without(all.take(0), name@));
    while i < names.len()
        invariant
            i <= names.len(),
            all == names.deep_view(),
            out.deep_view() == without(all.take(i as int), name@),
        decreases names.len() - i,
    {
        assert(all.take(i + 1).drop_last() =~= all.take(i as int));
        assert(all.take(i + 1).last() == names@[i as int]@);
        if !same(names[i].as_str(), name) {
            let ghost held = out.deep_view();
            let kept = names[i].clone();
            out.push(kept);
            assert(out.deep_view() =~= held.push(kept@));
        }
        i += 1;
    }
    assert(all.take(i as int) =~= all);
    out
}

impl Default for DirectiveOrder {
    /// The order in which directives run unless a configuration says otherwise.
    fn default() -> (r: DirectiveOrder)
        ensures
            r@ == default_order(),
    {
        let list = vec![
            "tracing",
            "map",
            "vars",
            "fs",
            "root",
            "log_append",
            "skip_log",
            "log_skip",
            "log_name",
            "header",
            "copy_response_headers",
            "request_body",
            "redir",
            "method",
            "rewrite",
            "uri",
            "try_files",
            "basicauth",
            "basic_auth",
            "forward_auth",
            "request_header",
            "encode",
            "push",
            "intercept",
            "templates",
            "invoke",
            "handle",
            "handle_path",
            "route",
            "abort",
            "error",
            "copy_response",
            "respond",
            "metrics",
            "reverse_proxy",
            "php_fastcgi",
            "file_server",
            "acme_server",
        ];
        assert(list.deep_view() =~= default_order());
        let mut names: Vec<String> = Vec::new();
        let mut i: usize = 0;
        while i < list.len()
            invariant
                i <= list.len(),
                names@.len() == i,
                forall|j: int| 0 <= j < i ==> (#[trigger] names@[j])@ == list.deep_view()[j],
            decreases list.len() - i,
        {
            names.push(list[i].to_owned());
            i += 1;
        }
        assert(names.deep_view() =~= list.deep_view());
        DirectiveOrder { names }
    }
}

impl DirectiveOrder {
    /// Where a directive sits. A name that is not listed sorts last.
    pub fn rank(&self, name: &str) -> (r: usize)
        ensures
            r == rank(self@, name@),
            r <= self@.len(),
    {
        find_name(&self.names, name)
    }

    /// Applies one `order` option: `order <directive> first|last`, or
    /// `order <directive> before|after <other>`.
    pub fn apply(&mut self, args: &Vec<String>) -> (r: Result<(), AdapterError>)
        ensures
            final(self)@ == moved(old(self)@, args.deep_view()).0,
            error::outcome(r) == moved(old(self)@, args.deep_view()).1,
    {
        if args.len() < 2 {
            return Err(
                invalid(
                    "order",
                    "expected `order <directive> first|last` or `order <directive> before|after <other>`",
                ),
            );
        }
        let name = args[0].as_str();
        if directive(name).is_none() {
            let reason = cat3("`", name, "` is not a directive");
            return Err(invalid("order", reason.as_str()));
        }
        let position = match Position::parse(args[1].as_str()) {
            Some(position) => position,
            None => {
                let reason = cat3(
                    "`",
                    args[1].as_str(),
                    "` is not a position; expected first, last, before or after",
                );
                return Err(invalid("order", reason.as_str()));
            },
        };
        self.names = remove_name(&self.names, name);
        let ghost rest = self.names.deep_view();
        let at: usize = match position {
            Position::First => {
                if args.len() > 2 {
                    return Err(invalid("order", "`first` takes no further arguments"));
                }
                assert(rest.insert(0, args@[0]@) =~= seq![args@[0]@] + rest);
                0
            },
            Position::Last => {
                if args.len() > 2 {
                    return Err(invalid("order", "`last` takes no further arguments"));
                }
                assert(rest.insert(rest.len() as int, args@[0]@) =~= rest.push(args@[0]@));
                self.names.len()
            },
            _ => {
                if args.len() != 3 {
                    return Err(
                        invalid("order", "before and after need exactly one other directive"),
                    );
                }
                let other = args[2].as_str();
                let index: usize = find_name(&self.names, other);
                if index >= self.names.len() {
                    let reason = cat3("`", other, "` is not in the directive order");
                    return Err(invalid("order", reason.as_str()));
                }
                if position == Position::After {
                    index + 1
                } else {
                    index
                }
            },
        };
        self.names.insert(at, args[0].clone());
        assert(self.names.deep_view() =~= rest.insert(at as int, args@[0]@));
        Ok(())
    }
}

} // verus!
