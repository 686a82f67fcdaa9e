//! What holds of reads and changes of a document together.

use crate::admin::config_tree;
use crate::admin::config_tree::Mode;
use crate::admin::json;
use crate::admin::json::{Json, JsonV};
use crate::text;
use vstd::prelude::*;

verus! {

/// A child that was replaced is the one that is found.
proof fn lemma_child_replaced(node: JsonV, segment: Seq<char>, value: JsonV)
    requires
        config_tree::child(node, segment) is Ok,
    ensures
        config_tree::child(config_tree::with_child(node, segment, value), segment) == Ok::<
            JsonV,
            config_tree::TreeErrorV,
        >(value),
{
    match node {
        JsonV::Object(fields) => {
            json::lemma_slot(fields, segment);
            let i = json::slot(fields, segment)->Some_0;
            let after = fields.update(i, (segment, value));
            assert forall|j: int| 0 <= j < i implies (#[trigger] after[j]).0 != segment by {
                assert(after[j] == fields[j]);
            }
            json::lemma_slot_is(after, segment, i);
        },
        _ => {},
    }
}

/// A field that was set is the one that is found.
proof fn lemma_field_set(fields: Seq<(Seq<char>, JsonV)>, name: Seq<char>, value: JsonV)
    ensures
        match json::slot(json::with_field(fields, name, value), name) {
            Some(i) => json::with_field(fields, name, value)[i] == (name, value) && i == (
            match json::slot(fields, name) {
                Some(k) => k,
                None => json::rank(fields, name),
            }),
            None => false,
        },
{
    json::lemma_slot(fields, name);
    json::lemma_rank(fields, name);
    let after = json::with_field(fields, name, value);
    let at = match json::slot(fields, name) {
        Some(k) => k,
        None => json::rank(fields, name),
    };
    assert forall|j: int| 0 <= j < at implies (#[trigger] after[j]).0 != name by {
        assert(after[j] == fields[j]);
    }
    json::lemma_slot_is(after, name, at);
}

/// What was written at a path is what is read there.
pub proof fn what_is_written_is_read_back(
    doc: JsonV,
    path: Seq<Seq<char>>,
    value: JsonV,
    mode: Mode,
)
    requires
        config_tree::placed(doc, path, value, mode) is Ok,
    ensures
        config_tree::found(config_tree::placed(doc, path, value, mode)->Ok_0, path) == Ok::<
            JsonV,
            config_tree::TreeErrorV,
        >(value),
    decreases path.len(),
{
    let next = config_tree::placed(doc, path, value, mode)->Ok_0;
    if path.len() == 1 {
        assert(config_tree::child(next, path[0]) == Ok::<JsonV, config_tree::TreeErrorV>(value))
            by {
            match doc {
                JsonV::Object(fields) => {
                    lemma_field_set(fields, path[0], value);
                },
                _ => {},
            }
        }
        assert(config_tree::found(value, path.skip(1)) == Ok::<JsonV, config_tree::TreeErrorV>(
            value,
        ));
    } else if path.len() > 1 {
        let c = config_tree::child(doc, path[0])->Ok_0;
        what_is_written_is_read_back(c, path.skip(1), value, mode);
        lemma_child_replaced(
            doc,
            path[0],
            config_tree::placed(c, path.skip(1), value, mode)->Ok_0,
        );
    }
}

/// A value can be replaced where a value can be read, and nowhere else.
pub proof fn a_replacement_needs_something_to_replace(
    doc: JsonV,
    path: Seq<Seq<char>>,
    value: JsonV,
)
    ensures
        config_tree::placed(doc, path, value, Mode::Replace) is Ok <==> config_tree::found(
            doc,
            path,
        ) is Ok,
    decreases path.len(),
{
    if path.len() == 1 {
        match config_tree::child(doc, path[0]) {
            Ok(c) => {
                assert(config_tree::found(c, path.skip(1)) is Ok);
            },
            Err(_) => {},
        }
    } else if path.len() > 1 {
        match config_tree::child(doc, path[0]) {
            Ok(c) => {
                a_replacement_needs_something_to_replace(c, path.skip(1), value);
            },
            Err(_) => {},
        }
    }
}

/// A removal returns what could be read, and succeeds where something could be read.
pub proof fn a_removal_returns_what_was_read(doc: JsonV, path: Seq<Seq<char>>)
    ensures
        config_tree::removed(doc, path) is Ok <==> config_tree::found(doc, path) is Ok,
        config_tree::removed(doc, path) is Ok ==> config_tree::found(doc, path) == Ok::<
            JsonV,
            config_tree::TreeErrorV,
        >(config_tree::removed(doc, path)->Ok_0.1),
    decreases path.len(),
{
    if path.len() == 1 {
        match config_tree::child(doc, path[0]) {
            Ok(c) => {
                assert(config_tree::found(c, path.skip(1)) == Ok::<
                    JsonV,
                    config_tree::TreeErrorV,
                >(c));
            },
            Err(_) => {},
        }
    } else if path.len() > 1 {
        match config_tree::child(doc, path[0]) {
            Ok(c) => {
                a_removal_returns_what_was_read(c, path.skip(1));
            },
            Err(_) => {},
        }
    }
}

/// Removing what was just created gives the document back.
pub proof fn a_creation_is_undone_by_removal(doc: JsonV, path: Seq<Seq<char>>, value: JsonV)
    requires
        config_tree::placed(doc, path, value, Mode::Create) is Ok,
    ensures
        config_tree::removed(
            config_tree::placed(doc, path, value, Mode::Create)->Ok_0,
            path,
        ) == Ok::<(JsonV, JsonV), config_tree::TreeErrorV>((doc, value)),
    decreases path.len(),
{
    let next = config_tree::placed(doc, path, value, Mode::Create)->Ok_0;
    if path.len() == 1 {
        match doc {
            JsonV::Object(fields) => {
                lemma_field_set(fields, path[0], value);
                json::lemma_rank(fields, path[0]);
                let at = json::rank(fields, path[0]);
                assert(fields.insert(at, (path[0], value)).remove(at) =~= fields);
            },
            JsonV::Array(items) => {
                let at = config_tree::index(path[0])->Ok_0 as int;
                assert(items.insert(at, value).remove(at) =~= items);
            },
            _ => {},
        }
    } else if path.len() > 1 {
        let c = config_tree::child(doc, path[0])->Ok_0;
        let n = config_tree::placed(c, path.skip(1), value, Mode::Create)->Ok_0;
        a_creation_is_undone_by_removal(c, path.skip(1), value);
        lemma_child_replaced(doc, path[0], n);
        match doc {
            JsonV::Object(fields) => {
                json::lemma_slot(fields, path[0]);
                let i = json::slot(fields, path[0])->Some_0;
                let after = fields.update(i, (path[0], n));
                assert forall|j: int| 0 <= j < i implies (#[trigger] after[j]).0 != path[0] by {
                    assert(after[j] == fields[j]);
                }
                json::lemma_slot_is(after, path[0], i);
                assert(after.update(i, (path[0], c)) =~= fields);
            },
            JsonV::Array(items) => {
                let i = config_tree::index(path[0])->Ok_0 as int;
                assert(items.update(i, n).update(i, c) =~= items);
            },
            _ => {},
        }
    }
}

/// After its removal a field cannot be found.
pub proof fn a_removed_field_is_gone(doc: JsonV, path: Seq<Seq<char>>)
    requires
        json::well_formed(doc),
        path.len() > 0,
        config_tree::found(doc, path.drop_last()) matches Ok(parent) && parent is Object,
        config_tree::removed(doc, path) is Ok,
    ensures
        config_tree::found(config_tree::removed(doc, path)->Ok_0.0, path) == Err::<
            JsonV,
            config_tree::TreeErrorV,
        >(config_tree::TreeErrorV::NotFound),
    decreases path.len(),
{
    if path.len() == 1 {
        assert(path.drop_last() =~= Seq::<Seq<char>>::empty());
        match doc {
            JsonV::Object(fields) => {
                json::lemma_slot(fields, path[0]);
                let i = json::slot(fields, path[0])->Some_0;
                let after = fields.remove(i);
                assert forall|j: int| 0 <= j < after.len() implies (#[trigger] after[j]).0
                    != path[0] by {
                    let k = if j < i {
                        j
                    } else {
                        j + 1
                    };
                    assert(after[j] == fields[k]);
                    json::lemma_in_order_apart(fields, k, i);
                }
                json::lemma_no_slot(after, path[0]);
            },
            _ => {},
        }
    } else {
        let c = config_tree::child(doc, path[0])->Ok_0;
        assert(path.drop_last().skip(1) =~= path.skip(1).drop_last());
        assert(path.drop_last()[0] == path[0]);
        lemma_child_well_formed(doc, path[0]);
        a_removed_field_is_gone(c, path.skip(1));
        lemma_child_replaced(
            doc,
            path[0],
            config_tree::removed(c, path.skip(1))->Ok_0.0,
        );
    }
}

// ---------------------------------------------------------------------------
// Well-formedness
// ---------------------------------------------------------------------------
proof fn lemma_child_well_formed(node: JsonV, segment: Seq<char>)
    requires
        json::well_formed(node),
        config_tree::child(node, segment) is Ok,
    ensures
        json::well_formed(config_tree::child(node, segment)->Ok_0),
{
    match node {
        JsonV::Object(fields) => {
            json::lemma_slot(fields, segment);
            let i = json::slot(fields, segment)->Some_0;
            assert(json::fields_well_formed(fields));
            assert(json::well_formed(fields[i].1));
        },
        JsonV::Array(items) => {
            assert(json::all_well_formed(items));
        },
        _ => {},
    }
}

proof fn lemma_replaced_well_formed(node: JsonV, segment: Seq<char>, value: JsonV)
    requires
        json::well_formed(node),
        json::well_formed(value),
        config_tree::child(node, segment) is Ok,
    ensures
        json::well_formed(config_tree::with_child(node, segment, value)),
{
    match node {
        JsonV::Object(fields) => {
            json::lemma_slot(fields, segment);
            json::setting_a_field_keeps_the_order(fields, segment, value);
            lemma_set_well_formed(fields, segment, value);
        },
        JsonV::Array(items) => {
            let i = config_tree::index(segment)->Ok_0 as int;
            let after = items.update(i, value);
            assert(json::all_well_formed(items));
            assert forall|j: int| 0 <= j < after.len() implies json::well_formed(
                #[trigger] after[j],
            ) by {
                if j != i {
                    assert(after[j] == items[j]);
                }
            }
            assert(json::all_well_formed(after));
        },
        _ => {},
    }
}

proof fn lemma_set_well_formed(fields: Seq<(Seq<char>, JsonV)>, name: Seq<char>, value: JsonV)
    requires
        json::fields_well_formed(fields),
        json::well_formed(value),
    ensures
        json::fields_well_formed(json::with_field(fields, name, value)),
{
    json::lemma_slot(fields, name);
    json::lemma_rank(fields, name);
    let after = json::with_field(fields, name, value);
    assert forall|j: int| 0 <= j < after.len() implies json::well_formed(
        (#[trigger] after[j]).1,
    ) by {
        match json::slot(fields, name) {
            Some(i) => {
                if j != i {
                    assert(after[j] == fields[j]);
                }
            },
            None => {
                let k = json::rank(fields, name);
                if j < k {
                    assert(after[j] == fields[j]);
                } else if j > k {
                    assert(after[j] == fields[j - 1]);
                }
            },
        }
    }
}

/// A write keeps a document well-formed.
pub proof fn a_write_keeps_documents_well_formed(
    doc: JsonV,
    path: Seq<Seq<char>>,
    value: JsonV,
    mode: Mode,
)
    requires
        json::well_formed(doc),
        json::well_formed(value),
        config_tree::placed(doc, path, value, mode) is Ok,
    ensures
        json::well_formed(config_tree::placed(doc, path, value, mode)->Ok_0),
    decreases path.len(),
{
    if path.len() == 1 {
        match doc {
            JsonV::Object(fields) => {
                json::setting_a_field_keeps_the_order(fields, path[0], value);
                lemma_set_well_formed(fields, path[0], value);
            },
            JsonV::Array(items) => {
                let i = config_tree::index(path[0])->Ok_0 as int;
                let after = config_tree::written(doc, path[0], value, mode)->Ok_0->Array_0;
                assert(json::all_well_formed(items));
                assert forall|j: int| 0 <= j < after.len() implies json::well_formed(
                    #[trigger] after[j],
                ) by {
                    if after.len() == items.len() {
                        if j != i {
                            assert(after[j] == items[j]);
                        }
                    } else if j < i {
                        assert(after[j] == items[j]);
                    } else if j > i {
                        assert(after[j] == items[j - 1]);
                    }
                }
                assert(json::all_well_formed(after));
            },
            _ => {},
        }
    } else if path.len() > 1 {
        let c = config_tree::child(doc, path[0])->Ok_0;
        lemma_child_well_formed(doc, path[0]);
        a_write_keeps_documents_well_formed(c, path.skip(1), value, mode);
        lemma_replaced_well_formed(
            doc,
            path[0],
            config_tree::placed(c, path.skip(1), value, mode)->Ok_0,
        );
    }
}

/// A removal keeps a document well-formed.
pub proof fn a_removal_keeps_documents_well_formed(doc: JsonV, path: Seq<Seq<char>>)
    requires
        json::well_formed(doc),
        config_tree::removed(doc, path) is Ok,
    ensures
        json::well_formed(config_tree::removed(doc, path)->Ok_0.0),
    decreases path.len(),
{
    if path.len() == 1 {
        match doc {
            JsonV::Object(fields) => {
                json::lemma_slot(fields, path[0]);
                let i = json::slot(fields, path[0])->Some_0;
                json::dropping_a_field_keeps_the_order(fields, i);
                let after = fields.remove(i);
                assert(json::fields_well_formed(fields));
                assert forall|j: int| 0 <= j < after.len() implies json::well_formed(
                    (#[trigger] after[j]).1,
                ) by {
                    assert(after[j] == if j < i {
                        fields[j]
                    } else {
                        fields[j + 1]
                    });
                }
                assert(json::fields_well_formed(after));
            },
            JsonV::Array(items) => {
                let i = config_tree::index(path[0])->Ok_0 as int;
                let after = items.remove(i);
                assert(json::all_well_formed(items));
                assert forall|j: int| 0 <= j < after.len() implies json::well_formed(
                    #[trigger] after[j],
                ) by {
                    assert(after[j] == if j < i {
                        items[j]
                    } else {
                        items[j + 1]
                    });
                }
                assert(json::all_well_formed(after));
            },
            _ => {},
        }
    } else if path.len() > 1 {
        let c = config_tree::child(doc, path[0])->Ok_0;
        lemma_child_well_formed(doc, path[0]);
        a_removal_keeps_documents_well_formed(c, path.skip(1));
        lemma_replaced_well_formed(
            doc,
            path[0],
            config_tree::removed(c, path.skip(1))->Ok_0.0,
        );
    }
}

/// An expansion keeps a document well-formed.
pub proof fn an_expansion_keeps_documents_well_formed(
    doc: JsonV,
    path: Seq<Seq<char>>,
    body: JsonV,
)
    requires
        json::well_formed(doc),
        json::well_formed(body),
        config_tree::expanded(doc, path, body) is Ok,
    ensures
        json::well_formed(config_tree::expanded(doc, path, body)->Ok_0),
    decreases path.len(),
{
    let elements = body->Array_0;
    if path.len() == 0 {
        let target = doc->Array_0;
        let after = target + elements;
        assert(json::all_well_formed(target));
        assert(json::all_well_formed(elements));
        assert forall|j: int| 0 <= j < after.len() implies json::well_formed(
            #[trigger] after[j],
        ) by {
            if j < target.len() {
                assert(after[j] == target[j]);
            } else {
                assert(after[j] == elements[j - target.len()]);
            }
        }
        assert(json::all_well_formed(after));
    } else {
        let c = config_tree::child(doc, path[0])->Ok_0;
        lemma_child_well_formed(doc, path[0]);
        an_expansion_keeps_documents_well_formed(c, path.skip(1), body);
        lemma_replaced_well_formed(
            doc,
            path[0],
            config_tree::expanded(c, path.skip(1), body)->Ok_0,
        );
    }
}

// ---------------------------------------------------------------------------
// Branches
// ---------------------------------------------------------------------------
/// Which of its children a segment picks in `node`.
pub open spec fn branch(node: JsonV, segment: Seq<char>) -> Option<int> {
    match node {
        JsonV::Object(fields) => json::slot(fields, segment),
        JsonV::Array(items) => match config_tree::index(segment) {
            Ok(i) => Some(i as int),
            Err(_) => None,
        },
        _ => None,
    }
}

/// Whether two paths part at some node of `doc`.
pub open spec fn apart(doc: JsonV, p: Seq<Seq<char>>, q: Seq<Seq<char>>) -> bool
    decreases p.len(),
{
    p.len() > 0 && q.len() > 0 && (if branch(doc, p[0]) == branch(doc, q[0]) {
        match config_tree::child(doc, p[0]) {
            Ok(c) => apart(c, p.skip(1), q.skip(1)),
            Err(_) => false,
        }
    } else {
        true
    })
}

/// Whether `other` passes through an item that a creation at `path` shifts: one at or behind the
/// place in an array where the new item is inserted.
pub open spec fn shifted(doc: JsonV, path: Seq<Seq<char>>, other: Seq<Seq<char>>) -> bool
    decreases path.len(),
{
    if path.len() == 0 || other.len() == 0 {
        false
    } else if path.len() == 1 {
        match (doc, branch(doc, path[0]), branch(doc, other[0])) {
            (JsonV::Array(_), Some(i), Some(j)) => i <= j,
            _ => false,
        }
    } else {
        match config_tree::child(doc, path[0]) {
            Ok(c) => branch(doc, path[0]) == branch(doc, other[0]) && shifted(
                c,
                path.skip(1),
                other.skip(1),
            ),
            Err(_) => false,
        }
    }
}

/// A child in another branch is the same after one was replaced or a field was set.
proof fn lemma_other_child(node: JsonV, s: Seq<char>, value: JsonV, t: Seq<char>, mode: Mode)
    requires
        mode == Mode::Create && node is Array ==> match (branch(node, s), branch(node, t)) {
            (Some(i), Some(j)) => j < i,
            _ => true,
        },
        branch(node, s) != branch(node, t),
        config_tree::child(node, t) is Ok,
    ensures
        config_tree::child(node, s) is Ok ==> config_tree::child(
            config_tree::with_child(node, s, value),
            t,
        ) == config_tree::child(node, t),
        match config_tree::written(node, s, value, mode) {
            Ok(next) => config_tree::child(next, t) == config_tree::child(node, t),
            Err(_) => true,
        },
{
    match node {
        JsonV::Object(fields) => {
            json::lemma_slot(fields, s);
            json::lemma_slot(fields, t);
            json::lemma_rank(fields, s);
            let i = json::slot(fields, t)->Some_0;
            let after = json::with_field(fields, s, value);
            match json::slot(fields, s) {
                Some(k) => {
                    assert(after[i] == fields[i]);
                    assert forall|j: int| 0 <= j < i implies (#[trigger] after[j]).0 != t by {
                        if j != k {
                            assert(after[j] == fields[j]);
                        } else {
                            assert(fields[k].0 != t);
                        }
                    }
                    json::lemma_slot_is(after, t, i);
                },
                None => {
                    let k = json::rank(fields, s);
                    assert(s != t);
                    let at = if i < k {
                        i
                    } else {
                        i + 1
                    };
                    assert(after[at] == fields[i]);
                    assert forall|j: int| 0 <= j < at implies (#[trigger] after[j]).0 != t by {
                        if j < k {
                            assert(after[j] == fields[j]);
                        } else if j > k {
                            assert(after[j] == fields[j - 1]);
                        }
                    }
                    json::lemma_slot_is(after, t, at);
                },
            }
        },
        _ => {},
    }
}

/// A write leaves what can be read in other branches alone: a creation too, unless it is one in
/// an array that shifts the item through which the other path goes.
pub proof fn a_write_leaves_other_branches_alone(
    doc: JsonV,
    path: Seq<Seq<char>>,
    value: JsonV,
    mode: Mode,
    other: Seq<Seq<char>>,
)
    requires
        mode == Mode::Create ==> !shifted(doc, path, other),
        config_tree::placed(doc, path, value, mode) is Ok,
        apart(doc, path, other),
        config_tree::found(doc, other) is Ok,
    ensures
        config_tree::found(config_tree::placed(doc, path, value, mode)->Ok_0, other)
            == config_tree::found(doc, other),
    decreases path.len(),
{
    if path.len() == 1 {
        if branch(doc, path[0]) != branch(doc, other[0]) {
            lemma_other_child(doc, path[0], value, other[0], mode);
        } else if let Ok(c) = config_tree::child(doc, path[0]) {
            assert(!apart(c, path.skip(1), other.skip(1)));
        }
    } else {
        let c = config_tree::child(doc, path[0])->Ok_0;
        let n = config_tree::placed(c, path.skip(1), value, mode)->Ok_0;
        if branch(doc, path[0]) != branch(doc, other[0]) {
            lemma_other_child(doc, path[0], n, other[0], Mode::Replace);
        } else {
            lemma_same_branch(doc, path[0], other[0], n);
            a_write_leaves_other_branches_alone(c, path.skip(1), value, mode, other.skip(1));
        }
    }
}

/// A creation in an object leaves every other branch alone.
pub proof fn a_creation_in_an_object_leaves_other_branches_alone(
    doc: JsonV,
    path: Seq<Seq<char>>,
    value: JsonV,
    other: Seq<Seq<char>>,
)
    requires
        config_tree::found(doc, path.drop_last()) matches Ok(parent) && parent is Object,
        config_tree::placed(doc, path, value, Mode::Create) is Ok,
        apart(doc, path, other),
        config_tree::found(doc, other) is Ok,
    ensures
        config_tree::found(config_tree::placed(doc, path, value, Mode::Create)->Ok_0, other)
            == config_tree::found(doc, other),
{
    lemma_nothing_is_shifted(doc, path, other);
    a_write_leaves_other_branches_alone(doc, path, value, Mode::Create, other);
}

proof fn lemma_nothing_is_shifted(
    doc: JsonV,
    path: Seq<Seq<char>>,
    other: Seq<Seq<char>>,
)
    requires
        path.len() > 0,
        config_tree::found(doc, path.drop_last()) matches Ok(parent) && parent is Object,
    ensures
        !shifted(doc, path, other),
    decreases path.len(),
{
    if path.len() == 1 {
        assert(path.drop_last() =~= Seq::<Seq<char>>::empty());
    } else if other.len() > 0 {
        let c = config_tree::child(doc, path[0])->Ok_0;
        assert(path.drop_last()[0] == path[0]);
        assert(path.drop_last().skip(1) =~= path.skip(1).drop_last());
        lemma_nothing_is_shifted(c, path.skip(1), other.skip(1));
    }
}

/// Two segments that pick one branch find one child, before and after it is replaced.
proof fn lemma_same_branch(node: JsonV, s: Seq<char>, t: Seq<char>, value: JsonV)
    requires
        branch(node, s) == branch(node, t),
        config_tree::child(node, s) is Ok,
    ensures
        config_tree::child(node, t) == config_tree::child(node, s),
        config_tree::child(config_tree::with_child(node, s, value), t) == Ok::<
            JsonV,
            config_tree::TreeErrorV,
        >(value),
{
    lemma_child_replaced(node, s, value);
    match node {
        JsonV::Object(fields) => {
            json::lemma_slot(fields, s);
            json::lemma_slot(fields, t);
            assert(s == t);
        },
        _ => {},
    }
}

// ---------------------------------------------------------------------------
// Expansion and tags
// ---------------------------------------------------------------------------
/// Appending one item is writing it one past the end of the array.
pub proof fn an_expansion_writes_past_the_end(doc: JsonV, path: Seq<Seq<char>>, value: JsonV)
    requires
        config_tree::found(doc, path) matches Ok(JsonV::Array(target)) && target.len()
            <= usize::MAX,
    ensures
        config_tree::expanded(doc, path, JsonV::Array(seq![value])) == config_tree::placed(
            doc,
            path.push(
                text::shown(
                    (config_tree::found(doc, path)->Ok_0->Array_0).len(),
                ),
            ),
            value,
            Mode::Upsert,
        ),
    decreases path.len(),
{
    let target = config_tree::found(doc, path)->Ok_0->Array_0;
    let last = text::shown(target.len());
    let whole = path.push(last);
    text::a_shown_number_reads_back(target.len());
    assert(text::number(last, usize::MAX as nat) == Some(target.len()));
    if path.len() == 0 {
        assert(whole[0] == last);
        assert(target.insert(target.len() as int, value) =~= target + seq![value]);
    } else {
        let c = config_tree::child(doc, path[0])->Ok_0;
        assert(whole[0] == path[0]);
        assert(whole.skip(1) =~= path.skip(1).push(last));
        an_expansion_writes_past_the_end(c, path.skip(1), value);
    }
}

/// Appending two bodies one after the other is appending them together.
pub proof fn expansions_add_up(
    doc: JsonV,
    path: Seq<Seq<char>>,
    first: Seq<JsonV>,
    second: Seq<JsonV>,
)
    requires
        config_tree::expanded(doc, path, JsonV::Array(first)) is Ok,
    ensures
        config_tree::expanded(
            config_tree::expanded(doc, path, JsonV::Array(first))->Ok_0,
            path,
            JsonV::Array(second),
        ) == config_tree::expanded(doc, path, JsonV::Array(first + second)),
    decreases path.len(),
{
    let target = config_tree::found(doc, path)->Ok_0->Array_0;
    if path.len() == 0 {
        assert((target + first) + second =~= target + (first + second));
    } else {
        let c = config_tree::child(doc, path[0])->Ok_0;
        let once = config_tree::expanded(c, path.skip(1), JsonV::Array(first))->Ok_0;
        let twice = config_tree::expanded(c, path.skip(1), JsonV::Array(first + second))->Ok_0;
        expansions_add_up(c, path.skip(1), first, second);
        lemma_child_replaced(doc, path[0], once);
        match doc {
            JsonV::Object(fields) => {
                json::lemma_slot(fields, path[0]);
                let i = json::slot(fields, path[0])->Some_0;
                let after = fields.update(i, (path[0], once));
                assert forall|j: int| 0 <= j < i implies (#[trigger] after[j]).0 != path[0] by {
                    assert(after[j] == fields[j]);
                }
                json::lemma_slot_is(after, path[0], i);
                assert(after.update(i, (path[0], twice)) =~= fields.update(i, (path[0], twice)));
            },
            JsonV::Array(items) => {
                let i = config_tree::index(path[0])->Ok_0 as int;
                assert(items.update(i, once).update(i, twice) =~= items.update(i, twice));
            },
            _ => {},
        }
    }
}

/// The path of a tag leads to the object that carries it.
pub proof fn the_path_of_a_tag_leads_to_its_object(doc: Json, name: Seq<char>)
    requires
        json::well_formed(doc.deep_view()),
        config_tree::id_path(doc.deep_view(), name) is Some,
    ensures
        config_tree::found(
            doc.deep_view(),
            config_tree::id_path(doc.deep_view(), name)->Some_0,
        ) matches Ok(node) && config_tree::tagged(node, name),
    decreases doc,
{
    let node = doc.deep_view();
    let path = config_tree::id_path(node, name)->Some_0;
    if config_tree::tagged(node, name) {
        assert(config_tree::found(node, path) == Ok::<JsonV, config_tree::TreeErrorV>(node));
    } else {
        match doc {
            Json::Object(fields) => {
                let f = json::fields_view(fields@);
                assert(f.subrange(0, f.len() as int) =~= f);
                let i = lemma_tag_in_fields(f, name, 0);
                assert(json::fields_well_formed(f));
                assert(json::well_formed(f[i].1));
                the_path_of_a_tag_leads_to_its_object(fields@[i].1, name);
                assert forall|j: int| 0 <= j < i implies (#[trigger] f[j]).0 != f[i].0 by {
                    json::lemma_in_order_apart(f, j, i);
                }
                json::lemma_slot_is(f, f[i].0, i);
                assert(path.skip(1) =~= config_tree::id_path(f[i].1, name)->Some_0);
            },
            Json::Array(items) => {
                let f = json::items_view(items@);
                assert(f.subrange(0, f.len() as int) =~= f);
                let i = lemma_tag_in_items(f, name, 0);
                assert(json::all_well_formed(f));
                assert(json::well_formed(f[i]));
                the_path_of_a_tag_leads_to_its_object(items@[i], name);
                assert(items.len() == f.len());
                text::a_shown_number_reads_back(i as nat);
                assert(text::number(text::shown(i as nat), usize::MAX as nat) == Some(i as nat));
                assert(path.skip(1) =~= config_tree::id_path(f[i], name)->Some_0);
            },
            _ => {},
        }
    }
}

// ---------------------------------------------------------------------------
// Places
// ---------------------------------------------------------------------------
/// What a value holds directly, in order.
pub open spec fn children(node: JsonV) -> Seq<JsonV> {
    match node {
        JsonV::Object(fields) => Seq::new(fields.len(), |i: int| fields[i].1),
        JsonV::Array(items) => items,
        _ => Seq::empty(),
    }
}

/// The segment that leads to the child at `i`.
pub open spec fn label(node: JsonV, i: int) -> Seq<char> {
    match node {
        JsonV::Object(fields) => fields[i].0,
        _ => text::shown(i as nat),
    }
}

/// What stands at a place of `doc`. A place tells at each level which child to take.
pub open spec fn at(doc: JsonV, place: Seq<int>) -> Option<JsonV>
    decreases place.len(),
{
    if place.len() == 0 {
        Some(doc)
    } else if 0 <= place[0] < children(doc).len() {
        at(children(doc)[place[0]], place.skip(1))
    } else {
        None
    }
}

/// The path that leads to a place.
pub open spec fn labels(doc: JsonV, place: Seq<int>) -> Seq<Seq<char>>
    decreases place.len(),
{
    if place.len() == 0 {
        Seq::empty()
    } else {
        seq![label(doc, place[0])] + labels(children(doc)[place[0]], place.skip(1))
    }
}

/// Whether `p` comes before `q` when a value is visited before what it holds, and what it holds in
/// order.
pub open spec fn ahead(p: Seq<int>, q: Seq<int>) -> bool
    decreases p.len(),
{
    q.len() > 0 && (p.len() == 0 || p[0] < q[0] || (p[0] == q[0] && ahead(p.skip(1), q.skip(1))))
}

/// Whether an object with the tag `name` stands at a place of `doc`.
pub open spec fn tagged_at(doc: JsonV, place: Seq<int>, name: Seq<char>) -> bool {
    at(doc, place) matches Some(node) && config_tree::tagged(node, name)
}

/// Whether `place` is where the first object with the tag `name` stands.
pub open spec fn first_tagged(doc: JsonV, place: Seq<int>, name: Seq<char>) -> bool {
    &&& tagged_at(doc, place, name)
    &&& forall|q: Seq<int>| #[trigger] tagged_at(doc, q, name) ==> q == place || ahead(place, q)
}

/// Where the first object with the tag is, if there is one.
proof fn lemma_first_tag(doc: JsonV, name: Seq<char>) -> (place: Seq<int>)
    ensures
        match config_tree::id_path(doc, name) {
            None => forall|q: Seq<int>| !#[trigger] tagged_at(doc, q, name),
            Some(path) => first_tagged(doc, place, name) && path == labels(doc, place),
        },
    decreases doc,
{
    let none = Seq::<int>::empty();
    if config_tree::tagged(doc, name) {
        assert forall|q: Seq<int>| #[trigger] tagged_at(doc, q, name) implies q == none || ahead(
            none,
            q,
        ) by {
            if q.len() == 0 {
                assert(q =~= none);
            }
        }
        assert(labels(doc, none) =~= Seq::<Seq<char>>::empty());
        none
    } else {
        match doc {
            JsonV::Object(fields) => {
                assert(fields.subrange(0, fields.len() as int) =~= fields);
                if config_tree::id_path(doc, name) is None {
                    assert forall|q: Seq<int>| !#[trigger] tagged_at(doc, q, name) by {
                        if tagged_at(doc, q, name) {
                            assert(q.len() > 0);
                            lemma_no_tag_in_fields(fields, name, 0, q[0]);
                            lemma_first_tag(fields[q[0]].1, name);
                            assert(tagged_at(fields[q[0]].1, q.skip(1), name));
                        }
                    }
                    none
                } else {
                    let i = lemma_tag_in_fields(fields, name, 0);
                    let inner = lemma_first_tag(fields[i].1, name);
                    let place = seq![i] + inner;
                    assert(place.skip(1) =~= inner);
                    assert(tagged_at(fields[i].1, inner, name));
                    assert forall|q: Seq<int>| #[trigger] tagged_at(doc, q, name) implies q == place
                        || ahead(place, q) by {
                        assert(q.len() > 0);
                        assert(tagged_at(fields[q[0]].1, q.skip(1), name));
                        if q[0] < i {
                            lemma_first_tag(fields[q[0]].1, name);
                        } else if q[0] == i && q.skip(1) == inner {
                            assert(q =~= place);
                        }
                    }
                    place
                }
            },
            JsonV::Array(items) => {
                assert(items.subrange(0, items.len() as int) =~= items);
                if config_tree::id_path(doc, name) is None {
                    assert forall|q: Seq<int>| !#[trigger] tagged_at(doc, q, name) by {
                        if tagged_at(doc, q, name) {
                            assert(q.len() > 0);
                            lemma_no_tag_in_items(items, name, 0, q[0]);
                            lemma_first_tag(items[q[0]], name);
                            assert(tagged_at(items[q[0]], q.skip(1), name));
                        }
                    }
                    none
                } else {
                    let i = lemma_tag_in_items(items, name, 0);
                    let inner = lemma_first_tag(items[i], name);
                    let place = seq![i] + inner;
                    assert(place.skip(1) =~= inner);
                    assert(tagged_at(items[i], inner, name));
                    assert forall|q: Seq<int>| #[trigger] tagged_at(doc, q, name) implies q == place
                        || ahead(place, q) by {
                        assert(q.len() > 0);
                        assert(tagged_at(items[q[0]], q.skip(1), name));
                        if q[0] < i {
                            lemma_first_tag(items[q[0]], name);
                        } else if q[0] == i && q.skip(1) == inner {
                            assert(q =~= place);
                        }
                    }
                    place
                }
            },
            _ => {
                assert forall|q: Seq<int>| !#[trigger] tagged_at(doc, q, name) by {}
                none
            },
        }
    }
}

/// A tag has no path exactly when no object anywhere in the document carries it, and otherwise
/// its path is that of the first such object: an object comes before what it holds, and items
/// come in order.
pub proof fn the_first_object_with_a_tag_is_found(doc: JsonV, name: Seq<char>)
    ensures
        config_tree::id_path(doc, name) is None <==> forall|place: Seq<int>|
            !#[trigger] tagged_at(doc, place, name),
        config_tree::id_path(doc, name) matches Some(path) ==> exists|place: Seq<int>| #[trigger]
            first_tagged(doc, place, name) && path == labels(doc, place),
{
    let place = lemma_first_tag(doc, name);
    if config_tree::id_path(doc, name) is Some {
        assert(first_tagged(doc, place, name));
        assert(tagged_at(doc, place, name));
    }
}

/// What can be read at a path stands at some place.
proof fn lemma_read_somewhere(doc: JsonV, path: Seq<Seq<char>>) -> (place: Seq<int>)
    requires
        config_tree::found(doc, path) is Ok,
    ensures
        at(doc, place) == Some(config_tree::found(doc, path)->Ok_0),
    decreases path.len(),
{
    if path.len() == 0 {
        Seq::empty()
    } else {
        let c = config_tree::child(doc, path[0])->Ok_0;
        let i = branch(doc, path[0])->Some_0;
        match doc {
            JsonV::Object(fields) => {
                json::lemma_slot(fields, path[0]);
            },
            _ => {},
        }
        let inner = lemma_read_somewhere(c, path.skip(1));
        let place = seq![i] + inner;
        assert(place.skip(1) =~= inner);
        place
    }
}

/// Where a tag has no path, no path at all leads to an object with that tag.
pub proof fn a_tag_without_a_path_cannot_be_read(
    doc: JsonV,
    name: Seq<char>,
    path: Seq<Seq<char>>,
)
    requires
        config_tree::id_path(doc, name) is None,
    ensures
        config_tree::found(doc, path) matches Ok(node) ==> !config_tree::tagged(node, name),
{
    if config_tree::found(doc, path) is Ok {
        let place = lemma_read_somewhere(doc, path);
        the_first_object_with_a_tag_is_found(doc, name);
        assert(!tagged_at(doc, place, name));
    }
}

proof fn lemma_no_tag_in_fields(f: Seq<(Seq<char>, JsonV)>, name: Seq<char>, from: int, i: int)
    requires
        0 <= from <= i < f.len(),
        config_tree::id_path_in_fields(f.subrange(from, f.len() as int), name) is None,
    ensures
        config_tree::id_path(f[i].1, name) is None,
    decreases i - from,
{
    let rest = f.subrange(from, f.len() as int);
    assert(rest[0] == f[from]);
    if i > from {
        assert(rest.subrange(1, rest.len() as int) =~= f.subrange(from + 1, f.len() as int));
        lemma_no_tag_in_fields(f, name, from + 1, i);
    }
}

proof fn lemma_no_tag_in_items(f: Seq<JsonV>, name: Seq<char>, from: int, i: int)
    requires
        0 <= from <= i < f.len(),
        config_tree::id_path_in_items(f.subrange(from, f.len() as int), from as nat, name) is None,
    ensures
        config_tree::id_path(f[i], name) is None,
    decreases i - from,
{
    let rest = f.subrange(from, f.len() as int);
    assert(rest[0] == f[from]);
    if i > from {
        assert(rest.subrange(1, rest.len() as int) =~= f.subrange(from + 1, f.len() as int));
        lemma_no_tag_in_items(f, name, from + 1, i);
    }
}

proof fn lemma_tag_in_fields(f: Seq<(Seq<char>, JsonV)>, name: Seq<char>, from: int) -> (i: int)
    requires
        0 <= from <= f.len(),
        config_tree::id_path_in_fields(f.subrange(from, f.len() as int), name) is Some,
    ensures
        from <= i < f.len(),
        config_tree::id_path(f[i].1, name) is Some,
        forall|j: int| from <= j < i ==> config_tree::id_path((#[trigger] f[j]).1, name) is None,
        config_tree::id_path_in_fields(f.subrange(from, f.len() as int), name) == Some(
            seq![f[i].0] + config_tree::id_path(f[i].1, name)->Some_0,
        ),
        from == 0 ==> config_tree::id_path_in_fields(f, name) == Some(
            seq![f[i].0] + config_tree::id_path(f[i].1, name)->Some_0,
        ),
    decreases f.len() - from,
{
    let rest = f.subrange(from, f.len() as int);
    if from == 0 {
        assert(rest =~= f);
    }
    assert(rest[0] == f[from]);
    if config_tree::id_path(f[from].1, name) is Some {
        from
    } else {
        assert(rest.subrange(1, rest.len() as int) =~= f.subrange(from + 1, f.len() as int));
        lemma_tag_in_fields(f, name, from + 1)
    }
}

proof fn lemma_tag_in_items(f: Seq<JsonV>, name: Seq<char>, from: int) -> (i: int)
    requires
        0 <= from <= f.len(),
        config_tree::id_path_in_items(f.subrange(from, f.len() as int), from as nat, name) is Some,
    ensures
        from <= i < f.len(),
        config_tree::id_path(f[i], name) is Some,
        forall|j: int| from <= j < i ==> config_tree::id_path(#[trigger] f[j], name) is None,
        config_tree::id_path_in_items(f.subrange(from, f.len() as int), from as nat, name) == Some(
            seq![text::shown(i as nat)] + config_tree::id_path(f[i], name)->Some_0,
        ),
        from == 0 ==> config_tree::id_path_in_items(f, 0, name) == Some(
            seq![text::shown(i as nat)] + config_tree::id_path(f[i], name)->Some_0,
        ),
    decreases f.len() - from,
{
    let rest = f.subrange(from, f.len() as int);
    if from == 0 {
        assert(rest =~= f);
    }
    assert(rest[0] == f[from]);
    if config_tree::id_path(f[from], name) is Some {
        from
    } else {
        assert(rest.subrange(1, rest.len() as int) =~= f.subrange(from + 1, f.len() as int));
        lemma_tag_in_items(f, name, from + 1)
    }
}

} // verus!
