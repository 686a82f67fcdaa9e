//! Reading and changing a configuration document by path.

use crate::admin::json;
use crate::admin::json::{find_field, put_field, Json, JsonV};
use crate::duplicate::Duplicate;
use crate::text;
use crate::text::{cat, cat3, parse_usize, same, show, split};
use vstd::prelude::*;

verus! {

// ---------------------------------------------------------------------------
// Errors, modes and paths
// ---------------------------------------------------------------------------
/// Why a path could not be followed or changed.
#[derive(Debug, PartialEq, Eq)]
pub enum TreeError {
    /// Nothing stands at the path.
    NotFound,
    /// Something stands at the path already.
    Conflict,
    /// The path or the value does not fit.
    Invalid(String),
}

/// The mathematical value of a [`TreeError`].
#[verifier::ext_equal]
pub enum TreeErrorV {
    NotFound,
    Conflict,
    Invalid(Seq<char>),
}

impl DeepView for TreeError {
    type V = TreeErrorV;

    open spec fn deep_view(&self) -> TreeErrorV {
        match self {
            TreeError::NotFound => TreeErrorV::NotFound,
            TreeError::Conflict => TreeErrorV::Conflict,
            TreeError::Invalid(reason) => TreeErrorV::Invalid(reason@),
        }
    }
}

/// The message that a client sees.
pub open spec fn told(e: TreeErrorV) -> Seq<char> {
    match e {
        TreeErrorV::NotFound => "config path does not exist"@,
        TreeErrorV::Conflict => "config path already exists"@,
        TreeErrorV::Invalid(reason) => "invalid config path: "@ + reason,
    }
}

impl TreeError {
    /// The message that a client sees.
    pub fn message(&self) -> (r: String)
        ensures
            r@ == told(self.deep_view()),
    {
        match self {
            TreeError::NotFound => "config path does not exist".to_owned(),
            TreeError::Conflict => "config path already exists".to_owned(),
            TreeError::Invalid(reason) => cat("invalid config path: ", reason.as_str()),
        }
    }
}

fn invalid(reason: &str) -> (r: TreeError)
    ensures
        r.deep_view() == TreeErrorV::Invalid(reason@),
{
    TreeError::Invalid(reason.to_owned())
}

/// How a write treats what stands at its path.
#[derive(Debug, Clone, Copy, PartialEq, Eq, Structural)]
pub enum Mode {
    /// Create or replace; one past the end of an array appends.
    Upsert,
    /// Create only; in an array, insert and shift what follows.
    Create,
    /// Replace only.
    Replace,
}

/// The segments of a path: what stands between its slashes, without empty pieces.
pub open spec fn segments(path: Seq<char>) -> Seq<Seq<char>> {
    text::pieces(path, '/').filter(|s: Seq<char>| s.len() > 0)
}

/// Splits a path into its segments.
pub fn segments_from_path(path: &str) -> (r: Vec<String>)
    ensures
        r.deep_view() == segments(path@),
{
    let pieces = split(path, '/');
    let ghost p = pieces.deep_view();
    let ghost keep = |s: Seq<char>| s.len() > 0;
    let mut out: Vec<String> = Vec::new();
    let mut i: usize = 0;
    proof {
        reveal(Seq::filter);
        assert(p.take(0).filter(keep) =~= Seq::<Seq<char>>::empty());
        assert(out.deep_view() =~= Seq::<Seq<char>>::empty());
    }
    while i < pieces.len()
        invariant
            i <= pieces.len(),
            p == pieces.deep_view(),
            keep == (|s: Seq<char>| s.len() > 0),
            out.deep_view() == p.take(i as int).filter(keep),
        decreases pieces.len() - i,
    {
        proof {
            reveal(Seq::filter);
            assert(p.take(i + 1).drop_last() =~= p.take(i as int));
            assert(p.take(i + 1).last() == pieces@[i as int]@);
        }
        if pieces[i].as_str().unicode_len() > 0 {
            let ghost before = out.deep_view();
            out.push(pieces[i].clone());
            assert(out.deep_view() =~= before.push(pieces@[i as int]@));
        }
        i += 1;
    }
    assert(p.take(i as int) =~= p);
    out
}

/// The array index that a segment stands for.
pub open spec fn index(segment: Seq<char>) -> Result<usize, TreeErrorV> {
    match text::as_usize(segment) {
        Some(i) => Ok(i),
        None => Err(
            TreeErrorV::Invalid("array index expected, got `"@ + segment + "`"@),
        ),
    }
}

fn parse_index(segment: &str) -> (r: Result<usize, TreeError>)
    ensures
        match r {
            Ok(i) => index(segment@) == Ok::<usize, TreeErrorV>(i),
            Err(e) => index(segment@) == Err::<usize, TreeErrorV>(e.deep_view()),
        },
{
    match parse_usize(segment) {
        Some(i) => Ok(i),
        None => Err(TreeError::Invalid(cat3("array index expected, got `", segment, "`"))),
    }
}

// ---------------------------------------------------------------------------
// Reading
// ---------------------------------------------------------------------------
/// What stands under `segment` in `node`.
pub open spec fn child(node: JsonV, segment: Seq<char>) -> Result<JsonV, TreeErrorV> {
    match node {
        JsonV::Object(fields) => match json::slot(fields, segment) {
            Some(i) => Ok(fields[i].1),
            None => Err(TreeErrorV::NotFound),
        },
        JsonV::Array(items) => match index(segment) {
            Ok(i) => if i < items.len() {
                Ok(items[i as int])
            } else {
                Err(TreeErrorV::NotFound)
            },
            Err(e) => Err(e),
        },
        _ => Err(TreeErrorV::Invalid("cannot descend into a scalar"@)),
    }
}

/// What stands at `path` in `doc`.
pub open spec fn found(doc: JsonV, path: Seq<Seq<char>>) -> Result<JsonV, TreeErrorV>
    decreases path.len(),
{
    if path.len() == 0 {
        Ok(doc)
    } else {
        match child(doc, path[0]) {
            Ok(c) => found(c, path.skip(1)),
            Err(e) => Err(e),
        }
    }
}

/// Reads what stands at a path.
pub fn get<'a>(doc: &'a Json, segments: &[String]) -> (r: Result<&'a Json, TreeError>)
    ensures
        match r {
            Ok(node) => found(doc.deep_view(), segments.deep_view()) == Ok::<JsonV, TreeErrorV>(
                node.deep_view(),
            ),
            Err(e) => found(doc.deep_view(), segments.deep_view()) == Err::<JsonV, TreeErrorV>(
                e.deep_view(),
            ),
        },
{
    let ghost path = segments.deep_view();
    let mut current: &'a Json = doc;
    let mut i: usize = 0;
    assert(path.skip(0) =~= path);
    while i < segments.len()
        invariant
            i <= segments.len(),
            path == segments.deep_view(),
            found(doc.deep_view(), path) == found(current.deep_view(), path.skip(i as int)),
        decreases segments.len() - i,
    {
        assert(path.skip(i as int)[0] == segments@[i as int]@);
        assert(path.skip(i as int).skip(1) =~= path.skip(i + 1));
        let segment = segments[i].as_str();
        match current {
            Json::Object(fields) => match find_field(fields, segment) {
                Some(k) => {
                    current = &fields[k].1;
                },
                None => {
                    return Err(TreeError::NotFound);
                },
            },
            Json::Array(items) => match parse_index(segment) {
                Ok(k) => {
                    if k < items.len() {
                        current = &items[k];
                    } else {
                        return Err(TreeError::NotFound);
                    }
                },
                Err(e) => {
                    return Err(e);
                },
            },
            _ => {
                return Err(invalid("cannot descend into a scalar"));
            },
        }
        i += 1;
    }
    Ok(current)
}

// ---------------------------------------------------------------------------
// Writing
// ---------------------------------------------------------------------------
/// `node` with what stands under `segment` replaced by `value`.
pub open spec fn with_child(node: JsonV, segment: Seq<char>, value: JsonV) -> JsonV {
    match node {
        JsonV::Object(fields) => match json::slot(fields, segment) {
            Some(i) => JsonV::Object(fields.update(i, (segment, value))),
            None => node,
        },
        JsonV::Array(items) => match index(segment) {
            Ok(i) => JsonV::Array(items.update(i as int, value)),
            Err(_) => node,
        },
        _ => node,
    }
}

/// `node` with `value` written under `segment`.
pub open spec fn written(node: JsonV, segment: Seq<char>, value: JsonV, mode: Mode) -> Result<
    JsonV,
    TreeErrorV,
> {
    match node {
        JsonV::Object(fields) => {
            let present = json::slot(fields, segment) is Some;
            if mode == Mode::Create && present {
                Err(TreeErrorV::Conflict)
            } else if mode == Mode::Replace && !present {
                Err(TreeErrorV::NotFound)
            } else {
                Ok(JsonV::Object(json::with_field(fields, segment, value)))
            }
        },
        JsonV::Array(items) => match index(segment) {
            Err(e) => Err(e),
            Ok(i) => if mode == Mode::Replace {
                if i < items.len() {
                    Ok(JsonV::Array(items.update(i as int, value)))
                } else {
                    Err(TreeErrorV::NotFound)
                }
            } else if i > items.len() {
                Err(TreeErrorV::Invalid("array index out of range"@))
            } else if mode == Mode::Upsert && i < items.len() {
                Ok(JsonV::Array(items.update(i as int, value)))
            } else {
                Ok(JsonV::Array(items.insert(i as int, value)))
            },
        },
        _ => Err(TreeErrorV::Invalid("cannot write into a scalar"@)),
    }
}

/// `doc` with `value` written at `path`.
pub open spec fn placed(doc: JsonV, path: Seq<Seq<char>>, value: JsonV, mode: Mode) -> Result<
    JsonV,
    TreeErrorV,
>
    decreases path.len(),
{
    if path.len() == 0 {
        if mode == Mode::Create && !(doc is Null) {
            Err(TreeErrorV::Conflict)
        } else {
            Ok(value)
        }
    } else if path.len() == 1 {
        written(doc, path[0], value, mode)
    } else {
        match child(doc, path[0]) {
            Err(e) => Err(e),
            Ok(c) => match placed(c, path.skip(1), value, mode) {
                Err(e) => Err(e),
                Ok(next) => Ok(with_child(doc, path[0], next)),
            },
        }
    }
}

/// Whether a change did what `wanted` says: on failure the document is as it was.
pub open spec fn carried_out(
    r: Result<(), TreeError>,
    before: JsonV,
    after: JsonV,
    wanted: Result<JsonV, TreeErrorV>,
) -> bool {
    match r {
        Ok(()) => wanted == Ok::<JsonV, TreeErrorV>(after),
        Err(e) => wanted == Err::<JsonV, TreeErrorV>(e.deep_view()) && after == before,
    }
}

fn write_into(node: &mut Json, segment: &str, value: Json, mode: Mode) -> (r: Result<
    (),
    TreeError,
>)
    ensures
        carried_out(
            r,
            old(node).deep_view(),
            final(node).deep_view(),
            written(old(node).deep_view(), segment@, value.deep_view(), mode),
        ),
{
    match node {
        Json::Object(fields) => {
            let present = find_field(fields, segment).is_some();
            if mode == Mode::Create && present {
                return Err(TreeError::Conflict);
            }
            if mode == Mode::Replace && !present {
                return Err(TreeError::NotFound);
            }
            put_field(fields, segment.to_owned(), value);
            Ok(())
        },
        Json::Array(items) => {
            let i = match parse_index(segment) {
                Ok(i) => i,
                Err(e) => {
                    return Err(e);
                },
            };
            let ghost before = json::items_view(items@);
            let ghost v = value.deep_view();
            if mode == Mode::Replace {
                if i >= items.len() {
                    return Err(TreeError::NotFound);
                }
                items.set(i, value);
                assert(json::items_view(items@) =~= before.update(i as int, v));
                return Ok(());
            }
            if i > items.len() {
                return Err(invalid("array index out of range"));
            }
            if mode == Mode::Upsert && i < items.len() {
                items.set(i, value);
                assert(json::items_view(items@) =~= before.update(i as int, v));
            } else {
                items.insert(i, value);
                assert(json::items_view(items@) =~= before.insert(i as int, v));
            }
            Ok(())
        },
        _ => Err(invalid("cannot write into a scalar")),
    }
}

fn set_from(
    node: &mut Json,
    segments: &[String],
    from: usize,
    value: Json,
    mode: Mode,
) -> (r: Result<(), TreeError>)
    requires
        from < segments@.len(),
    ensures
        carried_out(
            r,
            old(node).deep_view(),
            final(node).deep_view(),
            placed(
                old(node).deep_view(),
                segments.deep_view().skip(from as int),
                value.deep_view(),
                mode,
            ),
        ),
    decreases segments@.len() - from,
{
    let ghost path = segments.deep_view().skip(from as int);
    let segment = segments[from].as_str();
    assert(path[0] == segment@);
    assert(path.skip(1) =~= segments.deep_view().skip(from + 1));
    if from + 1 == segments.len() {
        return write_into(node, segment, value, mode);
    }
    match node {
        Json::Object(fields) => match find_field(fields, segment) {
            None => Err(TreeError::NotFound),
            Some(k) => {
                let ghost before = json::fields_view(fields@);
                let r = set_from(&mut fields[k].1, segments, from + 1, value, mode);
                proof {
                    json::lemma_slot(before, segment@);
                    let after = json::fields_view(fields@);
                    assert(after =~= before.update(k as int, (segment@, after[k as int].1)));
                    assert(before =~= before.update(k as int, (segment@, before[k as int].1)));
                }
                r
            },
        },
        Json::Array(items) => match parse_index(segment) {
            Err(e) => Err(e),
            Ok(k) => {
                if k >= items.len() {
                    return Err(TreeError::NotFound);
                }
                let ghost before = json::items_view(items@);
                let r = set_from(&mut items[k], segments, from + 1, value, mode);
                proof {
                    let after = json::items_view(items@);
                    assert(after =~= before.update(k as int, after[k as int]));
                    assert(before =~= before.update(k as int, before[k as int]));
                }
                r
            },
        },
        _ => Err(invalid("cannot descend into a scalar")),
    }
}

/// Writes `value` at a path.
pub fn set(doc: &mut Json, segments: &[String], value: Json, mode: Mode) -> (r: Result<
    (),
    TreeError,
>)
    ensures
        carried_out(
            r,
            old(doc).deep_view(),
            final(doc).deep_view(),
            placed(old(doc).deep_view(), segments.deep_view(), value.deep_view(), mode),
        ),
{
    if segments.len() == 0 {
        let empty = match doc {
            Json::Null => true,
            _ => false,
        };
        if mode == Mode::Create && !empty {
            return Err(TreeError::Conflict);
        }
        *doc = value;
        return Ok(());
    }
    assert(segments.deep_view().skip(0) =~= segments.deep_view());
    set_from(doc, segments, 0, value, mode)
}

// ---------------------------------------------------------------------------
// Removing
// ---------------------------------------------------------------------------
/// `node` without what stands under `segment`, and what stood there.
pub open spec fn taken(node: JsonV, segment: Seq<char>) -> Result<(JsonV, JsonV), TreeErrorV> {
    match node {
        JsonV::Object(fields) => match json::slot(fields, segment) {
            Some(i) => Ok((JsonV::Object(fields.remove(i)), fields[i].1)),
            None => Err(TreeErrorV::NotFound),
        },
        JsonV::Array(items) => match index(segment) {
            Err(e) => Err(e),
            Ok(i) => if i < items.len() {
                Ok((JsonV::Array(items.remove(i as int)), items[i as int]))
            } else {
                Err(TreeErrorV::NotFound)
            },
        },
        _ => Err(TreeErrorV::Invalid("cannot delete from a scalar"@)),
    }
}

/// `doc` without what stands at `path`, and what stood there.
pub open spec fn removed(doc: JsonV, path: Seq<Seq<char>>) -> Result<(JsonV, JsonV), TreeErrorV>
    decreases path.len(),
{
    if path.len() == 0 {
        Ok((JsonV::Null, doc))
    } else if path.len() == 1 {
        taken(doc, path[0])
    } else {
        match child(doc, path[0]) {
            Err(e) => Err(e),
            Ok(c) => match removed(c, path.skip(1)) {
                Err(e) => Err(e),
                Ok((next, value)) => Ok((with_child(doc, path[0], next), value)),
            },
        }
    }
}

/// Whether a removal did what `wanted` says: on failure the document is as it was.
pub open spec fn cleared(
    r: Result<Json, TreeError>,
    before: JsonV,
    after: JsonV,
    wanted: Result<(JsonV, JsonV), TreeErrorV>,
) -> bool {
    match r {
        Ok(value) => wanted == Ok::<(JsonV, JsonV), TreeErrorV>((after, value.deep_view())),
        Err(e) => wanted == Err::<(JsonV, JsonV), TreeErrorV>(e.deep_view()) && after == before,
    }
}

fn take_from(node: &mut Json, segment: &str) -> (r: Result<Json, TreeError>)
    ensures
        cleared(
            r,
            old(node).deep_view(),
            final(node).deep_view(),
            taken(old(node).deep_view(), segment@),
        ),
{
    match node {
        Json::Object(fields) => match find_field(fields, segment) {
            Some(i) => {
                let ghost before = json::fields_view(fields@);
                let (_, value) = fields.remove(i);
                assert(json::fields_view(fields@) =~= before.remove(i as int));
                Ok(value)
            },
            None => Err(TreeError::NotFound),
        },
        Json::Array(items) => match parse_index(segment) {
            Err(e) => Err(e),
            Ok(i) => {
                if i >= items.len() {
                    return Err(TreeError::NotFound);
                }
                let ghost before = json::items_view(items@);
                let value = items.remove(i);
                assert(json::items_view(items@) =~= before.remove(i as int));
                Ok(value)
            },
        },
        _ => Err(invalid("cannot delete from a scalar")),
    }
}

fn remove_from(node: &mut Json, segments: &[String], from: usize) -> (r: Result<Json, TreeError>)
    requires
        from < segments@.len(),
    ensures
        cleared(
            r,
            old(node).deep_view(),
            final(node).deep_view(),
            removed(old(node).deep_view(), segments.deep_view().skip(from as int)),
        ),
    decreases segments@.len() - from,
{
    let ghost path = segments.deep_view().skip(from as int);
    let segment = segments[from].as_str();
    assert(path[0] == segment@);
    assert(path.skip(1) =~= segments.deep_view().skip(from + 1));
    if from + 1 == segments.len() {
        return take_from(node, segment);
    }
    match node {
        Json::Object(fields) => match find_field(fields, segment) {
            None => Err(TreeError::NotFound),
            Some(k) => {
                let ghost before = json::fields_view(fields@);
                let r = remove_from(&mut fields[k].1, segments, from + 1);
                proof {
                    json::lemma_slot(before, segment@);
                    let after = json::fields_view(fields@);
                    assert(after =~= before.update(k as int, (segment@, after[k as int].1)));
                    assert(before =~= before.update(k as int, (segment@, before[k as int].1)));
                }
                r
            },
        },
        Json::Array(items) => match parse_index(segment) {
            Err(e) => Err(e),
            Ok(k) => {
                if k >= items.len() {
                    return Err(TreeError::NotFound);
                }
                let ghost before = json::items_view(items@);
                let r = remove_from(&mut items[k], segments, from + 1);
                proof {
                    let after = json::items_view(items@);
                    assert(after =~= before.update(k as int, after[k as int]));
                    assert(before =~= before.update(k as int, before[k as int]));
                }
                r
            },
        },
        _ => Err(invalid("cannot descend into a scalar")),
    }
}

/// Removes what stands at a path and returns it. The whole document is replaced by null.
pub fn remove(doc: &mut Json, segments: &[String]) -> (r: Result<Json, TreeError>)
    ensures
        cleared(
            r,
            old(doc).deep_view(),
            final(doc).deep_view(),
            removed(old(doc).deep_view(), segments.deep_view()),
        ),
{
    if segments.len() == 0 {
        let mut value = Json::Null;
        std::mem::swap(doc, &mut value);
        return Ok(value);
    }
    assert(segments.deep_view().skip(0) =~= segments.deep_view());
    remove_from(doc, segments, 0)
}

// ---------------------------------------------------------------------------
// Appending
// ---------------------------------------------------------------------------
/// `doc` with what stands at `path` replaced by `value`.
pub open spec fn replaced(doc: JsonV, path: Seq<Seq<char>>, value: JsonV) -> JsonV
    decreases path.len(),
{
    if path.len() == 0 {
        value
    } else {
        match child(doc, path[0]) {
            Ok(c) => with_child(doc, path[0], replaced(c, path.skip(1), value)),
            Err(_) => doc,
        }
    }
}

/// `doc` with the items of `body` appended to the array at `path`.
pub open spec fn expanded(doc: JsonV, path: Seq<Seq<char>>, body: JsonV) -> Result<
    JsonV,
    TreeErrorV,
> {
    match body {
        JsonV::Array(elements) => match found(doc, path) {
            Ok(JsonV::Array(target)) => Ok(
                replaced(doc, path, JsonV::Array(target + elements)),
            ),
            Ok(_) => Err(TreeErrorV::Invalid("`...` expansion requires an array target"@)),
            Err(e) => Err(e),
        },
        _ => Err(TreeErrorV::Invalid("`...` expansion requires an array body"@)),
    }
}

fn append_all(items: &mut Vec<Json>, elements: &Vec<Json>)
    ensures
        json::items_view(final(items)@) == json::items_view(old(items)@) + json::items_view(
            elements@,
        ),
{
    let ghost before = json::items_view(items@);
    let ghost more = json::items_view(elements@);
    let mut i: usize = 0;
    assert(before + more.take(0) =~= before);
    while i < elements.len()
        invariant
            i <= elements.len(),
            more == json::items_view(elements@),
            json::items_view(items@) == before + more.take(i as int),
        decreases elements.len() - i,
    {
        let ghost now = json::items_view(items@);
        items.push(elements[i].duplicate());
        assert(json::items_view(items@) =~= now.push(more[i as int]));
        i += 1;
        assert(more.take(i as int) =~= more.take(i - 1).push(more[i - 1]));
    }
    assert(more.take(i as int) =~= more);
}

fn append_from(node: &mut Json, segments: &[String], from: usize, elements: &Vec<Json>) -> (r:
    Result<(), TreeError>)
    requires
        from <= segments@.len(),
    ensures
        carried_out(
            r,
            old(node).deep_view(),
            final(node).deep_view(),
            expanded(
                old(node).deep_view(),
                segments.deep_view().skip(from as int),
                JsonV::Array(json::items_view(elements@)),
            ),
        ),
    decreases segments@.len() - from,
{
    let ghost path = segments.deep_view().skip(from as int);
    if from == segments.len() {
        return match node {
            Json::Array(items) => {
                append_all(items, elements);
                Ok(())
            },
            _ => Err(invalid("`...` expansion requires an array target")),
        };
    }
    let segment = segments[from].as_str();
    assert(path[0] == segment@);
    assert(path.skip(1) =~= segments.deep_view().skip(from + 1));
    match node {
        Json::Object(fields) => match find_field(fields, segment) {
            None => Err(TreeError::NotFound),
            Some(k) => {
                let ghost before = json::fields_view(fields@);
                let r = append_from(&mut fields[k].1, segments, from + 1, elements);
                proof {
                    json::lemma_slot(before, segment@);
                    let after = json::fields_view(fields@);
                    assert(after =~= before.update(k as int, (segment@, after[k as int].1)));
                    assert(before =~= before.update(k as int, (segment@, before[k as int].1)));
                }
                r
            },
        },
        Json::Array(items) => match parse_index(segment) {
            Err(e) => Err(e),
            Ok(k) => {
                if k >= items.len() {
                    return Err(TreeError::NotFound);
                }
                let ghost before = json::items_view(items@);
                let r = append_from(&mut items[k], segments, from + 1, elements);
                proof {
                    let after = json::items_view(items@);
                    assert(after =~= before.update(k as int, after[k as int]));
                    assert(before =~= before.update(k as int, before[k as int]));
                }
                r
            },
        },
        _ => Err(invalid("cannot descend into a scalar")),
    }
}

/// Appends every item of an array body to the array at a path.
pub fn expand_append(doc: &mut Json, segments: &[String], body: &Json) -> (r: Result<
    (),
    TreeError,
>)
    ensures
        carried_out(
            r,
            old(doc).deep_view(),
            final(doc).deep_view(),
            expanded(old(doc).deep_view(), segments.deep_view(), body.deep_view()),
        ),
{
    match body {
        Json::Array(elements) => {
            assert(segments.deep_view().skip(0) =~= segments.deep_view());
            append_from(doc, segments, 0, elements)
        },
        _ => Err(invalid("`...` expansion requires an array body")),
    }
}

// ---------------------------------------------------------------------------
// Tags
// ---------------------------------------------------------------------------
/// Whether `node` is an object whose `@id` is `name`.
pub open spec fn tagged(node: JsonV, name: Seq<char>) -> bool {
    match node {
        JsonV::Object(fields) => match json::slot(fields, "@id"@) {
            Some(i) => fields[i].1 == JsonV::String(name),
            None => false,
        },
        _ => false,
    }
}

/// The path of the first object whose `@id` is `name`; an object comes before what it holds.
pub open spec fn id_path(node: JsonV, name: Seq<char>) -> Option<Seq<Seq<char>>>
    decreases node,
{
    if tagged(node, name) {
        Some(Seq::empty())
    } else {
        match node {
            JsonV::Object(fields) => id_path_in_fields(fields, name),
            JsonV::Array(items) => id_path_in_items(items, 0, name),
            _ => None,
        }
    }
}

/// The path of the first such object in the fields.
pub open spec fn id_path_in_fields(fields: Seq<(Seq<char>, JsonV)>, name: Seq<char>) -> Option<
    Seq<Seq<char>>,
>
    decreases fields,
{
    if fields.len() == 0 {
        None
    } else {
        match id_path(fields[0].1, name) {
            Some(path) => Some(seq![fields[0].0] + path),
            None => id_path_in_fields(fields.subrange(1, fields.len() as int), name),
        }
    }
}

/// The path of the first such object in the items, of which the first has the index `at`.
pub open spec fn id_path_in_items(items: Seq<JsonV>, at: nat, name: Seq<char>) -> Option<
    Seq<Seq<char>>,
>
    decreases items,
{
    if items.len() == 0 {
        None
    } else {
        match id_path(items[0], name) {
            Some(path) => Some(seq![text::shown(at)] + path),
            None => id_path_in_items(items.subrange(1, items.len() as int), at + 1, name),
        }
    }
}

fn led_by(first: String, path: Vec<String>) -> (r: Vec<String>)
    ensures
        r.deep_view() == seq![first@] + path.deep_view(),
{
    let mut out = path;
    let ghost p = path.deep_view();
    out.insert(0, first);
    assert(out.deep_view() =~= seq![first@] + p);
    out
}

fn is_tagged(node: &Json, name: &str) -> (r: bool)
    ensures
        r == tagged(node.deep_view(), name@),
{
    match node {
        Json::Object(fields) => match find_field(fields, "@id") {
            Some(i) => match &fields[i].1 {
                Json::String(id) => same(id.as_str(), name),
                _ => false,
            },
            None => false,
        },
        _ => false,
    }
}

fn walk(node: &Json, name: &str) -> (r: Option<Vec<String>>)
    ensures
        r.deep_view() == id_path(node.deep_view(), name@),
    decreases node,
{
    if is_tagged(node, name) {
        let here: Vec<String> = Vec::new();
        assert(here.deep_view() =~= Seq::<Seq<char>>::empty());
        return Some(here);
    }
    match node {
        Json::Object(fields) => walk_fields(fields, name),
        Json::Array(items) => walk_items(items, name),
        _ => None,
    }
}

fn walk_fields(fields: &Vec<(String, Json)>, name: &str) -> (r: Option<Vec<String>>)
    ensures
        r.deep_view() == id_path_in_fields(json::fields_view(fields@), name@),
    decreases fields,
{
    let ghost f = json::fields_view(fields@);
    let mut i: usize = 0;
    assert(f.subrange(0, f.len() as int) =~= f);
    while i < fields.len()
        invariant
            i <= fields.len(),
            f == json::fields_view(fields@),
            id_path_in_fields(f, name@) == id_path_in_fields(
                f.subrange(i as int, f.len() as int),
                name@,
            ),
        decreases fields.len() - i,
    {
        let ghost rest = f.subrange(i as int, f.len() as int);
        assert(rest[0] == f[i as int]);
        assert(rest.subrange(1, rest.len() as int) =~= f.subrange(i + 1, f.len() as int));
        if let Some(path) = walk(&fields[i].1, name) {
            return Some(led_by(fields[i].0.clone(), path));
        }
        i += 1;
    }
    None
}

fn walk_items(items: &Vec<Json>, name: &str) -> (r: Option<Vec<String>>)
    ensures
        r.deep_view() == id_path_in_items(json::items_view(items@), 0, name@),
    decreases items,
{
    let ghost f = json::items_view(items@);
    let mut i: usize = 0;
    assert(f.subrange(0, f.len() as int) =~= f);
    while i < items.len()
        invariant
            i <= items.len(),
            f == json::items_view(items@),
            id_path_in_items(f, 0, name@) == id_path_in_items(
                f.subrange(i as int, f.len() as int),
                i as nat,
                name@,
            ),
        decreases items.len() - i,
    {
        let ghost rest = f.subrange(i as int, f.len() as int);
        assert(rest[0] == f[i as int]);
        assert(rest.subrange(1, rest.len() as int) =~= f.subrange(i + 1, f.len() as int));
        if let Some(path) = walk(&items[i], name) {
            return Some(led_by(show(i as u64), path));
        }
        i += 1;
    }
    None
}

/// Finds the path of the first object whose `@id` is `name`.
pub fn find_id_path(doc: &Json, name: &str) -> (r: Option<Vec<String>>)
    ensures
        r.deep_view() == id_path(doc.deep_view(), name@),
{
    walk(doc, name)
}

} // verus!
