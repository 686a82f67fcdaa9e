//! JSON values.

use crate::duplicate::Duplicate;
use crate::text;
use crate::text::{chars_of, same};
use vstd::prelude::*;

verus! {

/// A JSON value.
#[derive(Debug, PartialEq, Eq)]
pub enum Json {
    Null,
    Bool(bool),
    /// A number, as it is written.
    Number(String),
    String(String),
    Array(Vec<Json>),
    /// Fields in the order of their names.
    Object(Vec<(String, Json)>),
}

/// The mathematical value of a [`Json`].
#[verifier::ext_equal]
pub enum JsonV {
    Null,
    Bool(bool),
    Number(Seq<char>),
    String(Seq<char>),
    Array(Seq<JsonV>),
    Object(Seq<(Seq<char>, JsonV)>),
}

/// The mathematical value of a JSON value.
pub open spec fn json_view(j: Json) -> JsonV
    decreases j,
{
    match j {
        Json::Null => JsonV::Null,
        Json::Bool(b) => JsonV::Bool(b),
        Json::Number(n) => JsonV::Number(n@),
        Json::String(s) => JsonV::String(s@),
        Json::Array(items) => JsonV::Array(items_view(items@)),
        Json::Object(fields) => JsonV::Object(fields_view(fields@)),
    }
}

/// The mathematical value of the items of an array.
pub open spec fn items_view(s: Seq<Json>) -> Seq<JsonV>
    decreases s,
{
    Seq::new(
        s.len(),
        |i: int|
            if 0 <= i < s.len() {
                json_view(s[i])
            } else {
                arbitrary()
            },
    )
}

/// The mathematical value of the fields of an object.
pub open spec fn fields_view(s: Seq<(String, Json)>) -> Seq<(Seq<char>, JsonV)>
    decreases s,
{
    Seq::new(
        s.len(),
        |i: int|
            if 0 <= i < s.len() {
                (s[i].0@, json_view(s[i].1))
            } else {
                arbitrary()
            },
    )
}

impl DeepView for Json {
    type V = JsonV;

    open spec fn deep_view(&self) -> JsonV {
        json_view(*self)
    }
}

fn copy(j: &Json) -> (r: Json)
    ensures
        json_view(r) == json_view(*j),
    decreases j,
{
    match j {
        Json::Null => Json::Null,
        Json::Bool(b) => Json::Bool(*b),
        Json::Number(n) => Json::Number(n.clone()),
        Json::String(s) => Json::String(s.clone()),
        Json::Array(items) => Json::Array(copy_items(items)),
        Json::Object(fields) => Json::Object(copy_fields(fields)),
    }
}

fn copy_items(items: &Vec<Json>) -> (r: Vec<Json>)
    ensures
        items_view(r@) == items_view(items@),
    decreases items,
{
    let mut out: Vec<Json> = Vec::new();
    let mut i: usize = 0;
    while i < items.len()
        invariant
            i <= items.len(),
            out@.len() == i,
            forall|k: int| 0 <= k < i ==> json_view(#[trigger] out@[k]) == json_view(items@[k]),
        decreases items.len() - i,
    {
        out.push(copy(&items[i]));
        i += 1;
    }
    assert(items_view(out@) =~= items_view(items@));
    out
}

fn copy_fields(fields: &Vec<(String, Json)>) -> (r: Vec<(String, Json)>)
    ensures
        fields_view(r@) == fields_view(fields@),
    decreases fields,
{
    let mut out: Vec<(String, Json)> = Vec::new();
    let mut i: usize = 0;
    while i < fields.len()
        invariant
            i <= fields.len(),
            out@.len() == i,
            forall|k: int|
                0 <= k < i ==> (#[trigger] out@[k]).0@ == fields@[k].0@ && json_view(out@[k].1)
                    == json_view(fields@[k].1),
        decreases fields.len() - i,
    {
        out.push((fields[i].0.clone(), copy(&fields[i].1)));
        i += 1;
    }
    assert(fields_view(out@) =~= fields_view(fields@));
    out
}

impl Duplicate for Json {
    fn duplicate(&self) -> Self {
        copy(self)
    }
}

// ---------------------------------------------------------------------------
// Fields
// ---------------------------------------------------------------------------
fn is_sooner(a: &str, b: &str) -> (r: bool)
    ensures
        r == text::sooner(a@, b@),
{
    let x = chars_of(a);
    let y = chars_of(b);
    let mut i: usize = 0;
    assert(a@.skip(0) =~= a@);
    assert(b@.skip(0) =~= b@);
    while i < x.len() && i < y.len() && x[i] == y[i]
        invariant
            i <= x.len(),
            i <= y.len(),
            x@ == a@,
            y@ == b@,
            text::sooner(a@, b@) == text::sooner(a@.skip(i as int), b@.skip(i as int)),
        decreases x.len() - i,
    {
        assert(a@.skip(i as int)[0] == x@[i as int]);
        assert(b@.skip(i as int)[0] == y@[i as int]);
        assert(a@.skip(i as int).skip(1) =~= a@.skip(i + 1));
        assert(b@.skip(i as int).skip(1) =~= b@.skip(i + 1));
        i += 1;
    }
    if i >= y.len() {
        return false;
    }
    if i >= x.len() {
        return true;
    }
    assert(a@.skip(i as int)[0] == x@[i as int]);
    assert(b@.skip(i as int)[0] == y@[i as int]);
    x[i] < y[i]
}

/// Where the first field named `name` stands.
pub open spec fn slot(fields: Seq<(Seq<char>, JsonV)>, name: Seq<char>) -> Option<int>
    decreases fields.len(),
{
    if fields.len() == 0 {
        None
    } else if fields[0].0 == name {
        Some(0)
    } else {
        match slot(fields.skip(1), name) {
            Some(i) => Some(i + 1),
            None => None,
        }
    }
}

/// What [`slot`] finds is the first field of that name.
pub proof fn lemma_slot(fields: Seq<(Seq<char>, JsonV)>, name: Seq<char>)
    ensures
        match slot(fields, name) {
            Some(i) => 0 <= i < fields.len() && fields[i].0 == name && forall|j: int|
                0 <= j < i ==> (#[trigger] fields[j]).0 != name,
            None => forall|j: int| 0 <= j < fields.len() ==> (#[trigger] fields[j]).0 != name,
        },
    decreases fields.len(),
{
    if fields.len() > 0 && fields[0].0 != name {
        lemma_slot(fields.skip(1), name);
        let rest = fields.skip(1);
        assert forall|j: int| 0 < j < fields.len() implies #[trigger] fields[j] == rest[j - 1] by {}
    }
}

/// The first field of that name is what [`slot`] finds.
pub proof fn lemma_slot_is(fields: Seq<(Seq<char>, JsonV)>, name: Seq<char>, i: int)
    requires
        0 <= i < fields.len(),
        fields[i].0 == name,
        forall|j: int| 0 <= j < i ==> (#[trigger] fields[j]).0 != name,
    ensures
        slot(fields, name) == Some(i),
{
    lemma_slot(fields, name);
    match slot(fields, name) {
        Some(k) => {
            if k < i {
                assert(fields[k].0 != name);
            }
        },
        None => {
            assert(fields[i].0 != name);
        },
    }
}

/// Without a field of that name [`slot`] finds nothing.
pub proof fn lemma_no_slot(fields: Seq<(Seq<char>, JsonV)>, name: Seq<char>)
    requires
        forall|j: int| 0 <= j < fields.len() ==> (#[trigger] fields[j]).0 != name,
    ensures
        slot(fields, name) == None::<int>,
{
    lemma_slot(fields, name);
}

/// Where the first field named `name` stands.
pub fn find_field(fields: &Vec<(String, Json)>, name: &str) -> (r: Option<usize>)
    ensures
        match r {
            Some(i) => i < fields@.len() && slot(fields_view(fields@), name@) == Some(i as int),
            None => slot(fields_view(fields@), name@) == None::<int>,
        },
{
    let ghost f = fields_view(fields@);
    let mut i: usize = 0;
    while i < fields.len()
        invariant
            i <= fields.len(),
            f == fields_view(fields@),
            forall|j: int| 0 <= j < i ==> (#[trigger] f[j]).0 != name@,
        decreases fields.len() - i,
    {
        assert(f[i as int].0 == fields@[i as int].0@);
        if same(fields[i].0.as_str(), name) {
            proof {
                lemma_slot_is(f, name@, i as int);
            }
            return Some(i);
        }
        i += 1;
    }
    proof {
        lemma_no_slot(f, name@);
    }
    None
}

/// How many leading fields come before `name`.
pub open spec fn rank(fields: Seq<(Seq<char>, JsonV)>, name: Seq<char>) -> int
    decreases fields.len(),
{
    if fields.len() > 0 && text::sooner(fields[0].0, name) {
        1 + rank(fields.skip(1), name)
    } else {
        0
    }
}

/// The leading fields that [`rank`] counts come before `name`, and the next one does not.
pub proof fn lemma_rank(fields: Seq<(Seq<char>, JsonV)>, name: Seq<char>)
    ensures
        0 <= rank(fields, name) <= fields.len(),
        forall|j: int|
            0 <= j < rank(fields, name) ==> text::sooner((#[trigger] fields[j]).0, name),
        rank(fields, name) < fields.len() ==> !text::sooner(fields[rank(fields, name)].0, name),
    decreases fields.len(),
{
    if fields.len() > 0 && text::sooner(fields[0].0, name) {
        let rest = fields.skip(1);
        lemma_rank(rest, name);
        assert forall|j: int| 0 < j < fields.len() implies #[trigger] fields[j] == rest[j - 1] by {}
    }
}

/// The fields with `name` set to `value`: in the place of the field of that name, or else where
/// its name belongs.
pub open spec fn with_field(
    fields: Seq<(Seq<char>, JsonV)>,
    name: Seq<char>,
    value: JsonV,
) -> Seq<(Seq<char>, JsonV)> {
    match slot(fields, name) {
        Some(i) => fields.update(i, (name, value)),
        None => fields.insert(rank(fields, name), (name, value)),
    }
}

/// Sets a field.
pub fn put_field(fields: &mut Vec<(String, Json)>, name: String, value: Json)
    ensures
        fields_view(final(fields)@) == with_field(
            fields_view(old(fields)@),
            name@,
            value.deep_view(),
        ),
{
    let ghost f = fields_view(fields@);
    let ghost n = name@;
    let ghost v = value.deep_view();
    match find_field(fields, name.as_str()) {
        Some(i) => {
            fields.set(i, (name, value));
            assert(fields_view(fields@) =~= f.update(i as int, (n, v)));
        },
        None => {
            let mut at: usize = 0;
            assert(f.skip(0) =~= f);
            while at < fields.len() && is_sooner(fields[at].0.as_str(), name.as_str())
                invariant
                    at <= fields.len(),
                    f == fields_view(fields@),
                    n == name@,
                    rank(f, n) == at + rank(f.skip(at as int), n),
                decreases fields.len() - at,
            {
                assert(f[at as int].0 == fields@[at as int].0@);
                assert(f.skip(at as int)[0] == f[at as int]);
                assert(f.skip(at as int).skip(1) =~= f.skip(at + 1));
                at += 1;
            }
            if at < fields.len() {
                assert(f[at as int].0 == fields@[at as int].0@);
                assert(f.skip(at as int)[0] == f[at as int]);
            }
            assert(rank(f, n) == at);
            fields.insert(at, (name, value));
            assert(fields_view(fields@) =~= f.insert(at as int, (n, v)));
        },
    }
}

/// The fields of `list`, each set in turn.
pub open spec fn gathered(list: Seq<(Seq<char>, JsonV)>) -> Seq<(Seq<char>, JsonV)>
    decreases list.len(),
{
    if list.len() == 0 {
        Seq::empty()
    } else {
        with_field(gathered(list.drop_last()), list.last().0, list.last().1)
    }
}

impl Json {
    /// The object with these fields; of two with one name the later counts.
    pub fn object(list: Vec<(String, Json)>) -> (r: Json)
        ensures
            r.deep_view() == JsonV::Object(gathered(fields_view(list@))),
    {
        let mut out: Vec<(String, Json)> = Vec::new();
        let ghost f = fields_view(list@);
        let mut i: usize = 0;
        assert(f.take(0) =~= Seq::<(Seq<char>, JsonV)>::empty());
        assert(fields_view(out@) =~= Seq::<(Seq<char>, JsonV)>::empty());
        while i < list.len()
            invariant
                i <= list.len(),
                f == fields_view(list@),
                fields_view(out@) == gathered(f.take(i as int)),
            decreases list.len() - i,
        {
            put_field(&mut out, list[i].0.clone(), copy(&list[i].1));
            i += 1;
            assert(f.take(i as int).drop_last() =~= f.take(i - 1));
            assert(f.take(i as int).last() == f[i - 1]);
        }
        assert(f.take(i as int) =~= f);
        Json::Object(out)
    }
}

// ---------------------------------------------------------------------------
// Order
// ---------------------------------------------------------------------------
/// No two fields share a name, and each stands where its name belongs.
pub open spec fn in_order(fields: Seq<(Seq<char>, JsonV)>) -> bool {
    forall|i: int, j: int|
        0 <= i < j < fields.len() ==> text::sooner((#[trigger] fields[i]).0, (#[trigger] fields[j]).0)
}

/// The fields of every object in `j` are in order.
pub open spec fn well_formed(j: JsonV) -> bool
    decreases j,
{
    match j {
        JsonV::Array(items) => all_well_formed(items),
        JsonV::Object(fields) => in_order(fields) && fields_well_formed(fields),
        _ => true,
    }
}

/// Every item is well-formed.
pub open spec fn all_well_formed(items: Seq<JsonV>) -> bool
    decreases items,
{
    forall|i: int| 0 <= i < items.len() ==> well_formed(#[trigger] items[i])
}

/// The value of every field is well-formed.
pub open spec fn fields_well_formed(fields: Seq<(Seq<char>, JsonV)>) -> bool
    decreases fields,
{
    forall|i: int| 0 <= i < fields.len() ==> well_formed((#[trigger] fields[i]).1)
}

proof fn lemma_sooner_total(a: Seq<char>, b: Seq<char>)
    ensures
        text::sooner(a, b) || text::sooner(b, a) || a == b,
    decreases a.len(),
{
    if a.len() > 0 && b.len() > 0 {
        if a[0] == b[0] {
            lemma_sooner_total(a.skip(1), b.skip(1));
            if a.skip(1) == b.skip(1) {
                assert(a =~= seq![a[0]] + a.skip(1));
                assert(b =~= seq![b[0]] + b.skip(1));
            }
        }
    } else if a.len() == 0 && b.len() == 0 {
        assert(a =~= b);
    }
}

/// Fields in order have different names.
pub proof fn lemma_in_order_apart(fields: Seq<(Seq<char>, JsonV)>, i: int, j: int)
    requires
        in_order(fields),
        0 <= i < fields.len(),
        0 <= j < fields.len(),
        i != j,
    ensures
        fields[i].0 != fields[j].0,
{
    text::lemma_sooner_is_an_order(fields[i].0, fields[j].0, fields[i].0);
}

/// Setting a field keeps the fields in order.
pub proof fn setting_a_field_keeps_the_order(
    fields: Seq<(Seq<char>, JsonV)>,
    name: Seq<char>,
    value: JsonV,
)
    requires
        in_order(fields),
    ensures
        in_order(with_field(fields, name, value)),
{
    lemma_slot(fields, name);
    let after = with_field(fields, name, value);
    match slot(fields, name) {
        Some(k) => {
            assert forall|i: int, j: int| 0 <= i < j < after.len() implies text::sooner(
                (#[trigger] after[i]).0,
                (#[trigger] after[j]).0,
            ) by {
                assert(after[i].0 == fields[i].0);
                assert(after[j].0 == fields[j].0);
            }
        },
        None => {
            let k = rank(fields, name);
            lemma_rank(fields, name);
            assert forall|i: int, j: int| 0 <= i < j < after.len() implies text::sooner(
                (#[trigger] after[i]).0,
                (#[trigger] after[j]).0,
            ) by {
                if j < k {
                    assert(text::sooner(fields[i].0, fields[j].0));
                } else if j == k {
                    assert(text::sooner(fields[i].0, name));
                } else {
                    let next = fields[j - 1].0;
                    if i < k {
                        assert(text::sooner(fields[i].0, next));
                    } else if i > k {
                        assert(text::sooner(fields[i - 1].0, next));
                    } else {
                        lemma_sooner_total(fields[k].0, name);
                        assert(fields[k].0 != name);
                        if j - 1 > k {
                            assert(text::sooner(fields[k].0, next));
                            text::lemma_sooner_is_an_order(name, fields[k].0, next);
                        }
                    }
                }
            }
        },
    }
}

/// Dropping a field keeps the fields in order.
pub proof fn dropping_a_field_keeps_the_order(fields: Seq<(Seq<char>, JsonV)>, k: int)
    requires
        in_order(fields),
        0 <= k < fields.len(),
    ensures
        in_order(fields.remove(k)),
{
    let after = fields.remove(k);
    assert forall|i: int, j: int| 0 <= i < j < after.len() implies text::sooner(
        (#[trigger] after[i]).0,
        (#[trigger] after[j]).0,
    ) by {
        let a = if i < k {
            i
        } else {
            i + 1
        };
        let b = if j < k {
            j
        } else {
            j + 1
        };
        assert(after[i] == fields[a]);
        assert(after[j] == fields[b]);
    }
}

/// Fields that are set one after another end up in order, whatever order they came in.
pub proof fn gathered_fields_are_in_order(list: Seq<(Seq<char>, JsonV)>)
    ensures
        in_order(gathered(list)),
    decreases list.len(),
{
    if list.len() > 0 {
        gathered_fields_are_in_order(list.drop_last());
        setting_a_field_keeps_the_order(
            gathered(list.drop_last()),
            list.last().0,
            list.last().1,
        );
    }
}

} // verus!
