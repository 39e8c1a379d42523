//! JSON values: what is decoded from the chain, indexed and served.

use crate::lists::{no_items, push_item};
use crate::text;
use vstd::prelude::*;

verus! {

/// A JSON value. Objects keep the order in which their fields were put.
/// Floating-point numbers are held as their bits, a token amount as its units
/// and the number of decimals, and a string that is the JSON text of a value
/// as that value.
#[derive(Debug, PartialEq, Eq)]
pub enum Json {
    Null,
    Bool(bool),
    Int(i128),
    Float32(u32),
    Float64(u64),
    Scaled(i64, u8),
    Str(String),
    Encoded(Box<Json>),
    Array(Vec<Json>),
    Object(Vec<(String, Json)>),
}

/// What a JSON value is.
pub enum JsonModel {
    Null,
    Bool(bool),
    Int(int),
    Float32(u32),
    Float64(u64),
    Scaled(int, nat),
    Str(Seq<char>),
    Encoded(Box<JsonModel>),
    Array(Seq<JsonModel>),
    Object(Seq<(Seq<char>, JsonModel)>),
}

/// The fields of an object.
pub type FieldsModel = Seq<(Seq<char>, JsonModel)>;

impl Json {
    pub open spec fn model(&self) -> JsonModel
        decreases self,
    {
        match self {
            Json::Null => JsonModel::Null,
            Json::Bool(b) => JsonModel::Bool(*b),
            Json::Int(i) => JsonModel::Int(*i as int),
            Json::Float32(b) => JsonModel::Float32(*b),
            Json::Float64(b) => JsonModel::Float64(*b),
            Json::Scaled(a, p) => JsonModel::Scaled(*a as int, *p as nat),
            Json::Str(s) => JsonModel::Str(s@),
            Json::Encoded(v) => JsonModel::Encoded(Box::new(v.model())),
            Json::Array(v) => JsonModel::Array(
                Seq::new(
                    v@.len(),
                    |i: int|
                        if 0 <= i < v@.len() {
                            v@[i].model()
                        } else {
                            JsonModel::Null
                        },
                ),
            ),
            Json::Object(v) => JsonModel::Object(
                Seq::new(
                    v@.len(),
                    |i: int|
                        if 0 <= i < v@.len() {
                            (v@[i].0@, v@[i].1.model())
                        } else {
                            (Seq::empty(), JsonModel::Null)
                        },
                ),
            ),
        }
    }
}

impl DeepView for Json {
    type V = JsonModel;

    open spec fn deep_view(&self) -> JsonModel {
        self.model()
    }
}

/// The place of the first field with a name, or the number of fields.
pub open spec fn field_from(fields: FieldsModel, key: Seq<char>, from: nat) -> nat
    decreases fields.len() - from,
{
    if from >= fields.len() {
        fields.len()
    } else if fields[from as int].0 == key {
        from
    } else {
        field_from(fields, key, from + 1)
    }
}

/// Fields with one of them set: in its place if there is one of that name,
/// else at the end.
pub open spec fn set_field(fields: FieldsModel, key: Seq<char>, value: JsonModel) -> FieldsModel {
    let at = field_from(fields, key, 0);
    if at < fields.len() {
        fields.update(at as int, (key, value))
    } else {
        fields.push((key, value))
    }
}

/// The value of a field of an object; nothing if there is no such field, or
/// the value is no object.
pub open spec fn field_of(value: JsonModel, key: Seq<char>) -> Option<JsonModel> {
    match value {
        JsonModel::Object(fields) => {
            let at = field_from(fields, key, 0);
            if at < fields.len() {
                Some(fields[at as int].1)
            } else {
                None
            }
        },
        _ => None,
    }
}

/// Whether no name occurs twice.
pub open spec fn distinct_names(fields: FieldsModel) -> bool {
    forall|i: int, j: int|
        0 <= i < j < fields.len() ==> #[trigger] fields[i].0 != #[trigger] fields[j].0
}

/// A string value.
pub fn string(s: &str) -> (r: Json)
    ensures
        r.deep_view() == JsonModel::Str(s@),
{
    Json::Str(s.to_owned())
}

/// An array of values.
pub fn array(items: Vec<Json>) -> (r: Json)
    ensures
        r.deep_view() == JsonModel::Array(items.deep_view()),
{
    let r = Json::Array(items);
    assert(r.model()->Array_0 == items.deep_view());
    r
}

/// An array of strings.
pub fn strings(items: &Vec<String>) -> (r: Json)
    ensures
        r.deep_view() == JsonModel::Array(string_models(items.deep_view())),
{
    let mut out: Vec<Json> = no_items();
    let mut i: usize = 0;
    assert(out.deep_view() == string_models(items.deep_view()).take(0));
    while i < items.len()
        invariant
            i <= items@.len(),
            out.deep_view() == string_models(items.deep_view()).take(i as int),
        decreases items@.len() - i,
    {
        push_item(&mut out, string(items[i].as_str()));
        i = i + 1;
        assert(out.deep_view() =~= string_models(items.deep_view()).take(i as int));
    }
    assert(string_models(items.deep_view()).take(i as int) =~= string_models(items.deep_view()));
    array(out)
}

/// Texts as string values.
pub open spec fn string_models(items: Seq<Seq<char>>) -> Seq<JsonModel> {
    Seq::new(items.len(), |i: int| JsonModel::Str(items[i]))
}

/// A string or nothing.
pub fn optional(s: &Option<String>) -> (r: Json)
    ensures
        r.deep_view() == optional_text(s.deep_view()),
{
    match s {
        Some(t) => string(t.as_str()),
        None => Json::Null,
    }
}

/// A string or nothing.
pub open spec fn optional_text(s: Option<Seq<char>>) -> JsonModel {
    match s {
        Some(t) => JsonModel::Str(t),
        None => JsonModel::Null,
    }
}

/// An object with these fields.
pub fn object(fields: Vec<(String, Json)>) -> (r: Json)
    ensures
        r.deep_view() == JsonModel::Object(fields.deep_view()),
{
    let r = Json::Object(fields);
    assert(r.model()->Object_0 == fields.deep_view());
    r
}

/// Puts a field behind the others.
pub fn put(fields: &mut Vec<(String, Json)>, key: &str, value: Json)
    ensures
        final(fields).deep_view() == old(fields).deep_view().push((key@, value.deep_view())),
{
    fields.push((key.to_owned(), value));
    assert(fields.deep_view() == old(fields).deep_view().push((key@, value.deep_view())));
}

/// The place of the first field with a name, or the number of fields.
pub fn find_field(fields: &Vec<(String, Json)>, key: &str) -> (r: usize)
    ensures
        r == field_from(fields.deep_view(), key@, 0),
        r <= fields@.len(),
{
    let mut i: usize = 0;
    while i < fields.len()
        invariant
            i <= fields@.len(),
            field_from(fields.deep_view(), key@, 0) == field_from(
                fields.deep_view(),
                key@,
                i as nat,
            ),
        decreases fields@.len() - i,
    {
        assert(fields.deep_view()[i as int] == (fields@[i as int].0@, fields@[i as int].1.model()));
        if text::same_text(fields[i].0.as_str(), key) {
            return i;
        }
        i = i + 1;
    }
    i
}

/// Sets a field: in its place if there is one of that name, else at the end.
pub fn set(fields: &mut Vec<(String, Json)>, key: &str, value: Json)
    ensures
        final(fields).deep_view() == set_field(
            old(fields).deep_view(),
            key@,
            value.deep_view(),
        ),
{
    let at: usize = find_field(fields, key);
    if at < fields.len() {
        let pair: (String, Json) = (key.to_owned(), value);
        fields.set(at, pair);
        assert(fields.deep_view() == old(fields).deep_view().update(
            at as int,
            (key@, value.deep_view()),
        ));
    } else {
        put(fields, key, value);
    }
}

/// An object with one field.
pub fn single(key: &str, value: Json) -> (r: Json)
    ensures
        r.deep_view() == JsonModel::Object(seq![(key@, value.deep_view())]),
{
    let mut fields: Vec<(String, Json)> = no_items();
    put(&mut fields, key, value);
    assert(fields.deep_view() == seq![(key@, value.deep_view())]);
    object(fields)
}

/// An array with one item.
pub fn one(item: Json) -> (r: Json)
    ensures
        r.deep_view() == JsonModel::Array(seq![item.deep_view()]),
{
    let mut items: Vec<Json> = no_items();
    push_item(&mut items, item);
    assert(items.deep_view() == seq![item.deep_view()]);
    array(items)
}

/// The value of a field of an object; null if there is no such field, or the
/// value is no object.
pub open spec fn field_or_null(value: JsonModel, key: Seq<char>) -> JsonModel {
    match field_of(value, key) {
        Some(v) => v,
        None => JsonModel::Null,
    }
}

/// A number as an unsigned 64-bit integer, if the value is one.
pub open spec fn as_unsigned(value: JsonModel) -> Option<nat> {
    match value {
        JsonModel::Int(i) => if 0 <= i <= u64::MAX {
            Some(i as nat)
        } else {
            None
        },
        _ => None,
    }
}

impl Json {
    /// The same value, owned.
    pub fn copy(&self) -> (r: Json)
        ensures
            r.deep_view() == self.deep_view(),
        decreases self,
    {
        match self {
            Json::Null => Json::Null,
            Json::Bool(b) => Json::Bool(*b),
            Json::Int(i) => Json::Int(*i),
            Json::Float32(b) => Json::Float32(*b),
            Json::Float64(b) => Json::Float64(*b),
            Json::Scaled(a, p) => Json::Scaled(*a, *p),
            Json::Str(s) => Json::Str(s.clone()),
            Json::Encoded(v) => Json::Encoded(Box::new(v.copy())),
            Json::Array(items) => {
                let ghost all = items.deep_view();
                let mut out: Vec<Json> = no_items();
                let mut i: usize = 0;
                assert(out.deep_view() =~= all.take(0));
                while i < items.len()
                    invariant
                        i <= items@.len(),
                        all == items.deep_view(),
                        *self == Json::Array(*items),
                        out.deep_view() == all.take(i as int),
                    decreases items@.len() - i,
                {
                    proof {
                        assert(decreases_to!(*self => self->Array_0));
                        assert(decreases_to!(*items => items@));
                        assert(decreases_to!(items@ => items@[i as int]));
                    }
                    push_item(&mut out, items[i].copy());
                    i = i + 1;
                    assert(out.deep_view() =~= all.take(i as int));
                }
                assert(all.take(i as int) =~= all);
                assert(self.model()->Array_0 =~= all);
                array(out)
            },
            Json::Object(fields) => {
                let ghost all = fields.deep_view();
                let mut out: Vec<(String, Json)> = no_items();
                let mut i: usize = 0;
                assert(out.deep_view() =~= all.take(0));
                while i < fields.len()
                    invariant
                        i <= fields@.len(),
                        all == fields.deep_view(),
                        *self == Json::Object(*fields),
                        out.deep_view() == all.take(i as int),
                    decreases fields@.len() - i,
                {
                    proof {
                        assert(decreases_to!(*self => self->Object_0));
                        assert(decreases_to!(*fields => fields@));
                        assert(decreases_to!(fields@ => fields@[i as int]));
                        assert(decreases_to!(fields@[i as int] => fields@[i as int].1));
                    }
                    put(&mut out, fields[i].0.as_str(), fields[i].1.copy());
                    i = i + 1;
                    assert(out.deep_view() =~= all.take(i as int));
                }
                assert(all.take(i as int) =~= all);
                assert(self.model()->Object_0 =~= all);
                object(out)
            },
        }
    }

    /// A copy of the value of a field of an object; null if there is none.
    pub fn field_copy(&self, key: &str) -> (r: Json)
        ensures
            r.deep_view() == field_or_null(self.deep_view(), key@),
    {
        match self.field(key) {
            Some(v) => v.copy(),
            None => Json::Null,
        }
    }

    /// A number as an unsigned 64-bit integer.
    pub fn as_u64(&self) -> (r: Option<u64>)
        ensures
            match r {
                Some(n) => as_unsigned(self.deep_view()) == Some(n as nat),
                None => as_unsigned(self.deep_view()) is None,
            },
    {
        match self {
            Json::Int(i) => if 0 <= *i && *i <= u64::MAX as i128 {
                Some(*i as u64)
            } else {
                None
            },
            _ => None,
        }
    }

    pub fn is_null(&self) -> (r: bool)
        ensures
            r == (self.deep_view() is Null),
    {
        match self {
            Json::Null => true,
            _ => false,
        }
    }

    /// The value of a field of an object.
    pub fn field(&self, key: &str) -> (r: Option<&Json>)
        ensures
            match r {
                Some(v) => field_of(self.deep_view(), key@) == Some(v.deep_view()),
                None => field_of(self.deep_view(), key@) is None,
            },
    {
        match self {
            Json::Object(fields) => {
                assert(self.model()->Object_0 == fields.deep_view());
                let at: usize = find_field(fields, key);
                if at < fields.len() {
                    Some(&fields[at].1)
                } else {
                    None
                }
            },
            _ => None,
        }
    }

    /// The text of a string value.
    pub fn as_str(&self) -> (r: Option<&str>)
        ensures
            match r {
                Some(s) => self.deep_view() == JsonModel::Str(s@),
                None => self.deep_view() !is Str,
            },
    {
        match self {
            Json::Str(s) => Some(s.as_str()),
            _ => None,
        }
    }
}

/// `field_from` points at a field of that name or behind the last, and no
/// field before it has the name.
pub proof fn lemma_field_from(fields: FieldsModel, key: Seq<char>, from: nat)
    requires
        from <= fields.len(),
    ensures
        from <= field_from(fields, key, from) <= fields.len(),
        field_from(fields, key, from) < fields.len() ==> fields[field_from(
            fields,
            key,
            from,
        ) as int].0 == key,
        forall|i: int| from <= i < field_from(fields, key, from) ==> fields[i].0 != key,
    decreases fields.len() - from,
{
    if from < fields.len() && fields[from as int].0 != key {
        lemma_field_from(fields, key, from + 1);
    }
}

/// Setting a field keeps names distinct, gives that field the value, and
/// leaves every other field as it was.
pub proof fn law_set_field(fields: FieldsModel, key: Seq<char>, value: JsonModel)
    requires
        distinct_names(fields),
    ensures
        distinct_names(set_field(fields, key, value)),
        field_of(JsonModel::Object(set_field(fields, key, value)), key) == Some(value),
        forall|other: Seq<char>|
            other != key ==> field_of(JsonModel::Object(set_field(fields, key, value)), other)
                == #[trigger] field_of(JsonModel::Object(fields), other),
{
    let after = set_field(fields, key, value);
    lemma_field_from(fields, key, 0);
    lemma_field_from(after, key, 0);
    assert forall|other: Seq<char>| other != key implies field_of(JsonModel::Object(after), other)
        == #[trigger] field_of(JsonModel::Object(fields), other) by {
        lemma_field_from(fields, other, 0);
        lemma_field_from(after, other, 0);
        let a = field_from(fields, other, 0);
        let b = field_from(after, other, 0);
        if a < fields.len() {
            assert(after[a as int] == fields[a as int]);
            if b < a {
                assert(after[b as int].0 == other);
            }
        } else if b < after.len() {
            assert(after[b as int].0 == other);
        }
    }
    let at = field_from(fields, key, 0);
    if at < fields.len() {
        assert(after[at as int] == (key, value));
        let b = field_from(after, key, 0);
        if b < at {
            assert(after[b as int] == fields[b as int]);
        }
    } else {
        assert(after[fields.len() as int] == (key, value));
        let b = field_from(after, key, 0);
        if b < fields.len() {
            assert(after[b as int] == fields[b as int]);
        }
    }
}

} // verus!
