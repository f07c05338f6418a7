//! JSON values as the relay and the poller exchange them.

use crate::text;
use vstd::prelude::*;

verus! {

/// A JSON value. Numbers keep their text, objects keep the order of their
/// fields.
#[derive(Debug, PartialEq, Eq)]
pub enum Json {
    Null,
    Bool(bool),
    Number(String),
    String(String),
    Array(Vec<Json>),
    Object(Vec<(String, Json)>),
}

/// The mathematical counterpart of [`Json`].
pub enum Value {
    Null,
    Bool(bool),
    Number(Seq<char>),
    Text(Seq<char>),
    Array(Seq<Value>),
    Object(Seq<(Seq<char>, Value)>),
}

impl View for Json {
    type V = Value;

    open spec fn view(&self) -> Value
        decreases self,
    {
        match self {
            Json::Null => Value::Null,
            Json::Bool(b) => Value::Bool(*b),
            Json::Number(s) => Value::Number(s@),
            Json::String(s) => Value::Text(s@),
            Json::Array(items) => Value::Array(
                Seq::new(
                    items@.len(),
                    |i: int|
                        if 0 <= i < items@.len() {
                            items@[i].view()
                        } else {
                            Value::Null
                        },
                ),
            ),
            Json::Object(fields) => Value::Object(
                Seq::new(fields@.len(), |i: int| fields@[i].0@).zip_with(
                    Seq::new(
                        fields@.len(),
                        |i: int|
                            if 0 <= i < fields@.len() {
                                fields@[i].1.view()
                            } else {
                                Value::Null
                            },
                    ),
                ),
            ),
        }
    }
}

/// The views of the fields of an object.
pub open spec fn field_values(fields: Seq<(String, Json)>) -> Seq<(Seq<char>, Value)> {
    fields.map_values(|f: (String, Json)| (f.0@, f.1@))
}

/// The views of a list of values.
pub open spec fn item_values(items: Seq<Json>) -> Seq<Value> {
    items.map_values(|v: Json| v@)
}

/// The value of the first field with the given name.
pub open spec fn lookup(fields: Seq<(Seq<char>, Value)>, name: Seq<char>) -> Option<Value>
    decreases fields.len(),
{
    if fields.len() == 0 {
        None
    } else if fields[0].0 == name {
        Some(fields[0].1)
    } else {
        lookup(fields.skip(1), name)
    }
}

impl Value {
    /// The field of an object with the given name, the first one if several
    /// have it. Nothing that is not an object has a field.
    pub open spec fn field(self, name: Seq<char>) -> Option<Value> {
        match self {
            Value::Object(fields) => lookup(fields, name),
            _ => None,
        }
    }

    /// The text of a string.
    pub open spec fn text(self) -> Option<Seq<char>> {
        match self {
            Value::Text(s) => Some(s),
            _ => None,
        }
    }

    /// The value of a number that is an unsigned 64-bit integer.
    pub open spec fn integer(self) -> Option<nat> {
        match self {
            Value::Number(s) => text::number(s, u64::MAX as nat),
            _ => None,
        }
    }

    /// The value of a boolean.
    pub open spec fn boolean(self) -> Option<bool> {
        match self {
            Value::Bool(b) => Some(b),
            _ => None,
        }
    }

    /// The string that the field with the given name holds.
    pub open spec fn text_field(self, name: Seq<char>) -> Option<Seq<char>> {
        match self.field(name) {
            Some(v) => v.text(),
            None => None,
        }
    }

    /// The integer that the field with the given name holds.
    pub open spec fn integer_field(self, name: Seq<char>) -> Option<nat> {
        match self.field(name) {
            Some(v) => v.integer(),
            None => None,
        }
    }

    /// The boolean that the field with the given name holds.
    pub open spec fn boolean_field(self, name: Seq<char>) -> Option<bool> {
        match self.field(name) {
            Some(v) => v.boolean(),
            None => None,
        }
    }
}

/// The views of arrays and objects, by those of what they hold.
proof fn lemma_views(v: Json)
    ensures
        v matches Json::Array(items) ==> v@ == Value::Array(item_values(items@)),
        v matches Json::Object(fields) ==> v@ == Value::Object(field_values(fields@)),
{
    match v {
        Json::Array(items) => {
            assert(v@->Array_0 =~= item_values(items@));
        },
        Json::Object(fields) => {
            let shown = v@->Object_0;
            assert forall|i: int| 0 <= i < shown.len() implies #[trigger] shown[i] == field_values(
                fields@,
            )[i] by {
                assert(shown[i].1 == fields@[i].1@);
            }
            assert(shown =~= field_values(fields@));
        },
        _ => {},
    }
}

impl Json {
    /// A number.
    pub fn number(n: u64) -> (r: Json)
        ensures
            r@ == Value::Number(text::decimal(n as nat)),
    {
        Json::Number(text::to_decimal(n))
    }

    /// A string.
    pub fn text(s: &str) -> (r: Json)
        ensures
            r@ == Value::Text(s@),
    {
        Json::String(s.to_owned())
    }

    /// A list of values.
    pub fn array_of(items: Vec<Json>) -> (r: Json)
        ensures
            r@ == Value::Array(item_values(items@)),
            r matches Json::Array(v) && v == items,
    {
        let r = Json::Array(items);
        proof {
            lemma_views(r);
        }
        r
    }

    /// An object with the given fields.
    pub fn object_of(fields: Vec<(String, Json)>) -> (r: Json)
        ensures
            r@ == Value::Object(field_values(fields@)),
            r matches Json::Object(v) && v == fields,
    {
        let r = Json::Object(fields);
        proof {
            lemma_views(r);
        }
        r
    }

    /// Looks up a field of an object.
    pub fn object(&self, name: &str) -> (r: Option<&Json>)
        ensures
            match r {
                Some(v) => self@.field(name@) == Some(v@),
                None => self@.field(name@) is None,
            },
    {
        match self {
            Json::Object(fields) => {
                proof {
                    lemma_views(*self);
                }
                let ghost all = field_values(fields@);
                let mut i: usize = 0;
                assert(all.skip(0) == all);
                while i < fields.len()
                    invariant
                        i <= fields.len(),
                        all == field_values(fields@),
                        lookup(all, name@) == lookup(all.skip(i as int), name@),
                        self@ == Value::Object(all),
                    decreases fields.len() - i,
                {
                    assert(all.skip(i as int)[0] == (fields@[i as int].0@, fields@[i as int].1@));
                    if text::same(fields[i].0.as_str(), name) {
                        return Some(&fields[i].1);
                    }
                    assert(all.skip(i as int).skip(1) == all.skip(i + 1));
                    i = i + 1;
                }
                None
            },
            _ => None,
        }
    }

    /// The text of a string.
    pub fn as_str(&self) -> (r: Option<&str>)
        ensures
            match r {
                Some(s) => self@.text() == Some(s@),
                None => self@.text() is None,
            },
    {
        match self {
            Json::String(s) => Some(s.as_str()),
            _ => None,
        }
    }

    /// The value of a number that is an unsigned 64-bit integer.
    pub fn as_u64(&self) -> (r: Option<u64>)
        ensures
            match r {
                Some(n) => self@.integer() == Some(n as nat),
                None => self@.integer() is None,
            },
    {
        match self {
            Json::Number(s) => {
                let chars = text::chars_of(s.as_str());
                text::parse_number(chars.as_slice(), u64::MAX)
            },
            _ => None,
        }
    }

    /// The value of a boolean.
    pub fn as_bool(&self) -> (r: Option<bool>)
        ensures
            r == self@.boolean(),
    {
        match self {
            Json::Bool(b) => Some(*b),
            _ => None,
        }
    }

    /// The items of an array.
    pub fn as_array(&self) -> (r: Option<&Vec<Json>>)
        ensures
            match r {
                Some(items) => self@ == Value::Array(item_values(items@)),
                None => !(self@ is Array),
            },
    {
        match self {
            Json::Array(items) => {
                proof {
                    lemma_views(*self);
                }
                Some(items)
            },
            _ => None,
        }
    }

    /// The fields of an object.
    pub fn as_fields(&self) -> (r: Option<&Vec<(String, Json)>>)
        ensures
            match r {
                Some(fields) => self@ == Value::Object(field_values(fields@)),
                None => !(self@ is Object),
            },
    {
        match self {
            Json::Object(fields) => {
                proof {
                    lemma_views(*self);
                }
                Some(fields)
            },
            _ => None,
        }
    }
}

/// Copies a list of values.
fn copy_items(items: &Vec<Json>) -> (r: Vec<Json>)
    ensures
        item_values(r@) == item_values(items@),
    decreases items,
{
    let mut out: Vec<Json> = Vec::new();
    let mut i: usize = 0;
    while i < items.len()
        invariant
            i <= items.len(),
            item_values(out@) == item_values(items@.take(i as int)),
        decreases items.len() - i,
    {
        let v = copy_value(&items[i]);
        let ghost before = out@;
        out.push(v);
        proof {
            assert(item_values(out@) == item_values(before).push(items@[i as int]@));
            assert(item_values(items@.take(i + 1)) == item_values(items@.take(i as int)).push(
                items@[i as int]@,
            ));
        }
        i = i + 1;
    }
    assert(items@.take(i as int) == items@);
    out
}

/// Copies the fields of an object.
pub fn copy_fields(fields: &Vec<(String, Json)>) -> (r: Vec<(String, Json)>)
    ensures
        field_values(r@) == field_values(fields@),
    decreases fields,
{
    let mut out: Vec<(String, Json)> = Vec::new();
    let mut i: usize = 0;
    while i < fields.len()
        invariant
            i <= fields.len(),
            field_values(out@) == field_values(fields@.take(i as int)),
        decreases fields.len() - i,
    {
        let v = copy_value(&fields[i].1);
        let ghost before = out@;
        out.push((fields[i].0.clone(), v));
        proof {
            let shown = (fields@[i as int].0@, fields@[i as int].1@);
            assert(field_values(out@) == field_values(before).push(shown));
            assert(field_values(fields@.take(i + 1)) == field_values(fields@.take(i as int)).push(
                shown,
            ));
        }
        i = i + 1;
    }
    assert(fields@.take(i as int) == fields@);
    out
}

/// Copies a value.
fn copy_value(v: &Json) -> (r: Json)
    ensures
        r@ == v@,
    decreases v,
{
    proof {
        lemma_views(*v);
    }
    match v {
        Json::Null => Json::Null,
        Json::Bool(b) => Json::Bool(*b),
        Json::Number(s) => Json::Number(s.clone()),
        Json::String(s) => Json::String(s.clone()),
        Json::Array(items) => Json::array_of(copy_items(items)),
        Json::Object(fields) => Json::object_of(copy_fields(fields)),
    }
}

impl Clone for Json {
    fn clone(&self) -> (r: Self)
        ensures
            r@ == self@,
    {
        copy_value(self)
    }
}

} // verus!
