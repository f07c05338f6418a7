//! What looking into a JSON value promises.

use crate::json::{field_values, item_values, lookup, Json, Value};
use crate::text::number;
use vstd::prelude::*;

verus! {

/// A field is found by its name wherever it stands, and it is the first of
/// that name that is found.
pub proof fn a_field_is_found_by_its_name(
    fields: Seq<(Seq<char>, Value)>,
    name: Seq<char>,
    i: int,
)
    requires
        0 <= i <= fields.len(),
        forall|j: int| 0 <= j < i ==> (#[trigger] fields[j]).0 != name,
    ensures
        i < fields.len() && fields[i].0 == name ==> Value::Object(fields).field(name) == Some(
            fields[i].1,
        ),
        i == fields.len() ==> Value::Object(fields).field(name) is None,
    decreases fields.len(),
{
    if fields.len() > 0 && i > 0 {
        let rest = fields.skip(1);
        assert(fields[0].0 != name);
        assert forall|j: int| 0 <= j < i - 1 implies (#[trigger] rest[j]).0 != name by {
            assert(rest[j] == fields[j + 1]);
        }
        a_field_is_found_by_its_name(rest, name, i - 1);
        assert(lookup(fields, name) == lookup(rest, name));
        if i < fields.len() {
            assert(rest[i - 1] == fields[i]);
        }
    }
}

/// A field that is put before or behind others with other names makes no
/// difference to them.
pub proof fn other_fields_make_no_difference(
    before: Seq<(Seq<char>, Value)>,
    after: Seq<(Seq<char>, Value)>,
    other: (Seq<char>, Value),
    name: Seq<char>,
)
    requires
        other.0 != name,
    ensures
        Value::Object(before + seq![other] + after).field(name) == Value::Object(
            before + after,
        ).field(name),
    decreases before.len(),
{
    let with = before + seq![other] + after;
    let without = before + after;
    if before.len() == 0 {
        assert(with[0] == other);
        assert(with.skip(1) =~= after);
        assert(without =~= after);
    } else {
        other_fields_make_no_difference(before.skip(1), after, other, name);
        assert(with[0] == before[0] && without[0] == before[0]);
        assert(with.skip(1) =~= before.skip(1) + seq![other] + after);
        assert(without.skip(1) =~= before.skip(1) + after);
    }
}

/// Only an object has fields.
pub proof fn only_an_object_has_fields(value: Value, name: Seq<char>)
    ensures
        !(value is Object) ==> value.field(name) is None,
        value.text_field(name) == (match value.field(name) {
            Some(Value::Text(s)) => Some(s),
            _ => None,
        }),
        value.boolean_field(name) == (match value.field(name) {
            Some(Value::Bool(b)) => Some(b),
            _ => None,
        }),
        value.integer_field(name) == (match value.field(name) {
            Some(Value::Number(s)) => number(s, 0xffff_ffff_ffff_ffff),
            _ => None,
        }),
{
}

/// A value shows what it holds: its own text, items and fields, in order.
pub proof fn a_value_shows_what_it_holds(value: Json)
    ensures
        match value {
            Json::Null => value@ == Value::Null,
            Json::Bool(b) => value@ == Value::Bool(b),
            Json::Number(s) => value@ == Value::Number(s@),
            Json::String(s) => value@ == Value::Text(s@),
            Json::Array(items) => value@ matches Value::Array(shown) && shown.len() == items@.len()
                && forall|i: int| 0 <= i < items@.len() ==> #[trigger] shown[i] == items@[i]@,
            Json::Object(fields) => value@ matches Value::Object(shown) && shown.len()
                == fields@.len() && forall|i: int|
                0 <= i < fields@.len() ==> #[trigger] shown[i] == (fields@[i].0@, fields@[i].1@),
        },
{
    if let Json::Object(fields) = value {
        let shown = value@->Object_0;
        assert forall|i: int| 0 <= i < fields@.len() implies #[trigger] shown[i] == (
            fields@[i].0@,
            fields@[i].1@,
        ) by {
            assert(shown[i].1 == fields@[i].1@);
        }
    }
}

/// The values of a list, one for one.
pub proof fn a_list_has_the_values_of_its_items(items: Seq<Json>, fields: Seq<(String, Json)>)
    ensures
        item_values(items).len() == items.len(),
        forall|i: int| 0 <= i < items.len() ==> #[trigger] item_values(items)[i] == items[i]@,
        field_values(fields).len() == fields.len(),
        forall|i: int|
            0 <= i < fields.len() ==> #[trigger] field_values(fields)[i] == (
                fields[i].0@,
                fields[i].1@,
            ),
{
}

} // verus!
