//! What the deserializer reads back from what the serializer wrote: for each
//! shape, a value survives the trip unchanged. The requirements on each
//! JavaScript value are exactly what the serializer promises of its result.
use vstd::prelude::*;

use crate::de::{bool_of, char_of, i64_of, is_nullish, string_of, u64_of, variant_of};
use crate::number::whole_value;
use crate::value::{keys_distinct, JsValue, Property};

verus! {

/// A boolean reads back as itself.
pub proof fn lemma_bool_round_trip(b: bool)
    ensures
        bool_of(JsValue::Boolean(b)) == Some(b),
{
}

/// A signed integer reads back as itself from the number it became, for any
/// target range that holds it.
pub proof fn lemma_i64_round_trip(n: i64, j: JsValue, min: i64, max: i64)
    requires
        j matches JsValue::Number(b) && whole_value(b) == Some(n as int),
        min <= n <= max,
    ensures
        i64_of(j, min, max) == Some(n),
{
}

/// An unsigned integer reads back as itself from the number it became, for
/// any target range that holds it.
pub proof fn lemma_u64_round_trip(n: u64, j: JsValue, max: u64)
    requires
        j matches JsValue::Number(b) && whole_value(b) == Some(n as int),
        n <= max,
    ensures
        u64_of(j, max) == Some(n),
{
}

/// A char reads back as itself from its one-character string.
pub proof fn lemma_char_round_trip(c: char, j: JsValue)
    requires
        j matches JsValue::String(s) && s@ == seq![c],
    ensures
        char_of(j) == Some(c),
{
}

/// A string reads back as the same text.
pub proof fn lemma_string_round_trip(t: Seq<char>, j: JsValue)
    requires
        j matches JsValue::String(s) && s@ == t,
    ensures
        string_of(j) == Some(t),
{
}

/// `None` and the unit value become `null`, which reads back as absent and
/// as the unit value; `Some(x)` reads back as present wherever `x` became a
/// boolean, a number, a string, an array or an object.
pub proof fn lemma_option_round_trip(j: JsValue)
    ensures
        is_nullish(JsValue::Null),
        (j is Boolean || j is Number || j is String || j is Array || j is Object) ==> !is_nullish(
            j,
        ),
{
}

/// A unit variant reads back from its name's string as the same variant,
/// without a payload.
pub proof fn lemma_unit_variant_round_trip(name: Seq<char>, j: JsValue)
    requires
        j matches JsValue::String(s) && s@ == name,
    ensures
        variant_of(j) == Some((name, None::<JsValue>)),
{
}

/// A variant with a payload reads back from its one-property object as the
/// same variant with the same payload.
pub proof fn lemma_payload_variant_round_trip(name: Seq<char>, payload: JsValue, j: JsValue)
    requires
        j matches JsValue::Object(props) && props@.len() == 1 && props@[0].key@ == name
            && props@[0].value == payload,
    ensures
        variant_of(j) == Some((name, Some(payload))),
{
}

/// A struct's fields, written in declaration order under distinct names,
/// are each found again at their own place.
pub proof fn lemma_struct_round_trip(props: Seq<Property>, fields: Seq<Seq<char>>)
    requires
        props.len() == fields.len(),
        forall|i: int| 0 <= i < props.len() ==> #[trigger] props[i].key@ == fields[i],
        keys_distinct(props),
    ensures
        forall|i: int|
            0 <= i < fields.len() ==> props[i].key@ == fields[i] && forall|j: int|
                0 <= j < i ==> #[trigger] props[j].key@ != fields[i],
{
    assert forall|i: int| 0 <= i < fields.len() implies props[i].key@ == fields[i] && forall|
        j: int,
    |
        0 <= j < i ==> #[trigger] props[j].key@ != fields[i] by {
        assert(props[i].key@ == fields[i]);
        assert forall|j: int| 0 <= j < i implies #[trigger] props[j].key@ != fields[i] by {
            assert(props[j].key@ != props[i].key@);
        }
    }
}

} // verus!
