//! The deserializer: which JavaScript values each shape of the serde data
//! model accepts, and what it reads from them.
use vstd::prelude::*;
use vstd::string::StringExecFns;

use crate::errors::{Error, Result};
use crate::number::{is_zero_number, number_to_i64, number_to_u64, whole_value};
use crate::value::{find_property, JsValue, Property};

verus! {

/// `null` and `undefined`: the values that stand for absence.
pub open spec fn is_nullish(v: JsValue) -> bool {
    v is Null || v is Undefined
}

/// The boolean that a value coerces to, if any.
pub open spec fn bool_of(v: JsValue) -> Option<bool> {
    match v {
        JsValue::Boolean(b) => Some(b),
        JsValue::Null | JsValue::Undefined => Some(false),
        JsValue::Number(bits) => Some(!is_zero_number(bits)),
        _ => None,
    }
}

/// The signed integer within `min..=max` that a value holds, if any.
pub open spec fn i64_of(v: JsValue, min: i64, max: i64) -> Option<i64> {
    match v {
        JsValue::Number(bits) => match whole_value(bits) {
            Some(x) => if min <= x <= max {
                Some(x as i64)
            } else {
                None
            },
            None => None,
        },
        _ => None,
    }
}

/// The unsigned integer within `0..=max` that a value holds, if any.
pub open spec fn u64_of(v: JsValue, max: u64) -> Option<u64> {
    match v {
        JsValue::Number(bits) => match whole_value(bits) {
            Some(x) => if 0 <= x <= max {
                Some(x as u64)
            } else {
                None
            },
            None => None,
        },
        _ => None,
    }
}

/// The char that a value holds: a string of exactly one character.
pub open spec fn char_of(v: JsValue) -> Option<char> {
    match v {
        JsValue::String(s) => if s@.len() == 1 {
            Some(s@[0])
        } else {
            None
        },
        _ => None,
    }
}

/// The text of a string value.
pub open spec fn string_of(v: JsValue) -> Option<Seq<char>> {
    match v {
        JsValue::String(s) => Some(s@),
        _ => None,
    }
}

/// The variant that a value names, with its payload: a string names a
/// variant without one; an object of one property names the variant by its
/// key and holds the payload as its value.
pub open spec fn variant_of(v: JsValue) -> Option<(Seq<char>, Option<JsValue>)> {
    match v {
        JsValue::String(s) => Some((s@, None)),
        JsValue::Object(props) => if props@.len() == 1 {
            Some((props@[0].key@, Some(props@[0].value)))
        } else {
            None
        },
        _ => None,
    }
}

/// Reads a boolean: booleans as they are, `null` and `undefined` as false,
/// numbers as true unless zero. Anything else cannot be coerced.
pub fn deserialize_bool(v: &JsValue) -> (r: Result<bool>)
    ensures
        r is Ok <==> bool_of(*v) is Some,
        r matches Ok(b) ==> bool_of(*v) == Some(b),
        r matches Err(e) ==> e matches Error::UnableToCoerce { to_type } && to_type@ == "bool"@,
{
    proof {
        reveal_strlit("bool");
    }
    match v {
        JsValue::Boolean(b) => Ok(*b),
        JsValue::Null | JsValue::Undefined => Ok(false),
        JsValue::Number(bits) => Ok(*bits % 0x8000_0000_0000_0000 != 0),
        _ => Err(Error::UnableToCoerce { to_type: "bool" }),
    }
}

/// Reads the unit value: only `null` and `undefined` are accepted.
pub fn deserialize_unit(v: &JsValue) -> (r: Result<()>)
    ensures
        r is Ok <==> is_nullish(*v),
        r matches Err(e) ==> e is ExpectingNull,
{
    match v {
        JsValue::Null | JsValue::Undefined => Ok(()),
        _ => Err(Error::ExpectingNull),
    }
}

/// Reads a char from a string of exactly one character.
pub fn deserialize_char(v: &JsValue) -> (r: Result<char>)
    ensures
        r is Ok <==> char_of(*v) is Some,
        r matches Ok(c) ==> char_of(*v) == Some(c),
        r matches Err(e) ==> match *v {
            JsValue::String(s) => if s@.len() == 0 {
                e is EmptyString
            } else {
                e matches Error::StringTooLongForChar { len } && len == s@.len()
            },
            _ => e matches Error::UnableToCoerce { to_type } && to_type@ == "char"@,
        },
{
    proof {
        reveal_strlit("char");
    }
    match v {
        JsValue::String(s) => {
            let len: usize = s.as_str().unicode_len();
            if len == 0 {
                Err(Error::EmptyString)
            } else if len > 1 {
                Err(Error::StringTooLongForChar { len })
            } else {
                let c = s.as_str().get_char(0);
                assert(s@ =~= seq![c]);
                Ok(c)
            }
        },
        _ => Err(Error::UnableToCoerce { to_type: "char" }),
    }
}

/// Reads a string.
pub fn deserialize_string(v: &JsValue) -> (r: Result<String>)
    ensures
        r is Ok <==> string_of(*v) is Some,
        r matches Ok(t) ==> string_of(*v) == Some(t@),
        r matches Err(e) ==> e matches Error::UnableToCoerce { to_type } && to_type@ == "string"@,
{
    proof {
        reveal_strlit("string");
    }
    match v {
        JsValue::String(s) => Ok(s.clone()),
        _ => Err(Error::UnableToCoerce { to_type: "string" }),
    }
}

/// Reads a signed integer of the range `min..=max` from a number that holds
/// it exactly.
pub fn deserialize_i64(v: &JsValue, min: i64, max: i64) -> (r: Result<i64>)
    ensures
        r is Ok <==> i64_of(*v, min, max) is Some,
        r matches Ok(x) ==> i64_of(*v, min, max) == Some(x),
        r matches Err(e) ==> e is CastError,
{
    match v {
        JsValue::Number(bits) => number_to_i64(*bits, min, max),
        _ => Err(Error::CastError),
    }
}

/// Reads an unsigned integer of the range `0..=max` from a number that
/// holds it exactly.
pub fn deserialize_u64(v: &JsValue, max: u64) -> (r: Result<u64>)
    ensures
        r is Ok <==> u64_of(*v, max) is Some,
        r matches Ok(x) ==> u64_of(*v, max) == Some(x),
        r matches Err(e) ==> e is CastError,
{
    match v {
        JsValue::Number(bits) => number_to_u64(*bits, max),
        _ => Err(Error::CastError),
    }
}

/// Reads a binary64 float, as its bit pattern, from a number.
pub fn deserialize_f64(v: &JsValue) -> (r: Result<u64>)
    ensures
        r is Ok <==> v is Number,
        r matches Ok(b) ==> *v == JsValue::Number(b),
        r matches Err(e) ==> e is CastError,
{
    match v {
        JsValue::Number(bits) => Ok(*bits),
        _ => Err(Error::CastError),
    }
}

/// Byte buffers have no JavaScript representation here.
pub fn deserialize_bytes(v: &JsValue) -> (r: Result<Vec<u8>>)
    ensures
        r matches Err(e) && e matches Error::NotImplemented { name } && name@ == "bytes"@,
{
    proof {
        reveal_strlit("bytes");
    }
    Err(Error::NotImplemented { name: "bytes" })
}

/// Whether an option is present: `null` and `undefined` are `None`; any
/// other value is `Some` of that same value.
pub fn deserialize_option(v: &JsValue) -> (r: bool)
    ensures
        r == !is_nullish(*v),
{
    !matches!(v, JsValue::Null | JsValue::Undefined)
}

/// An argument that the caller did not pass reads as `undefined`.
pub fn value_or_undefined(v: Option<JsValue>) -> (r: JsValue)
    ensures
        match v {
            Some(x) => r == x,
            None => r == JsValue::Undefined,
        },
{
    match v {
        Some(x) => x,
        None => JsValue::Undefined,
    }
}

/// Identifies the variant of an enum: a string names a unit variant; an
/// object with exactly one property names a variant by its key and holds its
/// payload as the value. Anything else names no variant.
pub fn deserialize_enum<'a>(v: &'a JsValue) -> (r: Result<(&'a String, Option<&'a JsValue>)>)
    ensures
        r is Ok <==> variant_of(*v) is Some,
        r matches Ok((name, payload)) ==> variant_of(*v) == Some(
            (
                name@,
                match payload {
                    Some(p) => Some(*p),
                    None => None,
                },
            ),
        ),
        r matches Err(e) ==> e matches Error::InvalidKeyType { key } && key@.len() == 0,
{
    match v {
        JsValue::String(s) => Ok((s, None)),
        JsValue::Object(props) => {
            if props.len() == 1 {
                Ok((&props[0].key, Some(&props[0].value)))
            } else {
                Err(Error::InvalidKeyType { key: String::new() })
            }
        },
        _ => Err(Error::InvalidKeyType { key: String::new() }),
    }
}

/// The index of the variant with the given name; a name that is no
/// variant's is reported as the invalid key.
pub fn select_variant(variants: &Vec<String>, name: &String) -> (r: Result<usize>)
    ensures
        r is Ok <==> exists|i: int| 0 <= i < variants@.len() && #[trigger] variants@[i]@ == name@,
        r matches Ok(i) ==> i < variants@.len() && variants@[i as int]@ == name@,
        r matches Err(e) ==> e matches Error::InvalidKeyType { key } && key@ == name@,
{
    let mut i: usize = 0;
    while i < variants.len()
        invariant
            i <= variants@.len(),
            forall|j: int| 0 <= j < i ==> #[trigger] variants@[j]@ != name@,
        decreases variants@.len() - i,
    {
        if variants[i] == *name {
            return Ok(i);
        }
        i = i + 1;
    }
    Err(Error::InvalidKeyType { key: name.clone() })
}

/// Checks the payload of a unit variant: none, or `null` / `undefined`.
pub fn unit_variant(payload: Option<&JsValue>) -> (r: Result<()>)
    ensures
        r is Ok <==> match payload {
            None => true,
            Some(v) => is_nullish(*v),
        },
        r matches Err(e) ==> e is ExpectingNull,
{
    match payload {
        None => Ok(()),
        Some(v) => deserialize_unit(v),
    }
}

/// The payload of a newtype, tuple or struct variant, which must be there.
pub fn variant_payload<'a>(payload: Option<&'a JsValue>) -> (r: Result<&'a JsValue>)
    ensures
        r is Ok <==> payload is Some,
        r matches Ok(v) ==> payload == Some(v),
        r matches Err(e) ==> e is Serde,
{
    match payload {
        Some(v) => Ok(v),
        None => Err(Error::Serde { msg: String::from_str("expected a variant with a payload") }),
    }
}

/// Walks the elements of an array by index.
pub struct ArrayAccess<'a> {
    pub items: &'a Vec<JsValue>,
    /// The index of the next element.
    pub index: u32,
    /// The array's length.
    pub length: u32,
}

impl<'a> ArrayAccess<'a> {
    /// The length is the array's, and the walk has not passed it.
    pub open spec fn wf(&self) -> bool {
        self.length == self.items@.len() && self.index <= self.length
    }

    /// A walk from the start of an array.
    pub fn new(v: &'a JsValue) -> (r: Result<ArrayAccess<'a>>)
        ensures
            r is Ok <==> (v matches JsValue::Array(items) && items@.len() <= u32::MAX),
            r matches Ok(a) ==> a.wf() && a.index == 0 && *v == JsValue::Array(*a.items),
            r matches Err(e) ==> e is Serde,
    {
        match v {
            JsValue::Array(items) => {
                if items.len() > u32::MAX as usize {
                    Err(Error::Serde { msg: String::from_str("array too long") })
                } else {
                    Ok(ArrayAccess { items, index: 0, length: items.len() as u32 })
                }
            },
            _ => Err(Error::Serde { msg: String::from_str("expected an array") }),
        }
    }

    /// A walk over a tuple's array, which must have exactly `arity` elements.
    pub fn new_tuple(v: &'a JsValue, arity: usize) -> (r: Result<ArrayAccess<'a>>)
        ensures
            r is Ok <==> (v matches JsValue::Array(items) && items@.len() == arity && arity
                <= u32::MAX),
            r matches Ok(a) ==> a.wf() && a.index == 0 && *v == JsValue::Array(*a.items),
            r matches Err(e) ==> e is Serde,
    {
        match ArrayAccess::new(v) {
            Ok(a) => {
                if a.items.len() != arity {
                    Err(Error::Serde { msg: String::from_str("invalid length for a tuple") })
                } else {
                    Ok(a)
                }
            },
            Err(e) => Err(e),
        }
    }

    /// The element at `index`; an index past the end is an error, never a
    /// default.
    pub fn get(&self, index: u32) -> (r: Result<&'a JsValue>)
        requires
            self.length <= self.items@.len(),
        ensures
            r is Ok <==> index < self.length,
            r matches Ok(x) ==> x == &self.items@[index as int],
            r matches Err(e) ==> e matches Error::ArrayIndexOutOfBounds { index: i, length: l }
                && i == index && l == self.length,
    {
        if index >= self.length {
            Err(Error::ArrayIndexOutOfBounds { index, length: self.length })
        } else {
            Ok(&self.items[index as usize])
        }
    }

    /// The next element, or `None` once every element has been read. The walk
    /// never asks for an index past the end, so it never fails.
    pub fn next_element(&mut self) -> (r: Result<Option<&'a JsValue>>)
        requires
            old(self).wf(),
        ensures
            final(self).wf(),
            final(self).items == old(self).items,
            r matches Ok(x) && if old(self).index < old(self).length {
                x == Some(&old(self).items@[old(self).index as int]) && final(self).index
                    == old(self).index + 1
            } else {
                x is None && final(self).index == old(self).index
            },
    {
        if self.index >= self.length {
            return Ok(None);
        }
        match self.get(self.index) {
            Ok(x) => {
                self.index = self.index + 1;
                Ok(Some(x))
            },
            Err(e) => Err(e),
        }
    }

    /// How many elements are left.
    pub fn remaining(&self) -> (r: u32)
        requires
            self.wf(),
        ensures
            r == self.length - self.index,
    {
        self.length - self.index
    }
}

/// The properties of an object.
pub fn object_properties(v: &JsValue) -> (r: Result<&Vec<Property>>)
    ensures
        r is Ok <==> v is Object,
        r matches Ok(props) ==> *v == JsValue::Object(*props),
        r matches Err(e) ==> e is Serde,
{
    match v {
        JsValue::Object(props) => Ok(props),
        _ => Err(Error::Serde { msg: String::from_str("expected an object") }),
    }
}

/// For each field of a struct, where the object holds it: the index of the
/// first property with the field's name. Properties that name no field are
/// ignored.
pub fn struct_fields(props: &Vec<Property>, fields: &Vec<String>) -> (r: Vec<Option<usize>>)
    ensures
        r@.len() == fields@.len(),
        forall|i: int|
            0 <= i < fields@.len() ==> match #[trigger] r@[i] {
                Some(p) => p < props@.len() && props@[p as int].key@ == fields@[i]@ && forall|
                    j: int,
                |
                    0 <= j < p ==> #[trigger] props@[j].key@ != fields@[i]@,
                None => forall|j: int|
                    0 <= j < props@.len() ==> #[trigger] props@[j].key@ != fields@[i]@,
            },
{
    let mut r: Vec<Option<usize>> = Vec::new();
    let mut i: usize = 0;
    while i < fields.len()
        invariant
            i <= fields@.len(),
            r@.len() == i,
            forall|k: int|
                0 <= k < i ==> match #[trigger] r@[k] {
                    Some(p) => p < props@.len() && props@[p as int].key@ == fields@[k]@ && forall|
                        j: int,
                    |
                        0 <= j < p ==> #[trigger] props@[j].key@ != fields@[k]@,
                    None => forall|j: int|
                        0 <= j < props@.len() ==> #[trigger] props@[j].key@ != fields@[k]@,
                },
        decreases fields@.len() - i,
    {
        let found = find_property(props, &fields[i]);
        r.push(found);
        i = i + 1;
    }
    r
}

} // verus!
