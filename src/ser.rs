//! The serializer: each shape of the serde data model becomes a JavaScript
//! value.
use vstd::prelude::*;
use vstd::string::{StrSliceExecFns, StringExecFns};

use crate::errors::{decimal, push_char, push_decimal, Error, Result};
use crate::number::{
    number_from_i64, number_from_u64, sign_negative, whole_number, whole_value, exactly_representable,
};
use crate::value::{keys_distinct, position_of_key, set_property, HostLimits, JsValue, Property};

verus! {

/// The UTF-16 code units of a character: two above the basic plane.
pub open spec fn utf16_units(c: char) -> nat {
    if (c as u32) >= 0x10000 {
        2
    } else {
        1
    }
}

/// The length of a text in UTF-16 code units, the measure of JavaScript
/// strings.
pub open spec fn utf16_len(s: Seq<char>) -> nat
    decreases s.len(),
{
    if s.len() == 0 {
        0
    } else {
        utf16_len(s.drop_last()) + utf16_units(s.last())
    }
}

/// The UTF-16 length of a text.
pub fn utf16_length(v: &str) -> (r: u128)
    ensures
        r == utf16_len(v@),
{
    let len: usize = v.unicode_len();
    let mut n: u128 = 0;
    let ghost mut k: int = 0;
    for c in iter: v.chars()
        invariant
            k == iter.index(),
            n == utf16_len(iter.seq().take(iter.index() as int)),
            n <= 2 * iter.index(),
            iter.seq() == v@,
            v@.len() == len,
    {
        let ghost before = iter.seq().take(iter.index() as int);
        assert(iter.seq().take(iter.index() + 1).drop_last() == before);
        if (c as u32) >= 0x10000 {
            n = n + 2;
        } else {
            n = n + 1;
        }
        proof {
            k = k + 1;
        }
    }
    assert(v@.take(k) == v@);
    n
}

/// A boolean becomes a JavaScript boolean.
pub fn serialize_bool(v: bool) -> (r: JsValue)
    ensures
        r == JsValue::Boolean(v),
{
    JsValue::Boolean(v)
}

/// A signed integer becomes the number of the same value; one that a number
/// cannot hold exactly is refused.
pub fn serialize_i64(v: i64) -> (r: Result<JsValue>)
    ensures
        r is Ok <==> exactly_representable(v as int),
        r matches Ok(j) ==> j matches JsValue::Number(b) && whole_value(b) == Some(v as int)
            && sign_negative(b) == (v < 0),
        r matches Err(e) ==> e is CastError,
{
    match number_from_i64(v) {
        Ok(b) => Ok(JsValue::Number(b)),
        Err(e) => Err(e),
    }
}

/// An unsigned integer becomes the number of the same value; one that a
/// number cannot hold exactly is refused.
pub fn serialize_u64(v: u64) -> (r: Result<JsValue>)
    ensures
        r is Ok <==> exactly_representable(v as int),
        r matches Ok(j) ==> j matches JsValue::Number(b) && whole_value(b) == Some(v as int)
            && !sign_negative(b),
        r matches Err(e) ==> e is CastError,
{
    match number_from_u64(v) {
        Ok(b) => Ok(JsValue::Number(b)),
        Err(e) => Err(e),
    }
}

/// A binary64 float, given by its bit pattern, becomes the same number.
pub fn serialize_f64(bits: u64) -> (r: JsValue)
    ensures
        r == JsValue::Number(bits),
{
    JsValue::Number(bits)
}

/// A char becomes a string of that one character.
pub fn serialize_char(c: char) -> (r: JsValue)
    ensures
        r matches JsValue::String(s) && s@ == seq![c],
{
    let mut s = String::new();
    push_char(&mut s, c);
    assert(s@ =~= seq![c]);
    JsValue::String(s)
}

/// The length reported for a text that is too long: its UTF-16 length, or
/// the largest `usize` where that does not fit.
pub open spec fn reported_len(s: Seq<char>) -> usize {
    if utf16_len(s) <= usize::MAX {
        utf16_len(s) as usize
    } else {
        usize::MAX
    }
}

/// A string becomes the same JavaScript string, where the host can hold its
/// UTF-16 length.
pub fn serialize_str(limits: &HostLimits, v: &str) -> (r: Result<JsValue>)
    ensures
        r is Ok <==> utf16_len(v@) <= limits.max_string_len,
        r matches Ok(j) ==> j matches JsValue::String(s) && s@ == v@,
        r matches Err(e) ==> e matches Error::StringTooLong { len } && len == reported_len(v@),
{
    let units: u128 = utf16_length(v);
    if units > limits.max_string_len as u128 {
        let len: usize = if units > usize::MAX as u128 {
            usize::MAX
        } else {
            units as usize
        };
        Err(Error::StringTooLong { len })
    } else {
        Ok(JsValue::String(String::from_str(v)))
    }
}

/// Byte buffers have no JavaScript representation here.
pub fn serialize_bytes(v: &[u8]) -> (r: Result<JsValue>)
    ensures
        r matches Err(e) && e matches Error::NotImplemented { name } && name@ == "bytes"@,
{
    proof {
        reveal_strlit("bytes");
    }
    Err(Error::NotImplemented { name: "bytes" })
}

/// The unit value and `None` become `null`.
pub fn serialize_unit() -> (r: JsValue)
    ensures
        r == JsValue::Null,
{
    JsValue::Null
}

/// A unit variant becomes the string of its name.
pub fn serialize_unit_variant(limits: &HostLimits, variant: &str) -> (r: Result<JsValue>)
    ensures
        r is Ok <==> utf16_len(variant@) <= limits.max_string_len,
        r matches Ok(j) ==> j matches JsValue::String(s) && s@ == variant@,
        r matches Err(e) ==> e matches Error::StringTooLong { len } && len == reported_len(variant@),
{
    serialize_str(limits, variant)
}

/// A variant with a payload (newtype, tuple or struct variant) becomes an
/// object whose one key is the variant's name and whose value is the
/// payload.
pub fn serialize_variant(variant: &str, payload: JsValue) -> (r: JsValue)
    ensures
        r matches JsValue::Object(props) && props@.len() == 1 && props@[0].key@ == variant@
            && props@[0].value == payload,
{
    let mut props: Vec<Property> = Vec::new();
    props.push(Property { key: String::from_str(variant), value: payload });
    JsValue::Object(props)
}

/// Collects the elements of a sequence, a tuple or a tuple variant into an
/// array.
pub struct ArraySerializer {
    pub items: Vec<JsValue>,
}

impl ArraySerializer {
    /// An empty array.
    pub fn new() -> (r: ArraySerializer)
        ensures
            r.items@.len() == 0,
    {
        ArraySerializer { items: Vec::new() }
    }

    /// Appends the next element.
    pub fn serialize_element(&mut self, v: JsValue)
        ensures
            final(self).items@ == old(self).items@.push(v),
    {
        self.items.push(v);
    }

    /// The array of the elements, in order.
    pub fn end(self) -> (r: JsValue)
        ensures
            r matches JsValue::Array(items) && items@ == self.items@,
    {
        JsValue::Array(self.items)
    }

    /// The array of a tuple, which must hold exactly `arity` elements.
    pub fn end_tuple(self, arity: usize) -> (r: Result<JsValue>)
        ensures
            r is Ok <==> self.items@.len() == arity,
            r matches Ok(j) ==> j matches JsValue::Array(items) && items@ == self.items@,
            r matches Err(e) ==> e is Serde,
    {
        if self.items.len() != arity {
            Err(Error::Serde { msg: String::from_str("invalid length for a tuple") })
        } else {
            Ok(JsValue::Array(self.items))
        }
    }
}

/// The decimal text of an integer, with a leading `-` when negative.
pub open spec fn signed_decimal(n: int) -> Seq<char> {
    if n < 0 {
        seq!['-'] + decimal((-n) as nat)
    } else {
        decimal(n as nat)
    }
}

/// The string that a map key is coerced to, as JavaScript turns a property
/// key into a string: a string stays as it is, a whole number becomes its
/// decimal text, a boolean becomes `true` or `false`. Other values have none.
pub open spec fn map_key_of(v: JsValue) -> Option<Seq<char>> {
    match v {
        JsValue::String(s) => Some(s@),
        JsValue::Number(bits) => match whole_value(bits) {
            Some(n) => Some(signed_decimal(n)),
            None => None,
        },
        JsValue::Boolean(b) => Some(
            if b {
                "true"@
            } else {
                "false"@
            },
        ),
        _ => None,
    }
}

/// Coerces a serialized map key to a string.
pub fn map_key(key: JsValue) -> (r: Option<String>)
    ensures
        r is Some <==> map_key_of(key) is Some,
        r matches Some(s) ==> s@ == map_key_of(key)->0,
{
    match key {
        JsValue::String(s) => Some(s),
        JsValue::Boolean(b) => {
            if b {
                Some(String::from_str("true"))
            } else {
                Some(String::from_str("false"))
            }
        },
        JsValue::Number(bits) => match whole_number(bits) {
            Some((neg, m)) => {
                let mut s = String::new();
                if neg && m != 0 {
                    push_char(&mut s, '-');
                }
                push_decimal(&mut s, m);
                assert(s@ =~= signed_decimal(whole_value(bits)->0));
                Some(s)
            },
            None => None,
        },
        _ => None,
    }
}

/// Collects the entries of a map, a struct or a struct variant into an
/// object.
pub struct ObjectSerializer {
    pub props: Vec<Property>,
    /// The key of a map entry whose value has not come yet.
    pub pending_key: Option<String>,
}

impl ObjectSerializer {
    /// The object's properties never repeat a key.
    pub open spec fn wf(&self) -> bool {
        keys_distinct(self.props@)
    }

    /// An empty object.
    pub fn new() -> (r: ObjectSerializer)
        ensures
            r.wf(),
            r.props@.len() == 0,
            r.pending_key is None,
    {
        ObjectSerializer { props: Vec::new(), pending_key: None }
    }

    /// Sets a struct field: the field's name is the key.
    pub fn serialize_field(&mut self, key: String, v: JsValue)
        requires
            old(self).wf(),
        ensures
            final(self).wf(),
            final(self).pending_key == old(self).pending_key,
            match position_of_key(old(self).props@, key@) {
                Some(i) => final(self).props@ == old(self).props@.update(
                    i,
                    Property { key, value: v },
                ),
                None => final(self).props@ == old(self).props@.push(Property { key, value: v }),
            },
    {
        set_property(&mut self.props, key, v);
    }

    /// Takes the key of the next map entry, coerced to a string.
    pub fn serialize_key(&mut self, key: JsValue) -> (r: Result<()>)
        requires
            old(self).wf(),
        ensures
            final(self).wf(),
            final(self).props == old(self).props,
            r is Ok <==> map_key_of(key) is Some,
            r is Ok ==> (final(self).pending_key matches Some(k) && k@ == map_key_of(key)->0),
            r matches Err(e) ==> e is Serde,
    {
        match map_key(key) {
            Some(s) => {
                self.pending_key = Some(s);
                Ok(())
            },
            None => Err(
                Error::Serde { msg: String::from_str("map key cannot be coerced to a string") },
            ),
        }
    }

    /// Sets the value of the map entry whose key came last.
    pub fn serialize_value(&mut self, v: JsValue) -> (r: Result<()>)
        requires
            old(self).wf(),
        ensures
            final(self).wf(),
            r is Ok <==> old(self).pending_key is Some,
            r is Ok ==> final(self).pending_key is None && ({
                let key = old(self).pending_key->0;
                match position_of_key(old(self).props@, key@) {
                    Some(i) => final(self).props@ == old(self).props@.update(
                        i,
                        Property { key, value: v },
                    ),
                    None => final(self).props@ == old(self).props@.push(Property { key, value: v }),
                }
            }),
            r matches Err(e) ==> e is Serde,
    {
        match self.pending_key.take() {
            Some(key) => {
                set_property(&mut self.props, key, v);
                Ok(())
            },
            None => Err(Error::Serde { msg: String::from_str("map value without a key") }),
        }
    }

    /// The object of the entries.
    pub fn end(self) -> (r: JsValue)
        ensures
            r matches JsValue::Object(props) && props@ == self.props@,
    {
        JsValue::Object(self.props)
    }
}

} // verus!
