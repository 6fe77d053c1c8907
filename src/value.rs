//! The JavaScript value model: a fully materialized tree of host values.
use vstd::prelude::*;

verus! {

/// A JavaScript value.
#[derive(Debug)]
pub enum JsValue {
    Null,
    Undefined,
    Boolean(bool),
    /// A number, held as the bit pattern of its IEEE-754 binary64 value.
    Number(u64),
    String(String),
    /// A dense array, indexed from zero.
    Array(Vec<JsValue>),
    /// An object's own properties, in insertion order.
    Object(Vec<Property>),
}

/// One own property of an object.
#[derive(Debug)]
pub struct Property {
    pub key: String,
    pub value: JsValue,
}

/// What the host runtime allows.
pub struct HostLimits {
    /// The longest string, in characters, that the host can create.
    pub max_string_len: usize,
}

/// The longest string that V8 creates on 64-bit hosts.
pub const V8_MAX_STRING_LEN: usize = 536_870_888;

impl HostLimits {
    /// The limits of Node.js on a 64-bit host.
    pub fn node() -> (r: HostLimits)
        ensures
            r.max_string_len == V8_MAX_STRING_LEN,
    {
        HostLimits { max_string_len: V8_MAX_STRING_LEN }
    }
}

/// No two properties share a key.
pub open spec fn keys_distinct(props: Seq<Property>) -> bool {
    forall|i: int, j: int|
        0 <= i < j < props.len() ==> #[trigger] props[i].key@ != #[trigger] props[j].key@
}

/// Where the property of a key stands, if the object has one.
pub open spec fn position_of_key(props: Seq<Property>, key: Seq<char>) -> Option<int> {
    if exists|i: int| 0 <= i < props.len() && #[trigger] props[i].key@ == key {
        Some(choose|i: int| 0 <= i < props.len() && #[trigger] props[i].key@ == key)
    } else {
        None
    }
}

/// The index of the first property with the given key.
pub fn find_property(props: &Vec<Property>, key: &String) -> (r: Option<usize>)
    ensures
        r matches Some(i) ==> i < props@.len() && props@[i as int].key@ == key@ && forall|
            j: int,
        |
            0 <= j < i ==> #[trigger] props@[j].key@ != key@,
        r is None ==> forall|j: int| 0 <= j < props@.len() ==> #[trigger] props@[j].key@ != key@,
{
    let mut i: usize = 0;
    while i < props.len()
        invariant
            i <= props@.len(),
            forall|j: int| 0 <= j < i ==> #[trigger] props@[j].key@ != key@,
        decreases props@.len() - i,
    {
        if props[i].key == *key {
            return Some(i);
        }
        i = i + 1;
    }
    None
}

/// Sets a property as JavaScript assignment does: an existing key keeps its
/// place and takes the new value; a new key is added at the end.
pub fn set_property(props: &mut Vec<Property>, key: String, value: JsValue)
    requires
        keys_distinct(old(props)@),
    ensures
        keys_distinct(final(props)@),
        match position_of_key(old(props)@, key@) {
            Some(i) => final(props)@ == old(props)@.update(i, Property { key, value }),
            None => final(props)@ == old(props)@.push(Property { key, value }),
        },
{
    match find_property(props, &key) {
        Some(i) => {
            assert(position_of_key(props@, key@) == Some(i as int)) by {
                assert(props@[i as int].key@ == key@);
                let c = choose|j: int| 0 <= j < props@.len() && #[trigger] props@[j].key@ == key@;
                assert(c == i as int);
            }
            props.set(i, Property { key, value });
        },
        None => {
            props.push(Property { key, value });
        },
    }
}

} // verus!
