//! The decoded Chromium IndexedDB records this library interprets.
//!
//! These types hold, as plain values, what a Chromium IndexedDB reader decodes
//! from a LevelDB store: each object-store data record's primary key (`IDBKey`),
//! its Blink/V8 structured-clone value, its LevelDB sequence number and its
//! tombstone flag. Floating-point numbers (numeric and date keys, V8 doubles,
//! dates and `Number` objects) are held as the decimal text that Rust's `f64`
//! `Display` renders for them, which is the only form the interpretation reads.

use vstd::prelude::*;
use crate::text::{hex_text, decimal_text, hex, decimal_string, str_eq};

verus! {

/// A decoded IndexedDB primary key (`IDBKey`).
#[derive(Debug, PartialEq)]
pub enum IdbKey {
    /// A number key, as its decimal rendering.
    Number(String),
    /// A date key (milliseconds since the Unix epoch), as its decimal rendering.
    Date(String),
    /// A string key.
    String(String),
    /// A binary key.
    Binary(Vec<u8>),
    /// An array of keys.
    Array(Vec<IdbKey>),
    /// The null key.
    Null,
    /// The synthetic minimum key.
    Min,
    /// An unrecognised or truncated key, its raw bytes verbatim.
    Invalid(Vec<u8>),
}

/// A decoded V8 structured-clone value.
#[derive(Debug, PartialEq)]
pub enum V8Value {
    /// `undefined`.
    Undefined,
    /// `null`.
    Null,
    /// A hole in a sparse array.
    Hole,
    /// A boolean.
    Bool(bool),
    /// A small integer.
    Int(i64),
    /// A double, as its decimal rendering.
    Double(String),
    /// A BigInt, as its decimal string.
    BigInt(String),
    /// A string.
    String(String),
    /// A date (milliseconds since the Unix epoch), as its decimal rendering.
    Date(String),
    /// A regular expression: its source and V8's raw flag bits.
    RegExp {
        /// The pattern source.
        source: String,
        /// The raw flag bits.
        flags: u32,
    },
    /// An array.
    Array(Vec<V8Value>),
    /// An object: its properties in serialized (insertion) order.
    Object(Vec<(String, V8Value)>),
    /// A JavaScript `Map`: key/value pairs in insertion order.
    JsMap(Vec<(V8Value, V8Value)>),
    /// A JavaScript `Set`: members in insertion order.
    JsSet(Vec<V8Value>),
    /// An `ArrayBuffer`: raw bytes.
    ArrayBuffer(Vec<u8>),
    /// `new Number(x)`, as the decimal rendering of `x`.
    NumberObject(String),
    /// `new String(x)`.
    StringObject(String),
    /// `new Boolean(x)`.
    BooleanObject(bool),
    /// `Object(x)` of a BigInt, as its decimal string.
    BigIntObject(String),
}

/// The value stored against an object-store record.
#[derive(Debug, PartialEq)]
pub enum RecordValue {
    /// A decoded V8 value.
    V8(V8Value),
    /// The value could not be deserialized; its raw bytes and the error are kept.
    Undecoded {
        /// The value bytes, verbatim.
        raw: Vec<u8>,
        /// The decode failure, as text.
        error: String,
    },
}

/// One decoded IndexedDB object-store data record.
#[derive(Debug, PartialEq)]
pub struct IndexedDbRecord {
    /// The database id from the record's key prefix.
    pub database_id: u64,
    /// The object-store id from the record's key prefix.
    pub object_store_id: u64,
    /// The database name, when it was resolved.
    pub database: Option<String>,
    /// The object-store name, when it was resolved.
    pub object_store: Option<String>,
    /// The primary key.
    pub key: IdbKey,
    /// The record value.
    pub value: RecordValue,
    /// The LevelDB sequence number.
    pub seq: u64,
    /// `true` for a deletion tombstone.
    pub deleted: bool,
}

/// The text form of a primary key: strings verbatim, numbers and dates in
/// decimal, binary keys as `0x` and lower-case hex, arrays as `[a,b,...]`,
/// `null`, `min`, and invalid keys as `invalid:0x` and their hex bytes.
pub open spec fn key_text(k: IdbKey) -> Seq<char>
    decreases k, 0nat,
{
    match k {
        IdbKey::String(s) => s@,
        IdbKey::Number(n) => n@,
        IdbKey::Date(n) => n@,
        IdbKey::Binary(b) => "0x"@ + hex_text(b@),
        IdbKey::Array(items) => "["@ + joined_key_text(items@) + "]"@,
        IdbKey::Null => "null"@,
        IdbKey::Min => "min"@,
        IdbKey::Invalid(b) => "invalid:0x"@ + hex_text(b@),
    }
}

/// The text forms of `keys`, separated by commas.
pub open spec fn joined_key_text(keys: Seq<IdbKey>) -> Seq<char>
    decreases keys, 1nat,
{
    if keys.len() == 0 {
        Seq::empty()
    } else if keys.len() == 1 {
        key_text(keys[0])
    } else {
        joined_key_text(keys.drop_last()) + ","@ + key_text(keys.last())
    }
}

/// The value of the first property called `name` of an object value; `None`
/// for an object without one and for every value that is not an object.
pub open spec fn object_field(v: V8Value, name: Seq<char>) -> Option<V8Value> {
    match v {
        V8Value::Object(props) => first_property(props@, name),
        _ => None,
    }
}

/// The value of the first of `props` called `name`.
pub open spec fn first_property(props: Seq<(String, V8Value)>, name: Seq<char>) -> Option<V8Value>
    decreases props.len(),
{
    if props.len() == 0 {
        None
    } else if props[0].0@ == name {
        Some(props[0].1)
    } else {
        first_property(props.drop_first(), name)
    }
}

/// `true` when `v` is an object with a property called `name`, whatever its value.
pub open spec fn has_property(v: V8Value, name: Seq<char>) -> bool {
    match v {
        V8Value::Object(props) => exists|k: int| 0 <= k < props@.len() && (#[trigger] props@[k]).0@ == name,
        _ => false,
    }
}

/// A property is found exactly when one of that name is present.
proof fn lemma_first_property_found(props: Seq<(String, V8Value)>, name: Seq<char>)
    ensures
        first_property(props, name) is Some <==> exists|k: int| 0 <= k < props.len() && (#[trigger] props[k]).0@ == name,
    decreases props.len(),
{
    if props.len() > 0 {
        let rest = props.drop_first();
        lemma_first_property_found(rest, name);
        if exists|k: int| 0 <= k < props.len() && (#[trigger] props[k]).0@ == name {
            let k = choose|k: int| 0 <= k < props.len() && (#[trigger] props[k]).0@ == name;
            if k > 0 {
                assert(rest[k - 1] == props[k]);
            }
        }
        if exists|k: int| 0 <= k < rest.len() && (#[trigger] rest[k]).0@ == name {
            let k = choose|k: int| 0 <= k < rest.len() && (#[trigger] rest[k]).0@ == name;
            assert(props[k + 1] == rest[k]);
        }
    }
}

/// [`object_field`] finds a value exactly for a property that is present,
/// whatever that property's value.
pub proof fn lemma_object_field_found(v: V8Value, name: Seq<char>)
    ensures
        object_field(v, name) is Some <==> has_property(v, name),
{
    if let V8Value::Object(props) = v {
        lemma_first_property_found(props@, name);
    }
}

/// The text of a scalar value: strings, string objects and BigInts verbatim,
/// integers in decimal, doubles, dates and number objects as their decimal
/// rendering, booleans as `true` / `false`; `None` for every other value.
pub open spec fn value_text(v: V8Value) -> Option<Seq<char>> {
    match v {
        V8Value::String(s) => Some(s@),
        V8Value::StringObject(s) => Some(s@),
        V8Value::BigInt(s) => Some(s@),
        V8Value::Int(i) => Some(decimal_text(i as int)),
        V8Value::Double(d) => Some(d@),
        V8Value::Date(d) => Some(d@),
        V8Value::NumberObject(d) => Some(d@),
        V8Value::Bool(b) => Some(if b { "true"@ } else { "false"@ }),
        _ => None,
    }
}

/// The text of the property `name` of `v`, when it is present and scalar.
pub open spec fn field_text(v: V8Value, name: Seq<char>) -> Option<Seq<char>> {
    match object_field(v, name) {
        Some(x) => value_text(x),
        None => None,
    }
}

/// The view of an optional string.
pub open spec fn opt_text(o: Option<String>) -> Option<Seq<char>> {
    match o {
        Some(s) => Some(s@),
        None => None,
    }
}

/// Render a primary key as text (see [`key_text`]).
pub fn render_key(key: &IdbKey) -> (text: String)
    ensures
        text@ == key_text(*key),
    decreases key,
{
    match key {
        IdbKey::String(s) => s.clone(),
        IdbKey::Number(n) => n.clone(),
        IdbKey::Date(n) => n.clone(),
        IdbKey::Binary(b) => {
            let mut out = String::from_str("0x");
            let h = hex(b.as_slice());
            out.append(h.as_str());
            out
        },
        IdbKey::Array(items) => {
            let mut out = String::from_str("[");
            let mut i: usize = 0;
            while i < items.len()
                invariant
                    *key is Array,
                    key->Array_0 == *items,
                    i <= items@.len(),
                    out@ == "["@ + joined_key_text(items@.take(i as int)),
                decreases items@.len() - i,
            {
                assert(decreases_to!(*key => key->Array_0));
                assert(decreases_to!(*items => items@));
                assert(decreases_to!(items@ => items@[i as int]));
                let part = render_key(&items[i]);
                let ghost before = out@;
                if i > 0 {
                    out.append(",");
                }
                out.append(part.as_str());
                proof {
                    let t = items@.take(i + 1);
                    assert(t.drop_last() =~= items@.take(i as int));
                    assert(t.last() == items@[i as int]);
                    if i == 0 {
                        assert(items@.take(0) =~= Seq::<IdbKey>::empty());
                        assert(before =~= "["@);
                        assert(out@ =~= "["@ + joined_key_text(t));
                    } else {
                        assert(out@ =~= "["@ + joined_key_text(t));
                    }
                }
                i = i + 1;
            }
            assert(items@.take(items@.len() as int) =~= items@);
            out.append("]");
            out
        },
        IdbKey::Null => String::from_str("null"),
        IdbKey::Min => String::from_str("min"),
        IdbKey::Invalid(b) => {
            let mut out = String::from_str("invalid:0x");
            let h = hex(b.as_slice());
            out.append(h.as_str());
            out
        },
    }
}

/// The first property called `name` of an object value; `None` for an
/// object without one and for every value that is not an object.
pub fn obj_field<'a>(v: &'a V8Value, name: &str) -> (found: Option<&'a V8Value>)
    ensures
        match found {
            Some(x) => object_field(*v, name@) == Some(*x),
            None => object_field(*v, name@) is None,
        },
{
    match v {
        V8Value::Object(props) => {
            let mut i: usize = 0;
            assert(props@.skip(0) =~= props@);
            while i < props.len()
                invariant
                    i <= props@.len(),
                    object_field(*v, name@) == first_property(props@, name@),
                    first_property(props@, name@) == first_property(props@.skip(i as int), name@),
                decreases props@.len() - i,
            {
                let ghost rest = props@.skip(i as int);
                assert(rest.len() > 0);
                assert(rest[0] == props@[i as int]);
                let entry = &props[i];
                if str_eq(entry.0.as_str(), name) {
                    assert(rest[0].0@ == name@);
                    assert(first_property(rest, name@) == Some(rest[0].1));
                    return Some(&entry.1);
                }
                assert(rest.drop_first() =~= props@.skip(i + 1));
                i = i + 1;
            }
            None
        },
        _ => None,
    }
}

/// The text of a scalar value (see [`value_text`]).
pub fn as_text(v: &V8Value) -> (text: Option<String>)
    ensures
        opt_text(text) == value_text(*v),
{
    match v {
        V8Value::String(s) => Some(s.clone()),
        V8Value::StringObject(s) => Some(s.clone()),
        V8Value::BigInt(s) => Some(s.clone()),
        V8Value::Int(i) => Some(decimal_string(*i)),
        V8Value::Double(d) => Some(d.clone()),
        V8Value::Date(d) => Some(d.clone()),
        V8Value::NumberObject(d) => Some(d.clone()),
        V8Value::Bool(b) => {
            if *b {
                Some(String::from_str("true"))
            } else {
                Some(String::from_str("false"))
            }
        },
        _ => None,
    }
}

/// The text of the property `name` of `v` (see [`field_text`]).
pub fn text_field(v: &V8Value, name: &str) -> (text: Option<String>)
    ensures
        opt_text(text) == field_text(*v, name@),
{
    match obj_field(v, name) {
        Some(x) => as_text(x),
        None => None,
    }
}

} // verus!
