//! JSON values, as far as the messages to and from the daemon need them.
//!
//! The values are those of `serde_json`; [`json_tree`] says what one holds.
use vstd::prelude::*;

verus! {

/// A JSON value of `serde_json`.
#[verifier::external_type_specification]
#[verifier::external_body]
pub struct ExValue(serde_json::Value);

/// What a JSON value holds. Arrays, and numbers that are not unsigned 64-bit
/// integers, are not told apart.
pub ghost enum JsonTree {
    Null,
    Bool(bool),
    Unsigned(u64),
    Text(Seq<char>),
    Object(Map<Seq<char>, JsonTree>),
    Other,
}

impl JsonTree {
    /// The member of an object under a key.
    pub open spec fn field(self, key: Seq<char>) -> Option<JsonTree> {
        match self {
            JsonTree::Object(m) => if m.contains_key(key) {
                Some(m[key])
            } else {
                None
            },
            _ => None,
        }
    }

    /// The truth value that a value is.
    pub open spec fn truth(self) -> Option<bool> {
        match self {
            JsonTree::Bool(b) => Some(b),
            _ => None,
        }
    }

    /// The unsigned number that a value is.
    pub open spec fn unsigned(self) -> Option<u64> {
        match self {
            JsonTree::Unsigned(n) => Some(n),
            _ => None,
        }
    }

    /// Null, a truth value, an unsigned number or a text.
    pub open spec fn is_scalar(self) -> bool {
        self is Null || self is Bool || self is Unsigned || self is Text
    }

    /// A scalar, or an object whose members are all scalars.
    pub open spec fn is_flat(self) -> bool {
        self.is_scalar() || (self matches JsonTree::Object(m) && forall|k: Seq<char>|
            m.contains_key(k) ==> (#[trigger] m[k]).is_scalar())
    }

    /// A scalar, or an object whose members are all flat.
    pub open spec fn is_shallow(self) -> bool {
        self.is_scalar() || (self matches JsonTree::Object(m) && forall|k: Seq<char>|
            m.contains_key(k) ==> (#[trigger] m[k]).is_flat())
    }
}

/// What a JSON value holds.
pub uninterp spec fn json_tree(v: serde_json::Value) -> JsonTree;

/// What `serde_json::from_slice` reads from bytes: the value, or nothing where
/// they are not one JSON document.
pub uninterp spec fn json_document(bytes: Seq<u8>) -> Option<JsonTree>;

/// The bytes that `serde_json::to_vec` writes for a value without arrays and
/// without numbers other than unsigned ones.
pub uninterp spec fn json_bytes(t: JsonTree) -> Seq<u8>;

/// `serde_json::from_slice` into a `serde_json::Value`. What it reads is
/// named [`json_document`]; the text of its error is dropped.
#[verifier::external_body]
pub(crate) fn json_parse(bytes: &[u8]) -> (r: Option<serde_json::Value>)
    ensures
        match r {
            Some(v) => json_document(bytes@) == Some(json_tree(v)),
            None => json_document(bytes@) is None,
        },
{
    serde_json::from_slice(bytes).ok()
}

/// `serde_json::to_vec`, with no bytes in place of its error. Of a shallow
/// value the bytes are named [`json_bytes`], there is at least one of them, and
/// `serde_json::from_slice` reads the same value back from them. Of other values
/// nothing is claimed.
#[verifier::external_body]
pub(crate) fn json_to_bytes(v: &serde_json::Value) -> (r: Vec<u8>)
    ensures
        json_tree(*v).is_shallow() ==> r@ == json_bytes(json_tree(*v)),
        json_tree(*v).is_shallow() ==> r@.len() > 0,
        json_tree(*v).is_shallow() ==> json_document(r@) == Some(json_tree(*v)),
{
    serde_json::to_vec(v).unwrap_or_default()
}

/// `serde_json::Value::get` with a text key: the member of an object under
/// that key, and nothing of a value that is not an object.
#[verifier::external_body]
pub(crate) fn json_get<'a>(v: &'a serde_json::Value, key: &str) -> (r: Option<
    &'a serde_json::Value,
>)
    ensures
        match r {
            Some(x) => json_tree(*v).field(key@) == Some(json_tree(*x)),
            None => json_tree(*v).field(key@) is None,
        },
{
    v.get(key)
}

/// `serde_json::Value::as_bool`: the truth value, of a value that is one.
#[verifier::external_body]
pub(crate) fn json_as_bool(v: &serde_json::Value) -> (r: Option<bool>)
    ensures
        r == json_tree(*v).truth(),
{
    v.as_bool()
}

/// `serde_json::Value::as_u64`: the number, of a value that is an unsigned
/// 64-bit integer.
#[verifier::external_body]
pub(crate) fn json_as_u64(v: &serde_json::Value) -> (r: Option<u64>)
    ensures
        r == json_tree(*v).unsigned(),
{
    v.as_u64()
}

/// `serde_json::Value::from` a text: the value that is that text.
#[verifier::external_body]
pub(crate) fn json_text(s: &str) -> (r: serde_json::Value)
    ensures
        json_tree(r) == JsonTree::Text(s@),
{
    serde_json::Value::from(s)
}

/// `serde_json::Value::from` a number: the value that is that number.
#[verifier::external_body]
pub(crate) fn json_number(n: u64) -> (r: serde_json::Value)
    ensures
        json_tree(r) == JsonTree::Unsigned(n),
{
    serde_json::Value::from(n)
}

/// `serde_json::Map::new`, as a value: the object without members.
#[verifier::external_body]
pub(crate) fn json_object() -> (r: serde_json::Value)
    ensures
        json_tree(r) == JsonTree::Object(Map::empty()),
{
    serde_json::Value::Object(serde_json::Map::new())
}

/// Assignment through `serde_json::Value`'s `IndexMut` with a text key: on an
/// object it sets the member under that key, whether or not there was one.
/// On values of other kinds, but null, it panics.
#[verifier::external_body]
pub(crate) fn json_insert(object: &mut serde_json::Value, key: &str, value: serde_json::Value)
    requires
        json_tree(*old(object)) is Object,
    ensures
        json_tree(*final(object)) == JsonTree::Object(
            json_tree(*old(object))->Object_0.insert(key@, json_tree(value)),
        ),
{
    object[key] = value;
}

} // verus!
