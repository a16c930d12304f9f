//! A JSON-like structured value: the opaque payload attached to every
//! component of an entity, and the shape of every protocol envelope.
//!
//! Numbers that fit an unsigned or signed 64-bit integer are held as such;
//! any other numeric literal is carried verbatim as text, so no information
//! is lost and no floating-point value ever enters the library.

use vstd::prelude::*;

verus! {

/// A structured value: null, boolean, number, string, array or object.
/// Objects are ordered lists of key/value pairs; key lookup takes the first
/// match, and producers are expected to supply unique keys.
#[derive(Debug, PartialEq, Eq)]
pub enum Value {
    Null,
    Bool(bool),
    UInt(u64),
    Int(i64),
    /// A numeric literal that fits neither `u64` nor `i64`, kept as text.
    Decimal(String),
    Str(String),
    Arr(Vec<Value>),
    Obj(Vec<(String, Value)>),
}

/// First entry of `entries` whose key reads `key`, if any.
pub open spec fn spec_obj_get(entries: Seq<(String, Value)>, key: Seq<char>) -> Option<Value>
    decreases entries.len(),
{
    if entries.len() == 0 {
        None
    } else if entries[0].0@ == key {
        Some(entries[0].1)
    } else {
        spec_obj_get(entries.drop_first(), key)
    }
}

pub proof fn lemma_obj_get_found(entries: Seq<(String, Value)>, key: Seq<char>, i: int)
    requires
        0 <= i < entries.len(),
        entries[i].0@ == key,
        forall|j: int| 0 <= j < i ==> entries[j].0@ != key,
    ensures
        spec_obj_get(entries, key) == Some(entries[i].1),
    decreases i,
{
    if i > 0 {
        lemma_obj_get_found(entries.drop_first(), key, i - 1);
    }
}

pub proof fn lemma_obj_get_absent(entries: Seq<(String, Value)>, key: Seq<char>)
    requires
        forall|j: int| 0 <= j < entries.len() ==> entries[j].0@ != key,
    ensures
        spec_obj_get(entries, key) is None,
    decreases entries.len(),
{
    if entries.len() > 0 {
        lemma_obj_get_absent(entries.drop_first(), key);
    }
}

/// Removing an entry whose key is not `key` leaves lookups of `key`
/// unchanged.
pub proof fn lemma_obj_get_remove(s: Seq<(String, Value)>, i: int, key: Seq<char>)
    requires
        0 <= i < s.len(),
        s[i].0@ != key,
    ensures
        spec_obj_get(s.remove(i), key) == spec_obj_get(s, key),
    decreases i,
{
    if i == 0 {
        assert(s.remove(0) =~= s.drop_first());
    } else {
        assert(s.remove(i).drop_first() =~= s.drop_first().remove(i - 1));
        lemma_obj_get_remove(s.drop_first(), i - 1, key);
        assert(s.remove(i)[0] == s[0]);
    }
}

/// Look a key up in an object's entry list; first match wins.
pub fn obj_lookup<'a>(entries: &'a Vec<(String, Value)>, key: &String) -> (r: Option<&'a Value>)
    ensures
        match r {
            Some(v) => spec_obj_get(entries@, key@) == Some(*v),
            None => spec_obj_get(entries@, key@) is None,
        },
{
    let n = entries.len();
    for i in 0..n
        invariant
            n == entries.len(),
            forall|j: int| 0 <= j < i ==> entries@[j].0@ != key@,
    {
        if entries[i].0 == *key {
            proof {
                lemma_obj_get_found(entries@, key@, i as int);
            }
            return Some(&entries[i].1);
        }
    }
    proof {
        lemma_obj_get_absent(entries@, key@);
    }
    None
}

impl Value {
    /// Whether the value is an object with no entries: such a component
    /// payload is shown as a bare label, with nothing to expand.
    pub fn is_empty_object(&self) -> (r: bool)
        ensures
            r == self.spec_is_empty_object(),
    {
        match self {
            Value::Obj(entries) => entries.len() == 0,
            _ => false,
        }
    }

    pub open spec fn spec_is_empty_object(self) -> bool {
        self is Obj && self->Obj_0@.len() == 0
    }
}

} // verus!
