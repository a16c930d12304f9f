//! Protocol codec: builds request envelopes with a monotonically increasing
//! request identifier, and classifies response envelopes into a success
//! payload or a typed error.
//!
//! Envelope shape, requests: `{jsonrpc: "2.0", method, id, params?}`.
//! Responses: `{jsonrpc: "2.0", id, result}` on success, or
//! `{jsonrpc: "2.0", id, error: {code, message, ...}}` on failure.
//! Only single responses are supported; a batch (a top-level array) is a
//! protocol error.

use vstd::prelude::*;

use crate::error::{res_model, ClientError, ErrorModel};
use crate::value::{obj_lookup, spec_obj_get, Value};

verus! {

/// A request envelope, ready to be serialized and sent.
pub struct Envelope {
    /// The fixed protocol version tag, `"2.0"`.
    pub jsonrpc: String,
    /// The request identifier; unique per codec, never reused.
    pub id: u64,
    /// The remote method name.
    pub method: String,
    /// The method's parameters, if it takes any.
    pub params: Option<Value>,
}

/// Builds request envelopes. Owns the identifier counter: it starts at 1,
/// grows by one per request, and is never reset.
pub struct Codec {
    next_id: u64,
}

impl View for Codec {
    type V = u64;

    closed spec fn view(&self) -> u64 {
        self.next_id
    }
}

impl Codec {
    /// A fresh codec whose first request will carry identifier 1.
    pub fn new() -> (c: Codec)
        ensures
            c@ == 1,
    {
        Codec { next_id: 1 }
    }

    /// The identifier the next request will carry. Callers that cannot see
    /// the ghost counter test this before building a request.
    pub fn next_id(&self) -> (n: u64)
        ensures
            n == self@,
    {
        self.next_id
    }

    /// Build a request envelope for `method`, consuming one identifier.
    pub fn create_request(&mut self, method: String, params: Option<Value>) -> (e: Envelope)
        requires
            old(self)@ < u64::MAX,
        ensures
            final(self)@ == old(self)@ + 1,
            e.id == old(self)@,
            e.method == method,
            e.params == params,
            e.jsonrpc@ == "2.0"@,
    {
        let id = self.next_id;
        self.next_id = self.next_id + 1;
        Envelope { jsonrpc: "2.0".to_owned(), id, method, params }
    }
}

/// The method name of the "list all component types" remote operation.
pub fn list_method() -> (s: String)
    ensures
        s@ == "bevy/list"@,
{
    "bevy/list".to_owned()
}

/// The method name of the "query entities" remote operation.
pub fn query_method() -> (s: String)
    ensures
        s@ == "bevy/query"@,
{
    "bevy/query".to_owned()
}

/// The method name of the "destroy entity" remote operation.
pub fn destroy_method() -> (s: String)
    ensures
        s@ == "bevy/destroy"@,
{
    "bevy/destroy".to_owned()
}

/// The error code carried by a remote error object: a signed 64-bit value,
/// whether the wire carried it as a negative or a non-negative number.
pub open spec fn spec_error_code(v: Value) -> Option<int> {
    match v {
        Value::Int(i) => Some(i as int),
        Value::UInt(u) => if u <= i64::MAX {
            Some(u as int)
        } else {
            None
        },
        _ => None,
    }
}

/// What a remote error envelope's `error` member yields: the remote error
/// when it is an object with an integer `code` and a string `message`, and
/// a protocol error otherwise.
pub open spec fn spec_remote_error(v: Value) -> ErrorModel {
    match v {
        Value::Obj(entries) => {
            let code = spec_obj_get(entries@, "code"@);
            let message = spec_obj_get(entries@, "message"@);
            match (code, message) {
                (Some(c), Some(Value::Str(m))) => match spec_error_code(c) {
                    Some(ci) => ErrorModel::Remote { code: ci, message: m@ },
                    None => ErrorModel::Protocol("malformed error object"@),
                },
                _ => ErrorModel::Protocol("malformed error object"@),
            }
        },
        _ => ErrorModel::Protocol("malformed error object"@),
    }
}

/// Envelope classification. `body` is the response document, or `None`
/// where the raw response was not valid JSON at all.
pub open spec fn spec_parse(body: Option<Value>) -> Result<Value, ErrorModel> {
    match body {
        None => Err(ErrorModel::Protocol("the response is not a JSON document"@)),
        Some(v) => match v {
            Value::Arr(_) => Err(ErrorModel::Protocol("batch responses are not supported"@)),
            Value::Obj(entries) => {
                let tag = spec_obj_get(entries@, "jsonrpc"@);
                if !(tag matches Some(Value::Str(t)) && t@ == "2.0"@) {
                    Err(ErrorModel::Protocol("missing or wrong jsonrpc version tag"@))
                } else if spec_obj_get(entries@, "id"@) is None {
                    Err(ErrorModel::Protocol("missing envelope id"@))
                } else {
                    match spec_obj_get(entries@, "result"@) {
                        Some(res) => Ok(res),
                        None => match spec_obj_get(entries@, "error"@) {
                            Some(e) => Err(spec_remote_error(e)),
                            None => Err(
                                ErrorModel::Protocol("envelope carries neither result nor error"@),
                            ),
                        },
                    }
                }
            },
            _ => Err(ErrorModel::Protocol("the envelope is not a JSON object"@)),
        },
    }
}

/// Take the first entry with key `key` out of an object's entries; lookups
/// of every other key are unaffected.
pub(crate) fn obj_extract(entries: &mut Vec<(String, Value)>, key: &String) -> (r: Option<Value>)
    ensures
        match r {
            Some(v) => spec_obj_get(old(entries)@, key@) == Some(v),
            None => {
                &&& spec_obj_get(old(entries)@, key@) is None
                &&& final(entries)@ == old(entries)@
            },
        },
        forall|k: Seq<char>|
            k != key@ ==> #[trigger] spec_obj_get(final(entries)@, k) == spec_obj_get(
                old(entries)@,
                k,
            ),
{
    let ghost orig = old(entries)@;
    let n = entries.len();
    for i in 0..n
        invariant
            n == entries.len(),
            entries@ == orig,
            orig == old(entries)@,
            forall|j: int| 0 <= j < i ==> orig[j].0@ != key@,
    {
        if entries[i].0 == *key {
            proof {
                crate::value::lemma_obj_get_found(orig, key@, i as int);
            }
            let pair = entries.remove(i);
            proof {
                assert forall|k: Seq<char>|
                    k != key@ implies #[trigger] spec_obj_get(entries@, k) == spec_obj_get(
                    orig,
                    k,
                ) by {
                    crate::value::lemma_obj_get_remove(orig, i as int, k);
                }
            }
            return Some(pair.1);
        }
    }
    proof {
        crate::value::lemma_obj_get_absent(orig, key@);
    }
    None
}

/// Classify a response document: unwrap a single success envelope to its
/// `result` payload, a failure envelope to the remote's error, and anything
/// else (no JSON, a batch, a malformed envelope) to a protocol error.
pub fn parse(body: Option<Value>) -> (r: Result<Value, ClientError>)
    ensures
        res_model(r) == spec_parse(body),
{
    let v = match body {
        None => {
            return Err(
                ClientError::Protocol("the response is not a JSON document".to_owned()),
            );
        },
        Some(v) => v,
    };
    let entries = match v {
        Value::Arr(_) => {
            return Err(ClientError::Protocol("batch responses are not supported".to_owned()));
        },
        Value::Obj(entries) => entries,
        _ => {
            return Err(ClientError::Protocol("the envelope is not a JSON object".to_owned()));
        },
    };
    let tag_ok = match obj_lookup(&entries, &"jsonrpc".to_owned()) {
        Some(Value::Str(t)) => *t == "2.0".to_owned(),
        _ => false,
    };
    if !tag_ok {
        return Err(ClientError::Protocol("missing or wrong jsonrpc version tag".to_owned()));
    }
    if obj_lookup(&entries, &"id".to_owned()).is_none() {
        return Err(ClientError::Protocol("missing envelope id".to_owned()));
    }
    let mut entries = entries;
    match obj_extract(&mut entries, &"result".to_owned()) {
        Some(payload) => Ok(payload),
        None => match obj_lookup(&entries, &"error".to_owned()) {
            Some(e) => Err(remote_error(e)),
            None => Err(
                ClientError::Protocol("envelope carries neither result nor error".to_owned()),
            ),
        },
    }
}

/// Read a failure envelope's `error` member into the remote error it
/// carries, or a protocol error where it is malformed.
fn remote_error(v: &Value) -> (r: ClientError)
    ensures
        r@ == spec_remote_error(*v),
{
    let entries = match v {
        Value::Obj(entries) => entries,
        _ => {
            return ClientError::Protocol("malformed error object".to_owned());
        },
    };
    let code: i64 = match obj_lookup(entries, &"code".to_owned()) {
        Some(Value::Int(i)) => *i,
        Some(Value::UInt(u)) => {
            if *u <= i64::MAX as u64 {
                *u as i64
            } else {
                return ClientError::Protocol("malformed error object".to_owned());
            }
        },
        _ => {
            return ClientError::Protocol("malformed error object".to_owned());
        },
    };
    match obj_lookup(entries, &"message".to_owned()) {
        Some(Value::Str(m)) => ClientError::Remote { code, message: m.clone() },
        _ => ClientError::Protocol("malformed error object".to_owned()),
    }
}

} // verus!
