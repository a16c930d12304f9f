//! Strict decoding of success payloads into the shapes the inspector
//! requests: a list of component type names, and a sequence of query rows.
//!
//! Decoding is all-or-nothing: a payload that does not match the requested
//! shape exactly is a decode error, with no partial result.

use vstd::prelude::*;

use crate::error::{ClientError, ErrorModel};
use crate::value::{obj_lookup, spec_obj_get, Value};

verus! {

/// One row of a query result: an entity, the bag of component values
/// attached to it, and the secondary presence ("has") checks.
#[derive(Debug, PartialEq, Eq)]
pub struct QueryRow {
    /// The entity's 64-bit identifier.
    pub entity: u64,
    /// Component type name to fully-serialized component value.
    pub components: Vec<(String, Value)>,
    /// Component type name to containment-check value; empty when the
    /// response carried none.
    pub has: Vec<(String, Value)>,
}

/// Spec-level model of a `QueryRow`, over sequences.
pub struct RowModel {
    pub entity: u64,
    pub components: Seq<(String, Value)>,
    pub has: Seq<(String, Value)>,
}

impl View for QueryRow {
    type V = RowModel;

    open spec fn view(&self) -> RowModel {
        RowModel { entity: self.entity, components: self.components@, has: self.has@ }
    }
}

/// What a well-formed row object decodes to: it must carry an unsigned
/// integer `entity` and an object `components`; `has` is an object when
/// present and defaults to empty. Other members are tolerated and ignored.
pub open spec fn spec_row(x: Value) -> Option<RowModel> {
    match x {
        Value::Obj(entries) => {
            match spec_obj_get(entries@, "entity"@) {
                Some(Value::UInt(id)) => match spec_obj_get(entries@, "components"@) {
                    Some(Value::Obj(comps)) => match spec_obj_get(entries@, "has"@) {
                        None => Some(
                            RowModel {
                                entity: id,
                                components: comps@,
                                has: Seq::<(String, Value)>::empty(),
                            },
                        ),
                        Some(Value::Obj(hs)) => Some(
                            RowModel { entity: id, components: comps@, has: hs@ },
                        ),
                        Some(_) => None,
                    },
                    _ => None,
                },
                _ => None,
            }
        },
        _ => None,
    }
}

/// What a query response payload decodes to: an array whose every element
/// is a well-formed row object, in order; anything else is no decode.
pub open spec fn spec_rows(v: Value) -> Option<Seq<RowModel>> {
    match v {
        Value::Arr(items) => {
            if forall|i: int| 0 <= i < items@.len() ==> (#[trigger] spec_row(items@[i])) is Some {
                Some(Seq::new(items@.len(), |i: int| spec_row(items@[i]).unwrap()))
            } else {
                None
            }
        },
        _ => None,
    }
}

/// What a discovery response payload decodes to: an array of strings.
pub open spec fn spec_type_list(v: Value) -> Option<Seq<String>> {
    match v {
        Value::Arr(items) => {
            if forall|i: int| 0 <= i < items@.len() ==> (#[trigger] items@[i]) is Str {
                Some(Seq::new(items@.len(), |i: int| items@[i]->Str_0))
            } else {
                None
            }
        },
        _ => None,
    }
}

/// Decode a discovery payload into the list of component type names.
#[verifier::loop_isolation(false)]
pub fn decode_type_list(v: Value) -> (r: Result<Vec<String>, ClientError>)
    ensures
        match r {
            Ok(names) => spec_type_list(v) == Some(names@),
            Err(e) => {
                &&& spec_type_list(v) is None
                &&& e@ == ErrorModel::Decode("expected an array of component type names"@)
            },
        },
{
    let items = match v {
        Value::Arr(items) => items,
        _ => {
            return Err(
                ClientError::Decode("expected an array of component type names".to_owned()),
            );
        },
    };
    let ghost orig = items@;
    let mut items = items;
    let mut names: Vec<String> = Vec::new();
    while items.len() > 0
        invariant
            names@.len() + items@.len() == orig.len(),
            items@ == orig.subrange(names@.len() as int, orig.len() as int),
            forall|j: int|
                0 <= j < names@.len() ==> (#[trigger] orig[j]) is Str && names@[j]
                    == orig[j]->Str_0,
        decreases items@.len(),
    {
        let ghost k = names@.len() as int;
        let x = items.remove(0);
        proof {
            assert(x == orig[k]);
        }
        match x {
            Value::Str(s) => names.push(s),
            _ => {
                return Err(
                    ClientError::Decode("expected an array of component type names".to_owned()),
                );
            },
        }
        proof {
            assert(items@ =~= orig.subrange(names@.len() as int, orig.len() as int));
        }
    }
    proof {
        assert(names@ =~= spec_type_list(v).unwrap());
    }
    Ok(names)
}

/// Decode one row object. The error text is shared with `decode_rows`.
fn decode_row(x: Value) -> (r: Result<QueryRow, ClientError>)
    ensures
        match r {
            Ok(q) => spec_row(x) == Some(q@),
            Err(e) => {
                &&& spec_row(x) is None
                &&& e@ == ErrorModel::Decode("expected an array of query rows"@)
            },
        },
{
    let mut entries = match x {
        Value::Obj(entries) => entries,
        _ => {
            return Err(ClientError::Decode("expected an array of query rows".to_owned()));
        },
    };
    let ghost orig = entries@;
    let entity: u64 = match obj_lookup(&entries, &"entity".to_owned()) {
        Some(Value::UInt(id)) => *id,
        _ => {
            return Err(ClientError::Decode("expected an array of query rows".to_owned()));
        },
    };
    let components = match crate::codec::obj_extract(&mut entries, &"components".to_owned()) {
        Some(Value::Obj(comps)) => comps,
        _ => {
            return Err(ClientError::Decode("expected an array of query rows".to_owned()));
        },
    };
    proof {
        reveal_strlit("components");
        reveal_strlit("has");
        assert("components"@.len() != "has"@.len());
        assert(spec_obj_get(entries@, "has"@) == spec_obj_get(orig, "has"@));
    }
    match crate::codec::obj_extract(&mut entries, &"has".to_owned()) {
        Some(Value::Obj(hs)) => Ok(QueryRow { entity, components, has: hs }),
        Some(_) => Err(ClientError::Decode("expected an array of query rows".to_owned())),
        None => Ok(QueryRow { entity, components, has: Vec::new() }),
    }
}

/// Decode a query payload into its rows, strictly and in order.
#[verifier::loop_isolation(false)]
pub fn decode_rows(v: Value) -> (r: Result<Vec<QueryRow>, ClientError>)
    ensures
        match r {
            Ok(rows) => spec_rows(v) == Some(rows@.map_values(|q: QueryRow| q@)),
            Err(e) => {
                &&& spec_rows(v) is None
                &&& e@ == ErrorModel::Decode("expected an array of query rows"@)
            },
        },
{
    let items = match v {
        Value::Arr(items) => items,
        _ => {
            return Err(ClientError::Decode("expected an array of query rows".to_owned()));
        },
    };
    let ghost orig = items@;
    let mut items = items;
    let mut rows: Vec<QueryRow> = Vec::new();
    while items.len() > 0
        invariant
            rows@.len() + items@.len() == orig.len(),
            items@ == orig.subrange(rows@.len() as int, orig.len() as int),
            forall|j: int|
                0 <= j < rows@.len() ==> (#[trigger] spec_row(orig[j])) is Some && rows@[j]@
                    == spec_row(orig[j]).unwrap(),
        decreases items@.len(),
    {
        let ghost k = rows@.len() as int;
        let x = items.remove(0);
        proof {
            assert(x == orig[k]);
        }
        match decode_row(x) {
            Ok(q) => rows.push(q),
            Err(e) => {
                return Err(e);
            },
        }
        proof {
            assert(items@ =~= orig.subrange(rows@.len() as int, orig.len() as int));
        }
    }
    proof {
        assert(rows@.map_values(|q: QueryRow| q@) =~= spec_rows(v).unwrap());
    }
    Ok(rows)
}

} // verus!
