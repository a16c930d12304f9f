//! Statements the library promises as a whole, each proved once here:
//! fetch completions depend on the response alone, decoding is
//! deterministic, roots are exactly the unparented rows, and traversal
//! never shows an entity that is not in the snapshot.

use vstd::prelude::*;

use crate::decode::RowModel;
use crate::error::ErrorModel;
use crate::store::spec_fetch_outcome;
use crate::tree::{
    children_stack, spec_children, spec_is_root, spec_roots, spec_suppressed, spec_walk,
};
use crate::value::Value;

verus! {

/// A successful fetch completion replaces the snapshot with the rows of
/// that one response: two stores with different histories that apply the
/// same response hold the same snapshot afterwards, and repeating the same
/// query against an unchanged remote decodes to identical rows both times.
pub proof fn lemma_fetch_depends_on_response_alone(
    body: Option<Value>,
    rows1: Seq<RowModel>,
    rows2: Seq<RowModel>,
)
    requires
        spec_fetch_outcome(body) == Ok::<Seq<RowModel>, ErrorModel>(rows1),
        spec_fetch_outcome(body) == Ok::<Seq<RowModel>, ErrorModel>(rows2),
    ensures
        rows1 == rows2,
{
}

/// The roots of a snapshot are exactly the entities of rows without a
/// parent back-reference: an entity with one — however it is referenced in
/// children arrays — is never a root, and a row without one always is.
pub proof fn lemma_roots_membership(rows: Seq<RowModel>, e: u64)
    ensures
        spec_roots(rows).contains(e) <==> exists|i: int|
            0 <= i < rows.len() && (#[trigger] rows[i]).entity == e && spec_is_root(rows[i]),
    decreases rows.len(),
{
    if rows.len() > 0 {
        let tail = rows.drop_first();
        lemma_roots_membership(tail, e);
        let whole = spec_roots(rows);
        let rest = spec_roots(tail);
        if spec_roots(rows).contains(e) {
            if spec_is_root(rows[0]) && rows[0].entity == e {
                assert(rows[0].entity == e && spec_is_root(rows[0]));
            } else {
                let k = choose|k: int| 0 <= k < whole.len() && whole[k] == e;
                if spec_is_root(rows[0]) {
                    assert(whole[k] == (seq![rows[0].entity] + rest)[k]);
                    assert(rest.contains(e)) by {
                        assert(rest[k - 1] == e);
                    }
                } else {
                    assert(rest.contains(e)) by {
                        assert(rest[k] == e);
                    }
                }
                let i = choose|i: int|
                    0 <= i < tail.len() && (#[trigger] tail[i]).entity == e && spec_is_root(
                        tail[i],
                    );
                assert(rows[i + 1].entity == e && spec_is_root(rows[i + 1]));
            }
        }
        if exists|i: int|
            0 <= i < rows.len() && (#[trigger] rows[i]).entity == e && spec_is_root(rows[i]) {
            let i = choose|i: int|
                0 <= i < rows.len() && (#[trigger] rows[i]).entity == e && spec_is_root(rows[i]);
            if i == 0 {
                assert(whole[0] == e);
            } else {
                assert(tail[i - 1].entity == e && spec_is_root(tail[i - 1]));
                assert(rest.contains(e));
                let k = choose|k: int| 0 <= k < rest.len() && rest[k] == e;
                if spec_is_root(rows[0]) {
                    assert(whole[k + 1] == e);
                } else {
                    assert(whole[k] == e);
                }
            }
            assert(whole.contains(e));
        }
    }
}

/// Traversal shows only entities that are in the snapshot: a children
/// array entry whose identifier is absent from the snapshot is omitted,
/// never an error.
pub proof fn lemma_walk_within_snapshot(
    m: Map<u64, RowModel>,
    stack: Seq<(u64, Option<u64>)>,
    visited: Set<u64>,
    skip_empty: bool,
)
    requires
        m.dom().finite(),
        visited.finite(),
    ensures
        forall|i: int|
            0 <= i < spec_walk(m, stack, visited, skip_empty).len() ==> m.dom().contains(
                (#[trigger] spec_walk(m, stack, visited, skip_empty)[i]).0,
            ),
    decreases m.dom().difference(visited).len(), stack.len(),
{
    if stack.len() > 0 {
        let top = stack.last();
        let rest = stack.drop_last();
        let e = top.0;
        if !m.dom().contains(e) || visited.contains(e) {
            lemma_walk_within_snapshot(m, rest, visited, skip_empty);
            assert forall|i: int|
                0 <= i < spec_walk(m, stack, visited, skip_empty).len() implies m.dom().contains(
                (#[trigger] spec_walk(m, stack, visited, skip_empty)[i]).0,
            ) by {
                assert(spec_walk(m, stack, visited, skip_empty)[i] == spec_walk(
                    m,
                    rest,
                    visited,
                    skip_empty,
                )[i]);
            }
        } else if spec_suppressed(m[e], skip_empty) {
            m.dom().lemma_set_insert_diff_decreases(visited, e);
            lemma_walk_within_snapshot(m, rest, visited.insert(e), skip_empty);
            assert forall|i: int|
                0 <= i < spec_walk(m, stack, visited, skip_empty).len() implies m.dom().contains(
                (#[trigger] spec_walk(m, stack, visited, skip_empty)[i]).0,
            ) by {
                assert(spec_walk(m, stack, visited, skip_empty)[i] == spec_walk(
                    m,
                    rest,
                    visited.insert(e),
                    skip_empty,
                )[i]);
            }
        } else {
            m.dom().lemma_set_insert_diff_decreases(visited, e);
            let deeper = rest + children_stack(spec_children(m[e]), e);
            lemma_walk_within_snapshot(m, deeper, visited.insert(e), skip_empty);
            let whole = spec_walk(m, stack, visited, skip_empty);
            let sub = spec_walk(m, deeper, visited.insert(e), skip_empty);
            assert(whole == seq![top] + sub);
            assert(whole.len() == 1 + sub.len());
            assert forall|i: int| 0 <= i < whole.len() implies m.dom().contains(
                (#[trigger] whole[i]).0,
            ) by {
                if i > 0 {
                    assert(0 <= i - 1 < sub.len());
                    assert(whole[i] == sub[i - 1]);
                    assert(m.dom().contains(sub[i - 1].0));
                } else {
                    assert(whole[0] == top);
                }
            }
        }
    }
}

/// A discovery that returns no component types at all still decodes
/// successfully, to the empty name list — it yields a usable, trivial
/// query descriptor, not a failure.
pub proof fn lemma_empty_discovery_is_usable(v: Value)
    requires
        v is Arr,
        v->Arr_0@.len() == 0,
    ensures
        crate::decode::spec_type_list(v) == Some(Seq::<String>::empty()),
{
    assert(crate::decode::spec_type_list(v).unwrap() =~= Seq::<String>::empty());
}

} // verus!
