//! Tree reconstruction and the presentation adapter.
//!
//! The snapshot is flat; structure comes from two reserved component type
//! names: a parent back-reference and a children list. Roots are the
//! entities whose component bag carries no parent back-reference. Each
//! entity's children list is an array of raw 64-bit identifiers, looked up
//! back in the snapshot; an identifier that is absent there is silently
//! skipped. Traversal keeps a visited set, so malformed (cyclic)
//! parent/children data cannot make it loop.

use vstd::prelude::*;
use vstd::seq_lib::lemma_seq_contains_after_push;

use crate::decode::{QueryRow, RowModel};
use crate::store::Snapshot;
use crate::value::{obj_lookup, spec_obj_get, Value};

verus! {

/// The reserved parent back-reference component type name.
pub open spec fn parent_key() -> Seq<char> {
    "bevy_hierarchy::components::parent::Parent"@
}

/// The reserved children list component type name.
pub open spec fn children_key() -> Seq<char> {
    "bevy_hierarchy::components::children::Children"@
}

/// The entity name component type name.
pub open spec fn name_key() -> Seq<char> {
    "bevy_core::name::Name"@
}

/// The reserved parent back-reference component type name.
pub fn parent_component() -> (s: String)
    ensures
        s@ == parent_key(),
{
    "bevy_hierarchy::components::parent::Parent".to_owned()
}

/// The reserved children list component type name.
pub fn children_component() -> (s: String)
    ensures
        s@ == children_key(),
{
    "bevy_hierarchy::components::children::Children".to_owned()
}

/// The entity name component type name.
pub fn name_component() -> (s: String)
    ensures
        s@ == name_key(),
{
    "bevy_core::name::Name".to_owned()
}

/// A root is an entity whose component bag has no parent back-reference.
pub open spec fn spec_is_root(m: RowModel) -> bool {
    spec_obj_get(m.components, parent_key()) is None
}

/// The root entities of a row sequence, in row order.
pub open spec fn spec_roots(rows: Seq<RowModel>) -> Seq<u64>
    decreases rows.len(),
{
    if rows.len() == 0 {
        Seq::empty()
    } else {
        let rest = spec_roots(rows.drop_first());
        if spec_is_root(rows[0]) {
            seq![rows[0].entity] + rest
        } else {
            rest
        }
    }
}

proof fn lemma_roots_push(rows: Seq<RowModel>, x: RowModel)
    ensures
        spec_roots(rows.push(x)) == spec_roots(rows) + if spec_is_root(x) {
            seq![x.entity]
        } else {
            Seq::<u64>::empty()
        },
    decreases rows.len(),
{
    reveal_with_fuel(spec_roots, 3);
    let whole = rows.push(x);
    if rows.len() == 0 {
        assert(whole.drop_first() =~= Seq::<RowModel>::empty());
        if spec_is_root(x) {
            assert(spec_roots(whole) =~= spec_roots(rows) + seq![x.entity]);
        } else {
            assert(spec_roots(whole) =~= spec_roots(rows) + Seq::<u64>::empty());
        }
    } else {
        assert(whole.drop_first() =~= rows.drop_first().push(x));
        lemma_roots_push(rows.drop_first(), x);
        if spec_is_root(rows[0]) {
            assert(spec_roots(whole) =~= spec_roots(rows) + if spec_is_root(x) {
                seq![x.entity]
            } else {
                Seq::<u64>::empty()
            });
        } else {
            assert(spec_roots(whole) =~= spec_roots(rows) + if spec_is_root(x) {
                seq![x.entity]
            } else {
                Seq::<u64>::empty()
            });
        }
    }
}

/// The root entities of a snapshot, in row order: exactly those rows whose
/// component bag lacks the parent back-reference.
#[verifier::loop_isolation(false)]
pub fn roots(s: &Snapshot) -> (r: Vec<u64>)
    ensures
        r@ == spec_roots(s.models()),
{
    let mut r: Vec<u64> = Vec::new();
    let key = parent_component();
    let n = s.rows.len();
    for i in 0..n
        invariant
            n == s.rows.len(),
            key@ == parent_key(),
            r@ == spec_roots(s.models().subrange(0, i as int)),
    {
        let ghost prefix = s.models().subrange(0, i as int);
        proof {
            assert(s.models().subrange(0, i + 1) =~= prefix.push(s.models()[i as int]));
            lemma_roots_push(prefix, s.models()[i as int]);
        }
        if obj_lookup(&s.rows[i].components, &key).is_none() {
            r.push(s.rows[i].entity);
            proof {
                assert(r@ =~= spec_roots(s.models().subrange(0, i + 1)));
            }
        } else {
            proof {
                assert(r@ =~= spec_roots(s.models().subrange(0, i + 1)));
            }
        }
    }
    proof {
        assert(s.models().subrange(0, n as int) =~= s.models());
    }
    r
}

/// The unsigned 64-bit identifiers among a children array's items, in
/// order; items of any other shape are skipped.
pub open spec fn spec_u64_items(items: Seq<Value>) -> Seq<u64>
    decreases items.len(),
{
    if items.len() == 0 {
        Seq::empty()
    } else {
        let rest = spec_u64_items(items.drop_first());
        if items[0] is UInt {
            seq![items[0]->UInt_0] + rest
        } else {
            rest
        }
    }
}

proof fn lemma_u64_items_push(items: Seq<Value>, x: Value)
    ensures
        spec_u64_items(items.push(x)) == spec_u64_items(items) + if x is UInt {
            seq![x->UInt_0]
        } else {
            Seq::<u64>::empty()
        },
    decreases items.len(),
{
    reveal_with_fuel(spec_u64_items, 3);
    let whole = items.push(x);
    let tail = if x is UInt {
        seq![x->UInt_0]
    } else {
        Seq::<u64>::empty()
    };
    if items.len() == 0 {
        assert(whole.drop_first() =~= Seq::<Value>::empty());
        assert(spec_u64_items(whole) =~= spec_u64_items(items) + tail);
    } else {
        assert(whole.drop_first() =~= items.drop_first().push(x));
        lemma_u64_items_push(items.drop_first(), x);
        assert(spec_u64_items(whole) =~= spec_u64_items(items) + tail);
    }
}

/// The child identifiers a row names: its children component, when that is
/// an array, read as identifiers. A missing or non-array children
/// component, or a non-identifier array item, contributes nothing.
pub open spec fn spec_children(m: RowModel) -> Seq<u64> {
    match spec_obj_get(m.components, children_key()) {
        Some(Value::Arr(items)) => spec_u64_items(items@),
        _ => Seq::empty(),
    }
}

/// The child identifiers of one row.
#[verifier::loop_isolation(false)]
pub fn children_of(row: &QueryRow) -> (r: Vec<u64>)
    ensures
        r@ == spec_children(row@),
{
    let key = children_component();
    let items = match obj_lookup(&row.components, &key) {
        Some(Value::Arr(items)) => items,
        _ => {
            return Vec::new();
        },
    };
    let mut r: Vec<u64> = Vec::new();
    let n = items.len();
    for i in 0..n
        invariant
            n == items.len(),
            r@ == spec_u64_items(items@.subrange(0, i as int)),
    {
        let ghost prefix = items@.subrange(0, i as int);
        proof {
            assert(items@.subrange(0, i + 1) =~= prefix.push(items@[i as int]));
            lemma_u64_items_push(prefix, items@[i as int]);
        }
        if let Value::UInt(id) = &items[i] {
            r.push(*id);
        }
        proof {
            assert(r@ =~= spec_u64_items(items@.subrange(0, i + 1)));
        }
    }
    proof {
        assert(items@.subrange(0, n as int) =~= items@);
    }
    r
}

/// The display label a row's name component yields.
pub enum NameModel {
    /// No name component: show the identifier alone.
    Absent,
    /// A well-formed name component: show this text.
    Named(Seq<char>),
    /// A name component of an unexpected shape: show the fallback label.
    Fallback,
}

/// What the name component of a row says: `Named` exactly when the
/// component is an object whose `name` member is a string.
pub open spec fn spec_name(m: RowModel) -> NameModel {
    match spec_obj_get(m.components, name_key()) {
        None => NameModel::Absent,
        Some(Value::Obj(entries)) => match spec_obj_get(entries@, "name"@) {
            Some(Value::Str(s)) => NameModel::Named(s@),
            _ => NameModel::Fallback,
        },
        Some(_) => NameModel::Fallback,
    }
}

/// The display label of an entity, borrowed from its row.
pub enum NameLabel<'a> {
    /// No name component.
    Absent,
    /// The name component's text.
    Named(&'a String),
    /// The name component exists but has an unexpected shape.
    Fallback,
}

/// Whether an executable label agrees with the spec-level one.
pub open spec fn name_matches(l: NameLabel, nm: NameModel) -> bool {
    match l {
        NameLabel::Absent => nm is Absent,
        NameLabel::Named(s) => nm == NameModel::Named(s@),
        NameLabel::Fallback => nm is Fallback,
    }
}

/// Read the display label of one row.
pub fn name_of(row: &QueryRow) -> (l: NameLabel)
    ensures
        name_matches(l, spec_name(row@)),
{
    let key = name_component();
    match obj_lookup(&row.components, &key) {
        None => NameLabel::Absent,
        Some(Value::Obj(entries)) => match obj_lookup(entries, &"name".to_owned()) {
            Some(Value::Str(s)) => NameLabel::Named(s),
            _ => NameLabel::Fallback,
        },
        Some(_) => NameLabel::Fallback,
    }
}

/// One line of the generic component dump: the component's type name, and
/// its payload — `None` where the payload is an empty object, which is
/// rendered as a bare label with nothing to expand.
pub struct ComponentEntry<'a> {
    /// The component type name.
    pub key: &'a String,
    /// The payload to expand, or `None` for a bare label.
    pub payload: Option<&'a Value>,
}

/// The dump lines a component bag yields: every component in bag order,
/// the two reserved hierarchy components excluded; an empty-object payload
/// becomes `None`.
pub open spec fn spec_entries(comps: Seq<(String, Value)>) -> Seq<(Seq<char>, Option<Value>)>
    decreases comps.len(),
{
    if comps.len() == 0 {
        Seq::empty()
    } else {
        let rest = spec_entries(comps.drop_first());
        let head = comps[0];
        if head.0@ == parent_key() || head.0@ == children_key() {
            rest
        } else {
            seq![
                (
                    head.0@,
                    if head.1.spec_is_empty_object() {
                        None
                    } else {
                        Some(head.1)
                    },
                ),
            ] + rest
        }
    }
}

proof fn lemma_entries_push(comps: Seq<(String, Value)>, x: (String, Value))
    ensures
        spec_entries(comps.push(x)) == spec_entries(comps) + if x.0@ == parent_key() || x.0@
            == children_key() {
            Seq::<(Seq<char>, Option<Value>)>::empty()
        } else {
            seq![
                (
                    x.0@,
                    if x.1.spec_is_empty_object() {
                        None
                    } else {
                        Some(x.1)
                    },
                ),
            ]
        },
    decreases comps.len(),
{
    reveal_with_fuel(spec_entries, 3);
    let whole = comps.push(x);
    let tail = if x.0@ == parent_key() || x.0@ == children_key() {
        Seq::<(Seq<char>, Option<Value>)>::empty()
    } else {
        seq![
            (
                x.0@,
                if x.1.spec_is_empty_object() {
                    None
                } else {
                    Some(x.1)
                },
            ),
        ]
    };
    if comps.len() == 0 {
        assert(whole.drop_first() =~= Seq::<(String, Value)>::empty());
        assert(spec_entries(whole) =~= spec_entries(comps) + tail);
    } else {
        assert(whole.drop_first() =~= comps.drop_first().push(x));
        lemma_entries_push(comps.drop_first(), x);
        assert(spec_entries(whole) =~= spec_entries(comps) + tail);
    }
}

/// Whether executable dump lines agree with the spec-level ones.
pub open spec fn entries_match(es: Seq<ComponentEntry>, sp: Seq<(Seq<char>, Option<Value>)>) -> bool {
    &&& es.len() == sp.len()
    &&& forall|i: int|
        0 <= i < es.len() ==> (#[trigger] es[i]).key@ == sp[i].0 && (match sp[i].1 {
            None => es[i].payload is None,
            Some(v) => es[i].payload matches Some(p) && *p == v,
        })
}

/// The generic component dump of one row: every component except the two
/// reserved hierarchy ones, in bag order, with empty objects as bare
/// labels.
#[verifier::loop_isolation(false)]
pub fn entries_of(row: &QueryRow) -> (r: Vec<ComponentEntry>)
    ensures
        entries_match(r@, spec_entries(row@.components)),
{
    let pkey = parent_component();
    let ckey = children_component();
    let mut r: Vec<ComponentEntry> = Vec::new();
    let n = row.components.len();
    for i in 0..n
        invariant
            n == row.components.len(),
            pkey@ == parent_key(),
            ckey@ == children_key(),
            entries_match(r@, spec_entries(row.components@.subrange(0, i as int))),
    {
        let ghost prefix = row.components@.subrange(0, i as int);
        proof {
            assert(row.components@.subrange(0, i + 1) =~= prefix.push(row.components@[i as int]));
            lemma_entries_push(prefix, row.components@[i as int]);
        }
        let pair = &row.components[i];
        if !(pair.0 == pkey) && !(pair.0 == ckey) {
            let payload = if pair.1.is_empty_object() {
                None
            } else {
                Some(&pair.1)
            };
            r.push(ComponentEntry { key: &pair.0, payload });
        }
    }
    proof {
        assert(row.components@.subrange(0, n as int) =~= row.components@);
    }
    r
}

/// The worklist made of a children list: pushed in reverse, so the first
/// child is popped, and so visited, first. Each carries its parent.
pub open spec fn children_stack(cs: Seq<u64>, parent: u64) -> Seq<(u64, Option<u64>)> {
    cs.map_values(|c: u64| (c, Some(parent))).reverse()
}

/// The initial worklist: the roots, in row order, with no parent.
pub open spec fn roots_stack(rows: Seq<RowModel>) -> Seq<(u64, Option<u64>)> {
    spec_roots(rows).map_values(|e: u64| (e, None::<u64>)).reverse()
}

/// Whether the display filter suppresses a row: the filter is on and the
/// row's component bag is empty. A suppressed entity is neither rendered
/// nor descended into.
pub open spec fn spec_suppressed(m: RowModel, skip_empty: bool) -> bool {
    skip_empty && m.components.len() == 0
}

/// The depth-first pre-order skeleton of the forest: each element is one
/// rendered entity with the entity it was reached from. The worklist is a
/// stack, popped from the end. An identifier that is not in the snapshot,
/// or was already visited (a cycle, or two parents naming one child), is
/// skipped silently.
pub open spec fn spec_walk(
    m: Map<u64, RowModel>,
    stack: Seq<(u64, Option<u64>)>,
    visited: Set<u64>,
    skip_empty: bool,
) -> Seq<(u64, Option<u64>)>
    decreases m.dom().difference(visited).len(), stack.len(),
    when m.dom().finite() && visited.finite()
    via spec_walk_decreases
{
    if stack.len() == 0 {
        Seq::empty()
    } else {
        let top = stack.last();
        let rest = stack.drop_last();
        let e = top.0;
        if !m.dom().contains(e) || visited.contains(e) {
            spec_walk(m, rest, visited, skip_empty)
        } else if spec_suppressed(m[e], skip_empty) {
            spec_walk(m, rest, visited.insert(e), skip_empty)
        } else {
            seq![top] + spec_walk(
                m,
                rest + children_stack(spec_children(m[e]), e),
                visited.insert(e),
                skip_empty,
            )
        }
    }
}

#[via_fn]
proof fn spec_walk_decreases(
    m: Map<u64, RowModel>,
    stack: Seq<(u64, Option<u64>)>,
    visited: Set<u64>,
    skip_empty: bool,
) {
    if m.dom().finite() && visited.finite() && stack.len() > 0 {
        let e = stack.last().0;
        if m.dom().contains(e) && !visited.contains(e) {
            m.dom().lemma_set_insert_diff_decreases(visited, e);
        }
    }
}

/// One rendered entity, in depth-first pre-order: who it is, whom it was
/// reached from, its display label, and its component dump lines.
pub struct RenderNode<'a> {
    /// The entity's identifier.
    pub entity: u64,
    /// The entity this node was reached from; `None` for a root.
    pub parent: Option<u64>,
    /// The display label from the name component.
    pub name: NameLabel<'a>,
    /// The generic component dump, reserved components excluded.
    pub entries: Vec<ComponentEntry<'a>>,
}

/// The skeleton a node list spells: entity and parent of each node.
pub open spec fn skels<'a>(ns: Seq<RenderNode<'a>>) -> Seq<(u64, Option<u64>)> {
    ns.map_values(|n: RenderNode<'a>| (n.entity, n.parent))
}

/// Whether one node faithfully shows its row in the snapshot mapping.
pub open spec fn node_matches<'a>(n: RenderNode<'a>, m: Map<u64, RowModel>) -> bool {
    &&& m.dom().contains(n.entity)
    &&& name_matches(n.name, spec_name(m[n.entity]))
    &&& entries_match(n.entries@, spec_entries(m[n.entity].components))
}

/// Linear membership scan.
fn contains_u64(v: &Vec<u64>, x: u64) -> (r: bool)
    ensures
        r == v@.contains(x),
{
    let n = v.len();
    for i in 0..n
        invariant
            n == v.len(),
            forall|j: int| 0 <= j < i ==> v@[j] != x,
    {
        if v[i] == x {
            return true;
        }
    }
    proof {
        assert(!v@.contains(x));
    }
    false
}

/// Render the snapshot as a forest, flattened in depth-first pre-order.
///
/// The order and extent of the output are exactly `spec_walk` from the
/// roots: every entity at most once, dangling child references skipped,
/// suppressed entities (empty bag, filter on) neither shown nor descended
/// into. Each node shows its row faithfully.
#[verifier::loop_isolation(false)]
pub fn render<'a>(s: &'a Snapshot, skip_empty: bool) -> (out: Vec<RenderNode<'a>>)
    ensures
        skels(out@) == spec_walk(s@, roots_stack(s.models()), Set::empty(), skip_empty),
        forall|i: int| 0 <= i < out@.len() ==> node_matches(#[trigger] out@[i], s@),
{
    broadcast use lemma_seq_contains_after_push;

    proof {
        crate::store::lemma_map_of_finite(s.models());
    }
    let ghost m = s@;
    let rs = roots(s);
    let mut stack: Vec<(u64, Option<u64>)> = Vec::new();
    let mut i = rs.len();
    while i > 0
        invariant
            i <= rs.len(),
            stack@.len() == rs@.len() - i,
            forall|t: int|
                0 <= t < stack@.len() ==> stack@[t] == (rs@[rs@.len() - 1 - t], None::<u64>),
        decreases i,
    {
        i = i - 1;
        stack.push((rs[i], None));
    }
    proof {
        assert(stack@ =~= roots_stack(s.models()));
    }
    let ghost skel_full = spec_walk(m, stack@, Set::empty(), skip_empty);
    let mut visited: Vec<u64> = Vec::new();
    let ghost mut vset: Set<u64> = Set::empty();
    let mut out: Vec<RenderNode<'a>> = Vec::new();
    while stack.len() > 0
        invariant
            vset.finite(),
            forall|x: u64| vset.contains(x) == visited@.contains(x),
            skels(out@) + spec_walk(m, stack@, vset, skip_empty) == skel_full,
            forall|t: int| 0 <= t < out@.len() ==> node_matches(#[trigger] out@[t], m),
        decreases m.dom().difference(vset).len(), stack@.len(),
    {
        let ghost pre = stack@;
        let ghost out_pre = skels(out@);
        let top = match stack.pop() {
            Some(top) => top,
            None => {
                proof {
                    assert(false);
                }
                (0, None)
            },
        };
        let e = top.0;
        proof {
            assert(pre.last() == top);
            assert(pre.drop_last() == stack@);
        }
        if contains_u64(&visited, e) {
            proof {
                assert(spec_walk(m, pre, vset, skip_empty) == spec_walk(
                    m,
                    stack@,
                    vset,
                    skip_empty,
                ));
            }
        } else {
            match s.get(e) {
                None => {
                    proof {
                        assert(!m.dom().contains(e));
                        assert(spec_walk(m, pre, vset, skip_empty) == spec_walk(
                            m,
                            stack@,
                            vset,
                            skip_empty,
                        ));
                    }
                },
                Some(row) => {
                    proof {
                        assert(m.dom().contains(e));
                        assert(row@ == m[e]);
                    }
                    let ghost vset0 = vset;
                    visited.push(e);
                    proof {
                        vset = vset.insert(e);
                        assert forall|x: u64| vset.contains(x) == visited@.contains(x) by {
                            if x == e {
                                assert(visited@.last() == e);
                                assert(visited@.contains(e));
                            }
                        }
                        m.dom().lemma_set_insert_diff_decreases(vset0, e);
                    }
                    if skip_empty && row.components.len() == 0 {
                        proof {
                            assert(spec_suppressed(m[e], skip_empty));
                            assert(spec_walk(m, pre, vset0, skip_empty) == spec_walk(
                                m,
                                stack@,
                                vset,
                                skip_empty,
                            ));
                        }
                    } else {
                        let cs = children_of(row);
                        let ghost rest = stack@;
                        let mut j = cs.len();
                        while j > 0
                            invariant
                                j <= cs.len(),
                                stack@.len() == rest.len() + cs@.len() - j,
                                forall|t: int| 0 <= t < rest.len() ==> stack@[t] == rest[t],
                                forall|t: int|
                                    rest.len() <= t < stack@.len() ==> #[trigger] stack@[t] == (
                                        cs@[cs@.len() - 1 - (t - rest.len())],
                                        Some(e),
                                    ),
                            decreases j,
                        {
                            j = j - 1;
                            stack.push((cs[j], Some(e)));
                        }
                        proof {
                            assert(stack@ =~= rest + children_stack(spec_children(m[e]), e));
                        }
                        let name = name_of(row);
                        let entries = entries_of(row);
                        out.push(RenderNode { entity: e, parent: top.1, name, entries });
                        proof {
                            assert(!spec_suppressed(m[e], skip_empty));
                            assert(spec_walk(m, pre, vset0, skip_empty) == seq![top] + spec_walk(
                                m,
                                stack@,
                                vset,
                                skip_empty,
                            ));
                            assert(skels(out@) =~= out_pre.push(top));
                            assert(skels(out@) + spec_walk(m, stack@, vset, skip_empty) =~= (
                            out_pre + spec_walk(m, pre, vset0, skip_empty)));
                        }
                    }
                },
            }
        }
    }
    proof {
        assert(stack@.len() == 0);
        assert(spec_walk(m, stack@, vset, skip_empty) == Seq::<(u64, Option<u64>)>::empty());
        assert(skels(out@) =~= skel_full);
    }
    out
}

} // verus!
