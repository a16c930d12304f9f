use brp_inspector::codec::Codec;
use brp_inspector::decode::QueryRow;
use brp_inspector::fonts::get_fonts;
use brp_inspector::store::{
    action_request, destroy_request, discovery_request, fetch_request, ActionToDo, DownloadStatus,
    Snapshot, Store, ViewState,
};
use brp_inspector::tree::{render, roots, NameLabel};
use brp_inspector::value::{obj_lookup, Value};

const PARENT: &str = "bevy_hierarchy::components::parent::Parent";
const CHILDREN: &str = "bevy_hierarchy::components::children::Children";
const NAME: &str = "bevy_core::name::Name";

fn kv(key: &str, v: Value) -> (String, Value) {
    (key.to_string(), v)
}

fn success_body(result: Value) -> Option<Value> {
    Some(Value::Obj(vec![
        kv("jsonrpc", Value::Str("2.0".to_string())),
        kv("id", Value::UInt(1)),
        kv("result", result),
    ]))
}

fn row(entity: u64, components: Vec<(String, Value)>) -> QueryRow {
    QueryRow {
        entity,
        components,
        has: vec![],
    }
}

fn row_body(rows: Vec<(u64, Vec<(String, Value)>)>) -> Option<Value> {
    let items = rows
        .into_iter()
        .map(|(e, comps)| {
            Value::Obj(vec![
                kv("entity", Value::UInt(e)),
                kv("components", Value::Obj(comps)),
            ])
        })
        .collect();
    success_body(Value::Arr(items))
}

fn children_list(ids: &[u64]) -> Value {
    Value::Arr(ids.iter().map(|i| Value::UInt(*i)).collect())
}

fn parent_ref(id: u64) -> Value {
    Value::UInt(id)
}

#[test]
fn empty_discovery_yields_usable_descriptor() {
    let mut store = Store::new();
    assert!(store.should_discover());
    store.begin_request();
    assert!(!store.should_discover());
    assert_eq!(store.status, DownloadStatus::InProgress);
    store.complete_discovery(success_body(Value::Arr(vec![])));
    assert_eq!(store.status, DownloadStatus::Done);
    assert!(store.error.is_none());
    let d = store.descriptor.as_ref().unwrap();
    assert!(d.components.is_empty());
    assert!(d.optional.is_empty());
    assert!(d.has.is_empty());
    assert!(store.can_fetch());
}

#[test]
fn discovery_collects_type_names() {
    let mut store = Store::new();
    store.complete_discovery(success_body(Value::Arr(vec![
        Value::Str("a::A".to_string()),
        Value::Str("b::B".to_string()),
    ])));
    let d = store.descriptor.as_ref().unwrap();
    assert_eq!(d.optional, vec!["a::A".to_string(), "b::B".to_string()]);
}

#[test]
fn discovery_failure_leaves_descriptor_unset() {
    let mut store = Store::new();
    store.complete_discovery(success_body(Value::Str("not a list".to_string())));
    assert!(store.descriptor.is_none());
    assert_eq!(
        store.error.as_deref(),
        Some("decode error: expected an array of component type names")
    );
    assert!(store.should_discover());
}

#[test]
fn fetch_success_replaces_snapshot_wholesale() {
    let mut store = Store::new();
    store.complete_fetch(row_body(vec![(1, vec![]), (2, vec![])]));
    assert_eq!(store.snapshot.rows.len(), 2);
    store.complete_fetch(row_body(vec![(3, vec![kv("x::X", Value::Null)])]));
    let rows = &store.snapshot.rows;
    assert_eq!(rows.len(), 1);
    assert_eq!(rows[0].entity, 3);
    assert!(store.snapshot.get(1).is_none());
    assert!(store.snapshot.get(2).is_none());
    assert!(store.snapshot.get(3).is_some());
    assert!(store.error.is_none());
}

#[test]
fn fetch_failure_keeps_previous_snapshot() {
    let mut store = Store::new();
    store.complete_fetch(row_body(vec![(1, vec![])]));
    store.complete_fetch(success_body(Value::Str("garbage".to_string())));
    assert_eq!(store.snapshot.rows, vec![row(1, vec![])]);
    assert_eq!(
        store.error.as_deref(),
        Some("decode error: expected an array of query rows")
    );
    store.complete_fetch(None);
    assert_eq!(store.snapshot.rows, vec![row(1, vec![])]);
    assert_eq!(
        store.error.as_deref(),
        Some("protocol error: the response is not a JSON document")
    );
}

#[test]
fn transport_failure_keeps_previous_snapshot() {
    let mut store = Store::new();
    store.complete_fetch(row_body(vec![(1, vec![])]));
    store.begin_request();
    store.fail_request("connection refused".to_string());
    assert_eq!(store.status, DownloadStatus::Done);
    assert_eq!(store.snapshot.rows, vec![row(1, vec![])]);
    assert_eq!(
        store.error.as_deref(),
        Some("transport error: connection refused")
    );
}

#[test]
fn remote_failure_is_reported_with_code() {
    let mut store = Store::new();
    store.complete_fetch(Some(Value::Obj(vec![
        kv("jsonrpc", Value::Str("2.0".to_string())),
        kv("id", Value::UInt(1)),
        kv(
            "error",
            Value::Obj(vec![
                kv("code", Value::Int(-32601)),
                kv("message", Value::Str("method not found".to_string())),
            ]),
        ),
    ])));
    assert_eq!(
        store.error.as_deref(),
        Some("remote error -32601: method not found")
    );
}

#[test]
fn error_takes_precedence_over_empty_prompt() {
    let mut store = Store::new();
    store.fail_request("boom".to_string());
    assert!(store.snapshot.rows.is_empty());
    match store.view_state() {
        ViewState::Error(m) => assert_eq!(m.as_str(), "transport error: boom"),
        _ => panic!("expected the error view"),
    }
}

#[test]
fn error_takes_precedence_over_populated_view() {
    let mut store = Store::new();
    store.complete_fetch(row_body(vec![(1, vec![])]));
    store.fail_request("late failure".to_string());
    match store.view_state() {
        ViewState::Error(m) => assert_eq!(m.as_str(), "transport error: late failure"),
        _ => panic!("expected the error view"),
    }
}

#[test]
fn view_state_prompts_when_nothing_fetched() {
    let store = Store::new();
    assert!(matches!(store.view_state(), ViewState::Empty));
}

#[test]
fn view_state_shows_snapshot_after_fetch() {
    let mut store = Store::new();
    store.complete_fetch(row_body(vec![(1, vec![])]));
    assert!(matches!(store.view_state(), ViewState::Populated(_)));
}

#[test]
fn destroy_does_not_remove_entity_locally() {
    let mut store = Store::new();
    store.complete_fetch(row_body(vec![(5, vec![])]));
    let mut codec = Codec::new();
    let req = destroy_request(&mut codec, 5);
    assert_eq!(req.method, "bevy/destroy");
    store.begin_request();
    store.complete_destroy();
    assert!(store.snapshot.get(5).is_some());
    assert_eq!(store.status, DownloadStatus::Done);
}

#[test]
fn action_request_builds_destroy_only_for_remove() {
    let mut codec = Codec::new();
    assert!(action_request(&mut codec, &ActionToDo::Nothing, 5).is_none());
    let req = action_request(&mut codec, &ActionToDo::Remove, 5).unwrap();
    assert_eq!(req.id, 1);
    assert_eq!(req.method, "bevy/destroy");
    match req.params.unwrap() {
        Value::Obj(entries) => {
            assert_eq!(entries, vec![kv("entity", Value::UInt(5))]);
        }
        _ => panic!("expected an object"),
    }
}

#[test]
fn request_builders_fill_the_wire_shape() {
    let mut codec = Codec::new();
    let list = discovery_request(&mut codec);
    assert_eq!(list.method, "bevy/list");
    assert_eq!(list.id, 1);
    assert!(list.params.is_none());

    let mut store = Store::new();
    store.complete_discovery(success_body(Value::Arr(vec![Value::Str(
        "a::A".to_string(),
    )])));
    let d = store.descriptor.as_ref().unwrap();
    let query = fetch_request(&mut codec, d);
    assert_eq!(query.method, "bevy/query");
    assert_eq!(query.id, 2);
    let params = match query.params.unwrap() {
        Value::Obj(entries) => entries,
        _ => panic!("expected an object"),
    };
    let data = match obj_lookup(&params, &"data".to_string()).unwrap() {
        Value::Obj(entries) => entries,
        _ => panic!("expected an object"),
    };
    assert_eq!(
        obj_lookup(data, &"option".to_string()),
        Some(&Value::Arr(vec![Value::Str("a::A".to_string())]))
    );
    assert_eq!(
        obj_lookup(data, &"components".to_string()),
        Some(&Value::Arr(vec![]))
    );
    assert_eq!(obj_lookup(data, &"has".to_string()), Some(&Value::Arr(vec![])));
    let filter = match obj_lookup(&params, &"filter".to_string()).unwrap() {
        Value::Obj(entries) => entries,
        _ => panic!("expected an object"),
    };
    assert_eq!(obj_lookup(filter, &"with".to_string()), Some(&Value::Arr(vec![])));
    assert_eq!(
        obj_lookup(filter, &"without".to_string()),
        Some(&Value::Arr(vec![]))
    );
}

#[test]
fn roots_exclude_parented_entities() {
    let snapshot = Snapshot {
        rows: vec![
            row(1, vec![kv(CHILDREN, children_list(&[2, 3]))]),
            row(2, vec![kv(PARENT, parent_ref(1))]),
            row(3, vec![kv(PARENT, parent_ref(1))]),
            row(4, vec![]),
        ],
    };
    assert_eq!(roots(&snapshot), vec![1, 4]);
}

#[test]
fn render_walks_depth_first_with_parents() {
    let snapshot = Snapshot {
        rows: vec![
            row(
                1,
                vec![
                    kv(CHILDREN, children_list(&[2, 4])),
                    kv("x::X", Value::Bool(true)),
                ],
            ),
            row(
                2,
                vec![
                    kv(PARENT, parent_ref(1)),
                    kv(CHILDREN, children_list(&[3])),
                    kv("x::X", Value::Bool(true)),
                ],
            ),
            row(3, vec![kv(PARENT, parent_ref(2)), kv("x::X", Value::Null)]),
            row(4, vec![kv(PARENT, parent_ref(1)), kv("y::Y", Value::Null)]),
        ],
    };
    let nodes = render(&snapshot, false);
    let skeleton: Vec<(u64, Option<u64>)> = nodes.iter().map(|n| (n.entity, n.parent)).collect();
    assert_eq!(
        skeleton,
        vec![(1, None), (2, Some(1)), (3, Some(2)), (4, Some(1))]
    );
}

#[test]
fn dangling_child_reference_is_skipped() {
    let snapshot = Snapshot {
        rows: vec![
            row(1, vec![kv(CHILDREN, children_list(&[2, 999]))]),
            row(2, vec![kv(PARENT, parent_ref(1))]),
        ],
    };
    let nodes = render(&snapshot, false);
    let ids: Vec<u64> = nodes.iter().map(|n| n.entity).collect();
    assert_eq!(ids, vec![1, 2]);
}

#[test]
fn cyclic_children_terminate_and_render_once() {
    let snapshot = Snapshot {
        rows: vec![
            row(1, vec![kv(CHILDREN, children_list(&[2]))]),
            row(
                2,
                vec![kv(PARENT, parent_ref(1)), kv(CHILDREN, children_list(&[1, 2]))],
            ),
        ],
    };
    let nodes = render(&snapshot, false);
    let ids: Vec<u64> = nodes.iter().map(|n| n.entity).collect();
    assert_eq!(ids, vec![1, 2]);
}

#[test]
fn empty_entities_are_suppressed_by_the_filter() {
    let snapshot = Snapshot {
        rows: vec![
            row(1, vec![kv(CHILDREN, children_list(&[2]))]),
            row(2, vec![kv(PARENT, parent_ref(1)), kv(CHILDREN, children_list(&[3]))]),
            row(3, vec![]),
            row(4, vec![]),
        ],
    };
    let with_filter = render(&snapshot, true);
    let ids: Vec<u64> = with_filter.iter().map(|n| n.entity).collect();
    assert_eq!(ids, vec![1, 2]);

    let without_filter = render(&snapshot, false);
    let all_ids: Vec<u64> = without_filter.iter().map(|n| n.entity).collect();
    assert_eq!(all_ids, vec![1, 2, 3, 4]);
}

#[test]
fn suppressed_entity_children_are_not_visited() {
    let snapshot = Snapshot {
        rows: vec![
            row(1, vec![kv(CHILDREN, children_list(&[2]))]),
            row(2, vec![kv(CHILDREN, children_list(&[3]))]),
            row(3, vec![kv("x::X", Value::Null), kv(PARENT, parent_ref(2))]),
        ],
    };
    // In `gated`, entity 2 has an empty component bag, so the filter
    // suppresses it and its subtree alike.
    let gated = Snapshot {
        rows: vec![
            row(1, vec![kv(CHILDREN, children_list(&[2])), kv("x::X", Value::Null)]),
            row(2, vec![]),
            row(3, vec![kv("x::X", Value::Null), kv(PARENT, parent_ref(2))]),
        ],
    };
    let nodes = render(&gated, true);
    let ids: Vec<u64> = nodes.iter().map(|n| n.entity).collect();
    // 2 is suppressed, so 3 is never reached through it; 3 has a parent
    // component, so it is no root either.
    assert_eq!(ids, vec![1]);
    let all = render(&snapshot, true);
    let all_ids: Vec<u64> = all.iter().map(|n| n.entity).collect();
    assert_eq!(all_ids, vec![1, 2, 3]);
}

#[test]
fn name_component_labels_nodes() {
    let snapshot = Snapshot {
        rows: vec![
            row(
                1,
                vec![kv(
                    NAME,
                    Value::Obj(vec![kv("name", Value::Str("Player".to_string()))]),
                )],
            ),
            row(2, vec![kv(NAME, Value::Str("not an object".to_string()))]),
            row(3, vec![kv("x::X", Value::Null)]),
        ],
    };
    let nodes = render(&snapshot, false);
    assert!(matches!(&nodes[0].name, NameLabel::Named(s) if s.as_str() == "Player"));
    assert!(matches!(&nodes[1].name, NameLabel::Fallback));
    assert!(matches!(&nodes[2].name, NameLabel::Absent));
}

#[test]
fn component_dump_excludes_reserved_and_marks_empty_objects() {
    let snapshot = Snapshot {
        rows: vec![row(
            1,
            vec![
                kv(CHILDREN, children_list(&[])),
                kv(PARENT, parent_ref(9)),
                kv("x::Marker", Value::Obj(vec![])),
                kv("y::Data", Value::Obj(vec![kv("f", Value::UInt(3))])),
            ],
        )],
    };
    let nodes = render(&snapshot, false);
    // The row has a parent component, so it is not a root; render from the
    // snapshot without it to see the entries.
    assert!(nodes.is_empty());
    let unparented = Snapshot {
        rows: vec![row(
            1,
            vec![
                kv(CHILDREN, children_list(&[])),
                kv("x::Marker", Value::Obj(vec![])),
                kv("y::Data", Value::Obj(vec![kv("f", Value::UInt(3))])),
            ],
        )],
    };
    let nodes = render(&unparented, false);
    assert_eq!(nodes.len(), 1);
    let entries = &nodes[0].entries;
    assert_eq!(entries.len(), 2);
    assert_eq!(entries[0].key.as_str(), "x::Marker");
    assert!(entries[0].payload.is_none());
    assert_eq!(entries[1].key.as_str(), "y::Data");
    assert_eq!(
        entries[1].payload,
        Some(&Value::Obj(vec![kv("f", Value::UInt(3))]))
    );
}

#[test]
fn non_identifier_children_entries_are_skipped() {
    let snapshot = Snapshot {
        rows: vec![
            row(
                1,
                vec![kv(
                    CHILDREN,
                    Value::Arr(vec![
                        Value::Str("junk".to_string()),
                        Value::UInt(2),
                        Value::Int(-1),
                    ]),
                )],
            ),
            row(2, vec![kv(PARENT, parent_ref(1))]),
        ],
    };
    let nodes = render(&snapshot, false);
    let ids: Vec<u64> = nodes.iter().map(|n| n.entity).collect();
    assert_eq!(ids, vec![1, 2]);
}

#[test]
fn snapshot_lookup_takes_the_last_duplicate() {
    let snapshot = Snapshot {
        rows: vec![
            row(1, vec![kv("a::A", Value::Null)]),
            row(1, vec![kv("b::B", Value::Null)]),
        ],
    };
    let got = snapshot.get(1).unwrap();
    assert_eq!(got.components, vec![kv("b::B", Value::Null)]);
}

#[test]
fn fonts_require_both_faces() {
    assert_eq!(
        get_fonts(Some(vec![1]), Some(vec![2])),
        Some((vec![1], vec![2]))
    );
    assert_eq!(get_fonts(Some(vec![1]), None), None);
    assert_eq!(get_fonts(None, Some(vec![2])), None);
    assert_eq!(get_fonts(None, None), None);
}

#[test]
fn non_array_children_component_yields_no_children() {
    let snapshot = Snapshot {
        rows: vec![
            row(
                1,
                vec![
                    kv(CHILDREN, Value::Str("not an array".to_string())),
                    kv("x::X", Value::Null),
                ],
            ),
            row(2, vec![kv(PARENT, parent_ref(1)), kv("x::X", Value::Null)]),
        ],
    };
    let nodes = render(&snapshot, false);
    let ids: Vec<u64> = nodes.iter().map(|n| n.entity).collect();
    // Entity 2 is parented, so it is no root, and the malformed children
    // component reaches nothing: only the root renders, components intact.
    assert_eq!(ids, vec![1]);
    assert_eq!(nodes[0].entries.len(), 1);
    assert_eq!(nodes[0].entries[0].key.as_str(), "x::X");
}

#[test]
fn name_object_without_name_member_falls_back() {
    let snapshot = Snapshot {
        rows: vec![row(
            1,
            vec![kv(NAME, Value::Obj(vec![kv("hash", Value::UInt(7))]))],
        )],
    };
    let nodes = render(&snapshot, false);
    assert!(matches!(&nodes[0].name, NameLabel::Fallback));
}
