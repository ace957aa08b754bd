use graph_runtime::document::NodeId;
use graph_runtime::executor::NodeGraphExecutor;
use graph_runtime::state::DocumentSnapshot;
use graph_runtime::instrument::{downcast, introspect, monitor_identifier, same_path, tap_node, InstrumentError, Instrumented, Recorded};
use graph_runtime::messages::GraphRuntimeRequest;
use graph_runtime::network::{copy_inputs, copy_path, CallArgument, DocumentNode, DocumentNodeImplementation, InputValue, NodeInput, NodeNetwork, ProtoNodeIdentifier};
use graph_runtime::render::{RenderMode, Scalar, Transform, Vector2};

const MONITOR: &str = "graphene_core::memo::MonitorNode";

fn proto(name: &str, inputs: Vec<NodeInput>) -> DocumentNode {
    DocumentNode {
        inputs,
        implementation: DocumentNodeImplementation::ProtoNode(ProtoNodeIdentifier { name: name.to_string() }),
        call_argument: CallArgument::Context,
        skip_deduplication: false,
    }
}

fn from_node(id: u64) -> NodeInput {
    NodeInput::Node { node_id: NodeId(id), output_index: 0 }
}

fn constant(token: u64) -> NodeInput {
    NodeInput::Value { value: InputValue::Opaque(token), exposed: false }
}

fn path(ids: &[u64]) -> Vec<NodeId> {
    ids.iter().map(|id| NodeId(*id)).collect()
}

fn inner() -> NodeNetwork {
    NodeNetwork {
        exports: vec![from_node(1)],
        nodes: vec![(NodeId(1), proto("math::Add", vec![NodeInput::Import { import_index: 0 }, NodeInput::Scope("x".to_string())]))],
    }
}

fn graph() -> NodeNetwork {
    NodeNetwork {
        exports: vec![from_node(5)],
        nodes: vec![
            (NodeId(1), proto("math::Add", vec![constant(7), from_node(2)])),
            (NodeId(2), proto("gen::Double", vec![constant(20)])),
            (
                NodeId(5),
                DocumentNode {
                    inputs: vec![from_node(1)],
                    implementation: DocumentNodeImplementation::Network(inner()),
                    call_argument: CallArgument::Context,
                    skip_deduplication: false,
                },
            ),
        ],
    }
}

fn monitor(source: NodeInput) -> DocumentNode {
    DocumentNode {
        inputs: vec![source],
        implementation: DocumentNodeImplementation::ProtoNode(ProtoNodeIdentifier { name: MONITOR.to_string() }),
        call_argument: CallArgument::Generic,
        skip_deduplication: true,
    }
}

fn evaluate(network: &NodeNetwork, input: &NodeInput, imports: &[i64], visited: &mut Vec<(usize, u64)>, depth: usize) -> i64 {
    match input {
        NodeInput::Value { value: InputValue::Opaque(token), .. } => *token as i64,
        NodeInput::Value { .. } => -1,
        NodeInput::Import { import_index } => imports.get(*import_index).copied().unwrap_or(-2),
        NodeInput::Scope(name) => name.len() as i64 * 1000,
        NodeInput::Node { node_id, output_index } => {
            let Some((_, node)) = network.nodes.iter().find(|(id, _)| id == node_id) else { return -3 };
            visited.push((depth, node_id.0));
            let arguments: Vec<i64> = node.inputs.iter().map(|input| evaluate(network, input, imports, visited, depth)).collect();
            match &node.implementation {
                DocumentNodeImplementation::ProtoNode(identifier) => match identifier.name.as_str() {
                    MONITOR => arguments[0],
                    "math::Add" => arguments.iter().sum(),
                    "gen::Double" => arguments[0] * 2,
                    _ => -4,
                },
                DocumentNodeImplementation::Network(nested) => evaluate(nested, &nested.exports[*output_index], &arguments, visited, depth + 1),
                DocumentNodeImplementation::Extract => -5,
            }
        }
    }
}

#[test]
fn every_input_gets_one_tap_with_the_next_free_id() {
    let mut network = graph();
    let map = Instrumented::new(&mut network).unwrap();
    assert_eq!(map.len(), 4);
    assert_eq!(network.exports, vec![from_node(5)]);

    let mut rewritten_inner = NodeNetwork {
        exports: vec![from_node(1)],
        nodes: vec![(NodeId(1), proto("math::Add", vec![from_node(9), from_node(10)]))],
    };
    rewritten_inner.nodes.push((NodeId(9), monitor(NodeInput::Import { import_index: 0 })));
    rewritten_inner.nodes.push((NodeId(10), monitor(NodeInput::Scope("x".to_string()))));
    let expected = NodeNetwork {
        exports: vec![from_node(5)],
        nodes: vec![
            (NodeId(1), proto("math::Add", vec![from_node(6), from_node(7)])),
            (NodeId(2), proto("gen::Double", vec![from_node(8)])),
            (
                NodeId(5),
                DocumentNode {
                    inputs: vec![from_node(11)],
                    implementation: DocumentNodeImplementation::Network(rewritten_inner),
                    call_argument: CallArgument::Context,
                    skip_deduplication: false,
                },
            ),
            (NodeId(6), monitor(constant(7))),
            (NodeId(7), monitor(from_node(2))),
            (NodeId(8), monitor(constant(20))),
            (NodeId(11), monitor(from_node(1))),
        ],
    };
    assert_eq!(network, expected);
}

#[test]
fn map_leads_from_every_input_to_its_tap() {
    let mut network = graph();
    let map = Instrumented::new(&mut network).unwrap();
    assert_eq!(map.monitor_path(&path(&[1]), 0), Some(&path(&[6])));
    assert_eq!(map.monitor_path(&path(&[1]), 1), Some(&path(&[7])));
    assert_eq!(map.monitor_path(&path(&[2]), 0), Some(&path(&[8])));
    assert_eq!(map.monitor_path(&path(&[5, 1]), 0), Some(&path(&[5, 9])));
    assert_eq!(map.monitor_path(&path(&[5, 1]), 1), Some(&path(&[5, 10])));
    assert_eq!(map.monitor_path(&path(&[1]), 2), None);
    assert_eq!(map.monitor_path(&path(&[5]), 0), Some(&path(&[11])));
    assert_eq!(map.monitor_path(&path(&[5]), 1), None);
    assert_eq!(map.monitor_path(&path(&[3]), 0), None);
    assert_eq!(map.monitor_path(&path(&[]), 0), None);

    assert_eq!(map.monitor_paths("math::Add", 0), vec![&path(&[6]), &path(&[5, 9])]);
    assert_eq!(map.monitor_paths("math::Add", 1), vec![&path(&[7]), &path(&[5, 10])]);
    assert_eq!(map.monitor_paths("gen::Double", 0), vec![&path(&[8])]);
    assert!(map.monitor_paths("gen::Double", 1).is_empty());
    assert!(map.monitor_paths("math::Sub", 0).is_empty());
    assert!(map.monitor_paths(MONITOR, 0).is_empty());
}

#[test]
fn taps_do_not_change_what_the_graph_computes() {
    let plain = graph();
    let mut rewritten = graph();
    Instrumented::new(&mut rewritten).unwrap();
    let mut visited = Vec::new();
    let before = evaluate(&plain, &plain.exports[0], &[], &mut visited, 0);
    let mut visited_after = Vec::new();
    let after = evaluate(&rewritten, &rewritten.exports[0], &[], &mut visited_after, 0);
    assert_eq!(before, (7 + 20 * 2) + 1000);
    assert_eq!(after, before);
    assert_eq!(visited.len(), 4);
    assert_eq!(visited_after.len(), 4 + 6);
}

#[test]
fn graph_without_room_for_taps_is_left_alone() {
    let mut network = NodeNetwork { exports: vec![], nodes: vec![(NodeId(u64::MAX - 1), proto("math::Add", vec![constant(1), constant(2)]))] };
    assert_eq!(Instrumented::new(&mut network), Err(InstrumentError::NoRoom));
    assert_eq!(network, NodeNetwork { exports: vec![], nodes: vec![(NodeId(u64::MAX - 1), proto("math::Add", vec![constant(1), constant(2)]))] });

    let mut dangling = NodeNetwork { exports: vec![from_node(u64::MAX)], nodes: vec![] };
    assert_eq!(Instrumented::new(&mut dangling), Err(InstrumentError::NoRoom));

    let mut fits = NodeNetwork { exports: vec![], nodes: vec![(NodeId(u64::MAX - 3), proto("math::Add", vec![constant(1), constant(2)]))] };
    let map = Instrumented::new(&mut fits).unwrap();
    assert_eq!(map.monitor_path(&path(&[u64::MAX - 3]), 1), Some(&path(&[u64::MAX - 1])));
}

#[test]
fn referenced_ids_are_never_handed_to_taps() {
    let mut network = NodeNetwork { exports: vec![from_node(40)], nodes: vec![(NodeId(1), proto("math::Add", vec![from_node(90)]))] };
    let map = Instrumented::new(&mut network).unwrap();
    assert_eq!(map.monitor_path(&path(&[1]), 0), Some(&path(&[91])));
    assert_eq!(network.nodes[0].1.inputs, vec![from_node(91)]);
    assert_eq!(network.nodes[1], (NodeId(91), monitor(from_node(90))));
}

#[test]
fn empty_graph_has_an_empty_map() {
    let mut network = NodeNetwork { exports: vec![constant(1)], nodes: vec![] };
    let map = Instrumented::new(&mut network).unwrap();
    assert_eq!(map.len(), 0);
    assert_eq!(map, Instrumented::empty());
    assert_eq!(network, NodeNetwork { exports: vec![constant(1)], nodes: vec![] });
}

#[test]
fn recorded_values_are_read_through_the_map() {
    let mut network = graph();
    let map = Instrumented::new(&mut network).unwrap();
    let recordings = vec![
        (path(&[6]), Recorded::Plain(7)),
        (path(&[7]), Recorded::WithFootprint(40)),
        (path(&[5, 9]), Recorded::WithContext(47)),
        (path(&[5, 10]), Recorded::Unknown),
        (path(&[6]), Recorded::Plain(-1)),
    ];
    assert_eq!(map.grab_protonode_input(&path(&[1]), 0, &recordings), Some(&7));
    assert_eq!(map.grab_protonode_input(&path(&[1]), 1, &recordings), Some(&40));
    assert_eq!(map.grab_protonode_input(&path(&[5, 1]), 0, &recordings), Some(&47));
    assert_eq!(map.grab_protonode_input(&path(&[5, 1]), 1, &recordings), None);
    assert_eq!(map.grab_protonode_input(&path(&[2]), 0, &recordings), None);
    assert_eq!(map.grab_protonode_input(&path(&[1]), 9, &recordings), None);

    assert_eq!(map.grab_all_input("math::Add", 0, &recordings), vec![&7, &47]);
    assert_eq!(map.grab_all_input("math::Add", 1, &recordings), vec![&40]);
    assert!(map.grab_all_input("gen::Double", 0, &recordings).is_empty());

    assert_eq!(map.grab_input_from_layer(Some(NodeId(1)), 1, &recordings), Some(&40));
    assert_eq!(map.grab_input_from_layer(Some(NodeId(5)), 0, &recordings), None);
    assert_eq!(map.grab_input_from_layer(None, 0, &recordings), None);
}

#[test]
fn three_shapes_of_record_can_be_retrieved() {
    assert_eq!(downcast(&Recorded::Plain('a')), Some(&'a'));
    assert_eq!(downcast(&Recorded::WithFootprint('b')), Some(&'b'));
    assert_eq!(downcast(&Recorded::WithContext('c')), Some(&'c'));
    assert_eq!(downcast(&Recorded::<char>::Unknown), None);
    let recordings = vec![(path(&[1, 2]), Recorded::Plain('a')), (path(&[1]), Recorded::Unknown)];
    assert_eq!(introspect(&recordings, &path(&[1])), Some(&Recorded::Unknown));
    assert_eq!(introspect(&recordings, &path(&[1, 2])), Some(&Recorded::Plain('a')));
    assert_eq!(introspect(&recordings, &path(&[2])), None);
}

#[test]
fn helpers_copy_and_compare() {
    assert!(same_path(&path(&[1, 2, 3]), &path(&[1, 2, 3])));
    assert!(!same_path(&path(&[1, 2, 3]), &path(&[1, 2])));
    assert!(!same_path(&path(&[1, 2, 3]), &path(&[1, 2, 4])));
    assert!(same_path(&path(&[]), &path(&[])));
    assert_eq!(copy_path(&path(&[4, 5])), path(&[4, 5]));
    let inputs = vec![from_node(3), constant(4), NodeInput::Scope("s".to_string()), NodeInput::Import { import_index: 2 }];
    assert_eq!(copy_inputs(&inputs), inputs);
    assert_eq!(inputs[2].duplicate(), NodeInput::Scope("s".to_string()));
    assert_eq!(monitor_identifier().name, MONITOR);
    assert_eq!(tap_node(constant(4)), monitor(constant(4)));
}

#[test]
fn instrumented_graph_is_sent_and_invalidates_the_cache() {
    let mut executor = NodeGraphExecutor::<u8>::new_with_local_runtime(true);
    let zero = Vector2 { x: Scalar(0), y: Scalar(0) };
    let transform = Transform { x_axis: zero, y_axis: zero, translation: zero };
    let document = DocumentSnapshot { network_hash: 77, network: graph(), document_to_viewport: transform, render_mode: RenderMode::Normal };
    let map = executor.update_node_graph_instrumented(document, 123456).unwrap();
    assert_eq!(map.len(), 4);
    let requests = executor.take_requests();
    assert_eq!(requests.len(), 1);
    match &requests[0] {
        GraphRuntimeRequest::GraphUpdate(update) => {
            assert_eq!(update.node_to_inspect, None);
            assert_eq!(update.network.nodes.len(), 7);
            let mut expected = graph();
            Instrumented::new(&mut expected).unwrap();
            assert_eq!(update.network, expected);
        }
        other => panic!("unexpected request {other:?}"),
    }

    let document = DocumentSnapshot { network_hash: 77, network: graph(), document_to_viewport: transform, render_mode: RenderMode::Normal };
    assert_eq!(executor.update_node_graph(document.network_hash, document.network, None, false), Ok(()));
    assert_eq!(executor.take_requests().len(), 1);

    executor.close_channel();
    let document = DocumentSnapshot { network_hash: 77, network: graph(), document_to_viewport: transform, render_mode: RenderMode::Normal };
    assert_eq!(executor.update_node_graph_instrumented(document, 5), Err("sending on a closed channel".to_string()));
    let crowded = NodeNetwork { exports: vec![], nodes: vec![(NodeId(u64::MAX), proto("math::Add", vec![constant(1)]))] };
    let document = DocumentSnapshot { network_hash: 77, network: crowded, document_to_viewport: transform, render_mode: RenderMode::Normal };
    assert_eq!(executor.update_node_graph_instrumented(document, 5), Err("No node ids are left for the recording taps".to_string()));
}

#[test]
fn distinct_ids_are_checked_at_every_depth() {
    assert!(graph().has_distinct_ids());
    assert!(NodeNetwork { exports: vec![], nodes: vec![] }.has_distinct_ids());
    let mut twice = graph();
    twice.nodes.push((NodeId(2), proto("math::Add", vec![])));
    assert!(!twice.has_distinct_ids());
    let mut deep = inner();
    deep.nodes.push((NodeId(1), proto("gen::Double", vec![])));
    let mut outer = graph();
    outer.nodes[2].1.implementation = DocumentNodeImplementation::Network(deep);
    assert!(!outer.has_distinct_ids());
    let mut rewritten = graph();
    Instrumented::new(&mut rewritten).unwrap();
    assert!(rewritten.has_distinct_ids());
}

#[test]
fn graph_with_a_shared_id_is_refused() {
    let mut twice = graph();
    twice.nodes.push((NodeId(2), proto("math::Add", vec![constant(1)])));
    let mut kept = graph();
    kept.nodes.push((NodeId(2), proto("math::Add", vec![constant(1)])));
    assert_eq!(Instrumented::new(&mut twice), Err(InstrumentError::SharedId));
    assert_eq!(twice, kept);
    assert_eq!(InstrumentError::SharedId.message(), "Two nodes of the graph share an id");
    assert_eq!(InstrumentError::NoRoom.message(), "No node ids are left for the recording taps");

    let mut executor = NodeGraphExecutor::<u8>::new_with_local_runtime(true);
    let zero = Vector2 { x: Scalar(0), y: Scalar(0) };
    let transform = Transform { x_axis: zero, y_axis: zero, translation: zero };
    let document = DocumentSnapshot { network_hash: 77, network: kept, document_to_viewport: transform, render_mode: RenderMode::Normal };
    assert_eq!(executor.update_node_graph_instrumented(document, 5), Err("Two nodes of the graph share an id".to_string()));
    assert!(executor.take_requests().is_empty());
}

#[test]
fn nodes_of_every_kind_are_recorded() {
    let mut network = NodeNetwork {
        exports: vec![from_node(3)],
        nodes: vec![(
            NodeId(3),
            DocumentNode { inputs: vec![constant(1), constant(2)], implementation: DocumentNodeImplementation::Extract, call_argument: CallArgument::Context, skip_deduplication: false },
        )],
    };
    let map = Instrumented::new(&mut network).unwrap();
    assert_eq!(map.len(), 1);
    assert_eq!(map.monitor_path(&path(&[3]), 0), Some(&path(&[4])));
    assert_eq!(map.monitor_path(&path(&[3]), 1), Some(&path(&[5])));
    let recordings = vec![(path(&[5]), Recorded::Plain(2))];
    assert_eq!(map.grab_protonode_input(&path(&[3]), 1, &recordings), Some(&2));

    let mut nested = graph();
    let map = Instrumented::new(&mut nested).unwrap();
    let recordings = vec![(path(&[11]), Recorded::WithContext(47))];
    assert_eq!(map.grab_protonode_input(&path(&[5]), 0, &recordings), Some(&47));
    assert_eq!(map.grab_input_from_layer(Some(NodeId(5)), 0, &recordings), Some(&47));
}

#[test]
fn instrumented_update_leaves_the_cache_without_inspect_target() {
    let mut executor = NodeGraphExecutor::<u8>::new_with_local_runtime(true);
    let zero = Vector2 { x: Scalar(0), y: Scalar(0) };
    let transform = Transform { x_axis: zero, y_axis: zero, translation: zero };
    assert_eq!(executor.update_node_graph(9, graph(), Some(NodeId(1)), false), Ok(()));
    let document = DocumentSnapshot { network_hash: 9, network: graph(), document_to_viewport: transform, render_mode: RenderMode::Normal };
    executor.update_node_graph_instrumented(document, 9).unwrap();
    executor.take_requests();
    assert!(executor.needs_graph_update(9, Some(NodeId(1)), false));
    assert!(!executor.needs_graph_update(9, None, false));
}
