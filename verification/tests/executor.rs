use graph_runtime::document::{DocumentId, NodeId};
use graph_runtime::executor::{NodeGraphExecutor, PollError};
use graph_runtime::export::{ExportBounds, ExportConfig, FileType};
use graph_runtime::ledger::LedgerFault;
use graph_runtime::routing::DocumentGeometry;
use graph_runtime::state::{DocumentSnapshot, ExportRegion};
use graph_runtime::messages::{CompilationResponse, ExecutionResponse, GraphRuntimeRequest, Message, NodeGraphUpdate};
use graph_runtime::network::NodeNetwork;
use graph_runtime::render::{RenderMetadata, RenderMode, RenderOutput, RenderOutputType, Resolution, Scalar, TaggedValue, TimingInformation, Transform, Vector2};

type Payload = &'static str;

fn scalar(value: f64) -> Scalar {
    Scalar(value.to_bits())
}

fn point(x: f64, y: f64) -> Vector2 {
    Vector2 { x: scalar(x), y: scalar(y) }
}

fn identity() -> Transform {
    Transform { x_axis: point(1., 0.), y_axis: point(0., 1.), translation: point(0., 0.) }
}

fn clock() -> TimingInformation {
    TimingInformation { time: scalar(0.), animation_seconds: 0, animation_subsec_nanos: 0 }
}

fn snapshot(network_hash: u64) -> DocumentSnapshot {
    DocumentSnapshot {
        network_hash,
        network: NodeNetwork { exports: vec![], nodes: vec![] },
        document_to_viewport: identity(),
        render_mode: RenderMode::Normal,
    }
}

fn metadata() -> RenderMetadata<Payload> {
    RenderMetadata {
        upstream_footprints: "footprints",
        local_transforms: "transforms",
        first_element_source_id: "sources",
        click_targets: "click",
        clip_targets: "clip",
    }
}

fn svg_output(svg: &str) -> TaggedValue<Payload> {
    TaggedValue::RenderOutput(RenderOutput { data: RenderOutputType::Svg { svg: svg.to_string(), image_data: "images" }, metadata: metadata() })
}

fn response(execution_id: u64, result: Result<TaggedValue<Payload>, String>) -> NodeGraphUpdate<Payload> {
    NodeGraphUpdate::ExecutionResponse(ExecutionResponse { execution_id, result, responses: vec![], vector_modify: "vectors", inspect_result: None })
}

fn submit(executor: &mut NodeGraphExecutor<Payload>, network_hash: u64, node_to_inspect: Option<NodeId>) -> u64 {
    let message = executor
        .submit_node_graph_evaluation(snapshot(network_hash), DocumentId(1), Resolution { x: 800, y: 600 }, scalar(1.), clock(), node_to_inspect, false, point(0., 0.))
        .unwrap();
    match message {
        Message::SetGraphSubmissionIndex { execution_id } => execution_id,
        other => panic!("unexpected answer {other:?}"),
    }
}

fn graph_updates(requests: &[GraphRuntimeRequest<Payload>]) -> usize {
    requests.iter().filter(|request| matches!(request, GraphRuntimeRequest::GraphUpdate(_))).count()
}

fn artwork(messages: &[Message<Payload>]) -> Vec<String> {
    let mut shown = Vec::new();
    for message in messages {
        if let Message::UpdateDocumentArtwork { svg } = message {
            shown.push(svg.clone());
        }
    }
    shown
}

#[test]
fn ids_are_issued_in_order_from_zero() {
    let mut executor = NodeGraphExecutor::<Payload>::new_with_local_runtime(true);
    assert_eq!(executor.next_execution_id(), 0);
    assert_eq!(submit(&mut executor, 7, None), 0);
    assert_eq!(submit(&mut executor, 7, None), 1);
    assert_eq!(submit(&mut executor, 8, None), 2);
    assert_eq!(executor.next_execution_id(), 3);
    assert_eq!(executor.pending_count(), 3);
}

#[test]
fn unchanged_graph_is_sent_once() {
    let mut executor = NodeGraphExecutor::<Payload>::new_with_local_runtime(true);
    submit(&mut executor, 7, None);
    submit(&mut executor, 7, None);
    submit(&mut executor, 7, None);
    let requests = executor.take_requests();
    assert_eq!(graph_updates(&requests), 1);
    assert_eq!(requests.len(), 4);
    assert!(matches!(requests[0], GraphRuntimeRequest::GraphUpdate(_)));
}

#[test]
fn changed_inspect_target_sends_the_graph_exactly_once() {
    let mut executor = NodeGraphExecutor::<Payload>::new_with_local_runtime(true);
    submit(&mut executor, 7, None);
    executor.take_requests();
    submit(&mut executor, 7, Some(NodeId(42)));
    let requests = executor.take_requests();
    assert_eq!(graph_updates(&requests), 1);
    match &requests[0] {
        GraphRuntimeRequest::GraphUpdate(update) => assert_eq!(update.node_to_inspect, Some(NodeId(42))),
        other => panic!("unexpected request {other:?}"),
    }
    submit(&mut executor, 7, Some(NodeId(42)));
    assert_eq!(graph_updates(&executor.take_requests()), 0);
}

#[test]
fn late_result_of_an_older_render_is_discarded() {
    let mut executor = NodeGraphExecutor::<Payload>::new_with_local_runtime(true);
    for _ in 0..5 {
        submit(&mut executor, 7, None);
    }
    let mut document = DocumentGeometry { click_targets: Some("old click"), vector_modify: Some("old vectors") };
    let mut responses = Vec::new();
    executor.deliver(response(4, Ok(svg_output("four"))));
    executor.poll_node_graph_evaluation(&mut document, &mut responses).unwrap();
    assert_eq!(executor.pending_count(), 0);

    let five = submit(&mut executor, 7, None);
    let six = submit(&mut executor, 7, None);
    assert_eq!((five, six), (5, 6));
    responses.clear();

    let first = response(6, Ok(svg_output("six")));
    assert!(executor.can_route(&first));
    executor.deliver(first);
    executor.poll_node_graph_evaluation(&mut document, &mut responses).unwrap();
    assert_eq!(artwork(&responses), vec!["six".to_string()]);
    assert_eq!(executor.pending_count(), 0);
    assert!(executor.is_stale(5));

    let applied = responses.len();
    let late = response(5, Ok(svg_output("five")));
    assert!(executor.can_route(&late));
    executor.deliver(late);
    executor.poll_node_graph_evaluation(&mut document, &mut responses).unwrap();
    assert_eq!(responses.len(), applied);
    assert_eq!(artwork(&responses), vec!["six".to_string()]);
    assert_eq!(document.vector_modify, Some("vectors"));
}

#[test]
fn newer_result_is_still_applied_after_an_older_one() {
    let mut executor = NodeGraphExecutor::<Payload>::new_with_local_runtime(true);
    submit(&mut executor, 7, None);
    submit(&mut executor, 7, None);
    submit(&mut executor, 7, None);
    let mut document = DocumentGeometry { click_targets: None, vector_modify: None };
    let mut responses = Vec::new();
    executor.deliver(response(1, Ok(svg_output("one"))));
    executor.deliver(response(2, Ok(svg_output("two"))));
    executor.poll_node_graph_evaluation(&mut document, &mut responses).unwrap();
    assert_eq!(artwork(&responses), vec!["one".to_string(), "two".to_string()]);
    assert!(executor.is_stale(0));
    assert!(!executor.is_pending(0));
}

#[test]
fn routed_render_adds_its_messages_in_order() {
    let mut executor = NodeGraphExecutor::<Payload>::new_with_local_runtime(true);
    submit(&mut executor, 7, None);
    let mut document = DocumentGeometry { click_targets: None, vector_modify: None };
    let mut responses = Vec::new();
    executor.deliver(NodeGraphUpdate::ExecutionResponse(ExecutionResponse {
        execution_id: 0,
        result: Ok(svg_output("art")),
        responses: vec!["first", "second"],
        vector_modify: "vectors",
        inspect_result: Some("inspected"),
    }));
    executor.poll_node_graph_evaluation(&mut document, &mut responses).unwrap();
    let expected: Vec<Message<Payload>> = vec![
        Message::DrawOverlays,
        Message::Frontend("first"),
        Message::Frontend("second"),
        Message::UpdateImageData { image_data: "images" },
        Message::UpdateDocumentArtwork { svg: "art".to_string() },
        Message::UpdateUpstreamTransforms { upstream_footprints: "footprints", local_transforms: "transforms", first_element_source_id: "sources" },
        Message::UpdateClickTargets { click_targets: "click" },
        Message::UpdateClipTargets { clip_targets: "clip" },
        Message::RenderScrollbars,
        Message::RenderRulers,
        Message::DrawOverlays,
        Message::TriggerGraphRun { execution_id: 0, document_id: DocumentId(1) },
        Message::ClearDataPanel,
    ];
    assert_eq!(responses, expected);
    assert_eq!(document, DocumentGeometry { click_targets: None, vector_modify: Some("vectors") });
}

#[test]
fn inspected_value_reaches_the_data_panel() {
    let mut executor = NodeGraphExecutor::<Payload>::new_with_local_runtime(true);
    submit(&mut executor, 7, Some(NodeId(3)));
    let mut document = DocumentGeometry { click_targets: None, vector_modify: None };
    let mut responses = Vec::new();
    executor.deliver(NodeGraphUpdate::ExecutionResponse(ExecutionResponse {
        execution_id: 0,
        result: Ok(svg_output("art")),
        responses: vec![],
        vector_modify: "vectors",
        inspect_result: Some("inspected"),
    }));
    executor.poll_node_graph_evaluation(&mut document, &mut responses).unwrap();
    assert_eq!(responses.last(), Some(&Message::UpdateDataPanel { inspect_result: "inspected" }));
}

#[test]
fn failed_evaluation_clears_the_geometry_and_retires_its_entry() {
    let mut executor = NodeGraphExecutor::<Payload>::new_with_local_runtime(true);
    submit(&mut executor, 7, None);
    let mut document = DocumentGeometry { click_targets: Some("click"), vector_modify: Some("vectors") };
    let mut responses = Vec::new();
    executor.deliver(response(0, Err("division by zero".to_string())));
    executor.deliver(NodeGraphUpdate::CompilationResponse(CompilationResponse { result: Ok("delta"), node_graph_errors: "none" }));
    let result = executor.poll_node_graph_evaluation(&mut document, &mut responses);
    assert_eq!(result, Err("Node graph evaluation failed:\ndivision by zero".to_string()));
    assert_eq!(responses, vec![Message::DrawOverlays]);
    assert_eq!(document, DocumentGeometry { click_targets: None, vector_modify: None });
    assert_eq!(executor.pending_count(), 0);
    assert!(!executor.is_pending(0));
    responses.clear();
    assert_eq!(executor.poll_node_graph_evaluation(&mut document, &mut responses), Ok(()));
    assert!(responses.is_empty());
}

#[test]
fn value_that_arrives_after_a_newer_failure_is_discarded() {
    let mut executor = NodeGraphExecutor::<Payload>::new_with_local_runtime(true);
    submit(&mut executor, 7, None);
    submit(&mut executor, 7, None);
    submit(&mut executor, 7, None);
    let mut document = DocumentGeometry { click_targets: None, vector_modify: None };
    let mut responses = Vec::new();
    executor.deliver(response(1, Err("broken".to_string())));
    assert!(executor.poll_node_graph_evaluation(&mut document, &mut responses).is_err());
    assert_eq!(executor.pending_count(), 1);
    assert!(executor.is_pending(2));
    assert!(executor.is_stale(0));
    responses.clear();
    executor.deliver(response(0, Ok(svg_output("zero"))));
    executor.deliver(response(2, Ok(svg_output("two"))));
    assert_eq!(executor.poll_node_graph_evaluation(&mut document, &mut responses), Ok(()));
    assert_eq!(artwork(&responses), vec!["two".to_string()]);
    assert_eq!(executor.pending_count(), 0);
}

#[test]
fn failed_compilation_still_passes_the_types_on() {
    let mut executor = NodeGraphExecutor::<Payload>::new_with_local_runtime(true);
    let mut document = DocumentGeometry { click_targets: Some("click"), vector_modify: Some("vectors") };
    let mut responses = Vec::new();
    executor.deliver(NodeGraphUpdate::CompilationResponse(CompilationResponse { result: Err(("partial", "no such node".to_string())), node_graph_errors: "errors" }));
    let result = executor.poll_node_graph_evaluation(&mut document, &mut responses);
    assert_eq!(result, Err("Node graph evaluation failed:\nno such node".to_string()));
    assert_eq!(responses, vec![Message::UpdateTypes { resolved_types: "partial", node_graph_errors: "errors" }, Message::SendGraph]);
    assert_eq!(document, DocumentGeometry { click_targets: None, vector_modify: None });
}

#[test]
fn successful_compilation_leaves_the_geometry_alone() {
    let mut executor = NodeGraphExecutor::<Payload>::new_with_local_runtime(true);
    let mut document = DocumentGeometry { click_targets: Some("click"), vector_modify: Some("vectors") };
    let mut responses = Vec::new();
    executor.deliver(NodeGraphUpdate::CompilationResponse(CompilationResponse { result: Ok("delta"), node_graph_errors: "none" }));
    assert_eq!(executor.poll_node_graph_evaluation(&mut document, &mut responses), Ok(()));
    assert_eq!(responses, vec![Message::UpdateTypes { resolved_types: "delta", node_graph_errors: "none" }, Message::SendGraph]);
    assert_eq!(document, DocumentGeometry { click_targets: Some("click"), vector_modify: Some("vectors") });
}

#[test]
fn result_without_an_entry_cannot_be_routed() {
    let mut executor = NodeGraphExecutor::<Payload>::new_with_local_runtime(true);
    submit(&mut executor, 7, None);
    assert!(!executor.can_route(&response(9, Ok(svg_output("never asked")))));
    assert!(!executor.can_route(&response(9, Err("failure".to_string()))));
    assert!(executor.can_route(&response(0, Err("failure".to_string()))));
    assert!(executor.can_route(&response(0, Ok(svg_output("asked")))));
}

#[test]
fn closed_channel_refuses_a_new_graph() {
    let mut executor = NodeGraphExecutor::<Payload>::new_with_local_runtime(true);
    executor.close_channel();
    assert!(!executor.channel_open());
    let result = executor.submit_node_graph_evaluation(snapshot(7), DocumentId(1), Resolution { x: 1, y: 1 }, scalar(1.), clock(), None, false, point(0., 0.));
    assert_eq!(result, Err("sending on a closed channel".to_string()));
    assert_eq!(executor.pending_count(), 0);
    assert_eq!(executor.next_execution_id(), 0);
}

#[test]
fn side_channel_updates_carry_no_id() {
    let mut executor = NodeGraphExecutor::<Payload>::new_with_local_runtime(true);
    executor.update_font_cache("fonts");
    executor.update_editor_preferences("preferences");
    assert_eq!(executor.take_requests(), vec![GraphRuntimeRequest::FontCacheUpdate("fonts"), GraphRuntimeRequest::EditorPreferencesUpdate("preferences")]);
    assert_eq!(executor.next_execution_id(), 0);
    assert_eq!(executor.pending_count(), 0);
}

#[test]
fn results_can_be_routed_one_by_one() {
    let mut executor = NodeGraphExecutor::<Payload>::new_with_local_runtime(true);
    submit(&mut executor, 7, None);
    submit(&mut executor, 7, None);
    executor.deliver(response(1, Ok(svg_output("one"))));
    executor.deliver(response(0, Ok(svg_output("zero"))));
    let results = executor.receive_results();
    assert_eq!(results.len(), 2);
    assert!(executor.receive_results().is_empty());
    let mut document = DocumentGeometry { click_targets: None, vector_modify: None };
    let mut responses = Vec::new();
    for update in results {
        assert!(executor.can_route(&update));
        assert_eq!(executor.process_update(&mut document, &mut responses, update), Ok(()));
    }
    assert_eq!(artwork(&responses), vec!["one".to_string()]);
    assert_eq!(executor.pending_count(), 0);
}

#[test]
fn graph_update_is_needed_exactly_when_something_changed() {
    let mut executor = NodeGraphExecutor::<Payload>::new_with_local_runtime(true);
    assert!(!executor.needs_graph_update(0, None, false));
    assert!(executor.needs_graph_update(0, None, true));
    assert!(executor.needs_graph_update(7, None, false));
    assert!(executor.needs_graph_update(0, Some(NodeId(1)), false));
    submit(&mut executor, 7, Some(NodeId(1)));
    assert!(!executor.needs_graph_update(7, Some(NodeId(1)), false));
    assert!(executor.needs_graph_update(7, Some(NodeId(2)), false));
    assert!(executor.needs_graph_update(7, None, false));
}

#[test]
fn forced_evaluation_sends_the_graph_again() {
    let mut executor = NodeGraphExecutor::<Payload>::new_with_local_runtime(true);
    submit(&mut executor, 7, None);
    executor.take_requests();
    executor
        .submit_node_graph_evaluation(snapshot(7), DocumentId(1), Resolution { x: 8, y: 6 }, scalar(2.), clock(), None, true, point(1., 2.))
        .unwrap();
    let requests = executor.take_requests();
    assert_eq!(graph_updates(&requests), 1);
    match &requests[1] {
        GraphRuntimeRequest::ExecutionRequest(request) => {
            assert_eq!(request.execution_id, 1);
            assert_eq!(request.render_config.viewport.resolution, Resolution { x: 8, y: 6 });
            assert_eq!(request.render_config.viewport.transform, identity());
            assert_eq!(request.render_config.scale, scalar(2.));
            assert_eq!(request.render_config.pointer, point(1., 2.));
            assert!(!request.render_config.for_export);
            assert!(!request.render_config.for_eyedropper);
            assert!(!request.render_config.hide_artboards);
            assert_eq!(request.export_file_type, None);
        }
        other => panic!("unexpected request {other:?}"),
    }
}

#[test]
fn export_leaves_the_cache_saying_what_the_engine_holds() {
    let mut executor = NodeGraphExecutor::<Payload>::new_with_local_runtime(true);
    submit(&mut executor, 7, Some(NodeId(3)));
    executor.take_requests();
    assert!(!executor.needs_graph_update(7, Some(NodeId(3)), false));

    let export = ExportConfig {
        name: "a".to_string(),
        file_type: FileType::Png,
        scale_factor: scalar(1.),
        bounds: ExportBounds::AllArtwork,
        transparent_background: false,
        size: Resolution { x: 0, y: 0 },
        artboard_name: None,
        artboard_count: 1,
    };
    let region = ExportRegion { resolution: Resolution { x: 4, y: 4 }, transform: identity() };
    assert_eq!(executor.submit_document_export(snapshot(7), DocumentId(1), export, Some(region)), Ok(()));
    let requests = executor.take_requests();
    match &requests[0] {
        GraphRuntimeRequest::GraphUpdate(update) => assert_eq!(update.node_to_inspect, None),
        other => panic!("unexpected request {other:?}"),
    }
    assert!(executor.needs_graph_update(7, Some(NodeId(3)), false));
    assert!(!executor.needs_graph_update(7, None, false));

    submit(&mut executor, 7, Some(NodeId(3)));
    let requests = executor.take_requests();
    assert_eq!(graph_updates(&requests), 1);
    match &requests[0] {
        GraphRuntimeRequest::GraphUpdate(update) => assert_eq!(update.node_to_inspect, Some(NodeId(3))),
        other => panic!("unexpected request {other:?}"),
    }
}

#[test]
fn export_that_cannot_be_sent_leaves_the_cache_alone() {
    let mut executor = NodeGraphExecutor::<Payload>::new_with_local_runtime(true);
    submit(&mut executor, 7, Some(NodeId(3)));
    executor.close_channel();
    let export = ExportConfig {
        name: "a".to_string(),
        file_type: FileType::Png,
        scale_factor: scalar(1.),
        bounds: ExportBounds::AllArtwork,
        transparent_background: false,
        size: Resolution { x: 0, y: 0 },
        artboard_name: None,
        artboard_count: 1,
    };
    let region = ExportRegion { resolution: Resolution { x: 4, y: 4 }, transform: identity() };
    assert_eq!(executor.submit_document_export(snapshot(8), DocumentId(1), export, Some(region)), Err("sending on a closed channel".to_string()));
    assert!(!executor.needs_graph_update(7, Some(NodeId(3)), false));
}

#[test]
fn watchful_polling_reports_a_result_that_nothing_asked_for() {
    let mut executor = NodeGraphExecutor::<Payload>::new_with_local_runtime(true);
    let mut document = DocumentGeometry { click_targets: Some("click"), vector_modify: None };
    let mut responses = Vec::new();
    executor.deliver(response(0, Ok(svg_output("never asked"))));
    assert_eq!(executor.poll_checked(&mut document, &mut responses), Err(PollError::Fault(LedgerFault::InvalidGenerationId)));
    assert!(responses.is_empty());
    assert_eq!(document, DocumentGeometry { click_targets: Some("click"), vector_modify: None });

    for _ in 0..8 {
        submit(&mut executor, 7, None);
    }
    executor.deliver(response(6, Ok(svg_output("six"))));
    assert_eq!(executor.poll_checked(&mut document, &mut responses), Ok(()));
    assert_eq!(executor.pending_count(), 1);
    responses.clear();

    executor.deliver(response(6, Ok(svg_output("again"))));
    executor.deliver(response(7, Ok(svg_output("seven"))));
    assert_eq!(executor.routing_fault(&response(6, Ok(svg_output("again")))), Some(LedgerFault::MismatchInExecutionId { found: 7 }));
    assert_eq!(executor.poll_checked(&mut document, &mut responses), Err(PollError::Fault(LedgerFault::MismatchInExecutionId { found: 7 })));
    assert!(responses.is_empty());
    assert_eq!(executor.pending_count(), 1);
    assert!(executor.is_pending(7));

    executor.deliver(response(9, Err("broken".to_string())));
    assert_eq!(executor.poll_checked(&mut document, &mut responses), Err(PollError::Fault(LedgerFault::InvalidGenerationId)));
    assert!(executor.is_pending(7));
}

#[test]
fn watchful_polling_routes_like_plain_polling() {
    let mut executor = NodeGraphExecutor::<Payload>::new_with_local_runtime(true);
    submit(&mut executor, 7, None);
    submit(&mut executor, 7, None);
    submit(&mut executor, 7, None);
    let mut document = DocumentGeometry { click_targets: None, vector_modify: None };
    let mut responses = Vec::new();
    executor.deliver(response(1, Ok(svg_output("one"))));
    executor.deliver(response(0, Ok(svg_output("zero"))));
    executor.deliver(response(2, Err("broken".to_string())));
    executor.deliver(response(9, Ok(svg_output("dropped with the batch"))));
    assert_eq!(executor.poll_checked(&mut document, &mut responses), Err(PollError::Failed("Node graph evaluation failed:\nbroken".to_string())));
    assert_eq!(artwork(&responses), vec!["one".to_string()]);
    assert_eq!(responses.last(), Some(&Message::DrawOverlays));
    assert_eq!(executor.pending_count(), 0);
    assert_eq!(executor.poll_checked(&mut document, &mut responses), Ok(()));
}
