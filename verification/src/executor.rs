//! The controller's side of the runtime: it sends the graph when the engine
//! needs it, dispatches evaluations under growing ids, keeps account of
//! those whose result is still owed, and routes the results.

use crate::cache::CompiledProgramCache;
use crate::document::{DocumentId, NodeId};
use crate::export::{ExportConfig, FileType};
use crate::instrument::{counted, fresh_taps, has_room, id_limit, instrumented, records_of, InstrumentError, Instrumented};
use crate::ledger::{lemma_monotonic_staleness, lemma_retire_then_pop_finds_entry, LedgerFault, PendingLedger};
use crate::messages::{views, CompilationResponse, ExecutionRequest, ExecutionResponse, GraphRuntimeRequest, GraphUpdate, Message, MessageView, NodeGraphUpdate};
use crate::network::{distinct_ids, NodeNetwork};
use crate::render::{ExportFormat, Footprint, RenderConfig, RenderMode, Resolution, Scalar, SurfaceFrame, TaggedValue, TimingInformation, Transform, Vector2};
use crate::router::{agrees, canvas_after, enqueue, export_outcome, export_output, present_output, preview_messages, preview_output, render_outcome};
use crate::routing::{expects, expects_all, fault_in, forwarded, lemma_no_fault_means_expected, purpose_outcome, route_all, route_checked, route_compilation, route_execution, route_update, DocumentGeometry};
use crate::runtime_io::NodeRuntimeIO;
use crate::state::{export_render_config, eyedropper_render_config, viewport_render_config, DocumentSnapshot, ExecutionContext, ExecutorState, ExportRegion};
use vstd::prelude::*;

verus! {

/// The runtime: the channel to the engine, the counter of execution ids, the
/// ledger of pending evaluations and the cache of what the engine compiled.
pub struct NodeGraphExecutor<A> {
    runtime_io: NodeRuntimeIO<A>,
    current_execution_id: u64,
    futures: PendingLedger<ExecutionContext>,
    cache: CompiledProgramCache,
    last_svg_canvas: Option<SurfaceFrame>,
    supports_raster_encode: bool,
}

impl<A> View for NodeGraphExecutor<A> {
    type V = ExecutorState<A>;

    closed spec fn view(&self) -> ExecutorState<A> {
        ExecutorState {
            next_execution_id: self.current_execution_id,
            pending: self.futures@,
            retired_below: self.futures.floor(),
            node_graph_hash: self.cache.fingerprint(),
            node_to_inspect: self.cache.inspect_target(),
            last_svg_canvas: self.last_svg_canvas,
            outbound: self.runtime_io.outbound(),
            inbound: self.runtime_io.inbound(),
            channel_open: self.runtime_io.open(),
            raster_encode: self.supports_raster_encode,
        }
    }
}

impl<A> NodeGraphExecutor<A> {
    /// A runtime that has dispatched nothing, on an open channel of its own.
    /// `supports_raster_encode` says whether this build can encode rasters.
    pub fn new_with_local_runtime(supports_raster_encode: bool) -> (r: Self)
        ensures
            r@.wf(),
            r@ == (ExecutorState::<A> {
                next_execution_id: 0,
                pending: Seq::empty(),
                retired_below: 0,
                node_graph_hash: 0,
                node_to_inspect: None,
                last_svg_canvas: None,
                outbound: Seq::empty(),
                inbound: Seq::empty(),
                channel_open: true,
                raster_encode: supports_raster_encode,
            }),
    {
        NodeGraphExecutor {
            futures: PendingLedger::new(),
            runtime_io: NodeRuntimeIO::new(),
            cache: CompiledProgramCache::new(),
            current_execution_id: 0,
            last_svg_canvas: None,
            supports_raster_encode,
        }
    }

    /// The id that the next evaluation is dispatched under.
    pub fn next_execution_id(&self) -> (r: u64)
        ensures
            r == self@.next_execution_id,
    {
        self.current_execution_id
    }

    /// Whether the engine still listens.
    pub fn channel_open(&self) -> (r: bool)
        ensures
            r == self@.channel_open,
    {
        self.runtime_io.is_open()
    }

    /// Number of evaluations whose result is owed.
    pub fn pending_count(&self) -> (r: usize)
        ensures
            r == self@.pending.len(),
    {
        self.futures.len()
    }

    /// Whether an evaluation under `id` is pending.
    pub fn is_pending(&self, id: u64) -> (r: bool)
        ensures
            r == crate::ledger::holds(self@.pending, id),
    {
        self.futures.contains(id)
    }

    /// Whether a result under `id` arrives too late to be applied.
    pub fn is_stale(&self, id: u64) -> (r: bool)
        ensures
            r == (id < self@.retired_below),
    {
        self.futures.is_stale(id)
    }

    /// Whether the engine needs the graph again: see
    /// [`ExecutorState::must_update`].
    pub fn needs_graph_update(&self, network_hash: u64, node_to_inspect: Option<NodeId>, ignore_hash: bool) -> (r: bool)
        ensures
            r == self@.must_update(network_hash, node_to_inspect, ignore_hash),
    {
        let same_target = match (self.cache.previous_node_to_inspect(), node_to_inspect) {
            (None, None) => true,
            (Some(a), Some(b)) => a.0 == b.0,
            _ => false,
        };
        network_hash != self.cache.node_graph_hash() || !same_target || ignore_hash
    }

    /// Takes every result that is ready off the channel, oldest first.
    pub fn receive_results(&mut self) -> (r: Vec<NodeGraphUpdate<A>>)
        ensures
            r@ == old(self)@.inbound,
            final(self)@ == old(self)@.received(),
    {
        self.runtime_io.receive()
    }

    /// The engine's side of the channel: takes the requests that are in
    /// line.
    pub fn take_requests(&mut self) -> (r: Vec<GraphRuntimeRequest<A>>)
        ensures
            r@ == old(self)@.outbound,
            final(self)@ == (ExecutorState { outbound: Seq::empty(), ..old(self)@ }),
    {
        self.runtime_io.take_requests()
    }

    /// The engine's side of the channel: puts a result in line.
    pub fn deliver(&mut self, update: NodeGraphUpdate<A>)
        ensures
            final(self)@ == (ExecutorState { inbound: old(self)@.inbound.push(update), ..old(self)@ }),
    {
        self.runtime_io.deliver(update)
    }

    /// The engine's side of the channel: stops listening.
    pub fn close_channel(&mut self)
        ensures
            final(self)@ == (ExecutorState { channel_open: false, ..old(self)@ }),
    {
        self.runtime_io.close()
    }

    /// Puts an execution request in line under the next id and returns that
    /// id.
    fn queue_execution(&mut self, render_config: RenderConfig, export_file_type: Option<FileType>) -> (execution_id: u64)
        requires
            old(self)@.channel_open,
            old(self)@.next_execution_id < u64::MAX,
        ensures
            execution_id == old(self)@.next_execution_id,
            final(self)@ == (ExecutorState {
                next_execution_id: (execution_id + 1) as u64,
                outbound: old(self)@.outbound.push(
                    GraphRuntimeRequest::ExecutionRequest(ExecutionRequest { execution_id, render_config, export_file_type }),
                ),
                ..old(self)@
            }),
    {
        let execution_id = self.current_execution_id;
        self.current_execution_id += 1;
        let request = ExecutionRequest { execution_id, render_config, export_file_type };
        let _ = self.runtime_io.send(GraphRuntimeRequest::ExecutionRequest(request));
        execution_id
    }

    /// Hands the engine a new font cache.
    pub fn update_font_cache(&mut self, font_cache: A)
        requires
            old(self)@.channel_open,
        ensures
            final(self)@ == old(self)@.sent(GraphRuntimeRequest::FontCacheUpdate(font_cache)),
    {
        let _ = self.runtime_io.send(GraphRuntimeRequest::FontCacheUpdate(font_cache));
    }

    /// Hands the engine the editor's preferences.
    pub fn update_editor_preferences(&mut self, editor_preferences: A)
        requires
            old(self)@.channel_open,
        ensures
            final(self)@ == old(self)@.sent(GraphRuntimeRequest::EditorPreferencesUpdate(editor_preferences)),
    {
        let _ = self.runtime_io.send(GraphRuntimeRequest::EditorPreferencesUpdate(editor_preferences));
    }

    /// Sends the graph to the engine if the engine does not hold it: if its
    /// fingerprint or the node to inspect has changed, or if `ignore_hash`
    /// is set. The cache adopts the new pair before the graph is sent. Fails
    /// with the channel's message if the graph had to be sent and the engine
    /// has gone.
    pub fn update_node_graph(&mut self, network_hash: u64, network: NodeNetwork, node_to_inspect: Option<NodeId>, ignore_hash: bool) -> (r: Result<
        (),
        String,
    >)
        ensures
            ({
                let checked = old(self)@.checked(network_hash, node_to_inspect, ignore_hash);
                let needed = old(self)@.must_update(network_hash, node_to_inspect, ignore_hash);
                &&& needed && old(self)@.channel_open ==> r is Ok && final(self)@ == checked.sent(
                    GraphRuntimeRequest::GraphUpdate(GraphUpdate { network, node_to_inspect }),
                )
                &&& needed && !old(self)@.channel_open ==> r is Err && r->Err_0@ == NodeRuntimeIO::<A>::closed_message()
                    && final(self)@ == checked
                &&& !needed ==> r is Ok && final(self)@ == old(self)@
            }),
    {
        if self.cache.needs_update(network_hash, node_to_inspect, ignore_hash) {
            self.runtime_io.send(GraphRuntimeRequest::GraphUpdate(GraphUpdate { network, node_to_inspect }))
        } else {
            Ok(())
        }
    }

    /// Dispatches an evaluation of the graph that the engine holds, to show
    /// the document in the viewport. Answers with the message that tells the
    /// editor under which id it was dispatched.
    pub fn submit_current_node_graph_evaluation(
        &mut self,
        document_to_viewport: Transform,
        render_mode: RenderMode,
        document_id: DocumentId,
        viewport_resolution: Resolution,
        viewport_scale: Scalar,
        time: TimingInformation,
        pointer: Vector2,
    ) -> (r: Result<Message<A>, String>)
        requires
            old(self)@.wf(),
            old(self)@.channel_open,
            old(self)@.next_execution_id < u64::MAX,
        ensures
            final(self)@.wf(),
            r is Ok,
            r->Ok_0@ == (MessageView::<A>::SetGraphSubmissionIndex { execution_id: old(self)@.next_execution_id }),
            final(self)@ == old(self)@.dispatched(
                viewport_render_config(document_to_viewport, render_mode, viewport_resolution, viewport_scale, time, pointer),
                None,
                document_id,
            ),
    {
        let viewport = Footprint { transform: document_to_viewport, resolution: viewport_resolution };
        let render_config = RenderConfig {
            viewport,
            scale: viewport_scale,
            time,
            pointer,
            export_format: ExportFormat::Raster,
            render_mode,
            hide_artboards: false,
            for_export: false,
            for_eyedropper: false,
        };
        let execution_id = self.dispatch(render_config, None, document_id);
        Ok(Message::SetGraphSubmissionIndex { execution_id })
    }

    /// Dispatches one evaluation: the request goes in line, the ledger gets
    /// its entry.
    fn dispatch(&mut self, render_config: RenderConfig, export_config: Option<ExportConfig>, document_id: DocumentId) -> (execution_id: u64)
        requires
            old(self)@.wf(),
            old(self)@.channel_open,
            old(self)@.next_execution_id < u64::MAX,
        ensures
            final(self)@.wf(),
            execution_id == old(self)@.next_execution_id,
            final(self)@ == old(self)@.dispatched(render_config, export_config, document_id),
    {
        let file_type = match &export_config {
            Some(config) => Some(config.file_type),
            None => None,
        };
        let execution_id = self.queue_execution(render_config, file_type);
        self.futures.push(execution_id, ExecutionContext { render_config, export_config, document_id });
        execution_id
    }
}

impl<A> NodeGraphExecutor<A> {
    /// Whether `update` can be routed: unless it comes too late, an
    /// evaluation is pending under its id.
    pub fn can_route(&self, update: &NodeGraphUpdate<A>) -> (r: bool)
        ensures
            r == expects(self@, *update),
    {
        match update {
            NodeGraphUpdate::ExecutionResponse(response) => {
                if !self.futures.is_stale(response.execution_id) {
                    self.futures.contains(response.execution_id)
                } else {
                    true
                }
            },
            NodeGraphUpdate::CompilationResponse(_) => true,
        }
    }

    /// Shows the value of a render.
    fn process_node_graph_output(&mut self, node_graph_output: TaggedValue<A>, responses: &mut Vec<Message<A>>) -> (r: Result<(), String>)
        ensures
            agrees(r, render_outcome(node_graph_output@, old(self)@.last_svg_canvas).result),
            views(final(responses)@) == views(old(responses)@) + render_outcome(node_graph_output@, old(self)@.last_svg_canvas).messages,
            final(self)@ == (ExecutorState {
                last_svg_canvas: if r is Ok {
                    canvas_after(node_graph_output@, old(self)@.last_svg_canvas)
                } else {
                    old(self)@.last_svg_canvas
                },
                ..old(self)@
            }),
    {
        present_output(&mut self.last_svg_canvas, node_graph_output, responses)
    }

    /// Hands the value of a preview to the eyedropper.
    fn process_eyedropper_preview(&self, node_graph_output: TaggedValue<A>, responses: &mut Vec<Message<A>>) -> (r: Result<(), String>)
        ensures
            r is Ok,
            views(final(responses)@) == views(old(responses)@) + preview_messages(node_graph_output@, self@.raster_encode),
    {
        preview_output(self.supports_raster_encode, node_graph_output, responses)
    }

    /// Writes the value of an export to its file.
    fn process_export(&self, node_graph_output: TaggedValue<A>, export_config: ExportConfig, responses: &mut Vec<Message<A>>) -> (r: Result<(), String>)
        ensures
            agrees(r, export_outcome(node_graph_output@, export_config@, self@.raster_encode).result),
            views(final(responses)@) == views(old(responses)@) + export_outcome(node_graph_output@, export_config@, self@.raster_encode).messages,
    {
        export_output(self.supports_raster_encode, node_graph_output, export_config, responses)
    }

    /// Routes the result of one evaluation.
    fn route_execution_response(&mut self, document: &mut DocumentGeometry<A>, responses: &mut Vec<Message<A>>, response: ExecutionResponse<A>) -> (r: Result<
        (),
        String,
    >)
        requires
            old(self)@.wf(),
            expects(old(self)@, NodeGraphUpdate::ExecutionResponse(response)),
        ensures
            final(self)@.wf(),
            final(self)@ == route_execution(old(self)@, *old(document), response).state,
            *final(document) == route_execution(old(self)@, *old(document), response).geometry,
            views(final(responses)@) == views(old(responses)@) + route_execution(old(self)@, *old(document), response).messages,
            agrees(r, route_execution(old(self)@, *old(document), response).result),
    {
        let ghost before = views(responses@);
        let ghost routed = route_execution(old(self)@, *old(document), response);
        let ExecutionResponse { execution_id, result, responses: existing_responses, vector_modify, inspect_result } = response;
        if self.futures.is_stale(execution_id) {
            assert(before + Seq::<MessageView<A>>::empty() =~= before);
            return Ok(());
        }
        enqueue(responses, Message::DrawOverlays);
        let ghost pending = self.futures@;
        proof {
            let k = choose|k: int| 0 <= k < pending.len() && (#[trigger] pending[k]).0 == execution_id;
            lemma_retire_then_pop_finds_entry(pending, k);
            lemma_monotonic_staleness(pending, k, k);
        }
        self.futures.retire_up_to(execution_id);
        let execution_context = self.futures.pop_matching(execution_id);
        let node_graph_output = match result {
            Ok(output) => output,
            Err(e) => {
                document.click_targets = None;
                document.vector_modify = None;
                assert(views(responses@) =~= before + routed.messages);
                return Err(crate::text::join("Node graph evaluation failed:\n", e.as_str()));
            },
        };
        let ghost forwarded_all = forwarded(existing_responses@);
        for message in it: existing_responses.into_iter()
            invariant
                it.seq() == existing_responses@,
                views(responses@) == before + seq![MessageView::<A>::DrawOverlays] + forwarded_all.take(it.index() as int),
                forwarded_all == forwarded(existing_responses@),
        {
            enqueue(responses, Message::Frontend(message));
            assert(forwarded_all.take(it.index() + 1) =~= forwarded_all.take(it.index() as int).push(MessageView::Frontend(message)));
            assert(views(responses@) =~= before + seq![MessageView::<A>::DrawOverlays] + forwarded_all.take(it.index() + 1));
        }
        assert(forwarded_all.take(existing_responses@.len() as int) =~= forwarded_all);
        document.vector_modify = Some(vector_modify);
        let document_id = execution_context.document_id;
        let ghost outcome = purpose_outcome(old(self)@, execution_context, node_graph_output@);
        let ghost head = before + seq![MessageView::<A>::DrawOverlays] + forwarded_all;

        let handled = if let Some(export_config) = execution_context.export_config {
            self.process_export(node_graph_output, export_config, responses)
        } else if execution_context.render_config.for_eyedropper {
            self.process_eyedropper_preview(node_graph_output, responses)
        } else {
            self.process_node_graph_output(node_graph_output, responses)
        };
        assert(views(responses@) =~= head + outcome.messages);
        assert(agrees(handled, outcome.result));
        match handled {
            Ok(()) => {},
            Err(e) => {
                assert(views(responses@) =~= before + routed.messages);
                return Err(e);
            },
        }
        enqueue(responses, Message::TriggerGraphRun { execution_id, document_id });
        let inspecting = self.cache.previous_node_to_inspect().is_some();
        match inspect_result {
            Some(inspect_result) => {
                if inspecting {
                    enqueue(responses, Message::UpdateDataPanel { inspect_result });
                } else {
                    enqueue(responses, Message::ClearDataPanel);
                }
            },
            None => {
                enqueue(responses, Message::ClearDataPanel);
            },
        }
        assert(views(responses@) =~= before + routed.messages);
        Ok(())
    }

    /// Routes the result of one compilation.
    fn route_compilation_response(&mut self, document: &mut DocumentGeometry<A>, responses: &mut Vec<Message<A>>, response: CompilationResponse<A>) -> (r: Result<
        (),
        String,
    >)
        ensures
            final(self)@ == old(self)@,
            *final(document) == route_compilation(old(self)@, *old(document), response).geometry,
            views(final(responses)@) == views(old(responses)@) + route_compilation(old(self)@, *old(document), response).messages,
            agrees(r, route_compilation(old(self)@, *old(document), response).result),
    {
        let ghost before = views(responses@);
        let ghost routed = route_compilation(old(self)@, *old(document), response);
        let CompilationResponse { node_graph_errors, result } = response;
        let type_delta = match result {
            Err((incomplete_delta, e)) => {
                document.click_targets = None;
                document.vector_modify = None;
                enqueue(responses, Message::UpdateTypes { resolved_types: incomplete_delta, node_graph_errors });
                enqueue(responses, Message::SendGraph);
                assert(views(responses@) =~= before + routed.messages);
                return Err(crate::text::join("Node graph evaluation failed:\n", e.as_str()));
            },
            Ok(result) => result,
        };
        enqueue(responses, Message::UpdateTypes { resolved_types: type_delta, node_graph_errors });
        enqueue(responses, Message::SendGraph);
        assert(views(responses@) =~= before + routed.messages);
        Ok(())
    }

    /// Routes one message of the engine: applies it to the runtime and to
    /// the document's geometry, and adds to `responses` what it asks of the
    /// editor.
    pub fn process_update(&mut self, document: &mut DocumentGeometry<A>, responses: &mut Vec<Message<A>>, update: NodeGraphUpdate<A>) -> (r: Result<
        (),
        String,
    >)
        requires
            old(self)@.wf(),
            expects(old(self)@, update),
        ensures
            final(self)@.wf(),
            final(self)@ == route_update(old(self)@, *old(document), update).state,
            *final(document) == route_update(old(self)@, *old(document), update).geometry,
            views(final(responses)@) == views(old(responses)@) + route_update(old(self)@, *old(document), update).messages,
            agrees(r, route_update(old(self)@, *old(document), update).result),
    {
        match update {
            NodeGraphUpdate::ExecutionResponse(response) => self.route_execution_response(document, responses, response),
            NodeGraphUpdate::CompilationResponse(response) => self.route_compilation_response(document, responses, response),
        }
    }
}

impl<A> NodeGraphExecutor<A> {
    /// Sends the graph if the engine does not hold it, then dispatches an
    /// evaluation that shows the document in the viewport. If the graph had
    /// to be sent and the engine has gone, the channel's message is returned
    /// and nothing is dispatched.
    pub fn submit_node_graph_evaluation(
        &mut self,
        document: DocumentSnapshot,
        document_id: DocumentId,
        viewport_resolution: Resolution,
        viewport_scale: Scalar,
        time: TimingInformation,
        node_to_inspect: Option<NodeId>,
        ignore_hash: bool,
        pointer: Vector2,
    ) -> (r: Result<Message<A>, String>)
        requires
            old(self)@.wf(),
            old(self)@.next_execution_id < u64::MAX,
            old(self)@.channel_open || old(self)@.must_update(document.network_hash, node_to_inspect, ignore_hash),
        ensures
            final(self)@.wf(),
            ({
                let before = old(self)@;
                let checked = before.checked(document.network_hash, node_to_inspect, ignore_hash);
                let config = viewport_render_config(
                    document.document_to_viewport,
                    document.render_mode,
                    viewport_resolution,
                    viewport_scale,
                    time,
                    pointer,
                );
                if !before.channel_open {
                    r is Err && r->Err_0@ == NodeRuntimeIO::<A>::closed_message() && final(self)@ == checked
                } else {
                    &&& r is Ok
                    &&& r->Ok_0@ == (MessageView::<A>::SetGraphSubmissionIndex { execution_id: before.next_execution_id })
                    &&& final(self)@ == if before.must_update(document.network_hash, node_to_inspect, ignore_hash) {
                        checked.sent(GraphRuntimeRequest::GraphUpdate(GraphUpdate { network: document.network, node_to_inspect })).dispatched(
                            config,
                            None,
                            document_id,
                        )
                    } else {
                        before.dispatched(config, None, document_id)
                    }
                }
            }),
    {
        let DocumentSnapshot { network_hash, network, document_to_viewport, render_mode } = document;
        match self.update_node_graph(network_hash, network, node_to_inspect, ignore_hash) {
            Ok(()) => {},
            Err(e) => {
                return Err(e);
            },
        }
        self.submit_current_node_graph_evaluation(document_to_viewport, render_mode, document_id, viewport_resolution, viewport_scale, time, pointer)
    }

    /// Dispatches an evaluation that samples the pixels under the pointer.
    pub fn submit_eyedropper_preview(
        &mut self,
        document_id: DocumentId,
        transform: Transform,
        pointer: Vector2,
        resolution: Resolution,
        time: TimingInformation,
    ) -> (r: Result<Message<A>, String>)
        requires
            old(self)@.wf(),
            old(self)@.channel_open,
            old(self)@.next_execution_id < u64::MAX,
        ensures
            final(self)@.wf(),
            r is Ok,
            r->Ok_0@ == (MessageView::<A>::SetGraphSubmissionIndex { execution_id: old(self)@.next_execution_id }),
            final(self)@ == old(self)@.dispatched(eyedropper_render_config(transform, pointer, resolution, time), None, document_id),
    {
        let viewport = Footprint { transform, resolution };
        let render_config = RenderConfig {
            viewport,
            scale: Scalar(0x3FF0_0000_0000_0000),
            time,
            pointer,
            export_format: ExportFormat::Raster,
            render_mode: RenderMode::Normal,
            hide_artboards: false,
            for_export: false,
            for_eyedropper: true,
        };
        let execution_id = self.dispatch(render_config, None, document_id);
        Ok(Message::SetGraphSubmissionIndex { execution_id })
    }

    /// Sends the graph and dispatches an evaluation that exports `region`,
    /// the box that the document gave for the bounds of the export. Without
    /// a box there is nothing to export. The size of the box is recorded in
    /// the request that the ledger keeps. The cache is not consulted: an
    /// export always sends the graph, without a node to inspect. Once the
    /// graph is sent the cache holds what the engine now holds, the
    /// fingerprint of the document with no node to inspect, so that the next
    /// evaluation that inspects a node sends the graph again.
    pub fn submit_document_export(&mut self, document: DocumentSnapshot, document_id: DocumentId, export_config: ExportConfig, region: Option<ExportRegion>) -> (r: Result<
        (),
        String,
    >)
        requires
            old(self)@.wf(),
            old(self)@.next_execution_id < u64::MAX,
        ensures
            final(self)@.wf(),
            match region {
                None => r is Err && r->Err_0@ == "No bounding box"@ && final(self)@ == old(self)@,
                Some(region) => if !old(self)@.channel_open {
                    r is Err && r->Err_0@ == NodeRuntimeIO::<A>::closed_message() && final(self)@ == old(self)@
                } else {
                    r is Ok && final(self)@ == old(self)@.adopted(document.network_hash, None).sent(
                        GraphRuntimeRequest::GraphUpdate(GraphUpdate { network: document.network, node_to_inspect: None }),
                    ).dispatched(
                        export_render_config(region, export_config, document.render_mode),
                        Some(ExportConfig { size: region.resolution, ..export_config }),
                        document_id,
                    )
                },
            },
    {
        let DocumentSnapshot { network_hash, network, render_mode, .. } = document;
        let mut export_config = export_config;
        let export_format = if export_config.file_type == FileType::Svg {
            ExportFormat::Svg
        } else {
            ExportFormat::Raster
        };
        let region = match region {
            Some(region) => region,
            None => {
                return Err("No bounding box".to_owned());
            },
        };
        let render_config = RenderConfig {
            viewport: Footprint { resolution: region.resolution, transform: region.transform },
            scale: export_config.scale_factor,
            time: TimingInformation { time: Scalar(0), animation_seconds: 0, animation_subsec_nanos: 0 },
            pointer: Vector2 { x: Scalar(0), y: Scalar(0) },
            export_format,
            render_mode,
            hide_artboards: export_config.transparent_background,
            for_export: true,
            for_eyedropper: false,
        };
        export_config.size = region.resolution;
        match self.runtime_io.send(GraphRuntimeRequest::GraphUpdate(GraphUpdate { network, node_to_inspect: None })) {
            Ok(()) => {},
            Err(e) => {
                return Err(e);
            },
        }
        self.cache.adopt(network_hash, None);
        self.dispatch(render_config, Some(export_config), document_id);
        Ok(())
    }

    /// What is wrong with `update`, if anything: see [`fault_in`].
    pub fn routing_fault(&self, update: &NodeGraphUpdate<A>) -> (r: Option<LedgerFault>)
        ensures
            r == fault_in(self@, *update),
    {
        match update {
            NodeGraphUpdate::ExecutionResponse(response) => {
                if self.futures.is_stale(response.execution_id) {
                    None
                } else {
                    self.futures.fault(response.execution_id)
                }
            },
            NodeGraphUpdate::CompilationResponse(_) => None,
        }
    }

    /// Takes every result that is ready and routes each in its turn, with a
    /// watch for faults: see [`route_checked`]. Routing ends behind the first
    /// result that is reported as a failure, which is returned, and before
    /// the first with which something is wrong, which is returned as the
    /// fault and changes nothing; the results behind either are dropped.
    pub fn poll_checked(&mut self, document: &mut DocumentGeometry<A>, responses: &mut Vec<Message<A>>) -> (r: Result<(), PollError>)
        requires
            old(self)@.wf(),
        ensures
            final(self)@.wf(),
            ({
                let checked = route_checked(old(self)@.received(), *old(document), old(self)@.inbound);
                &&& final(self)@ == checked.routed.state
                &&& *final(document) == checked.routed.geometry
                &&& views(final(responses)@) == views(old(responses)@) + checked.routed.messages
                &&& match r {
                    Ok(()) => checked.fault is None && checked.routed.result is Ok,
                    Err(PollError::Failed(words)) => checked.fault is None && checked.routed.result == Err::<(), Seq<char>>(words@),
                    Err(PollError::Fault(fault)) => checked.fault == Some(fault),
                }
            }),
    {
        let ghost before = views(responses@);
        let ghost total = route_checked(old(self)@.received(), *old(document), old(self)@.inbound);
        let results = self.runtime_io.receive();
        let ghost added = Seq::<MessageView<A>>::empty();
        assert(before + added =~= before);
        assert(results@.skip(0) =~= results@);
        for response in it: results.into_iter()
            invariant
                it.seq() == results@,
                self@.wf(),
                before == views(old(responses)@),
                total == route_checked(old(self)@.received(), *old(document), old(self)@.inbound),
                views(responses@) == before + added,
                total.fault == route_checked(self@, *document, results@.skip(it.index() as int)).fault,
                total.routed == route_checked(self@, *document, results@.skip(it.index() as int)).routed.after(added),
        {
            let ghost rest = results@.skip(it.index() as int);
            let ghost state = self@;
            let ghost geometry = *document;
            let ghost step = route_update(state, geometry, response);
            assert(rest[0] == response);
            assert(rest.drop_first() =~= results@.skip(it.index() + 1));
            if let Some(fault) = self.routing_fault(&response) {
                assert(before + added + Seq::<MessageView<A>>::empty() =~= before + added);
                return Err(PollError::Fault(fault));
            }
            proof {
                lemma_no_fault_means_expected(state, response);
            }
            match self.process_update(document, responses, response) {
                Ok(()) => {},
                Err(e) => {
                    assert(views(responses@) =~= before + step.after(added).messages);
                    return Err(PollError::Failed(e));
                },
            }
            proof {
                let remaining = route_checked(step.state, step.geometry, rest.drop_first());
                assert(remaining.routed.after(step.messages).after(added).messages =~= remaining.routed.after(added + step.messages).messages);
                added = added + step.messages;
                assert(views(responses@) =~= before + added);
            }
        }
        assert(results@.skip(results@.len() as int) =~= Seq::<NodeGraphUpdate<A>>::empty());
        assert(before + added + Seq::<MessageView<A>>::empty() =~= before + added);
        Ok(())
    }

    /// Takes every result that is ready and routes each in its turn: see
    /// [`route_all`]. Stops at the first that is reported as a failure and
    /// returns it; the results behind it are dropped.
    pub fn poll_node_graph_evaluation(&mut self, document: &mut DocumentGeometry<A>, responses: &mut Vec<Message<A>>) -> (r: Result<(), String>)
        requires
            old(self)@.wf(),
            expects_all(old(self)@.received(), *old(document), old(self)@.inbound),
        ensures
            final(self)@.wf(),
            final(self)@ == route_all(old(self)@.received(), *old(document), old(self)@.inbound).state,
            *final(document) == route_all(old(self)@.received(), *old(document), old(self)@.inbound).geometry,
            views(final(responses)@) == views(old(responses)@) + route_all(old(self)@.received(), *old(document), old(self)@.inbound).messages,
            agrees(r, route_all(old(self)@.received(), *old(document), old(self)@.inbound).result),
    {
        let ghost before = views(responses@);
        let ghost total = route_all(old(self)@.received(), *old(document), old(self)@.inbound);
        let results = self.runtime_io.receive();
        let ghost added = Seq::<MessageView<A>>::empty();
        assert(before + added =~= before);
        assert(results@.skip(0) =~= results@);
        for response in it: results.into_iter()
            invariant
                it.seq() == results@,
                self@.wf(),
                before == views(old(responses)@),
                total == route_all(old(self)@.received(), *old(document), old(self)@.inbound),
                views(responses@) == before + added,
                expects_all(self@, *document, results@.skip(it.index() as int)),
                total == route_all(self@, *document, results@.skip(it.index() as int)).after(added),
        {
            let ghost rest = results@.skip(it.index() as int);
            let ghost step = route_update(self@, *document, response);
            assert(rest[0] == response);
            assert(rest.drop_first() =~= results@.skip(it.index() + 1));
            let ghost state = self@;
            let ghost geometry = *document;
            match self.process_update(document, responses, response) {
                Ok(()) => {},
                Err(e) => {
                    assert(route_all(state, geometry, rest) == step);
                    assert(views(responses@) =~= before + step.after(added).messages);
                    return Err(e);
                },
            }
            proof {
                let remaining = route_all(step.state, step.geometry, rest.drop_first());
                assert(route_all(state, geometry, rest) == remaining.after(step.messages));
                assert(remaining.after(step.messages).after(added).messages =~= remaining.after(added + step.messages).messages);
                added = added + step.messages;
                assert(views(responses@) =~= before + added);
            }
        }
        assert(results@.skip(results@.len() as int) =~= Seq::<NodeGraphUpdate<A>>::empty());
        assert(before + added + Seq::<MessageView<A>>::empty() =~= before + added);
        Ok(())
    }
}

/// Why polling ended early: a result was reported as a failure, in these
/// words, or something was wrong with a result.
#[derive(Debug, PartialEq, Eq)]
pub enum PollError {
    Failed(String),
    Fault(LedgerFault),
}

impl<A> NodeGraphExecutor<A> {
    /// Sends the graph with a recording tap on every input, for diagnosis,
    /// and returns the map of the taps. The stored fingerprint is replaced
    /// by `invalidation`, a value that the caller knows no graph of its own
    /// to hash to, so that the next ordinary evaluation sends the graph
    /// again; once the graph is sent, the cache also holds that the engine
    /// inspects no node. Fails, and sends nothing, if two nodes of the graph
    /// share an id, if the graph has no ids left for the taps, or if the
    /// engine has gone.
    pub fn update_node_graph_instrumented(&mut self, document: DocumentSnapshot, invalidation: u64) -> (r: Result<Instrumented, String>)
        ensures
            ({
                let invalidated = ExecutorState { node_graph_hash: invalidation, ..old(self)@ };
                let adopted = invalidated.adopted(invalidation, None);
                let tap = counted(id_limit(document.network) as u64);
                if !distinct_ids(document.network) {
                    r is Err && r->Err_0@ == InstrumentError::SharedId.words() && final(self)@ == invalidated
                } else if !has_room(document.network) {
                    r is Err && r->Err_0@ == InstrumentError::NoRoom.words() && final(self)@ == invalidated
                } else if !old(self)@.channel_open {
                    r is Err && r->Err_0@ == NodeRuntimeIO::<A>::closed_message() && final(self)@ == invalidated
                } else {
                    &&& r is Ok
                    &&& r->Ok_0@ == records_of(document.network, tap, 0, Seq::empty())
                    &&& fresh_taps(document.network, tap, 0)
                    &&& final(self)@.outbound.len() == adopted.outbound.len() + 1
                    &&& final(self)@ == (ExecutorState { outbound: final(self)@.outbound, ..adopted })
                    &&& final(self)@.outbound.drop_last() == adopted.outbound
                    &&& final(self)@.outbound.last() matches GraphRuntimeRequest::GraphUpdate(update)
                    &&& update.node_to_inspect is None
                    &&& instrumented(document.network, update.network, tap, 0)
                }
            }),
    {
        self.cache.overwrite_fingerprint(invalidation);
        let DocumentSnapshot { network, .. } = document;
        let mut network = network;
        let instrumented = match Instrumented::new(&mut network) {
            Ok(instrumented) => instrumented,
            Err(error) => {
                return Err(error.message());
            },
        };
        let ghost before = self.runtime_io.outbound();
        match self.runtime_io.send(GraphRuntimeRequest::GraphUpdate(GraphUpdate { network, node_to_inspect: None })) {
            Ok(()) => {},
            Err(e) => {
                return Err(e);
            },
        }
        self.cache.adopt(invalidation, None);
        assert(self.runtime_io.outbound().drop_last() =~= before);
        Ok(instrumented)
    }
}

} // verus!
