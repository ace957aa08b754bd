//! What travels between the controller and the engine, and what the runtime
//! asks of the rest of the editor once a result has been routed.

use crate::document::{DocumentId, NodeId};
use crate::export::FileType;
use crate::network::NodeNetwork;
use crate::render::{RenderConfig, Resolution, Scalar, TaggedValue};
use vstd::prelude::*;

verus! {

/// A new graph for the engine to compile, and the node to inspect in it.
#[derive(Debug, PartialEq, Eq)]
pub struct GraphUpdate {
    pub network: NodeNetwork,
    pub node_to_inspect: Option<NodeId>,
}

/// One evaluation of the compiled graph.
#[derive(Clone, Copy, Debug, PartialEq, Eq, Structural)]
pub struct ExecutionRequest {
    pub execution_id: u64,
    pub render_config: RenderConfig,
    pub export_file_type: Option<FileType>,
}

/// What the controller sends to the engine. Only an execution request
/// carries an id; the two updates of side data are never matched to a result.
#[derive(Debug, PartialEq, Eq)]
pub enum GraphRuntimeRequest<A> {
    GraphUpdate(GraphUpdate),
    ExecutionRequest(ExecutionRequest),
    FontCacheUpdate(A),
    EditorPreferencesUpdate(A),
}

/// The outcome of one evaluation.
#[derive(Debug, PartialEq, Eq)]
pub struct ExecutionResponse<A> {
    pub execution_id: u64,
    pub result: Result<TaggedValue<A>, String>,
    /// Messages of the engine for the frontend, passed on as they are.
    pub responses: Vec<A>,
    pub vector_modify: A,
    /// The value at the inspected node, if one was inspected.
    pub inspect_result: Option<A>,
}

/// The outcome of a compilation: the types that were resolved, and with
/// them the error if the graph did not compile.
#[derive(Debug, PartialEq, Eq)]
pub struct CompilationResponse<A> {
    pub result: Result<A, (A, String)>,
    pub node_graph_errors: A,
}

/// What the engine sends back to the controller.
#[derive(Debug, PartialEq, Eq)]
pub enum NodeGraphUpdate<A> {
    ExecutionResponse(ExecutionResponse<A>),
    CompilationResponse(CompilationResponse<A>),
}

/// What the runtime asks of the rest of the editor.
#[derive(Debug, PartialEq, Eq)]
pub enum Message<A> {
    DrawOverlays,
    /// A message of the engine for the frontend.
    Frontend(A),
    UpdateImageData { image_data: A },
    UpdateDocumentArtwork { svg: String },
    UpdateUpstreamTransforms { upstream_footprints: A, local_transforms: A, first_element_source_id: A },
    UpdateClickTargets { click_targets: A },
    UpdateClipTargets { clip_targets: A },
    RenderScrollbars,
    RenderRulers,
    /// Write `content` to a file called `name`.
    TriggerSaveFile { name: String, content: Vec<u8> },
    /// Rasterise the markup at `size` times `scale_factor` and offer it for
    /// download.
    TriggerExportImage { svg: String, name: String, mime: String, size: Resolution, scale_factor: Scalar },
    /// Transcribe the raster into text art and save it under `name`.
    SaveTextArt { name: String, data: Vec<u8>, width: u32, height: u32 },
    /// The pixels under the pointer, for the preview of the eyedropper.
    PreviewImage { data: Vec<u8>, width: u32, height: u32 },
    TriggerGraphRun { execution_id: u64, document_id: DocumentId },
    SetGraphSubmissionIndex { execution_id: u64 },
    UpdateDataPanel { inspect_result: A },
    ClearDataPanel,
    UpdateTypes { resolved_types: A, node_graph_errors: A },
    SendGraph,
}

/// A message, as plain values.
pub enum MessageView<A> {
    DrawOverlays,
    Frontend(A),
    UpdateImageData { image_data: A },
    UpdateDocumentArtwork { svg: Seq<char> },
    UpdateUpstreamTransforms { upstream_footprints: A, local_transforms: A, first_element_source_id: A },
    UpdateClickTargets { click_targets: A },
    UpdateClipTargets { clip_targets: A },
    RenderScrollbars,
    RenderRulers,
    TriggerSaveFile { name: Seq<char>, content: Seq<u8> },
    TriggerExportImage { svg: Seq<char>, name: Seq<char>, mime: Seq<char>, size: Resolution, scale_factor: Scalar },
    SaveTextArt { name: Seq<char>, data: Seq<u8>, width: u32, height: u32 },
    PreviewImage { data: Seq<u8>, width: u32, height: u32 },
    TriggerGraphRun { execution_id: u64, document_id: DocumentId },
    SetGraphSubmissionIndex { execution_id: u64 },
    UpdateDataPanel { inspect_result: A },
    ClearDataPanel,
    UpdateTypes { resolved_types: A, node_graph_errors: A },
    SendGraph,
}

impl<A> View for Message<A> {
    type V = MessageView<A>;

    open spec fn view(&self) -> MessageView<A> {
        match *self {
            Message::DrawOverlays => MessageView::DrawOverlays,
            Message::Frontend(a) => MessageView::Frontend(a),
            Message::UpdateImageData { image_data } => MessageView::UpdateImageData { image_data },
            Message::UpdateDocumentArtwork { svg } => MessageView::UpdateDocumentArtwork { svg: svg@ },
            Message::UpdateUpstreamTransforms { upstream_footprints, local_transforms, first_element_source_id } => MessageView::UpdateUpstreamTransforms {
                upstream_footprints,
                local_transforms,
                first_element_source_id,
            },
            Message::UpdateClickTargets { click_targets } => MessageView::UpdateClickTargets { click_targets },
            Message::UpdateClipTargets { clip_targets } => MessageView::UpdateClipTargets { clip_targets },
            Message::RenderScrollbars => MessageView::RenderScrollbars,
            Message::RenderRulers => MessageView::RenderRulers,
            Message::TriggerSaveFile { name, content } => MessageView::TriggerSaveFile { name: name@, content: content@ },
            Message::TriggerExportImage { svg, name, mime, size, scale_factor } => MessageView::TriggerExportImage {
                svg: svg@,
                name: name@,
                mime: mime@,
                size,
                scale_factor,
            },
            Message::SaveTextArt { name, data, width, height } => MessageView::SaveTextArt { name: name@, data: data@, width, height },
            Message::PreviewImage { data, width, height } => MessageView::PreviewImage { data: data@, width, height },
            Message::TriggerGraphRun { execution_id, document_id } => MessageView::TriggerGraphRun { execution_id, document_id },
            Message::SetGraphSubmissionIndex { execution_id } => MessageView::SetGraphSubmissionIndex { execution_id },
            Message::UpdateDataPanel { inspect_result } => MessageView::UpdateDataPanel { inspect_result },
            Message::ClearDataPanel => MessageView::ClearDataPanel,
            Message::UpdateTypes { resolved_types, node_graph_errors } => MessageView::UpdateTypes { resolved_types, node_graph_errors },
            Message::SendGraph => MessageView::SendGraph,
        }
    }
}

/// The messages of a queue, each as plain values.
pub open spec fn views<A>(messages: Seq<Message<A>>) -> Seq<MessageView<A>> {
    messages.map_values(|m: Message<A>| m@)
}

} // verus!
