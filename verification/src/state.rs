//! What the runtime knows at any moment, as plain values, and what a
//! dispatch makes of it.

use crate::document::{DocumentId, NodeId};
use crate::export::{ExportConfig, FileType};
use crate::ledger::{ascending, at_or_above};
use crate::messages::{ExecutionRequest, GraphRuntimeRequest, NodeGraphUpdate};
use crate::network::NodeNetwork;
use crate::render::{ExportFormat, Footprint, RenderConfig, RenderMode, Resolution, Scalar, SurfaceFrame, TimingInformation, Transform, Vector2};
use vstd::prelude::*;

verus! {

/// What a dispatched evaluation was for.
#[derive(Clone, Copy, Debug, PartialEq, Eq, Structural)]
pub enum Purpose {
    /// Show the artwork.
    Render,
    /// Write the artwork to a file.
    Export,
    /// Sample the pixels under the pointer.
    Preview,
}

/// What the runtime remembers of an evaluation until its result arrives.
#[derive(Clone, Debug, PartialEq, Eq)]
pub struct ExecutionContext {
    pub render_config: RenderConfig,
    pub export_config: Option<ExportConfig>,
    pub document_id: DocumentId,
}

impl ExecutionContext {
    /// An evaluation with an export request is an export; otherwise it is a
    /// preview if it was made for the eyedropper, and a render if not.
    pub open spec fn purpose_of(&self) -> Purpose {
        if self.export_config is Some {
            Purpose::Export
        } else if self.render_config.for_eyedropper {
            Purpose::Preview
        } else {
            Purpose::Render
        }
    }

    /// What the evaluation was for.
    pub fn purpose(&self) -> (r: Purpose)
        ensures
            r == self.purpose_of(),
    {
        if self.export_config.is_some() {
            Purpose::Export
        } else if self.render_config.for_eyedropper {
            Purpose::Preview
        } else {
            Purpose::Render
        }
    }
}

/// What the controller reads off the document for one evaluation cycle: the
/// fingerprint of its graph, the graph itself, and how it is shown.
#[derive(Debug, PartialEq, Eq)]
pub struct DocumentSnapshot {
    pub network_hash: u64,
    pub network: NodeNetwork,
    pub document_to_viewport: Transform,
    pub render_mode: RenderMode,
}

/// The box of the artwork that an export covers: its size in pixels, and the
/// transform that moves its corner to the origin.
#[derive(Clone, Copy, Debug, PartialEq, Eq, Structural)]
pub struct ExportRegion {
    pub resolution: Resolution,
    pub transform: Transform,
}

/// The number one.
pub open spec fn scalar_one() -> Scalar {
    Scalar(0x3FF0_0000_0000_0000)
}

/// The number zero.
pub open spec fn scalar_zero() -> Scalar {
    Scalar(0)
}

/// The configuration of an evaluation that shows the document in the
/// viewport.
pub open spec fn viewport_render_config(
    document_to_viewport: Transform,
    render_mode: RenderMode,
    viewport_resolution: Resolution,
    viewport_scale: Scalar,
    time: TimingInformation,
    pointer: Vector2,
) -> RenderConfig {
    RenderConfig {
        viewport: Footprint { transform: document_to_viewport, resolution: viewport_resolution },
        scale: viewport_scale,
        time,
        pointer,
        export_format: ExportFormat::Raster,
        render_mode,
        hide_artboards: false,
        for_export: false,
        for_eyedropper: false,
    }
}

/// The configuration of an evaluation that samples the pixels under the
/// pointer: at scale one, drawn normally.
pub open spec fn eyedropper_render_config(transform: Transform, pointer: Vector2, resolution: Resolution, time: TimingInformation) -> RenderConfig {
    RenderConfig {
        viewport: Footprint { transform, resolution },
        scale: scalar_one(),
        time,
        pointer,
        export_format: ExportFormat::Raster,
        render_mode: RenderMode::Normal,
        hide_artboards: false,
        for_export: false,
        for_eyedropper: true,
    }
}

/// The configuration of an evaluation that exports `region`: markup for a
/// vector file and a raster for every other kind, with the clock and the
/// pointer at rest, and without artboards where the background is to stay
/// transparent.
pub open spec fn export_render_config(region: ExportRegion, config: ExportConfig, render_mode: RenderMode) -> RenderConfig {
    RenderConfig {
        viewport: Footprint { resolution: region.resolution, transform: region.transform },
        scale: config.scale_factor,
        time: TimingInformation { time: scalar_zero(), animation_seconds: 0, animation_subsec_nanos: 0 },
        pointer: Vector2 { x: scalar_zero(), y: scalar_zero() },
        export_format: if config.file_type == FileType::Svg {
            ExportFormat::Svg
        } else {
            ExportFormat::Raster
        },
        render_mode,
        hide_artboards: config.transparent_background,
        for_export: true,
        for_eyedropper: false,
    }
}

/// The state of the runtime, as plain values.
pub struct ExecutorState<A> {
    /// The id that the next evaluation is dispatched under.
    pub next_execution_id: u64,
    /// The evaluations whose result is owed, oldest first.
    pub pending: Seq<(u64, ExecutionContext)>,
    /// Results under an id below this one arrive too late.
    pub retired_below: u64,
    /// Fingerprint of the graph that the engine holds.
    pub node_graph_hash: u64,
    /// Node that the engine was asked to inspect.
    pub node_to_inspect: Option<NodeId>,
    /// The live surface that was shown last.
    pub last_svg_canvas: Option<SurfaceFrame>,
    /// Requests that the engine has not taken yet.
    pub outbound: Seq<GraphRuntimeRequest<A>>,
    /// Results that have not been routed yet.
    pub inbound: Seq<NodeGraphUpdate<A>>,
    /// The engine still listens.
    pub channel_open: bool,
    /// This build can encode rasters.
    pub raster_encode: bool,
}

impl<A> ExecutorState<A> {
    /// Every pending id was issued, ids grow along the queue, and none is
    /// below the mark of the stale ones.
    pub open spec fn wf(self) -> bool {
        &&& ascending(self.pending)
        &&& at_or_above(self.pending, self.retired_below)
        &&& forall|i: int| 0 <= i < self.pending.len() ==> (#[trigger] self.pending[i]).0 < self.next_execution_id
        &&& self.retired_below <= self.next_execution_id
    }

    /// The state once `request` is in line for the engine.
    pub open spec fn sent(self, request: GraphRuntimeRequest<A>) -> Self {
        ExecutorState { outbound: self.outbound.push(request), ..self }
    }

    /// The state once an evaluation with this configuration has been
    /// dispatched: the request is in line under the next id, and the ledger
    /// has an entry for it.
    pub open spec fn dispatched(self, render_config: RenderConfig, export_config: Option<ExportConfig>, document_id: DocumentId) -> Self {
        let id = self.next_execution_id;
        let file_type = match export_config {
            Some(config) => Some(config.file_type),
            None => None,
        };
        ExecutorState {
            next_execution_id: (id + 1) as u64,
            outbound: self.outbound.push(
                GraphRuntimeRequest::ExecutionRequest(ExecutionRequest { execution_id: id, render_config, export_file_type: file_type }),
            ),
            pending: self.pending.push((id, ExecutionContext { render_config, export_config, document_id })),
            ..self
        }
    }

    /// The state once the results that were ready have been taken off the
    /// channel.
    pub open spec fn received(self) -> Self {
        ExecutorState { inbound: Seq::empty(), ..self }
    }

    /// The state once the cache has adopted the pair of a graph that was
    /// sent.
    pub open spec fn adopted(self, network_hash: u64, node_to_inspect: Option<NodeId>) -> Self {
        ExecutorState { node_graph_hash: network_hash, node_to_inspect, ..self }
    }

    /// The state once the cache has been asked about a graph.
    pub open spec fn checked(self, network_hash: u64, node_to_inspect: Option<NodeId>, ignore_hash: bool) -> Self {
        if self.must_update(network_hash, node_to_inspect, ignore_hash) {
            ExecutorState { node_graph_hash: network_hash, node_to_inspect, ..self }
        } else {
            self
        }
    }

    /// The engine needs the graph again: its fingerprint or the node to
    /// inspect has changed, or the caller insists.
    pub open spec fn must_update(self, network_hash: u64, node_to_inspect: Option<NodeId>, ignore_hash: bool) -> bool {
        network_hash != self.node_graph_hash || self.node_to_inspect != node_to_inspect || ignore_hash
    }
}

/// The cache never claims more than the engine was told. Once it has
/// adopted the pair of a graph that was sent, a check with that pair finds
/// nothing to send, and a check with the same graph and any other node to
/// inspect finds that the graph must be sent again. So after a graph has
/// been sent without a node to inspect, as an export sends it, the next
/// evaluation that inspects a node tells the engine so.
pub proof fn lemma_cache_follows_what_was_sent<A>(state: ExecutorState<A>, network_hash: u64, sent: Option<NodeId>, asked: Option<NodeId>)
    ensures
        !state.adopted(network_hash, sent).must_update(network_hash, sent, false),
        asked != sent ==> state.adopted(network_hash, sent).must_update(network_hash, asked, false),
        asked != sent ==> state.adopted(network_hash, sent).checked(network_hash, asked, false).node_to_inspect == asked,
{
}

} // verus!
