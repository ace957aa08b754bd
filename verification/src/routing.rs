//! What becomes of the messages of the engine: the rule by which each is
//! routed, and what the rule implies for results that arrive out of order.

use crate::document::NodeId;
use crate::ledger::{after_match, fault_of, holds, lemma_monotonic_staleness, lemma_pop_after_retire, lemma_retire_then_pop_finds_entry, retained, LedgerFault};
use crate::messages::{CompilationResponse, ExecutionResponse, MessageView, NodeGraphUpdate};
use crate::render::TaggedValueView;
use crate::router::{canvas_after, export_outcome, preview_messages, render_outcome, Outcome};
use crate::state::{ExecutionContext, ExecutorState};
use vstd::prelude::*;

verus! {

/// The geometry that the document derives from the last good output. A
/// record that is `None` has been cleared.
#[derive(Debug, PartialEq, Eq)]
pub struct DocumentGeometry<A> {
    pub click_targets: Option<A>,
    pub vector_modify: Option<A>,
}

/// What routing results comes to: the runtime and the geometry afterwards,
/// the messages that were added, and the failure that ended it, if any.
pub struct Routed<A> {
    pub state: ExecutorState<A>,
    pub geometry: DocumentGeometry<A>,
    pub messages: Seq<MessageView<A>>,
    pub result: Result<(), Seq<char>>,
}

impl<A> Routed<A> {
    /// The same outcome behind messages that were added before.
    pub open spec fn after(self, earlier: Seq<MessageView<A>>) -> Self {
        Routed { messages: earlier + self.messages, ..self }
    }
}

/// What the caller is told when the graph did not compile or did not run.
pub open spec fn failure_message(words: Seq<char>) -> Seq<char> {
    "Node graph evaluation failed:\n"@ + words
}

/// The messages of the engine for the frontend, passed on in their order.
pub open spec fn forwarded<A>(messages: Seq<A>) -> Seq<MessageView<A>> {
    messages.map_values(|a: A| MessageView::Frontend(a))
}

/// What the data panel is told: the inspected value, if a node is being
/// inspected and the engine sent one; to clear itself, if not.
pub open spec fn data_panel_message<A>(node_to_inspect: Option<NodeId>, inspect_result: Option<A>) -> MessageView<A> {
    match inspect_result {
        Some(inspect_result) if node_to_inspect is Some => MessageView::UpdateDataPanel { inspect_result },
        _ => MessageView::ClearDataPanel,
    }
}

/// What the value of an evaluation comes to, by the purpose that its entry
/// in the ledger records.
pub open spec fn purpose_outcome<A>(state: ExecutorState<A>, context: ExecutionContext, value: TaggedValueView<A>) -> Outcome<A> {
    match context.export_config {
        Some(export_config) => export_outcome(value, export_config@, state.raster_encode),
        None => if context.render_config.for_eyedropper {
            Outcome { result: Ok(()), messages: preview_messages(value, state.raster_encode) }
        } else {
            render_outcome(value, state.last_svg_canvas)
        },
    }
}

/// The engine's answer to an evaluation can be routed: unless it comes too
/// late, the ledger has an entry under its id.
pub open spec fn expects<A>(state: ExecutorState<A>, update: NodeGraphUpdate<A>) -> bool {
    update matches NodeGraphUpdate::ExecutionResponse(response) ==> (response.execution_id >= state.retired_below ==> holds(
        state.pending,
        response.execution_id,
    ))
}

/// What routing the result of an evaluation comes to.
///
/// A result under an id below that of a result handled before comes too
/// late: it is dropped unopened, and nothing changes.
///
/// Every other result retires the older entries of the ledger and takes the
/// entry under its own id, and the overlays are asked to be drawn.
///
/// A failure then clears the geometry that was derived from the last good
/// output, and is reported.
///
/// A value is shown, exported or sampled as its entry says. Before that the
/// engine's messages are passed on and the changed vector data is adopted;
/// after it the editor is told that the run is done, and the data panel what
/// was inspected. If the value cannot be used as the entry asks, that is
/// reported in place of the last two.
pub open spec fn route_execution<A>(state: ExecutorState<A>, geometry: DocumentGeometry<A>, response: ExecutionResponse<A>) -> Routed<A> {
    let id = response.execution_id;
    if id < state.retired_below {
        Routed { state, geometry, messages: Seq::empty(), result: Ok(()) }
    } else {
        let context = retained(state.pending, id)[0].1;
        let matched = ExecutorState { pending: after_match(state.pending, id), retired_below: id, ..state };
        match response.result {
            Err(words) => Routed {
                state: matched,
                geometry: DocumentGeometry { click_targets: None, vector_modify: None },
                messages: seq![MessageView::DrawOverlays],
                result: Err(failure_message(words@)),
            },
            Ok(value) => {
                let outcome = purpose_outcome(state, context, value@);
                let shown = context.export_config is None && !context.render_config.for_eyedropper && outcome.result is Ok;
                let head = seq![MessageView::DrawOverlays] + forwarded(response.responses@) + outcome.messages;
                Routed {
                    state: ExecutorState {
                        last_svg_canvas: if shown {
                            canvas_after(value@, state.last_svg_canvas)
                        } else {
                            state.last_svg_canvas
                        },
                        ..matched
                    },
                    geometry: DocumentGeometry { vector_modify: Some(response.vector_modify), ..geometry },
                    messages: if outcome.result is Ok {
                        head + seq![
                            MessageView::TriggerGraphRun { execution_id: id, document_id: context.document_id },
                            data_panel_message(state.node_to_inspect, response.inspect_result),
                        ]
                    } else {
                        head
                    },
                    result: outcome.result,
                }
            },
        }
    }
}

/// What routing the result of a compilation comes to. The types that were
/// resolved are always passed on, and the graph is sent to the frontend. If
/// the graph did not compile, the geometry that was derived from the last
/// good output is cleared as well, and the error is reported.
pub open spec fn route_compilation<A>(state: ExecutorState<A>, geometry: DocumentGeometry<A>, response: CompilationResponse<A>) -> Routed<A> {
    match response.result {
        Err((incomplete_delta, words)) => Routed {
            state,
            geometry: DocumentGeometry { click_targets: None, vector_modify: None },
            messages: seq![
                MessageView::UpdateTypes { resolved_types: incomplete_delta, node_graph_errors: response.node_graph_errors },
                MessageView::SendGraph,
            ],
            result: Err(failure_message(words@)),
        },
        Ok(type_delta) => Routed {
            state,
            geometry,
            messages: seq![
                MessageView::UpdateTypes { resolved_types: type_delta, node_graph_errors: response.node_graph_errors },
                MessageView::SendGraph,
            ],
            result: Ok(()),
        },
    }
}

/// What routing one message of the engine comes to.
pub open spec fn route_update<A>(state: ExecutorState<A>, geometry: DocumentGeometry<A>, update: NodeGraphUpdate<A>) -> Routed<A> {
    match update {
        NodeGraphUpdate::ExecutionResponse(response) => route_execution(state, geometry, response),
        NodeGraphUpdate::CompilationResponse(response) => route_compilation(state, geometry, response),
    }
}

/// What routing a batch comes to: each message in its turn, up to the first
/// that is reported as a failure; those behind it are dropped.
pub open spec fn route_all<A>(state: ExecutorState<A>, geometry: DocumentGeometry<A>, updates: Seq<NodeGraphUpdate<A>>) -> Routed<A>
    decreases updates.len(),
{
    if updates.len() == 0 {
        Routed { state, geometry, messages: Seq::empty(), result: Ok(()) }
    } else {
        let first = route_update(state, geometry, updates[0]);
        if first.result is Err {
            first
        } else {
            route_all(first.state, first.geometry, updates.drop_first()).after(first.messages)
        }
    }
}

/// Every message of the batch that is routed can be routed.
pub open spec fn expects_all<A>(state: ExecutorState<A>, geometry: DocumentGeometry<A>, updates: Seq<NodeGraphUpdate<A>>) -> bool
    decreases updates.len(),
{
    updates.len() > 0 ==> {
        let first = route_update(state, geometry, updates[0]);
        &&& expects(state, updates[0])
        &&& first.result is Ok ==> expects_all(first.state, first.geometry, updates.drop_first())
    }
}

/// Routing keeps the runtime in order: after any message that can be routed
/// the ledger still grows along its ids, holds only ids that were issued,
/// and none below the mark of the stale ones.
pub proof fn lemma_routing_keeps_order<A>(state: ExecutorState<A>, geometry: DocumentGeometry<A>, update: NodeGraphUpdate<A>)
    requires
        state.wf(),
        expects(state, update),
    ensures
        route_update(state, geometry, update).state.wf(),
{
    if let NodeGraphUpdate::ExecutionResponse(response) = update {
        let id = response.execution_id;
        if id >= state.retired_below {
            let k = choose|k: int| 0 <= k < state.pending.len() && (#[trigger] state.pending[k]).0 == id;
            lemma_retire_then_pop_finds_entry(state.pending, k);
            lemma_monotonic_staleness(state.pending, k, k);
            let rest = after_match(state.pending, id);
            assert forall|i: int| 0 <= i < rest.len() implies (#[trigger] rest[i]).0 >= id && rest[i].0 < state.next_execution_id by {
                assert(rest[i] == state.pending[i + k + 1]);
            }
        }
    }
}

/// Once the result of an evaluation has been routed, be it a value or a
/// failure, the result of every evaluation that was dispatched before it
/// comes too late: whatever it holds, routing it changes nothing and adds no
/// message.
pub proof fn lemma_older_result_is_dropped<A>(
    state: ExecutorState<A>,
    geometry: DocumentGeometry<A>,
    applied: ExecutionResponse<A>,
    late: ExecutionResponse<A>,
)
    requires
        applied.execution_id >= state.retired_below,
        late.execution_id < applied.execution_id,
    ensures
        ({
            let first = route_execution(state, geometry, applied);
            route_execution(first.state, first.geometry, late) == (Routed {
                state: first.state,
                geometry: first.geometry,
                messages: Seq::empty(),
                result: Ok(()),
            })
        }),
{
}

/// Once the result of an evaluation has been routed, every evaluation that
/// was dispatched after it is still pending with the context it was
/// dispatched with, and its result can still be routed and does not come too
/// late.
pub proof fn lemma_newer_result_is_eligible<A>(
    state: ExecutorState<A>,
    geometry: DocumentGeometry<A>,
    applied: ExecutionResponse<A>,
    newer: ExecutionResponse<A>,
)
    requires
        state.wf(),
        applied.execution_id >= state.retired_below,
        holds(state.pending, applied.execution_id),
        holds(state.pending, newer.execution_id),
        newer.execution_id > applied.execution_id,
    ensures
        ({
            let first = route_execution(state, geometry, applied);
            &&& newer.execution_id >= first.state.retired_below
            &&& holds(first.state.pending, newer.execution_id)
            &&& expects(first.state, NodeGraphUpdate::ExecutionResponse(newer))
            &&& retained(first.state.pending, newer.execution_id)[0] == retained(state.pending, newer.execution_id)[0]
        }),
{
    let pending = state.pending;
    let k = choose|k: int| 0 <= k < pending.len() && (#[trigger] pending[k]).0 == applied.execution_id;
    let j = choose|j: int| 0 <= j < pending.len() && (#[trigger] pending[j]).0 == newer.execution_id;
    lemma_monotonic_staleness(pending, k, j);
    lemma_retire_then_pop_finds_entry(pending, k);
    lemma_retire_then_pop_finds_entry(pending, j);
    let rest = after_match(pending, applied.execution_id);
    assert(j > k) by {
        if j < k {
            assert(pending[j].0 < pending[k].0);
        }
    }
    assert(rest[j - k - 1] == pending[j]);
    lemma_retire_then_pop_finds_entry(rest, j - k - 1);
}

/// It makes no difference how the results are cut into batches: routing a
/// batch and then, unless it ended in a failure, a second batch comes to the
/// same as routing the two as one.
pub proof fn lemma_batches_can_be_joined<A>(state: ExecutorState<A>, geometry: DocumentGeometry<A>, first: Seq<NodeGraphUpdate<A>>, second: Seq<NodeGraphUpdate<A>>)
    ensures
        route_all(state, geometry, first + second) == ({
            let routed = route_all(state, geometry, first);
            if routed.result is Err {
                routed
            } else {
                route_all(routed.state, routed.geometry, second).after(routed.messages)
            }
        }),
    decreases first.len(),
{
    if first.len() == 0 {
        assert(first + second =~= second);
        let whole = route_all(state, geometry, second);
        assert(whole.after(Seq::empty()).messages =~= whole.messages);
    } else {
        let head = route_update(state, geometry, first[0]);
        assert((first + second)[0] == first[0]);
        assert((first + second).drop_first() =~= first.drop_first() + second);
        if head.result is Ok {
            lemma_batches_can_be_joined(head.state, head.geometry, first.drop_first(), second);
            let rest = route_all(head.state, head.geometry, first.drop_first());
            if rest.result is Ok {
                let last = route_all(rest.state, rest.geometry, second);
                assert(last.after(rest.messages).after(head.messages).messages =~= last.after(rest.after(head.messages).messages).messages);
            }
        }
    }
}

/// What is wrong with a message of the engine, if anything: the result of
/// an evaluation that does not come too late and that the ledger has no
/// entry for.
pub open spec fn fault_in<A>(state: ExecutorState<A>, update: NodeGraphUpdate<A>) -> Option<LedgerFault> {
    match update {
        NodeGraphUpdate::ExecutionResponse(response) => if response.execution_id < state.retired_below {
            None
        } else {
            fault_of(state.pending, response.execution_id)
        },
        NodeGraphUpdate::CompilationResponse(_) => None,
    }
}

/// A message can be routed exactly if nothing is wrong with it.
pub proof fn lemma_no_fault_means_expected<A>(state: ExecutorState<A>, update: NodeGraphUpdate<A>)
    requires
        state.wf(),
    ensures
        expects(state, update) <==> fault_in(state, update) is None,
{
    if let NodeGraphUpdate::ExecutionResponse(response) = update {
        lemma_pop_after_retire(state.pending, response.execution_id);
    }
}

/// What routing a batch with a watch for faults comes to: what was routed
/// up to the message with which something was wrong, and what was wrong
/// with it.
pub struct Checked<A> {
    pub routed: Routed<A>,
    pub fault: Option<LedgerFault>,
}

/// What routing a batch with a watch for faults comes to. Each message is
/// routed in its turn. Routing ends before the first message with which
/// something is wrong, which is reported and changes nothing, and behind the
/// first that is reported as a failure; the messages behind either are
/// dropped.
pub open spec fn route_checked<A>(state: ExecutorState<A>, geometry: DocumentGeometry<A>, updates: Seq<NodeGraphUpdate<A>>) -> Checked<A>
    decreases updates.len(),
{
    if updates.len() == 0 {
        Checked { routed: Routed { state, geometry, messages: Seq::empty(), result: Ok(()) }, fault: None }
    } else if fault_in(state, updates[0]) is Some {
        Checked { routed: Routed { state, geometry, messages: Seq::empty(), result: Ok(()) }, fault: fault_in(state, updates[0]) }
    } else {
        let first = route_update(state, geometry, updates[0]);
        if first.result is Err {
            Checked { routed: first, fault: None }
        } else {
            let rest = route_checked(first.state, first.geometry, updates.drop_first());
            Checked { routed: rest.routed.after(first.messages), fault: rest.fault }
        }
    }
}

/// Where every message of a batch can be routed, the watch for faults finds
/// none and changes nothing.
pub proof fn lemma_checked_routing_agrees<A>(state: ExecutorState<A>, geometry: DocumentGeometry<A>, updates: Seq<NodeGraphUpdate<A>>)
    requires
        state.wf(),
        expects_all(state, geometry, updates),
    ensures
        route_checked(state, geometry, updates).fault is None,
        route_checked(state, geometry, updates).routed == route_all(state, geometry, updates),
    decreases updates.len(),
{
    if updates.len() > 0 {
        lemma_no_fault_means_expected(state, updates[0]);
        let first = route_update(state, geometry, updates[0]);
        if first.result is Ok {
            lemma_routing_keeps_order(state, geometry, updates[0]);
            lemma_checked_routing_agrees(first.state, first.geometry, updates.drop_first());
        }
    }
}

/// No context is ever taken for another evaluation: where nothing is wrong
/// with a result that does not come too late, the context under which it is
/// routed is the one that was recorded with its own id.
pub proof fn lemma_context_is_its_own<A>(state: ExecutorState<A>, response: ExecutionResponse<A>, k: int)
    requires
        state.wf(),
        0 <= k < state.pending.len(),
        state.pending[k].0 == response.execution_id,
        response.execution_id >= state.retired_below,
    ensures
        fault_in(state, NodeGraphUpdate::ExecutionResponse(response)) is None,
        retained(state.pending, response.execution_id)[0] == state.pending[k],
{
    lemma_pop_after_retire(state.pending, response.execution_id);
}

} // verus!
