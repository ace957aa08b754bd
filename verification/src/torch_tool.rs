//! The torch tool: the user drags the light that a shadow is cast from.

use crate::document::NodeId;
use crate::network::InputValue;
use crate::render::{Scalar, Vector2};
use crate::text::same_text;
use vstd::prelude::*;

verus! {

/// The surface that overlays are drawn on.
#[derive(Clone, Copy, Debug, PartialEq, Eq, Hash, Structural)]
pub struct OverlayContext {
    pub size: Vector2,
    pub device_pixel_ratio: Scalar,
}

/// What the tool can be told.
#[derive(Clone, Copy, Debug, PartialEq, Eq, Hash, Structural)]
pub enum TorchToolMessage {
    Abort,
    Overlays { context: OverlayContext },
    PointerDown,
    PointerMove,
    PointerUp,
}

/// Whether a light is being dragged.
#[derive(Clone, Copy, Debug, PartialEq, Eq, Structural)]
pub enum TorchToolFsmState {
    Ready,
    Dragging,
}

/// The light that is being dragged: the layer it belongs to, the node that
/// casts the shadow, and the input of that node that holds its position.
#[derive(Clone, Copy, Debug, PartialEq, Eq, Structural)]
pub struct SelectedLight {
    pub layer: NodeId,
    pub node_id: NodeId,
    pub input_index: usize,
}

/// What the tool remembers between messages.
#[derive(Clone, Copy, Debug, PartialEq, Eq, Structural)]
pub struct TorchToolData {
    pub drag_start: Vector2,
    pub selected_node: Option<SelectedLight>,
}

/// One input of a node as the editor shows it: the name it is shown under,
/// and the constant it holds, if it holds one.
#[derive(Clone, Debug, PartialEq, Eq)]
pub struct NamedInput {
    pub name: String,
    pub value: Option<InputValue>,
}

/// What the inputs of a node say of a light: whether the node casts its
/// shadow from one, where the light stands, and which input says so.
#[derive(Clone, Copy, Debug, PartialEq, Eq, Structural)]
pub struct LightSource {
    pub is_drop_shadow: bool,
    pub light_position: Vector2,
    pub light_position_index: usize,
}

/// What the pointer does at the moment of a message: where it is in the
/// viewport, which light is within reach of it, and where it is in the space
/// of the layer whose light is being dragged.
#[derive(Clone, Copy, Debug, PartialEq, Eq, Structural)]
pub struct PointerState {
    pub position: Vector2,
    pub light_within_reach: Option<SelectedLight>,
    pub position_in_layer: Vector2,
}

/// The shapes of the pointer.
#[derive(Clone, Copy, Debug, PartialEq, Eq, Structural)]
pub enum MouseCursorIcon {
    Default,
}

/// What the tool asks of the editor.
#[derive(Clone, Copy, Debug, PartialEq, Eq, Structural)]
pub enum TorchResponse {
    /// Move the light: set the input of the node to this point.
    SetInputValue { node_id: NodeId, input_index: usize, value: Vector2 },
    /// Show the hints that go with this state: see
    /// [`TorchToolFsmState::hint_data`].
    SendHints { state: TorchToolFsmState },
    /// Show the pointer in this shape.
    UpdateMouseCursor { cursor: MouseCursorIcon },
}

/// What any tool can be told, as far as this tool takes note of it.
#[derive(Clone, Copy, Debug, PartialEq, Eq, Structural)]
pub enum ToolMessage {
    UpdateHints,
    UpdateCursor,
    /// A message to this tool.
    Torch(TorchToolMessage),
    /// A message to another tool.
    Other,
}

/// The movements of the mouse that a hint can show.
#[derive(Clone, Copy, Debug, PartialEq, Eq, Structural)]
pub enum MouseMotion {
    LmbDrag,
    Rmb,
}

/// The keys that a hint can show.
#[derive(Clone, Copy, Debug, PartialEq, Eq, Structural)]
pub enum Key {
    Escape,
}

/// What the user does to get what a hint promises.
#[derive(Clone, Copy, Debug, PartialEq, Eq, Structural)]
pub enum HintInput {
    Mouse(MouseMotion),
    Keys(Key),
}

/// One hint of the status bar: an input, what it does, and whether it is set
/// off from the hint before it by a slash.
#[derive(Clone, Copy, Debug, PartialEq, Eq)]
pub struct HintInfo {
    pub input: HintInput,
    pub label: &'static str,
    pub slash: bool,
}

/// The kinds of tool.
#[derive(Clone, Copy, Debug, PartialEq, Eq, Structural)]
pub enum ToolType {
    Torch,
}

/// The messages that the editor sends the tool of its own accord: the one
/// that aborts it, and whether the tool draws overlays.
#[derive(Clone, Copy, Debug, PartialEq, Eq, Structural)]
pub struct EventToMessageMap {
    pub tool_abort: Option<TorchToolMessage>,
    pub overlay_provider: bool,
}

/// The origin.
pub open spec fn origin() -> Vector2 {
    Vector2 { x: Scalar(0), y: Scalar(0) }
}

/// What the first `n` inputs say of a light. An input named
/// "Use Light Source" that holds true makes the node one that casts its
/// shadow from a light. The last input named "Light Position" is the one
/// that says where the light stands, and the last of them that holds a point
/// gives that point; without one the light stands at the origin.
pub open spec fn light_source_in(inputs: Seq<NamedInput>, n: int) -> LightSource
    decreases n,
{
    if n <= 0 {
        LightSource { is_drop_shadow: false, light_position: origin(), light_position_index: 0 }
    } else {
        let before = light_source_in(inputs, n - 1);
        let input = inputs[n - 1];
        let lit = input.name@ == "Use Light Source"@ && input.value == Some(InputValue::Bool(true));
        let names_position = input.name@ == "Light Position"@;
        LightSource {
            is_drop_shadow: before.is_drop_shadow || lit,
            light_position: match input.value {
                Some(InputValue::DVec2(point)) if names_position => point,
                _ => before.light_position,
            },
            light_position_index: if names_position {
                (n - 1) as usize
            } else {
                before.light_position_index
            },
        }
    }
}

/// A node casts its shadow from a light exactly if one of its inputs is
/// named "Use Light Source" and holds true.
pub proof fn lemma_lit_by_some_input(inputs: Seq<NamedInput>, n: int)
    requires
        0 <= n <= inputs.len(),
    ensures
        light_source_in(inputs, n).is_drop_shadow <==> exists|i: int|
            0 <= i < n && (#[trigger] inputs[i]).name@ == "Use Light Source"@ && inputs[i].value == Some(InputValue::Bool(true)),
    decreases n,
{
    if n > 0 {
        lemma_lit_by_some_input(inputs, n - 1);
        if light_source_in(inputs, n - 1).is_drop_shadow {
            let i = choose|i: int| 0 <= i < n - 1 && (#[trigger] inputs[i]).name@ == "Use Light Source"@ && inputs[i].value == Some(InputValue::Bool(true));
            assert(0 <= i < n && inputs[i].name@ == "Use Light Source"@);
        }
    }
}

/// Reads off the inputs of a node what they say of a light.
pub fn light_source(inputs: &Vec<NamedInput>) -> (r: LightSource)
    ensures
        r == light_source_in(inputs@, inputs@.len() as int),
{
    let mut found = LightSource { is_drop_shadow: false, light_position: Vector2 { x: Scalar(0), y: Scalar(0) }, light_position_index: 0 };
    let mut index: usize = 0;
    while index < inputs.len()
        invariant
            index <= inputs@.len(),
            found == light_source_in(inputs@, index as int),
        decreases inputs@.len() - index,
    {
        let input = &inputs[index];
        if same_text(input.name.as_str(), "Use Light Source") {
            if let Some(InputValue::Bool(true)) = input.value {
                found.is_drop_shadow = true;
            }
        }
        if same_text(input.name.as_str(), "Light Position") {
            found.light_position_index = index;
            if let Some(InputValue::DVec2(point)) = input.value {
                found.light_position = point;
            }
        }
        index += 1;
    }
    found
}

/// A light that could be grabbed: the node casts its shadow from it, and the
/// pointer is or is not within reach of where it is drawn.
#[derive(Clone, Copy, Debug, PartialEq, Eq, Structural)]
pub struct LightHandle {
    pub light: SelectedLight,
    pub is_drop_shadow: bool,
    pub within_reach: bool,
}

/// The first of the handles that can be grabbed: its node casts a shadow
/// from a light, and the pointer is within reach of it.
pub open spec fn first_grabbable(handles: Seq<LightHandle>) -> Option<SelectedLight>
    decreases handles.len(),
{
    if handles.len() == 0 {
        None
    } else if handles[0].is_drop_shadow && handles[0].within_reach {
        Some(handles[0].light)
    } else {
        first_grabbable(handles.drop_first())
    }
}

/// Picks the light that a press of the pointer grabs: the first, in the
/// order of the layers and of the nodes along each, that is within reach.
pub fn light_within_reach(handles: &Vec<LightHandle>) -> (r: Option<SelectedLight>)
    ensures
        r == first_grabbable(handles@),
{
    let mut index: usize = 0;
    assert(handles@.skip(0) =~= handles@);
    while index < handles.len()
        invariant
            index <= handles@.len(),
            first_grabbable(handles@) == first_grabbable(handles@.skip(index as int)),
        decreases handles@.len() - index,
    {
        let handle = handles[index];
        assert(handles@.skip(index as int)[0] == handle);
        if handle.is_drop_shadow && handle.within_reach {
            return Some(handle.light);
        }
        assert(handles@.skip(index as int).drop_first() =~= handles@.skip(index + 1));
        index += 1;
    }
    assert(handles@.skip(index as int).len() == 0);
    None
}

/// What a message leads to: the state and the memory of the tool after it,
/// and what the tool asks of the editor.
pub struct Transition {
    pub state: TorchToolFsmState,
    pub data: TorchToolData,
    pub responses: Seq<TorchResponse>,
}

impl TorchToolFsmState {
    /// The rule of the tool. Drawing overlays changes nothing. A press while
    /// ready notes where the drag starts and grabs the light within reach,
    /// if there is one. A move while dragging sets the light to where the
    /// pointer is in its layer. A release while dragging, and an abort at
    /// any time, let go of the light. Every other message is ignored.
    pub open spec fn step(self, event: TorchToolMessage, data: TorchToolData, pointer: PointerState) -> Transition {
        match (self, event) {
            (_, TorchToolMessage::Overlays { .. }) => Transition { state: self, data, responses: Seq::empty() },
            (TorchToolFsmState::Ready, TorchToolMessage::PointerDown) => Transition {
                state: if pointer.light_within_reach is Some {
                    TorchToolFsmState::Dragging
                } else {
                    TorchToolFsmState::Ready
                },
                data: TorchToolData { drag_start: pointer.position, selected_node: pointer.light_within_reach },
                responses: Seq::empty(),
            },
            (TorchToolFsmState::Dragging, TorchToolMessage::PointerMove) => Transition {
                state: TorchToolFsmState::Dragging,
                data,
                responses: match data.selected_node {
                    Some(light) => seq![
                        TorchResponse::SetInputValue { node_id: light.node_id, input_index: light.input_index, value: pointer.position_in_layer },
                    ],
                    None => Seq::empty(),
                },
            },
            (TorchToolFsmState::Dragging, TorchToolMessage::PointerUp) => Transition {
                state: TorchToolFsmState::Ready,
                data: TorchToolData { selected_node: None, ..data },
                responses: Seq::empty(),
            },
            (_, TorchToolMessage::Abort) => Transition {
                state: TorchToolFsmState::Ready,
                data: TorchToolData { selected_node: None, ..data },
                responses: Seq::empty(),
            },
            _ => Transition { state: self, data, responses: Seq::empty() },
        }
    }

    /// Handles one message: see [`TorchToolFsmState::step`].
    pub fn transition(self, event: TorchToolMessage, tool_data: &mut TorchToolData, pointer: PointerState, responses: &mut Vec<TorchResponse>) -> (r: Self)
        ensures
            r == self.step(event, *old(tool_data), pointer).state,
            *final(tool_data) == self.step(event, *old(tool_data), pointer).data,
            final(responses)@ == old(responses)@ + self.step(event, *old(tool_data), pointer).responses,
    {
        assert(responses@ + Seq::<TorchResponse>::empty() =~= responses@);
        match (self, event) {
            (_, TorchToolMessage::Overlays { .. }) => self,
            (TorchToolFsmState::Ready, TorchToolMessage::PointerDown) => {
                tool_data.drag_start = pointer.position;
                tool_data.selected_node = pointer.light_within_reach;
                match pointer.light_within_reach {
                    Some(_) => TorchToolFsmState::Dragging,
                    None => TorchToolFsmState::Ready,
                }
            },
            (TorchToolFsmState::Dragging, TorchToolMessage::PointerMove) => {
                if let Some(light) = tool_data.selected_node {
                    responses.push(TorchResponse::SetInputValue { node_id: light.node_id, input_index: light.input_index, value: pointer.position_in_layer });
                    assert(responses@ =~= old(responses)@ + self.step(event, *old(tool_data), pointer).responses);
                }
                TorchToolFsmState::Dragging
            },
            (TorchToolFsmState::Dragging, TorchToolMessage::PointerUp) => {
                tool_data.selected_node = None;
                TorchToolFsmState::Ready
            },
            (_, TorchToolMessage::Abort) => {
                tool_data.selected_node = None;
                TorchToolFsmState::Ready
            },
            _ => self,
        }
    }

    /// The hints that the status bar shows: what a drag does while ready,
    /// and how to cancel while dragging.
    pub fn hint_data(&self) -> (r: Vec<HintInfo>)
        ensures
            match *self {
                TorchToolFsmState::Ready => {
                    &&& r@.len() == 1
                    &&& r@[0].input == HintInput::Mouse(MouseMotion::LmbDrag)
                    &&& r@[0].label@ == "Drag Light"@
                    &&& !r@[0].slash
                },
                TorchToolFsmState::Dragging => {
                    &&& r@.len() == 2
                    &&& r@[0].input == HintInput::Mouse(MouseMotion::Rmb)
                    &&& r@[0].label@ == ""@
                    &&& !r@[0].slash
                    &&& r@[1].input == HintInput::Keys(Key::Escape)
                    &&& r@[1].label@ == "Cancel"@
                    &&& r@[1].slash
                },
            },
    {
        let mut hints: Vec<HintInfo> = Vec::new();
        match self {
            TorchToolFsmState::Ready => {
                hints.push(HintInfo { input: HintInput::Mouse(MouseMotion::LmbDrag), label: "Drag Light", slash: false });
            },
            TorchToolFsmState::Dragging => {
                hints.push(HintInfo { input: HintInput::Mouse(MouseMotion::Rmb), label: "", slash: false });
                hints.push(HintInfo { input: HintInput::Keys(Key::Escape), label: "Cancel", slash: true });
            },
        }
        hints
    }

    /// Asks for the hints of this state to be shown.
    pub fn update_hints(&self, responses: &mut Vec<TorchResponse>)
        ensures
            final(responses)@ == old(responses)@.push(TorchResponse::SendHints { state: *self }),
    {
        responses.push(TorchResponse::SendHints { state: *self });
    }

    /// Asks for the pointer to be shown in its plain shape.
    pub fn update_cursor(&self, responses: &mut Vec<TorchResponse>)
        ensures
            final(responses)@ == old(responses)@.push(TorchResponse::UpdateMouseCursor { cursor: MouseCursorIcon::Default }),
    {
        responses.push(TorchResponse::UpdateMouseCursor { cursor: MouseCursorIcon::Default });
    }
}

/// The tool with its state and its memory.
#[derive(Clone, Copy, Debug, PartialEq, Eq, Structural)]
pub struct TorchTool {
    pub fsm_state: TorchToolFsmState,
    pub data: TorchToolData,
}

impl TorchTool {
    /// The tool at rest.
    pub fn new() -> (r: Self)
        ensures
            r.fsm_state == TorchToolFsmState::Ready,
            r.data.selected_node is None,
            r.data.drag_start == origin(),
    {
        TorchTool {
            fsm_state: TorchToolFsmState::Ready,
            data: TorchToolData { drag_start: Vector2 { x: Scalar(0), y: Scalar(0) }, selected_node: None },
        }
    }

    /// The name of the tool's icon.
    pub fn icon_name(&self) -> (r: String)
        ensures
            r@ == "GeneralTorchTool"@,
    {
        "GeneralTorchTool".to_owned()
    }

    /// The words of the tool's tooltip.
    pub fn tooltip_label(&self) -> (r: String)
        ensures
            r@ == "Torch Tool"@,
    {
        "Torch Tool".to_owned()
    }

    /// The kind of the tool.
    pub fn tool_type(&self) -> (r: ToolType)
        ensures
            r == ToolType::Torch,
    {
        ToolType::Torch
    }

    /// What a message to the tools leads to: the hints or the pointer are
    /// shown afresh if that is asked for, a message to this tool goes through
    /// the rule of the tool, and a message to another tool changes nothing.
    pub open spec fn handled(self, message: ToolMessage, pointer: PointerState) -> Transition {
        match message {
            ToolMessage::UpdateHints => Transition { state: self.fsm_state, data: self.data, responses: seq![TorchResponse::SendHints { state: self.fsm_state }] },
            ToolMessage::UpdateCursor => Transition {
                state: self.fsm_state,
                data: self.data,
                responses: seq![TorchResponse::UpdateMouseCursor { cursor: MouseCursorIcon::Default }],
            },
            ToolMessage::Torch(event) => self.fsm_state.step(event, self.data, pointer),
            ToolMessage::Other => Transition { state: self.fsm_state, data: self.data, responses: Seq::empty() },
        }
    }

    /// Handles a message to the tools: see [`TorchTool::handled`].
    pub fn process_message(&mut self, message: ToolMessage, pointer: PointerState, responses: &mut Vec<TorchResponse>)
        ensures
            final(self).fsm_state == old(self).handled(message, pointer).state,
            final(self).data == old(self).handled(message, pointer).data,
            final(responses)@ == old(responses)@ + old(self).handled(message, pointer).responses,
    {
        match message {
            ToolMessage::UpdateHints => {
                self.fsm_state.update_hints(responses);
                assert(responses@ =~= old(responses)@ + old(self).handled(message, pointer).responses);
            },
            ToolMessage::UpdateCursor => {
                self.fsm_state.update_cursor(responses);
                assert(responses@ =~= old(responses)@ + old(self).handled(message, pointer).responses);
            },
            ToolMessage::Torch(event) => {
                let mut data = self.data;
                let next = self.fsm_state.transition(event, &mut data, pointer, responses);
                self.data = data;
                self.fsm_state = next;
            },
            ToolMessage::Other => {
                assert(responses@ + Seq::<TorchResponse>::empty() =~= responses@);
            },
        }
    }

    /// The messages that the editor sends the tool of its own accord: an
    /// abort, and the request to draw overlays.
    pub fn event_to_message_map(&self) -> (r: EventToMessageMap)
        ensures
            r == (EventToMessageMap { tool_abort: Some(TorchToolMessage::Abort), overlay_provider: true }),
    {
        EventToMessageMap { tool_abort: Some(TorchToolMessage::Abort), overlay_provider: true }
    }

    /// The layout of the tool's options: it has none.
    pub fn layout(&self) -> (r: Vec<crate::properties_panel::LayoutGroup>)
        ensures
            r@.len() == 0,
    {
        Vec::new()
    }
}

} // verus!
