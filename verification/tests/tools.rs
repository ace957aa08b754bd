use graph_runtime::document::NodeId;
use graph_runtime::network::InputValue;
use graph_runtime::properties_panel::{set_all_sections_collapsed, set_collapsed_in_layout, LayoutGroup, PanelResponse, PropertiesPanelMessage, PropertiesPanelMessageContext, PropertiesPanelMessageHandler};
use graph_runtime::render::{Scalar, Vector2};
use graph_runtime::shadow::{dilate_window, sample_position, ChoiceWidgetHint, ShadowType, MAX_EXTENT};
use graph_runtime::text::{join, join3, decimal_string, push_decimal, same_text};
use graph_runtime::torch_tool::{light_source, light_within_reach, EventToMessageMap, HintInfo, HintInput, Key, LightHandle, LightSource, MouseCursorIcon, MouseMotion, NamedInput, OverlayContext, PointerState, SelectedLight, ToolMessage, ToolType, TorchResponse, TorchTool, TorchToolData, TorchToolFsmState, TorchToolMessage};
use graph_runtime::typesetting::{apply_style, box_is_given, default_style, Color, Font, StyleDirective, StyleSpan, StyledText, TextAlign, TextStyle, TypesettingConfig};

fn point(x: f64, y: f64) -> Vector2 {
    Vector2 { x: Scalar(x.to_bits()), y: Scalar(y.to_bits()) }
}

fn input(name: &str, value: Option<InputValue>) -> NamedInput {
    NamedInput { name: name.to_string(), value }
}

fn light(node: u64, index: usize) -> SelectedLight {
    SelectedLight { layer: NodeId(1), node_id: NodeId(node), input_index: index }
}

fn pointer(reach: Option<SelectedLight>) -> PointerState {
    PointerState { position: point(10., 20.), light_within_reach: reach, position_in_layer: point(1., 2.) }
}

fn section(name: &str, id: u64, collapsed: bool, layout: Vec<LayoutGroup>) -> LayoutGroup {
    LayoutGroup::Section { name: name.to_string(), id, collapsed, layout }
}

fn layout(collapsed: bool, deep: bool) -> Vec<LayoutGroup> {
    vec![
        LayoutGroup::Row { widgets: vec![1, 2] },
        section("Fill", 10, collapsed, vec![LayoutGroup::Column { widgets: vec![3] }, section("Gradient", 11, deep, vec![section("Stops", 12, deep, vec![])])]),
        section("Stroke", 20, collapsed, vec![]),
    ]
}

#[test]
fn shadow_kinds_have_numbers_and_words() {
    assert_eq!(ShadowType::default(), ShadowType::Drop);
    assert_eq!(ShadowType::Drop.as_u32(), 0);
    assert_eq!(ShadowType::Inner.as_u32(), 1);
    assert_eq!(ShadowType::Inner.to_primitive(), 1);
    assert_eq!(ShadowType::from_primitive(0), ShadowType::Drop);
    assert_eq!(ShadowType::from_primitive(1), ShadowType::Inner);
    assert_eq!(ShadowType::from_primitive(2), ShadowType::Drop);
    assert_eq!(ShadowType::from_primitive(255), ShadowType::Drop);
    assert_eq!(ShadowType::from(1u8), ShadowType::Inner);
    assert_eq!(ShadowType::from(9u8), ShadowType::Drop);
    assert_eq!(u8::from(ShadowType::Inner), 1);
    assert_eq!(u8::from(ShadowType::Drop), 0);
    assert_eq!(ShadowType::Drop.label(), "Drop Shadow");
    assert_eq!(ShadowType::Inner.label(), "Inner Shadow");
    assert_eq!(ShadowType::widget_hint(), ChoiceWidgetHint::Dropdown);
    assert_eq!(ShadowType::description(), Some("Select the type of shadow to apply"));
}

#[test]
fn shadow_kinds_are_listed_in_one_group() {
    let list = ShadowType::list();
    assert_eq!(list.len(), 1);
    assert_eq!(list[0].len(), 2);
    assert_eq!(list[0][0].0, ShadowType::Drop);
    assert_eq!((list[0][0].1.name, list[0][0].1.label), ("Drop", "Drop Shadow"));
    assert_eq!(list[0][0].1.description, Some("Cast a shadow behind the object"));
    assert_eq!(list[0][0].1.icon, None);
    assert_eq!(list[0][1].0, ShadowType::Inner);
    assert_eq!((list[0][1].1.name, list[0][1].1.label), ("Inner", "Inner Shadow"));
    assert_eq!(list[0][1].1.description, Some("Cast a shadow inside the object"));
}

#[test]
fn alignments_map_to_those_of_the_layout_engine() {
    assert_eq!(TextAlign::default(), TextAlign::Left);
    assert_eq!(TextAlign::Left.to_alignment(), parley::Alignment::Left);
    assert_eq!(TextAlign::Center.to_alignment(), parley::Alignment::Center);
    assert_eq!(TextAlign::Right.to_alignment(), parley::Alignment::Right);
    assert_eq!(TextAlign::JustifyLeft.to_alignment(), parley::Alignment::Justify);
    assert_eq!(parley::Alignment::from(TextAlign::Right), parley::Alignment::Right);
    assert_eq!(TextAlign::JustifyLeft.label(), "Justify");
    assert_eq!(TextAlign::Center.label(), "Center");
}

#[test]
fn numbers_and_texts_are_written_out() {
    assert_eq!(decimal_string(0), "0");
    assert_eq!(decimal_string(9), "9");
    assert_eq!(decimal_string(10), "10");
    assert_eq!(decimal_string(4096), "4096");
    assert_eq!(decimal_string(u64::MAX), "18446744073709551615");
    let mut out = String::from("n=");
    push_decimal(&mut out, 120);
    assert_eq!(out, "n=120");
    assert_eq!(join("ab", "cd"), "abcd");
    assert_eq!(join3("a", "", "c"), "ac");
    assert!(same_text("Light Position", "Light Position"));
    assert!(!same_text("Light Position", "Light position"));
    assert!(!same_text("a", "ab"));
}

#[test]
fn light_is_read_off_the_inputs_by_name() {
    let inputs = vec![
        input("Image", None),
        input("Light Position", Some(InputValue::DVec2(point(3., 4.)))),
        input("Use Light Source", Some(InputValue::Bool(true))),
        input("Opacity", Some(InputValue::Opaque(5))),
    ];
    assert_eq!(light_source(&inputs), LightSource { is_drop_shadow: true, light_position: point(3., 4.), light_position_index: 1 });

    let unlit = vec![input("Use Light Source", Some(InputValue::Bool(false))), input("Light Position", Some(InputValue::Opaque(1)))];
    assert_eq!(light_source(&unlit), LightSource { is_drop_shadow: false, light_position: point(0., 0.), light_position_index: 1 });

    let twice = vec![
        input("Light Position", Some(InputValue::DVec2(point(1., 1.)))),
        input("Use Light Source", None),
        input("Light Position", None),
        input("use light source", Some(InputValue::Bool(true))),
    ];
    assert_eq!(light_source(&twice), LightSource { is_drop_shadow: false, light_position: point(1., 1.), light_position_index: 2 });
    assert_eq!(light_source(&vec![]), LightSource { is_drop_shadow: false, light_position: point(0., 0.), light_position_index: 0 });
}

#[test]
fn first_light_within_reach_is_grabbed() {
    let handle = |node, lit, near| LightHandle { light: light(node, 2), is_drop_shadow: lit, within_reach: near };
    assert_eq!(light_within_reach(&vec![handle(1, false, true), handle(2, true, false), handle(3, true, true), handle(4, true, true)]), Some(light(3, 2)));
    assert_eq!(light_within_reach(&vec![handle(1, false, true), handle(2, true, false)]), None);
    assert_eq!(light_within_reach(&vec![]), None);
}

#[test]
fn torch_tool_drags_the_light() {
    let mut tool = TorchTool::new();
    assert_eq!(tool.icon_name(), "GeneralTorchTool");
    assert_eq!(tool.tooltip_label(), "Torch Tool");
    assert_eq!(tool.tool_type(), ToolType::Torch);
    assert!(tool.layout().is_empty());
    assert_eq!(tool.event_to_message_map(), EventToMessageMap { tool_abort: Some(TorchToolMessage::Abort), overlay_provider: true });
    assert_eq!(tool.fsm_state.hint_data(), vec![HintInfo { input: HintInput::Mouse(MouseMotion::LmbDrag), label: "Drag Light", slash: false }]);
    let mut responses = Vec::new();

    tool.process_message(ToolMessage::Torch(TorchToolMessage::PointerMove), pointer(Some(light(7, 3))), &mut responses);
    assert_eq!(tool.fsm_state, TorchToolFsmState::Ready);
    tool.process_message(ToolMessage::Torch(TorchToolMessage::PointerDown), pointer(None), &mut responses);
    assert_eq!(tool.fsm_state, TorchToolFsmState::Ready);
    assert_eq!(tool.data, TorchToolData { drag_start: point(10., 20.), selected_node: None });

    tool.process_message(ToolMessage::Torch(TorchToolMessage::PointerDown), pointer(Some(light(7, 3))), &mut responses);
    assert_eq!(tool.fsm_state, TorchToolFsmState::Dragging);
    assert_eq!(tool.data.selected_node, Some(light(7, 3)));
    assert_eq!(
        tool.fsm_state.hint_data(),
        vec![HintInfo { input: HintInput::Mouse(MouseMotion::Rmb), label: "", slash: false }, HintInfo { input: HintInput::Keys(Key::Escape), label: "Cancel", slash: true }]
    );
    assert!(responses.is_empty());

    tool.process_message(ToolMessage::Torch(TorchToolMessage::PointerDown), pointer(Some(light(8, 1))), &mut responses);
    assert_eq!(tool.data.selected_node, Some(light(7, 3)));
    tool.process_message(ToolMessage::Torch(TorchToolMessage::PointerMove), pointer(None), &mut responses);
    assert_eq!(responses, vec![TorchResponse::SetInputValue { node_id: NodeId(7), input_index: 3, value: point(1., 2.) }]);
    assert_eq!(tool.fsm_state, TorchToolFsmState::Dragging);

    let context = OverlayContext { size: point(800., 600.), device_pixel_ratio: Scalar(1f64.to_bits()) };
    tool.process_message(ToolMessage::Torch(TorchToolMessage::Overlays { context }), pointer(None), &mut responses);
    assert_eq!(tool.fsm_state, TorchToolFsmState::Dragging);
    assert_eq!(responses.len(), 1);

    tool.process_message(ToolMessage::Torch(TorchToolMessage::PointerUp), pointer(None), &mut responses);
    assert_eq!(tool.fsm_state, TorchToolFsmState::Ready);
    assert_eq!(tool.data, TorchToolData { drag_start: point(10., 20.), selected_node: None });
    tool.process_message(ToolMessage::Torch(TorchToolMessage::PointerUp), pointer(None), &mut responses);
    assert_eq!(tool.fsm_state, TorchToolFsmState::Ready);
}

#[test]
fn abort_lets_go_of_the_light_in_any_state() {
    let mut responses = Vec::new();
    let mut data = TorchToolData { drag_start: point(1., 1.), selected_node: Some(light(7, 3)) };
    assert_eq!(TorchToolFsmState::Dragging.transition(TorchToolMessage::Abort, &mut data, pointer(None), &mut responses), TorchToolFsmState::Ready);
    assert_eq!(data, TorchToolData { drag_start: point(1., 1.), selected_node: None });
    let mut data = TorchToolData { drag_start: point(1., 1.), selected_node: Some(light(7, 3)) };
    assert_eq!(TorchToolFsmState::Ready.transition(TorchToolMessage::Abort, &mut data, pointer(None), &mut responses), TorchToolFsmState::Ready);
    assert_eq!(data.selected_node, None);
    let mut data = TorchToolData { drag_start: point(1., 1.), selected_node: None };
    assert_eq!(TorchToolFsmState::Dragging.transition(TorchToolMessage::PointerMove, &mut data, pointer(None), &mut responses), TorchToolFsmState::Dragging);
    assert!(responses.is_empty());
}

#[test]
fn sections_are_folded_at_every_depth_in_order() {
    let mut ids = vec![NodeId(99)];
    let folded = set_collapsed_in_layout(layout(false, true), &mut ids, true);
    assert_eq!(folded, layout(true, true));
    assert_eq!(ids, vec![NodeId(99), NodeId(10), NodeId(11), NodeId(12), NodeId(20)]);
    let mut ids = Vec::new();
    let unfolded = set_collapsed_in_layout(layout(true, true), &mut ids, false);
    assert_eq!(unfolded, layout(false, false));
    assert_eq!(ids, vec![NodeId(10), NodeId(11), NodeId(12), NodeId(20)]);
    let mut ids = Vec::new();
    assert_eq!(set_collapsed_in_layout(vec![], &mut ids, true), vec![]);
    assert!(ids.is_empty());
}

#[test]
fn folding_all_sections_records_each_and_shows_the_layout() {
    let mut responses = vec![PanelResponse::Panel(PropertiesPanelMessage::Refresh)];
    set_all_sections_collapsed(true, layout(false, false), &mut responses);
    let fold = |id| PanelResponse::SetCollapsed { node_id: NodeId(id), collapsed: true };
    assert_eq!(
        responses,
        vec![PanelResponse::Panel(PropertiesPanelMessage::Refresh), fold(10), fold(11), fold(12), fold(20), PanelResponse::SendLayout { layout: layout(true, true) }]
    );
}

#[test]
fn panel_answers_each_message() {
    let mut panel = PropertiesPanelMessageHandler::new();
    assert!(panel.actions().is_empty());
    let context = |open| PropertiesPanelMessageContext { properties_panel_open: open, properties: layout(false, false) };
    let mut responses = Vec::new();

    panel.process_message(PropertiesPanelMessage::Clear, &mut responses, context(true));
    assert_eq!(responses, vec![PanelResponse::SendLayout { layout: vec![] }]);

    responses.clear();
    panel.process_message(PropertiesPanelMessage::Refresh, &mut responses, context(false));
    assert_eq!(responses, vec![PanelResponse::Panel(PropertiesPanelMessage::Clear)]);

    responses.clear();
    panel.process_message(PropertiesPanelMessage::Refresh, &mut responses, context(true));
    assert_eq!(responses, vec![PanelResponse::SendLayout { layout: layout(false, false) }]);

    responses.clear();
    panel.process_message(PropertiesPanelMessage::SetSectionCollapsed { node_id: NodeId(11), collapsed: true }, &mut responses, context(false));
    assert_eq!(responses, vec![PanelResponse::SetCollapsed { node_id: NodeId(11), collapsed: true }, PanelResponse::Panel(PropertiesPanelMessage::Refresh)]);

    responses.clear();
    panel.process_message(PropertiesPanelMessage::SetAllSectionsCollapsed { collapsed: true }, &mut responses, context(false));
    assert!(responses.is_empty());
    panel.process_message(PropertiesPanelMessage::SetAllSectionsCollapsed { collapsed: true }, &mut responses, context(true));
    assert_eq!(responses.len(), 5);
    assert_eq!(responses[4], PanelResponse::SendLayout { layout: layout(true, true) });
}

#[test]
fn shadow_is_sampled_only_inside_the_raster() {
    assert_eq!(sample_position(0, 0, 4, 3), Some((0, 0)));
    assert_eq!(sample_position(3, 2, 4, 3), Some((3, 2)));
    assert_eq!(sample_position(4, 2, 4, 3), None);
    assert_eq!(sample_position(3, 3, 4, 3), None);
    assert_eq!(sample_position(-1, 0, 4, 3), None);
    assert_eq!(sample_position(0, i32::MIN, 4, 3), None);
    assert_eq!(sample_position(5, 5, MAX_EXTENT, MAX_EXTENT), Some((5, 5)));
    assert_eq!(sample_position(5, 5, MAX_EXTENT + 1, 10), None);
    assert_eq!(sample_position(5, 5, 10, u32::MAX), None);
}

#[test]
fn spread_looks_no_further_than_the_radius_or_the_edge() {
    assert_eq!(dilate_window(5, 20, 3), (-3, 3));
    assert_eq!(dilate_window(1, 20, 3), (-1, 3));
    assert_eq!(dilate_window(18, 20, 3), (-3, 1));
    assert_eq!(dilate_window(0, 1, 3), (0, 0));
    assert_eq!(dilate_window(7, 20, 0), (0, 0));
    assert_eq!(dilate_window(MAX_EXTENT - 1, MAX_EXTENT, i32::MAX), (-(MAX_EXTENT as i32 - 1), 0));
    assert_eq!(dilate_window(0, MAX_EXTENT, i32::MAX), (0, MAX_EXTENT as i32 - 1));
}

#[test]
fn torch_tool_shows_hints_and_cursor_on_request() {
    let mut tool = TorchTool::new();
    let mut responses = Vec::new();
    tool.process_message(ToolMessage::UpdateHints, pointer(None), &mut responses);
    tool.process_message(ToolMessage::UpdateCursor, pointer(None), &mut responses);
    tool.process_message(ToolMessage::Other, pointer(Some(light(7, 3))), &mut responses);
    assert_eq!(
        responses,
        vec![TorchResponse::SendHints { state: TorchToolFsmState::Ready }, TorchResponse::UpdateMouseCursor { cursor: MouseCursorIcon::Default }]
    );
    assert_eq!(tool, TorchTool::new());
    tool.process_message(ToolMessage::Torch(TorchToolMessage::PointerDown), pointer(Some(light(7, 3))), &mut responses);
    tool.process_message(ToolMessage::UpdateHints, pointer(None), &mut responses);
    assert_eq!(responses.last(), Some(&TorchResponse::SendHints { state: TorchToolFsmState::Dragging }));
}

#[test]
fn default_typesetting_is_twenty_four_pixels_flush_left() {
    let config = TypesettingConfig::default();
    assert_eq!(f64::from_bits(config.font_size.0), 24.);
    assert_eq!(f64::from_bits(config.line_height_ratio.0), 1.2);
    assert_eq!(f64::from_bits(config.character_spacing.0), 0.);
    assert_eq!(f64::from_bits(config.tilt.0), 0.);
    assert_eq!(config.max_width, None);
    assert_eq!(config.max_height, None);
    assert_eq!(config.align, TextAlign::Left);
}

#[test]
fn styled_text_starts_without_spans() {
    let from_string = StyledText::from("Hello".to_string());
    let from_slice = StyledText::from("Hello");
    assert_eq!(from_string, StyledText { text: "Hello".to_string(), spans: vec![] });
    assert_eq!(from_slice, from_string);
    assert_eq!(StyledText::plain(String::new()).text, "");
}

#[test]
fn layout_engine_is_told_the_block_and_the_spans_in_order() {
    let mut config = TypesettingConfig::default();
    config.character_spacing = Scalar(3f64.to_bits());
    assert_eq!(
        default_style(&config),
        vec![
            StyleDirective::FontSize(config.font_size),
            StyleDirective::LetterSpacing(Scalar(3f64.to_bits())),
            StyleDirective::FontFamily,
            StyleDirective::FontWeight,
            StyleDirective::FontStyle,
            StyleDirective::FontWidth,
            StyleDirective::LineHeight(config.line_height_ratio),
        ]
    );
    let mut style = TextStyle::inherit();
    assert!(apply_style(&style, false).is_empty());
    assert_eq!(apply_style(&style, true), vec![StyleDirective::FontFamily, StyleDirective::FontWeight, StyleDirective::FontStyle, StyleDirective::FontWidth]);
    style.line_height = Some(Scalar(2f64.to_bits()));
    style.size = Some(Scalar(9f64.to_bits()));
    style.color = Some(Color { red: 0, green: 0, blue: 0, alpha: 1f32.to_bits() });
    assert_eq!(apply_style(&style, false), vec![StyleDirective::FontSize(Scalar(9f64.to_bits())), StyleDirective::LineHeight(Scalar(2f64.to_bits()))]);
    style.letter_spacing = Some(Scalar(1f64.to_bits()));
    style.font = Some(Font { font_family: "Lato".to_string(), font_style: "Bold".to_string() });
    assert_eq!(
        apply_style(&style, true),
        vec![
            StyleDirective::FontSize(Scalar(9f64.to_bits())),
            StyleDirective::LetterSpacing(Scalar(1f64.to_bits())),
            StyleDirective::LineHeight(Scalar(2f64.to_bits())),
            StyleDirective::FontFamily,
            StyleDirective::FontWeight,
            StyleDirective::FontStyle,
            StyleDirective::FontWidth,
        ]
    );
    let span = StyleSpan { start: 0, end: 5, style };
    assert_eq!(span.end - span.start, 5);
}

#[test]
fn box_is_given_only_with_both_limits_and_outside_the_clipping_test() {
    let mut config = TypesettingConfig::default();
    assert!(!box_is_given(&config, false));
    config.max_width = Some(Scalar(100f64.to_bits()));
    assert!(!box_is_given(&config, false));
    config.max_height = Some(Scalar(50f64.to_bits()));
    assert!(box_is_given(&config, false));
    assert!(!box_is_given(&config, true));
    config.max_width = None;
    assert!(!box_is_given(&config, false));
}
