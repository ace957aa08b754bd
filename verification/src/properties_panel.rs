//! The panel that lists the properties of the selected nodes in sections
//! that fold.

use crate::document::NodeId;
use vstd::prelude::*;

verus! {

/// What the panel can be asked to do.
#[derive(Clone, Copy, Debug, PartialEq, Eq, Structural)]
pub enum PropertiesPanelMessage {
    Clear,
    Refresh,
    SetSectionCollapsed { node_id: NodeId, collapsed: bool },
    SetAllSectionsCollapsed { collapsed: bool },
}

/// One group of a layout: a line of widgets, or a section of a node with
/// groups of its own.
#[derive(Debug, PartialEq, Eq)]
pub enum LayoutGroup {
    Row { widgets: Vec<u64> },
    Column { widgets: Vec<u64> },
    Section { name: String, id: u64, collapsed: bool, layout: Vec<LayoutGroup> },
}

/// What the panel asks of the rest of the editor.
#[derive(Debug, PartialEq, Eq)]
pub enum PanelResponse {
    /// Show this layout in the panel.
    SendLayout { layout: Vec<LayoutGroup> },
    /// Put this message to the panel in line.
    Panel(PropertiesPanelMessage),
    /// Record in the document whether the section of the node is folded.
    SetCollapsed { node_id: NodeId, collapsed: bool },
}

/// What the panel is given with a message: whether it is open, and the
/// sections that the selected nodes collate to at this moment.
#[derive(Debug, PartialEq, Eq)]
pub struct PropertiesPanelMessageContext {
    pub properties_panel_open: bool,
    pub properties: Vec<LayoutGroup>,
}

/// The panel itself. It keeps nothing between messages.
#[derive(Clone, Copy, Debug, PartialEq, Eq, Structural)]
pub struct PropertiesPanelMessageHandler {}

/// The ids of the sections of one group, the section itself before the
/// sections inside it.
pub open spec fn group_section_ids(group: LayoutGroup) -> Seq<NodeId>
    decreases group, 0nat,
{
    match group {
        LayoutGroup::Section { id, layout, .. } => seq![NodeId(id)] + section_ids(layout@),
        _ => Seq::empty(),
    }
}

/// The ids of all sections of a layout, in the order in which they stand.
pub open spec fn section_ids(groups: Seq<LayoutGroup>) -> Seq<NodeId>
    decreases groups, 1nat,
{
    if groups.len() == 0 {
        Seq::empty()
    } else {
        section_ids(groups.drop_last()) + group_section_ids(groups.last())
    }
}

/// `after` is `before` with every section, at any depth, folded or unfolded
/// as `collapsed` says, and nothing else changed.
pub open spec fn group_set_collapsed(before: LayoutGroup, after: LayoutGroup, collapsed: bool) -> bool
    decreases before, 0nat,
{
    match before {
        LayoutGroup::Section { name, id, layout, .. } => {
            &&& after matches LayoutGroup::Section { name: after_name, id: after_id, collapsed: after_collapsed, layout: after_layout }
            &&& after_name == name
            &&& after_id == id
            &&& after_collapsed == collapsed
            &&& layout_set_collapsed(layout@, after_layout@, collapsed)
        },
        _ => after == before,
    }
}

/// `after` is the layout `before` with every section folded or unfolded as
/// `collapsed` says.
pub open spec fn layout_set_collapsed(before: Seq<LayoutGroup>, after: Seq<LayoutGroup>, collapsed: bool) -> bool
    decreases before, 1nat,
{
    &&& after.len() == before.len()
    &&& forall|i: int| 0 <= i < before.len() ==> group_set_collapsed(before[i], #[trigger] after[i], collapsed)
}

/// The requests that record the fold of each of these sections.
pub open spec fn fold_requests(ids: Seq<NodeId>, collapsed: bool) -> Seq<PanelResponse> {
    ids.map_values(|node_id: NodeId| PanelResponse::SetCollapsed { node_id, collapsed })
}

/// Folds or unfolds every section of `layout`, at any depth, and adds the
/// id of each to `ids` in the order in which the sections stand.
pub fn set_collapsed_in_layout(layout: Vec<LayoutGroup>, ids: &mut Vec<NodeId>, collapsed: bool) -> (r: Vec<LayoutGroup>)
    ensures
        layout_set_collapsed(layout@, r@, collapsed),
        final(ids)@ == old(ids)@ + section_ids(layout@),
    decreases layout, 1nat,
{
    let mut out: Vec<LayoutGroup> = Vec::new();
    let ghost start = ids@;
    assert(section_ids(layout@.take(0)) =~= Seq::<NodeId>::empty());
    assert(start + Seq::<NodeId>::empty() =~= start);
    for group in it: layout.into_iter()
        invariant
            it.seq() == layout@,
            out@.len() == it.index(),
            forall|i: int| 0 <= i < out@.len() ==> group_set_collapsed(layout@[i], #[trigger] out@[i], collapsed),
            ids@ == start + section_ids(layout@.take(it.index() as int)),
        decreases layout@.len() - it.index(),
    {
        let ghost index = it.index() as int;
        let ghost before_ids = ids@;
        assert(layout@.take(index + 1).drop_last() =~= layout@.take(index));
        assert(layout@.take(index + 1).last() == group);
        let changed = match group {
            LayoutGroup::Section { name, id, collapsed: _, layout: inner } => {
                ids.push(NodeId(id));
                let inner = set_collapsed_in_layout(inner, ids, collapsed);
                LayoutGroup::Section { name, id, collapsed, layout: inner }
            },
            other => other,
        };
        assert(ids@ =~= before_ids + group_section_ids(group));
        assert(ids@ =~= start + section_ids(layout@.take(index + 1)));
        out.push(changed);
    }
    assert(layout@.take(layout@.len() as int) =~= layout@);
    out
}

impl PropertiesPanelMessageHandler {
    /// A panel.
    pub fn new() -> (r: Self) {
        PropertiesPanelMessageHandler {  }
    }

    /// Handles one message to the panel.
    ///
    /// Clearing shows an empty layout. Refreshing shows the properties of
    /// the selection, or clears the panel if it is closed. Folding one
    /// section records the fold and refreshes. Folding all sections, which
    /// only an open panel does, records the fold of each and shows the
    /// layout with every section folded.
    pub fn process_message(&mut self, message: PropertiesPanelMessage, responses: &mut Vec<PanelResponse>, context: PropertiesPanelMessageContext)
        ensures
            match message {
                PropertiesPanelMessage::Clear => {
                    &&& final(responses)@.len() == old(responses)@.len() + 1
                    &&& final(responses)@.drop_last() == old(responses)@
                    &&& final(responses)@.last() matches PanelResponse::SendLayout { layout }
                    &&& layout@.len() == 0
                },
                PropertiesPanelMessage::Refresh => if context.properties_panel_open {
                    final(responses)@ == old(responses)@.push(PanelResponse::SendLayout { layout: context.properties })
                } else {
                    final(responses)@ == old(responses)@.push(PanelResponse::Panel(PropertiesPanelMessage::Clear))
                },
                PropertiesPanelMessage::SetSectionCollapsed { node_id, collapsed } => final(responses)@ == old(responses)@.push(
                    PanelResponse::SetCollapsed { node_id, collapsed },
                ).push(PanelResponse::Panel(PropertiesPanelMessage::Refresh)),
                PropertiesPanelMessage::SetAllSectionsCollapsed { collapsed } => if context.properties_panel_open {
                    all_sections_response(old(responses)@, final(responses)@, context.properties@, collapsed)
                } else {
                    final(responses)@ == old(responses)@
                },
            },
    {
        let PropertiesPanelMessageContext { properties_panel_open, properties } = context;
        match message {
            PropertiesPanelMessage::Clear => {
                responses.push(PanelResponse::SendLayout { layout: Vec::new() });
                assert(responses@.drop_last() =~= old(responses)@);
            },
            PropertiesPanelMessage::Refresh => {
                if !properties_panel_open {
                    responses.push(PanelResponse::Panel(PropertiesPanelMessage::Clear));
                    return ;
                }
                responses.push(PanelResponse::SendLayout { layout: properties });
            },
            PropertiesPanelMessage::SetSectionCollapsed { node_id, collapsed } => {
                responses.push(PanelResponse::SetCollapsed { node_id, collapsed });
                responses.push(PanelResponse::Panel(PropertiesPanelMessage::Refresh));
            },
            PropertiesPanelMessage::SetAllSectionsCollapsed { collapsed } => {
                if properties_panel_open {
                    set_all_sections_collapsed(collapsed, properties, responses);
                }
            },
        }
    }

    /// The actions that the panel offers: none.
    pub fn actions(&self) -> (r: Vec<PropertiesPanelMessage>)
        ensures
            r@.len() == 0,
    {
        Vec::new()
    }
}

/// What folding all sections adds to the queue: the fold of each section in
/// the order in which the sections stand, then the layout with every section
/// folded.
pub open spec fn all_sections_response(before: Seq<PanelResponse>, after: Seq<PanelResponse>, properties: Seq<LayoutGroup>, collapsed: bool) -> bool {
    &&& after.len() == before.len() + section_ids(properties).len() + 1
    &&& after.take(after.len() - 1) == before + fold_requests(section_ids(properties), collapsed)
    &&& after.last() matches PanelResponse::SendLayout { layout }
    &&& layout_set_collapsed(properties, layout@, collapsed)
}

/// Folds or unfolds every section of the collated properties, records each
/// fold in the document and shows the new layout.
pub fn set_all_sections_collapsed(collapsed: bool, properties: Vec<LayoutGroup>, responses: &mut Vec<PanelResponse>)
    ensures
        all_sections_response(old(responses)@, final(responses)@, properties@, collapsed),
{
    let mut ids: Vec<NodeId> = Vec::new();
    let layout = set_collapsed_in_layout(properties, &mut ids, collapsed);
    assert(ids@ =~= section_ids(properties@));
    let ghost before = responses@;
    let ghost all = fold_requests(ids@, collapsed);
    assert(before + all.take(0) =~= before);
    for node_id in it: ids.into_iter()
        invariant
            it.seq() == ids@,
            all == fold_requests(ids@, collapsed),
            responses@ == before + all.take(it.index() as int),
    {
        responses.push(PanelResponse::SetCollapsed { node_id, collapsed });
        assert(all.take(it.index() + 1) =~= all.take(it.index() as int).push(PanelResponse::SetCollapsed { node_id, collapsed }));
    }
    assert(all.take(ids@.len() as int) =~= all);
    responses.push(PanelResponse::SendLayout { layout });
    assert(responses@.take(responses@.len() - 1) =~= before + all);
}

} // verus!
