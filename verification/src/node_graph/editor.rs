//! The node editor's bookkeeping between frames: its zoom step, and the dragging of a
//! link from one pin to another. Drawing, and the pointer itself, belong to the caller,
//! which reports what happened to each pin.
use vstd::prelude::*;

use crate::node_graph::contents::{AttributeID, ContentsView, NodeContents, NodeID};
use crate::node_graph::graph::NodeGraph;
use crate::node_graph::templates::{
    bezier_template, curve_template, interval_template, matrix_template, parameter_template, plane_template,
    point_template, primitive_template, rendering_template, rotation_matrix_template, surface_template,
    transform_template, translation_matrix_template, vector_rendering_template, vector_template,
};

verus! {

/// How many zoom steps the editor offers.
pub const ZOOM_SIZE_COUNT: usize = 9;

/// What the pointer did to one pin during a frame.
#[derive(Debug, Clone, Copy)]
pub struct PinResponse {
    /// The pointer is over the pin.
    pub hovered: bool,
    /// The pin is being dragged with the primary button.
    pub dragged: bool,
    /// The drag started in this frame.
    pub drag_started: bool,
    /// The drag ended in this frame.
    pub drag_released: bool,
}

/// The editor's state carried from one frame to the next.
#[derive(Debug)]
pub struct GraphStatus {
    /// The zoom step, below `ZOOM_SIZE_COUNT`.
    pub zoom_level: usize,
    /// The pin under the pointer in the previous frame.
    pub prev_link_candidate: Option<AttributeID>,
    /// The pin under the pointer in this frame, as far as the pins were drawn.
    pub link_candidate: Option<AttributeID>,
    /// The pin from which a link is being dragged.
    pub dragged_pin: Option<AttributeID>,
    /// The last link the user asked for: the pin released, and the pin it was released on.
    pub new_link: Option<(AttributeID, AttributeID)>,
}

impl GraphStatus {
    /// A fresh editor at zoom step `zoom_level`.
    pub fn new(zoom_level: usize) -> (r: Self)
        requires
            zoom_level < ZOOM_SIZE_COUNT,
        ensures
            r.zoom_level == zoom_level,
            r.prev_link_candidate is None,
            r.link_candidate is None,
            r.dragged_pin is None,
            r.new_link is None,
    {
        GraphStatus {
            zoom_level,
            prev_link_candidate: None,
            link_candidate: None,
            dragged_pin: None,
            new_link: None,
        }
    }

    /// `self` and `other` keep the same link bookkeeping.
    pub open spec fn same_links(&self, other: Self) -> bool {
        &&& self.prev_link_candidate == other.prev_link_candidate
        &&& self.link_candidate == other.link_candidate
        &&& self.dragged_pin == other.dragged_pin
        &&& self.new_link == other.new_link
    }

    /// Zooms in by one step unless at the last one; returns whether it moved.
    pub fn increment_zoom(&mut self) -> (changed: bool)
        requires
            old(self).zoom_level < ZOOM_SIZE_COUNT,
        ensures
            changed == (old(self).zoom_level + 1 < ZOOM_SIZE_COUNT),
            final(self).zoom_level == (if changed { old(self).zoom_level + 1 } else { old(self).zoom_level as int }),
            final(self).same_links(*old(self)),
    {
        if self.zoom_level < ZOOM_SIZE_COUNT - 1 {
            self.zoom_level = self.zoom_level + 1;
            true
        } else {
            false
        }
    }

    /// Zooms out by one step unless at the first one; returns whether it moved.
    pub fn decrement_zoom(&mut self) -> (changed: bool)
        requires
            old(self).zoom_level < ZOOM_SIZE_COUNT,
        ensures
            changed == (old(self).zoom_level > 0),
            final(self).zoom_level == (if changed { old(self).zoom_level - 1 } else { old(self).zoom_level as int }),
            final(self).same_links(*old(self)),
    {
        if self.zoom_level > 0 {
            self.zoom_level = self.zoom_level - 1;
            true
        } else {
            false
        }
    }

    /// Starts a frame: no pin is under the pointer yet.
    pub fn begin_frame(&mut self)
        ensures
            final(self).link_candidate is None,
            final(self).zoom_level == old(self).zoom_level,
            final(self).prev_link_candidate == old(self).prev_link_candidate,
            final(self).dragged_pin == old(self).dragged_pin,
            final(self).new_link == old(self).new_link,
    {
        self.link_candidate = None;
    }

    /// Records what happened to pin `id` in this frame. A hovered pin becomes the
    /// link candidate; a drag started on it makes it the dragged pin; a drag released
    /// on it asks for a link to the pin that was under the pointer in the previous
    /// frame, if there was one, and ends the drag.
    pub fn add_pin(&mut self, id: AttributeID, response: PinResponse)
        ensures
            final(self).zoom_level == old(self).zoom_level,
            final(self).prev_link_candidate == old(self).prev_link_candidate,
            final(self).link_candidate == (if response.hovered { Some(id) } else { old(self).link_candidate }),
            final(self).dragged_pin == (if response.drag_released {
                None
            } else if response.dragged && response.drag_started {
                Some(id)
            } else {
                old(self).dragged_pin
            }),
            final(self).new_link == (if response.drag_released && old(self).prev_link_candidate is Some {
                Some((id, old(self).prev_link_candidate->0))
            } else {
                old(self).new_link
            }),
    {
        if response.hovered {
            self.link_candidate = Some(id);
        }
        if response.dragged {
            if response.drag_started {
                self.dragged_pin = Some(id);
            }
        }
        if response.drag_released {
            if let Some(link_id) = self.prev_link_candidate {
                self.new_link = Some((id, link_id));
            }
            self.dragged_pin = None;
        }
    }

    /// Ends the drawing of the pins: the pin found under the pointer is the candidate
    /// that the next frame's releases link to.
    pub fn end_pins(&mut self)
        ensures
            final(self).prev_link_candidate == old(self).link_candidate,
            final(self).link_candidate == old(self).link_candidate,
            final(self).zoom_level == old(self).zoom_level,
            final(self).dragged_pin == old(self).dragged_pin,
            final(self).new_link == old(self).new_link,
    {
        self.prev_link_candidate = self.link_candidate;
    }

    /// The link to put in `graph` for the requested one, input end first: the pair as
    /// it is when its first pin is an input, turned round otherwise.
    pub fn link_to_insert(&self, graph: &NodeGraph) -> (r: Option<(AttributeID, AttributeID)>)
        ensures
            match self.new_link {
                Some(pair) => r == Some(if graph.input_kind(pair.0 as int) is Some { pair } else { (pair.1, pair.0) }),
                None => r is None,
            },
    {
        match self.new_link {
            Some(pair) => {
                if graph.is_attribute_input(pair.0) {
                    Some(pair)
                } else {
                    Some((pair.1, pair.0))
                }
            },
            None => None,
        }
    }
}

/// A kind of node that the editor's Add menu offers.
#[derive(Debug, Clone, Copy, PartialEq, Eq, Structural)]
pub enum NodeTemplate {
    Curve,
    Bezier,
    Surface,
    Plane,
    Primitive,
    Interval,
    Parameter,
    Matrix,
    RotationMatrix,
    TranslationMatrix,
    Transform,
    Point,
    Vector,
    Rendering,
    VectorRendering,
}

/// The title, kind and attribute contents of a fresh node of a template.
pub open spec fn template_node(t: NodeTemplate) -> (Seq<char>, NodeContents, Seq<ContentsView>) {
    match t {
        NodeTemplate::Curve => ("Curve"@, NodeContents::default_curve(), curve_template()),
        NodeTemplate::Bezier => ("Bézier"@, NodeContents::default_bezier(), bezier_template()),
        NodeTemplate::Surface => ("Surface"@, NodeContents::default_surface(), surface_template()),
        NodeTemplate::Plane => ("Plane"@, NodeContents::default_plane(), plane_template()),
        NodeTemplate::Primitive => ("Primitive"@, NodeContents::default_primitive(), primitive_template()),
        NodeTemplate::Interval => ("Interval"@, NodeContents::default_interval(), interval_template()),
        NodeTemplate::Parameter => ("Sample Parameter"@, NodeContents::default_sample(), parameter_template()),
        NodeTemplate::Matrix => ("Matrix"@, NodeContents::default_matrix(), matrix_template()),
        NodeTemplate::RotationMatrix => (
            "Rotation Matrix"@,
            NodeContents::default_rotation_matrix(),
            rotation_matrix_template(),
        ),
        NodeTemplate::TranslationMatrix => (
            "Translation Matrix"@,
            NodeContents::default_translation_matrix(),
            translation_matrix_template(),
        ),
        NodeTemplate::Transform => ("Transform"@, NodeContents::default_transform(), transform_template()),
        NodeTemplate::Point => ("Point"@, NodeContents::default_point(), point_template()),
        NodeTemplate::Vector => ("Vector"@, NodeContents::default_vector(), vector_template()),
        NodeTemplate::Rendering => ("Rendering"@, NodeContents::default_rendering(), rendering_template()),
        NodeTemplate::VectorRendering => (
            "Vector Rendering"@,
            NodeContents::default_vector_rendering(),
            vector_rendering_template(),
        ),
    }
}

/// What the user chose in the node editor's menus, or did by dragging a link.
#[derive(Debug)]
pub enum EditorAction {
    /// "delete node", on one node.
    DeleteNode(NodeID),
    /// "duplicate node": a copy without links, at the given position.
    DuplicateNode(NodeID, [u32; 2]),
    /// "rename node".
    RenameNode(NodeID, String),
    /// "delete selected nodes".
    DeleteNodes(Vec<NodeID>),
    /// "duplicate nodes and links", each copy at the position at the same index.
    DuplicateNodes(Vec<NodeID>, Vec<[u32; 2]>),
    /// "delete link", naming the link by its input end.
    DeleteLink(AttributeID),
    /// An entry of the Add menu, at the given position.
    AddNode(NodeTemplate, [u32; 2]),
    /// A link dragged between two pins.
    CreateLink(AttributeID, AttributeID),
}

/// Which nodes a right click on node `hovered` acts on: the selection, when it holds
/// that node; otherwise the selection is dropped and the menu acts on the node alone.
pub fn node_menu_selection(selected: &Vec<NodeID>, hovered: NodeID) -> (r: Vec<NodeID>)
    ensures
        r@ == (if selected@.contains(hovered) { selected@ } else { Seq::<NodeID>::empty() }),
{
    let mut i: usize = 0;
    while i < selected.len()
        invariant
            i <= selected@.len(),
            forall|k: int| 0 <= k < i ==> selected@[k] != hovered,
        decreases selected@.len() - i,
    {
        if selected[i] == hovered {
            return selected.clone();
        }
        i = i + 1;
    }
    assert(!selected@.contains(hovered));
    Vec::new()
}

/// What an action may be asked of `graph`: the nodes it names are live (an id beyond
/// the node table is tolerated where the editor tolerates it), the pins it links are
/// live, and the tables have room for what it adds.
pub open spec fn action_allowed(graph: NodeGraph, action: EditorAction) -> bool {
    match action {
        EditorAction::DeleteNode(id) => !(0 <= id < graph.node_slots() && graph.node_at(id as int) is None),
        EditorAction::DuplicateNode(id, _) => graph.node_at(id as int) is Some && graph.has_room(6),
        EditorAction::RenameNode(id, _) => graph.node_at(id as int) is Some,
        EditorAction::DeleteNodes(ids) => {
            &&& ids@.no_duplicates()
            &&& forall|k: int|
                0 <= k < ids@.len() ==> !(0 <= #[trigger] ids@[k] < graph.node_slots() && graph.node_at(
                    ids@[k] as int,
                ) is None)
        },
        EditorAction::DuplicateNodes(ids, positions) => {
            &&& positions@.len() == ids@.len()
            &&& graph.node_slots() + ids@.len() < i32::MAX
            &&& graph.attr_slots() + 6 * ids@.len() <= i32::MAX
        },
        EditorAction::DeleteLink(_) => true,
        EditorAction::AddNode(_, _) => graph.has_room(6),
        EditorAction::CreateLink(a, b) => graph.attr_at(a as int) is Some && graph.attr_at(b as int) is Some,
    }
}

/// Whether an action on `graph` asks for the state to be saved: every change that
/// the menus make does, a renaming does not, and a dragged link does when it was made.
pub open spec fn action_saves(graph: NodeGraph, action: EditorAction) -> bool {
    match action {
        EditorAction::RenameNode(_, _) => false,
        EditorAction::CreateLink(a, b) => graph.link_between(a as int, b as int) is Some,
        _ => true,
    }
}

/// What an action does to the graph.
pub open spec fn action_done(before: NodeGraph, after: NodeGraph, action: EditorAction) -> bool {
    match action {
        EditorAction::DeleteNode(id) => {
            &&& before.node_at(id as int) is Some ==> after.removed(before, id)
            &&& before.node_at(id as int) is None ==> after == before
        },
        EditorAction::DuplicateNode(id, position) => {
            let n = before.node_at(id as int)->0;
            exists|c: NodeID|
                #[trigger] after.inserted(
                    before,
                    c,
                    n.title@,
                    position,
                    n.contents.canonical(),
                    before.contents_of(n.contents.attr_list()),
                )
        },
        EditorAction::RenameNode(id, title) => {
            &&& after.same_shape(before)
            &&& after.node_at(id as int)->0.title@ == title@
            &&& after.node_at(id as int)->0.position == before.node_at(id as int)->0.position
            &&& after.node_at(id as int)->0.error == before.node_at(id as int)->0.error
            &&& forall|i: int| i != id ==> #[trigger] after.node_at(i) == before.node_at(i)
        },
        EditorAction::DeleteNodes(ids) => {
            &&& forall|k: int| 0 <= k < ids@.len() ==> after.node_at(#[trigger] ids@[k] as int) is None
            &&& forall|i: int| !ids@.contains(i as NodeID) ==> #[trigger] after.node_at(i) == before.node_at(i)
        },
        EditorAction::DuplicateNodes(ids, positions) => {
            &&& forall|k: int|
                0 <= k < ids@.len() && before.node_at(#[trigger] ids@[k] as int) is Some ==> exists|c: NodeID|
                    before.copied_node(after, ids@[k], c, positions@[k])
            &&& forall|i: int| #[trigger] before.node_at(i) is Some ==> after.node_at(i) == before.node_at(i)
        },
        EditorAction::DeleteLink(l) => {
            &&& after.link_map() == before.link_map().remove(l)
            &&& after.same_nodes_and_attributes(before)
        },
        EditorAction::AddNode(t, position) => exists|c: NodeID|
            #[trigger] after.inserted(before, c, template_node(t).0, position, template_node(t).1, template_node(t).2),
        EditorAction::CreateLink(a, b) => {
            &&& after.same_nodes_and_attributes(before)
            &&& match before.link_between(a as int, b as int) {
                Some((i, o)) => after.link_map() == before.link_map().insert(i, o),
                None => after.link_map() == before.link_map(),
            }
        },
    }
}

impl NodeGraph {
    /// Carries out what the user chose in the node editor (see `action_done`), and
    /// tells whether the state should be saved (`action_saves`).
    #[verifier::rlimit(50)]
    pub fn apply_editor_action(&mut self, action: EditorAction) -> (request_savestate: bool)
        requires
            old(self).wf(),
            action_allowed(*old(self), action),
        ensures
            final(self).wf(),
            action_done(*old(self), *final(self), action),
            request_savestate == action_saves(*old(self), action),
    {
        let ghost before = *self;
        match action {
            EditorAction::DeleteNode(id) => {
                self.remove_node(id);
                true
            },
            EditorAction::DuplicateNode(id, position) => {
                let _copy = self.duplicate_node_no_links(id, position);
                true
            },
            EditorAction::RenameNode(id, title) => {
                self.set_node_title(id, title);
                false
            },
            EditorAction::DeleteNodes(ids) => {
                self.remove_nodes(&ids);
                true
            },
            EditorAction::DuplicateNodes(ids, positions) => {
                let copies = self.duplicate_nodes(&ids, &positions);
                assert forall|k: int|
                    0 <= k < ids@.len() && before.node_at(#[trigger] ids@[k] as int) is Some implies exists|c: NodeID|
                        before.copied_node(*self, ids@[k], c, positions@[k]) by {
                    assert(copies.0@[k] is Some);
                    assert(before.copied_node(*self, ids@[k], copies.0@[k]->0, positions@[k]));
                }
                true
            },
            EditorAction::DeleteLink(l) => {
                self.remove_link(l);
                true
            },
            EditorAction::AddNode(t, position) => {
                let _added = self.add_template_node(t, position);
                true
            },
            EditorAction::CreateLink(a, b) => {
                let made = self.create_link(a, b);
                made.is_some()
            },
        }
    }

    /// Removes each node of `ids` in turn.
    fn remove_nodes(&mut self, ids: &Vec<NodeID>)
        requires
            old(self).wf(),
            ids@.no_duplicates(),
            forall|k: int|
                0 <= k < ids@.len() ==> !(0 <= #[trigger] ids@[k] < old(self).node_slots() && old(self).node_at(
                    ids@[k] as int,
                ) is None),
        ensures
            final(self).wf(),
            forall|k: int| 0 <= k < ids@.len() ==> final(self).node_at(#[trigger] ids@[k] as int) is None,
            forall|i: int| !ids@.contains(i as NodeID) ==> #[trigger] final(self).node_at(i) == old(self).node_at(i),
    {
        let ghost g0 = *self;
        let mut k: usize = 0;
        while k < ids.len()
            invariant
                k <= ids@.len(),
                self.wf(),
                ids@.no_duplicates(),
                self.node_slots() == g0.node_slots(),
                forall|j: int|
                    0 <= j < ids@.len() ==> !(0 <= #[trigger] ids@[j] < g0.node_slots() && g0.node_at(
                        ids@[j] as int,
                    ) is None),
                forall|j: int| 0 <= j < k ==> self.node_at(#[trigger] ids@[j] as int) is None,
                forall|i: int|
                    !ids@.subrange(0, k as int).contains(i as NodeID) ==> #[trigger] self.node_at(i) == g0.node_at(i),
            decreases ids@.len() - k,
        {
            let id = ids[k];
            let ghost g1 = *self;
            proof {
                assert(!ids@.subrange(0, k as int).contains(id)) by {
                    if ids@.subrange(0, k as int).contains(id) {
                        let j = choose|j: int| 0 <= j < k && ids@.subrange(0, k as int)[j] == id;
                        assert(ids@[j] == ids@[k as int]);
                    }
                }
                assert(g1.node_at(id as int) == g0.node_at(id as int));
            }
            self.remove_node(id);
            proof {
                if g1.node_at(id as int) is Some {
                    self.lemma_removed_nodes(g1, id);
                } else {
                    assert(!(0 <= id < g0.node_slots()));
                }
                assert forall|i: int|
                    !ids@.subrange(0, k + 1).contains(i as NodeID) implies #[trigger] self.node_at(i) == g0.node_at(i) by {
                    assert(!ids@.subrange(0, k as int).contains(i as NodeID)) by {
                        if ids@.subrange(0, k as int).contains(i as NodeID) {
                            let j = choose|j: int| 0 <= j < k && ids@.subrange(0, k as int)[j] == i as NodeID;
                            assert(ids@.subrange(0, k + 1)[j] == i as NodeID);
                        }
                    }
                    assert(ids@.subrange(0, k + 1)[k as int] == id);
                    assert(i != id as int) by {
                        if i == id as int {
                            assert(i as NodeID == id);
                        }
                    }
                }
                assert forall|j: int| 0 <= j < k + 1 implies self.node_at(#[trigger] ids@[j] as int) is None by {
                    if j < k {
                        assert(ids@[j] != id);
                    }
                }
            }
            k = k + 1;
        }
        proof {
            assert(ids@.subrange(0, ids@.len() as int) =~= ids@);
        }
    }

    /// Adds a fresh node of template `t` at `position` and returns its id.
    pub fn add_template_node(&mut self, t: NodeTemplate, position: [u32; 2]) -> (id: NodeID)
        requires
            old(self).wf(),
            old(self).has_room(6),
        ensures
            final(self).wf(),
            final(self).inserted(*old(self), id, template_node(t).0, position, template_node(t).1, template_node(t).2),
            final(self).inserted_facts(*old(self), id, template_node(t).0, position, template_node(t).1, template_node(t).2),
    {
        match t {
            NodeTemplate::Curve => self.add_curve_node(position),
            NodeTemplate::Bezier => self.add_bezier_node(position),
            NodeTemplate::Surface => self.add_surface_node(position),
            NodeTemplate::Plane => self.add_plane_node(position),
            NodeTemplate::Primitive => self.add_primitive_node(position),
            NodeTemplate::Interval => self.add_interval_node(position),
            NodeTemplate::Parameter => self.add_parameter_node(position),
            NodeTemplate::Matrix => self.add_matrix_node(position),
            NodeTemplate::RotationMatrix => self.add_rotation_matrix_node(position),
            NodeTemplate::TranslationMatrix => self.add_translation_matrix_node(position),
            NodeTemplate::Transform => self.add_transform_node(position),
            NodeTemplate::Point => self.add_point_node(position),
            NodeTemplate::Vector => self.add_vector_node(position),
            NodeTemplate::Rendering => self.add_rendering_node(position),
            NodeTemplate::VectorRendering => self.add_vector_rendering_node(position),
        }
    }
}

} // verus!
