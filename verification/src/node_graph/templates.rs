use vstd::prelude::*;
use super::contents::{AttributeContents, ContentsView, DataKind, SliderMode, Axis, NodeContents, NodeID, views};
use super::graph::NodeGraph;

verus! {

/// The attributes of a fresh Interval node, in the order of its attribute list.
pub open spec fn interval_template() -> Seq<ContentsView> {
    seq![
        ContentsView::Text { label: " name"@, string: ""@ },
        ContentsView::Text { label: "begin"@, string: ""@ },
        ContentsView::Text { label: "  end"@, string: ""@ },
        ContentsView::IntSlider { label: "quality"@, value: 4, mode: SliderMode::IntRange(1, 16) },
        ContentsView::OutputPin { label: "interval"@, kind: DataKind::Interval },
    ]
}

/// The attributes of a fresh Sample Parameter node, in the order of its attribute list.
pub open spec fn parameter_template() -> Seq<ContentsView> {
    seq![
        ContentsView::InputPin { label: "geometry"@, kind: DataKind::Geometry },
        ContentsView::Text { label: "param:"@, string: ""@ },
        ContentsView::Text { label: "value:"@, string: ""@ },
        ContentsView::OutputPin { label: "output"@, kind: DataKind::Geometry },
    ]
}

/// The attributes of a fresh Vector node, in the order of its attribute list.
pub open spec fn vector_template() -> Seq<ContentsView> {
    seq![
        ContentsView::Text { label: "x"@, string: "0.0"@ },
        ContentsView::Text { label: "y"@, string: "0.0"@ },
        ContentsView::Text { label: "z"@, string: "0.0"@ },
        ContentsView::OutputPin { label: "vector"@, kind: DataKind::Vector },
    ]
}

/// The attributes of a fresh Point node, in the order of its attribute list.
pub open spec fn point_template() -> Seq<ContentsView> {
    seq![
        ContentsView::Text { label: "x"@, string: "0.0"@ },
        ContentsView::Text { label: "y"@, string: "0.0"@ },
        ContentsView::Text { label: "z"@, string: "0.0"@ },
        ContentsView::OutputPin { label: "geometry"@, kind: DataKind::Geometry },
    ]
}

/// The attributes of a fresh Bézier node, in the order of its attribute list.
pub open spec fn bezier_template() -> Seq<ContentsView> {
    seq![
        ContentsView::InputPin { label: "P0"@, kind: DataKind::Geometry },
        ContentsView::InputPin { label: "P1"@, kind: DataKind::Geometry },
        ContentsView::InputPin { label: "P2"@, kind: DataKind::Geometry },
        ContentsView::InputPin { label: "P3"@, kind: DataKind::Geometry },
        ContentsView::IntSlider { label: "quality"@, value: 4, mode: SliderMode::IntRange(1, 16) },
        ContentsView::OutputPin { label: "geometry"@, kind: DataKind::Geometry },
    ]
}

/// The attributes of a fresh Curve node, in the order of its attribute list.
pub open spec fn curve_template() -> Seq<ContentsView> {
    seq![
        ContentsView::InputPin { label: "interval"@, kind: DataKind::Interval },
        ContentsView::Text { label: "fx"@, string: ""@ },
        ContentsView::Text { label: "fy"@, string: ""@ },
        ContentsView::Text { label: "fz"@, string: ""@ },
        ContentsView::OutputPin { label: "geometry"@, kind: DataKind::Geometry },
    ]
}

/// The attributes of a fresh Surface node, in the order of its attribute list.
pub open spec fn surface_template() -> Seq<ContentsView> {
    seq![
        ContentsView::InputPin { label: "interval 1"@, kind: DataKind::Interval },
        ContentsView::InputPin { label: "interval 2"@, kind: DataKind::Interval },
        ContentsView::Text { label: "fx"@, string: ""@ },
        ContentsView::Text { label: "fy"@, string: ""@ },
        ContentsView::Text { label: "fz"@, string: ""@ },
        ContentsView::OutputPin { label: "geometry"@, kind: DataKind::Geometry },
    ]
}

/// The attributes of a fresh Plane node, in the order of its attribute list.
pub open spec fn plane_template() -> Seq<ContentsView> {
    seq![
        ContentsView::InputPin { label: "point"@, kind: DataKind::Geometry },
        ContentsView::InputPin { label: "normal"@, kind: DataKind::Vector },
        ContentsView::IntSlider { label: "size:"@, value: 4, mode: SliderMode::IntRange(1, 16) },
        ContentsView::OutputPin { label: "output"@, kind: DataKind::Geometry },
    ]
}

/// The attributes of a fresh Rendering node, in the order of its attribute list.
pub open spec fn rendering_template() -> Seq<ContentsView> {
    seq![
        ContentsView::InputPin { label: "geometry"@, kind: DataKind::Geometry },
        ContentsView::IntSlider { label: "thickness:"@, value: 3, mode: SliderMode::SizeLabels },
        ContentsView::Mask { selected: 0 },
        ContentsView::Material { selected: 0 },
    ]
}

/// The attributes of a fresh Vector Rendering node, in the order of its attribute list.
pub open spec fn vector_rendering_template() -> Seq<ContentsView> {
    seq![
        ContentsView::InputPin { label: "application point"@, kind: DataKind::Geometry },
        ContentsView::InputPin { label: "vector"@, kind: DataKind::Vector },
        ContentsView::IntSlider { label: "thickness:"@, value: 3, mode: SliderMode::SizeLabels },
        ContentsView::Material { selected: 0 },
    ]
}

/// The attributes of a fresh Primitive node, in the order of its attribute list.
pub open spec fn primitive_template() -> Seq<ContentsView> {
    seq![
        ContentsView::PrimitiveKind { selected: 1 },
        ContentsView::Text { label: "size:"@, string: "1.0"@ },
        ContentsView::OutputPin { label: "geometry"@, kind: DataKind::Geometry },
    ]
}

/// The attributes of a fresh Transform node, in the order of its attribute list.
pub open spec fn transform_template() -> Seq<ContentsView> {
    seq![
        ContentsView::InputPin { label: "geometry"@, kind: DataKind::Geometry },
        ContentsView::InputPin { label: "matrix"@, kind: DataKind::Matrix },
        ContentsView::OutputPin { label: "output"@, kind: DataKind::Geometry },
    ]
}

/// The attributes of a fresh Matrix node, in the order of its attribute list.
pub open spec fn matrix_template() -> Seq<ContentsView> {
    seq![
        ContentsView::InputPin { label: "interval"@, kind: DataKind::Interval },
        ContentsView::MatrixRow { col_1: "1.0"@, col_2: "0.0"@, col_3: "0.0"@, col_4: "0.0"@ },
        ContentsView::MatrixRow { col_1: "0.0"@, col_2: "1.0"@, col_3: "0.0"@, col_4: "0.0"@ },
        ContentsView::MatrixRow { col_1: "0.0"@, col_2: "0.0"@, col_3: "1.0"@, col_4: "0.0"@ },
        ContentsView::OutputPin { label: "output"@, kind: DataKind::Matrix },
    ]
}

/// The attributes of a fresh Rotation Matrix node, in the order of its attribute list.
pub open spec fn rotation_matrix_template() -> Seq<ContentsView> {
    seq![
        ContentsView::AxisSelect { axis: Axis::X },
        ContentsView::Text { label: "angle"@, string: "0.0"@ },
        ContentsView::OutputPin { label: "output"@, kind: DataKind::Matrix },
    ]
}

/// The attributes of a fresh Translation Matrix node, in the order of its attribute list.
pub open spec fn translation_matrix_template() -> Seq<ContentsView> {
    seq![
        ContentsView::InputPin { label: "vector"@, kind: DataKind::Vector },
        ContentsView::OutputPin { label: "output"@, kind: DataKind::Matrix },
    ]
}

impl NodeGraph {
    /// Adds a fresh Interval node at `position` and returns its id.
    pub fn add_interval_node(&mut self, position: [u32; 2]) -> (id: NodeID)
        requires
            old(self).wf(),
            old(self).has_room(6),
        ensures
            final(self).wf(),
            final(self).inserted(*old(self), id, "Interval"@, position, NodeContents::default_interval(), interval_template()),
            final(self).inserted_facts(*old(self), id, "Interval"@, position, NodeContents::default_interval(), interval_template()),
    {
        let attributes_contents = vec![
            AttributeContents::Text { label: String::from_str(" name"), string: String::from_str("") },
            AttributeContents::Text { label: String::from_str("begin"), string: String::from_str("") },
            AttributeContents::Text { label: String::from_str("  end"), string: String::from_str("") },
            AttributeContents::IntSlider { label: String::from_str("quality"), value: 4, mode: SliderMode::IntRange(1, 16) },
            AttributeContents::OutputPin { label: String::from_str("interval"), kind: DataKind::Interval },
        ];
        let node_contents = NodeContents::default_interval();
        proof {
            NodeGraph::lemma_canonical_ids(node_contents);
            assert(views(attributes_contents@) =~= interval_template());
        }
        self.insert_node(String::from_str("Interval"), position, node_contents, attributes_contents)
    }

    /// Adds a fresh Sample Parameter node at `position` and returns its id.
    pub fn add_parameter_node(&mut self, position: [u32; 2]) -> (id: NodeID)
        requires
            old(self).wf(),
            old(self).has_room(6),
        ensures
            final(self).wf(),
            final(self).inserted(*old(self), id, "Sample Parameter"@, position, NodeContents::default_sample(), parameter_template()),
            final(self).inserted_facts(*old(self), id, "Sample Parameter"@, position, NodeContents::default_sample(), parameter_template()),
    {
        let attributes_contents = vec![
            AttributeContents::InputPin { label: String::from_str("geometry"), kind: DataKind::Geometry },
            AttributeContents::Text { label: String::from_str("param:"), string: String::from_str("") },
            AttributeContents::Text { label: String::from_str("value:"), string: String::from_str("") },
            AttributeContents::OutputPin { label: String::from_str("output"), kind: DataKind::Geometry },
        ];
        let node_contents = NodeContents::default_sample();
        proof {
            NodeGraph::lemma_canonical_ids(node_contents);
            assert(views(attributes_contents@) =~= parameter_template());
        }
        self.insert_node(String::from_str("Sample Parameter"), position, node_contents, attributes_contents)
    }

    /// Adds a fresh Vector node at `position` and returns its id.
    pub fn add_vector_node(&mut self, position: [u32; 2]) -> (id: NodeID)
        requires
            old(self).wf(),
            old(self).has_room(6),
        ensures
            final(self).wf(),
            final(self).inserted(*old(self), id, "Vector"@, position, NodeContents::default_vector(), vector_template()),
            final(self).inserted_facts(*old(self), id, "Vector"@, position, NodeContents::default_vector(), vector_template()),
    {
        let attributes_contents = vec![
            AttributeContents::Text { label: String::from_str("x"), string: String::from_str("0.0") },
            AttributeContents::Text { label: String::from_str("y"), string: String::from_str("0.0") },
            AttributeContents::Text { label: String::from_str("z"), string: String::from_str("0.0") },
            AttributeContents::OutputPin { label: String::from_str("vector"), kind: DataKind::Vector },
        ];
        let node_contents = NodeContents::default_vector();
        proof {
            NodeGraph::lemma_canonical_ids(node_contents);
            assert(views(attributes_contents@) =~= vector_template());
        }
        self.insert_node(String::from_str("Vector"), position, node_contents, attributes_contents)
    }

    /// Adds a fresh Point node at `position` and returns its id.
    pub fn add_point_node(&mut self, position: [u32; 2]) -> (id: NodeID)
        requires
            old(self).wf(),
            old(self).has_room(6),
        ensures
            final(self).wf(),
            final(self).inserted(*old(self), id, "Point"@, position, NodeContents::default_point(), point_template()),
            final(self).inserted_facts(*old(self), id, "Point"@, position, NodeContents::default_point(), point_template()),
    {
        let attributes_contents = vec![
            AttributeContents::Text { label: String::from_str("x"), string: String::from_str("0.0") },
            AttributeContents::Text { label: String::from_str("y"), string: String::from_str("0.0") },
            AttributeContents::Text { label: String::from_str("z"), string: String::from_str("0.0") },
            AttributeContents::OutputPin { label: String::from_str("geometry"), kind: DataKind::Geometry },
        ];
        let node_contents = NodeContents::default_point();
        proof {
            NodeGraph::lemma_canonical_ids(node_contents);
            assert(views(attributes_contents@) =~= point_template());
        }
        self.insert_node(String::from_str("Point"), position, node_contents, attributes_contents)
    }

    /// Adds a fresh Bézier node at `position` and returns its id.
    pub fn add_bezier_node(&mut self, position: [u32; 2]) -> (id: NodeID)
        requires
            old(self).wf(),
            old(self).has_room(6),
        ensures
            final(self).wf(),
            final(self).inserted(*old(self), id, "Bézier"@, position, NodeContents::default_bezier(), bezier_template()),
            final(self).inserted_facts(*old(self), id, "Bézier"@, position, NodeContents::default_bezier(), bezier_template()),
    {
        let attributes_contents = vec![
            AttributeContents::InputPin { label: String::from_str("P0"), kind: DataKind::Geometry },
            AttributeContents::InputPin { label: String::from_str("P1"), kind: DataKind::Geometry },
            AttributeContents::InputPin { label: String::from_str("P2"), kind: DataKind::Geometry },
            AttributeContents::InputPin { label: String::from_str("P3"), kind: DataKind::Geometry },
            AttributeContents::IntSlider { label: String::from_str("quality"), value: 4, mode: SliderMode::IntRange(1, 16) },
            AttributeContents::OutputPin { label: String::from_str("geometry"), kind: DataKind::Geometry },
        ];
        let node_contents = NodeContents::default_bezier();
        proof {
            NodeGraph::lemma_canonical_ids(node_contents);
            assert(views(attributes_contents@) =~= bezier_template());
        }
        self.insert_node(String::from_str("Bézier"), position, node_contents, attributes_contents)
    }

    /// Adds a fresh Curve node at `position` and returns its id.
    pub fn add_curve_node(&mut self, position: [u32; 2]) -> (id: NodeID)
        requires
            old(self).wf(),
            old(self).has_room(6),
        ensures
            final(self).wf(),
            final(self).inserted(*old(self), id, "Curve"@, position, NodeContents::default_curve(), curve_template()),
            final(self).inserted_facts(*old(self), id, "Curve"@, position, NodeContents::default_curve(), curve_template()),
    {
        let attributes_contents = vec![
            AttributeContents::InputPin { label: String::from_str("interval"), kind: DataKind::Interval },
            AttributeContents::Text { label: String::from_str("fx"), string: String::from_str("") },
            AttributeContents::Text { label: String::from_str("fy"), string: String::from_str("") },
            AttributeContents::Text { label: String::from_str("fz"), string: String::from_str("") },
            AttributeContents::OutputPin { label: String::from_str("geometry"), kind: DataKind::Geometry },
        ];
        let node_contents = NodeContents::default_curve();
        proof {
            NodeGraph::lemma_canonical_ids(node_contents);
            assert(views(attributes_contents@) =~= curve_template());
        }
        self.insert_node(String::from_str("Curve"), position, node_contents, attributes_contents)
    }

    /// Adds a fresh Surface node at `position` and returns its id.
    pub fn add_surface_node(&mut self, position: [u32; 2]) -> (id: NodeID)
        requires
            old(self).wf(),
            old(self).has_room(6),
        ensures
            final(self).wf(),
            final(self).inserted(*old(self), id, "Surface"@, position, NodeContents::default_surface(), surface_template()),
            final(self).inserted_facts(*old(self), id, "Surface"@, position, NodeContents::default_surface(), surface_template()),
    {
        let attributes_contents = vec![
            AttributeContents::InputPin { label: String::from_str("interval 1"), kind: DataKind::Interval },
            AttributeContents::InputPin { label: String::from_str("interval 2"), kind: DataKind::Interval },
            AttributeContents::Text { label: String::from_str("fx"), string: String::from_str("") },
            AttributeContents::Text { label: String::from_str("fy"), string: String::from_str("") },
            AttributeContents::Text { label: String::from_str("fz"), string: String::from_str("") },
            AttributeContents::OutputPin { label: String::from_str("geometry"), kind: DataKind::Geometry },
        ];
        let node_contents = NodeContents::default_surface();
        proof {
            NodeGraph::lemma_canonical_ids(node_contents);
            assert(views(attributes_contents@) =~= surface_template());
        }
        self.insert_node(String::from_str("Surface"), position, node_contents, attributes_contents)
    }

    /// Adds a fresh Plane node at `position` and returns its id.
    pub fn add_plane_node(&mut self, position: [u32; 2]) -> (id: NodeID)
        requires
            old(self).wf(),
            old(self).has_room(6),
        ensures
            final(self).wf(),
            final(self).inserted(*old(self), id, "Plane"@, position, NodeContents::default_plane(), plane_template()),
            final(self).inserted_facts(*old(self), id, "Plane"@, position, NodeContents::default_plane(), plane_template()),
    {
        let attributes_contents = vec![
            AttributeContents::InputPin { label: String::from_str("point"), kind: DataKind::Geometry },
            AttributeContents::InputPin { label: String::from_str("normal"), kind: DataKind::Vector },
            AttributeContents::IntSlider { label: String::from_str("size:"), value: 4, mode: SliderMode::IntRange(1, 16) },
            AttributeContents::OutputPin { label: String::from_str("output"), kind: DataKind::Geometry },
        ];
        let node_contents = NodeContents::default_plane();
        proof {
            NodeGraph::lemma_canonical_ids(node_contents);
            assert(views(attributes_contents@) =~= plane_template());
        }
        self.insert_node(String::from_str("Plane"), position, node_contents, attributes_contents)
    }

    /// Adds a fresh Rendering node at `position` and returns its id.
    pub fn add_rendering_node(&mut self, position: [u32; 2]) -> (id: NodeID)
        requires
            old(self).wf(),
            old(self).has_room(6),
        ensures
            final(self).wf(),
            final(self).inserted(*old(self), id, "Rendering"@, position, NodeContents::default_rendering(), rendering_template()),
            final(self).inserted_facts(*old(self), id, "Rendering"@, position, NodeContents::default_rendering(), rendering_template()),
    {
        let attributes_contents = vec![
            AttributeContents::InputPin { label: String::from_str("geometry"), kind: DataKind::Geometry },
            AttributeContents::IntSlider { label: String::from_str("thickness:"), value: 3, mode: SliderMode::SizeLabels },
            AttributeContents::Mask { selected: 0 },
            AttributeContents::Material { selected: 0 },
        ];
        let node_contents = NodeContents::default_rendering();
        proof {
            NodeGraph::lemma_canonical_ids(node_contents);
            assert(views(attributes_contents@) =~= rendering_template());
        }
        self.insert_node(String::from_str("Rendering"), position, node_contents, attributes_contents)
    }

    /// Adds a fresh Vector Rendering node at `position` and returns its id.
    pub fn add_vector_rendering_node(&mut self, position: [u32; 2]) -> (id: NodeID)
        requires
            old(self).wf(),
            old(self).has_room(6),
        ensures
            final(self).wf(),
            final(self).inserted(*old(self), id, "Vector Rendering"@, position, NodeContents::default_vector_rendering(), vector_rendering_template()),
            final(self).inserted_facts(*old(self), id, "Vector Rendering"@, position, NodeContents::default_vector_rendering(), vector_rendering_template()),
    {
        let attributes_contents = vec![
            AttributeContents::InputPin { label: String::from_str("application point"), kind: DataKind::Geometry },
            AttributeContents::InputPin { label: String::from_str("vector"), kind: DataKind::Vector },
            AttributeContents::IntSlider { label: String::from_str("thickness:"), value: 3, mode: SliderMode::SizeLabels },
            AttributeContents::Material { selected: 0 },
        ];
        let node_contents = NodeContents::default_vector_rendering();
        proof {
            NodeGraph::lemma_canonical_ids(node_contents);
            assert(views(attributes_contents@) =~= vector_rendering_template());
        }
        self.insert_node(String::from_str("Vector Rendering"), position, node_contents, attributes_contents)
    }

    /// Adds a fresh Primitive node at `position` and returns its id.
    pub fn add_primitive_node(&mut self, position: [u32; 2]) -> (id: NodeID)
        requires
            old(self).wf(),
            old(self).has_room(6),
        ensures
            final(self).wf(),
            final(self).inserted(*old(self), id, "Primitive"@, position, NodeContents::default_primitive(), primitive_template()),
            final(self).inserted_facts(*old(self), id, "Primitive"@, position, NodeContents::default_primitive(), primitive_template()),
    {
        let attributes_contents = vec![
            AttributeContents::PrimitiveKind { selected: 1 },
            AttributeContents::Text { label: String::from_str("size:"), string: String::from_str("1.0") },
            AttributeContents::OutputPin { label: String::from_str("geometry"), kind: DataKind::Geometry },
        ];
        let node_contents = NodeContents::default_primitive();
        proof {
            NodeGraph::lemma_canonical_ids(node_contents);
            assert(views(attributes_contents@) =~= primitive_template());
        }
        self.insert_node(String::from_str("Primitive"), position, node_contents, attributes_contents)
    }

    /// Adds a fresh Transform node at `position` and returns its id.
    pub fn add_transform_node(&mut self, position: [u32; 2]) -> (id: NodeID)
        requires
            old(self).wf(),
            old(self).has_room(6),
        ensures
            final(self).wf(),
            final(self).inserted(*old(self), id, "Transform"@, position, NodeContents::default_transform(), transform_template()),
            final(self).inserted_facts(*old(self), id, "Transform"@, position, NodeContents::default_transform(), transform_template()),
    {
        let attributes_contents = vec![
            AttributeContents::InputPin { label: String::from_str("geometry"), kind: DataKind::Geometry },
            AttributeContents::InputPin { label: String::from_str("matrix"), kind: DataKind::Matrix },
            AttributeContents::OutputPin { label: String::from_str("output"), kind: DataKind::Geometry },
        ];
        let node_contents = NodeContents::default_transform();
        proof {
            NodeGraph::lemma_canonical_ids(node_contents);
            assert(views(attributes_contents@) =~= transform_template());
        }
        self.insert_node(String::from_str("Transform"), position, node_contents, attributes_contents)
    }

    /// Adds a fresh Matrix node at `position` and returns its id.
    pub fn add_matrix_node(&mut self, position: [u32; 2]) -> (id: NodeID)
        requires
            old(self).wf(),
            old(self).has_room(6),
        ensures
            final(self).wf(),
            final(self).inserted(*old(self), id, "Matrix"@, position, NodeContents::default_matrix(), matrix_template()),
            final(self).inserted_facts(*old(self), id, "Matrix"@, position, NodeContents::default_matrix(), matrix_template()),
    {
        let attributes_contents = vec![
            AttributeContents::InputPin { label: String::from_str("interval"), kind: DataKind::Interval },
            AttributeContents::MatrixRow { col_1: String::from_str("1.0"), col_2: String::from_str("0.0"), col_3: String::from_str("0.0"), col_4: String::from_str("0.0") },
            AttributeContents::MatrixRow { col_1: String::from_str("0.0"), col_2: String::from_str("1.0"), col_3: String::from_str("0.0"), col_4: String::from_str("0.0") },
            AttributeContents::MatrixRow { col_1: String::from_str("0.0"), col_2: String::from_str("0.0"), col_3: String::from_str("1.0"), col_4: String::from_str("0.0") },
            AttributeContents::OutputPin { label: String::from_str("output"), kind: DataKind::Matrix },
        ];
        let node_contents = NodeContents::default_matrix();
        proof {
            NodeGraph::lemma_canonical_ids(node_contents);
            assert(views(attributes_contents@) =~= matrix_template());
        }
        self.insert_node(String::from_str("Matrix"), position, node_contents, attributes_contents)
    }

    /// Adds a fresh Rotation Matrix node at `position` and returns its id.
    pub fn add_rotation_matrix_node(&mut self, position: [u32; 2]) -> (id: NodeID)
        requires
            old(self).wf(),
            old(self).has_room(6),
        ensures
            final(self).wf(),
            final(self).inserted(*old(self), id, "Rotation Matrix"@, position, NodeContents::default_rotation_matrix(), rotation_matrix_template()),
            final(self).inserted_facts(*old(self), id, "Rotation Matrix"@, position, NodeContents::default_rotation_matrix(), rotation_matrix_template()),
    {
        let attributes_contents = vec![
            AttributeContents::AxisSelect { axis: Axis::X },
            AttributeContents::Text { label: String::from_str("angle"), string: String::from_str("0.0") },
            AttributeContents::OutputPin { label: String::from_str("output"), kind: DataKind::Matrix },
        ];
        let node_contents = NodeContents::default_rotation_matrix();
        proof {
            NodeGraph::lemma_canonical_ids(node_contents);
            assert(views(attributes_contents@) =~= rotation_matrix_template());
        }
        self.insert_node(String::from_str("Rotation Matrix"), position, node_contents, attributes_contents)
    }

    /// Adds a fresh Translation Matrix node at `position` and returns its id.
    pub fn add_translation_matrix_node(&mut self, position: [u32; 2]) -> (id: NodeID)
        requires
            old(self).wf(),
            old(self).has_room(6),
        ensures
            final(self).wf(),
            final(self).inserted(*old(self), id, "Translation Matrix"@, position, NodeContents::default_translation_matrix(), translation_matrix_template()),
            final(self).inserted_facts(*old(self), id, "Translation Matrix"@, position, NodeContents::default_translation_matrix(), translation_matrix_template()),
    {
        let attributes_contents = vec![
            AttributeContents::InputPin { label: String::from_str("vector"), kind: DataKind::Vector },
            AttributeContents::OutputPin { label: String::from_str("output"), kind: DataKind::Matrix },
        ];
        let node_contents = NodeContents::default_translation_matrix();
        proof {
            NodeGraph::lemma_canonical_ids(node_contents);
            assert(views(attributes_contents@) =~= translation_matrix_template());
        }
        self.insert_node(String::from_str("Translation Matrix"), position, node_contents, attributes_contents)
    }

}

} // verus!
