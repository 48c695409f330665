use vstd::prelude::*;

verus! {

/// Identifier of an attribute: its slot in the graph's attribute table.
pub type AttributeID = i32;
/// Identifier of a node: its slot in the graph's node table.
pub type NodeID = i32;

/// The kind of data that flows through a pin.
#[derive(Debug, Clone, Copy, PartialEq, Eq, Structural)]
pub enum DataKind {
    Interval,
    Geometry,
    Matrix,
    Vector,
}

/// The shape with which the node editor draws a pin.
#[derive(Debug, Clone, Copy, PartialEq, Eq, Structural)]
pub enum PinShape {
    Circle,
    CircleFilled,
    Triangle,
    TriangleFilled,
    Quad,
    QuadFilled,
}

/// The shape of the pins that carry each kind of data.
pub open spec fn pin_shape_of(k: DataKind) -> PinShape {
    match k {
        DataKind::Interval => PinShape::QuadFilled,
        DataKind::Geometry => PinShape::CircleFilled,
        DataKind::Vector => PinShape::TriangleFilled,
        DataKind::Matrix => PinShape::Quad,
    }
}

/// The number by which the node editor knows a pin shape: its position in the list.
pub open spec fn pin_shape_number(p: PinShape) -> i32 {
    match p {
        PinShape::Circle => 0,
        PinShape::CircleFilled => 1,
        PinShape::Triangle => 2,
        PinShape::TriangleFilled => 3,
        PinShape::Quad => 4,
        PinShape::QuadFilled => 5,
    }
}

impl DataKind {
    /// The number of the shape of the pins that carry this kind of data.
    pub fn to_pin_shape(&self) -> (r: i32)
        ensures
            r == pin_shape_number(pin_shape_of(*self)),
    {
        let pin_shape = match self {
            DataKind::Interval => PinShape::QuadFilled,
            DataKind::Geometry => PinShape::CircleFilled,
            DataKind::Vector => PinShape::TriangleFilled,
            DataKind::Matrix => PinShape::Quad,
        };
        match pin_shape {
            PinShape::Circle => 0,
            PinShape::CircleFilled => 1,
            PinShape::Triangle => 2,
            PinShape::TriangleFilled => 3,
            PinShape::Quad => 4,
            PinShape::QuadFilled => 5,
        }
    }
}

/// How the value of an integer slider is presented.
#[derive(Debug, Clone, Copy, PartialEq, Eq, Structural)]
pub enum SliderMode {
    IntRange(i32, i32),
    SizeLabels,
}

/// A coordinate axis.
#[derive(Debug, Clone, Copy, PartialEq, Eq, Structural)]
pub enum Axis {
    X,
    Y,
    Z,
}

/// What an attribute of a node holds. Colors are kept as the IEEE-754 bit
/// patterns of their three channels.
#[derive(Debug)]
pub enum AttributeContents {
    InputPin { label: String, kind: DataKind },
    OutputPin { label: String, kind: DataKind },
    Text { label: String, string: String },
    IntSlider { label: String, value: i32, mode: SliderMode },
    MatrixRow { col_1: String, col_2: String, col_3: String, col_4: String },
    AxisSelect { axis: Axis },
    Color { label: String, color: [u32; 3] },
    Mask { selected: usize },
    Material { selected: usize },
    PrimitiveKind { selected: usize },
    Unknown { label: String },
}

/// The mathematical value of an attribute's contents: strings are taken by
/// their characters.
pub ghost enum ContentsView {
    InputPin { label: Seq<char>, kind: DataKind },
    OutputPin { label: Seq<char>, kind: DataKind },
    Text { label: Seq<char>, string: Seq<char> },
    IntSlider { label: Seq<char>, value: i32, mode: SliderMode },
    MatrixRow { col_1: Seq<char>, col_2: Seq<char>, col_3: Seq<char>, col_4: Seq<char> },
    AxisSelect { axis: Axis },
    Color { label: Seq<char>, color: [u32; 3] },
    Mask { selected: usize },
    Material { selected: usize },
    PrimitiveKind { selected: usize },
    Unknown { label: Seq<char> },
}

impl View for AttributeContents {
    type V = ContentsView;

    open spec fn view(&self) -> ContentsView {
        match self {
            AttributeContents::InputPin { label, kind } => ContentsView::InputPin {
                label: label@,
                kind: *kind,
            },
            AttributeContents::OutputPin { label, kind } => ContentsView::OutputPin {
                label: label@,
                kind: *kind,
            },
            AttributeContents::Text { label, string } => ContentsView::Text {
                label: label@,
                string: string@,
            },
            AttributeContents::IntSlider { label, value, mode } => ContentsView::IntSlider {
                label: label@,
                value: *value,
                mode: *mode,
            },
            AttributeContents::MatrixRow { col_1, col_2, col_3, col_4 } => ContentsView::MatrixRow {
                col_1: col_1@,
                col_2: col_2@,
                col_3: col_3@,
                col_4: col_4@,
            },
            AttributeContents::AxisSelect { axis } => ContentsView::AxisSelect { axis: *axis },
            AttributeContents::Color { label, color } => ContentsView::Color {
                label: label@,
                color: *color,
            },
            AttributeContents::Mask { selected } => ContentsView::Mask { selected: *selected },
            AttributeContents::Material { selected } => ContentsView::Material {
                selected: *selected,
            },
            AttributeContents::PrimitiveKind { selected } => ContentsView::PrimitiveKind {
                selected: *selected,
            },
            AttributeContents::Unknown { label } => ContentsView::Unknown { label: label@ },
        }
    }
}

impl AttributeContents {
    /// A copy of these contents.
    pub fn clone_contents(&self) -> (r: Self)
        ensures
            r@ == self@,
    {
        match self {
            AttributeContents::InputPin { label, kind } => AttributeContents::InputPin {
                label: label.clone(),
                kind: *kind,
            },
            AttributeContents::OutputPin { label, kind } => AttributeContents::OutputPin {
                label: label.clone(),
                kind: *kind,
            },
            AttributeContents::Text { label, string } => AttributeContents::Text {
                label: label.clone(),
                string: string.clone(),
            },
            AttributeContents::IntSlider { label, value, mode } => AttributeContents::IntSlider {
                label: label.clone(),
                value: *value,
                mode: *mode,
            },
            AttributeContents::MatrixRow { col_1, col_2, col_3, col_4 } =>
                AttributeContents::MatrixRow {
                    col_1: col_1.clone(),
                    col_2: col_2.clone(),
                    col_3: col_3.clone(),
                    col_4: col_4.clone(),
                },
            AttributeContents::AxisSelect { axis } => AttributeContents::AxisSelect { axis: *axis },
            AttributeContents::Color { label, color } => AttributeContents::Color {
                label: label.clone(),
                color: *color,
            },
            AttributeContents::Mask { selected } => AttributeContents::Mask { selected: *selected },
            AttributeContents::Material { selected } => AttributeContents::Material {
                selected: *selected,
            },
            AttributeContents::PrimitiveKind { selected } => AttributeContents::PrimitiveKind {
                selected: *selected,
            },
            AttributeContents::Unknown { label } => AttributeContents::Unknown {
                label: label.clone(),
            },
        }
    }
}

/// How many thickness labels a `SliderMode::SizeLabels` slider offers.
pub const SIZE_LABEL_COUNT: usize = 9;

/// The label that a `SliderMode::SizeLabels` slider at `value` shows: the value
/// itself, held to the last label; a negative value shows the last label.
pub fn size_label_index(value: i32) -> (r: usize)
    ensures
        r == (if 0 <= value < SIZE_LABEL_COUNT { value as usize } else { (SIZE_LABEL_COUNT - 1) as usize }),
{
    if value < 0 {
        SIZE_LABEL_COUNT - 1
    } else if (value as usize) < SIZE_LABEL_COUNT {
        value as usize
    } else {
        SIZE_LABEL_COUNT - 1
    }
}

/// A choice among `available` options, held to the last option when out of range.
pub open spec fn selection_in_range(selected: usize, available: usize) -> usize {
    if selected >= available { (available - 1) as usize } else { selected }
}

/// A choice among `available` options after its widget was shown: held in range,
/// and then replaced by the user's `pick`, if any.
pub open spec fn selection_after(selected: usize, available: usize, pick: Option<usize>) -> usize {
    match pick {
        Some(p) => p,
        None => selection_in_range(selected, available),
    }
}

/// Whether showing the widget changed the choice: it was out of range, or the user
/// picked another option than the one shown.
pub open spec fn selection_changed(selected: usize, available: usize, pick: Option<usize>) -> bool {
    selected >= available || (pick is Some && pick->0 != selection_in_range(selected, available))
}

/// One frame of a chooser offering `available` options, where the user picked
/// `pick` (if anything): the new choice, and whether it changed.
fn choose_among(selected: usize, available: usize, pick: Option<usize>) -> (r: (usize, bool))
    requires
        available > 0,
    ensures
        r.0 == selection_after(selected, available, pick),
        r.1 == selection_changed(selected, available, pick),
{
    let mut current = selected;
    let mut value_changed = false;
    if current >= available {
        value_changed = true;
        current = available - 1;
    }
    if let Some(user_selection) = pick {
        if current != user_selection {
            current = user_selection;
            value_changed = true;
        }
    }
    (current, value_changed)
}

impl AttributeContents {
    /// One frame of a mask or material chooser offering `available` options, where
    /// the user picked `pick` (if anything): the choice becomes `selection_after`, and
    /// the result is `selection_changed`. Other contents stay as they are.
    pub fn update_selection(&mut self, available: usize, pick: Option<usize>) -> (changed: bool)
        requires
            available > 0,
        ensures
            match old(self)@ {
                ContentsView::Mask { selected } => final(self)@ == ContentsView::Mask {
                    selected: selection_after(selected, available, pick),
                } && changed == selection_changed(selected, available, pick),
                ContentsView::Material { selected } => final(self)@ == ContentsView::Material {
                    selected: selection_after(selected, available, pick),
                } && changed == selection_changed(selected, available, pick),
                _ => final(self)@ == old(self)@ && !changed,
            },
    {
        match self {
            AttributeContents::Mask { selected } => {
                let (s, changed) = choose_among(*selected, available, pick);
                *self = AttributeContents::Mask { selected: s };
                changed
            },
            AttributeContents::Material { selected } => {
                let (s, changed) = choose_among(*selected, available, pick);
                *self = AttributeContents::Material { selected: s };
                changed
            },
            _ => false,
        }
    }
}

/// The values of a sequence of attribute contents.
pub open spec fn views(s: Seq<AttributeContents>) -> Seq<ContentsView> {
    s.map_values(|c: AttributeContents| c@)
}

/// An attribute stored in the graph, with the node that owns it.
#[derive(Debug)]
pub struct Attribute {
    pub node_id: NodeID,
    pub contents: AttributeContents,
}

/// The kind of a node, and the ids of the attributes it owns.
#[derive(Debug, Clone, Copy, PartialEq, Eq, Structural)]
pub enum NodeContents {
    Interval {
        variable: AttributeID,
        begin: AttributeID,
        end: AttributeID,
        quality: AttributeID,
        output: AttributeID,
    },
    Sample {
        geometry: AttributeID,
        parameter: AttributeID,
        value: AttributeID,
        output: AttributeID,
    },
    Vector { x: AttributeID, y: AttributeID, z: AttributeID, output: AttributeID },
    Point { x: AttributeID, y: AttributeID, z: AttributeID, output: AttributeID },
    Bezier {
        p0: AttributeID,
        p1: AttributeID,
        p2: AttributeID,
        p3: AttributeID,
        quality: AttributeID,
        output: AttributeID,
    },
    Curve {
        interval: AttributeID,
        fx: AttributeID,
        fy: AttributeID,
        fz: AttributeID,
        output: AttributeID,
    },
    Surface {
        interval_1: AttributeID,
        interval_2: AttributeID,
        fx: AttributeID,
        fy: AttributeID,
        fz: AttributeID,
        output: AttributeID,
    },
    Plane { center: AttributeID, normal: AttributeID, size: AttributeID, output: AttributeID },
    Transform { geometry: AttributeID, matrix: AttributeID, output: AttributeID },
    Matrix {
        interval: AttributeID,
        row_1: AttributeID,
        row_2: AttributeID,
        row_3: AttributeID,
        output: AttributeID,
    },
    RotationMatrix { axis: AttributeID, angle: AttributeID, output: AttributeID },
    TranslationMatrix { vector: AttributeID, output: AttributeID },
    Rendering {
        geometry: AttributeID,
        thickness: AttributeID,
        mask: AttributeID,
        material: AttributeID,
    },
    VectorRendering {
        application_point: AttributeID,
        vector: AttributeID,
        thickness: AttributeID,
        material: AttributeID,
    },
    Primitive { primitive: AttributeID, size: AttributeID, output: AttributeID },
    Group,
}

impl NodeContents {
    /// Whether the node is a group.
    pub fn is_group(&self) -> (r: bool)
        ensures
            r == (*self is Group),
    {
        match self {
            NodeContents::Group => true,
            _ => false,
        }
    }

    /// The attribute ids of the node, in the order in which the node lists them.
    pub open spec fn attr_list(self) -> Seq<AttributeID> {
        match self {
            NodeContents::Interval { variable, begin, end, quality, output } => seq![
                variable,
                begin,
                end,
                quality,
                output,
            ],
            NodeContents::Sample { geometry, parameter, value, output } => seq![
                geometry,
                parameter,
                value,
                output,
            ],
            NodeContents::Vector { x, y, z, output } => seq![x, y, z, output],
            NodeContents::Point { x, y, z, output } => seq![x, y, z, output],
            NodeContents::Bezier { p0, p1, p2, p3, quality, output } => seq![
                p0,
                p1,
                p2,
                p3,
                quality,
                output,
            ],
            NodeContents::Curve { interval, fx, fy, fz, output } => seq![
                interval,
                fx,
                fy,
                fz,
                output,
            ],
            NodeContents::Surface { interval_1, interval_2, fx, fy, fz, output } => seq![
                interval_1,
                interval_2,
                fx,
                fy,
                fz,
                output,
            ],
            NodeContents::Plane { center, normal, size, output } => seq![
                center,
                normal,
                size,
                output,
            ],
            NodeContents::Transform { geometry, matrix, output } => seq![geometry, matrix, output],
            NodeContents::Matrix { interval, row_1, row_2, row_3, output } => seq![
                interval,
                row_1,
                row_2,
                row_3,
                output,
            ],
            NodeContents::RotationMatrix { axis, angle, output } => seq![axis, angle, output],
            NodeContents::TranslationMatrix { vector, output } => seq![vector, output],
            NodeContents::Rendering { geometry, thickness, mask, material } => seq![
                geometry,
                thickness,
                mask,
                material,
            ],
            NodeContents::VectorRendering { application_point, vector, thickness, material } =>
                seq![application_point, vector, thickness, material],
            NodeContents::Primitive { primitive, size, output } => seq![primitive, size, output],
            NodeContents::Group => seq![],
        }
    }

    /// The same kind of node, with its attribute ids replaced, in order, by `ids`.
    pub open spec fn with_ids(self, ids: Seq<AttributeID>) -> NodeContents {
        match self {
            NodeContents::Interval { .. } => NodeContents::Interval {
                variable: ids[0],
                begin: ids[1],
                end: ids[2],
                quality: ids[3],
                output: ids[4],
            },
            NodeContents::Sample { .. } => NodeContents::Sample {
                geometry: ids[0],
                parameter: ids[1],
                value: ids[2],
                output: ids[3],
            },
            NodeContents::Vector { .. } => NodeContents::Vector {
                x: ids[0],
                y: ids[1],
                z: ids[2],
                output: ids[3],
            },
            NodeContents::Point { .. } => NodeContents::Point {
                x: ids[0],
                y: ids[1],
                z: ids[2],
                output: ids[3],
            },
            NodeContents::Bezier { .. } => NodeContents::Bezier {
                p0: ids[0],
                p1: ids[1],
                p2: ids[2],
                p3: ids[3],
                quality: ids[4],
                output: ids[5],
            },
            NodeContents::Curve { .. } => NodeContents::Curve {
                interval: ids[0],
                fx: ids[1],
                fy: ids[2],
                fz: ids[3],
                output: ids[4],
            },
            NodeContents::Surface { .. } => NodeContents::Surface {
                interval_1: ids[0],
                interval_2: ids[1],
                fx: ids[2],
                fy: ids[3],
                fz: ids[4],
                output: ids[5],
            },
            NodeContents::Plane { .. } => NodeContents::Plane {
                center: ids[0],
                normal: ids[1],
                size: ids[2],
                output: ids[3],
            },
            NodeContents::Transform { .. } => NodeContents::Transform {
                geometry: ids[0],
                matrix: ids[1],
                output: ids[2],
            },
            NodeContents::Matrix { .. } => NodeContents::Matrix {
                interval: ids[0],
                row_1: ids[1],
                row_2: ids[2],
                row_3: ids[3],
                output: ids[4],
            },
            NodeContents::RotationMatrix { .. } => NodeContents::RotationMatrix {
                axis: ids[0],
                angle: ids[1],
                output: ids[2],
            },
            NodeContents::TranslationMatrix { .. } => NodeContents::TranslationMatrix {
                vector: ids[0],
                output: ids[1],
            },
            NodeContents::Rendering { .. } => NodeContents::Rendering {
                geometry: ids[0],
                thickness: ids[1],
                mask: ids[2],
                material: ids[3],
            },
            NodeContents::VectorRendering { .. } => NodeContents::VectorRendering {
                application_point: ids[0],
                vector: ids[1],
                thickness: ids[2],
                material: ids[3],
            },
            NodeContents::Primitive { .. } => NodeContents::Primitive {
                primitive: ids[0],
                size: ids[1],
                output: ids[2],
            },
            NodeContents::Group => NodeContents::Group,
        }
    }

    /// The ids of a freshly made node of this kind: 0, 1, 2, ... in attribute order.
    pub open spec fn canonical(self) -> NodeContents {
        self.with_ids(Seq::new(self.attr_list().len(), |i: int| i as AttributeID))
    }

    /// Replacing the ids by a list of the right length gives that list back.
    pub proof fn lemma_with_ids(self, ids: Seq<AttributeID>)
        requires
            ids.len() == self.attr_list().len(),
        ensures
            self.with_ids(ids).attr_list() =~= ids,
            self.with_ids(ids).with_ids(self.attr_list()) == self,
            self.with_ids(ids).canonical() == self.canonical(),
    {
    }

    /// A fresh Interval node: its attributes are numbered in the order of `attr_list`.
    #[verifier::allow_in_spec]
    pub fn default_interval() -> Self
        returns
            (NodeContents::Interval { variable: 0, begin: 1, end: 2, quality: 3, output: 4 }),
    {
        NodeContents::Interval { variable: 0, begin: 1, end: 2, quality: 3, output: 4 }
    }

    /// A fresh Sample node: its attributes are numbered in the order of `attr_list`.
    #[verifier::allow_in_spec]
    pub fn default_sample() -> Self
        returns
            (NodeContents::Sample { geometry: 0, parameter: 1, value: 2, output: 3 }),
    {
        NodeContents::Sample { geometry: 0, parameter: 1, value: 2, output: 3 }
    }

    /// A fresh Vector node: its attributes are numbered in the order of `attr_list`.
    #[verifier::allow_in_spec]
    pub fn default_vector() -> Self
        returns
            (NodeContents::Vector { x: 0, y: 1, z: 2, output: 3 }),
    {
        NodeContents::Vector { x: 0, y: 1, z: 2, output: 3 }
    }

    /// A fresh Point node: its attributes are numbered in the order of `attr_list`.
    #[verifier::allow_in_spec]
    pub fn default_point() -> Self
        returns
            (NodeContents::Point { x: 0, y: 1, z: 2, output: 3 }),
    {
        NodeContents::Point { x: 0, y: 1, z: 2, output: 3 }
    }

    /// A fresh Bezier node: its attributes are numbered in the order of `attr_list`.
    #[verifier::allow_in_spec]
    pub fn default_bezier() -> Self
        returns
            (NodeContents::Bezier { p0: 0, p1: 1, p2: 2, p3: 3, quality: 4, output: 5 }),
    {
        NodeContents::Bezier { p0: 0, p1: 1, p2: 2, p3: 3, quality: 4, output: 5 }
    }

    /// A fresh Curve node: its attributes are numbered in the order of `attr_list`.
    #[verifier::allow_in_spec]
    pub fn default_curve() -> Self
        returns
            (NodeContents::Curve { interval: 0, fx: 1, fy: 2, fz: 3, output: 4 }),
    {
        NodeContents::Curve { interval: 0, fx: 1, fy: 2, fz: 3, output: 4 }
    }

    /// A fresh Surface node: its attributes are numbered in the order of `attr_list`.
    #[verifier::allow_in_spec]
    pub fn default_surface() -> Self
        returns
            (NodeContents::Surface { interval_1: 0, interval_2: 1, fx: 2, fy: 3, fz: 4, output: 5 }),
    {
        NodeContents::Surface { interval_1: 0, interval_2: 1, fx: 2, fy: 3, fz: 4, output: 5 }
    }

    /// A fresh Plane node: its attributes are numbered in the order of `attr_list`.
    #[verifier::allow_in_spec]
    pub fn default_plane() -> Self
        returns
            (NodeContents::Plane { center: 0, normal: 1, size: 2, output: 3 }),
    {
        NodeContents::Plane { center: 0, normal: 1, size: 2, output: 3 }
    }

    /// A fresh Matrix node: its attributes are numbered in the order of `attr_list`.
    #[verifier::allow_in_spec]
    pub fn default_matrix() -> Self
        returns
            (NodeContents::Matrix { interval: 0, row_1: 1, row_2: 2, row_3: 3, output: 4 }),
    {
        NodeContents::Matrix { interval: 0, row_1: 1, row_2: 2, row_3: 3, output: 4 }
    }

    /// A fresh RotationMatrix node: its attributes are numbered in the order of `attr_list`.
    #[verifier::allow_in_spec]
    pub fn default_rotation_matrix() -> Self
        returns
            (NodeContents::RotationMatrix { axis: 0, angle: 1, output: 2 }),
    {
        NodeContents::RotationMatrix { axis: 0, angle: 1, output: 2 }
    }

    /// A fresh TranslationMatrix node: its attributes are numbered in the order of `attr_list`.
    #[verifier::allow_in_spec]
    pub fn default_translation_matrix() -> Self
        returns
            (NodeContents::TranslationMatrix { vector: 0, output: 1 }),
    {
        NodeContents::TranslationMatrix { vector: 0, output: 1 }
    }

    /// A fresh Transform node: its attributes are numbered in the order of `attr_list`.
    #[verifier::allow_in_spec]
    pub fn default_transform() -> Self
        returns
            (NodeContents::Transform { geometry: 0, matrix: 1, output: 2 }),
    {
        NodeContents::Transform { geometry: 0, matrix: 1, output: 2 }
    }

    /// A fresh Rendering node: its attributes are numbered in the order of `attr_list`.
    #[verifier::allow_in_spec]
    pub fn default_rendering() -> Self
        returns
            (NodeContents::Rendering { geometry: 0, thickness: 1, mask: 2, material: 3 }),
    {
        NodeContents::Rendering { geometry: 0, thickness: 1, mask: 2, material: 3 }
    }

    /// A fresh VectorRendering node: its attributes are numbered in the order of `attr_list`.
    #[verifier::allow_in_spec]
    pub fn default_vector_rendering() -> Self
        returns
            (NodeContents::VectorRendering { application_point: 0, vector: 1, thickness: 2, material: 3 }),
    {
        NodeContents::VectorRendering { application_point: 0, vector: 1, thickness: 2, material: 3 }
    }

    /// A fresh Primitive node: its attributes are numbered in the order of `attr_list`.
    #[verifier::allow_in_spec]
    pub fn default_primitive() -> Self
        returns
            (NodeContents::Primitive { primitive: 0, size: 1, output: 2 }),
    {
        NodeContents::Primitive { primitive: 0, size: 1, output: 2 }
    }

    /// A fresh node of the same kind as this one.
    pub fn default_same_kind(&self) -> (r: Self)
        requires
            !(*self is Group),
        ensures
            r == self.canonical(),
    {
        match self {
            NodeContents::Interval { .. } => Self::default_interval(),
            NodeContents::Sample { .. } => Self::default_sample(),
            NodeContents::Vector { .. } => Self::default_vector(),
            NodeContents::Point { .. } => Self::default_point(),
            NodeContents::Bezier { .. } => Self::default_bezier(),
            NodeContents::Curve { .. } => Self::default_curve(),
            NodeContents::Surface { .. } => Self::default_surface(),
            NodeContents::Plane { .. } => Self::default_plane(),
            NodeContents::Matrix { .. } => Self::default_matrix(),
            NodeContents::RotationMatrix { .. } => Self::default_rotation_matrix(),
            NodeContents::TranslationMatrix { .. } => Self::default_translation_matrix(),
            NodeContents::Transform { .. } => Self::default_transform(),
            NodeContents::Rendering { .. } => Self::default_rendering(),
            NodeContents::VectorRendering { .. } => Self::default_vector_rendering(),
            NodeContents::Primitive { .. } => Self::default_primitive(),
            NodeContents::Group => NodeContents::Group,
        }
    }

    /// The attribute ids of the node, in the order in which it lists them.
    pub fn get_attribute_list(&self) -> (v: Vec<AttributeID>)
        requires
            !(*self is Group),
        ensures
            v@ == self.attr_list(),
    {
        match *self {
            NodeContents::Interval { variable, begin, end, quality, output } => {
                vec![variable, begin, end, quality, output]
            },
            NodeContents::Sample { geometry, parameter, value, output } => {
                vec![geometry, parameter, value, output]
            },
            NodeContents::Vector { x, y, z, output } => { vec![x, y, z, output] },
            NodeContents::Point { x, y, z, output } => { vec![x, y, z, output] },
            NodeContents::Bezier { p0, p1, p2, p3, quality, output } => {
                vec![p0, p1, p2, p3, quality, output]
            },
            NodeContents::Curve { interval, fx, fy, fz, output } => {
                vec![interval, fx, fy, fz, output]
            },
            NodeContents::Surface { interval_1, interval_2, fx, fy, fz, output } => {
                vec![interval_1, interval_2, fx, fy, fz, output]
            },
            NodeContents::Plane { center, normal, size, output } => {
                vec![center, normal, size, output]
            },
            NodeContents::Transform { geometry, matrix, output } => {
                vec![geometry, matrix, output]
            },
            NodeContents::Matrix { interval, row_1, row_2, row_3, output } => {
                vec![interval, row_1, row_2, row_3, output]
            },
            NodeContents::RotationMatrix { axis, angle, output } => { vec![axis, angle, output] },
            NodeContents::TranslationMatrix { vector, output } => { vec![vector, output] },
            NodeContents::Rendering { geometry, thickness, mask, material } => {
                vec![geometry, thickness, mask, material]
            },
            NodeContents::VectorRendering { application_point, vector, thickness, material } => {
                vec![application_point, vector, thickness, material]
            },
            NodeContents::Primitive { primitive, size, output } => { vec![primitive, size, output] },
            NodeContents::Group => { vec![] },
        }
    }

    /// Replaces every attribute id `a` of the node by `map[a]`.
    pub fn remap_attribute_ids(&mut self, map: &Vec<AttributeID>)
        requires
            !(*old(self) is Group),
            forall|j: int|
                0 <= j < old(self).attr_list().len() ==> 0 <= #[trigger] old(self).attr_list()[j]
                    < map@.len(),
        ensures
            *final(self) == old(self).with_ids(
                old(self).attr_list().map_values(|a: AttributeID| map@[a as int]),
            ),
    {
        let ghost l = self.attr_list();
        proof {
            assert(forall|j: int| 0 <= j < l.len() ==> 0 <= #[trigger] l[j] < map@.len());
        }
        let ids = self.get_attribute_list();
        let mut new_ids: Vec<AttributeID> = Vec::new();
        let mut k: usize = 0;
        while k < ids.len()
            invariant
                ids@ == l,
                0 <= k <= ids@.len(),
                forall|j: int| 0 <= j < l.len() ==> 0 <= #[trigger] l[j] < map@.len(),
                new_ids@ =~= l.take(k as int).map_values(|a: AttributeID| map@[a as int]),
            decreases ids@.len() - k,
        {
            let a = ids[k];
            assert(0 <= l[k as int] < map@.len());
            new_ids.push(map[a as usize]);
            k = k + 1;
            assert(l.take(k as int) =~= l.take(k - 1).push(a));
        }
        assert(l.take(k as int) =~= l);
        self.set_attribute_list(&new_ids);
    }

    /// Replaces the attribute ids of the node, in order, by `ids`.
    pub fn set_attribute_list(&mut self, ids: &Vec<AttributeID>)
        requires
            !(*old(self) is Group),
            ids@.len() == old(self).attr_list().len(),
        ensures
            *final(self) == old(self).with_ids(ids@),
    {
        *self = match *self {
            NodeContents::Interval { .. } => NodeContents::Interval {
                variable: ids[0],
                begin: ids[1],
                end: ids[2],
                quality: ids[3],
                output: ids[4],
            },
            NodeContents::Sample { .. } => NodeContents::Sample {
                geometry: ids[0],
                parameter: ids[1],
                value: ids[2],
                output: ids[3],
            },
            NodeContents::Vector { .. } => NodeContents::Vector {
                x: ids[0],
                y: ids[1],
                z: ids[2],
                output: ids[3],
            },
            NodeContents::Point { .. } => NodeContents::Point {
                x: ids[0],
                y: ids[1],
                z: ids[2],
                output: ids[3],
            },
            NodeContents::Bezier { .. } => NodeContents::Bezier {
                p0: ids[0],
                p1: ids[1],
                p2: ids[2],
                p3: ids[3],
                quality: ids[4],
                output: ids[5],
            },
            NodeContents::Curve { .. } => NodeContents::Curve {
                interval: ids[0],
                fx: ids[1],
                fy: ids[2],
                fz: ids[3],
                output: ids[4],
            },
            NodeContents::Surface { .. } => NodeContents::Surface {
                interval_1: ids[0],
                interval_2: ids[1],
                fx: ids[2],
                fy: ids[3],
                fz: ids[4],
                output: ids[5],
            },
            NodeContents::Plane { .. } => NodeContents::Plane {
                center: ids[0],
                normal: ids[1],
                size: ids[2],
                output: ids[3],
            },
            NodeContents::Transform { .. } => NodeContents::Transform {
                geometry: ids[0],
                matrix: ids[1],
                output: ids[2],
            },
            NodeContents::Matrix { .. } => NodeContents::Matrix {
                interval: ids[0],
                row_1: ids[1],
                row_2: ids[2],
                row_3: ids[3],
                output: ids[4],
            },
            NodeContents::RotationMatrix { .. } => NodeContents::RotationMatrix {
                axis: ids[0],
                angle: ids[1],
                output: ids[2],
            },
            NodeContents::TranslationMatrix { .. } => NodeContents::TranslationMatrix {
                vector: ids[0],
                output: ids[1],
            },
            NodeContents::Rendering { .. } => NodeContents::Rendering {
                geometry: ids[0],
                thickness: ids[1],
                mask: ids[2],
                material: ids[3],
            },
            NodeContents::VectorRendering { .. } => NodeContents::VectorRendering {
                application_point: ids[0],
                vector: ids[1],
                thickness: ids[2],
                material: ids[3],
            },
            NodeContents::Primitive { .. } => NodeContents::Primitive {
                primitive: ids[0],
                size: ids[1],
                output: ids[2],
            },
            NodeContents::Group => NodeContents::Group,
        };
    }
}

} // verus!
