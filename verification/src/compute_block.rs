//! Block descriptors: what each node of the graph asks a compute block to do, read
//! from the node's attributes and links, before any block is built.
use vstd::prelude::*;
use crate::node_graph::contents::{NodeID, NodeContents, Axis};
use crate::node_graph::graph::{NodeGraph, Node};
use crate::compute_graph::globals::names_view;
use crate::compute_graph::steps::{apply, rotation_entries};
use crate::compute_graph::process::present;

verus! {

pub type BlockId = i32;

pub type PrefabId = i32;

/// Why a block could not be made.
#[derive(Debug, Clone)]
pub enum BlockCreationError {
    IncorrectAttributes(&'static str),
    InputMissing(&'static str),
    InputInvalid(&'static str),
    InputNotBuilt(&'static str),
    InternalError(String),
    IncorrectExpression(String),
}

/// The value of a block creation error: its kind and message.
pub ghost enum BlockCreationErrorView {
    IncorrectAttributes(Seq<char>),
    InputMissing(Seq<char>),
    InputInvalid(Seq<char>),
    InputNotBuilt(Seq<char>),
    InternalError(Seq<char>),
    IncorrectExpression(Seq<char>),
}

impl View for BlockCreationError {
    type V = BlockCreationErrorView;

    open spec fn view(&self) -> BlockCreationErrorView {
        match self {
            BlockCreationError::IncorrectAttributes(m) => BlockCreationErrorView::IncorrectAttributes(m@),
            BlockCreationError::InputMissing(m) => BlockCreationErrorView::InputMissing(m@),
            BlockCreationError::InputInvalid(m) => BlockCreationErrorView::InputInvalid(m@),
            BlockCreationError::InputNotBuilt(m) => BlockCreationErrorView::InputNotBuilt(m@),
            BlockCreationError::InternalError(m) => BlockCreationErrorView::InternalError(m@),
            BlockCreationError::IncorrectExpression(m) => BlockCreationErrorView::IncorrectExpression(m@),
        }
    }
}

/// The parameter of a block, with the number of points along it.
#[derive(Debug)]
pub struct Parameter {
    pub name: Option<String>,
    pub size: usize,
    pub begin: String,
    pub end: String,
    pub use_interval_as_uv: bool,
}

/// The value of a block parameter.
pub ghost struct ParameterView {
    pub name: Option<Seq<char>>,
    pub size: usize,
    pub begin: Seq<char>,
    pub end: Seq<char>,
    pub use_interval_as_uv: bool,
}

impl View for Parameter {
    type V = ParameterView;

    open spec fn view(&self) -> ParameterView {
        ParameterView {
            name: match self.name {
                Some(n) => Some(n@),
                None => None,
            },
            size: self.size,
            begin: self.begin@,
            end: self.end@,
            use_interval_as_uv: self.use_interval_as_uv,
        }
    }
}

impl Parameter {
    /// A copy of the parameter.
    pub fn duplicate(&self) -> (r: Parameter)
        ensures
            r@ == self@,
    {
        Parameter {
            name: match &self.name {
                Some(n) => Some(n.clone()),
                None => None,
            },
            size: self.size,
            begin: self.begin.clone(),
            end: self.end.clone(),
            use_interval_as_uv: self.use_interval_as_uv,
        }
    }
}

/// The dimensions of a block's output: a point, a curve along one parameter, a
/// surface along two, or a model with its vertex count.
#[derive(Debug)]
pub enum Dimensions {
    D0,
    D1(Parameter),
    D2(Parameter, Parameter),
    D3(usize, PrefabId),
}

impl Dimensions {
    /// Nothing, for a point; an error for anything else.
    pub fn as_0d(&self) -> (r: Result<(), BlockCreationError>)
        ensures
            r is Ok <==> *self is D0,
            r matches Err(e) ==> e@ == BlockCreationErrorView::InternalError(
                match *self {
                    Dimensions::D1(_) => "Dimensions mismatch: called `as_0d()` on a 1D object"@,
                    Dimensions::D2(_, _) => "Dimensions mismatch: called `as_0d()` on a 2D object"@,
                    _ => "Dimensions mismatch: called `as_0d()` on a 3D object"@,
                },
            ),
    {
        match self {
            Self::D0 => Ok(()),
            Self::D1(_) => Err(BlockCreationError::InternalError(String::from_str("Dimensions mismatch: called `as_0d()` on a 1D object"))),
            Self::D2(_, _) => Err(BlockCreationError::InternalError(String::from_str("Dimensions mismatch: called `as_0d()` on a 2D object"))),
            Self::D3(_, _) => Err(BlockCreationError::InternalError(String::from_str("Dimensions mismatch: called `as_0d()` on a 3D object"))),
        }
    }

    /// The parameter of a curve; an error for anything else.
    pub fn as_1d(&self) -> (r: Result<Parameter, BlockCreationError>)
        ensures
            match *self {
                Dimensions::D1(p) => r matches Ok(q) && q@ == p@,
                Dimensions::D0 => r matches Err(e) && e@ == BlockCreationErrorView::InternalError(
                    "Dimensions mismatch: called `as_1d()` on a 0D object"@,
                ),
                Dimensions::D2(_, _) => r matches Err(e) && e@ == BlockCreationErrorView::InternalError(
                    "Dimensions mismatch: called `as_1d()` on a 2D object"@,
                ),
                Dimensions::D3(_, _) => r matches Err(e) && e@ == BlockCreationErrorView::InternalError(
                    "Dimensions mismatch: called `as_1d()` on a 3D object"@,
                ),
            },
    {
        match self {
            Self::D0 => Err(BlockCreationError::InternalError(String::from_str("Dimensions mismatch: called `as_1d()` on a 0D object"))),
            Self::D1(dim) => Ok(dim.duplicate()),
            Self::D2(_, _) => Err(BlockCreationError::InternalError(String::from_str("Dimensions mismatch: called `as_1d()` on a 2D object"))),
            Self::D3(_, _) => Err(BlockCreationError::InternalError(String::from_str("Dimensions mismatch: called `as_1d()` on a 3D object"))),
        }
    }

    /// The two parameters of a surface; an error for anything else.
    pub fn as_2d(&self) -> (r: Result<(Parameter, Parameter), BlockCreationError>)
        ensures
            match *self {
                Dimensions::D2(p1, p2) => r matches Ok((q1, q2)) && q1@ == p1@ && q2@ == p2@,
                Dimensions::D0 => r matches Err(e) && e@ == BlockCreationErrorView::InternalError(
                    "Dimensions mismatch: called `as_2d()` on a 0D object"@,
                ),
                Dimensions::D1(_) => r matches Err(e) && e@ == BlockCreationErrorView::InternalError(
                    "Dimensions mismatch: called `as_2d()` on a 1D object"@,
                ),
                Dimensions::D3(_, _) => r matches Err(e) && e@ == BlockCreationErrorView::InternalError(
                    "Dimensions mismatch: called `as_2d()` on a 3D object"@,
                ),
            },
    {
        match self {
            Self::D0 => Err(BlockCreationError::InternalError(String::from_str("Dimensions mismatch: called `as_2d()` on a 0D object"))),
            Self::D1(_) => Err(BlockCreationError::InternalError(String::from_str("Dimensions mismatch: called `as_2d()` on a 1D object"))),
            Self::D2(dim1, dim2) => Ok((dim1.duplicate(), dim2.duplicate())),
            Self::D3(_, _) => Err(BlockCreationError::InternalError(String::from_str("Dimensions mismatch: called `as_2d()` on a 3D object"))),
        }
    }

    /// The vertex count and prefab of a model; an error for anything else.
    pub fn as_3d(&self) -> (r: Result<(usize, PrefabId), BlockCreationError>)
        ensures
            match *self {
                Dimensions::D3(n, p) => r == Ok::<(usize, PrefabId), BlockCreationError>((n, p)),
                Dimensions::D0 => r matches Err(e) && e@ == BlockCreationErrorView::InternalError(
                    "Dimensions mismatch: called `as_3d()` on a 0D object"@,
                ),
                Dimensions::D1(_) => r matches Err(e) && e@ == BlockCreationErrorView::InternalError(
                    "Dimensions mismatch: called `as_3d()` on a 1D object"@,
                ),
                Dimensions::D2(_, _) => r matches Err(e) && e@ == BlockCreationErrorView::InternalError(
                    "Dimensions mismatch: called `as_3d()` on a 2D object"@,
                ),
            },
    {
        match self {
            Self::D0 => Err(BlockCreationError::InternalError(String::from_str("Dimensions mismatch: called `as_3d()` on a 0D object"))),
            Self::D1(_) => Err(BlockCreationError::InternalError(String::from_str("Dimensions mismatch: called `as_3d()` on a 1D object"))),
            Self::D2(_, _) => Err(BlockCreationError::InternalError(String::from_str("Dimensions mismatch: called `as_3d()` on a 2D object"))),
            Self::D3(vertex_count, index_buffer) => Ok((*vertex_count, *index_buffer)),
        }
    }

    /// The number of elements a buffer for these dimensions holds.
    pub fn element_count(&self) -> (n: usize)
        requires
            match *self {
                Dimensions::D1(p) => p.size <= usize::MAX,
                Dimensions::D2(p1, p2) => p1.size * p2.size <= usize::MAX,
                _ => true,
            },
        ensures
            n == match *self {
                Dimensions::D0 => 1,
                Dimensions::D1(p) => p.size as int,
                Dimensions::D2(p1, p2) => p1.size * p2.size,
                Dimensions::D3(vertex_count, _) => vertex_count as int,
            },
    {
        match self {
            Dimensions::D0 => 1,
            Dimensions::D1(param) => param.size,
            Dimensions::D2(par1, par2) => par1.size * par2.size,
            Dimensions::D3(vertex_count, _) => *vertex_count,
        }
    }
}

pub struct IntervalBlockDescriptor {
    pub begin: String,
    pub end: String,
    pub quality: usize,
    pub name: String,
}

pub struct SampleBlockDescriptor {
    pub geometry: Option<BlockId>,
    pub parameter: String,
    pub value: String,
}

pub struct VectorBlockDescriptor {
    pub vx: String,
    pub vy: String,
    pub vz: String,
}

pub struct PointBlockDescriptor {
    pub fx: String,
    pub fy: String,
    pub fz: String,
}

pub struct BezierBlockDescriptor {
    pub points: Vec<BlockId>,
    pub quality: usize,
}

pub struct CurveBlockDescriptor {
    pub interval: Option<BlockId>,
    pub fx: String,
    pub fy: String,
    pub fz: String,
}

pub struct SurfaceBlockDescriptor {
    pub interval_first: Option<BlockId>,
    pub interval_second: Option<BlockId>,
    pub fx: String,
    pub fy: String,
    pub fz: String,
}

pub struct PlaneBlockDescriptor {
    pub center: Option<BlockId>,
    pub normal: Option<BlockId>,
    pub side_length: usize,
}

pub struct TransformBlockDescriptor {
    pub geometry: Option<BlockId>,
    pub matrix: Option<BlockId>,
}

/// A matrix by rows; each row holds four entries.
pub struct MatrixBlockDescriptor {
    pub interval: Option<BlockId>,
    pub row_1: [String; 4],
    pub row_2: [String; 4],
    pub row_3: [String; 4],
}

pub struct RenderingBlockDescriptor {
    pub geometry: Option<BlockId>,
    pub mask: usize,
    pub material: usize,
    pub thickness: usize,
}

pub struct VectorRenderingBlockDescriptor {
    pub application_point: Option<BlockId>,
    pub vector: Option<BlockId>,
    pub thickness: usize,
    pub material: usize,
}

pub struct PrefabBlockDescriptor {
    pub size: String,
    pub prefab_id: i32,
}

pub struct SurfaceRendererBlockDescriptor {
    pub surface: Option<BlockId>,
}

impl SurfaceRendererBlockDescriptor {
    /// The blocks this one reads from: its surface, if linked.
    pub fn get_input_ids(&self) -> (v: Vec<BlockId>)
        ensures
            v@ == match self.surface {
                Some(id) => seq![id],
                None => seq![],
            },
    {
        match self.surface {
            Some(id) => vec![id],
            None => vec![],
        }
    }
}

/// The entries of the rows of a matrix, row after row.
pub open spec fn rows_view(m: MatrixBlockDescriptor) -> Seq<Seq<char>> {
    seq![
        m.row_1[0]@, m.row_1[1]@, m.row_1[2]@, m.row_1[3]@,
        m.row_2[0]@, m.row_2[1]@, m.row_2[2]@, m.row_2[3]@,
        m.row_3[0]@, m.row_3[1]@, m.row_3[2]@, m.row_3[3]@,
    ]
}

/// Whether `c` is white space, as Unicode defines it.
pub open spec fn is_white_space(c: char) -> bool {
    ||| c == ' ' || c == '\t' || c == '\n' || c == '\u{0B}' || c == '\u{0C}' || c == '\r'
    ||| c == '\u{85}' || c == '\u{A0}' || c == '\u{1680}'
    ||| ('\u{2000}' <= c <= '\u{200A}')
    ||| c == '\u{2028}' || c == '\u{2029}' || c == '\u{202F}' || c == '\u{205F}' || c == '\u{3000}'
}

/// The position of the first character of `s` from `i` on that is not white space.
pub open spec fn lead_end(s: Seq<char>, i: nat) -> nat
    decreases s.len() - i,
{
    if i < s.len() && is_white_space(s[i as int]) {
        lead_end(s, i + 1)
    } else {
        i
    }
}

/// The position after the last character of `s` before `j` that is not white space.
pub open spec fn trail_start(s: Seq<char>, j: nat) -> nat
    decreases j,
{
    if j > 0 && j <= s.len() && is_white_space(s[j - 1]) {
        trail_start(s, (j - 1) as nat)
    } else {
        j
    }
}

/// `s` without its leading and trailing white space.
pub open spec fn trimmed(s: Seq<char>) -> Seq<char> {
    let a = lead_end(s, 0);
    let b = trail_start(s, s.len());
    if a < b {
        s.subrange(a as int, b as int)
    } else {
        seq![]
    }
}

/// Whether a character may stay in an expression of a block: ASCII, and none of
/// `^`, `;` and `=`.
pub open spec fn allowed_in_block_expression(c: char) -> bool {
    (c as u32) < 128 && c != '^' && c != ';' && c != '='
}

/// What checking an expression of a block gives: the expression without the white
/// space around it, if every character in it is allowed.
pub open spec fn block_expression(s: Seq<char>) -> Option<Seq<char>> {
    let t = trimmed(s);
    if forall|k: int| 0 <= k < t.len() ==> allowed_in_block_expression(#[trigger] t[k]) {
        Some(t)
    } else {
        None
    }
}

fn is_white_space_exec(c: char) -> (r: bool)
    ensures
        r == is_white_space(c),
{
    c == ' ' || c == '\t' || c == '\n' || c == '\u{0B}' || c == '\u{0C}' || c == '\r' || c == '\u{85}'
        || c == '\u{A0}' || c == '\u{1680}' || ('\u{2000}' <= c && c <= '\u{200A}') || c == '\u{2028}'
        || c == '\u{2029}' || c == '\u{202F}' || c == '\u{205F}' || c == '\u{3000}'
}

/// Checks an expression of a block: strips the white space around it, and refuses
/// it if a character of it is not ASCII or is one of `^`, `;` and `=`.
pub fn sanitize_block_expression(expression: &str) -> (r: Option<String>)
    ensures
        match r {
            Some(s) => block_expression(expression@) == Some(s@),
            None => block_expression(expression@) is None,
        },
{
    let chars = crate::parser::chars_of(expression);
    let ghost s = expression@;
    let mut a: usize = 0;
    while a < chars.len() && is_white_space_exec(chars[a])
        invariant
            chars@ == s,
            a <= chars@.len(),
            lead_end(s, 0) == lead_end(s, a as nat),
        decreases chars@.len() - a,
    {
        a = a + 1;
    }
    let mut b: usize = chars.len();
    while b > 0 && is_white_space_exec(chars[b - 1])
        invariant
            chars@ == s,
            b <= chars@.len(),
            trail_start(s, s.len()) == trail_start(s, b as nat),
        decreases b,
    {
        b = b - 1;
    }
    let trimmed_str: String = if a < b {
        String::from_str(expression.substring_char(a, b))
    } else {
        String::new()
    };
    let ghost t = trimmed_str@;
    assert(t == trimmed(s));
    let tchars = crate::parser::chars_of(trimmed_str.as_str());
    let mut k: usize = 0;
    while k < tchars.len()
        invariant
            tchars@ == t,
            t == trimmed(s),
            s == expression@,
            k <= tchars@.len(),
            forall|j: int| 0 <= j < k ==> allowed_in_block_expression(#[trigger] t[j]),
        decreases tchars@.len() - k,
    {
        let c = tchars[k];
        if !((c as u32) < 128 && c != '^' && c != ';' && c != '=') {
            assert(!allowed_in_block_expression(t[k as int]));
            return None;
        }
        k = k + 1;
    }
    Some(trimmed_str)
}

/// The entries of a translation matrix by `(x, y, z)`, row after row.
pub open spec fn translation_entries(x: Seq<char>, y: Seq<char>, z: Seq<char>) -> Seq<Seq<char>> {
    seq!["1.0"@, "0.0"@, "0.0"@, x, "0.0"@, "1.0"@, "0.0"@, y, "0.0"@, "0.0"@, "1.0"@, z]
}

fn lit(s: &str) -> (r: String)
    ensures
        r@ == s@,
{
    String::from_str(s)
}

fn apply_exec(f: &str, angle: &String) -> (r: String)
    ensures
        r@ == apply(f@, angle@),
{
    let mut r = String::from_str(f);
    r.append("(");
    r.append(angle.as_str());
    r.append(")");
    r
}

impl MatrixBlockDescriptor {
    /// The identity matrix, with no interval.
    pub fn identity() -> (m: Self)
        ensures
            m.interval is None,
            rows_view(m) == translation_entries("0.0"@, "0.0"@, "0.0"@),
    {
        MatrixBlockDescriptor {
            interval: None,
            row_1: [lit("1.0"), lit("0.0"), lit("0.0"), lit("0.0")],
            row_2: [lit("0.0"), lit("1.0"), lit("0.0"), lit("0.0")],
            row_3: [lit("0.0"), lit("0.0"), lit("1.0"), lit("0.0")],
        }
    }

    /// The matrix of a rotation by `angle` about `axis`, if the angle is a valid
    /// block expression.
    pub fn new_from_rotation(axis: Axis, angle: String) -> (r: Result<Self, BlockCreationError>)
        ensures
            match block_expression(angle@) {
                Some(a) => r matches Ok(m) && m.interval is None && rows_view(m) == rotation_entries(axis, a),
                None => r matches Err(e) && e@ == BlockCreationErrorView::IncorrectAttributes(
                    " the angle field \n contains invalid symbols "@,
                ),
            },
    {
        let san_a = match sanitize_block_expression(angle.as_str()) {
            Some(a) => a,
            None => {
                return Err(BlockCreationError::IncorrectAttributes(" the angle field \n contains invalid symbols "));
            },
        };
        let m = match axis {
            Axis::X => MatrixBlockDescriptor {
                interval: None,
                row_1: [lit("1.0"), lit("0.0"), lit("0.0"), lit("0.0")],
                row_2: [lit("0.0"), apply_exec("cos", &san_a), apply_exec("-sin", &san_a), lit("0.0")],
                row_3: [lit("0.0"), apply_exec("sin", &san_a), apply_exec("cos", &san_a), lit("0.0")],
            },
            Axis::Y => MatrixBlockDescriptor {
                interval: None,
                row_1: [apply_exec("cos", &san_a), lit("0.0"), apply_exec("sin", &san_a), lit("0.0")],
                row_2: [lit("0.0"), lit("1.0"), lit("0.0"), lit("0.0")],
                row_3: [apply_exec("-sin", &san_a), lit("0.0"), apply_exec("cos", &san_a), lit("0.0")],
            },
            Axis::Z => MatrixBlockDescriptor {
                interval: None,
                row_1: [apply_exec("cos", &san_a), apply_exec("-sin", &san_a), lit("0.0"), lit("0.0")],
                row_2: [apply_exec("sin", &san_a), apply_exec("cos", &san_a), lit("0.0"), lit("0.0")],
                row_3: [lit("0.0"), lit("0.0"), lit("1.0"), lit("0.0")],
            },
        };
        assert(rows_view(m) =~= rotation_entries(axis, san_a@));
        Ok(m)
    }

    /// The matrix of the translation by `(x, y, z)`, if the three are valid block
    /// expressions; the first invalid one is reported.
    pub fn new_from_translation(x: String, y: String, z: String) -> (r: Result<Self, BlockCreationError>)
        ensures
            match (block_expression(x@), block_expression(y@), block_expression(z@)) {
                (Some(sx), Some(sy), Some(sz)) => r matches Ok(m) && m.interval is None && rows_view(m)
                    == translation_entries(sx, sy, sz),
                (None, _, _) => r matches Err(e) && e@ == BlockCreationErrorView::IncorrectAttributes(
                    " the x field \n contains invalid symbols "@,
                ),
                (Some(_), None, _) => r matches Err(e) && e@ == BlockCreationErrorView::IncorrectAttributes(
                    " the y field \n contains invalid symbols "@,
                ),
                (Some(_), Some(_), None) => r matches Err(e) && e@ == BlockCreationErrorView::IncorrectAttributes(
                    " the z field \n contains invalid symbols "@,
                ),
            },
    {
        let sx = match sanitize_block_expression(x.as_str()) {
            Some(v) => v,
            None => {
                return Err(BlockCreationError::IncorrectAttributes(" the x field \n contains invalid symbols "));
            },
        };
        let sy = match sanitize_block_expression(y.as_str()) {
            Some(v) => v,
            None => {
                return Err(BlockCreationError::IncorrectAttributes(" the y field \n contains invalid symbols "));
            },
        };
        let sz = match sanitize_block_expression(z.as_str()) {
            Some(v) => v,
            None => {
                return Err(BlockCreationError::IncorrectAttributes(" the z field \n contains invalid symbols "));
            },
        };
        let ghost gx = sx@;
        let ghost gy = sy@;
        let ghost gz = sz@;
        let m = MatrixBlockDescriptor {
            interval: None,
            row_1: [lit("1.0"), lit("0.0"), lit("0.0"), sx],
            row_2: [lit("0.0"), lit("1.0"), lit("0.0"), sy],
            row_3: [lit("0.0"), lit("0.0"), lit("1.0"), sz],
        };
        assert(rows_view(m) =~= translation_entries(gx, gy, gz));
        Ok(m)
    }
}

/// The descriptor of the block that a node asks for.
pub enum BlockDescriptor {
    Interval(IntervalBlockDescriptor),
    Sample(SampleBlockDescriptor),
    Vector(VectorBlockDescriptor),
    Point(PointBlockDescriptor),
    Bezier(BezierBlockDescriptor),
    Curve(CurveBlockDescriptor),
    Surface(SurfaceBlockDescriptor),
    Plane(PlaneBlockDescriptor),
    Transform(TransformBlockDescriptor),
    Matrix(MatrixBlockDescriptor),
    Rendering(RenderingBlockDescriptor),
    VectorRendering(VectorRenderingBlockDescriptor),
    Prefab(PrefabBlockDescriptor),
}

/// The three texts at `x`, `y`, `z`, if all three are texts.
pub open spec fn texts3(graph: NodeGraph, x: int, y: int, z: int) -> Option<(Seq<char>, Seq<char>, Seq<char>)> {
    match (graph.attr_text(x), graph.attr_text(y), graph.attr_text(z)) {
        (Some(a), Some(b), Some(c)) => Some((a, b, c)),
        _ => None,
    }
}

/// The error for an attribute that does not hold what its node's kind puts there.
pub open spec fn unexpected_attribute() -> BlockCreationErrorView {
    BlockCreationErrorView::InternalError("an attribute of the node holds an unexpected kind of value"@)
}

/// What describing a node gives: the descriptor that its attributes and links make
/// (`describes`), or this error.
pub open spec fn node_block(graph: NodeGraph, c: NodeContents) -> Result<(), BlockCreationErrorView> {
    match c {
        NodeContents::Interval { variable, begin, end, quality, .. } => if texts3(graph, variable as int, begin as int, end as int) is Some
            && graph.attr_usize(quality as int) is Some {
            Ok(())
        } else {
            Err(unexpected_attribute())
        },
        NodeContents::Sample { parameter, value, .. } => if graph.attr_text(parameter as int) is Some && graph.attr_text(value as int) is Some {
            Ok(())
        } else {
            Err(unexpected_attribute())
        },
        NodeContents::Vector { x, y, z, .. } => if texts3(graph, x as int, y as int, z as int) is Some {
            Ok(())
        } else {
            Err(unexpected_attribute())
        },
        NodeContents::Point { x, y, z, .. } => if texts3(graph, x as int, y as int, z as int) is Some {
            Ok(())
        } else {
            Err(unexpected_attribute())
        },
        NodeContents::Bezier { quality, .. } => if graph.attr_usize(quality as int) is Some {
            Ok(())
        } else {
            Err(unexpected_attribute())
        },
        NodeContents::Curve { fx, fy, fz, .. } => if texts3(graph, fx as int, fy as int, fz as int) is Some {
            Ok(())
        } else {
            Err(unexpected_attribute())
        },
        NodeContents::Surface { fx, fy, fz, .. } => if texts3(graph, fx as int, fy as int, fz as int) is Some {
            Ok(())
        } else {
            Err(unexpected_attribute())
        },
        NodeContents::Plane { size, .. } => if graph.attr_usize(size as int) is Some {
            Ok(())
        } else {
            Err(unexpected_attribute())
        },
        NodeContents::Transform { .. } => Ok(()),
        NodeContents::Matrix { row_1, row_2, row_3, .. } => if graph.attr_row(row_1 as int) is Some && graph.attr_row(row_2 as int) is Some
            && graph.attr_row(row_3 as int) is Some {
            Ok(())
        } else {
            Err(unexpected_attribute())
        },
        NodeContents::RotationMatrix { axis, angle, .. } => match (graph.attr_axis(axis as int), graph.attr_text(angle as int)) {
            (Some(_), Some(a)) => if block_expression(a) is Some {
                Ok(())
            } else {
                Err(BlockCreationErrorView::IncorrectAttributes(" the angle field \n contains invalid symbols "@))
            },
            _ => Err(unexpected_attribute()),
        },
        NodeContents::TranslationMatrix { vector, .. } => match graph.linked_node(vector as int) {
            None => Err(BlockCreationErrorView::InputMissing(" this Translation Matrix node \n is missing the vector input "@)),
            Some(n) => match graph.node_at(n as int) {
                Some(vn) => match vn.contents {
                    NodeContents::Vector { x, y, z, .. } => match texts3(graph, x as int, y as int, z as int) {
                        Some((tx, ty, tz)) => if block_expression(tx) is None {
                            Err(BlockCreationErrorView::IncorrectAttributes(" the x field \n contains invalid symbols "@))
                        } else if block_expression(ty) is None {
                            Err(BlockCreationErrorView::IncorrectAttributes(" the y field \n contains invalid symbols "@))
                        } else if block_expression(tz) is None {
                            Err(BlockCreationErrorView::IncorrectAttributes(" the z field \n contains invalid symbols "@))
                        } else {
                            Ok(())
                        },
                        None => Err(unexpected_attribute()),
                    },
                    _ => Err(BlockCreationErrorView::InputInvalid(" the input is not a vector node "@)),
                },
                None => Err(unexpected_attribute()),
            },
        },
        NodeContents::Rendering { thickness, mask, material, .. } => if graph.attr_usize(thickness as int) is Some
            && graph.attr_usize(mask as int) is Some && graph.attr_usize(material as int) is Some {
            Ok(())
        } else {
            Err(unexpected_attribute())
        },
        NodeContents::VectorRendering { thickness, material, .. } => if graph.attr_usize(thickness as int) is Some
            && graph.attr_usize(material as int) is Some {
            Ok(())
        } else {
            Err(unexpected_attribute())
        },
        NodeContents::Primitive { primitive, size, .. } => if graph.attr_usize(primitive as int) is Some
            && graph.attr_text(size as int) is Some {
            Ok(())
        } else {
            Err(unexpected_attribute())
        },
        NodeContents::Group => Err(unexpected_attribute()),
    }
}

/// The entries of the rotation matrix that the axis at `axis` and the angle at
/// `angle` make, if the angle is a valid block expression.
pub open spec fn rotation_of(graph: NodeGraph, axis: int, angle: int) -> Option<Seq<Seq<char>>> {
    match (graph.attr_axis(axis), graph.attr_text(angle)) {
        (Some(ax), Some(a)) => match block_expression(a) {
            Some(sa) => Some(rotation_entries(ax, sa)),
            None => None,
        },
        _ => None,
    }
}

/// The entries of the translation matrix by the vector that node `n` holds, if it is
/// a Vector node whose three fields are valid block expressions.
pub open spec fn translation_of(graph: NodeGraph, n: NodeID) -> Option<Seq<Seq<char>>> {
    match graph.node_at(n as int) {
        Some(vn) => match vn.contents {
            NodeContents::Vector { x, y, z, .. } => match texts3(graph, x as int, y as int, z as int) {
                Some((tx, ty, tz)) => match (block_expression(tx), block_expression(ty), block_expression(tz)) {
                    (Some(sx), Some(sy), Some(sz)) => Some(translation_entries(sx, sy, sz)),
                    _ => None,
                },
                None => None,
            },
            _ => None,
        },
        None => None,
    }
}

/// The descriptor `d` is the one that node contents `c` of `graph` ask for: texts,
/// numbers and rows copied from the attributes, inputs taken as the nodes linked to
/// the input pins, and matrices made from rotations and translations.
pub open spec fn describes(graph: NodeGraph, c: NodeContents, d: BlockDescriptor) -> bool {
    match c {
        NodeContents::Interval { variable, begin, end, quality, .. } => d matches BlockDescriptor::Interval(x)
            && texts3(graph, variable as int, begin as int, end as int) == Some((x.name@, x.begin@, x.end@))
            && graph.attr_usize(quality as int) == Some(x.quality),
        NodeContents::Sample { geometry, parameter, value, .. } => d matches BlockDescriptor::Sample(x)
            && x.geometry == graph.linked_node(geometry as int) && graph.attr_text(parameter as int) == Some(x.parameter@)
            && graph.attr_text(value as int) == Some(x.value@),
        NodeContents::Vector { x, y, z, .. } => d matches BlockDescriptor::Vector(v) && texts3(graph, x as int, y as int, z as int)
            == Some((v.vx@, v.vy@, v.vz@)),
        NodeContents::Point { x, y, z, .. } => d matches BlockDescriptor::Point(v) && texts3(graph, x as int, y as int, z as int)
            == Some((v.fx@, v.fy@, v.fz@)),
        NodeContents::Bezier { p0, p1, p2, p3, quality, .. } => d matches BlockDescriptor::Bezier(b) && b.points@ == present(
            seq![
                graph.linked_node(p0 as int),
                graph.linked_node(p1 as int),
                graph.linked_node(p2 as int),
                graph.linked_node(p3 as int),
            ],
        ) && graph.attr_usize(quality as int) == Some(b.quality),
        NodeContents::Curve { interval, fx, fy, fz, .. } => d matches BlockDescriptor::Curve(v) && v.interval
            == graph.linked_node(interval as int) && texts3(graph, fx as int, fy as int, fz as int) == Some((v.fx@, v.fy@, v.fz@)),
        NodeContents::Surface { interval_1, interval_2, fx, fy, fz, .. } => d matches BlockDescriptor::Surface(v)
            && v.interval_first == graph.linked_node(interval_1 as int) && v.interval_second == graph.linked_node(
            interval_2 as int,
        ) && texts3(graph, fx as int, fy as int, fz as int) == Some((v.fx@, v.fy@, v.fz@)),
        NodeContents::Plane { center, normal, size, .. } => d matches BlockDescriptor::Plane(p) && p.center
            == graph.linked_node(center as int) && p.normal == graph.linked_node(normal as int) && graph.attr_usize(
            size as int,
        ) == Some(p.side_length),
        NodeContents::Transform { geometry, matrix, .. } => d matches BlockDescriptor::Transform(t) && t.geometry
            == graph.linked_node(geometry as int) && t.matrix == graph.linked_node(matrix as int),
        NodeContents::Matrix { interval, row_1, row_2, row_3, .. } => d matches BlockDescriptor::Matrix(m) && m.interval
            == graph.linked_node(interval as int) && graph.attr_row(row_1 as int) == Some(
            seq![m.row_1[0]@, m.row_1[1]@, m.row_1[2]@, m.row_1[3]@],
        ) && graph.attr_row(row_2 as int) == Some(seq![m.row_2[0]@, m.row_2[1]@, m.row_2[2]@, m.row_2[3]@])
            && graph.attr_row(row_3 as int) == Some(seq![m.row_3[0]@, m.row_3[1]@, m.row_3[2]@, m.row_3[3]@]),
        NodeContents::RotationMatrix { axis, angle, .. } => d matches BlockDescriptor::Matrix(m) && m.interval is None
            && rotation_of(graph, axis as int, angle as int) == Some(rows_view(m)),
        NodeContents::TranslationMatrix { vector, .. } => d matches BlockDescriptor::Matrix(m) && m.interval is None
            && graph.linked_node(vector as int) is Some && translation_of(graph, graph.linked_node(vector as int)->0)
            == Some(rows_view(m)),
        NodeContents::Rendering { geometry, thickness, mask, material } => d matches BlockDescriptor::Rendering(r)
            && r.geometry == graph.linked_node(geometry as int) && graph.attr_usize(mask as int) == Some(r.mask)
            && graph.attr_usize(material as int) == Some(r.material) && graph.attr_usize(thickness as int) == Some(
            r.thickness,
        ),
        NodeContents::VectorRendering { application_point, vector, thickness, material } => d matches BlockDescriptor::VectorRendering(r)
            && r.application_point == graph.linked_node(application_point as int) && r.vector == graph.linked_node(
            vector as int,
        ) && graph.attr_usize(material as int) == Some(r.material) && graph.attr_usize(thickness as int) == Some(
            r.thickness,
        ),
        NodeContents::Primitive { primitive, size, .. } => d matches BlockDescriptor::Prefab(p) && graph.attr_text(
            size as int,
        ) == Some(p.size@) && graph.attr_usize(primitive as int) is Some && p.prefab_id == graph.attr_usize(
            primitive as int,
        )->0 as i32,
        NodeContents::Group => false,
    }
}

fn unexpected_attribute_exec() -> (e: BlockCreationError)
    ensures
        e@ == unexpected_attribute(),
{
    BlockCreationError::InternalError(String::from_str("an attribute of the node holds an unexpected kind of value"))
}

impl BlockDescriptor {
    /// The descriptor of the block that `node` of `graph` asks for.
    #[verifier::rlimit(100)]
    #[verifier::spinoff_prover]
    pub fn from_node(node: &Node, graph: &NodeGraph) -> (r: Result<BlockDescriptor, BlockCreationError>)
        requires
            graph.wf(),
        ensures
            match node_block(*graph, node.contents) {
                Ok(()) => r matches Ok(d) && describes(*graph, node.contents, d),
                Err(e) => r matches Err(x) && x@ == e,
            },
    {
        match node.contents {
            NodeContents::Interval { variable, begin, end, quality, .. } => {
                match (
                    graph.get_attribute_as_string(variable),
                    graph.get_attribute_as_string(begin),
                    graph.get_attribute_as_string(end),
                    graph.get_attribute_as_usize(quality),
                ) {
                    (Some(name), Some(b), Some(e), Some(q)) => Ok(
                        BlockDescriptor::Interval(IntervalBlockDescriptor { name, begin: b, end: e, quality: q }),
                    ),
                    _ => Err(unexpected_attribute_exec()),
                }
            },
            NodeContents::Sample { geometry, parameter, value, .. } => {
                match (graph.get_attribute_as_string(parameter), graph.get_attribute_as_string(value)) {
                    (Some(p), Some(v)) => Ok(
                        BlockDescriptor::Sample(
                            SampleBlockDescriptor {
                                geometry: graph.get_attribute_as_linked_node(geometry),
                                parameter: p,
                                value: v,
                            },
                        ),
                    ),
                    _ => Err(unexpected_attribute_exec()),
                }
            },
            NodeContents::Vector { x, y, z, .. } => {
                match (
                    graph.get_attribute_as_string(x),
                    graph.get_attribute_as_string(y),
                    graph.get_attribute_as_string(z),
                ) {
                    (Some(a), Some(b), Some(c)) => Ok(BlockDescriptor::Vector(VectorBlockDescriptor { vx: a, vy: b, vz: c })),
                    _ => Err(unexpected_attribute_exec()),
                }
            },
            NodeContents::Point { x, y, z, .. } => {
                match (
                    graph.get_attribute_as_string(x),
                    graph.get_attribute_as_string(y),
                    graph.get_attribute_as_string(z),
                ) {
                    (Some(a), Some(b), Some(c)) => Ok(BlockDescriptor::Point(PointBlockDescriptor { fx: a, fy: b, fz: c })),
                    _ => Err(unexpected_attribute_exec()),
                }
            },
            NodeContents::Bezier { p0, p1, p2, p3, quality, .. } => {
                match graph.get_attribute_as_usize(quality) {
                    Some(q) => {
                        let o0 = graph.get_attribute_as_linked_node(p0);
                        let o1 = graph.get_attribute_as_linked_node(p1);
                        let o2 = graph.get_attribute_as_linked_node(p2);
                        let o3 = graph.get_attribute_as_linked_node(p3);
                        let mut points: Vec<NodeID> = Vec::new();
                        if let Some(id) = o0 {
                            points.push(id);
                        }
                        assert(points@ == present(seq![o0])) by {
                            assert(seq![o0].drop_last() =~= Seq::<Option<NodeID>>::empty());
                            assert(present(Seq::<Option<NodeID>>::empty()) =~= Seq::<NodeID>::empty());
                        }
                        if let Some(id) = o1 {
                            points.push(id);
                        }
                        assert(points@ == present(seq![o0, o1])) by {
                            assert(seq![o0, o1].drop_last() =~= seq![o0]);
                        }
                        if let Some(id) = o2 {
                            points.push(id);
                        }
                        assert(points@ == present(seq![o0, o1, o2])) by {
                            assert(seq![o0, o1, o2].drop_last() =~= seq![o0, o1]);
                        }
                        if let Some(id) = o3 {
                            points.push(id);
                        }
                        assert(points@ == present(seq![o0, o1, o2, o3])) by {
                            assert(seq![o0, o1, o2, o3].drop_last() =~= seq![o0, o1, o2]);
                        }
                        Ok(BlockDescriptor::Bezier(BezierBlockDescriptor { points, quality: q }))
                    },
                    None => Err(unexpected_attribute_exec()),
                }
            },
            NodeContents::Curve { interval, fx, fy, fz, .. } => {
                match (
                    graph.get_attribute_as_string(fx),
                    graph.get_attribute_as_string(fy),
                    graph.get_attribute_as_string(fz),
                ) {
                    (Some(a), Some(b), Some(c)) => Ok(
                        BlockDescriptor::Curve(
                            CurveBlockDescriptor {
                                interval: graph.get_attribute_as_linked_node(interval),
                                fx: a,
                                fy: b,
                                fz: c,
                            },
                        ),
                    ),
                    _ => Err(unexpected_attribute_exec()),
                }
            },
            NodeContents::Surface { interval_1, interval_2, fx, fy, fz, .. } => {
                match (
                    graph.get_attribute_as_string(fx),
                    graph.get_attribute_as_string(fy),
                    graph.get_attribute_as_string(fz),
                ) {
                    (Some(a), Some(b), Some(c)) => Ok(
                        BlockDescriptor::Surface(
                            SurfaceBlockDescriptor {
                                interval_first: graph.get_attribute_as_linked_node(interval_1),
                                interval_second: graph.get_attribute_as_linked_node(interval_2),
                                fx: a,
                                fy: b,
                                fz: c,
                            },
                        ),
                    ),
                    _ => Err(unexpected_attribute_exec()),
                }
            },
            NodeContents::Plane { center, normal, size, .. } => {
                match graph.get_attribute_as_usize(size) {
                    Some(s) => Ok(
                        BlockDescriptor::Plane(
                            PlaneBlockDescriptor {
                                center: graph.get_attribute_as_linked_node(center),
                                normal: graph.get_attribute_as_linked_node(normal),
                                side_length: s,
                            },
                        ),
                    ),
                    None => Err(unexpected_attribute_exec()),
                }
            },
            NodeContents::Transform { geometry, matrix, .. } => Ok(
                BlockDescriptor::Transform(
                    TransformBlockDescriptor {
                        geometry: graph.get_attribute_as_linked_node(geometry),
                        matrix: graph.get_attribute_as_linked_node(matrix),
                    },
                ),
            ),
            NodeContents::Matrix { interval, row_1, row_2, row_3, .. } => {
                match (
                    graph.get_attribute_as_matrix_row(row_1),
                    graph.get_attribute_as_matrix_row(row_2),
                    graph.get_attribute_as_matrix_row(row_3),
                ) {
                    (Some(r1), Some(r2), Some(r3)) => Ok(
                        BlockDescriptor::Matrix(
                            MatrixBlockDescriptor {
                                interval: graph.get_attribute_as_linked_node(interval),
                                row_1: r1,
                                row_2: r2,
                                row_3: r3,
                            },
                        ),
                    ),
                    _ => Err(unexpected_attribute_exec()),
                }
            },
            NodeContents::RotationMatrix { axis, angle, .. } => {
                match (graph.get_attribute_as_axis(axis), graph.get_attribute_as_string(angle)) {
                    (Some(ax), Some(a)) => match MatrixBlockDescriptor::new_from_rotation(ax, a) {
                        Ok(m) => Ok(BlockDescriptor::Matrix(m)),
                        Err(e) => Err(e),
                    },
                    _ => Err(unexpected_attribute_exec()),
                }
            },
            NodeContents::TranslationMatrix { vector, .. } => {
                let node_id = match graph.get_attribute_as_linked_node(vector) {
                    Some(id) => id,
                    None => {
                        return Err(BlockCreationError::InputMissing(" this Translation Matrix node \n is missing the vector input "));
                    },
                };
                let vector_node = match graph.get_node(node_id) {
                    Some(n) => n,
                    None => {
                        return Err(unexpected_attribute_exec());
                    },
                };
                match vector_node.contents {
                    NodeContents::Vector { x, y, z, .. } => {
                        match (
                            graph.get_attribute_as_string(x),
                            graph.get_attribute_as_string(y),
                            graph.get_attribute_as_string(z),
                        ) {
                            (Some(a), Some(b), Some(c)) => match MatrixBlockDescriptor::new_from_translation(a, b, c) {
                                Ok(m) => Ok(BlockDescriptor::Matrix(m)),
                                Err(e) => Err(e),
                            },
                            _ => Err(unexpected_attribute_exec()),
                        }
                    },
                    _ => Err(BlockCreationError::InputInvalid(" the input is not a vector node ")),
                }
            },
            NodeContents::Rendering { geometry, thickness, mask, material } => {
                match (
                    graph.get_attribute_as_usize(thickness),
                    graph.get_attribute_as_usize(mask),
                    graph.get_attribute_as_usize(material),
                ) {
                    (Some(t), Some(m), Some(mat)) => Ok(
                        BlockDescriptor::Rendering(
                            RenderingBlockDescriptor {
                                geometry: graph.get_attribute_as_linked_node(geometry),
                                mask: m,
                                material: mat,
                                thickness: t,
                            },
                        ),
                    ),
                    _ => Err(unexpected_attribute_exec()),
                }
            },
            NodeContents::VectorRendering { application_point, vector, thickness, material } => {
                match (graph.get_attribute_as_usize(thickness), graph.get_attribute_as_usize(material)) {
                    (Some(t), Some(mat)) => Ok(
                        BlockDescriptor::VectorRendering(
                            VectorRenderingBlockDescriptor {
                                application_point: graph.get_attribute_as_linked_node(application_point),
                                vector: graph.get_attribute_as_linked_node(vector),
                                material: mat,
                                thickness: t,
                            },
                        ),
                    ),
                    _ => Err(unexpected_attribute_exec()),
                }
            },
            NodeContents::Primitive { primitive, size, .. } => {
                match (graph.get_attribute_as_usize(primitive), graph.get_attribute_as_string(size)) {
                    (Some(p), Some(s)) => Ok(BlockDescriptor::Prefab(PrefabBlockDescriptor { size: s, prefab_id: p as i32 })),
                    _ => Err(unexpected_attribute_exec()),
                }
            },
            NodeContents::Group => Err(unexpected_attribute_exec()),
        }
    }
}

/// What comparing two block parameters gives: unnamed parameters and parameters of
/// different names differ; two of the same name are the same parameter, and an
/// error when their quality, begin or end differ.
pub open spec fn block_params_equal(a: ParameterView, b: ParameterView) -> Result<bool, BlockCreationErrorView> {
    match (a.name, b.name) {
        (Some(n1), Some(n2)) => if n1 == n2 {
            if a.size != b.size {
                Err(BlockCreationErrorView::IncorrectAttributes(
                    " The input intervals \n have the same name \n but different 'quality' "@,
                ))
            } else if a.begin != b.begin {
                Err(BlockCreationErrorView::IncorrectAttributes(
                    " The input intervals \n have the same name \n but different 'begin' "@,
                ))
            } else if a.end != b.end {
                Err(BlockCreationErrorView::IncorrectAttributes(
                    " The input intervals \n have the same name \n but different 'end' "@,
                ))
            } else {
                Ok(true)
            }
        } else {
            Ok(false)
        },
        _ => Ok(false),
    }
}

impl Parameter {
    /// Whether `self` and `other` are the same named parameter (see
    /// `block_params_equal`).
    pub fn is_equal(&self, other: &Parameter) -> (r: Result<bool, BlockCreationError>)
        ensures
            match r {
                Ok(b) => block_params_equal(self@, other@) == Ok::<bool, BlockCreationErrorView>(b),
                Err(e) => block_params_equal(self@, other@) == Err::<bool, BlockCreationErrorView>(e@),
            },
    {
        match (&self.name, &other.name) {
            (Some(self_name), Some(other_name)) => {
                if self_name.eq(other_name) {
                    if self.size != other.size {
                        Err(
                            BlockCreationError::IncorrectAttributes(
                                " The input intervals \n have the same name \n but different 'quality' ",
                            ),
                        )
                    } else if !self.begin.eq(&other.begin) {
                        Err(
                            BlockCreationError::IncorrectAttributes(
                                " The input intervals \n have the same name \n but different 'begin' ",
                            ),
                        )
                    } else if !self.end.eq(&other.end) {
                        Err(
                            BlockCreationError::IncorrectAttributes(
                                " The input intervals \n have the same name \n but different 'end' ",
                            ),
                        )
                    } else {
                        Ok(true)
                    }
                } else {
                    Ok(false)
                }
            },
            _ => Ok(false),
        }
    }
}

/// The value of block dimensions.
pub ghost enum DimensionsView {
    D0,
    D1(ParameterView),
    D2(ParameterView, ParameterView),
    D3(usize, PrefabId),
}

impl View for Dimensions {
    type V = DimensionsView;

    open spec fn view(&self) -> DimensionsView {
        match self {
            Dimensions::D0 => DimensionsView::D0,
            Dimensions::D1(p) => DimensionsView::D1(p@),
            Dimensions::D2(p1, p2) => DimensionsView::D2(p1@, p2@),
            Dimensions::D3(n, id) => DimensionsView::D3(*n, *id),
        }
    }
}

/// The compute shader that transforms a geometry by a matrix.
#[derive(Debug, Clone, Copy, PartialEq, Eq, Structural)]
pub enum TransformKind {
    /// A point by a constant matrix.
    Transform0d0d,
    /// A point by a matrix along a parameter: a curve.
    Transform0dUp1,
    /// A curve by a constant matrix.
    Transform1d1d,
    /// A curve by a matrix along the curve's own parameter.
    Transform1dMulti,
    /// A curve by a matrix along another parameter: a surface.
    Transform1dUp2,
    /// A surface by a constant matrix.
    Transform2d2d,
    /// A surface by a matrix along its first (1) or second (2) parameter.
    Transform2dSameParam(u8),
    /// A model by a constant matrix.
    Transform3d3d,
}

/// The number of invocations of a workgroup along each axis.
pub const LOCAL_SIZE_X: usize = 16;

pub const LOCAL_SIZE_Y: usize = 16;

/// The success of a transform: the dimensions of its output, its shader, and how many
/// workgroups run along each axis.
pub open spec fn transform_ok(out: DimensionsView, kind: TransformKind, x: int, y: int) -> Result<
    (DimensionsView, TransformKind, (int, int)),
    BlockCreationErrorView,
> {
    Ok((out, kind, (x, y)))
}

/// Which shader a transform runs follows from how the parameters compare: a matrix
/// along a parameter is applied along the geometry's own parameter exactly when it is
/// that parameter (the k-th of a surface for `Transform2dSameParam(k)`, the first
/// one when both are), and otherwise adds a dimension to a curve; a surface keeps its
/// parameters.
pub proof fn lemma_transform_kind_matches_params(g: DimensionsView, m: DimensionsView, chunk_vertices: usize)
    ensures
        match transform_plan(g, m, chunk_vertices) {
            Ok((out, kind, _)) => match kind {
                TransformKind::Transform2dSameParam(k) => match (g, m) {
                    (DimensionsView::D2(p1, p2), DimensionsView::D1(mp)) => {
                        &&& out == g
                        &&& (k == 1 || k == 2)
                        &&& k == 1 <==> block_params_equal(p1, mp) == Ok::<bool, BlockCreationErrorView>(true)
                        &&& k == 2 ==> block_params_equal(p2, mp) == Ok::<bool, BlockCreationErrorView>(true)
                    },
                    _ => false,
                },
                TransformKind::Transform1dMulti => match (g, m) {
                    (DimensionsView::D1(gp), DimensionsView::D1(mp)) => out == g && block_params_equal(gp, mp)
                        == Ok::<bool, BlockCreationErrorView>(true),
                    _ => false,
                },
                TransformKind::Transform1dUp2 => match (g, m) {
                    (DimensionsView::D1(gp), DimensionsView::D1(mp)) => out == DimensionsView::D2(gp, mp)
                        && block_params_equal(gp, mp) == Ok::<bool, BlockCreationErrorView>(false),
                    _ => false,
                },
                _ => true,
            },
            Err(_) => true,
        },
{
}

/// What transforming a geometry of dimensions `g` by a matrix of dimensions `m` gives,
/// prefabs having `chunk_vertices` vertices per chunk. A parametric matrix applied to
/// a geometry of the same parameter keeps its dimensions; otherwise it adds one.
pub open spec fn transform_plan(g: DimensionsView, m: DimensionsView, chunk_vertices: usize) -> Result<
    (DimensionsView, TransformKind, (int, int)),
    BlockCreationErrorView,
> {
    match (g, m) {
        (DimensionsView::D0, DimensionsView::D0) => transform_ok(DimensionsView::D0, TransformKind::Transform0d0d, 1, 1),
        (DimensionsView::D0, DimensionsView::D1(mp)) => transform_ok(
            DimensionsView::D1(mp),
            TransformKind::Transform0dUp1,
            (mp.size / LOCAL_SIZE_X) as int,
            1,
        ),
        (DimensionsView::D1(gp), DimensionsView::D0) => transform_ok(
            DimensionsView::D1(gp),
            TransformKind::Transform1d1d,
            (gp.size / LOCAL_SIZE_X) as int,
            1,
        ),
        (DimensionsView::D1(gp), DimensionsView::D1(mp)) => match block_params_equal(gp, mp) {
            Err(e) => Err(e),
            Ok(true) => transform_ok(DimensionsView::D1(gp), TransformKind::Transform1dMulti, (gp.size / LOCAL_SIZE_X) as int, 1),
            Ok(false) => transform_ok(
                DimensionsView::D2(gp, mp),
                TransformKind::Transform1dUp2,
                (gp.size / LOCAL_SIZE_X) as int,
                (mp.size / LOCAL_SIZE_Y) as int,
            ),
        },
        (DimensionsView::D2(p1, p2), DimensionsView::D0) => transform_ok(
            DimensionsView::D2(p1, p2),
            TransformKind::Transform2d2d,
            (p1.size / LOCAL_SIZE_X) as int,
            (p2.size / LOCAL_SIZE_Y) as int,
        ),
        (DimensionsView::D2(p1, p2), DimensionsView::D1(mp)) => match block_params_equal(p1, mp) {
            Err(e) => Err(e),
            Ok(true) => transform_ok(
                DimensionsView::D2(p1, p2),
                TransformKind::Transform2dSameParam(1),
                (p1.size / LOCAL_SIZE_X) as int,
                (p2.size / LOCAL_SIZE_Y) as int,
            ),
            Ok(false) => match block_params_equal(p2, mp) {
                Err(e) => Err(e),
                Ok(true) => transform_ok(
                    DimensionsView::D2(p1, p2),
                    TransformKind::Transform2dSameParam(2),
                    (p1.size / LOCAL_SIZE_X) as int,
                    (p2.size / LOCAL_SIZE_Y) as int,
                ),
                Ok(false) => Err(
                    BlockCreationErrorView::InputInvalid(
                        " this operation would create \n an object with three parameters, \n which is not supported "@,
                    ),
                ),
            },
        },
        (DimensionsView::D3(n, id), DimensionsView::D0) => transform_ok(
            DimensionsView::D3(n, id),
            TransformKind::Transform3d3d,
            (n / chunk_vertices) as int,
            1,
        ),
        (DimensionsView::D3(_, _), DimensionsView::D1(_)) => Err(
            BlockCreationErrorView::InternalError(
                " applying a parametric transform \n to a primitive geometry \n is not allowed "@,
            ),
        ),
        (_, DimensionsView::D2(_, _)) => Err(BlockCreationErrorView::InternalError("the input Matrix has 2 parameters"@)),
        (_, DimensionsView::D3(_, _)) => Err(BlockCreationErrorView::InternalError("the input Matrix has dimension equal to 3"@)),
    }
}

/// The value of the result of `transform_dimensions`.
pub open spec fn transform_result_view(r: Result<(Dimensions, TransformKind, (usize, usize)), BlockCreationError>) -> Result<
    (DimensionsView, TransformKind, (int, int)),
    BlockCreationErrorView,
> {
    match r {
        Ok((d, k, (x, y))) => Ok((d@, k, (x as int, y as int))),
        Err(e) => Err(e@),
    }
}

/// The output of transforming a geometry of dimensions `geometry` by a matrix of
/// dimensions `matrix` (see `transform_plan`).
pub fn transform_dimensions(geometry: &Dimensions, matrix: &Dimensions, chunk_vertices: usize) -> (r: Result<
    (Dimensions, TransformKind, (usize, usize)),
    BlockCreationError,
>)
    requires
        chunk_vertices > 0,
    ensures
        transform_result_view(r) == transform_plan(geometry@, matrix@, chunk_vertices),
{
    match (geometry, matrix) {
        (Dimensions::D0, Dimensions::D0) => Ok((Dimensions::D0, TransformKind::Transform0d0d, (1, 1))),
        (Dimensions::D0, Dimensions::D1(mat_param)) => Ok((
            Dimensions::D1(mat_param.duplicate()),
            TransformKind::Transform0dUp1,
            (mat_param.size / LOCAL_SIZE_X, 1),
        )),
        (Dimensions::D1(geo_param), Dimensions::D0) => Ok((
            Dimensions::D1(geo_param.duplicate()),
            TransformKind::Transform1d1d,
            (geo_param.size / LOCAL_SIZE_X, 1),
        )),
        (Dimensions::D1(geo_param), Dimensions::D1(mat_param)) => {
            match geo_param.is_equal(mat_param) {
                Err(e) => Err(e),
                Ok(true) => Ok((
                    Dimensions::D1(geo_param.duplicate()),
                    TransformKind::Transform1dMulti,
                    (geo_param.size / LOCAL_SIZE_X, 1),
                )),
                Ok(false) => Ok((
                    Dimensions::D2(geo_param.duplicate(), mat_param.duplicate()),
                    TransformKind::Transform1dUp2,
                    (geo_param.size / LOCAL_SIZE_X, mat_param.size / LOCAL_SIZE_Y),
                )),
            }
        },
        (Dimensions::D2(geo_p1, geo_p2), Dimensions::D0) => Ok((
            Dimensions::D2(geo_p1.duplicate(), geo_p2.duplicate()),
            TransformKind::Transform2d2d,
            (geo_p1.size / LOCAL_SIZE_X, geo_p2.size / LOCAL_SIZE_Y),
        )),
        (Dimensions::D2(geo_p1, geo_p2), Dimensions::D1(mat_param)) => {
            match geo_p1.is_equal(mat_param) {
                Err(e) => Err(e),
                Ok(true) => Ok((
                    Dimensions::D2(geo_p1.duplicate(), geo_p2.duplicate()),
                    TransformKind::Transform2dSameParam(1),
                    (geo_p1.size / LOCAL_SIZE_X, geo_p2.size / LOCAL_SIZE_Y),
                )),
                Ok(false) => match geo_p2.is_equal(mat_param) {
                    Err(e) => Err(e),
                    Ok(true) => Ok((
                        Dimensions::D2(geo_p1.duplicate(), geo_p2.duplicate()),
                        TransformKind::Transform2dSameParam(2),
                        (geo_p1.size / LOCAL_SIZE_X, geo_p2.size / LOCAL_SIZE_Y),
                    )),
                    Ok(false) => Err(
                        BlockCreationError::InputInvalid(
                            " this operation would create \n an object with three parameters, \n which is not supported ",
                        ),
                    ),
                },
            }
        },
        (Dimensions::D3(vertex_count, prefab_id), Dimensions::D0) => Ok((
            Dimensions::D3(*vertex_count, *prefab_id),
            TransformKind::Transform3d3d,
            (*vertex_count / chunk_vertices, 1),
        )),
        (Dimensions::D3(_, _), Dimensions::D1(_)) => Err(
            BlockCreationError::InternalError(
                String::from_str(" applying a parametric transform \n to a primitive geometry \n is not allowed "),
            ),
        ),
        (_, Dimensions::D2(_, _)) => Err(BlockCreationError::InternalError(String::from_str("the input Matrix has 2 parameters"))),
        (_, Dimensions::D3(_, _)) => Err(BlockCreationError::InternalError(String::from_str("the input Matrix has dimension equal to 3"))),
    }
}

} // verus!
