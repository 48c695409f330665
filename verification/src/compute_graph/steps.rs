//! The rules of each kind of node: which inputs it needs and of which shape, which
//! expressions it checks, and which step and output shape it makes of them.
use vstd::prelude::*;
use crate::compute_graph::{DataID, Parameter, ParameterView, ProcessingError, ProcessingErrorView};
use crate::compute_graph::data::{Data, DataView, DataMap, data_wf};
use crate::compute_graph::globals::{
    Globals, sanitize_spec, sanitize_name_spec, names_view, strs_view, string_result_view,
};
use crate::node_graph::contents::Axis;

verus! {

/// The compute work that a node asks for, with the checked expressions that it runs.
#[derive(Debug)]
pub enum Step {
    Vector { exprs: Vec<String> },
    Point { exprs: Vec<String> },
    Interval { param: Parameter },
    Curve { interval: DataID, param: Parameter, exprs: Vec<String> },
    Surface {
        interval_1: DataID,
        interval_2: DataID,
        param_1: Parameter,
        param_2: Parameter,
        exprs: Vec<String>,
    },
    Bezier { points: Vec<DataID>, param: Parameter },
    TranslationMatrix { vector: DataID },
    Matrix { interval: Option<DataID>, param: Option<Parameter>, entries: Vec<String> },
    SampleCurve { geometry: DataID, param: Parameter, value: String },
    SampleSurface {
        geometry: DataID,
        sampling_first: bool,
        sampled: Parameter,
        nonsampled: Parameter,
        value: String,
    },
    TransformPoint { geometry: DataID, matrix: DataID },
    Plane { center: DataID, normal: DataID, side_length: usize },
    Primitive { primitive: usize, size: String },
    Render { geometry: DataID, shape: Data, thickness: usize, mask: usize, material: usize },
    VectorRender { application_point: DataID, vector: DataID, thickness: usize, material: usize },
}

/// The value of a step.
pub ghost enum StepView {
    Vector(Seq<Seq<char>>),
    Point(Seq<Seq<char>>),
    Interval(ParameterView),
    Curve(DataID, ParameterView, Seq<Seq<char>>),
    Surface(DataID, DataID, ParameterView, ParameterView, Seq<Seq<char>>),
    Bezier(Seq<DataID>, ParameterView),
    TranslationMatrix(DataID),
    Matrix(Option<DataID>, Option<ParameterView>, Seq<Seq<char>>),
    SampleCurve(DataID, ParameterView, Seq<char>),
    SampleSurface(DataID, bool, ParameterView, ParameterView, Seq<char>),
    TransformPoint(DataID, DataID),
    Plane(DataID, DataID, usize),
    Primitive(usize, Seq<char>),
    Render(DataID, DataView, usize, usize, usize),
    VectorRender(DataID, DataID, usize, usize),
}

impl View for Step {
    type V = StepView;

    open spec fn view(&self) -> StepView {
        match self {
            Step::Vector { exprs } => StepView::Vector(names_view(exprs@)),
            Step::Point { exprs } => StepView::Point(names_view(exprs@)),
            Step::Interval { param } => StepView::Interval(param@),
            Step::Curve { interval, param, exprs } => StepView::Curve(*interval, param@, names_view(exprs@)),
            Step::Surface { interval_1, interval_2, param_1, param_2, exprs } => StepView::Surface(
                *interval_1,
                *interval_2,
                param_1@,
                param_2@,
                names_view(exprs@),
            ),
            Step::Bezier { points, param } => StepView::Bezier(points@, param@),
            Step::TranslationMatrix { vector } => StepView::TranslationMatrix(*vector),
            Step::Matrix { interval, param, entries } => StepView::Matrix(
                *interval,
                match param {
                    Some(p) => Some(p@),
                    None => None,
                },
                names_view(entries@),
            ),
            Step::SampleCurve { geometry, param, value } => StepView::SampleCurve(*geometry, param@, value@),
            Step::SampleSurface { geometry, sampling_first, sampled, nonsampled, value } => StepView::SampleSurface(
                *geometry,
                *sampling_first,
                sampled@,
                nonsampled@,
                value@,
            ),
            Step::TransformPoint { geometry, matrix } => StepView::TransformPoint(*geometry, *matrix),
            Step::Plane { center, normal, side_length } => StepView::Plane(*center, *normal, *side_length),
            Step::Primitive { primitive, size } => StepView::Primitive(*primitive, size@),
            Step::Render { geometry, shape, thickness, mask, material } => StepView::Render(
                *geometry,
                shape@,
                *thickness,
                *mask,
                *material,
            ),
            Step::VectorRender { application_point, vector, thickness, material } => StepView::VectorRender(
                *application_point,
                *vector,
                *thickness,
                *material,
            ),
        }
    }
}

/// What a node's rules give: the error, or the shape of its output (none for the
/// renderings) and its step.
pub type Plan = Result<(Option<Data>, Step), ProcessingError>;

pub open spec fn plan_view(r: Result<(Option<Data>, Step), ProcessingError>) -> Result<
    (Option<DataView>, StepView),
    ProcessingErrorView,
> {
    match r {
        Ok((d, s)) => Ok(
            (
                match d {
                    Some(x) => Some(x@),
                    None => None,
                },
                s@,
            ),
        ),
        Err(e) => Err(e@),
    }
}

/// The result of checking expressions in order: the first error, or all of them
/// in the shading language.
pub open spec fn sanitize_all_spec(
    names: Seq<Seq<char>>,
    locals: Seq<Seq<char>>,
    exprs: Seq<Seq<char>>,
) -> Result<Seq<Seq<char>>, ProcessingErrorView>
    decreases exprs.len(),
{
    if exprs.len() == 0 {
        Ok(seq![])
    } else {
        match sanitize_spec(names, locals, exprs[0]) {
            Err(e) => Err(e),
            Ok(s) => match sanitize_all_spec(names, locals, exprs.drop_first()) {
                Ok(rest) => Ok(seq![s] + rest),
                Err(e) => Err(e),
            },
        }
    }
}

pub open spec fn strings_result_view(r: Result<Vec<String>, ProcessingError>) -> Result<
    Seq<Seq<char>>,
    ProcessingErrorView,
> {
    match r {
        Ok(v) => Ok(names_view(v@)),
        Err(e) => Err(e@),
    }
}

pub open spec fn prepend_strings(
    done: Seq<Seq<char>>,
    r: Result<Seq<Seq<char>>, ProcessingErrorView>,
) -> Result<Seq<Seq<char>>, ProcessingErrorView> {
    match r {
        Ok(rest) => Ok(done + rest),
        Err(e) => Err(e),
    }
}

/// Checks the expressions in order, and stops at the first error.
pub fn sanitize_all(globals: &Globals, locals: &[&str], exprs: &Vec<String>) -> (r: Result<
    Vec<String>,
    ProcessingError,
>)
    ensures
        strings_result_view(r) == sanitize_all_spec(globals.names(), strs_view(locals@), names_view(exprs@)),
{
    let ghost all = names_view(exprs@);
    let ghost names = globals.names();
    let ghost locs = strs_view(locals@);
    let mut out: Vec<String> = Vec::new();
    let mut k: usize = 0;
    assert(all.skip(0) =~= all);
    assert(names_view(out@) + seq![] =~= names_view(out@));
    while k < exprs.len()
        invariant
            k <= exprs@.len(),
            all == names_view(exprs@),
            names == globals.names(),
            locs == strs_view(locals@),
            sanitize_all_spec(names, locs, all) == prepend_strings(
                names_view(out@),
                sanitize_all_spec(names, locs, all.skip(k as int)),
            ),
        decreases exprs@.len() - k,
    {
        assert(all.skip(k as int)[0] == exprs@[k as int]@);
        assert(all.skip(k as int).drop_first() =~= all.skip(k + 1));
        match globals.sanitize_expression(locals, exprs[k].as_str()) {
            Err(e) => {
                return Err(e);
            },
            Ok(s) => {
                let ghost before = names_view(out@);
                out.push(s);
                proof {
                    assert(names_view(out@) =~= before + seq![s@]);
                    match sanitize_all_spec(names, locs, all.skip(k + 1)) {
                        Ok(rest) => {
                            assert(before + (seq![s@] + rest) =~= before + seq![s@] + rest);
                        },
                        Err(_) => {},
                    }
                }
            },
        }
        k = k + 1;
    }
    assert(all.skip(k as int) =~= seq![]);
    assert(names_view(out@) + seq![] =~= names_view(out@));
    Ok(out)
}

fn three(a: String, b: String, c: String) -> (v: Vec<String>)
    ensures
        names_view(v@) == seq![a@, b@, c@],
{
    let mut v = Vec::new();
    v.push(a);
    v.push(b);
    v.push(c);
    assert(names_view(v@) =~= seq![a@, b@, c@]);
    v
}

/// The rules of a Vector node.
pub open spec fn vector_plan(names: Seq<Seq<char>>, fx: Seq<char>, fy: Seq<char>, fz: Seq<char>) -> Result<
    (Option<DataView>, StepView),
    ProcessingErrorView,
> {
    match sanitize_all_spec(names, seq![], seq![fx, fy, fz]) {
        Ok(e) => Ok((Some(DataView::Vector), StepView::Vector(e))),
        Err(err) => Err(err),
    }
}

/// A Vector node: three checked expressions make a vector.
pub fn vector_step(globals: &Globals, fx: String, fy: String, fz: String) -> (r: Plan)
    ensures
        plan_view(r) == vector_plan(globals.names(), fx@, fy@, fz@),
        r matches Ok((Some(d), _)) ==> data_wf(d@),
{
    let exprs = three(fx, fy, fz);
    let no_locals: Vec<&str> = Vec::new();
    assert(strs_view(no_locals@) =~= seq![]);
    match sanitize_all(globals, no_locals.as_slice(), &exprs) {
        Ok(e) => Ok((Some(Data::Vector), Step::Vector { exprs: e })),
        Err(err) => Err(err),
    }
}

/// The rules of a Point node.
pub open spec fn point_plan(names: Seq<Seq<char>>, fx: Seq<char>, fy: Seq<char>, fz: Seq<char>) -> Result<
    (Option<DataView>, StepView),
    ProcessingErrorView,
> {
    match sanitize_all_spec(names, seq![], seq![fx, fy, fz]) {
        Ok(e) => Ok((Some(DataView::Geom0D), StepView::Point(e))),
        Err(err) => Err(err),
    }
}

/// A Point node: three checked expressions make a point.
pub fn point_step(globals: &Globals, fx: String, fy: String, fz: String) -> (r: Plan)
    ensures
        plan_view(r) == point_plan(globals.names(), fx@, fy@, fz@),
        r matches Ok((Some(d), _)) ==> data_wf(d@),
{
    let exprs = three(fx, fy, fz);
    let no_locals: Vec<&str> = Vec::new();
    assert(strs_view(no_locals@) =~= seq![]);
    match sanitize_all(globals, no_locals.as_slice(), &exprs) {
        Ok(e) => Ok((Some(Data::Geom0D), Step::Point { exprs: e })),
        Err(err) => Err(err),
    }
}

/// The rules of an Interval node: a quality from 1 to 16, a name and two bounds that
/// are not empty, a valid variable name and two checked bounds.
pub open spec fn interval_plan(
    names: Seq<Seq<char>>,
    name: Seq<char>,
    begin: Seq<char>,
    end: Seq<char>,
    quality: usize,
) -> Result<(Option<DataView>, StepView), ProcessingErrorView> {
    if !(1 <= quality <= 16) {
        Err(ProcessingErrorView::IncorrectAttributes(
            "Interval quality attribute must be an integer in the [1, 16] range"@,
        ))
    } else if name.len() == 0 {
        Err(ProcessingErrorView::IncorrectAttributes(" please provide a name \n for the interval's variable "@))
    } else if begin.len() == 0 {
        Err(ProcessingErrorView::IncorrectAttributes(" please provide an expression \n for the interval's begin "@))
    } else if end.len() == 0 {
        Err(ProcessingErrorView::IncorrectAttributes(" please provide an expression \n for the interval's end "@))
    } else {
        match sanitize_name_spec(name) {
            Err(e) => Err(e),
            Ok(n) => match sanitize_spec(names, seq![], begin) {
                Err(e) => Err(e),
                Ok(b) => match sanitize_spec(names, seq![], end) {
                    Err(e) => Err(e),
                    Ok(en) => {
                        let p = ParameterView {
                            name: Some(n),
                            segments: quality as u32,
                            begin: b,
                            end: en,
                            use_interval_as_uv: false,
                        };
                        Ok((Some(DataView::Interval(p)), StepView::Interval(p)))
                    },
                },
            },
        }
    }
}

/// An Interval node.
pub fn interval_step(globals: &Globals, name: String, begin: String, end: String, quality: usize) -> (r: Plan)
    ensures
        plan_view(r) == interval_plan(globals.names(), name@, begin@, end@, quality),
        r matches Ok((Some(d), _)) ==> data_wf(d@),
{
    if !(1 <= quality && quality <= 16) {
        return Err(ProcessingError::IncorrectAttributes("Interval quality attribute must be an integer in the [1, 16] range"));
    }
    if name.as_str().unicode_len() == 0 {
        return Err(ProcessingError::IncorrectAttributes(" please provide a name \n for the interval's variable "));
    }
    if begin.as_str().unicode_len() == 0 {
        return Err(ProcessingError::IncorrectAttributes(" please provide an expression \n for the interval's begin "));
    }
    if end.as_str().unicode_len() == 0 {
        return Err(ProcessingError::IncorrectAttributes(" please provide an expression \n for the interval's end "));
    }
    let sanitized_name = match Globals::sanitize_variable_name(name.as_str()) {
        Ok(n) => n,
        Err(e) => {
            return Err(e);
        },
    };
    let no_locals: Vec<&str> = Vec::new();
    assert(strs_view(no_locals@) =~= seq![]);
    let sanitized_begin = match globals.sanitize_expression(no_locals.as_slice(), begin.as_str()) {
        Ok(b) => b,
        Err(e) => {
            return Err(e);
        },
    };
    let sanitized_end = match globals.sanitize_expression(no_locals.as_slice(), end.as_str()) {
        Ok(b) => b,
        Err(e) => {
            return Err(e);
        },
    };
    let param = Parameter {
        name: Some(sanitized_name),
        begin: sanitized_begin,
        end: sanitized_end,
        segments: quality as u32,
        use_interval_as_uv: false,
    };
    let step_param = param.duplicate();
    Ok((Some(Data::Interval { param }), Step::Interval { param: step_param }))
}

/// The rules of a Curve node: an interval as input, and three expressions checked
/// with the interval's variable.
pub open spec fn curve_plan(
    names: Seq<Seq<char>>,
    data: DataMap,
    interval: Option<DataID>,
    fx: Seq<char>,
    fy: Seq<char>,
    fz: Seq<char>,
) -> Result<(Option<DataView>, StepView), ProcessingErrorView> {
    match interval {
        None => Err(ProcessingErrorView::InputMissing(" This Curve node \n is missing its input "@)),
        Some(id) => match data.get_view(id) {
            None => Err(ProcessingErrorView::NoInputData),
            Some(DataView::Interval(p)) => match sanitize_all_spec(names, seq![p.name->0], seq![fx, fy, fz]) {
                Ok(e) => Ok((Some(DataView::Geom1D(p)), StepView::Curve(id, p, e))),
                Err(err) => Err(err),
            },
            Some(_) => Err(ProcessingErrorView::InternalError("the input provided to the Curve is not an Interval"@)),
        },
    }
}

/// A Curve node.
pub fn curve_step(
    globals: &Globals,
    data: &DataMap,
    interval: Option<DataID>,
    fx: String,
    fy: String,
    fz: String,
) -> (r: Plan)
    requires
        data.wf(),
    ensures
        plan_view(r) == curve_plan(globals.names(), *data, interval, fx@, fy@, fz@),
        r matches Ok((Some(d), _)) ==> data_wf(d@),
{
    let id = match interval {
        None => {
            return Err(ProcessingError::InputMissing(" This Curve node \n is missing its input "));
        },
        Some(id) => id,
    };
    let found = match data.get(id) {
        None => {
            return Err(ProcessingError::NoInputData);
        },
        Some(d) => d,
    };
    let param = match found {
        Data::Interval { param } => param.duplicate(),
        _ => {
            return Err(ProcessingError::InternalError(String::from_str("the input provided to the Curve is not an Interval")));
        },
    };
    let exprs = three(fx, fy, fz);
    let e = {
        let name = param.name.as_ref().unwrap();
        let locals: Vec<&str> = vec![name.as_str()];
        assert(strs_view(locals@) =~= seq![param@.name->0]);
        match sanitize_all(globals, locals.as_slice(), &exprs) {
            Ok(e) => e,
            Err(err) => {
                return Err(err);
            },
        }
    };
    let step_param = param.duplicate();
    Ok((Some(Data::Geom1D { param }), Step::Curve { interval: id, param: step_param, exprs: e }))
}

/// The rules of a Surface node: two intervals as inputs, and three expressions
/// checked with both variables.
pub open spec fn surface_plan(
    names: Seq<Seq<char>>,
    data: DataMap,
    interval_1: Option<DataID>,
    interval_2: Option<DataID>,
    fx: Seq<char>,
    fy: Seq<char>,
    fz: Seq<char>,
) -> Result<(Option<DataView>, StepView), ProcessingErrorView> {
    if interval_1 is None {
        Err(ProcessingErrorView::InputMissing(" This Surface node \n is missing its first input "@))
    } else if interval_2 is None {
        Err(ProcessingErrorView::InputMissing(" This Surface node \n is missing its second input "@))
    } else {
        let id1 = interval_1->0;
        let id2 = interval_2->0;
        if data.get_view(id1) is None || data.get_view(id2) is None {
            Err(ProcessingErrorView::NoInputData)
        } else {
            match (data.get_view(id1)->0, data.get_view(id2)->0) {
                (DataView::Interval(p1), DataView::Interval(p2)) => match sanitize_all_spec(
                    names,
                    seq![p1.name->0, p2.name->0],
                    seq![fx, fy, fz],
                ) {
                    Ok(e) => Ok((Some(DataView::Geom2D(p1, p2)), StepView::Surface(id1, id2, p1, p2, e))),
                    Err(err) => Err(err),
                },
                _ => Err(
                    ProcessingErrorView::InternalError(
                        "the first input provided to the Surface node is not an Interval"@,
                    ),
                ),
            }
        }
    }
}

/// A Surface node.
pub fn surface_step(
    globals: &Globals,
    data: &DataMap,
    interval_1: Option<DataID>,
    interval_2: Option<DataID>,
    fx: String,
    fy: String,
    fz: String,
) -> (r: Plan)
    requires
        data.wf(),
    ensures
        plan_view(r) == surface_plan(globals.names(), *data, interval_1, interval_2, fx@, fy@, fz@),
        r matches Ok((Some(d), _)) ==> data_wf(d@),
{
    let id1 = match interval_1 {
        None => {
            return Err(ProcessingError::InputMissing(" This Surface node \n is missing its first input "));
        },
        Some(id) => id,
    };
    let id2 = match interval_2 {
        None => {
            return Err(ProcessingError::InputMissing(" This Surface node \n is missing its second input "));
        },
        Some(id) => id,
    };
    let d1 = match data.get(id1) {
        None => {
            return Err(ProcessingError::NoInputData);
        },
        Some(d) => d,
    };
    let d2 = match data.get(id2) {
        None => {
            return Err(ProcessingError::NoInputData);
        },
        Some(d) => d,
    };
    let p1 = match d1 {
        Data::Interval { param } => param.duplicate(),
        _ => {
            return Err(ProcessingError::InternalError(String::from_str("the first input provided to the Surface node is not an Interval")));
        },
    };
    let p2 = match d2 {
        Data::Interval { param } => param.duplicate(),
        _ => {
            return Err(ProcessingError::InternalError(String::from_str("the first input provided to the Surface node is not an Interval")));
        },
    };
    let exprs = three(fx, fy, fz);
    let e = {
        let n1 = p1.name.as_ref().unwrap();
        let n2 = p2.name.as_ref().unwrap();
        let locals: Vec<&str> = vec![n1.as_str(), n2.as_str()];
        assert(strs_view(locals@) =~= seq![p1@.name->0, p2@.name->0]);
        match sanitize_all(globals, locals.as_slice(), &exprs) {
            Ok(e) => e,
            Err(err) => {
                return Err(err);
            },
        }
    };
    let q1 = p1.duplicate();
    let q2 = p2.duplicate();
    Ok((
        Some(Data::Geom2D { param1: p1, param2: p2 }),
        Step::Surface { interval_1: id1, interval_2: id2, param_1: q1, param_2: q2, exprs: e },
    ))
}

/// The parameter that a Bezier node lays its curve along: anonymous, from 0 to 1.
pub open spec fn bezier_param(quality: usize) -> ParameterView {
    ParameterView {
        name: None,
        segments: quality as u32,
        begin: "0.0"@,
        end: "1.0"@,
        use_interval_as_uv: false,
    }
}

/// The first control point that is not stored as a point: missing data, or another
/// shape.
pub open spec fn bezier_points_error(data: DataMap, points: Seq<DataID>) -> Option<ProcessingErrorView>
    decreases points.len(),
{
    if points.len() == 0 {
        None
    } else {
        match data.get_view(points[0]) {
            None => Some(ProcessingErrorView::NoInputData),
            Some(DataView::Geom0D) => bezier_points_error(data, points.drop_first()),
            Some(_) => Some(ProcessingErrorView::IncorrectInput(" the input provided to Bezier \n is not a Point "@)),
        }
    }
}

/// The rules of a Bezier node: a quality from 1 to 16, and two to four control points.
pub open spec fn bezier_plan(data: DataMap, points: Seq<DataID>, quality: usize) -> Result<
    (Option<DataView>, StepView),
    ProcessingErrorView,
> {
    if !(1 <= quality <= 16) {
        Err(ProcessingErrorView::IncorrectAttributes(
            "Interval quality attribute must be an integer in the [1, 16] range"@,
        ))
    } else if points.len() <= 1 {
        Err(ProcessingErrorView::InputMissing(" A Bezier curve requires \n at least 2 points "@))
    } else if points.len() > 4 {
        Err(ProcessingErrorView::InternalError("Currently we only support Bézier curves up to degree 3"@))
    } else {
        match bezier_points_error(data, points) {
            Some(e) => Err(e),
            None => Ok((Some(DataView::Geom1D(bezier_param(quality))), StepView::Bezier(points, bezier_param(quality)))),
        }
    }
}

/// A Bezier node, with the control points that are linked, in order.
pub fn bezier_step(data: &DataMap, points: Vec<DataID>, quality: usize) -> (r: Plan)
    requires
        data.wf(),
    ensures
        plan_view(r) == bezier_plan(*data, points@, quality),
        r matches Ok((Some(d), _)) ==> data_wf(d@),
{
    if !(1 <= quality && quality <= 16) {
        return Err(ProcessingError::IncorrectAttributes("Interval quality attribute must be an integer in the [1, 16] range"));
    }
    if points.len() <= 1 {
        return Err(ProcessingError::InputMissing(" A Bezier curve requires \n at least 2 points "));
    }
    if points.len() > 4 {
        return Err(ProcessingError::InternalError(String::from_str("Currently we only support Bézier curves up to degree 3")));
    }
    let mut k: usize = 0;
    assert(points@.skip(0) =~= points@);
    while k < points.len()
        invariant
            data.wf(),
            1 <= quality <= 16,
            2 <= points@.len() <= 4,
            k <= points@.len(),
            bezier_points_error(*data, points@) == bezier_points_error(*data, points@.skip(k as int)),
        decreases points@.len() - k,
    {
        assert(points@.skip(k as int)[0] == points@[k as int]);
        assert(points@.skip(k as int).drop_first() =~= points@.skip(k + 1));
        match data.get(points[k]) {
            None => {
                return Err(ProcessingError::NoInputData);
            },
            Some(Data::Geom0D) => {},
            Some(_) => {
                return Err(ProcessingError::IncorrectInput(" the input provided to Bezier \n is not a Point "));
            },
        }
        k = k + 1;
    }
    assert(points@.skip(k as int) =~= seq![]);
    let param = Parameter {
        name: None,
        begin: String::from_str("0.0"),
        end: String::from_str("1.0"),
        segments: quality as u32,
        use_interval_as_uv: false,
    };
    let step_param = param.duplicate();
    Ok((Some(Data::Geom1D { param }), Step::Bezier { points, param: step_param }))
}

/// The rules of a Translation Matrix node: a vector as input.
pub open spec fn translation_plan(data: DataMap, vector: Option<DataID>) -> Result<
    (Option<DataView>, StepView),
    ProcessingErrorView,
> {
    match vector {
        None => Err(ProcessingErrorView::InputMissing(" This Translation Matrix node \n is missing its input "@)),
        Some(id) => match data.get_view(id) {
            None => Err(ProcessingErrorView::NoInputData),
            Some(DataView::Vector) => Ok((Some(DataView::Matrix0D), StepView::TranslationMatrix(id))),
            Some(_) => Err(ProcessingErrorView::IncorrectInput(" Translation Matrix first input \n is not a vector "@)),
        },
    }
}

/// A Translation Matrix node.
pub fn translation_step(data: &DataMap, vector: Option<DataID>) -> (r: Plan)
    requires
        data.wf(),
    ensures
        plan_view(r) == translation_plan(*data, vector),
        r matches Ok((Some(d), _)) ==> data_wf(d@),
{
    let id = match vector {
        None => {
            return Err(ProcessingError::InputMissing(" This Translation Matrix node \n is missing its input "));
        },
        Some(id) => id,
    };
    match data.get(id) {
        None => Err(ProcessingError::NoInputData),
        Some(Data::Vector) => Ok((Some(Data::Matrix0D), Step::TranslationMatrix { vector: id })),
        Some(_) => Err(ProcessingError::IncorrectInput(" Translation Matrix first input \n is not a vector ")),
    }
}

/// The rules of a Matrix node: an optional interval as input, and twelve entries
/// (three rows of four) checked with the interval's variable, if there is one.
pub open spec fn matrix_plan(
    names: Seq<Seq<char>>,
    data: DataMap,
    interval: Option<DataID>,
    entries: Seq<Seq<char>>,
) -> Result<(Option<DataView>, StepView), ProcessingErrorView> {
    match interval {
        Some(id) => match data.get_view(id) {
            None => Err(ProcessingErrorView::NoInputData),
            Some(DataView::Interval(p)) => match sanitize_all_spec(names, seq![p.name->0], entries) {
                Ok(e) => Ok((Some(DataView::Matrix1D(p)), StepView::Matrix(Some(id), Some(p), e))),
                Err(err) => Err(err),
            },
            Some(_) => Err(ProcessingErrorView::InternalError("the input provided to the Matrix is not an Interval"@)),
        },
        None => match sanitize_all_spec(names, seq![], entries) {
            Ok(e) => Ok((Some(DataView::Matrix0D), StepView::Matrix(None, None, e))),
            Err(err) => Err(err),
        },
    }
}

/// A Matrix node, with its rows given one after the other.
pub fn matrix_step(globals: &Globals, data: &DataMap, interval: Option<DataID>, entries: Vec<String>) -> (r: Plan)
    requires
        data.wf(),
    ensures
        plan_view(r) == matrix_plan(globals.names(), *data, interval, names_view(entries@)),
        r matches Ok((Some(d), _)) ==> data_wf(d@),
{
    match interval {
        Some(id) => {
            let found = match data.get(id) {
                None => {
                    return Err(ProcessingError::NoInputData);
                },
                Some(d) => d,
            };
            let param = match found {
                Data::Interval { param } => param.duplicate(),
                _ => {
                    return Err(ProcessingError::InternalError(String::from_str("the input provided to the Matrix is not an Interval")));
                },
            };
            let e = {
                let name = param.name.as_ref().unwrap();
                let locals: Vec<&str> = vec![name.as_str()];
                assert(strs_view(locals@) =~= seq![param@.name->0]);
                match sanitize_all(globals, locals.as_slice(), &entries) {
                    Ok(e) => e,
                    Err(err) => {
                        return Err(err);
                    },
                }
            };
            let step_param = param.duplicate();
            Ok((Some(Data::Matrix1D { param }), Step::Matrix { interval: Some(id), param: Some(step_param), entries: e }))
        },
        None => {
            let no_locals: Vec<&str> = Vec::new();
            assert(strs_view(no_locals@) =~= seq![]);
            match sanitize_all(globals, no_locals.as_slice(), &entries) {
                Ok(e) => Ok((Some(Data::Matrix0D), Step::Matrix { interval: None, param: None, entries: e })),
                Err(err) => Err(err),
            }
        },
    }
}

/// `f(angle)` written out, as a function applied to the angle's text.
pub open spec fn apply(f: Seq<char>, angle: Seq<char>) -> Seq<char> {
    f + "("@ + angle + ")"@
}

/// The entries of the matrix of a rotation by `a` about `axis`, row after row.
pub open spec fn rotation_entries(axis: Axis, a: Seq<char>) -> Seq<Seq<char>> {
    let c = apply("cos"@, a);
    let s = apply("sin"@, a);
    let ms = apply("-sin"@, a);
    match axis {
        Axis::X => seq!["1.0"@, "0.0"@, "0.0"@, "0.0"@, "0.0"@, c, ms, "0.0"@, "0.0"@, s, c, "0.0"@],
        Axis::Y => seq![c, "0.0"@, s, "0.0"@, "0.0"@, "1.0"@, "0.0"@, "0.0"@, ms, "0.0"@, c, "0.0"@],
        Axis::Z => seq![c, ms, "0.0"@, "0.0"@, s, c, "0.0"@, "0.0"@, "0.0"@, "0.0"@, "1.0"@, "0.0"@],
    }
}

/// The entry at `row`, `col` of a matrix of three rows of four, given row after row.
pub open spec fn matrix_entry(m: Seq<Seq<char>>, row: int, col: int) -> Seq<char> {
    m[4 * row + col]
}

/// The index of an axis: 0 for X, 1 for Y, 2 for Z.
pub open spec fn axis_index(axis: Axis) -> int {
    match axis {
        Axis::X => 0,
        Axis::Y => 1,
        Axis::Z => 2,
    }
}

/// A rotation about an axis leaves that axis fixed, and moves nothing by translation:
/// the axis's row and column are those of the identity, the last column is zero, and
/// every other entry of the 3x3 part is the cosine or the sine of the angle (written
/// as a call on it, so never a constant). Hence the three axes give three different
/// matrices.
pub proof fn lemma_rotation_fixes_axis(axis: Axis, a: Seq<char>)
    ensures
        rotation_entries(axis, a).len() == 12,
        forall|row: int, col: int|
            0 <= row < 3 && 0 <= col < 3 ==> #[trigger] matrix_entry(rotation_entries(axis, a), row, col) == (if row
                == axis_index(axis) && col == axis_index(axis) {
                "1.0"@
            } else if row == axis_index(axis) || col == axis_index(axis) {
                "0.0"@
            } else {
                matrix_entry(rotation_entries(axis, a), row, col)
            }),
        forall|row: int| 0 <= row < 3 ==> #[trigger] matrix_entry(rotation_entries(axis, a), row, 3) == "0.0"@,
        forall|row: int, col: int|
            0 <= row < 3 && 0 <= col < 3 && row != axis_index(axis) && col != axis_index(axis) ==> {
                let e = #[trigger] matrix_entry(rotation_entries(axis, a), row, col);
                e == apply("cos"@, a) || e == apply("sin"@, a) || e == apply("-sin"@, a)
            },
        forall|other: Axis| other != axis ==> rotation_entries(other, a) != rotation_entries(axis, a),
{
    reveal_strlit("1.0");
    reveal_strlit("0.0");
    reveal_strlit("cos");
    reveal_strlit("sin");
    reveal_strlit("-sin");
    reveal_strlit("(");
    reveal_strlit(")");
    let c = apply("cos"@, a);
    let sn = apply("sin"@, a);
    let ms = apply("-sin"@, a);
    assert(c[0] == 'c' && sn[0] == 's' && ms[0] == '-');
    assert("1.0"@[0] == '1' && "0.0"@[0] == '0');
    assert(c != "1.0"@ && c != "0.0"@);
    assert forall|other: Axis| other != axis implies rotation_entries(other, a) != rotation_entries(axis, a) by {
        let o = axis_index(other);
        let x = axis_index(axis);
        assert(matrix_entry(rotation_entries(axis, a), x, x) == "1.0"@);
        assert(matrix_entry(rotation_entries(other, a), x, x) != "1.0"@);
    }
}

/// The rules of a Rotation Matrix node: the angle must be a valid expression; the
/// matrix is then the one of the rotation about the axis, written with the angle as
/// the user typed it, and read as a Matrix node without interval.
pub open spec fn rotation_plan(names: Seq<Seq<char>>, data: DataMap, axis: Axis, angle: Seq<char>) -> Result<
    (Option<DataView>, StepView),
    ProcessingErrorView,
> {
    match sanitize_spec(names, seq![], angle) {
        Err(e) => Err(e),
        Ok(_) => matrix_plan(names, data, None, rotation_entries(axis, angle)),
    }
}

fn apply_exec(f: &str, angle: &String) -> (r: String)
    ensures
        r@ == apply(f@, angle@),
{
    let mut r = String::from_str(f);
    r.append("(");
    r.append(angle.as_str());
    r.append(")");
    r
}

fn lit(s: &str) -> (r: String)
    ensures
        r@ == s@,
{
    String::from_str(s)
}

/// A Rotation Matrix node.
pub fn rotation_step(globals: &Globals, data: &DataMap, axis: Axis, angle: String) -> (r: Plan)
    requires
        data.wf(),
    ensures
        plan_view(r) == rotation_plan(globals.names(), *data, axis, angle@),
        r matches Ok((Some(d), _)) ==> data_wf(d@),
{
    let no_locals: Vec<&str> = Vec::new();
    assert(strs_view(no_locals@) =~= seq![]);
    if let Err(e) = globals.sanitize_expression(no_locals.as_slice(), angle.as_str()) {
        return Err(e);
    }
    let entries: Vec<String> = match axis {
        Axis::X => vec![
            lit("1.0"), lit("0.0"), lit("0.0"), lit("0.0"),
            lit("0.0"), apply_exec("cos", &angle), apply_exec("-sin", &angle), lit("0.0"),
            lit("0.0"), apply_exec("sin", &angle), apply_exec("cos", &angle), lit("0.0"),
        ],
        Axis::Y => vec![
            apply_exec("cos", &angle), lit("0.0"), apply_exec("sin", &angle), lit("0.0"),
            lit("0.0"), lit("1.0"), lit("0.0"), lit("0.0"),
            apply_exec("-sin", &angle), lit("0.0"), apply_exec("cos", &angle), lit("0.0"),
        ],
        Axis::Z => vec![
            apply_exec("cos", &angle), apply_exec("-sin", &angle), lit("0.0"), lit("0.0"),
            apply_exec("sin", &angle), apply_exec("cos", &angle), lit("0.0"), lit("0.0"),
            lit("0.0"), lit("0.0"), lit("1.0"), lit("0.0"),
        ],
    };
    assert(names_view(entries@) =~= rotation_entries(axis, angle@));
    matrix_step(globals, data, None, entries)
}

/// Which parameter of a surface a Sample node samples: the first one if it has the
/// name, else the second one if it has it.
pub open spec fn sampled_first(p1: ParameterView, p2: ParameterView, name: Seq<char>) -> Option<bool> {
    if p1.name == Some(name) {
        Some(true)
    } else if p2.name == Some(name) {
        Some(false)
    } else {
        None
    }
}

/// The rules of a Sample node: a curve or a surface as input, a valid name of one of
/// its parameters, and a checked value; sampling a curve gives a point, sampling a
/// surface along one parameter gives a curve along the other.
pub open spec fn sample_plan(
    names: Seq<Seq<char>>,
    data: DataMap,
    geometry: Option<DataID>,
    parameter: Seq<char>,
    value: Seq<char>,
) -> Result<(Option<DataView>, StepView), ProcessingErrorView> {
    match geometry {
        None => Err(ProcessingErrorView::InputMissing(" This Sample node \n is missing its Geometry input "@)),
        Some(id) => match data.get_view(id) {
            None => Err(ProcessingErrorView::NoInputData),
            Some(DataView::Geom0D) => Err(ProcessingErrorView::IncorrectInput(" cannot sample from \n a point (0d geometry) "@)),
            Some(DataView::Prefab(_, _)) => Err(ProcessingErrorView::IncorrectInput(" cannot sample from \n a primitive "@)),
            Some(DataView::Geom1D(p)) => match sanitize_name_spec(parameter) {
                Err(e) => Err(e),
                Ok(n) => match sanitize_spec(names, seq![], value) {
                    Err(e) => Err(e),
                    Ok(v) => if p.name == Some(n) {
                        Ok((Some(DataView::Geom0D), StepView::SampleCurve(id, p, v)))
                    } else {
                        Err(ProcessingErrorView::IncorrectAttributes(" the parameter used \n is not known "@))
                    },
                },
            },
            Some(DataView::Geom2D(p1, p2)) => match sanitize_name_spec(parameter) {
                Err(e) => Err(e),
                Ok(n) => match sanitize_spec(names, seq![], value) {
                    Err(e) => Err(e),
                    Ok(v) => match sampled_first(p1, p2, n) {
                        Some(true) => Ok((Some(DataView::Geom1D(p2)), StepView::SampleSurface(id, true, p1, p2, v))),
                        Some(false) => Ok((Some(DataView::Geom1D(p1)), StepView::SampleSurface(id, false, p2, p1, v))),
                        None => Err(ProcessingErrorView::IncorrectAttributes(" the parameter used \n is not known "@)),
                    },
                },
            },
            Some(_) => Err(ProcessingErrorView::InternalError(" input provided to sample \n is not a geometry "@)),
        },
    }
}

/// Sampling a surface gives a curve along the parameter that is not sampled: the
/// sampled parameter is the surface parameter named by the node (the first one when
/// both are), the other one is the parameter of the resulting curve, and the two are
/// the surface's parameters, in the order that `sampling_first` tells.
pub proof fn lemma_sample_surface_output(
    names: Seq<Seq<char>>,
    data: DataMap,
    geometry: Option<DataID>,
    parameter: Seq<char>,
    value: Seq<char>,
)
    ensures
        match sample_plan(names, data, geometry, parameter, value) {
            Ok((out, StepView::SampleSurface(id, first, sampled, nonsampled, _))) => {
                &&& geometry == Some(id)
                &&& out == Some(DataView::Geom1D(nonsampled))
                &&& sanitize_name_spec(parameter) matches Ok(n) && sampled.name == Some(n)
                &&& match data.get_view(id) {
                    Some(DataView::Geom2D(p1, p2)) => if first {
                        sampled == p1 && nonsampled == p2
                    } else {
                        sampled == p2 && nonsampled == p1 && p1.name != sampled.name
                    },
                    _ => false,
                }
            },
            _ => true,
        },
{
}

fn same_name(p: &Parameter, name: &String) -> (r: bool)
    ensures
        r == (p@.name == Some(name@)),
{
    match &p.name {
        Some(n) => n.eq(name),
        None => false,
    }
}

/// A Sample node.
pub fn sample_step(
    globals: &Globals,
    data: &DataMap,
    geometry: Option<DataID>,
    parameter: String,
    value: String,
) -> (r: Plan)
    requires
        data.wf(),
    ensures
        plan_view(r) == sample_plan(globals.names(), *data, geometry, parameter@, value@),
        r matches Ok((Some(d), _)) ==> data_wf(d@),
{
    let id = match geometry {
        None => {
            return Err(ProcessingError::InputMissing(" This Sample node \n is missing its Geometry input "));
        },
        Some(id) => id,
    };
    let found = match data.get(id) {
        None => {
            return Err(ProcessingError::NoInputData);
        },
        Some(d) => d,
    };
    let no_locals: Vec<&str> = Vec::new();
    assert(strs_view(no_locals@) =~= seq![]);
    match found {
        Data::Geom0D => Err(ProcessingError::IncorrectInput(" cannot sample from \n a point (0d geometry) ")),
        Data::Prefab { .. } => Err(ProcessingError::IncorrectInput(" cannot sample from \n a primitive ")),
        Data::Geom1D { param } => {
            let name = match Globals::sanitize_variable_name(parameter.as_str()) {
                Ok(n) => n,
                Err(e) => {
                    return Err(e);
                },
            };
            let v = match globals.sanitize_expression(no_locals.as_slice(), value.as_str()) {
                Ok(v) => v,
                Err(e) => {
                    return Err(e);
                },
            };
            if same_name(param, &name) {
                Ok((Some(Data::Geom0D), Step::SampleCurve { geometry: id, param: param.duplicate(), value: v }))
            } else {
                Err(ProcessingError::IncorrectAttributes(" the parameter used \n is not known "))
            }
        },
        Data::Geom2D { param1, param2 } => {
            let name = match Globals::sanitize_variable_name(parameter.as_str()) {
                Ok(n) => n,
                Err(e) => {
                    return Err(e);
                },
            };
            let v = match globals.sanitize_expression(no_locals.as_slice(), value.as_str()) {
                Ok(v) => v,
                Err(e) => {
                    return Err(e);
                },
            };
            if same_name(param1, &name) {
                Ok((
                    Some(Data::Geom1D { param: param2.duplicate() }),
                    Step::SampleSurface {
                        geometry: id,
                        sampling_first: true,
                        sampled: param1.duplicate(),
                        nonsampled: param2.duplicate(),
                        value: v,
                    },
                ))
            } else if same_name(param2, &name) {
                Ok((
                    Some(Data::Geom1D { param: param1.duplicate() }),
                    Step::SampleSurface {
                        geometry: id,
                        sampling_first: false,
                        sampled: param2.duplicate(),
                        nonsampled: param1.duplicate(),
                        value: v,
                    },
                ))
            } else {
                Err(ProcessingError::IncorrectAttributes(" the parameter used \n is not known "))
            }
        },
        _ => Err(ProcessingError::InternalError(String::from_str(" input provided to sample \n is not a geometry "))),
    }
}

/// The rules of a Transform node: a geometry and a matrix as inputs; a point
/// transformed by a constant matrix is the one case handled.
pub open spec fn transform_plan(data: DataMap, geometry: Option<DataID>, matrix: Option<DataID>) -> Result<
    (Option<DataView>, StepView),
    ProcessingErrorView,
> {
    match geometry {
        None => Err(ProcessingErrorView::InputMissing(" This Transform node \n is missing its Geometry input "@)),
        Some(g) => if data.get_view(g) is None {
            Err(ProcessingErrorView::NoInputData)
        } else {
            match matrix {
                None => Err(ProcessingErrorView::InputMissing(" This Transform node \n is missing its Matrix input "@)),
                Some(m) => if data.get_view(m) is None {
                    Err(ProcessingErrorView::NoInputData)
                } else if data.get_view(g) == Some(DataView::Geom0D) && data.get_view(m) == Some(DataView::Matrix0D) {
                    Ok((Some(DataView::Geom0D), StepView::TransformPoint(g, m)))
                } else {
                    Err(ProcessingErrorView::InternalError("unhandled transform case"@))
                },
            }
        },
    }
}

/// A Transform node.
pub fn transform_step(data: &DataMap, geometry: Option<DataID>, matrix: Option<DataID>) -> (r: Plan)
    requires
        data.wf(),
    ensures
        plan_view(r) == transform_plan(*data, geometry, matrix),
        r matches Ok((Some(d), _)) ==> data_wf(d@),
{
    let g = match geometry {
        None => {
            return Err(ProcessingError::InputMissing(" This Transform node \n is missing its Geometry input "));
        },
        Some(g) => g,
    };
    let geometry_data = match data.get(g) {
        None => {
            return Err(ProcessingError::NoInputData);
        },
        Some(d) => d,
    };
    let m = match matrix {
        None => {
            return Err(ProcessingError::InputMissing(" This Transform node \n is missing its Matrix input "));
        },
        Some(m) => m,
    };
    let matrix_data = match data.get(m) {
        None => {
            return Err(ProcessingError::NoInputData);
        },
        Some(d) => d,
    };
    match (geometry_data, matrix_data) {
        (Data::Geom0D, Data::Matrix0D) => Ok((Some(Data::Geom0D), Step::TransformPoint { geometry: g, matrix: m })),
        _ => Err(ProcessingError::InternalError(String::from_str("unhandled transform case"))),
    }
}

/// The number of chunks of `chunk_vertices` vertices that hold the four corners of a
/// plane, the last chunk padded.
pub open spec fn plane_chunks(chunk_vertices: usize) -> usize {
    ((4 + chunk_vertices - 1) / chunk_vertices as int) as usize
}

/// The rules of a Plane node: a point and a vector as inputs; the plane is a prefab of
/// four corners and two triangles.
pub open spec fn plane_plan(
    data: DataMap,
    center: Option<DataID>,
    normal: Option<DataID>,
    size: usize,
    chunk_vertices: usize,
) -> Result<(Option<DataView>, StepView), ProcessingErrorView> {
    match center {
        None => Err(ProcessingErrorView::InputMissing(" This Plane node \n is missing its point input "@)),
        Some(c) => match data.get_view(c) {
            None => Err(ProcessingErrorView::InternalError("Geometry used as input does not exist in the block map"@)),
            Some(DataView::Geom0D) => match normal {
                None => Err(ProcessingErrorView::InputMissing(" This Plane node \n is missing its normal input "@)),
                Some(n) => match data.get_view(n) {
                    None => Err(ProcessingErrorView::InternalError("Vector used as input does not exist in the block map"@)),
                    Some(DataView::Vector) => Ok(
                        (Some(DataView::Prefab(plane_chunks(chunk_vertices), 6)), StepView::Plane(c, n, size)),
                    ),
                    Some(_) => Err(ProcessingErrorView::IncorrectInput(" Plane second input \n is not a vector "@)),
                },
            },
            Some(_) => Err(ProcessingErrorView::IncorrectInput(" Plane first input \n is not a point "@)),
        },
    }
}

/// A Plane node; `chunk_vertices` is the number of vertices in a chunk of a prefab.
pub fn plane_step(
    data: &DataMap,
    center: Option<DataID>,
    normal: Option<DataID>,
    size: usize,
    chunk_vertices: usize,
) -> (r: Plan)
    requires
        data.wf(),
        0 < chunk_vertices <= usize::MAX - 4,
    ensures
        plan_view(r) == plane_plan(*data, center, normal, size, chunk_vertices),
        r matches Ok((Some(d), _)) ==> data_wf(d@),
{
    let c = match center {
        None => {
            return Err(ProcessingError::InputMissing(" This Plane node \n is missing its point input "));
        },
        Some(c) => c,
    };
    match data.get(c) {
        None => {
            return Err(ProcessingError::InternalError(String::from_str("Geometry used as input does not exist in the block map")));
        },
        Some(Data::Geom0D) => {},
        Some(_) => {
            return Err(ProcessingError::IncorrectInput(" Plane first input \n is not a point "));
        },
    }
    let n = match normal {
        None => {
            return Err(ProcessingError::InputMissing(" This Plane node \n is missing its normal input "));
        },
        Some(n) => n,
    };
    match data.get(n) {
        None => Err(ProcessingError::InternalError(String::from_str("Vector used as input does not exist in the block map"))),
        Some(Data::Vector) => {
            let chunks_count = (4 + chunk_vertices - 1) / chunk_vertices;
            Ok((
                Some(Data::Prefab { chunks_count, index_count: 6 }),
                Step::Plane { center: c, normal: n, side_length: size },
            ))
        },
        Some(_) => Err(ProcessingError::IncorrectInput(" Plane second input \n is not a vector ")),
    }
}

/// The size of a model that a Primitive node can show.
#[derive(Debug, Clone, Copy, PartialEq, Eq, Structural)]
pub struct ModelInfo {
    pub chunks_count: usize,
    pub index_count: u32,
}

/// The rules of a Primitive node: a size that is not empty and is a checked
/// expression; the output is a prefab of the chosen model's size.
pub open spec fn primitive_plan(
    names: Seq<Seq<char>>,
    models: Seq<ModelInfo>,
    primitive: usize,
    size: Seq<char>,
) -> Result<(Option<DataView>, StepView), ProcessingErrorView> {
    if size.len() == 0 {
        Err(ProcessingErrorView::IncorrectAttributes(" please provide a value \n for the primitive size "@))
    } else {
        match sanitize_spec(names, seq![], size) {
            Err(e) => Err(e),
            Ok(s) => Ok(
                (
                    Some(DataView::Prefab(models[primitive as int].chunks_count, models[primitive as int].index_count)),
                    StepView::Primitive(primitive, s),
                ),
            ),
        }
    }
}

/// A Primitive node, showing model `primitive` of `models`.
pub fn primitive_step(globals: &Globals, models: &Vec<ModelInfo>, primitive: usize, size: String) -> (r: Plan)
    requires
        primitive < models@.len(),
    ensures
        plan_view(r) == primitive_plan(globals.names(), models@, primitive, size@),
        r matches Ok((Some(d), _)) ==> data_wf(d@),
{
    if size.as_str().unicode_len() == 0 {
        return Err(ProcessingError::IncorrectAttributes(" please provide a value \n for the primitive size "));
    }
    let no_locals: Vec<&str> = Vec::new();
    assert(strs_view(no_locals@) =~= seq![]);
    let s = match globals.sanitize_expression(no_locals.as_slice(), size.as_str()) {
        Ok(s) => s,
        Err(e) => {
            return Err(e);
        },
    };
    let model = models[primitive];
    Ok((
        Some(Data::Prefab { chunks_count: model.chunks_count, index_count: model.index_count }),
        Step::Primitive { primitive, size: s },
    ))
}

/// The rules of a Rendering node: a point, curve, surface or prefab as input.
pub open spec fn render_plan(
    data: DataMap,
    geometry: Option<DataID>,
    thickness: usize,
    mask: usize,
    material: usize,
) -> Result<(Option<DataView>, StepView), ProcessingErrorView> {
    match geometry {
        None => Err(ProcessingErrorView::InputMissing(" This Curve node \n is missing its input "@)),
        Some(g) => match data.get_view(g) {
            None => Err(ProcessingErrorView::NoInputData),
            Some(d) => if d is Geom0D || d is Geom1D || d is Geom2D || d is Prefab {
                Ok((None, StepView::Render(g, d, thickness, mask, material)))
            } else {
                Err(
                    ProcessingErrorView::InternalError(
                        "Geometry render operation cannot handle the kind of data provided as input"@,
                    ),
                )
            },
        },
    }
}

/// A Rendering node.
pub fn render_step(data: &DataMap, geometry: Option<DataID>, thickness: usize, mask: usize, material: usize) -> (r: Plan)
    requires
        data.wf(),
    ensures
        plan_view(r) == render_plan(*data, geometry, thickness, mask, material),
        r is Ok ==> r->Ok_0.0 is None,
{
    let g = match geometry {
        None => {
            return Err(ProcessingError::InputMissing(" This Curve node \n is missing its input "));
        },
        Some(g) => g,
    };
    match data.get(g) {
        None => Err(ProcessingError::NoInputData),
        Some(d) => match d {
            Data::Geom0D | Data::Geom1D { .. } | Data::Geom2D { .. } | Data::Prefab { .. } => Ok((
                None,
                Step::Render { geometry: g, shape: d.duplicate(), thickness, mask, material },
            )),
            _ => Err(
                ProcessingError::InternalError(
                    String::from_str("Geometry render operation cannot handle the kind of data provided as input"),
                ),
            ),
        },
    }
}

/// The rules of a Vector Rendering node: a point and a vector as inputs.
pub open spec fn vector_render_plan(
    data: DataMap,
    application_point: Option<DataID>,
    vector: Option<DataID>,
    thickness: usize,
    material: usize,
) -> Result<(Option<DataView>, StepView), ProcessingErrorView> {
    match application_point {
        None => Err(ProcessingErrorView::InputMissing(" This Vector Rendering node \n is missing its first input "@)),
        Some(a) => match data.get_view(a) {
            None => Err(ProcessingErrorView::InternalError("Application Point used as input does not exist in the block map"@)),
            Some(DataView::Geom0D) => match vector {
                None => Err(ProcessingErrorView::InputMissing(" This Vector Rendering node \n is missing its second input "@)),
                Some(v) => match data.get_view(v) {
                    None => Err(ProcessingErrorView::InternalError("Vector used as input does not exist in the block map"@)),
                    Some(DataView::Vector) => Ok((None, StepView::VectorRender(a, v, thickness, material))),
                    Some(_) => Err(ProcessingErrorView::IncorrectInput(" the second input provided \n is not a vector "@)),
                },
            },
            Some(_) => Err(ProcessingErrorView::IncorrectInput(" the first input provided \n is not a point "@)),
        },
    }
}

/// A Vector Rendering node.
pub fn vector_render_step(
    data: &DataMap,
    application_point: Option<DataID>,
    vector: Option<DataID>,
    thickness: usize,
    material: usize,
) -> (r: Plan)
    requires
        data.wf(),
    ensures
        plan_view(r) == vector_render_plan(*data, application_point, vector, thickness, material),
        r is Ok ==> r->Ok_0.0 is None,
{
    let a = match application_point {
        None => {
            return Err(ProcessingError::InputMissing(" This Vector Rendering node \n is missing its first input "));
        },
        Some(a) => a,
    };
    match data.get(a) {
        None => {
            return Err(ProcessingError::InternalError(String::from_str("Application Point used as input does not exist in the block map")));
        },
        Some(Data::Geom0D) => {},
        Some(_) => {
            return Err(ProcessingError::IncorrectInput(" the first input provided \n is not a point "));
        },
    }
    let v = match vector {
        None => {
            return Err(ProcessingError::InputMissing(" This Vector Rendering node \n is missing its second input "));
        },
        Some(v) => v,
    };
    match data.get(v) {
        None => Err(ProcessingError::InternalError(String::from_str("Vector used as input does not exist in the block map"))),
        Some(Data::Vector) => Ok((None, Step::VectorRender { application_point: a, vector: v, thickness, material })),
        Some(_) => Err(ProcessingError::IncorrectInput(" the second input provided \n is not a vector ")),
    }
}

} // verus!
