//! The compute graph: the node graph read as a dataflow of geometric data. Each node
//! is checked against its inputs and turned into a compute step; the steps run in an
//! order in which every node comes after the nodes it reads from.
pub mod data;
pub mod globals;
pub mod order;
pub mod process;
pub mod steps;

use vstd::prelude::*;
use crate::node_graph::contents::NodeID;

verus! {

pub type DataID = i32;

pub type PrefabId = i32;

/// Why a single node could not be processed; the other nodes go on.
#[derive(Debug, Clone)]
pub enum ProcessingError {
    InputMissing(&'static str),
    NoInputData,
    InternalError(String),
    IncorrectAttributes(&'static str),
    IncorrectExpression(String),
    IncorrectInput(&'static str),
}

/// The value of a processing error: its kind and its message.
pub ghost enum ProcessingErrorView {
    InputMissing(Seq<char>),
    NoInputData,
    InternalError(Seq<char>),
    IncorrectAttributes(Seq<char>),
    IncorrectExpression(Seq<char>),
    IncorrectInput(Seq<char>),
}

impl View for ProcessingError {
    type V = ProcessingErrorView;

    open spec fn view(&self) -> ProcessingErrorView {
        match self {
            ProcessingError::InputMissing(m) => ProcessingErrorView::InputMissing(m@),
            ProcessingError::NoInputData => ProcessingErrorView::NoInputData,
            ProcessingError::InternalError(m) => ProcessingErrorView::InternalError(m@),
            ProcessingError::IncorrectAttributes(m) => ProcessingErrorView::IncorrectAttributes(m@),
            ProcessingError::IncorrectExpression(m) => ProcessingErrorView::IncorrectExpression(m@),
            ProcessingError::IncorrectInput(m) => ProcessingErrorView::IncorrectInput(m@),
        }
    }
}

/// An error that stops the whole graph from being processed.
#[derive(Debug, Clone)]
pub struct UnrecoverableError {
    pub node_id: NodeID,
    pub error: &'static str,
}

/// An error on one node; the other nodes were processed.
#[derive(Debug, Clone)]
pub struct RecoverableError {
    pub node_id: NodeID,
    pub error: ProcessingError,
}

/// The parameter along which a geometry is laid out. A parameter can be anonymous,
/// as when a Bezier node makes it.
#[derive(Debug)]
pub struct Parameter {
    pub name: Option<String>,
    pub segments: u32,
    pub begin: String,
    pub end: String,
    pub use_interval_as_uv: bool,
}

/// The value of a parameter, its strings taken by their characters.
pub ghost struct ParameterView {
    pub name: Option<Seq<char>>,
    pub segments: u32,
    pub begin: Seq<char>,
    pub end: Seq<char>,
    pub use_interval_as_uv: bool,
}

impl View for Parameter {
    type V = ParameterView;

    open spec fn view(&self) -> ParameterView {
        ParameterView {
            name: match self.name {
                Some(n) => Some(n@),
                None => None,
            },
            segments: self.segments,
            begin: self.begin@,
            end: self.end@,
            use_interval_as_uv: self.use_interval_as_uv,
        }
    }
}

/// The number of points computed along each segment of a parameter.
pub const POINTS_PER_SEGMENT: usize = 16;

/// What comparing two parameters gives: unnamed parameters and parameters of
/// different names differ; two of the same name are the same parameter, and an
/// error when their quality, begin or end differ.
pub open spec fn params_equal(a: ParameterView, b: ParameterView) -> Result<bool, ProcessingErrorView> {
    match (a.name, b.name) {
        (Some(n1), Some(n2)) => if n1 == n2 {
            if a.segments != b.segments {
                Err(ProcessingErrorView::IncorrectAttributes(
                    "The input intervals \n have the same name \n but different 'quality' "@,
                ))
            } else if a.begin != b.begin {
                Err(ProcessingErrorView::IncorrectAttributes(
                    "The input intervals \n have the same name \n but different 'begin' "@,
                ))
            } else if a.end != b.end {
                Err(ProcessingErrorView::IncorrectAttributes(
                    " The input intervals \n have the same name \n but different 'end' "@,
                ))
            } else {
                Ok(true)
            }
        } else {
            Ok(false)
        },
        _ => Ok(false),
    }
}

/// Comparing two parameters gives the same answer, or the same error, in either order.
pub proof fn lemma_params_equal_symmetric(a: ParameterView, b: ParameterView)
    ensures
        params_equal(a, b) == params_equal(b, a),
{
}

/// A named parameter is the same as itself, and an unnamed one is the same as none.
pub proof fn lemma_params_equal_reflexive(a: ParameterView)
    ensures
        params_equal(a, a) == Ok::<bool, ProcessingErrorView>(a.name is Some),
{
}

/// The value of a comparison result.
pub open spec fn bool_result_view(r: Result<bool, ProcessingError>) -> Result<bool, ProcessingErrorView> {
    match r {
        Ok(b) => Ok(b),
        Err(e) => Err(e@),
    }
}

impl Parameter {
    /// The number of points along the parameter: `POINTS_PER_SEGMENT` per segment.
    pub fn n_points(&self) -> (n: usize)
        requires
            self.segments * POINTS_PER_SEGMENT <= usize::MAX,
        ensures
            n == self.segments * POINTS_PER_SEGMENT,
    {
        self.segments as usize * POINTS_PER_SEGMENT
    }

    /// Whether `self` and `other` are the same named parameter (see `params_equal`).
    pub fn is_equal(&self, other: &Parameter) -> (r: Result<bool, ProcessingError>)
        ensures
            bool_result_view(r) == params_equal(self@, other@),
    {
        match (&self.name, &other.name) {
            (Some(self_name), Some(other_name)) => {
                if self_name.eq(other_name) {
                    if self.segments != other.segments {
                        Err(
                            ProcessingError::IncorrectAttributes(
                                "The input intervals \n have the same name \n but different 'quality' ",
                            ),
                        )
                    } else if !self.begin.eq(&other.begin) {
                        Err(
                            ProcessingError::IncorrectAttributes(
                                "The input intervals \n have the same name \n but different 'begin' ",
                            ),
                        )
                    } else if !self.end.eq(&other.end) {
                        Err(
                            ProcessingError::IncorrectAttributes(
                                " The input intervals \n have the same name \n but different 'end' ",
                            ),
                        )
                    } else {
                        Ok(true)
                    }
                } else {
                    Ok(false)
                }
            },
            _ => Ok(false),
        }
    }

    /// A copy of the parameter.
    pub fn duplicate(&self) -> (r: Parameter)
        ensures
            r@ == self@,
    {
        Parameter {
            name: match &self.name {
                Some(n) => Some(n.clone()),
                None => None,
            },
            segments: self.segments,
            begin: self.begin.clone(),
            end: self.end.clone(),
            use_interval_as_uv: self.use_interval_as_uv,
        }
    }
}

} // verus!
