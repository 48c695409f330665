//! What the compute steps produce, described by its shape: which kind of geometry or
//! matrix, laid out along which parameters. The buffers themselves live on the GPU.
use vstd::prelude::*;
use std::collections::BTreeMap;
use crate::compute_graph::{DataID, Parameter, ParameterView};

verus! {

/// The shape of the data that a node outputs.
#[derive(Debug)]
pub enum Data {
    Vector,
    Interval { param: Parameter },
    Geom0D,
    Geom1D { param: Parameter },
    Geom2D { param1: Parameter, param2: Parameter },
    Matrix0D,
    Matrix1D { param: Parameter },
    Prefab { chunks_count: usize, index_count: u32 },
}

/// The value of a data shape.
pub ghost enum DataView {
    Vector,
    Interval(ParameterView),
    Geom0D,
    Geom1D(ParameterView),
    Geom2D(ParameterView, ParameterView),
    Matrix0D,
    Matrix1D(ParameterView),
    Prefab(usize, u32),
}

impl View for Data {
    type V = DataView;

    open spec fn view(&self) -> DataView {
        match self {
            Data::Vector => DataView::Vector,
            Data::Interval { param } => DataView::Interval(param@),
            Data::Geom0D => DataView::Geom0D,
            Data::Geom1D { param } => DataView::Geom1D(param@),
            Data::Geom2D { param1, param2 } => DataView::Geom2D(param1@, param2@),
            Data::Matrix0D => DataView::Matrix0D,
            Data::Matrix1D { param } => DataView::Matrix1D(param@),
            Data::Prefab { chunks_count, index_count } => DataView::Prefab(*chunks_count, *index_count),
        }
    }
}

/// An interval is always laid out along a named parameter.
pub open spec fn data_wf(d: DataView) -> bool {
    d matches DataView::Interval(p) ==> p.name is Some
}

impl Data {
    /// A copy of the shape.
    pub fn duplicate(&self) -> (r: Data)
        ensures
            r@ == self@,
    {
        match self {
            Data::Vector => Data::Vector,
            Data::Interval { param } => Data::Interval { param: param.duplicate() },
            Data::Geom0D => Data::Geom0D,
            Data::Geom1D { param } => Data::Geom1D { param: param.duplicate() },
            Data::Geom2D { param1, param2 } => Data::Geom2D {
                param1: param1.duplicate(),
                param2: param2.duplicate(),
            },
            Data::Matrix0D => Data::Matrix0D,
            Data::Matrix1D { param } => Data::Matrix1D { param: param.duplicate() },
            Data::Prefab { chunks_count, index_count } => Data::Prefab {
                chunks_count: *chunks_count,
                index_count: *index_count,
            },
        }
    }
}

/// The data of the graph by id: what was stored last under an id is what it holds.
pub struct DataMap {
    entries: BTreeMap<DataID, Data>,
}

impl DataMap {
    /// The data stored under `id`.
    pub closed spec fn get_view(&self, id: DataID) -> Option<DataView> {
        if self.entries@.contains_key(id) {
            Some(self.entries@[id]@)
        } else {
            None
        }
    }

    /// Every stored interval is named.
    pub closed spec fn wf(&self) -> bool {
        forall|id: DataID| #[trigger] self.entries@.contains_key(id) ==> data_wf(self.entries@[id]@)
    }

    /// The empty map.
    pub fn new() -> (m: DataMap)
        ensures
            m.wf(),
            forall|id: DataID| m.get_view(id) is None,
    {
        DataMap { entries: BTreeMap::new() }
    }

    /// The data stored under `id`, if any.
    pub fn get(&self, id: DataID) -> (r: Option<&Data>)
        requires
            self.wf(),
        ensures
            match r {
                Some(d) => self.get_view(id) == Some(d@) && data_wf(d@),
                None => self.get_view(id) is None,
            },
    {
        broadcast use vstd::std_specs::btree::group_btree_axioms, vstd::laws_cmp::group_laws_cmp;

        self.entries.get(&id)
    }

    /// Stores `d` under `id`.
    pub fn insert(&mut self, id: DataID, d: Data)
        requires
            old(self).wf(),
            data_wf(d@),
        ensures
            final(self).wf(),
            final(self).get_view(id) == Some(d@),
            forall|other: DataID| other != id ==> final(self).get_view(other) == old(self).get_view(other),
    {
        broadcast use vstd::std_specs::btree::group_btree_axioms, vstd::laws_cmp::group_laws_cmp;

        self.entries.insert(id, d);
    }
}

} // verus!
