//! Processing a whole node graph: every node, in dependency order, becomes a compute
//! step and the shape of its output, or an error of its own.
use vstd::prelude::*;
use crate::node_graph::contents::{NodeID, NodeContents};
use crate::node_graph::graph::NodeGraph;
use crate::compute_graph::{DataID, ProcessingError, ProcessingErrorView, RecoverableError, UnrecoverableError};
use crate::compute_graph::data::{Data, DataView, DataMap, data_wf};
use crate::compute_graph::globals::{Globals, names_view};
use crate::compute_graph::order::{processing_order, is_processing_order, input_table, on_cycle, cycle_message};
use crate::compute_graph::steps::{
    Step, StepView, ModelInfo, Plan, plan_view, vector_plan, point_plan, curve_plan, surface_plan, bezier_plan,
    interval_plan, translation_plan, rotation_plan, matrix_plan, sample_plan, transform_plan, plane_plan,
    primitive_plan, render_plan, vector_render_plan, vector_step, point_step, curve_step, surface_step,
    bezier_step, interval_step, translation_step, rotation_step, matrix_step, sample_step, transform_step,
    plane_step, primitive_step, render_step, vector_render_step,
};

verus! {

/// The error for an attribute that does not hold what its node's kind puts there.
pub open spec fn bad_attribute() -> ProcessingErrorView {
    ProcessingErrorView::InternalError("an attribute of the node holds an unexpected kind of value"@)
}

/// A node's plan with its output stored under the output attribute `output`.
pub open spec fn with_output(output: DataID, p: Result<(Option<DataView>, StepView), ProcessingErrorView>) -> Result<
    (Option<(DataID, DataView)>, StepView),
    ProcessingErrorView,
> {
    match p {
        Ok((Some(d), s)) => Ok((Some((output, d)), s)),
        Ok((None, s)) => Ok((None, s)),
        Err(e) => Err(e),
    }
}

/// The ids that are present, in order.
pub open spec fn present(opts: Seq<Option<DataID>>) -> Seq<DataID>
    decreases opts.len(),
{
    if opts.len() == 0 {
        seq![]
    } else {
        match opts.last() {
            Some(id) => present(opts.drop_last()).push(id),
            None => present(opts.drop_last()),
        }
    }
}

/// What processing node `id` of `graph` gives, with the globals `names`, the data
/// computed so far, the models a primitive may show, and the chunk size of prefabs.
pub open spec fn node_plan(
    names: Seq<Seq<char>>,
    data: DataMap,
    graph: NodeGraph,
    id: NodeID,
    models: Seq<ModelInfo>,
    chunk_vertices: usize,
) -> Result<(Option<(DataID, DataView)>, StepView), ProcessingErrorView> {
    match graph.node_at(id as int) {
        None => Err(ProcessingErrorView::InternalError("Node not found"@)),
        Some(node) => match node.contents {
            NodeContents::Vector { x, y, z, output } => match (
                graph.attr_text(x as int),
                graph.attr_text(y as int),
                graph.attr_text(z as int),
            ) {
                (Some(a), Some(b), Some(c)) => with_output(output, vector_plan(names, a, b, c)),
                _ => Err(bad_attribute()),
            },
            NodeContents::Point { x, y, z, output } => match (
                graph.attr_text(x as int),
                graph.attr_text(y as int),
                graph.attr_text(z as int),
            ) {
                (Some(a), Some(b), Some(c)) => with_output(output, point_plan(names, a, b, c)),
                _ => Err(bad_attribute()),
            },
            NodeContents::Curve { interval, fx, fy, fz, output } => match (
                graph.attr_text(fx as int),
                graph.attr_text(fy as int),
                graph.attr_text(fz as int),
            ) {
                (Some(a), Some(b), Some(c)) => with_output(
                    output,
                    curve_plan(names, data, graph.linked_output(interval as int), a, b, c),
                ),
                _ => Err(bad_attribute()),
            },
            NodeContents::Surface { interval_1, interval_2, fx, fy, fz, output } => match (
                graph.attr_text(fx as int),
                graph.attr_text(fy as int),
                graph.attr_text(fz as int),
            ) {
                (Some(a), Some(b), Some(c)) => with_output(
                    output,
                    surface_plan(
                        names,
                        data,
                        graph.linked_output(interval_1 as int),
                        graph.linked_output(interval_2 as int),
                        a,
                        b,
                        c,
                    ),
                ),
                _ => Err(bad_attribute()),
            },
            NodeContents::Bezier { p0, p1, p2, p3, quality, output } => match graph.attr_usize(quality as int) {
                Some(q) => with_output(
                    output,
                    bezier_plan(
                        data,
                        present(
                            seq![
                                graph.linked_output(p0 as int),
                                graph.linked_output(p1 as int),
                                graph.linked_output(p2 as int),
                                graph.linked_output(p3 as int),
                            ],
                        ),
                        q,
                    ),
                ),
                None => Err(bad_attribute()),
            },
            NodeContents::Interval { variable, begin, end, quality, output } => match (
                graph.attr_text(variable as int),
                graph.attr_text(begin as int),
                graph.attr_text(end as int),
                graph.attr_usize(quality as int),
            ) {
                (Some(n), Some(b), Some(e), Some(q)) => with_output(output, interval_plan(names, n, b, e, q)),
                _ => Err(bad_attribute()),
            },
            NodeContents::TranslationMatrix { vector, output } => with_output(
                output,
                translation_plan(data, graph.linked_output(vector as int)),
            ),
            NodeContents::RotationMatrix { axis, angle, output } => match (
                graph.attr_axis(axis as int),
                graph.attr_text(angle as int),
            ) {
                (Some(ax), Some(a)) => with_output(output, rotation_plan(names, data, ax, a)),
                _ => Err(bad_attribute()),
            },
            NodeContents::Matrix { interval, row_1, row_2, row_3, output } => match (
                graph.attr_row(row_1 as int),
                graph.attr_row(row_2 as int),
                graph.attr_row(row_3 as int),
            ) {
                (Some(r1), Some(r2), Some(r3)) => with_output(
                    output,
                    matrix_plan(names, data, graph.linked_output(interval as int), r1 + r2 + r3),
                ),
                _ => Err(bad_attribute()),
            },
            NodeContents::Sample { geometry, parameter, value, output } => match (
                graph.attr_text(parameter as int),
                graph.attr_text(value as int),
            ) {
                (Some(p), Some(v)) => with_output(
                    output,
                    sample_plan(names, data, graph.linked_output(geometry as int), p, v),
                ),
                _ => Err(bad_attribute()),
            },
            NodeContents::Transform { geometry, matrix, output } => with_output(
                output,
                transform_plan(data, graph.linked_output(geometry as int), graph.linked_output(matrix as int)),
            ),
            NodeContents::Plane { center, normal, size, output } => match graph.attr_usize(size as int) {
                Some(s) => with_output(
                    output,
                    plane_plan(
                        data,
                        graph.linked_output(center as int),
                        graph.linked_output(normal as int),
                        s,
                        chunk_vertices,
                    ),
                ),
                None => Err(bad_attribute()),
            },
            NodeContents::Primitive { primitive, size, output } => match (
                graph.attr_usize(primitive as int),
                graph.attr_text(size as int),
            ) {
                (Some(p), Some(s)) => if p < models.len() {
                    with_output(output, primitive_plan(names, models, p, s))
                } else {
                    Err(ProcessingErrorView::InternalError("the primitive chosen is not among the models"@))
                },
                _ => Err(bad_attribute()),
            },
            NodeContents::Rendering { geometry, thickness, mask, material } => match (
                graph.attr_usize(thickness as int),
                graph.attr_usize(mask as int),
                graph.attr_usize(material as int),
            ) {
                (Some(t), Some(m), Some(mat)) => with_output(
                    0,
                    render_plan(data, graph.linked_output(geometry as int), t, m, mat),
                ),
                _ => Err(bad_attribute()),
            },
            NodeContents::VectorRendering { application_point, vector, thickness, material } => match (
                graph.attr_usize(thickness as int),
                graph.attr_usize(material as int),
            ) {
                (Some(t), Some(mat)) => with_output(
                    0,
                    vector_render_plan(
                        data,
                        graph.linked_output(application_point as int),
                        graph.linked_output(vector as int),
                        t,
                        mat,
                    ),
                ),
                _ => Err(bad_attribute()),
            },
            NodeContents::Group => Err(ProcessingErrorView::InternalError("a group cannot be processed"@)),
        },
    }
}

/// No two steps belong to the same node.
pub open spec fn ops_unique(ops: Seq<(NodeID, StepView)>) -> bool {
    forall|i: int, j: int| 0 <= i < j < ops.len() ==> #[trigger] ops[i].0 != #[trigger] ops[j].0
}

/// The steps after storing step `s` for node `id`: the step the node had is replaced
/// in its place, and a node without one gets it at the end.
pub open spec fn ops_with(ops: Seq<(NodeID, StepView)>, id: NodeID, s: StepView) -> Seq<(NodeID, StepView)> {
    if exists|k: int| 0 <= k < ops.len() && ops[k].0 == id {
        ops.update(op_index(ops, id), (id, s))
    } else {
        ops.push((id, s))
    }
}

/// The place of the step of node `id`, where it has one.
pub open spec fn op_index(ops: Seq<(NodeID, StepView)>, id: NodeID) -> int {
    choose|k: int| 0 <= k < ops.len() && ops[k].0 == id
}

/// Storing a step keeps the node of every earlier place, puts the step at some place,
/// adds places only for that node, and keeps the nodes distinct.
pub proof fn lemma_ops_with(ops: Seq<(NodeID, StepView)>, id: NodeID, s: StepView) -> (k: int)
    ensures
        0 <= k < ops_with(ops, id, s).len(),
        ops_with(ops, id, s)[k] == (id, s),
        ops_with(ops, id, s).len() >= ops.len(),
        forall|j: int| 0 <= j < ops.len() ==> #[trigger] ops_with(ops, id, s)[j].0 == ops[j].0,
        forall|j: int| ops.len() <= j < ops_with(ops, id, s).len() ==> #[trigger] ops_with(ops, id, s)[j].0 == id,
        ops_unique(ops) ==> ops_unique(ops_with(ops, id, s)),
{
    if exists|k: int| 0 <= k < ops.len() && ops[k].0 == id {
        op_index(ops, id)
    } else {
        ops.len() as int
    }
}

/// The compute graph: the shapes of the data computed so far, and the compute steps
/// in the order in which they run.
pub struct ComputeGraph {
    globals: Globals,
    data: DataMap,
    operations: Vec<(NodeID, Step)>,
}

/// The values of the steps, with the nodes they belong to.
pub open spec fn ops_view(v: Seq<(NodeID, Step)>) -> Seq<(NodeID, StepView)> {
    v.map_values(|p: (NodeID, Step)| (p.0, p.1@))
}

fn bad_attribute_exec() -> (e: ProcessingError)
    ensures
        e@ == bad_attribute(),
{
    ProcessingError::InternalError(String::from_str("an attribute of the node holds an unexpected kind of value"))
}

impl ComputeGraph {
    /// The globals that expressions may read.
    pub closed spec fn globals_spec(&self) -> Globals {
        self.globals
    }

    /// The globals that expressions may read.
    pub fn globals(&self) -> (r: &Globals)
        ensures
            *r == self.globals_spec(),
    {
        &self.globals
    }

    /// The data computed so far.
    pub closed spec fn data(&self) -> DataMap {
        self.data
    }

    /// The steps so far, in order.
    pub closed spec fn ops(&self) -> Seq<(NodeID, StepView)> {
        ops_view(self.operations@)
    }

    pub closed spec fn wf(&self) -> bool {
        &&& self.data.wf()
        &&& ops_unique(ops_view(self.operations@))
    }

    /// A graph with no data and no steps yet.
    pub fn new(globals: Globals) -> (g: ComputeGraph)
        ensures
            g.wf(),
            g.globals_spec() == globals,
            g.ops() == Seq::<(NodeID, StepView)>::empty(),
            forall|id: DataID| g.data().get_view(id) is None,
    {
        let g = ComputeGraph { globals, data: DataMap::new(), operations: Vec::new() };
        assert(ops_view(g.operations@) =~= Seq::<(NodeID, StepView)>::empty());
        g
    }

    /// The steps, in the order in which they run.
    pub fn operations(&self) -> (r: &Vec<(NodeID, Step)>)
        ensures
            ops_view(r@) == self.ops(),
    {
        &self.operations
    }

    /// The shape of the data stored under `id`.
    pub fn get_data(&self, id: DataID) -> (r: Option<&Data>)
        requires
            self.wf(),
        ensures
            match r {
                Some(d) => self.data().get_view(id) == Some(d@),
                None => self.data().get_view(id) is None,
            },
    {
        self.data.get(id)
    }

    fn commit(&mut self, id: NodeID, output: DataID, plan: Plan) -> (r: Result<(), ProcessingError>)
        requires
            old(self).wf(),
            plan matches Ok((Some(d), _)) ==> data_wf(d@),
        ensures
            final(self).wf(),
            final(self).globals_spec() == old(self).globals_spec(),
            match with_output(output, plan_view(plan)) {
                Ok((out, s)) => {
                    &&& r is Ok
                    &&& final(self).ops() == ops_with(old(self).ops(), id, s)
                    &&& match out {
                        Some((o, d)) => final(self).data().get_view(o) == Some(d) && forall|x: DataID|
                            x != o ==> final(self).data().get_view(x) == old(self).data().get_view(x),
                        None => forall|x: DataID| final(self).data().get_view(x) == old(self).data().get_view(x),
                    }
                },
                Err(e) => {
                    &&& r is Err
                    &&& r->Err_0@ == e
                    &&& final(self).ops() == old(self).ops()
                    &&& forall|x: DataID| final(self).data().get_view(x) == old(self).data().get_view(x)
                },
            },
    {
        match plan {
            Err(e) => Err(e),
            Ok((out, step)) => {
                let ghost before = self.operations@;
                let ghost sv = step@;
                if let Some(d) = out {
                    self.data.insert(output, d);
                }
                let mut k: usize = 0;
                while k < self.operations.len() && self.operations[k].0 != id
                    invariant
                        k <= self.operations@.len(),
                        self.operations@ == before,
                        forall|j: int| 0 <= j < k ==> (#[trigger] before[j]).0 != id,
                    decreases self.operations@.len() - k,
                {
                    k = k + 1;
                }
                let ghost ov = ops_view(before);
                if k < self.operations.len() {
                    proof {
                        assert(ov[k as int].0 == id);
                        let c = op_index(ov, id);
                        if c != k {
                            if c < k {
                                assert(ov[c].0 != ov[k as int].0);
                            } else {
                                assert(ov[k as int].0 != ov[c].0);
                            }
                        }
                    }
                    self.operations.set(k, (id, step));
                    assert(ops_view(self.operations@) =~= ops_view(before).update(k as int, (id, sv)));
                } else {
                    proof {
                        assert(!(exists|c: int| 0 <= c < ov.len() && ov[c].0 == id)) by {
                            if exists|c: int| 0 <= c < ov.len() && ov[c].0 == id {
                                let c = op_index(ov, id);
                                assert(before[c].0 != id);
                            }
                        }
                    }
                    self.operations.push((id, step));
                    assert(ops_view(self.operations@) =~= ops_view(before).push((id, sv)));
                }
                proof {
                    lemma_ops_with(ov, id, sv);
                }
                Ok(())
            },
        }
    }

    /// Processes node `graph_node_id` of `graph` by its kind's rules (`node_plan`). On
    /// success its step replaces the one the node had, in its place, or is appended
    /// when it had none (`ops_with`), and its output is stored under its output
    /// attribute; on an error nothing changes.
    #[verifier::rlimit(100)]
    #[verifier::spinoff_prover]
    pub fn process_single_node(
        &mut self,
        graph: &NodeGraph,
        graph_node_id: NodeID,
        models: &Vec<ModelInfo>,
        chunk_vertices: usize,
    ) -> (r: Result<(), ProcessingError>)
        requires
            old(self).wf(),
            graph.wf(),
            0 < chunk_vertices <= usize::MAX - 4,
        ensures
            final(self).wf(),
            final(self).globals_spec() == old(self).globals_spec(),
            match node_plan(old(self).globals_spec().names(), old(self).data(), *graph, graph_node_id, models@, chunk_vertices) {
                Ok((out, s)) => {
                    &&& r is Ok
                    &&& final(self).ops() == ops_with(old(self).ops(), graph_node_id, s)
                    &&& match out {
                        Some((o, d)) => final(self).data().get_view(o) == Some(d) && forall|x: DataID|
                            x != o ==> final(self).data().get_view(x) == old(self).data().get_view(x),
                        None => forall|x: DataID| final(self).data().get_view(x) == old(self).data().get_view(x),
                    }
                },
                Err(e) => {
                    &&& r is Err
                    &&& r->Err_0@ == e
                    &&& final(self).ops() == old(self).ops()
                    &&& forall|x: DataID| final(self).data().get_view(x) == old(self).data().get_view(x)
                },
            },
    {
        let to_process = match graph.get_node(graph_node_id) {
            Some(node) => node,
            None => {
                return Err(ProcessingError::InternalError(String::from_str("Node not found")));
            },
        };
        match to_process.contents {
            NodeContents::Vector { x, y, z, output } => {
                match (
                    graph.get_attribute_as_string(x),
                    graph.get_attribute_as_string(y),
                    graph.get_attribute_as_string(z),
                ) {
                    (Some(a), Some(b), Some(c)) => {
                        let plan = vector_step(&self.globals, a, b, c);
                        self.commit(graph_node_id, output, plan)
                    },
                    _ => Err(bad_attribute_exec()),
                }
            },
            NodeContents::Point { x, y, z, output } => {
                match (
                    graph.get_attribute_as_string(x),
                    graph.get_attribute_as_string(y),
                    graph.get_attribute_as_string(z),
                ) {
                    (Some(a), Some(b), Some(c)) => {
                        let plan = point_step(&self.globals, a, b, c);
                        self.commit(graph_node_id, output, plan)
                    },
                    _ => Err(bad_attribute_exec()),
                }
            },
            NodeContents::Curve { interval, fx, fy, fz, output } => {
                match (
                    graph.get_attribute_as_string(fx),
                    graph.get_attribute_as_string(fy),
                    graph.get_attribute_as_string(fz),
                ) {
                    (Some(a), Some(b), Some(c)) => {
                        let i = graph.get_attribute_as_linked_output(interval);
                        let plan = curve_step(&self.globals, &self.data, i, a, b, c);
                        self.commit(graph_node_id, output, plan)
                    },
                    _ => Err(bad_attribute_exec()),
                }
            },
            NodeContents::Surface { interval_1, interval_2, fx, fy, fz, output } => {
                match (
                    graph.get_attribute_as_string(fx),
                    graph.get_attribute_as_string(fy),
                    graph.get_attribute_as_string(fz),
                ) {
                    (Some(a), Some(b), Some(c)) => {
                        let i1 = graph.get_attribute_as_linked_output(interval_1);
                        let i2 = graph.get_attribute_as_linked_output(interval_2);
                        let plan = surface_step(&self.globals, &self.data, i1, i2, a, b, c);
                        self.commit(graph_node_id, output, plan)
                    },
                    _ => Err(bad_attribute_exec()),
                }
            },
            NodeContents::Bezier { p0, p1, p2, p3, quality, output } => {
                match graph.get_attribute_as_usize(quality) {
                    Some(q) => {
                        let o0 = graph.get_attribute_as_linked_output(p0);
                        let o1 = graph.get_attribute_as_linked_output(p1);
                        let o2 = graph.get_attribute_as_linked_output(p2);
                        let o3 = graph.get_attribute_as_linked_output(p3);
                        let mut points: Vec<DataID> = Vec::new();
                        if let Some(id) = o0 {
                            points.push(id);
                        }
                        assert(points@ == present(seq![o0])) by {
                            assert(seq![o0].drop_last() =~= Seq::<Option<DataID>>::empty());
                            assert(present(Seq::<Option<DataID>>::empty()) =~= Seq::<DataID>::empty());
                        }
                        if let Some(id) = o1 {
                            points.push(id);
                        }
                        assert(points@ == present(seq![o0, o1])) by {
                            assert(seq![o0, o1].drop_last() =~= seq![o0]);
                        }
                        if let Some(id) = o2 {
                            points.push(id);
                        }
                        assert(points@ == present(seq![o0, o1, o2])) by {
                            assert(seq![o0, o1, o2].drop_last() =~= seq![o0, o1]);
                        }
                        if let Some(id) = o3 {
                            points.push(id);
                        }
                        assert(points@ == present(seq![o0, o1, o2, o3])) by {
                            assert(seq![o0, o1, o2, o3].drop_last() =~= seq![o0, o1, o2]);
                        }
                        let plan = bezier_step(&self.data, points, q);
                        self.commit(graph_node_id, output, plan)
                    },
                    None => Err(bad_attribute_exec()),
                }
            },
            NodeContents::Interval { variable, begin, end, quality, output } => {
                match (
                    graph.get_attribute_as_string(variable),
                    graph.get_attribute_as_string(begin),
                    graph.get_attribute_as_string(end),
                    graph.get_attribute_as_usize(quality),
                ) {
                    (Some(n), Some(b), Some(e), Some(q)) => {
                        let plan = interval_step(&self.globals, n, b, e, q);
                        self.commit(graph_node_id, output, plan)
                    },
                    _ => Err(bad_attribute_exec()),
                }
            },
            NodeContents::TranslationMatrix { vector, output } => {
                let v = graph.get_attribute_as_linked_output(vector);
                let plan = translation_step(&self.data, v);
                self.commit(graph_node_id, output, plan)
            },
            NodeContents::RotationMatrix { axis, angle, output } => {
                match (graph.get_attribute_as_axis(axis), graph.get_attribute_as_string(angle)) {
                    (Some(ax), Some(a)) => {
                        let plan = rotation_step(&self.globals, &self.data, ax, a);
                        self.commit(graph_node_id, output, plan)
                    },
                    _ => Err(bad_attribute_exec()),
                }
            },
            NodeContents::Matrix { interval, row_1, row_2, row_3, output } => {
                match (
                    graph.get_attribute_as_matrix_row(row_1),
                    graph.get_attribute_as_matrix_row(row_2),
                    graph.get_attribute_as_matrix_row(row_3),
                ) {
                    (Some(r1), Some(r2), Some(r3)) => {
                        let entries = vec![
                            r1[0].clone(), r1[1].clone(), r1[2].clone(), r1[3].clone(),
                            r2[0].clone(), r2[1].clone(), r2[2].clone(), r2[3].clone(),
                            r3[0].clone(), r3[1].clone(), r3[2].clone(), r3[3].clone(),
                        ];
                        assert(names_view(entries@) =~= graph.attr_row(row_1 as int)->0 + graph.attr_row(row_2 as int)->0
                            + graph.attr_row(row_3 as int)->0);
                        let i = graph.get_attribute_as_linked_output(interval);
                        let plan = matrix_step(&self.globals, &self.data, i, entries);
                        self.commit(graph_node_id, output, plan)
                    },
                    _ => Err(bad_attribute_exec()),
                }
            },
            NodeContents::Sample { geometry, parameter, value, output } => {
                match (graph.get_attribute_as_string(parameter), graph.get_attribute_as_string(value)) {
                    (Some(p), Some(v)) => {
                        let g = graph.get_attribute_as_linked_output(geometry);
                        let plan = sample_step(&self.globals, &self.data, g, p, v);
                        self.commit(graph_node_id, output, plan)
                    },
                    _ => Err(bad_attribute_exec()),
                }
            },
            NodeContents::Transform { geometry, matrix, output } => {
                let g = graph.get_attribute_as_linked_output(geometry);
                let m = graph.get_attribute_as_linked_output(matrix);
                let plan = transform_step(&self.data, g, m);
                self.commit(graph_node_id, output, plan)
            },
            NodeContents::Plane { center, normal, size, output } => {
                match graph.get_attribute_as_usize(size) {
                    Some(s) => {
                        let c = graph.get_attribute_as_linked_output(center);
                        let n = graph.get_attribute_as_linked_output(normal);
                        let plan = plane_step(&self.data, c, n, s, chunk_vertices);
                        self.commit(graph_node_id, output, plan)
                    },
                    None => Err(bad_attribute_exec()),
                }
            },
            NodeContents::Primitive { primitive, size, output } => {
                match (graph.get_attribute_as_usize(primitive), graph.get_attribute_as_string(size)) {
                    (Some(p), Some(s)) => {
                        if p < models.len() {
                            let plan = primitive_step(&self.globals, models, p, s);
                            self.commit(graph_node_id, output, plan)
                        } else {
                            Err(ProcessingError::InternalError(String::from_str("the primitive chosen is not among the models")))
                        }
                    },
                    _ => Err(bad_attribute_exec()),
                }
            },
            NodeContents::Rendering { geometry, thickness, mask, material } => {
                match (
                    graph.get_attribute_as_usize(thickness),
                    graph.get_attribute_as_usize(mask),
                    graph.get_attribute_as_usize(material),
                ) {
                    (Some(t), Some(m), Some(mat)) => {
                        let g = graph.get_attribute_as_linked_output(geometry);
                        let plan = render_step(&self.data, g, t, m, mat);
                        self.commit(graph_node_id, 0, plan)
                    },
                    _ => Err(bad_attribute_exec()),
                }
            },
            NodeContents::VectorRendering { application_point, vector, thickness, material } => {
                match (graph.get_attribute_as_usize(thickness), graph.get_attribute_as_usize(material)) {
                    (Some(t), Some(mat)) => {
                        let a = graph.get_attribute_as_linked_output(application_point);
                        let v = graph.get_attribute_as_linked_output(vector);
                        let plan = vector_render_step(&self.data, a, v, t, mat);
                        self.commit(graph_node_id, 0, plan)
                    },
                    _ => Err(bad_attribute_exec()),
                }
            },
            NodeContents::Group => Err(ProcessingError::InternalError(String::from_str("a group cannot be processed"))),
        }
    }
}

/// What processing the nodes has built up at some point: the data by id, the steps
/// in order, and the errors in order, each with its node.
pub ghost struct RunState {
    pub data: DataMap,
    pub ops: Seq<(NodeID, StepView)>,
    pub errors: Seq<(NodeID, ProcessingErrorView)>,
}

/// The values of the errors, with the nodes they belong to.
pub open spec fn errors_view(v: Seq<RecoverableError>) -> Seq<(NodeID, ProcessingErrorView)> {
    v.map_values(|e: RecoverableError| (e.node_id, e.error@))
}

/// `after` holds the data of `before`, with `out`, if any, stored.
pub open spec fn data_stored(before: DataMap, after: DataMap, out: Option<(DataID, DataView)>) -> bool {
    match out {
        Some((o, d)) => after.get_view(o) == Some(d) && forall|x: DataID|
            x != o ==> after.get_view(x) == before.get_view(x),
        None => forall|x: DataID| after.get_view(x) == before.get_view(x),
    }
}

/// Processing node `id` turns `before` into `after`: by `node_plan`, its step is
/// appended and its output stored, or its error is recorded and nothing else changes.
pub open spec fn processed(
    names: Seq<Seq<char>>,
    graph: NodeGraph,
    models: Seq<ModelInfo>,
    chunk_vertices: usize,
    id: NodeID,
    before: RunState,
    after: RunState,
) -> bool {
    match node_plan(names, before.data, graph, id, models, chunk_vertices) {
        Ok((out, s)) => {
            &&& after.ops == ops_with(before.ops, id, s)
            &&& after.errors == before.errors
            &&& data_stored(before.data, after.data, out)
        },
        Err(e) => {
            &&& after.ops == before.ops
            &&& after.errors == before.errors.push((id, e))
            &&& data_stored(before.data, after.data, None)
        },
    }
}

/// `states` is the run that processes the nodes of `order` one after the other,
/// starting with no data, no steps and no errors.
pub open spec fn is_run(
    names: Seq<Seq<char>>,
    graph: NodeGraph,
    models: Seq<ModelInfo>,
    chunk_vertices: usize,
    order: Seq<NodeID>,
    states: Seq<RunState>,
) -> bool {
    &&& states.len() == order.len() + 1
    &&& forall|x: DataID| states[0].data.get_view(x) is None
    &&& states[0].ops.len() == 0
    &&& states[0].errors.len() == 0
    &&& forall|k: int|
        0 <= k < order.len() ==> #[trigger] processed(
            names,
            graph,
            models,
            chunk_vertices,
            order[k],
            states[k],
            states[k + 1],
        )
}

/// Processes every node of `graph`, each after the nodes it reads from, with the
/// global variables `globals_names`. A cycle in the links stops everything; an error
/// on a node is kept with that node and the others go on. The steps, errors and data
/// are those of the run (`is_run`) over a processing order of the graph (which one
/// is left open); so every live node ends up either with a step or with an error,
/// and nothing else gets either.
pub fn create_compute_graph(
    graph: &NodeGraph,
    globals_names: &Vec<String>,
    models: &Vec<ModelInfo>,
    chunk_vertices: usize,
) -> (r: Result<(ComputeGraph, Vec<RecoverableError>), UnrecoverableError>)
    requires
        graph.wf(),
        0 < chunk_vertices <= usize::MAX - 4,
    ensures
        r matches Err(e) ==> e.error@ == cycle_message() && on_cycle(e.node_id, input_table(*graph)),
        r matches Ok((cg, errors)) ==> {
            &&& cg.wf()
            &&& cg.globals_spec().names() == names_view(globals_names@)
            &&& exists|order: Seq<NodeID>, states: Seq<RunState>|
                #[trigger] is_run(names_view(globals_names@), *graph, models@, chunk_vertices, order, states)
                    && is_processing_order(*graph, order) && states.last().ops == cg.ops()
                    && states.last().errors == errors_view(errors@) && forall|x: DataID|
                    states.last().data.get_view(x) == cg.data().get_view(x)
            &&& forall|k: int| 0 <= k < errors@.len() ==> graph.node_at(#[trigger] errors@[k].node_id as int) is Some
            &&& forall|k: int| 0 <= k < cg.ops().len() ==> graph.node_at(#[trigger] cg.ops()[k].0 as int) is Some
            &&& forall|id: NodeID|
                #[trigger] graph.node_at(id as int) is Some ==> (exists|k: int|
                    0 <= k < cg.ops().len() && cg.ops()[k].0 == id) || (exists|k: int|
                    0 <= k < errors@.len() && errors@[k].node_id == id)
        },
{
    let sorted_ids = match processing_order(graph) {
        Err(e) => {
            return Err(e);
        },
        Ok(order) => order,
    };
    let globals = Globals::new(globals_names);
    let mut compute_graph = ComputeGraph::new(globals);
    let mut recoverable_errors: Vec<RecoverableError> = Vec::new();
    let ghost names = names_view(globals_names@);
    let ghost mut states: Seq<RunState> = seq![
        RunState { data: compute_graph.data(), ops: compute_graph.ops(), errors: errors_view(recoverable_errors@) },
    ];
    let mut i: usize = 0;
    proof {
        assert(errors_view(recoverable_errors@) =~= Seq::<(NodeID, ProcessingErrorView)>::empty());
        assert(sorted_ids@.take(0) =~= Seq::<NodeID>::empty());
    }
    while i < sorted_ids.len()
        invariant
            graph.wf(),
            names == names_view(globals_names@),
            is_run(names, *graph, models@, chunk_vertices, sorted_ids@.take(i as int), states),
            states.last().data == compute_graph.data(),
            states.last().ops == compute_graph.ops(),
            states.last().errors == errors_view(recoverable_errors@),
            0 < chunk_vertices <= usize::MAX - 4,
            i <= sorted_ids@.len(),
            compute_graph.wf(),
            compute_graph.globals_spec().names() == names_view(globals_names@),
            forall|id: NodeID| #[trigger] sorted_ids@.contains(id) <==> graph.node_at(id as int) is Some,
            forall|k: int|
                0 <= k < recoverable_errors@.len() ==> graph.node_at(#[trigger] recoverable_errors@[k].node_id as int) is Some,
            forall|k: int| 0 <= k < compute_graph.ops().len() ==> graph.node_at(#[trigger] compute_graph.ops()[k].0 as int) is Some,
            forall|j: int|
                0 <= j < i ==> (exists|k: int|
                    0 <= k < compute_graph.ops().len() && compute_graph.ops()[k].0 == #[trigger] sorted_ids@[j]) || (exists|k: int|
                    0 <= k < recoverable_errors@.len() && recoverable_errors@[k].node_id == sorted_ids@[j]),
        decreases sorted_ids@.len() - i,
    {
        let id = sorted_ids[i];
        assert(sorted_ids@.contains(id));
        let ghost ops0 = compute_graph.ops();
        let ghost errs0 = recoverable_errors@;
        let ghost data0 = compute_graph.data();
        let node_result = compute_graph.process_single_node(graph, id, models, chunk_vertices);
        proof {
            match node_plan(names, data0, *graph, id, models@, chunk_vertices) {
                Ok((_out, sv)) => {
                    let kk = lemma_ops_with(ops0, id, sv);
                    assert(compute_graph.ops()[kk].0 == id);
                    assert(node_result is Ok);
                },
                Err(_) => {
                    assert(compute_graph.ops() == ops0);
                },
            }
        }
        assert(forall|k: int| 0 <= k < ops0.len() ==> #[trigger] compute_graph.ops()[k].0 == ops0[k].0);
        assert(compute_graph.ops().len() >= ops0.len());
        assert(node_result is Ok ==> exists|kk: int| 0 <= kk < compute_graph.ops().len() && compute_graph.ops()[kk].0 == id);
        if let Err(error) = node_result {
            recoverable_errors.push(RecoverableError { node_id: id, error });
            assert(errors_view(recoverable_errors@) =~= errors_view(errs0).push((id, recoverable_errors@.last().error@)));
        }
        proof {
            let ghost before = states;
            let st = RunState {
                data: compute_graph.data(),
                ops: compute_graph.ops(),
                errors: errors_view(recoverable_errors@),
            };
            assert(processed(names, *graph, models@, chunk_vertices, id, before.last(), st));
            states = before.push(st);
            let order = sorted_ids@.take(i + 1);
            assert(order =~= sorted_ids@.take(i as int).push(id));
            assert forall|k: int| 0 <= k < order.len() implies #[trigger] processed(
                names,
                *graph,
                models@,
                chunk_vertices,
                order[k],
                states[k],
                states[k + 1],
            ) by {
                if k < i {
                    assert(order[k] == sorted_ids@.take(i as int)[k]);
                    assert(states[k] == before[k] && states[k + 1] == before[k + 1]);
                } else {
                    assert(states[k] == before.last() && states[k + 1] == st);
                }
            }
        }
        assert forall|j: int|
            0 <= j < i + 1 implies (exists|k: int|
                0 <= k < compute_graph.ops().len() && compute_graph.ops()[k].0 == #[trigger] sorted_ids@[j]) || (exists|k: int|
                0 <= k < recoverable_errors@.len() && recoverable_errors@[k].node_id == sorted_ids@[j]) by {
            if j < i {
                if exists|k: int| 0 <= k < ops0.len() && ops0[k].0 == sorted_ids@[j] {
                    let k = choose|k: int| 0 <= k < ops0.len() && ops0[k].0 == sorted_ids@[j];
                    assert(compute_graph.ops()[k].0 == ops0[k].0);
                } else {
                    let k = choose|k: int| 0 <= k < errs0.len() && errs0[k].node_id == sorted_ids@[j];
                    assert(recoverable_errors@[k] == errs0[k]);
                }
            } else {
                if node_result is Ok {
                    let kk = choose|kk: int| 0 <= kk < compute_graph.ops().len() && compute_graph.ops()[kk].0 == id;
                    assert(compute_graph.ops()[kk].0 == sorted_ids@[j]);
                } else {
                    assert(recoverable_errors@[errs0.len() as int].node_id == id);
                }
            }
        }
        i = i + 1;
    }
    assert forall|id: NodeID|
        #[trigger] graph.node_at(id as int) is Some implies (exists|k: int|
            0 <= k < compute_graph.ops().len() && compute_graph.ops()[k].0 == id) || (exists|k: int|
            0 <= k < recoverable_errors@.len() && recoverable_errors@[k].node_id == id) by {
        assert(sorted_ids@.contains(id));
        let j = choose|j: int| 0 <= j < sorted_ids@.len() && sorted_ids@[j] == id;
        assert(sorted_ids@[j] == id);
    }
    assert(sorted_ids@.take(sorted_ids@.len() as int) =~= sorted_ids@);
    assert(is_run(names, *graph, models@, chunk_vertices, sorted_ids@, states));
    Ok((compute_graph, recoverable_errors))
}

} // verus!
