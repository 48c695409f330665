use franzplot::compute_graph::globals::Globals;
use franzplot::compute_graph::order::processing_order;
use franzplot::compute_graph::process::{create_compute_graph, ComputeGraph};
use franzplot::compute_graph::steps::{ModelInfo, Step};
use franzplot::compute_graph::{Parameter, ProcessingError};
use franzplot::node_graph::contents::{AttributeContents, DataKind, NodeContents, SliderMode};
use franzplot::node_graph::graph::NodeGraph;

fn param(name: Option<&str>, segments: u32, begin: &str, end: &str) -> Parameter {
    Parameter {
        name: name.map(|n| n.to_string()),
        segments,
        begin: begin.to_string(),
        end: end.to_string(),
        use_interval_as_uv: false,
    }
}

fn text(label: &str, s: &str) -> AttributeContents {
    AttributeContents::Text { label: label.to_string(), string: s.to_string() }
}

fn input(kind: DataKind) -> AttributeContents {
    AttributeContents::InputPin { label: "in".to_string(), kind }
}

fn output(kind: DataKind) -> AttributeContents {
    AttributeContents::OutputPin { label: "out".to_string(), kind }
}

fn add_interval(graph: &mut NodeGraph, name: &str, begin: &str, end: &str, quality: i32) -> i32 {
    graph.insert_node(
        "Interval".to_string(),
        [0, 0],
        NodeContents::Interval { variable: 0, begin: 1, end: 2, quality: 3, output: 4 },
        vec![
            text("name", name),
            text("begin", begin),
            text("end", end),
            AttributeContents::IntSlider { label: "quality".to_string(), value: quality, mode: SliderMode::IntRange(1, 16) },
            output(DataKind::Interval),
        ],
    )
}

fn add_curve(graph: &mut NodeGraph, fx: &str, fy: &str, fz: &str) -> i32 {
    graph.insert_node(
        "Curve".to_string(),
        [0, 0],
        NodeContents::Curve { interval: 0, fx: 1, fy: 2, fz: 3, output: 4 },
        vec![input(DataKind::Interval), text("fx", fx), text("fy", fy), text("fz", fz), output(DataKind::Geometry)],
    )
}

fn add_transform(graph: &mut NodeGraph) -> i32 {
    graph.insert_node(
        "Transform".to_string(),
        [0, 0],
        NodeContents::Transform { geometry: 0, matrix: 1, output: 2 },
        vec![input(DataKind::Geometry), input(DataKind::Matrix), output(DataKind::Geometry)],
    )
}

#[test]
fn parameter_points_and_comparison() {
    let a = param(Some("t"), 4, "0", "1");
    assert_eq!(a.n_points(), 64);
    assert!(matches!(a.is_equal(&param(Some("t"), 4, "0", "1")), Ok(true)));
    assert!(matches!(a.is_equal(&param(Some("s"), 2, "0", "1")), Ok(false)));
    assert!(matches!(a.is_equal(&param(None, 4, "0", "1")), Ok(false)));
    assert!(matches!(
        a.is_equal(&param(Some("t"), 5, "0", "1")),
        Err(ProcessingError::IncorrectAttributes("The input intervals \n have the same name \n but different 'quality' "))
    ));
    assert!(matches!(
        a.is_equal(&param(Some("t"), 4, "1", "1")),
        Err(ProcessingError::IncorrectAttributes("The input intervals \n have the same name \n but different 'begin' "))
    ));
    assert!(matches!(
        a.is_equal(&param(Some("t"), 4, "0", "2")),
        Err(ProcessingError::IncorrectAttributes(" The input intervals \n have the same name \n but different 'end' "))
    ));
}

#[test]
fn globals_headers_declare_constants_then_variables() {
    let g = Globals::new(&vec!["a".to_string(), "speed".to_string()]);
    assert_eq!(
        g.get_wgsl_header(),
        "[[block]] struct Globals {\n\tpi: f32;\n\tzero: f32;\n\ta: f32;\n\tspeed: f32;\n};\n[[group(0), binding(0)]] var<uniform> globals: Globals;\n"
    );
    assert_eq!(
        g.shader_header,
        "layout(set = 1, binding = 0) uniform Uniforms {\n\tfloat pi;\n\tfloat zero;\n\tfloat a;\n\tfloat speed;\n};\n"
    );
    assert_eq!(g.clone_names(), vec!["a".to_string(), "speed".to_string()]);
}

#[test]
fn variable_names_are_checked() {
    assert_eq!(Globals::sanitize_variable_name(" t ").unwrap(), "t");
    let msg = |r: Result<String, ProcessingError>| match r {
        Err(ProcessingError::IncorrectExpression(m)) => m,
        _ => panic!("expected an incorrect expression"),
    };
    assert_eq!(msg(Globals::sanitize_variable_name("pi")), "cannot use a mathematical constant as a variable name");
    assert_eq!(msg(Globals::sanitize_variable_name("a+b")), "cannot use an expression as variable name");
    assert_eq!(msg(Globals::sanitize_variable_name("a$")), "invalid variable name");
}

#[test]
fn expressions_are_checked_against_known_names() {
    let g = Globals::new(&vec!["a".to_string()]);
    assert_eq!(g.sanitize_expression(&["t"], "a * t + pi").unwrap(), "((a * t) + pi)");
    match g.sanitize_expression(&["t"], "a * q") {
        Err(ProcessingError::IncorrectExpression(m)) => assert_eq!(m, "Unknown variable or parameter used: 'q'"),
        _ => panic!("expected an unknown variable"),
    }
    match g.sanitize_expression(&[], "2x") {
        Err(ProcessingError::IncorrectExpression(m)) => assert_eq!(m, "Please avoid using implicit products: `2x`"),
        _ => panic!("expected a parse error"),
    }
}

#[test]
fn interval_and_curve_are_processed_in_order() {
    let mut graph = NodeGraph::default();
    let curve = add_curve(&mut graph, "t", "0", "2*t");
    let interval = add_interval(&mut graph, "t", "0", "1", 4);
    let interval_out = match graph.get_node(interval).unwrap().contents {
        NodeContents::Interval { output, .. } => output,
        _ => unreachable!(),
    };
    let curve_in = match graph.get_node(curve).unwrap().contents {
        NodeContents::Curve { interval, .. } => interval,
        _ => unreachable!(),
    };
    assert!(graph.create_link(curve_in, interval_out).is_some());
    let order = processing_order(&graph).unwrap();
    assert_eq!(order, vec![interval, curve]);
    let (cg, errors) = create_compute_graph(&graph, &vec![], &vec![], 64).unwrap();
    assert!(errors.is_empty());
    let ops = cg.operations();
    assert_eq!(ops.len(), 2);
    assert_eq!(ops[0].0, interval);
    assert_eq!(ops[1].0, curve);
    match &ops[1].1 {
        Step::Curve { interval: id, param, exprs } => {
            assert_eq!(*id, interval_out);
            assert_eq!(param.name.as_deref(), Some("t"));
            assert_eq!(param.segments, 4);
            assert_eq!(exprs, &vec!["t".to_string(), "0".to_string(), "(2 * t)".to_string()]);
        }
        other => panic!("unexpected step {:?}", other),
    }
}

#[test]
fn node_errors_are_recovered() {
    let mut graph = NodeGraph::default();
    let curve = add_curve(&mut graph, "t", "0", "0");
    let interval = add_interval(&mut graph, "", "0", "1", 4);
    let (cg, errors) = create_compute_graph(&graph, &vec![], &vec![], 64).unwrap();
    assert!(cg.operations().is_empty());
    assert_eq!(errors.len(), 2);
    for e in errors.iter() {
        if e.node_id == curve {
            assert!(matches!(e.error, ProcessingError::InputMissing(" This Curve node \n is missing its input ")));
        } else {
            assert_eq!(e.node_id, interval);
            assert!(matches!(
                e.error,
                ProcessingError::IncorrectAttributes(" please provide a name \n for the interval's variable ")
            ));
        }
    }
}

#[test]
fn interval_quality_is_checked() {
    let mut graph = NodeGraph::default();
    add_interval(&mut graph, "t", "0", "1", 17);
    let (_cg, errors) = create_compute_graph(&graph, &vec![], &vec![ModelInfo { chunks_count: 1, index_count: 3 }], 64).unwrap();
    assert_eq!(errors.len(), 1);
    assert!(matches!(
        errors[0].error,
        ProcessingError::IncorrectAttributes("Interval quality attribute must be an integer in the [1, 16] range")
    ));
}

#[test]
fn cycles_are_unrecoverable() {
    let mut graph = NodeGraph::default();
    let t1 = add_transform(&mut graph);
    let t2 = add_transform(&mut graph);
    let (g1, o1) = match graph.get_node(t1).unwrap().contents {
        NodeContents::Transform { geometry, output, .. } => (geometry, output),
        _ => unreachable!(),
    };
    let (g2, o2) = match graph.get_node(t2).unwrap().contents {
        NodeContents::Transform { geometry, output, .. } => (geometry, output),
        _ => unreachable!(),
    };
    assert!(graph.create_link(g1, o2).is_some());
    assert!(graph.create_link(g2, o1).is_some());
    let e = processing_order(&graph).unwrap_err();
    assert!(e.node_id == t1 || e.node_id == t2);
    assert_eq!(e.error, " cycle detected \n at this node ");
    assert!(create_compute_graph(&graph, &vec![], &vec![], 64).is_err());
}

#[test]
fn processing_a_node_again_replaces_its_step() {
    let mut graph = NodeGraph::default();
    let first = add_interval(&mut graph, "t", "0", "1", 4);
    let second = add_interval(&mut graph, "s", "0", "2", 4);
    let mut cg = ComputeGraph::new(Globals::new(&vec![]));
    assert!(cg.process_single_node(&graph, first, &vec![], 64).is_ok());
    assert!(cg.process_single_node(&graph, second, &vec![], 64).is_ok());
    assert!(cg.process_single_node(&graph, first, &vec![], 64).is_ok());
    let ids: Vec<i32> = cg.operations().iter().map(|(id, _)| *id).collect();
    assert_eq!(ids, vec![first, second]);
}
