use franzplot::compute_block::{
    sanitize_block_expression, BlockCreationError, BlockDescriptor, Dimensions, MatrixBlockDescriptor,
    Parameter, SurfaceRendererBlockDescriptor, transform_dimensions, TransformKind,
};
use franzplot::node_graph::contents::{AttributeContents, Axis, DataKind, NodeContents};
use franzplot::node_graph::graph::NodeGraph;

fn p(name: &str, size: usize) -> Parameter {
    Parameter { name: Some(name.to_string()), size, begin: "0".to_string(), end: "1".to_string(), use_interval_as_uv: false }
}

#[test]
fn dimensions_accessors() {
    assert!(Dimensions::D0.as_0d().is_ok());
    assert_eq!(Dimensions::D1(p("t", 4)).as_1d().unwrap().size, 4);
    match Dimensions::D0.as_1d() {
        Err(BlockCreationError::InternalError(m)) => assert_eq!(m, "Dimensions mismatch: called `as_1d()` on a 0D object"),
        _ => panic!("expected a mismatch"),
    }
    let (a, b) = Dimensions::D2(p("u", 2), p("v", 3)).as_2d().unwrap();
    assert_eq!((a.size, b.size), (2, 3));
    assert_eq!(Dimensions::D3(12, 7).as_3d().unwrap(), (12, 7));
    assert_eq!(Dimensions::D2(p("u", 2), p("v", 3)).element_count(), 6);
}

#[test]
fn surface_renderer_inputs() {
    assert_eq!(SurfaceRendererBlockDescriptor { surface: Some(3) }.get_input_ids(), vec![3]);
    assert!(SurfaceRendererBlockDescriptor { surface: None }.get_input_ids().is_empty());
}

#[test]
fn block_expressions_are_trimmed_and_checked() {
    assert_eq!(sanitize_block_expression("  a + b \t").unwrap(), "a + b");
    assert!(sanitize_block_expression("a^2").is_none());
    assert!(sanitize_block_expression("a = 1").is_none());
    assert!(sanitize_block_expression("x;").is_none());
    assert_eq!(sanitize_block_expression("   ").unwrap(), "");
}

#[test]
fn rotation_and_translation_matrices() {
    let m = MatrixBlockDescriptor::new_from_rotation(Axis::Z, " t ".to_string()).unwrap();
    assert_eq!(m.row_1, ["cos(t)".to_string(), "-sin(t)".to_string(), "0.0".to_string(), "0.0".to_string()]);
    assert_eq!(m.row_2, ["sin(t)".to_string(), "cos(t)".to_string(), "0.0".to_string(), "0.0".to_string()]);
    assert_eq!(m.row_3, ["0.0".to_string(), "0.0".to_string(), "1.0".to_string(), "0.0".to_string()]);
    let t = MatrixBlockDescriptor::new_from_translation("1".to_string(), "2".to_string(), "3".to_string()).unwrap();
    assert_eq!(t.row_1[3], "1");
    assert_eq!(t.row_3[3], "3");
    assert!(matches!(
        MatrixBlockDescriptor::new_from_translation("1".to_string(), "a^b".to_string(), "3".to_string()),
        Err(BlockCreationError::IncorrectAttributes(" the y field \n contains invalid symbols "))
    ));
    assert!(matches!(
        MatrixBlockDescriptor::new_from_rotation(Axis::X, "x;".to_string()),
        Err(BlockCreationError::IncorrectAttributes(" the angle field \n contains invalid symbols "))
    ));
}

#[test]
fn descriptor_from_vector_node() {
    let mut graph = NodeGraph::default();
    let id = graph.insert_node(
        "Vector".to_string(),
        [0, 0],
        NodeContents::Vector { x: 0, y: 1, z: 2, output: 3 },
        vec![
            AttributeContents::Text { label: "x".to_string(), string: "1".to_string() },
            AttributeContents::Text { label: "y".to_string(), string: "2".to_string() },
            AttributeContents::Text { label: "z".to_string(), string: "3".to_string() },
            AttributeContents::OutputPin { label: "vector".to_string(), kind: DataKind::Vector },
        ],
    );
    let node = graph.get_node(id).unwrap();
    match BlockDescriptor::from_node(node, &graph).unwrap() {
        BlockDescriptor::Vector(v) => assert_eq!((v.vx.as_str(), v.vy.as_str(), v.vz.as_str()), ("1", "2", "3")),
        _ => panic!("expected a vector descriptor"),
    }
}

#[test]
fn transform_of_curve_by_matrix_on_the_same_interval() {
    let (dims, kind, groups) =
        transform_dimensions(&Dimensions::D1(p("t", 64)), &Dimensions::D1(p("t", 64)), 64).unwrap();
    assert_eq!(kind, TransformKind::Transform1dMulti);
    assert_eq!(groups, (4, 1));
    assert_eq!(dims.as_1d().unwrap().size, 64);
}

#[test]
fn transform_of_curve_by_matrix_on_another_interval() {
    let (dims, kind, groups) =
        transform_dimensions(&Dimensions::D1(p("t", 32)), &Dimensions::D1(p("s", 48)), 64).unwrap();
    assert_eq!(kind, TransformKind::Transform1dUp2);
    assert_eq!(groups, (2, 3));
    let (a, b) = dims.as_2d().unwrap();
    assert_eq!((a.size, b.size), (32, 48));
}

#[test]
fn transform_of_surface_by_matrix_on_a_third_interval() {
    match transform_dimensions(&Dimensions::D2(p("u", 16), p("v", 16)), &Dimensions::D1(p("w", 16)), 64) {
        Err(BlockCreationError::InputInvalid(m)) => {
            assert_eq!(m, " this operation would create \n an object with three parameters, \n which is not supported ")
        },
        _ => panic!("expected an invalid input"),
    }
    let (_, kind, _) =
        transform_dimensions(&Dimensions::D2(p("u", 16), p("v", 16)), &Dimensions::D1(p("v", 16)), 64).unwrap();
    assert_eq!(kind, TransformKind::Transform2dSameParam(2));
}

#[test]
fn transform_of_primitive_counts_chunks() {
    let (dims, kind, groups) = transform_dimensions(&Dimensions::D3(640, 2), &Dimensions::D0, 64).unwrap();
    assert_eq!(kind, TransformKind::Transform3d3d);
    assert_eq!(groups, (10, 1));
    assert_eq!(dims.as_3d().unwrap(), (640, 2));
    assert!(matches!(
        transform_dimensions(&Dimensions::D3(640, 2), &Dimensions::D1(p("t", 16)), 64),
        Err(BlockCreationError::InternalError(_))
    ));
    let same_name_other_size = transform_dimensions(&Dimensions::D1(p("t", 16)), &Dimensions::D1(p("t", 32)), 64);
    assert!(matches!(same_name_other_size, Err(BlockCreationError::IncorrectAttributes(_))));
}
