use franzplot::node_graph::contents::{size_label_index, AttributeContents, DataKind};
use franzplot::node_graph::editor::{node_menu_selection, EditorAction, GraphStatus, NodeTemplate, PinResponse};
use franzplot::node_graph::graph::{GraphError, NodeGraph, Severity};

#[test]
fn pin_shapes_by_kind() {
    assert_eq!(DataKind::Interval.to_pin_shape(), 5);
    assert_eq!(DataKind::Geometry.to_pin_shape(), 1);
    assert_eq!(DataKind::Vector.to_pin_shape(), 3);
    assert_eq!(DataKind::Matrix.to_pin_shape(), 4);
}

#[test]
fn zoom_levels_stop_at_the_ends() {
    let mut graph = NodeGraph::default();
    assert!(!graph.zoom_up_graph());
    for _ in 0..5 {
        assert!(graph.zoom_down_graph());
    }
    assert_eq!(graph.zoom_level, 5);
    assert!(!graph.zoom_down_graph());
    assert!(graph.zoom_up_graph());
    assert_eq!(graph.zoom_level, 4);
}

fn interval_output(graph: &NodeGraph, id: i32) -> i32 {
    match graph.get_node(id).unwrap().contents() {
        franzplot::node_graph::contents::NodeContents::Interval { output, .. } => *output,
        _ => panic!("expected an interval node"),
    }
}

fn curve_interval(graph: &NodeGraph, id: i32) -> i32 {
    match graph.get_node(id).unwrap().contents() {
        franzplot::node_graph::contents::NodeContents::Curve { interval, .. } => *interval,
        _ => panic!("expected a curve node"),
    }
}

fn link_of(graph: &NodeGraph, input: i32) -> Option<i32> {
    graph.get_links().into_iter().find(|(i, _)| *i == input).map(|(_, o)| o)
}

#[test]
fn duplicated_nodes_keep_their_links_among_themselves() {
    let mut graph = NodeGraph::default();
    let interval = graph.add_interval_node([0, 0]);
    let curve = graph.add_curve_node([0, 0]);
    let out = interval_output(&graph, interval);
    let inp = curve_interval(&graph, curve);
    assert_eq!(graph.create_link(out, inp), Some((inp, out)));

    let (copies, pairs) = graph.duplicate_nodes(&vec![interval, curve], &vec![[1, 1], [2, 2]]);
    let interval_copy = copies[0].unwrap();
    let curve_copy = copies[1].unwrap();
    assert_ne!(interval_copy, interval);
    assert_ne!(curve_copy, curve);
    assert_eq!(graph.get_node(curve_copy).unwrap().position, [2, 2]);
    assert_eq!(graph.get_node(interval_copy).unwrap().title, graph.get_node(interval).unwrap().title);
    let copied_out = interval_output(&graph, interval_copy);
    let copied_inp = curve_interval(&graph, curve_copy);
    assert!(pairs.contains(&(out, copied_out)));
    assert!(pairs.contains(&(inp, copied_inp)));
    assert_eq!(link_of(&graph, copied_inp), Some(copied_out));
    assert_eq!(link_of(&graph, inp), Some(out));
}

#[test]
fn duplicated_node_links_to_the_original_source() {
    let mut graph = NodeGraph::default();
    let interval = graph.add_interval_node([0, 0]);
    let curve = graph.add_curve_node([0, 0]);
    let out = interval_output(&graph, interval);
    let inp = curve_interval(&graph, curve);
    graph.create_link(inp, out);

    let (copies, _) = graph.duplicate_nodes(&vec![curve, 1000], &vec![[5, 5], [6, 6]]);
    assert!(copies[1].is_none());
    let curve_copy = copies[0].unwrap();
    assert_eq!(link_of(&graph, curve_interval(&graph, curve_copy)), Some(out));
    assert_eq!(graph.get_links().len(), 2);
}

#[test]
fn size_labels_hold_to_the_last() {
    assert_eq!(size_label_index(3), 3);
    assert_eq!(size_label_index(8), 8);
    assert_eq!(size_label_index(40), 8);
    assert_eq!(size_label_index(-2), 8);
}

#[test]
fn mask_choice_is_held_in_range_then_picked() {
    let mut mask = AttributeContents::Mask { selected: 7 };
    assert!(mask.update_selection(4, None));
    assert!(matches!(mask, AttributeContents::Mask { selected: 3 }));
    assert!(!mask.update_selection(4, Some(3)));
    assert!(mask.update_selection(4, Some(1)));
    assert!(matches!(mask, AttributeContents::Mask { selected: 1 }));
    let mut material = AttributeContents::Material { selected: 9 };
    assert!(material.update_selection(2, Some(9)));
    assert!(matches!(material, AttributeContents::Material { selected: 9 }));
    let mut text = AttributeContents::Text { label: "x".to_string(), string: "1".to_string() };
    assert!(!text.update_selection(2, Some(0)));
}

#[test]
fn dragging_a_pin_onto_another_requests_a_link() {
    let idle = PinResponse { hovered: false, dragged: false, drag_started: false, drag_released: false };
    let mut graph = NodeGraph::default();
    let interval = graph.add_interval_node([0, 0]);
    let curve = graph.add_curve_node([0, 0]);
    let out = interval_output(&graph, interval);
    let inp = curve_interval(&graph, curve);

    let mut status = GraphStatus::new(2);
    status.begin_frame();
    status.add_pin(out, PinResponse { dragged: true, drag_started: true, ..idle });
    status.add_pin(inp, PinResponse { hovered: true, ..idle });
    status.end_pins();
    assert_eq!(status.dragged_pin, Some(out));
    assert_eq!(status.new_link, None);

    status.begin_frame();
    status.add_pin(out, PinResponse { drag_released: true, ..idle });
    status.end_pins();
    assert_eq!(status.dragged_pin, None);
    assert_eq!(status.new_link, Some((out, inp)));
    assert_eq!(status.link_to_insert(&graph), Some((inp, out)));
}

#[test]
fn editor_zoom_steps_stop_at_the_ends() {
    let mut status = GraphStatus::new(0);
    assert!(!status.decrement_zoom());
    for _ in 0..8 {
        assert!(status.increment_zoom());
    }
    assert!(!status.increment_zoom());
    assert_eq!(status.zoom_level, 8);
}

#[test]
fn removing_a_node_drops_its_links_and_frees_its_id() {
    let mut graph = NodeGraph::default();
    let interval = graph.add_interval_node([0, 0]);
    let curve = graph.add_curve_node([0, 0]);
    let out = interval_output(&graph, interval);
    let inp = curve_interval(&graph, curve);
    graph.create_link(out, inp);
    assert_eq!(graph.get_links().len(), 1);
    graph.remove_node(interval);
    assert!(graph.get_node(interval).is_none());
    assert!(graph.get_links().is_empty());
    assert_eq!(graph.get_attribute_as_linked_output(inp), None);
    let again = graph.add_interval_node([0, 0]);
    assert_eq!(again, interval);
    graph.remove_node(1000);
    assert_eq!(graph.get_nodes().len(), 2);
}

#[test]
fn links_are_replaced_and_removed() {
    let mut graph = NodeGraph::default();
    let first = graph.add_interval_node([0, 0]);
    let second = graph.add_interval_node([0, 0]);
    let curve = graph.add_curve_node([0, 0]);
    let inp = curve_interval(&graph, curve);
    graph.create_link(inp, interval_output(&graph, first));
    graph.create_link(inp, interval_output(&graph, second));
    assert_eq!(link_of(&graph, inp), Some(interval_output(&graph, second)));
    assert_eq!(graph.get_attribute_as_linked_node(inp), Some(second));
    assert_eq!(graph.create_link(inp, inp), None);
    graph.remove_link(inp);
    assert!(graph.get_links().is_empty());
}

#[test]
fn errors_are_marked_and_cleared() {
    let mut graph = NodeGraph::default();
    let curve = graph.add_curve_node([3, 4]);
    graph.mark_error(GraphError { node_id: curve, severity: Severity::Error, message: "bad".to_string() });
    assert_eq!(graph.get_node(curve).unwrap().error.as_ref().unwrap().message, "bad");
    graph.mark_error(GraphError { node_id: 77, severity: Severity::Warning, message: "none".to_string() });
    graph.clear_all_errors();
    assert!(graph.get_node(curve).unwrap().error.is_none());
    graph.set_node_title(curve, "Spiral".to_string());
    assert_eq!(graph.get_node(curve).unwrap().title, "Spiral");
    assert_eq!(graph.get_node(curve).unwrap().position, [3, 4]);
}

#[test]
fn editing_moves_between_nodes() {
    let mut graph = NodeGraph::default();
    let first = graph.add_interval_node([0, 0]);
    let second = graph.add_interval_node([0, 0]);
    let a = interval_output(&graph, first);
    let b = interval_output(&graph, second);
    assert!(!graph.update_editing(Some(a)));
    assert!(graph.currently_editing());
    assert!(!graph.update_editing(Some(a)));
    assert!(graph.update_editing(Some(b)));
    assert!(graph.update_editing(None));
    assert!(!graph.currently_editing());
    assert!(!graph.update_editing(None));
}

#[test]
fn right_click_outside_the_selection_drops_it() {
    assert_eq!(node_menu_selection(&vec![1, 4, 6], 4), vec![1, 4, 6]);
    assert!(node_menu_selection(&vec![1, 4, 6], 5).is_empty());
    assert!(node_menu_selection(&vec![], 0).is_empty());
}

#[test]
fn editor_actions_change_the_graph_and_ask_for_saving() {
    let mut graph = NodeGraph::default();
    assert!(graph.apply_editor_action(EditorAction::AddNode(NodeTemplate::Interval, [0, 0])));
    assert!(graph.apply_editor_action(EditorAction::AddNode(NodeTemplate::Curve, [5, 5])));
    let interval = 0;
    let curve = 1;
    assert_eq!(graph.get_node(curve).unwrap().title, "Curve");
    let out = interval_output(&graph, interval);
    let inp = curve_interval(&graph, curve);

    assert!(!graph.apply_editor_action(EditorAction::CreateLink(out, out)));
    assert!(graph.apply_editor_action(EditorAction::CreateLink(out, inp)));
    assert_eq!(link_of(&graph, inp), Some(out));

    assert!(!graph.apply_editor_action(EditorAction::RenameNode(curve, "Helix".to_string())));
    assert_eq!(graph.get_node(curve).unwrap().title, "Helix");

    assert!(graph.apply_editor_action(EditorAction::DuplicateNode(curve, [9, 9])));
    assert_eq!(graph.get_nodes().len(), 3);
    assert_eq!(graph.get_node(2).unwrap().title, "Helix");
    assert_eq!(graph.get_links().len(), 1);

    assert!(graph.apply_editor_action(EditorAction::DuplicateNodes(vec![interval, curve], vec![[1, 1], [2, 2]])));
    assert_eq!(graph.get_nodes().len(), 5);
    assert_eq!(graph.get_links().len(), 2);

    assert!(graph.apply_editor_action(EditorAction::DeleteLink(inp)));
    assert_eq!(link_of(&graph, inp), None);

    assert!(graph.apply_editor_action(EditorAction::DeleteNodes(vec![3, 4, 50])));
    assert_eq!(graph.get_nodes().len(), 3);
    assert!(graph.apply_editor_action(EditorAction::DeleteNode(2)));
    assert!(graph.get_node(2).is_none());
    assert!(graph.get_links().is_empty());
}

#[test]
fn fresh_attributes_take_freed_slots_then_new_ones_in_order() {
    let mut g = NodeGraph::default();
    g.add_interval_node([0, 0]);
    let id = g.insert_node(
        "Curve".to_string(),
        [1, 2],
        franzplot::node_graph::contents::NodeContents::default_curve(),
        vec![
            AttributeContents::Unknown { label: "a".to_string() },
            AttributeContents::Unknown { label: "a".to_string() },
            AttributeContents::Unknown { label: "a".to_string() },
            AttributeContents::Unknown { label: "a".to_string() },
            AttributeContents::Unknown { label: "a".to_string() },
        ],
    );
    assert_eq!(id, 1);
    assert_eq!(g.get_node(1).unwrap().get_owned_attributes(), vec![5, 6, 7, 8, 9]);
    assert_eq!(g.get_node(1).unwrap().title, "Curve");
    g.remove_node(0);
    let again = g.add_interval_node([0, 0]);
    assert_eq!(again, 0);
    assert_eq!(g.get_node(0).unwrap().get_owned_attributes(), vec![4, 3, 2, 1, 0]);
}

#[test]
fn a_fresh_matrix_node_holds_the_identity_rows() {
    let mut g = NodeGraph::default();
    assert_eq!(g.add_matrix_node([0, 0]), 0);
    let row = |a: &str, b: &str, c: &str, d: &str| Some([a.to_string(), b.to_string(), c.to_string(), d.to_string()]);
    assert_eq!(g.get_attribute_as_matrix_row(1), row("1.0", "0.0", "0.0", "0.0"));
    assert_eq!(g.get_attribute_as_matrix_row(2), row("0.0", "1.0", "0.0", "0.0"));
    assert_eq!(g.get_attribute_as_matrix_row(3), row("0.0", "0.0", "1.0", "0.0"));
    assert_eq!(g.get_attribute_as_linked_output(0), None);
    assert_eq!(g.get_node(0).unwrap().title, "Matrix");
}

#[test]
fn duplicating_skips_removed_ids_and_links_only_the_last_copy() {
    let mut graph = NodeGraph::default();
    let interval = graph.add_interval_node([0, 0]);
    let curve = graph.add_curve_node([0, 0]);
    let gone = graph.add_point_node([0, 0]);
    graph.remove_node(gone);
    let out = interval_output(&graph, interval);
    let inp = curve_interval(&graph, curve);
    graph.create_link(inp, out);

    let (copies, _) =
        graph.duplicate_nodes(&vec![gone, interval, curve, curve], &vec![[0, 0], [1, 1], [2, 2], [3, 3]]);
    assert!(copies[0].is_none());
    let interval_copy = copies[1].unwrap();
    let first_curve_copy = copies[2].unwrap();
    let last_curve_copy = copies[3].unwrap();
    assert_eq!(link_of(&graph, curve_interval(&graph, first_curve_copy)), None);
    assert_eq!(
        link_of(&graph, curve_interval(&graph, last_curve_copy)),
        Some(interval_output(&graph, interval_copy))
    );
    assert_eq!(link_of(&graph, inp), Some(out));
}
