use franzplot::ferre::{shown_pairs, step_title, GlobalVarUsage, VarUsageType};
use franzplot::node_graph::graph::NodeGraph;

#[test]
fn switching_usage_keeps_the_start_value() {
    assert_eq!(GlobalVarUsage::User(1.5f32).switch_to(VarUsageType::Animated), GlobalVarUsage::Animated(1.5, 1.5));
    assert_eq!(GlobalVarUsage::Still(2.0f32).switch_to(VarUsageType::User), GlobalVarUsage::User(2.0));
    assert_eq!(GlobalVarUsage::Animated(0.5f32, 3.0).switch_to(VarUsageType::Still), GlobalVarUsage::Still(0.5));
    assert_eq!(GlobalVarUsage::Animated(0.5f32, 3.0).switch_to(VarUsageType::Animated), GlobalVarUsage::Animated(0.5, 3.0));
    assert_eq!(GlobalVarUsage::Still(4.0f32).switch_to(VarUsageType::Still), GlobalVarUsage::Still(4.0));
}

#[test]
fn shown_value_is_the_start() {
    assert_eq!(GlobalVarUsage::Animated(0.25f32, 1.0).shown_value(), 0.25);
    assert_eq!(GlobalVarUsage::User(7i32).shown_value(), 7);
    assert_eq!(GlobalVarUsage::Still(7i32).usage_type(), VarUsageType::Still);
}

#[test]
fn step_titles() {
    let mut graph = NodeGraph::default();
    let id = graph.add_curve_node([0, 0]);
    let title = graph.get_node(id).unwrap().title.clone();
    assert_eq!(step_title(&graph, &vec![id, 99]), title);
    assert_eq!(step_title(&graph, &vec![99]), "unknown node, check the frzp file");
    assert_eq!(step_title(&graph, &vec![]), "No renderable in list");
}

#[test]
fn showing_a_step_sets_the_start_values() {
    let usages = vec![
        ("a".to_string(), GlobalVarUsage::User(1.0f32)),
        ("b".to_string(), GlobalVarUsage::Animated(2.0f32, 5.0)),
        ("c".to_string(), GlobalVarUsage::Still(3.0f32)),
    ];
    assert_eq!(shown_pairs(&usages), vec![("b".to_string(), 2.0), ("c".to_string(), 3.0)]);
}
