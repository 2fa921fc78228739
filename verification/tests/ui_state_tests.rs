use pipeflow::graph::Node;
use pipeflow::ids::{NodeId, NodeIdentifier};
use pipeflow::ui_state::UiState;

#[test]
fn test_ui_state_selection() {
    let mut state = UiState::new();

    state.select_node(NodeId::new(1));
    assert!(state.selected_nodes.contains(&1));
    assert_eq!(state.selected_nodes.len(), 1);

    state.add_to_selection(NodeId::new(2));
    assert!(state.selected_nodes.contains(&2));
    assert_eq!(state.selected_nodes.len(), 2);

    state.toggle_selection(NodeId::new(1));
    assert!(!state.selected_nodes.contains(&1));
    assert_eq!(state.selected_nodes.len(), 1);

    state.clear_selection();
    assert_eq!(state.selected_nodes.len(), 0);
}

#[test]
fn test_persistent_state_restoration() {
    let mut ui = UiState::new();
    let identifier = NodeIdentifier::new(
        "SuperCollider".to_string(),
        Some("scide".to_string()),
        Some("Audio Output".to_string()),
    );

    let node_id = NodeId::new(42);
    ui.update_uninteresting(node_id, &identifier, true);
    ui.set_custom_name(node_id, &identifier, "My SuperCollider".to_string());

    ui.uninteresting_nodes.clear();
    ui.custom_names.clear();

    let new_node_id = NodeId::new(99);
    let restored_uninteresting = ui.restore_uninteresting_for_node(new_node_id, &identifier);
    let restored_name = ui.restore_custom_name_for_node(new_node_id, &identifier);

    assert!(restored_uninteresting, "Uninteresting status should be restored");
    assert!(restored_name, "Custom name should be restored");

    assert!(ui.is_uninteresting(&new_node_id));
    assert_eq!(ui.get_custom_name(&new_node_id), Some("My SuperCollider"));
}

#[test]
fn test_cleanup_preserves_persistent_state() {
    let mut ui = UiState::new();
    let node_id = NodeId::new(1);
    let identifier = NodeIdentifier::new("node".to_string(), None, None);

    ui.update_uninteresting(node_id, &identifier, true);
    ui.set_custom_name(node_id, &identifier, "custom".to_string());

    ui.cleanup_removed_node(&node_id);

    assert!(!ui.uninteresting_nodes.contains(&1));
    assert!(!ui.custom_names.contains_key(&1));

    assert!(ui.is_marked_persistently(&identifier));
    assert_eq!(ui.saved_custom_name(&identifier), Some(&"custom".to_string()));
}

#[test]
fn clearing_marks_and_names() {
    let mut ui = UiState::new();
    let a = NodeIdentifier::new("a".to_string(), None, None);
    let b = NodeIdentifier::new("b".to_string(), None, None);
    ui.set_custom_name(NodeId::new(1), &a, "first".to_string());
    ui.set_custom_name(NodeId::new(1), &a, "second".to_string());
    ui.set_custom_name(NodeId::new(2), &b, "bee".to_string());
    assert_eq!(ui.saved_custom_name(&a), Some(&"second".to_string()));
    ui.clear_custom_name(NodeId::new(1), &a);
    assert_eq!(ui.saved_custom_name(&a), None);
    assert_eq!(ui.saved_custom_name(&b), Some(&"bee".to_string()));
    assert!(ui.get_custom_name(&NodeId::new(1)).is_none());
    ui.update_uninteresting(NodeId::new(2), &b, true);
    ui.update_uninteresting(NodeId::new(2), &b, false);
    assert!(!ui.is_marked_persistently(&b));
    assert!(!ui.is_uninteresting(&NodeId::new(2)));
    ui.toggle_uninteresting(NodeId::new(3));
    assert!(ui.is_uninteresting(&NodeId::new(3)));
    ui.toggle_hide_uninteresting();
    assert!(ui.hide_uninteresting);
}

#[test]
fn resolved_name_prefers_custom() {
    let mut ui = UiState::new();
    let mut node = Node::new(NodeId::new(5), "raw".to_string());
    node.description = Some("Desc".to_string());
    assert_eq!(ui.resolved_display_name(&node), "Desc");
    ui.set_custom_name(NodeId::new(5), &NodeIdentifier::new("raw".to_string(), None, None), "Mine".to_string());
    assert_eq!(ui.resolved_display_name(&node), "Mine");
}
