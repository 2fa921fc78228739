use pipeflow::commands::UiCommand;
use pipeflow::graph::{MediaClass, Node};
use pipeflow::graph_state::GraphState;
use pipeflow::ids::{NodeId, NodeIdentifier};
use pipeflow::safety::{SafetyController, SafetyMode};
use pipeflow::ui_commands::{create_group_from_selection, handle_toggle_uninteresting, handle_ui_command};
use pipeflow::ui_state::UiState;

fn graph() -> GraphState {
    let mut g = GraphState::default();
    let mut a = Node::new(NodeId::new(1), "player".to_string());
    a.application_name = Some("Music".to_string());
    a.media_class = Some(MediaClass::StreamOutputAudio);
    g.add_node(a);
    g.add_node(Node::new(NodeId::new(2), "speakers".to_string()));
    g
}

fn player() -> NodeIdentifier {
    NodeIdentifier::new("player".to_string(), Some("Music".to_string()), Some("Audio Output".to_string()))
}

#[test]
fn selection_commands() {
    let g = graph();
    let mut ui = UiState::new();
    let mut safety = SafetyController::default();
    assert!(!handle_ui_command(&mut ui, &mut safety, &g, UiCommand::SelectNode(NodeId::new(1))));
    assert!(!handle_ui_command(&mut ui, &mut safety, &g, UiCommand::AddToSelection(NodeId::new(2))));
    assert_eq!(ui.selected_nodes.len(), 2);
    handle_ui_command(&mut ui, &mut safety, &g, UiCommand::ToggleSelection(NodeId::new(1)));
    assert!(!ui.selected_nodes.contains(&1));
    handle_ui_command(&mut ui, &mut safety, &g, UiCommand::ClearSelection);
    assert!(ui.selected_nodes.is_empty());
}

#[test]
fn safety_mode_command() {
    let g = graph();
    let mut ui = UiState::new();
    let mut safety = SafetyController::default();
    assert!(!handle_ui_command(&mut ui, &mut safety, &g, UiCommand::SetSafetyMode(SafetyMode::ReadOnly)));
    assert_eq!(safety.mode, SafetyMode::ReadOnly);
}

#[test]
fn grouping_the_selection() {
    let g = graph();
    let mut ui = UiState::new();
    assert!(create_group_from_selection(&mut ui, &g, None).is_none());
    assert!(ui.groups.groups.is_empty());

    ui.select_node(NodeId::new(1));
    ui.add_to_selection(NodeId::new(2));
    ui.add_to_selection(NodeId::new(7)); // not in the graph
    let mut safety = SafetyController::default();
    assert!(handle_ui_command(&mut ui, &mut safety, &g, UiCommand::CreateGroupFromSelection(Some("Desk".to_string()))));
    assert_eq!(ui.groups.groups.len(), 1);
    let group = &ui.groups.groups[0];
    assert_eq!(group.name, "Desk");
    assert_eq!(group.member_count(), 3);
    assert_eq!(group.persistent_member_count(), 2);
    assert!(group.has_persistent_member(&player()));
    assert!(group.has_persistent_member(&NodeIdentifier::new("speakers".to_string(), None, None)));
}

#[test]
fn toggling_marks_saves_them_by_identifier() {
    let g = graph();
    let mut ui = UiState::new();
    handle_toggle_uninteresting(&mut ui, &g, &vec![NodeId::new(1), NodeId::new(9)]);
    assert!(ui.is_uninteresting(&NodeId::new(1)));
    assert!(ui.is_uninteresting(&NodeId::new(9)));
    assert!(ui.is_marked_persistently(&player()));

    let mut safety = SafetyController::default();
    assert!(handle_ui_command(&mut ui, &mut safety, &g, UiCommand::ToggleUninteresting(vec![NodeId::new(1)])));
    assert!(!ui.is_uninteresting(&NodeId::new(1)));
    assert!(!ui.is_marked_persistently(&player()));

    // Toggling twice in one command leaves the node as it was.
    handle_toggle_uninteresting(&mut ui, &g, &vec![NodeId::new(2), NodeId::new(2)]);
    assert!(!ui.is_uninteresting(&NodeId::new(2)));
}

#[test]
fn naming_nodes() {
    let g = graph();
    let mut ui = UiState::new();
    let mut safety = SafetyController::default();
    assert!(handle_ui_command(&mut ui, &mut safety, &g, UiCommand::SetCustomName(NodeId::new(1), Some("Tunes".to_string()))));
    assert_eq!(ui.get_custom_name(&NodeId::new(1)), Some("Tunes"));
    assert_eq!(ui.saved_custom_name(&player()), Some(&"Tunes".to_string()));
    handle_ui_command(&mut ui, &mut safety, &g, UiCommand::SetCustomName(NodeId::new(1), None));
    assert!(ui.get_custom_name(&NodeId::new(1)).is_none());
    assert!(ui.saved_custom_name(&player()).is_none());
    // A node that is not in the graph is not named.
    handle_ui_command(&mut ui, &mut safety, &g, UiCommand::SetCustomName(NodeId::new(5), Some("x".to_string())));
    assert!(ui.get_custom_name(&NodeId::new(5)).is_none());
}
