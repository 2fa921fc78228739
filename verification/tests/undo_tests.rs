use pipeflow::commands::{AppCommand, UiCommand};
use pipeflow::graph::Link;
use pipeflow::graph_state::GraphState;
use pipeflow::history::{UndoAction, UndoStack};
use pipeflow::ids::{LinkId, NodeId, PortId};
use pipeflow::safety::{SafetyController, SafetyMode};
use pipeflow::ui_state::UiState;
use pipeflow::undo::{execute_undo_step, handle_delete_selected_link, record_link_created, record_link_removed, record_link_toggled, undo_steps_of};

fn graph_with_link() -> GraphState {
    let mut g = GraphState::default();
    g.add_link(Link::new(LinkId::new(5), PortId::new(10), PortId::new(20), NodeId::new(1), NodeId::new(2)));
    g
}

#[test]
fn batches_flatten_in_order() {
    let action = UndoAction::Batch(vec![
        UndoAction::AppCommand(AppCommand::RemoveLink(LinkId::new(1))),
        UndoAction::Batch(vec![
            UndoAction::UiCommand(UiCommand::ClearSelection),
            UndoAction::Batch(vec![]),
            UndoAction::RemoveLinkBetweenPorts { output_port: PortId::new(3), input_port: PortId::new(4) },
        ]),
        UndoAction::AppCommand(AppCommand::Disconnect),
    ]);
    let steps = undo_steps_of(action);
    assert_eq!(steps.len(), 4);
    assert!(matches!(steps[0], UndoAction::AppCommand(AppCommand::RemoveLink(LinkId(1)))));
    assert!(matches!(steps[1], UndoAction::UiCommand(UiCommand::ClearSelection)));
    assert!(matches!(
        steps[2],
        UndoAction::RemoveLinkBetweenPorts { output_port: PortId(3), input_port: PortId(4) }
    ));
    assert!(matches!(steps[3], UndoAction::AppCommand(AppCommand::Disconnect)));
}

#[test]
fn cloned_actions_are_copies() {
    let action = UndoAction::Batch(vec![
        UndoAction::UiCommand(UiCommand::ToggleUninteresting(vec![NodeId::new(7), NodeId::new(8)])),
        UndoAction::AppCommand(AppCommand::StopAllMeters),
    ]);
    let copy = action.clone();
    let steps = undo_steps_of(copy);
    assert_eq!(steps.len(), 2);
    match &steps[0] {
        UndoAction::UiCommand(UiCommand::ToggleUninteresting(ids)) => assert_eq!(ids, &vec![NodeId::new(7), NodeId::new(8)]),
        other => panic!("unexpected step {:?}", other),
    }
}

#[test]
fn removing_the_link_between_ports() {
    let mut g = graph_with_link();
    let mut ui = UiState::new();
    let mut safety = SafetyController::default();
    let step = UndoAction::RemoveLinkBetweenPorts { output_port: PortId::new(10), input_port: PortId::new(20) };
    let r = execute_undo_step(&mut g, &mut ui, &mut safety, step);
    assert_eq!(r, Some(AppCommand::RemoveLink(LinkId::new(5))));
    assert!(g.links.is_empty());

    let again = UndoAction::RemoveLinkBetweenPorts { output_port: PortId::new(10), input_port: PortId::new(20) };
    assert_eq!(execute_undo_step(&mut g, &mut ui, &mut safety, again), None);
}

#[test]
fn command_and_ui_steps() {
    let mut g = graph_with_link();
    let mut ui = UiState::new();
    let mut safety = SafetyController::default();
    let r = execute_undo_step(&mut g, &mut ui, &mut safety, UndoAction::AppCommand(AppCommand::StartAllMeters));
    assert_eq!(r, Some(AppCommand::StartAllMeters));
    let r = execute_undo_step(&mut g, &mut ui, &mut safety, UndoAction::UiCommand(UiCommand::SetSafetyMode(SafetyMode::Stage)));
    assert_eq!(r, None);
    assert_eq!(safety.mode, SafetyMode::Stage);
    let r = execute_undo_step(&mut g, &mut ui, &mut safety, UndoAction::UiCommand(UiCommand::SelectNode(NodeId::new(1))));
    assert_eq!(r, None);
    assert!(ui.selected_nodes.contains(&1));
    assert_eq!(g.links.len(), 1);
}

#[test]
fn deleting_the_selected_link_can_be_undone() {
    let mut g = graph_with_link();
    let mut ui = UiState::new();
    let mut history: UndoStack<UndoAction> = UndoStack::default();

    assert_eq!(handle_delete_selected_link(&mut g, &mut ui, &mut history), None);
    assert_eq!(g.links.len(), 1);
    assert!(!history.can_undo());

    ui.selected_link = Some(LinkId::new(5));
    assert_eq!(handle_delete_selected_link(&mut g, &mut ui, &mut history), Some(AppCommand::RemoveLink(LinkId::new(5))));
    assert!(g.links.is_empty());
    assert_eq!(ui.selected_link, None);
    assert_eq!(history.undo_description(), Some("Remove link"));
    assert!(matches!(
        history.undo(),
        Some(UndoAction::AppCommand(AppCommand::CreateLink { output_port: PortId(10), input_port: PortId(20) }))
    ));
    assert!(matches!(history.redo(), Some(UndoAction::AppCommand(AppCommand::RemoveLink(LinkId(5))))));
}

#[test]
fn deleting_a_vanished_link_does_nothing() {
    let mut g = GraphState::default();
    let mut ui = UiState::new();
    ui.selected_link = Some(LinkId::new(5));
    let mut history: UndoStack<UndoAction> = UndoStack::default();
    assert_eq!(handle_delete_selected_link(&mut g, &mut ui, &mut history), None);
    assert_eq!(ui.selected_link, Some(LinkId::new(5)));
    assert!(!history.can_undo());
}

#[test]
fn created_links_are_undone_by_removal_between_the_ports() {
    let mut history: UndoStack<UndoAction> = UndoStack::default();
    let cmd = record_link_created(&mut history, PortId::new(10), PortId::new(20));
    assert_eq!(cmd, AppCommand::CreateLink { output_port: PortId::new(10), input_port: PortId::new(20) });
    assert_eq!(history.undo_description(), Some("Create link"));
    assert!(matches!(
        history.undo(),
        Some(UndoAction::RemoveLinkBetweenPorts { output_port: PortId(10), input_port: PortId(20) })
    ));
    assert!(matches!(
        history.redo(),
        Some(UndoAction::AppCommand(AppCommand::CreateLink { output_port: PortId(10), input_port: PortId(20) }))
    ));
    assert!(history.redo().is_none());
}

#[test]
fn toggled_links_are_undone_by_toggling_back() {
    let mut g = graph_with_link();
    let mut history: UndoStack<UndoAction> = UndoStack::default();
    let cmd = record_link_toggled(&mut g, &mut history, LinkId::new(5), false);
    assert_eq!(cmd, AppCommand::ToggleLink { link_id: LinkId::new(5), active: false });
    assert!(!g.links[&5].is_active);
    assert_eq!(history.undo_description(), Some("Disable link"));
    assert!(matches!(
        history.undo(),
        Some(UndoAction::AppCommand(AppCommand::ToggleLink { link_id: LinkId(5), active: true }))
    ));
    record_link_toggled(&mut g, &mut history, LinkId::new(5), true);
    assert!(g.links[&5].is_active);
    assert_eq!(history.undo_description(), Some("Enable link"));
    let cmd = record_link_toggled(&mut g, &mut history, LinkId::new(99), true);
    assert_eq!(cmd, AppCommand::ToggleLink { link_id: LinkId::new(99), active: true });
    assert_eq!(g.links.len(), 1);
}

#[test]
fn removed_links_are_recorded_when_known() {
    let mut g = graph_with_link();
    let mut history: UndoStack<UndoAction> = UndoStack::default();
    assert_eq!(record_link_removed(&mut g, &mut history, LinkId::new(99)), AppCommand::RemoveLink(LinkId::new(99)));
    assert!(!history.can_undo());
    assert_eq!(record_link_removed(&mut g, &mut history, LinkId::new(5)), AppCommand::RemoveLink(LinkId::new(5)));
    assert!(g.links.is_empty());
    assert!(matches!(
        history.undo(),
        Some(UndoAction::AppCommand(AppCommand::CreateLink { output_port: PortId(10), input_port: PortId(20) }))
    ));
}

#[test]
fn cloned_batches_keep_their_structure() {
    let action = UndoAction::Batch(vec![
        UndoAction::Batch(vec![UndoAction::UiCommand(UiCommand::SetCustomName(NodeId::new(3), Some("Mic".to_string())))]),
        UndoAction::RemoveLinkBetweenPorts { output_port: PortId::new(1), input_port: PortId::new(2) },
    ]);
    match action.clone() {
        UndoAction::Batch(v) => {
            assert_eq!(v.len(), 2);
            match &v[0] {
                UndoAction::Batch(inner) => {
                    assert_eq!(inner.len(), 1);
                    match &inner[0] {
                        UndoAction::UiCommand(UiCommand::SetCustomName(id, name)) => {
                            assert_eq!(*id, NodeId::new(3));
                            assert_eq!(name.as_deref(), Some("Mic"));
                        }
                        other => panic!("unexpected {:?}", other),
                    }
                }
                other => panic!("unexpected {:?}", other),
            }
            assert!(matches!(v[1], UndoAction::RemoveLinkBetweenPorts { output_port: PortId(1), input_port: PortId(2) }));
        }
        other => panic!("unexpected {:?}", other),
    }
}
