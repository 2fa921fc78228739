use pipeflow::commands::AppCommand;
use pipeflow::history::{UndoAction, UndoEntry, UndoStack};
use pipeflow::ids::{LinkId, PortId};

fn dummy_entry(desc: &str) -> UndoEntry<UndoAction> {
    UndoEntry {
        description: desc.to_string(),
        forward: UndoAction::AppCommand(AppCommand::CreateLink {
            output_port: PortId::new(1),
            input_port: PortId::new(2),
        }),
        reverse: UndoAction::AppCommand(AppCommand::RemoveLink(LinkId::new(10))),
    }
}

#[test]
fn test_push_and_undo() {
    let mut stack = UndoStack::new(10);
    assert!(!stack.can_undo());

    stack.push(dummy_entry("test"));
    assert!(stack.can_undo());
    assert!(!stack.can_redo());

    let action = stack.undo();
    assert!(action.is_some());
    assert!(!stack.can_undo());
    assert!(stack.can_redo());
}

#[test]
fn test_redo() {
    let mut stack = UndoStack::new(10);
    stack.push(dummy_entry("test"));
    stack.undo();

    let action = stack.redo();
    assert!(action.is_some());
    assert!(stack.can_undo());
    assert!(!stack.can_redo());
}

#[test]
fn test_push_truncates_redo() {
    let mut stack = UndoStack::new(10);
    stack.push(dummy_entry("first"));
    stack.push(dummy_entry("second"));
    stack.undo();

    stack.push(dummy_entry("third"));
    assert_eq!(stack.len(), 2);
    assert_eq!(stack.undo_description(), Some("third"));
}

#[test]
fn test_max_size() {
    let mut stack = UndoStack::new(3);
    for i in 0..5 {
        stack.push(dummy_entry(&format!("entry {}", i)));
    }
    assert_eq!(stack.len(), 3);
    assert_eq!(stack.undo_description(), Some("entry 4"));
}

#[test]
fn test_descriptions() {
    let mut stack = UndoStack::new(10);
    assert_eq!(stack.undo_description(), None);
    assert_eq!(stack.redo_description(), None);

    stack.push(dummy_entry("create link"));
    assert_eq!(stack.undo_description(), Some("create link"));

    stack.undo();
    assert_eq!(stack.redo_description(), Some("create link"));
}

#[test]
fn undo_gives_reverse_and_redo_gives_forward() {
    let mut stack: UndoStack<UndoAction> = UndoStack::default();
    stack.push(dummy_entry("link"));
    assert!(matches!(stack.undo(), Some(UndoAction::AppCommand(AppCommand::RemoveLink(LinkId(10))))));
    assert!(stack.undo().is_none());
    assert!(matches!(
        stack.redo(),
        Some(UndoAction::AppCommand(AppCommand::CreateLink { output_port: PortId(1), input_port: PortId(2) }))
    ));
    assert!(stack.redo().is_none());
}
