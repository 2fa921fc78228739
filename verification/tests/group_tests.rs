use pipeflow::groups::{GroupColor, GroupManager, NodeGroup};
use pipeflow::ids::{NodeId, NodeIdentifier};

fn ident(name: &str) -> NodeIdentifier {
    NodeIdentifier::new(name.to_string(), Some("app".to_string()), None)
}

#[test]
fn test_group_creation() {
    let group = NodeGroup::new("Test Group".to_string());

    assert!(!group.id.is_nil());
    assert_eq!(group.name, "Test Group");
    assert!(group.members.is_empty());
    assert!(!group.collapsed);
}

#[test]
fn test_group_membership() {
    let mut group = NodeGroup::new("Test".to_string());
    let node1 = NodeId::new(1);
    let node2 = NodeId::new(2);

    group.add_member(node1);
    assert!(group.contains(&node1));
    assert!(!group.contains(&node2));
    assert_eq!(group.member_count(), 1);

    group.add_member(node2);
    assert_eq!(group.member_count(), 2);

    group.remove_member(&node1);
    assert!(!group.contains(&node1));
    assert!(group.contains(&node2));
}

#[test]
fn test_group_collapse() {
    let mut group = NodeGroup::new("Test".to_string());

    assert!(!group.collapsed);

    group.toggle_collapsed();
    assert!(group.collapsed);

    group.toggle_collapsed();
    assert!(!group.collapsed);

    group.collapsed = true;
    assert!(group.collapsed);

    group.collapsed = false;
    assert!(!group.collapsed);
}

#[test]
fn test_group_manager() {
    let mut manager = GroupManager::new();

    let id1 = manager.create_group(Some("Group A".to_string()));
    let id2 = manager.create_group(None);

    assert!(manager.get_group(&id1).is_some());
    assert_eq!(manager.get_group(&id1).unwrap().name, "Group A");
    assert!(manager.get_group(&id2).unwrap().name.starts_with("Group"));
}

#[test]
fn default_group_names_count_created_groups() {
    let mut manager = GroupManager::new();
    let a = manager.create_group(None);
    let b = manager.create_group(Some("Named".to_string()));
    let c = manager.create_group(None);
    assert_eq!(manager.get_group(&a).unwrap().name, "Group 1");
    assert_eq!(manager.get_group(&b).unwrap().name, "Named");
    assert_eq!(manager.get_group(&c).unwrap().name, "Group 3");
    assert_ne!(a, b);
}

#[test]
fn group_colors_follow_the_palette() {
    let mut manager = GroupManager::new();
    let mut ids = Vec::new();
    for _ in 0..11 {
        ids.push(manager.create_group(None));
    }
    let palette = GroupColor::palette();
    assert_eq!(manager.get_group(&ids[0]).unwrap().color, palette[0]);
    assert_eq!(manager.get_group(&ids[1]).unwrap().color, palette[1]);
    assert_eq!(manager.get_group(&ids[10]).unwrap().color, palette[0]);
    assert_eq!(NodeGroup::new("x".to_string()).color, GroupColor::new(99, 155, 255));
}

#[test]
fn group_with_members_and_removal() {
    let mut manager = GroupManager::new();
    let id = manager.create_group_with_members(None, vec![NodeId::new(4), NodeId::new(5), NodeId::new(4)]);
    let g = manager.get_group(&id).unwrap();
    assert_eq!(g.member_count(), 2);
    assert!(g.contains(&NodeId::new(5)));
    assert!(manager.position(&id).is_some());

    let removed = manager.remove_group(&id).unwrap();
    assert_eq!(removed.id, id);
    assert!(manager.get_group(&id).is_none());
    assert!(manager.remove_group(&id).is_none());
}

#[test]
fn persistent_members_are_sets() {
    let mut group = NodeGroup::new("G".to_string());
    assert!(group.is_truly_empty());
    assert!(group.add_persistent_member(ident("a")));
    assert!(!group.add_persistent_member(ident("a")));
    assert!(group.add_persistent_member(ident("b")));
    assert_eq!(group.persistent_member_count(), 2);
    assert!(group.is_pending_reconciliation());
    assert_eq!(group.effective_member_count(), 2);

    assert!(group.remove_persistent_member(&ident("a")));
    assert!(!group.remove_persistent_member(&ident("a")));
    assert!(!group.has_persistent_member(&ident("a")));
    assert!(group.has_persistent_member(&ident("b")));
    assert_eq!(group.persistent_member_count(), 1);
}

#[test]
fn membership_returns_after_restart() {
    let mut manager = GroupManager::new();
    let id = manager.create_group_with_members(Some("Music".to_string()), vec![NodeId::new(10)]);
    let i = manager.position(&id).unwrap();
    manager.groups[i].add_persistent_member(ident("player"));
    let other = manager.create_group(None);

    // The node disappears, then reappears under another id.
    manager.groups[i].remove_member(&NodeId::new(10));
    assert!(manager.get_group(&id).unwrap().is_pending_reconciliation());
    manager.reconcile_node(NodeId::new(77), &ident("player"));
    assert!(manager.get_group(&id).unwrap().contains(&NodeId::new(77)));
    assert!(!manager.get_group(&other).unwrap().contains(&NodeId::new(77)));

    // A node with another identifier joins nothing.
    manager.reconcile_node(NodeId::new(78), &ident("other"));
    assert!(!manager.get_group(&id).unwrap().contains(&NodeId::new(78)));
    assert_eq!(manager.get_group(&id).unwrap().effective_member_count(), 1);
}
