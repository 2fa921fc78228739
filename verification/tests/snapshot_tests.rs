use pipeflow::graph::{Link, Node, Port, PortDirection};
use pipeflow::graph_state::GraphState;
use pipeflow::ids::{LinkId, NodeId, NodeIdentifier, PortId};
use pipeflow::snapshots::{chrono_now, is_leap_year, iso8601_utc, unix_to_datetime, Snapshot, SnapshotManager};
use pipeflow::text::text_less;

#[test]
fn test_chrono_now_format() {
    let ts = chrono_now();
    assert!(ts.ends_with('Z'));
    assert_eq!(ts.len(), 20);
}

#[test]
fn test_unix_to_datetime_epoch() {
    let (y, m, d, h, mi, s) = unix_to_datetime(0);
    assert_eq!((y, m, d, h, mi, s), (1970, 1, 1, 0, 0, 0));
}

#[test]
fn test_unix_to_datetime_known() {
    let (y, m, d, h, mi, _s) = unix_to_datetime(1705318200);
    assert_eq!(y, 2024);
    assert_eq!(m, 1);
    assert_eq!(d, 15);
    assert_eq!(h, 11);
    assert_eq!(mi, 30);
}

#[test]
fn leap_days_and_iso_text() {
    assert!(is_leap_year(2000));
    assert!(!is_leap_year(1900));
    assert!(is_leap_year(2024));
    // 2024-02-29T23:59:59Z
    assert_eq!(unix_to_datetime(1709251199), (2024, 2, 29, 23, 59, 59));
    assert_eq!(iso8601_utc(1709251199), "2024-02-29T23:59:59Z");
    assert_eq!(iso8601_utc(0), "1970-01-01T00:00:00Z");
}

fn snap(id: u128, name: &str, created_at: &str) -> Snapshot {
    Snapshot { id, name: name.to_string(), created_at: created_at.to_string(), connections: Vec::new() }
}

#[test]
fn snapshots_are_listed_oldest_first() {
    let m = SnapshotManager::new(vec![
        snap(1, "c", "2024-03-01T00:00:00Z"),
        snap(2, "a", "2023-12-31T23:59:59Z"),
        snap(3, "b", "2024-01-15T08:00:00Z"),
        snap(4, "b2", "2024-01-15T08:00:00Z"),
    ]);
    let names: Vec<&str> = m.list().iter().map(|s| s.name.as_str()).collect();
    assert_eq!(names, vec!["a", "b", "b2", "c"]);
}

#[test]
fn snapshot_lookup_rename_and_delete() {
    let mut m = SnapshotManager::new(Vec::new());
    assert!(m.list().is_empty());
    m.add(snap(7, "first", "2024-01-01T00:00:00Z"));
    m.add(snap(8, "second", "2024-01-02T00:00:00Z"));
    assert_eq!(m.get(8).unwrap().name, "second");
    assert!(m.get(9).is_none());
    assert!(m.rename(7, "renamed".to_string()));
    assert!(!m.rename(9, "x".to_string()));
    assert_eq!(m.get(7).unwrap().name, "renamed");
    m.delete(7);
    assert!(m.get(7).is_none());
    assert_eq!(m.list().len(), 1);
    m.delete(42);
    assert_eq!(m.list().len(), 1);
}

#[test]
fn capturing_a_snapshot() {
    let mut g = GraphState::default();
    g.add_node(Node::new(NodeId::new(1), "synth".to_string()));
    g.add_node(Node::new(NodeId::new(2), "speakers".to_string()));
    g.add_port(Port::new(PortId::new(10), NodeId::new(1), "out".to_string(), PortDirection::Output));
    g.add_port(Port::new(PortId::new(20), NodeId::new(2), "in".to_string(), PortDirection::Input));
    g.add_link(Link::new(LinkId::new(100), PortId::new(10), PortId::new(20), NodeId::new(1), NodeId::new(2)));
    let s = Snapshot::capture("Evening".to_string(), &g, |n: &Node, _g: &GraphState| {
        NodeIdentifier::new(n.name.clone(), None, None)
    });
    assert_eq!(s.name, "Evening");
    assert_ne!(s.id, 0);
    assert_eq!(s.created_at.len(), 20);
    assert!(s.created_at.ends_with('Z'));
    assert_eq!(s.connections.len(), 1);
    assert_eq!(s.connections[0].output_node.name, "synth");
    assert_eq!(s.connections[0].input_port_name, "in");
}

#[test]
fn text_order() {
    assert!(text_less("2023", "2024"));
    assert!(text_less("abc", "abcd"));
    assert!(!text_less("abc", "abc"));
    assert!(!text_less("b", "abc"));
}

#[test]
fn snapshots_created_together_keep_their_order() {
    let m = SnapshotManager::new(vec![
        snap(1, "x1", "2024-05-05T10:00:00Z"),
        snap(2, "y", "2023-01-01T00:00:00Z"),
        snap(3, "x2", "2024-05-05T10:00:00Z"),
        snap(4, "z", "2024-01-01T00:00:00Z"),
        snap(5, "x3", "2024-05-05T10:00:00Z"),
    ]);
    let names: Vec<&str> = m.list().iter().map(|s| s.name.as_str()).collect();
    assert_eq!(names, vec!["y", "z", "x1", "x2", "x3"]);
}
