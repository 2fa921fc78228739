use pipeflow::headless::process_event;
use pipeflow::restore::{get_metering_target_id, is_metering_node};
use pipeflow::events::{LinkInfo, NodeInfo, PortInfo, PwError};
use pipeflow::graph::{LinkState, NodeLayer, PortDirection};
use pipeflow::graph_events::{apply_graph_event, GraphEvent};
use pipeflow::graph_state::GraphState;
use pipeflow::ids::{LinkId, NodeId, PortId};
use pipeflow::properties::Properties;
use pipeflow::ids::NodeIdentifier;
use pipeflow::rules::{ConnectionRule, ConnectionSpec, MatchPattern, RuleTrigger};
use pipeflow::ui_state::UiState;
use pipeflow::state::ConnectionState;

fn node_info(id: u32, name: &str) -> NodeInfo {
    let mut p = Properties::new();
    p.insert("node.name".to_string(), name.to_string());
    NodeInfo::from_properties(id, &p)
}

fn port_info(id: u32, node: u32, name: &str, dir: PortDirection) -> PortInfo {
    PortInfo {
        id: PortId::new(id),
        node_id: NodeId::new(node),
        name: name.to_string(),
        direction: dir,
        channel: None,
        physical_path: None,
        alias: None,
        is_monitor: false,
        is_control: false,
    }
}

#[test]
fn events_build_and_tear_down_the_graph() {
    let mut g = GraphState::default();
    let mut c = ConnectionState::default();
    let mut ui = UiState::new();
    apply_graph_event(&mut g, &mut c, &mut ui, GraphEvent::Connected);
    assert_eq!(c, ConnectionState::Connected);
    apply_graph_event(&mut g, &mut c, &mut ui, GraphEvent::NodeAdded(node_info(1, "a")));
    apply_graph_event(&mut g, &mut c, &mut ui, GraphEvent::NodeAdded(node_info(2, "b")));
    assert_eq!(g.get_node(&NodeId::new(1)).unwrap().layer, NodeLayer::Session);
    // A port of an unknown node is ignored.
    apply_graph_event(&mut g, &mut c, &mut ui, GraphEvent::PortAdded(port_info(99, 42, "x", PortDirection::Output)));
    assert!(g.get_port(&PortId::new(99)).is_none());
    apply_graph_event(&mut g, &mut c, &mut ui, GraphEvent::PortAdded(port_info(10, 1, "out", PortDirection::Output)));
    apply_graph_event(&mut g, &mut c, &mut ui, GraphEvent::PortAdded(port_info(20, 2, "in", PortDirection::Input)));
    assert_eq!(g.get_node(&NodeId::new(1)).unwrap().port_ids, vec![PortId::new(10)]);
    let link = LinkInfo {
        id: LinkId::new(5),
        output_port: PortId::new(10),
        input_port: PortId::new(20),
        output_node: NodeId::new(1),
        input_node: NodeId::new(2),
        state: LinkState::Active,
        active: true,
    };
    apply_graph_event(&mut g, &mut c, &mut ui, GraphEvent::LinkAdded(link));
    assert!(g.get_link(&LinkId::new(5)).is_some());
    // A link touching an unknown node is ignored.
    let stray = LinkInfo { id: LinkId::new(6), input_node: NodeId::new(77), ..link };
    apply_graph_event(&mut g, &mut c, &mut ui, GraphEvent::LinkAdded(stray));
    assert!(g.get_link(&LinkId::new(6)).is_none());
    apply_graph_event(&mut g, &mut c, &mut ui, GraphEvent::VolumeControlFailed(NodeId::new(2), "busy".to_string()));
    assert_eq!(g.volume_control_failed.get(&2), Some(&"busy".to_string()));
    apply_graph_event(&mut g, &mut c, &mut ui, GraphEvent::PortRemoved(PortId::new(20)));
    assert!(g.get_link(&LinkId::new(5)).is_none());
    apply_graph_event(&mut g, &mut c, &mut ui, GraphEvent::NodeRemoved(NodeId::new(1)));
    assert!(g.get_port(&PortId::new(10)).is_none());
    apply_graph_event(&mut g, &mut c, &mut ui, GraphEvent::Reconnecting { attempt: 1, max_attempts: 5 });
    assert_eq!(c, ConnectionState::Connecting);
    apply_graph_event(&mut g, &mut c, &mut ui, GraphEvent::Error(PwError { code: 1, message: "x".to_string() }));
    assert_eq!(c, ConnectionState::Error);
    apply_graph_event(&mut g, &mut c, &mut ui, GraphEvent::Disconnected);
    assert_eq!(c, ConnectionState::Disconnected);
    assert!(g.nodes.is_empty() && g.ports.is_empty() && g.links.is_empty() && g.volume_control_failed.is_empty());
}

#[test]
fn port_arrival_runs_the_rules() {
    let mut g = GraphState::default();
    let mut c = ConnectionState::Connected;
    let mut ui = UiState::new();
    let mut rule = ConnectionRule::new("a to b".to_string());
    rule.trigger = RuleTrigger::OnBothPresent;
    rule.connections.push(ConnectionSpec::new(MatchPattern::new("", "a", "out"), MatchPattern::new("", "b", "in")));
    ui.rules.add_rule(rule);
    apply_graph_event(&mut g, &mut c, &mut ui, GraphEvent::NodeAdded(node_info(1, "a")));
    apply_graph_event(&mut g, &mut c, &mut ui, GraphEvent::NodeAdded(node_info(2, "b")));
    apply_graph_event(&mut g, &mut c, &mut ui, GraphEvent::PortAdded(port_info(10, 1, "out", PortDirection::Output)));
    assert!(ui.rules.take_pending_connections().is_empty());
    apply_graph_event(&mut g, &mut c, &mut ui, GraphEvent::PortAdded(port_info(20, 2, "in", PortDirection::Input)));
    let pending = ui.rules.take_pending_connections();
    assert_eq!(pending.len(), 1);
    assert_eq!((pending[0].output_port, pending[0].input_port), (PortId::new(10), PortId::new(20)));
}

#[test]
fn returning_node_gets_its_marks_back() {
    let mut g = GraphState::default();
    let mut c = ConnectionState::Connected;
    let mut ui = UiState::new();
    let ident = apply_graph_event(&mut g, &mut c, &mut ui, GraphEvent::NodeAdded(node_info(1, "player"))).unwrap();
    assert_eq!(ident.name, "player");
    ui.update_uninteresting(NodeId::new(1), &ident, true);
    ui.set_custom_name(NodeId::new(1), &ident, "Music".to_string());
    let gid = ui.groups.create_group(Some("Listening".to_string()));
    let pos = ui.groups.position(&gid).unwrap();
    ui.groups.groups[pos].add_persistent_member(ident.duplicate());

    // The node leaves: its running marks go, the saved ones stay.
    assert!(apply_graph_event(&mut g, &mut c, &mut ui, GraphEvent::NodeRemoved(NodeId::new(1))).is_none());
    assert!(!ui.is_uninteresting(&NodeId::new(1)));
    assert!(ui.get_custom_name(&NodeId::new(1)).is_none());

    // It comes back under another id.
    let again = apply_graph_event(&mut g, &mut c, &mut ui, GraphEvent::NodeAdded(node_info(9, "player"))).unwrap();
    assert_eq!(again, ident);
    assert!(ui.is_uninteresting(&NodeId::new(9)));
    assert_eq!(ui.get_custom_name(&NodeId::new(9)), Some("Music"));
    assert!(ui.groups.get_group(&gid).unwrap().contains(&NodeId::new(9)));
}

#[test]
fn meter_nodes_are_known_by_their_target() {
    let mut g = GraphState::default();
    let mut c = ConnectionState::Connected;
    let mut ui = UiState::new();
    apply_graph_event(&mut g, &mut c, &mut ui, GraphEvent::NodeAdded(node_info(5, "speakers")));
    let ident = apply_graph_event(&mut g, &mut c, &mut ui, GraphEvent::NodeAdded(node_info(6, "pipeflow-meter-5"))).unwrap();
    assert_eq!(ident, NodeIdentifier::new("pipeflow-meter-for:speakers".to_string(), None, None));
    // A meter whose target is unknown keeps its own name.
    let lone = apply_graph_event(&mut g, &mut c, &mut ui, GraphEvent::NodeAdded(node_info(7, "pipeflow-meter-99"))).unwrap();
    assert_eq!(lone.name, "pipeflow-meter-99");
}

#[test]
fn meter_node_names() {
    assert!(is_metering_node("pipeflow-meter-42"));
    assert!(!is_metering_node("pipeflow-mixer-1"));
    assert_eq!(get_metering_target_id("pipeflow-meter-42"), Some(NodeId::new(42)));
    assert_eq!(get_metering_target_id("pipeflow-meter-x"), None);
    assert_eq!(get_metering_target_id("speakers"), None);
}

#[test]
fn headless_server_follows_events() {
    let mut g = GraphState::default();
    let mut c = ConnectionState::default();
    let mut ui = UiState::new();
    process_event(&mut g, &mut c, &mut ui, &GraphEvent::Connected);
    assert_eq!(c, ConnectionState::Connected);
    process_event(&mut g, &mut c, &mut ui, &GraphEvent::NodeAdded(node_info(1, "a")));
    // The server adds ports and links without checking their nodes.
    process_event(&mut g, &mut c, &mut ui, &GraphEvent::PortAdded(port_info(99, 42, "x", PortDirection::Output)));
    assert!(g.get_port(&PortId::new(99)).is_some());
    ui.select_node(NodeId::new(1));
    process_event(&mut g, &mut c, &mut ui, &GraphEvent::VolumeControlFailed(NodeId::new(1), "busy".to_string()));
    assert!(g.volume_control_failed.is_empty());
    process_event(&mut g, &mut c, &mut ui, &GraphEvent::NodeRemoved(NodeId::new(1)));
    assert!(g.get_node(&NodeId::new(1)).is_none());
    assert!(ui.selected_nodes.is_empty());
    process_event(&mut g, &mut c, &mut ui, &GraphEvent::Disconnected);
    assert_eq!(c, ConnectionState::Disconnected);
    assert!(g.ports.is_empty());
}

#[test]
fn headless_restores_marks_by_identifier() {
    let mut g = GraphState::default();
    let mut c = ConnectionState::Connected;
    let mut ui = UiState::new();
    let ident = NodeIdentifier::new("player".to_string(), None, None);
    ui.update_uninteresting(NodeId::new(3), &ident, true);
    ui.cleanup_removed_node(&NodeId::new(3));
    process_event(&mut g, &mut c, &mut ui, &GraphEvent::NodeAdded(node_info(8, "player")));
    assert!(ui.is_uninteresting(&NodeId::new(8)));
}
