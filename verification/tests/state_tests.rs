use pipeflow::graph::{Link, MediaClass, Node, NodeLayer, Port, PortDirection};
use pipeflow::graph_state::GraphState;
use pipeflow::ids::{LinkId, NodeId, PortId};
use pipeflow::state::{ConnectionState, LayerVisibility};

#[test]
fn test_graph_state_node_operations() {
    let mut state = GraphState::default();

    let node = Node::new(NodeId::new(1), "Test Node".to_string());
    state.add_node(node);

    assert!(state.get_node(&NodeId::new(1)).is_some());

    state.remove_node(&NodeId::new(1));
    assert!(state.get_node(&NodeId::new(1)).is_none());
}

#[test]
fn test_graph_state_port_operations() {
    let mut state = GraphState::default();

    let node = Node::new(NodeId::new(1), "Test Node".to_string());
    state.add_node(node);

    let port = Port::new(PortId::new(10), NodeId::new(1), "Test Port".to_string(), PortDirection::Output);
    state.add_port(port);

    assert!(state.get_port(&PortId::new(10)).is_some());
    assert!(state.get_node(&NodeId::new(1)).unwrap().port_ids.contains(&PortId::new(10)));

    state.remove_port(&PortId::new(10));
    assert!(state.get_port(&PortId::new(10)).is_none());
}

#[test]
fn test_graph_state_link_removal_on_node_removal() {
    let mut state = GraphState::default();

    state.add_node(Node::new(NodeId::new(1), "Node 1".to_string()));
    state.add_node(Node::new(NodeId::new(2), "Node 2".to_string()));
    state.add_port(Port::new(PortId::new(10), NodeId::new(1), "Out".to_string(), PortDirection::Output));
    state.add_port(Port::new(PortId::new(20), NodeId::new(2), "In".to_string(), PortDirection::Input));

    let link = Link::new(LinkId::new(100), PortId::new(10), PortId::new(20), NodeId::new(1), NodeId::new(2));
    state.add_link(link);

    assert_eq!(state.links.len(), 1);

    state.remove_node(&NodeId::new(1));
    assert_eq!(state.links.len(), 0);
}

#[test]
fn test_connection_state() {
    assert!(!ConnectionState::Disconnected.is_connected());
    assert!(!ConnectionState::Connecting.is_connected());
    assert!(ConnectionState::Connected.is_connected());
    assert!(!ConnectionState::Error.is_connected());
}

#[test]
fn test_node_lifecycle_with_ports_and_links() {
    let mut graph = GraphState::default();

    let mut src = Node::new(NodeId::new(1), "Firefox".to_string());
    src.media_class = Some(MediaClass::StreamOutputAudio);
    src.application_name = Some("Firefox".to_string());
    graph.add_node(src);

    let mut sink = Node::new(NodeId::new(2), "Speakers".to_string());
    sink.media_class = Some(MediaClass::AudioSink);
    graph.add_node(sink);

    graph.add_port(Port::new(PortId::new(10), NodeId::new(1), "output_FL".to_string(), PortDirection::Output));
    graph.add_port(Port::new(PortId::new(11), NodeId::new(1), "output_FR".to_string(), PortDirection::Output));
    graph.add_port(Port::new(PortId::new(20), NodeId::new(2), "input_FL".to_string(), PortDirection::Input));
    graph.add_port(Port::new(PortId::new(21), NodeId::new(2), "input_FR".to_string(), PortDirection::Input));

    assert_eq!(graph.get_node(&NodeId::new(1)).unwrap().port_ids.len(), 2);
    assert_eq!(graph.get_node(&NodeId::new(2)).unwrap().port_ids.len(), 2);

    graph.add_link(Link::new(LinkId::new(100), PortId::new(10), PortId::new(20), NodeId::new(1), NodeId::new(2)));
    graph.add_link(Link::new(LinkId::new(101), PortId::new(11), PortId::new(21), NodeId::new(1), NodeId::new(2)));
    assert_eq!(graph.links.len(), 2);
    assert_eq!(graph.links_for_node(&NodeId::new(1)).len(), 2);

    graph.remove_node(&NodeId::new(1));
    assert!(graph.get_node(&NodeId::new(1)).is_none());
    assert_eq!(graph.links.len(), 0, "Links should be removed when node is removed");
    assert!(graph.get_port(&PortId::new(10)).is_none(), "Ports should be removed when node is removed");

    assert!(graph.get_node(&NodeId::new(2)).is_some());
    assert_eq!(graph.get_node(&NodeId::new(2)).unwrap().port_ids.len(), 2);
}

#[test]
fn test_layer_visibility() {
    let mut vis = LayerVisibility::default();
    assert!(vis.is_visible(NodeLayer::Hardware));
    assert!(vis.is_visible(NodeLayer::Pipewire));
    assert!(vis.is_visible(NodeLayer::Session));

    vis.toggle(NodeLayer::Pipewire);
    assert!(!vis.is_visible(NodeLayer::Pipewire));
    assert!(vis.is_visible(NodeLayer::Hardware));

    vis.toggle(NodeLayer::Pipewire);
    assert!(vis.is_visible(NodeLayer::Pipewire));
}

#[test]
fn test_port_removal_cascades_to_links() {
    let mut graph = GraphState::default();

    graph.add_node(Node::new(NodeId::new(1), "Node1".to_string()));
    graph.add_node(Node::new(NodeId::new(2), "Node2".to_string()));
    graph.add_port(Port::new(PortId::new(10), NodeId::new(1), "out".to_string(), PortDirection::Output));
    graph.add_port(Port::new(PortId::new(20), NodeId::new(2), "in".to_string(), PortDirection::Input));
    graph.add_link(Link::new(LinkId::new(100), PortId::new(10), PortId::new(20), NodeId::new(1), NodeId::new(2)));

    assert_eq!(graph.links.len(), 1);
    graph.remove_port(&PortId::new(10));
    assert_eq!(graph.links.len(), 0, "Link should be removed when port is removed");
    assert!(graph.get_link(&LinkId::new(100)).is_none());
}

#[test]
fn test_graph_clear() {
    let mut graph = GraphState::default();
    graph.add_node(Node::new(NodeId::new(1), "N".to_string()));
    graph.add_port(Port::new(PortId::new(10), NodeId::new(1), "p".to_string(), PortDirection::Output));

    assert!(!graph.nodes.is_empty());
    graph.clear();

    assert!(graph.nodes.is_empty());
    assert!(graph.ports.is_empty());
    assert!(graph.links.is_empty());
    assert!(graph.volume_control_failed.is_empty());
}

#[test]
fn removing_a_node_leaves_no_dangling_port_or_link() {
    let mut graph = GraphState::default();
    graph.add_node(Node::new(NodeId::new(1), "a".to_string()));
    graph.add_node(Node::new(NodeId::new(2), "b".to_string()));
    graph.add_port(Port::new(PortId::new(10), NodeId::new(1), "out".to_string(), PortDirection::Output));
    graph.add_port(Port::new(PortId::new(20), NodeId::new(2), "in".to_string(), PortDirection::Input));
    graph.add_link(Link::new(LinkId::new(5), PortId::new(10), PortId::new(20), NodeId::new(1), NodeId::new(2)));
    let removed = graph.remove_node(&NodeId::new(2));
    assert_eq!(removed.map(|n| n.name), Some("b".to_string()));
    assert!(graph.get_port(&PortId::new(20)).is_none());
    assert!(graph.get_link(&LinkId::new(5)).is_none());
    assert!(graph.get_port(&PortId::new(10)).is_some());
    assert_eq!(graph.ports_for_node(&NodeId::new(1)).len(), 1);
    assert!(graph.remove_node(&NodeId::new(2)).is_none());
}

#[test]
fn layer_toggle_twice_restores() {
    let mut vis = LayerVisibility::default();
    vis.toggle(NodeLayer::Hardware);
    vis.toggle(NodeLayer::Hardware);
    assert_eq!(vis, LayerVisibility::default());
}
