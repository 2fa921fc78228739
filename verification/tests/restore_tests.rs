use pipeflow::graph::{Link, MediaClass, Node, Port, PortDirection};
use pipeflow::graph_state::GraphState;
use pipeflow::ids::{LinkId, NodeId, NodeIdentifier, PortId};
use pipeflow::restore::{create_stable_identifier, identifier_eq, nodes_with_identifier, plan_restore, restore_message};
use pipeflow::snapshots::SnapshotConnection;

fn graph() -> GraphState {
    let mut g = GraphState::default();
    let mut fx = Node::new(NodeId::new(1), "firefox".to_string());
    fx.application_name = Some("Firefox".to_string());
    fx.media_class = Some(MediaClass::StreamOutputAudio);
    g.add_node(fx);
    let mut spk = Node::new(NodeId::new(2), "speakers".to_string());
    spk.media_class = Some(MediaClass::AudioSink);
    g.add_node(spk);
    g.add_node(Node::new(NodeId::new(3), "headphones".to_string()));
    g.add_port(Port::new(PortId::new(10), NodeId::new(1), "output_FL".to_string(), PortDirection::Output));
    g.add_port(Port::new(PortId::new(20), NodeId::new(2), "playback_FL".to_string(), PortDirection::Input));
    g.add_port(Port::new(PortId::new(30), NodeId::new(3), "playback_FL".to_string(), PortDirection::Input));
    // Currently firefox plays to the headphones.
    g.add_link(Link::new(LinkId::new(100), PortId::new(10), PortId::new(30), NodeId::new(1), NodeId::new(3)));
    g
}

fn idents(g: &GraphState) -> Vec<(NodeId, NodeIdentifier)> {
    let mut v = Vec::new();
    for id in [1u32, 2, 3] {
        let n = g.get_node(&NodeId::new(id)).unwrap();
        v.push((n.id, create_stable_identifier(n, None)));
    }
    v
}

#[test]
fn stable_identifier_of_regular_and_meter_nodes() {
    let g = graph();
    let fx = g.get_node(&NodeId::new(1)).unwrap();
    let id = create_stable_identifier(fx, None);
    assert_eq!(id.name, "firefox");
    assert_eq!(id.application_name, Some("Firefox".to_string()));
    assert_eq!(id.media_class, Some("Audio Output".to_string()));
    let meter = Node::new(NodeId::new(9), "pipeflow-meter-1".to_string());
    let mid = create_stable_identifier(&meter, Some(fx));
    assert_eq!(mid.name, "pipeflow-meter-for:firefox");
    assert_eq!(mid.application_name, Some("Firefox".to_string()));
    assert!(identifier_eq(&id, &create_stable_identifier(fx, None)));
    assert!(!identifier_eq(&id, &mid));
}

#[test]
fn restore_moves_the_connection() {
    let g = graph();
    let ids = idents(&g);
    let scene = vec![SnapshotConnection {
        output_node: NodeIdentifier::new("firefox".to_string(), Some("Firefox".to_string()), Some("Audio Output".to_string())),
        output_port_name: "output_FL".to_string(),
        input_node: NodeIdentifier::new("speakers".to_string(), None, Some("Audio Sink".to_string())),
        input_port_name: "playback_FL".to_string(),
    }];
    let plan = plan_restore(&g, &ids, &scene);
    assert_eq!(plan.links_to_remove, vec![LinkId::new(100)]);
    assert_eq!(plan.links_to_create, vec![(PortId::new(10), PortId::new(20))]);
    assert_eq!(plan.unresolved, 0);
    assert_eq!(restore_message("Evening", &plan), "Restored scene 'Evening': -1 +1 links");
}

#[test]
fn restore_keeps_existing_and_counts_unresolved() {
    let g = graph();
    let ids = idents(&g);
    let scene = vec![
        SnapshotConnection {
            output_node: NodeIdentifier::new("firefox".to_string(), Some("Firefox".to_string()), Some("Audio Output".to_string())),
            output_port_name: "output_FL".to_string(),
            input_node: NodeIdentifier::new("headphones".to_string(), None, None),
            input_port_name: "playback_FL".to_string(),
        },
        SnapshotConnection {
            output_node: NodeIdentifier::new("gone".to_string(), None, None),
            output_port_name: "out".to_string(),
            input_node: NodeIdentifier::new("headphones".to_string(), None, None),
            input_port_name: "playback_FL".to_string(),
        },
    ];
    let plan = plan_restore(&g, &ids, &scene);
    assert!(plan.links_to_remove.is_empty());
    assert!(plan.links_to_create.is_empty());
    assert_eq!(plan.unresolved, 1);
    assert_eq!(restore_message("Night", &plan), "Restored scene 'Night': -0 +0 links (1 unresolved)");
}

#[test]
fn identifier_lookup() {
    let g = graph();
    let ids = idents(&g);
    let target = NodeIdentifier::new("speakers".to_string(), None, Some("Audio Sink".to_string()));
    assert_eq!(nodes_with_identifier(&ids, &target), vec![NodeId::new(2)]);
    let none = NodeIdentifier::new("speakers".to_string(), None, None);
    assert!(nodes_with_identifier(&ids, &none).is_empty());
}
