use pipeflow::explain::SpecialNodeType;
use pipeflow::graph::{AudioFormat, Link, MediaClass, Node, NodeLayer, Port, PortDirection};
use pipeflow::graph_state::GraphState;
use pipeflow::ids::{LinkId, NodeId, PortId};
use pipeflow::node_text::{explain_node, explain_node_short};

const WARNING: &str = "!";

fn create_test_node(id: u32, name: &str) -> Node {
    let mut node = Node::new(NodeId::new(id), name.to_string());
    node.description = Some(format!("{} Description", name));
    node
}

#[test]
fn test_explain_basic_node() {
    let node = create_test_node(1, "TestNode");
    let graph = GraphState::default();

    let explanation = explain_node(&node, &graph, None, WARNING);

    assert!(explanation.contains("Node"));
    assert!(explanation.contains("Session"));
    assert!(explanation.contains("Not connected"));
}

#[test]
fn test_explain_audio_source() {
    let mut node = create_test_node(1, "Microphone");
    node.media_class = Some(MediaClass::AudioSource);
    node.application_name = Some("Firefox".to_string());
    node.format = Some(AudioFormat { sample_rate: 48000, channels: 2, format: "F32LE".to_string() });

    let graph = GraphState::default();
    let explanation = explain_node(&node, &graph, None, WARNING);

    assert!(explanation.contains("Audio Source"));
    assert!(explanation.contains("produces audio"));
    assert!(explanation.contains("SOURCE"));
    assert!(explanation.contains("Firefox"));
    assert!(explanation.contains("48000 Hz"));
    assert!(explanation.contains("2 channels"));
}

#[test]
fn test_explain_audio_sink() {
    let mut node = create_test_node(1, "Speakers");
    node.media_class = Some(MediaClass::AudioSink);

    let graph = GraphState::default();
    let explanation = explain_node(&node, &graph, None, WARNING);

    assert!(explanation.contains("Audio Sink"));
    assert!(explanation.contains("receives audio"));
    assert!(explanation.contains("SINK"));
}

#[test]
fn test_explain_stream_output() {
    let mut node = create_test_node(1, "Firefox");
    node.media_class = Some(MediaClass::StreamOutputAudio);

    let graph = GraphState::default();
    let explanation = explain_node(&node, &graph, None, WARNING);

    assert!(explanation.contains("APPLICATION OUTPUT"));
}

#[test]
fn test_explain_node_with_ports() {
    let node = create_test_node(1, "Mixer");
    let mut graph = GraphState::default();
    graph.add_node(node.clone());

    for i in 0..4 {
        graph.add_port(Port::new(PortId::new(10 + i), NodeId::new(1), format!("in_{}", i), PortDirection::Input));
    }
    for i in 0..2 {
        graph.add_port(Port::new(PortId::new(20 + i), NodeId::new(1), format!("out_{}", i), PortDirection::Output));
    }

    let explanation = explain_node(&node, &graph, None, WARNING);

    assert!(explanation.contains("4 inputs"));
    assert!(explanation.contains("2 outputs"));
}

#[test]
fn test_explain_short_source() {
    let mut node = create_test_node(1, "Mic");
    node.media_class = Some(MediaClass::AudioSource);

    let graph = GraphState::default();
    let short = explain_node_short(&node, &graph);

    assert!(short.contains("Audio Source"));
    assert!(short.contains("(source)"));
}

#[test]
fn test_explain_short_sink() {
    let mut node = create_test_node(1, "Speaker");
    node.media_class = Some(MediaClass::AudioSink);

    let graph = GraphState::default();
    let short = explain_node_short(&node, &graph);

    assert!(short.contains("Audio Sink"));
    assert!(short.contains("(sink)"));
}

#[test]
fn test_explain_inactive_node() {
    let mut node = create_test_node(1, "Disabled");
    node.is_active = false;

    let graph = GraphState::default();
    let explanation = explain_node(&node, &graph, None, WARNING);

    assert!(explanation.contains("inactive"));
}

#[test]
fn test_explain_hardware_layer() {
    let mut node = create_test_node(1, "ALSA Device");
    node.layer = NodeLayer::Hardware;

    let graph = GraphState::default();
    let explanation = explain_node(&node, &graph, None, WARNING);

    assert!(explanation.contains("Hardware"));
    assert!(explanation.contains("kernel drivers"));
}

#[test]
fn test_special_node_meter() {
    let node = create_test_node(1, "pipeflow-meter-123");
    assert_eq!(SpecialNodeType::detect(&node), SpecialNodeType::Meter);

    let explanation = SpecialNodeType::Meter.explanation();
    assert!(explanation.is_some());
    assert!(explanation.unwrap().contains("metering"));
}

#[test]
fn test_special_node_loopback() {
    let node = create_test_node(1, "loopback-device");
    assert_eq!(SpecialNodeType::detect(&node), SpecialNodeType::Loopback);
}

#[test]
fn test_special_node_dummy() {
    let node = create_test_node(1, "auto_null");
    assert_eq!(SpecialNodeType::detect(&node), SpecialNodeType::DummySink);
}

#[test]
fn test_special_node_regular() {
    let node = create_test_node(1, "Firefox");
    assert_eq!(SpecialNodeType::detect(&node), SpecialNodeType::Regular);
}

#[test]
fn explanation_exact_text_of_a_plain_node() {
    let node = Node::new(NodeId::new(3), "plain".to_string());
    let graph = GraphState::default();
    assert_eq!(
        explain_node(&node, &graph, None, WARNING),
        "Node\n\nLayer: Session — Application or service managed by the session manager (WirePlumber)\nNot connected to anything"
    );
    assert_eq!(explain_node_short(&node, &graph), "plain");
}

#[test]
fn explanation_lists_connections_volume_and_failure() {
    let mut graph = GraphState::default();
    let mut src = Node::new(NodeId::new(1), "src".to_string());
    src.format = Some(AudioFormat { sample_rate: 44100, channels: 1, format: "S16LE".to_string() });
    graph.add_node(src.clone());
    for (id, name) in [(2u32, "a"), (3, "b"), (4, "c"), (5, "d")] {
        let mut n = Node::new(NodeId::new(id), name.to_string());
        n.description = Some(name.to_uppercase());
        graph.add_node(n);
        graph.add_link(Link::new(LinkId::new(100 + id), PortId::new(1), PortId::new(id), NodeId::new(1), NodeId::new(id)));
    }
    graph.volume_control_failed.insert(1, "no route".to_string());
    let text = explain_node(&src, &graph, Some("50% / -6.0 dB"), WARNING);
    assert!(text.contains("Audio format: 44100 Hz, 1 channel, 16-bit bit depth"));
    assert!(text.contains("Sends audio to: "));
    assert!(text.contains(" and 2 others"));
    assert!(!text.contains("Receives audio from"));
    assert!(text.contains("Volume: 50% / -6.0 dB"));
    assert!(text.ends_with("! Volume control unavailable: no route"));
    assert_eq!(explain_node_short(&src, &graph), "4 connections");
}

#[test]
fn short_summary_parts() {
    let mut node = Node::new(NodeId::new(1), "n".to_string());
    node.media_class = Some(MediaClass::AudioSource);
    node.application_name = Some("App".to_string());
    node.layer = NodeLayer::Hardware;
    node.is_active = false;
    let graph = GraphState::default();
    assert_eq!(explain_node_short(&node, &graph), "Audio Source (source) · from App · [HW] · (inactive)");
    node.description = Some("App".to_string());
    assert_eq!(explain_node_short(&node, &graph), "Audio Source (source) · [HW] · (inactive)");
}
