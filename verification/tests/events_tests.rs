use pipeflow::events::{ClientInfo, DeviceInfo, LinkInfo, NodeInfo, PortInfo, PwError};
use pipeflow::graph::{LinkState, MediaClass, NodeLayer, PortDirection};
use pipeflow::properties::Properties;

fn props(pairs: &[(&str, &str)]) -> Properties {
    let mut p = Properties::new();
    for (k, v) in pairs {
        p.insert(k.to_string(), v.to_string());
    }
    p
}

#[test]
fn test_node_info_from_properties() {
    let props = props(&[
        ("node.name", "My Node"),
        ("media.class", "Audio/Sink"),
        ("node.description", "My Description"),
        ("application.name", "My App"),
    ]);

    let info = NodeInfo::from_properties(42, &props);

    assert_eq!(info.id.raw(), 42);
    assert_eq!(info.name, "My Node");
    assert_eq!(info.media_class, Some(MediaClass::AudioSink));
    assert_eq!(info.description, Some("My Description".to_string()));
}

#[test]
fn test_port_info_from_properties() {
    let props = props(&[
        ("port.name", "output_FL"),
        ("port.direction", "out"),
        ("node.id", "10"),
        ("audio.channel", "0"),
    ]);

    let info = PortInfo::from_properties(100, &props);

    assert_eq!(info.id.raw(), 100);
    assert_eq!(info.node_id.raw(), 10);
    assert_eq!(info.name, "output_FL");
    assert_eq!(info.direction, PortDirection::Output);
    assert_eq!(info.channel, Some(0));
}

#[test]
fn test_link_info_from_properties() {
    let props = props(&[
        ("link.output.port", "10"),
        ("link.input.port", "20"),
        ("link.output.node", "1"),
        ("link.input.node", "2"),
    ]);

    let info = LinkInfo::from_properties(200, &props);

    assert_eq!(info.id.raw(), 200);
    assert_eq!(info.output_port.raw(), 10);
    assert_eq!(info.input_port.raw(), 20);
    assert_eq!(info.output_node.raw(), 1);
    assert_eq!(info.input_node.raw(), 2);
    assert_eq!(info.state, LinkState::Init);
    assert!(info.active);
}

#[test]
fn missing_properties_use_defaults() {
    let empty = Properties::new();
    let node = NodeInfo::from_properties(7, &empty);
    assert_eq!(node.name, "Node 7");
    assert_eq!(node.layer, NodeLayer::Session);
    let fmt = node.format.unwrap();
    assert_eq!((fmt.sample_rate, fmt.channels, fmt.format.as_str()), (48000, 2, "F32LE"));
    let port = PortInfo::from_properties(3, &empty);
    assert_eq!(port.name, "Port 3");
    assert_eq!(port.direction, PortDirection::Output);
    assert_eq!(port.node_id.raw(), 0);
    let client = ClientInfo::from_properties(4, &props(&[("application.process.id", "123")]));
    assert_eq!(client.name, "Client 4");
    assert_eq!(client.pid, Some(123));
    let device = DeviceInfo::from_properties(5, &props(&[("device.name", "card0")]));
    assert_eq!(device.name, "card0");
}

#[test]
fn layer_detection_rules() {
    let hw = NodeInfo::from_properties(1, &props(&[("device.id", "3")]));
    assert_eq!(hw.layer, NodeLayer::Hardware);
    let alsa = NodeInfo::from_properties(1, &props(&[("factory.name", "api.alsa.pcm.sink")]));
    assert_eq!(alsa.layer, NodeLayer::Hardware);
    let adapter = NodeInfo::from_properties(1, &props(&[("factory.name", "adapter")]));
    assert_eq!(adapter.layer, NodeLayer::Pipewire);
    let split = NodeInfo::from_properties(1, &props(&[("node.link-group", "g")]));
    assert_eq!(split.layer, NodeLayer::Pipewire);
    let passthrough = NodeInfo::from_properties(1, &props(&[("monitor.passthrough", "true")]));
    assert_eq!(passthrough.layer, NodeLayer::Pipewire);
    let app = NodeInfo::from_properties(1, &props(&[("client.api", "pipewire-pulse")]));
    assert_eq!(app.layer, NodeLayer::Session);
}

#[test]
fn numbers_parse_strictly() {
    let p = PortInfo::from_properties(1, &props(&[("node.id", "4294967296"), ("audio.channel", "+2")]));
    assert_eq!(p.node_id.raw(), 0);
    assert_eq!(p.channel, Some(2));
    let q = PortInfo::from_properties(1, &props(&[("port.monitor", "true"), ("port.control", "yes")]));
    assert!(q.is_monitor);
    assert!(!q.is_control);
}

#[test]
fn pw_error_text() {
    let e = PwError { code: -32, message: "broken pipe".to_string() };
    assert_eq!(e.to_message(), "PipeWire error -32: broken pipe");
}
