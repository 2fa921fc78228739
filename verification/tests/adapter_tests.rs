use pipeflow::adapter::{
    connection_state_to_proto, link_info_to_proto, media_class_to_string, node_info_to_proto, node_layer_to_proto,
    node_to_proto, port_info_to_proto, proto_link_to_info, proto_node_to_info, proto_port_to_info,
};
use pipeflow::events::{LinkInfo, NodeInfo, PortInfo};
use pipeflow::graph::{AudioFormat, Link, LinkState, MediaClass, Node, NodeLayer, Port, PortDirection};
use pipeflow::ids::{ClientId, LinkId, NodeId, PortId};
use pipeflow::proto;
use pipeflow::safety::{SafetyController, SafetyMode};
use pipeflow::state::ConnectionState;

#[test]
fn test_node_to_proto() {
    let node = Node {
        id: NodeId::new(42),
        name: "Test Node".to_string(),
        client_id: Some(ClientId::new(10)),
        media_class: Some(MediaClass::AudioSink),
        application_name: Some("TestApp".to_string()),
        description: Some("A test node".to_string()),
        nick: Some("test".to_string()),
        format: Some(AudioFormat { sample_rate: 48000, channels: 2, format: "F32LE".to_string() }),
        port_ids: vec![PortId::new(1), PortId::new(2)],
        is_active: true,
        layer: NodeLayer::Session,
    };

    let proto_node: proto::Node = node_to_proto(&node);

    assert_eq!(proto_node.id, 42);
    assert_eq!(proto_node.name, "Test Node");
    assert_eq!(proto_node.client_id, Some(10));
    assert_eq!(proto_node.media_class, Some("Audio/Sink".to_string()));
    assert_eq!(proto_node.application_name, Some("TestApp".to_string()));
    assert_eq!(proto_node.description, Some("A test node".to_string()));
    assert_eq!(proto_node.nick, Some("test".to_string()));
    assert!(proto_node.format.is_some());
    let fmt = proto_node.format.unwrap();
    assert_eq!(fmt.sample_rate, 48000);
    assert_eq!(fmt.channels, 2);
    assert_eq!(fmt.format, "F32LE");
    assert_eq!(proto_node.port_ids, vec![1, 2]);
    assert!(proto_node.is_active);
    assert_eq!(proto_node.layer, proto::NodeLayer::Session as i32);
}

#[test]
fn test_node_to_proto_minimal() {
    let node = Node {
        id: NodeId::new(1),
        name: "Minimal".to_string(),
        client_id: None,
        media_class: None,
        application_name: None,
        description: None,
        nick: None,
        format: None,
        port_ids: vec![],
        is_active: false,
        layer: NodeLayer::Hardware,
    };

    let proto_node: proto::Node = node_to_proto(&node);

    assert_eq!(proto_node.id, 1);
    assert_eq!(proto_node.name, "Minimal");
    assert_eq!(proto_node.client_id, None);
    assert_eq!(proto_node.media_class, None);
    assert!(proto_node.port_ids.is_empty());
    assert!(!proto_node.is_active);
    assert_eq!(proto_node.layer, proto::NodeLayer::Hardware as i32);
}

#[test]
fn test_port_to_proto_input() {
    let port = Port {
        id: PortId::new(100),
        node_id: NodeId::new(42),
        name: "input_FL".to_string(),
        direction: PortDirection::Input,
        channel: Some(0),
        physical_path: Some("/dev/snd/pcm0".to_string()),
        alias: Some("Front Left".to_string()),
        is_monitor: false,
        is_control: false,
    };

    let proto_port: proto::Port = (&port).into();

    assert_eq!(proto_port.id, 100);
    assert_eq!(proto_port.node_id, 42);
    assert_eq!(proto_port.name, "input_FL");
    assert_eq!(proto_port.direction, proto::PortDirection::Input as i32);
    assert_eq!(proto_port.channel, Some(0));
    assert_eq!(proto_port.physical_path, Some("/dev/snd/pcm0".to_string()));
    assert_eq!(proto_port.alias, Some("Front Left".to_string()));
    assert!(!proto_port.is_monitor);
    assert!(!proto_port.is_control);
}

#[test]
fn test_port_to_proto_output() {
    let port = Port {
        id: PortId::new(200),
        node_id: NodeId::new(50),
        name: "output_FR".to_string(),
        direction: PortDirection::Output,
        channel: Some(1),
        physical_path: None,
        alias: None,
        is_monitor: true,
        is_control: false,
    };

    let proto_port: proto::Port = (&port).into();

    assert_eq!(proto_port.direction, proto::PortDirection::Output as i32);
    assert!(proto_port.is_monitor);
}

#[test]
fn test_link_to_proto() {
    let link = Link {
        id: LinkId::new(500),
        output_port: PortId::new(100),
        input_port: PortId::new(200),
        output_node: NodeId::new(10),
        input_node: NodeId::new(20),
        is_active: true,
        state: LinkState::Active,
    };

    let proto_link: proto::Link = (&link).into();

    assert_eq!(proto_link.id, 500);
    assert_eq!(proto_link.output_port_id, 100);
    assert_eq!(proto_link.input_port_id, 200);
    assert_eq!(proto_link.output_node_id, 10);
    assert_eq!(proto_link.input_node_id, 20);
    assert!(proto_link.is_active);
    assert_eq!(proto_link.state, proto::LinkState::Active as i32);
}

#[test]
fn test_link_states() {
    let states = [
        (LinkState::Init, proto::LinkState::Init),
        (LinkState::Negotiating, proto::LinkState::Negotiating),
        (LinkState::Allocating, proto::LinkState::Allocating),
        (LinkState::Paused, proto::LinkState::Paused),
        (LinkState::Active, proto::LinkState::Active),
        (LinkState::Error, proto::LinkState::Error),
        (LinkState::Unlinked, proto::LinkState::Unlinked),
    ];

    for (domain_state, expected_proto) in states {
        let link = Link {
            id: LinkId::new(1),
            output_port: PortId::new(1),
            input_port: PortId::new(2),
            output_node: NodeId::new(1),
            input_node: NodeId::new(2),
            is_active: false,
            state: domain_state,
        };

        let proto_link: proto::Link = (&link).into();
        assert_eq!(proto_link.state, expected_proto as i32);
    }
}

#[test]
fn test_safety_controller_to_proto() {
    let mut safety = SafetyController::default();
    safety.set_mode(SafetyMode::ReadOnly);

    let proto_safety: proto::SafetyStatus = (&safety).into();

    assert_eq!(proto_safety.mode, proto::SafetyMode::ReadOnly as i32);
    assert!(!proto_safety.routing_locked);
    assert!(!proto_safety.panic_active);
}

#[test]
fn test_safety_mode_from_proto() {
    assert_eq!(SafetyMode::from(proto::SafetyMode::Normal), SafetyMode::Normal);
    assert_eq!(SafetyMode::from(proto::SafetyMode::ReadOnly), SafetyMode::ReadOnly);
    assert_eq!(SafetyMode::from(proto::SafetyMode::Stage), SafetyMode::Stage);
    assert_eq!(SafetyMode::from(proto::SafetyMode::Unspecified), SafetyMode::Normal);
}

#[test]
fn test_media_class_strings() {
    let classes = [
        (MediaClass::AudioSource, "Audio/Source"),
        (MediaClass::AudioSink, "Audio/Sink"),
        (MediaClass::StreamOutputAudio, "Stream/Output/Audio"),
        (MediaClass::StreamInputAudio, "Stream/Input/Audio"),
        (MediaClass::VideoSource, "Video/Source"),
        (MediaClass::VideoSink, "Video/Sink"),
        (MediaClass::MidiSource, "Midi/Source"),
        (MediaClass::MidiSink, "Midi/Sink"),
        (MediaClass::AudioVideoSource, "Audio/Video/Source"),
        (MediaClass::AudioDevice, "Audio/Device"),
        (MediaClass::VideoDevice, "Video/Device"),
        (MediaClass::Other("Custom/Class".to_string()), "Custom/Class"),
    ];

    for (mc, expected) in classes {
        assert_eq!(media_class_to_string(&mc), expected);
    }
}

#[test]
fn test_node_layer_to_proto() {
    assert_eq!(node_layer_to_proto(&NodeLayer::Hardware), proto::NodeLayer::Hardware);
    assert_eq!(node_layer_to_proto(&NodeLayer::Pipewire), proto::NodeLayer::Pipewire);
    assert_eq!(node_layer_to_proto(&NodeLayer::Session), proto::NodeLayer::Session);
}

#[test]
fn test_proto_node_to_info() {
    let proto_node = proto::Node {
        id: 42,
        name: "Test Node".to_string(),
        client_id: Some(10),
        media_class: Some("Audio/Sink".to_string()),
        application_name: Some("TestApp".to_string()),
        description: Some("A test node".to_string()),
        nick: Some("test".to_string()),
        format: Some(proto::AudioFormat { sample_rate: 48000, channels: 2, format: "F32LE".to_string() }),
        port_ids: vec![1, 2],
        is_active: true,
        layer: proto::NodeLayer::Session as i32,
        factory_name: Some("spa-node-factory".to_string()),
        device_id: Some(5),
        object_path: Some("/devices/0".to_string()),
        link_group: None,
        client_api: Some("pipewire".to_string()),
        target_object: None,
    };

    let info = proto_node_to_info(&proto_node).unwrap();

    assert_eq!(info.id.raw(), 42);
    assert_eq!(info.name, "Test Node");
    assert_eq!(info.client_id.unwrap().raw(), 10);
    assert!(matches!(info.media_class, Some(MediaClass::AudioSink)));
    assert_eq!(info.application_name, Some("TestApp".to_string()));
    assert_eq!(info.description, Some("A test node".to_string()));
    assert_eq!(info.nick, Some("test".to_string()));

    let fmt = info.format.unwrap();
    assert_eq!(fmt.sample_rate, 48000);
    assert_eq!(fmt.channels, 2);
    assert_eq!(fmt.format, "F32LE");

    assert!(matches!(info.layer, NodeLayer::Session));
    assert_eq!(info.factory_name, Some("spa-node-factory".to_string()));
    assert_eq!(info.device_id, Some(5));
}

#[test]
fn test_proto_node_to_info_minimal() {
    let proto_node = proto::Node {
        id: 1,
        name: "Minimal".to_string(),
        client_id: None,
        media_class: None,
        application_name: None,
        description: None,
        nick: None,
        format: None,
        port_ids: vec![],
        is_active: false,
        layer: proto::NodeLayer::Hardware as i32,
        factory_name: None,
        device_id: None,
        object_path: None,
        link_group: None,
        client_api: None,
        target_object: None,
    };

    let info = proto_node_to_info(&proto_node).unwrap();

    assert_eq!(info.id.raw(), 1);
    assert_eq!(info.name, "Minimal");
    assert!(info.client_id.is_none());
    assert!(info.media_class.is_none());
    assert!(info.format.is_none());
    assert!(matches!(info.layer, NodeLayer::Hardware));
}

#[test]
fn test_proto_node_layers() {
    let test_cases = [
        (proto::NodeLayer::Hardware as i32, NodeLayer::Hardware),
        (proto::NodeLayer::Pipewire as i32, NodeLayer::Pipewire),
        (proto::NodeLayer::Session as i32, NodeLayer::Session),
        (proto::NodeLayer::Unspecified as i32, NodeLayer::Session),
    ];

    for (proto_layer, expected_layer) in test_cases {
        let proto_node = proto::Node { id: 1, name: "Test".to_string(), layer: proto_layer, ..Default::default() };

        let info = proto_node_to_info(&proto_node).unwrap();
        assert_eq!(info.layer, expected_layer, "Layer mismatch for proto value {}", proto_layer);
    }
}

#[test]
fn test_proto_port_to_info_input() {
    let proto_port = proto::Port {
        id: 100,
        node_id: 42,
        name: "input_FL".to_string(),
        direction: proto::PortDirection::Input as i32,
        channel: Some(0),
        physical_path: Some("/dev/snd/pcm0".to_string()),
        alias: Some("Front Left".to_string()),
        is_monitor: false,
        is_control: false,
    };

    let info = proto_port_to_info(&proto_port).unwrap();

    assert_eq!(info.id.raw(), 100);
    assert_eq!(info.node_id.raw(), 42);
    assert_eq!(info.name, "input_FL");
    assert!(matches!(info.direction, PortDirection::Input));
    assert_eq!(info.channel, Some(0));
    assert_eq!(info.physical_path, Some("/dev/snd/pcm0".to_string()));
    assert_eq!(info.alias, Some("Front Left".to_string()));
    assert!(!info.is_monitor);
    assert!(!info.is_control);
}

#[test]
fn test_proto_port_to_info_output() {
    let proto_port = proto::Port {
        id: 200,
        node_id: 50,
        name: "output_FR".to_string(),
        direction: proto::PortDirection::Output as i32,
        channel: Some(1),
        physical_path: None,
        alias: None,
        is_monitor: true,
        is_control: true,
    };

    let info = proto_port_to_info(&proto_port).unwrap();

    assert_eq!(info.id.raw(), 200);
    assert!(matches!(info.direction, PortDirection::Output));
    assert!(info.is_monitor);
    assert!(info.is_control);
}

#[test]
fn test_proto_port_to_info_invalid_direction() {
    let proto_port = proto::Port {
        id: 1,
        node_id: 1,
        name: "test".to_string(),
        direction: proto::PortDirection::Unspecified as i32,
        channel: None,
        physical_path: None,
        alias: None,
        is_monitor: false,
        is_control: false,
    };

    assert!(proto_port_to_info(&proto_port).is_none());
}

#[test]
fn test_proto_link_to_info() {
    let proto_link = proto::Link {
        id: 500,
        output_port_id: 100,
        input_port_id: 200,
        output_node_id: 10,
        input_node_id: 20,
        is_active: true,
        state: proto::LinkState::Active as i32,
    };

    let info = proto_link_to_info(&proto_link).unwrap();

    assert_eq!(info.id.raw(), 500);
    assert_eq!(info.output_port.raw(), 100);
    assert_eq!(info.input_port.raw(), 200);
    assert_eq!(info.output_node.raw(), 10);
    assert_eq!(info.input_node.raw(), 20);
    assert!(info.active);
    assert!(matches!(info.state, LinkState::Active));
}

#[test]
fn test_proto_link_states() {
    let test_cases = [
        (proto::LinkState::Init as i32, LinkState::Init),
        (proto::LinkState::Negotiating as i32, LinkState::Negotiating),
        (proto::LinkState::Allocating as i32, LinkState::Allocating),
        (proto::LinkState::Paused as i32, LinkState::Paused),
        (proto::LinkState::Active as i32, LinkState::Active),
        (proto::LinkState::Error as i32, LinkState::Error),
        (proto::LinkState::Unlinked as i32, LinkState::Unlinked),
    ];

    for (proto_state, expected_state) in test_cases {
        let proto_link = proto::Link {
            id: 1,
            output_port_id: 1,
            input_port_id: 2,
            output_node_id: 1,
            input_node_id: 2,
            is_active: false,
            state: proto_state,
        };

        let info = proto_link_to_info(&proto_link).unwrap();
        assert_eq!(info.state, expected_state, "State mismatch for proto value {}", proto_state);
    }
}

#[test]
fn unknown_link_state_code_is_rejected() {
    let proto_link = proto::Link {
        id: 1,
        output_port_id: 1,
        input_port_id: 2,
        output_node_id: 1,
        input_node_id: 2,
        is_active: false,
        state: 42,
    };
    assert!(proto_link_to_info(&proto_link).is_none());
    let unspecified = proto::Link { state: proto::LinkState::Unspecified as i32, ..proto_link };
    assert_eq!(proto_link_to_info(&unspecified).unwrap().state, LinkState::Init);
}

#[test]
fn port_and_link_round_trip() {
    let port = PortInfo {
        id: PortId::new(7),
        node_id: NodeId::new(3),
        name: "capture_FL".to_string(),
        direction: PortDirection::Input,
        channel: Some(0),
        physical_path: None,
        alias: Some("Front Left".to_string()),
        is_monitor: false,
        is_control: true,
    };
    let back = proto_port_to_info(&port_info_to_proto(&port)).unwrap();
    assert_eq!(back.id, port.id);
    assert_eq!(back.node_id, port.node_id);
    assert_eq!(back.name, port.name);
    assert_eq!(back.direction, port.direction);
    assert_eq!(back.alias, port.alias);
    assert_eq!(back.is_control, port.is_control);

    let link = LinkInfo {
        id: LinkId::new(9),
        output_port: PortId::new(1),
        input_port: PortId::new(2),
        output_node: NodeId::new(3),
        input_node: NodeId::new(4),
        state: LinkState::Paused,
        active: false,
    };
    assert_eq!(proto_link_to_info(&link_info_to_proto(&link)), Some(link));
}

#[test]
fn node_info_to_proto_keeps_detection_properties() {
    let info = NodeInfo {
        id: NodeId::new(5),
        name: "alsa_output".to_string(),
        client_id: None,
        media_class: Some(MediaClass::Other("Custom/Thing".to_string())),
        application_name: None,
        description: None,
        nick: None,
        format: None,
        layer: NodeLayer::Hardware,
        factory_name: Some("api.alsa.pcm.sink".to_string()),
        device_id: Some(3),
        object_path: None,
        link_group: Some("g".to_string()),
        client_api: None,
        target_object: Some(8),
    };
    let msg = node_info_to_proto(&info);
    assert!(msg.is_active);
    assert!(msg.port_ids.is_empty());
    assert_eq!(msg.media_class, Some("Custom/Thing".to_string()));
    assert_eq!(msg.layer, proto::NodeLayer::Hardware as i32);
    assert_eq!(msg.device_id, Some(3));
    assert_eq!(msg.link_group, Some("g".to_string()));
    assert_eq!(msg.target_object, Some(8));
    let back = proto_node_to_info(&msg).unwrap();
    assert_eq!(back.layer, NodeLayer::Hardware);
    assert_eq!(back.media_class, info.media_class);
}

#[test]
fn connection_status_codes() {
    let s = connection_state_to_proto(&ConnectionState::Connecting);
    assert_eq!(s.state, proto::ConnectionState::Reconnecting as i32);
    assert_eq!(s.error_message, "");
    assert_eq!(connection_state_to_proto(&ConnectionState::Connected).state, proto::ConnectionState::Connected as i32);
    assert_eq!(proto::NodeLayer::from_i32(3), Some(proto::NodeLayer::Session));
    assert_eq!(proto::NodeLayer::Session.to_i32(), proto::NodeLayer::Session as i32);
    assert_eq!(proto::PortDirection::from_i32(9), None);
}
