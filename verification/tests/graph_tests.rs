use pipeflow::graph::{LinkState, MediaClass, Node, Port, PortDirection};
use pipeflow::ids::{NodeId, PortId};

#[test]
fn test_media_class_parsing() {
    assert_eq!("Audio/Source".parse::<MediaClass>().unwrap(), MediaClass::AudioSource);
    assert_eq!("Audio/Sink".parse::<MediaClass>().unwrap(), MediaClass::AudioSink);
    assert_eq!(
        "Stream/Output/Audio".parse::<MediaClass>().unwrap(),
        MediaClass::StreamOutputAudio
    );
    assert!(matches!(
        "Custom/Class".parse::<MediaClass>().unwrap(),
        MediaClass::Other(_)
    ));
    assert_eq!(MediaClass::from_pipewire_str("Audio/Source"), MediaClass::AudioSource);
}

#[test]
fn test_media_class_categories() {
    assert!(MediaClass::AudioSource.is_audio());
    assert!(!MediaClass::AudioSource.is_video());
    assert!(MediaClass::VideoSource.is_video());
    assert!(MediaClass::MidiSource.is_midi());
}

#[test]
fn test_port_direction() {
    let input = PortDirection::from_str("in").unwrap();
    let output = PortDirection::from_str("out").unwrap();

    assert_eq!(input, PortDirection::Input);
    assert_eq!(output, PortDirection::Output);
    assert_eq!(input.opposite(), PortDirection::Output);
    assert_eq!(output.opposite(), PortDirection::Input);
}

#[test]
fn test_port_can_connect() {
    let port1 = Port::new(PortId::new(1), NodeId::new(10), "out".to_string(), PortDirection::Output);
    let port2 = Port::new(PortId::new(2), NodeId::new(20), "in".to_string(), PortDirection::Input);
    let port3 = Port::new(PortId::new(3), NodeId::new(10), "in".to_string(), PortDirection::Input);
    let port4 = Port::new(PortId::new(4), NodeId::new(30), "out".to_string(), PortDirection::Output);

    assert!(port1.can_connect_to(&port2));
    assert!(port1.can_connect_to(&port3));
    assert!(!port1.can_connect_to(&port4));
}

#[test]
fn test_node_display_name() {
    let mut node = Node::new(NodeId::new(1), "raw_name".to_string());
    assert_eq!(node.display_name(), "raw_name");

    node.description = Some("Description".to_string());
    assert_eq!(node.display_name(), "Description");

    node.application_name = Some("App Name".to_string());
    node.nick = Some("Nickname".to_string());
    assert_eq!(node.display_name(), "Description");
}

#[test]
fn test_link_state_healthy() {
    assert!(LinkState::Active.is_healthy());
    assert!(LinkState::Paused.is_healthy());
    assert!(!LinkState::Error.is_healthy());
    assert!(!LinkState::Init.is_healthy());
}

#[test]
fn media_class_unknown_text_is_kept() {
    match MediaClass::from_pipewire_str("Custom/Class") {
        MediaClass::Other(s) => assert_eq!(s, "Custom/Class"),
        other => panic!("unexpected class {:?}", other),
    }
    assert_eq!(MediaClass::from_pipewire_str("Midi/Bridge"), MediaClass::MidiSource);
}

#[test]
fn port_display_name_prefers_alias() {
    let mut port = Port::new(PortId::new(1), NodeId::new(1), "capture_FL".to_string(), PortDirection::Output);
    assert_eq!(port.display_name(), "capture_FL");
    port.alias = Some("Front Left".to_string());
    assert_eq!(port.display_name(), "Front Left");
}
