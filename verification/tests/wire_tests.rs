use pipeflow::adapter::{app_command_to_proto, command_from_proto, event_to_proto, proto_event_to_pw};
use pipeflow::commands::AppCommand;
use pipeflow::events::{LinkInfo, NodeInfo, PortInfo, PwError};
use pipeflow::graph::{LinkState, MediaClass, NodeLayer, PortDirection};
use pipeflow::graph_events::GraphEvent;
use pipeflow::ids::{ClientId, LinkId, NodeId, PortId};
use pipeflow::proto;

fn status(state: proto::ConnectionState, attempt: u32, max: u32, message: &str) -> proto::Event {
    proto::Event {
        sequence: 1,
        timestamp_ms: 1000,
        event: Some(proto::EventPayload::ConnectionStatus(proto::ConnectionStatus {
            state: state.to_i32(),
            reconnect_attempt: attempt,
            max_reconnect_attempts: max,
            error_message: message.to_string(),
        })),
    }
}

// ---------------------------------------------------------------------------
// Commands from the wire
// ---------------------------------------------------------------------------

#[test]
fn test_command_from_proto_create_link() {
    let cmd = proto::Command {
        command: Some(proto::CommandPayload::CreateLink { output_port_id: 100, input_port_id: 200 }),
    };

    let app_cmd = command_from_proto(&cmd).unwrap();
    match app_cmd {
        AppCommand::CreateLink { output_port, input_port } => {
            assert_eq!(output_port.raw(), 100);
            assert_eq!(input_port.raw(), 200);
        }
        _ => panic!("Expected CreateLink command"),
    }
}

#[test]
fn test_command_from_proto_remove_link() {
    let cmd = proto::Command { command: Some(proto::CommandPayload::RemoveLink { link_id: 500 }) };

    let app_cmd = command_from_proto(&cmd).unwrap();
    match app_cmd {
        AppCommand::RemoveLink(link_id) => {
            assert_eq!(link_id.raw(), 500);
        }
        _ => panic!("Expected RemoveLink command"),
    }
}

#[test]
fn test_command_from_proto_toggle_link() {
    let cmd = proto::Command { command: Some(proto::CommandPayload::ToggleLink { link_id: 500, active: false }) };

    let app_cmd = command_from_proto(&cmd).unwrap();
    match app_cmd {
        AppCommand::ToggleLink { link_id, active } => {
            assert_eq!(link_id.raw(), 500);
            assert!(!active);
        }
        _ => panic!("Expected ToggleLink command"),
    }
}

#[test]
fn test_command_from_proto_set_mute() {
    let cmd = proto::Command { command: Some(proto::CommandPayload::SetMute { node_id: 42, muted: true }) };

    let app_cmd = command_from_proto(&cmd).unwrap();
    match app_cmd {
        AppCommand::SetMute { node_id, muted } => {
            assert_eq!(node_id.raw(), 42);
            assert!(muted);
        }
        _ => panic!("Expected SetMute command"),
    }
}

#[test]
fn test_command_from_proto_panic_commands_return_none() {
    let cmd = proto::Command { command: Some(proto::CommandPayload::PanicMute) };
    assert!(command_from_proto(&cmd).is_none());

    let cmd = proto::Command { command: Some(proto::CommandPayload::PanicRestore) };
    assert!(command_from_proto(&cmd).is_none());
}

#[test]
fn test_command_from_proto_safety_mode_returns_none() {
    let cmd = proto::Command {
        command: Some(proto::CommandPayload::SetSafetyMode { mode: proto::SafetyMode::ReadOnly.to_i32() }),
    };

    assert!(command_from_proto(&cmd).is_none());
}

#[test]
fn test_command_from_proto_routing_lock_returns_none() {
    let cmd = proto::Command { command: Some(proto::CommandPayload::ToggleRoutingLock) };

    assert!(command_from_proto(&cmd).is_none());
}

#[test]
fn test_command_from_proto_empty_returns_none() {
    let cmd = proto::Command { command: None };
    assert!(command_from_proto(&cmd).is_none());
}

// ---------------------------------------------------------------------------
// Events to the wire
// ---------------------------------------------------------------------------

#[test]
fn test_event_to_proto_connected() {
    let event = GraphEvent::Connected;
    let proto_event = event_to_proto(&event, 1, 1000).unwrap();

    assert_eq!(proto_event.sequence, 1);
    assert_eq!(proto_event.timestamp_ms, 1000);

    match proto_event.event.unwrap() {
        proto::EventPayload::ConnectionStatus(status) => {
            assert_eq!(status.state, proto::ConnectionState::Connected.to_i32());
        }
        _ => panic!("Expected ConnectionStatus event"),
    }
}

#[test]
fn test_event_to_proto_disconnected() {
    let event = GraphEvent::Disconnected;
    let proto_event = event_to_proto(&event, 2, 2000).unwrap();

    match proto_event.event.unwrap() {
        proto::EventPayload::ConnectionStatus(status) => {
            assert_eq!(status.state, proto::ConnectionState::Disconnected.to_i32());
        }
        _ => panic!("Expected ConnectionStatus event"),
    }
}

#[test]
fn test_event_to_proto_reconnecting() {
    let event = GraphEvent::Reconnecting { attempt: 2, max_attempts: 5 };
    let proto_event = event_to_proto(&event, 3, 3000).unwrap();

    match proto_event.event.unwrap() {
        proto::EventPayload::ConnectionStatus(status) => {
            assert_eq!(status.state, proto::ConnectionState::Reconnecting.to_i32());
            assert_eq!(status.reconnect_attempt, 2);
            assert_eq!(status.max_reconnect_attempts, 5);
        }
        _ => panic!("Expected ConnectionStatus event"),
    }
}

#[test]
fn test_event_to_proto_error() {
    let event = GraphEvent::Error(PwError { code: -1, message: "Test error".to_string() });
    let proto_event = event_to_proto(&event, 4, 4000).unwrap();

    match proto_event.event.unwrap() {
        proto::EventPayload::ConnectionStatus(status) => {
            assert_eq!(status.state, proto::ConnectionState::Error.to_i32());
            assert_eq!(status.error_message, "Test error");
        }
        _ => panic!("Expected ConnectionStatus event"),
    }
}

fn test_node_info() -> NodeInfo {
    NodeInfo {
        id: NodeId::new(42),
        name: "Test Node".to_string(),
        client_id: Some(ClientId::new(10)),
        media_class: Some(MediaClass::AudioSource),
        application_name: Some("TestApp".to_string()),
        description: None,
        nick: None,
        format: None,
        layer: NodeLayer::Session,
        factory_name: None,
        device_id: None,
        object_path: None,
        link_group: None,
        client_api: None,
        target_object: None,
    }
}

#[test]
fn test_event_to_proto_node_added() {
    let event = GraphEvent::NodeAdded(test_node_info());
    let proto_event = event_to_proto(&event, 5, 5000).unwrap();

    match proto_event.event.unwrap() {
        proto::EventPayload::NodeAdded(added) => {
            let node = added.unwrap();
            assert_eq!(node.id, 42);
            assert_eq!(node.name, "Test Node");
        }
        _ => panic!("Expected NodeAdded event"),
    }
}

#[test]
fn test_event_to_proto_node_removed() {
    let event = GraphEvent::NodeRemoved(NodeId::new(42));
    let proto_event = event_to_proto(&event, 6, 6000).unwrap();

    match proto_event.event.unwrap() {
        proto::EventPayload::NodeRemoved(node_id) => {
            assert_eq!(node_id, 42);
        }
        _ => panic!("Expected NodeRemoved event"),
    }
}

#[test]
fn test_event_to_proto_port_added() {
    let port_info = PortInfo {
        id: PortId::new(100),
        node_id: NodeId::new(42),
        name: "output_FL".to_string(),
        direction: PortDirection::Output,
        channel: Some(0),
        physical_path: None,
        alias: None,
        is_monitor: false,
        is_control: false,
    };
    let event = GraphEvent::PortAdded(port_info);
    let proto_event = event_to_proto(&event, 7, 7000).unwrap();

    match proto_event.event.unwrap() {
        proto::EventPayload::PortAdded(added) => {
            let port = added.unwrap();
            assert_eq!(port.id, 100);
            assert_eq!(port.node_id, 42);
        }
        _ => panic!("Expected PortAdded event"),
    }
}

#[test]
fn test_event_to_proto_port_removed() {
    let event = GraphEvent::PortRemoved(PortId::new(100));
    let proto_event = event_to_proto(&event, 8, 8000).unwrap();

    match proto_event.event.unwrap() {
        proto::EventPayload::PortRemoved(port_id) => {
            assert_eq!(port_id, 100);
        }
        _ => panic!("Expected PortRemoved event"),
    }
}

#[test]
fn test_event_to_proto_link_added() {
    let link_info = LinkInfo {
        id: LinkId::new(500),
        output_port: PortId::new(100),
        input_port: PortId::new(200),
        output_node: NodeId::new(10),
        input_node: NodeId::new(20),
        state: LinkState::Active,
        active: true,
    };
    let event = GraphEvent::LinkAdded(link_info);
    let proto_event = event_to_proto(&event, 9, 9000).unwrap();

    match proto_event.event.unwrap() {
        proto::EventPayload::LinkAdded(added) => {
            let link = added.unwrap();
            assert_eq!(link.id, 500);
            assert!(link.is_active);
        }
        _ => panic!("Expected LinkAdded event"),
    }
}

#[test]
fn test_event_to_proto_link_removed() {
    let event = GraphEvent::LinkRemoved(LinkId::new(500));
    let proto_event = event_to_proto(&event, 10, 10000).unwrap();

    match proto_event.event.unwrap() {
        proto::EventPayload::LinkRemoved(link_id) => {
            assert_eq!(link_id, 500);
        }
        _ => panic!("Expected LinkRemoved event"),
    }
}

#[test]
fn test_event_to_proto_mute_changed() {
    let event = GraphEvent::MuteChanged(NodeId::new(42), true);
    let proto_event = event_to_proto(&event, 12, 12000).unwrap();

    match proto_event.event.unwrap() {
        proto::EventPayload::MuteChanged { node_id, muted } => {
            assert_eq!(node_id, 42);
            assert!(muted);
        }
        _ => panic!("Expected MuteChanged event"),
    }
}

#[test]
fn volume_control_failure_has_no_message() {
    let event = GraphEvent::VolumeControlFailed(NodeId::new(42), "busy".to_string());
    assert!(event_to_proto(&event, 13, 13000).is_none());
}

// ---------------------------------------------------------------------------
// Commands to the wire
// ---------------------------------------------------------------------------

#[test]
fn test_app_command_to_proto_create_link() {
    let cmd = AppCommand::CreateLink { output_port: PortId::new(100), input_port: PortId::new(200) };
    let proto_cmd = app_command_to_proto(&cmd);
    match proto_cmd.command.unwrap() {
        proto::CommandPayload::CreateLink { output_port_id, input_port_id } => {
            assert_eq!(output_port_id, 100);
            assert_eq!(input_port_id, 200);
        }
        _ => panic!("Expected CreateLink command"),
    }
}

#[test]
fn test_app_command_to_proto_remove_link() {
    let cmd = AppCommand::RemoveLink(LinkId::new(500));
    let proto_cmd = app_command_to_proto(&cmd);
    match proto_cmd.command.unwrap() {
        proto::CommandPayload::RemoveLink { link_id } => {
            assert_eq!(link_id, 500);
        }
        _ => panic!("Expected RemoveLink command"),
    }
}

#[test]
fn test_app_command_to_proto_toggle_link() {
    let cmd = AppCommand::ToggleLink { link_id: LinkId::new(500), active: false };
    let proto_cmd = app_command_to_proto(&cmd);
    match proto_cmd.command.unwrap() {
        proto::CommandPayload::ToggleLink { link_id, active } => {
            assert_eq!(link_id, 500);
            assert!(!active);
        }
        _ => panic!("Expected ToggleLink command"),
    }
}

#[test]
fn test_app_command_to_proto_set_mute() {
    let cmd = AppCommand::SetMute { node_id: NodeId::new(42), muted: true };
    let proto_cmd = app_command_to_proto(&cmd);
    match proto_cmd.command.unwrap() {
        proto::CommandPayload::SetMute { node_id, muted } => {
            assert_eq!(node_id, 42);
            assert!(muted);
        }
        _ => panic!("Expected SetMute command"),
    }
}

#[test]
fn test_app_command_to_proto_local_only_commands() {
    let local_commands = [AppCommand::Disconnect, AppCommand::StartAllMeters, AppCommand::StopAllMeters];
    for cmd in local_commands {
        let proto_cmd = app_command_to_proto(&cmd);
        assert!(proto_cmd.command.is_none(), "Local command should not produce proto: {:?}", cmd);
    }
}

#[test]
fn network_commands_round_trip() {
    let cmds = [
        AppCommand::CreateLink { output_port: PortId::new(7), input_port: PortId::new(9) },
        AppCommand::RemoveLink(LinkId::new(3)),
        AppCommand::ToggleLink { link_id: LinkId::new(4), active: true },
        AppCommand::SetMute { node_id: NodeId::new(5), muted: false },
    ];
    for cmd in cmds {
        assert_eq!(command_from_proto(&app_command_to_proto(&cmd)), Some(cmd));
    }
    assert_eq!(command_from_proto(&app_command_to_proto(&AppCommand::Disconnect)), None);
}

// ---------------------------------------------------------------------------
// Events from the wire
// ---------------------------------------------------------------------------

#[test]
fn test_proto_event_to_pw_connected() {
    let pw_event = proto_event_to_pw(&status(proto::ConnectionState::Connected, 0, 0, "")).unwrap();
    assert!(matches!(pw_event, GraphEvent::Connected));
}

#[test]
fn test_proto_event_to_pw_disconnected() {
    let pw_event = proto_event_to_pw(&status(proto::ConnectionState::Disconnected, 0, 0, "")).unwrap();
    assert!(matches!(pw_event, GraphEvent::Disconnected));
}

#[test]
fn test_proto_event_to_pw_reconnecting() {
    let pw_event = proto_event_to_pw(&status(proto::ConnectionState::Reconnecting, 2, 5, "")).unwrap();
    match pw_event {
        GraphEvent::Reconnecting { attempt, max_attempts } => {
            assert_eq!(attempt, 2);
            assert_eq!(max_attempts, 5);
        }
        _ => panic!("Expected Reconnecting event"),
    }
}

#[test]
fn test_proto_event_to_pw_error() {
    let pw_event = proto_event_to_pw(&status(proto::ConnectionState::Error, 0, 0, "Test error")).unwrap();
    match pw_event {
        GraphEvent::Error(err) => {
            assert_eq!(err.message, "Test error");
            assert_eq!(err.code, -1);
        }
        _ => panic!("Expected Error event"),
    }
}

#[test]
fn unspecified_or_unknown_connection_state_is_ignored() {
    assert!(proto_event_to_pw(&status(proto::ConnectionState::Unspecified, 0, 0, "")).is_none());
    let mut unknown = status(proto::ConnectionState::Connected, 0, 0, "");
    if let Some(proto::EventPayload::ConnectionStatus(st)) = unknown.event.as_mut() {
        st.state = 17;
    }
    assert!(proto_event_to_pw(&unknown).is_none());
}

#[test]
fn test_proto_event_to_pw_node_added() {
    let proto_event = proto::Event {
        sequence: 5,
        timestamp_ms: 5000,
        event: Some(proto::EventPayload::NodeAdded(Some(proto::Node {
            id: 42,
            name: "Test Node".to_string(),
            ..Default::default()
        }))),
    };
    let pw_event = proto_event_to_pw(&proto_event).unwrap();
    match pw_event {
        GraphEvent::NodeAdded(info) => {
            assert_eq!(info.id.raw(), 42);
            assert_eq!(info.name, "Test Node");
        }
        _ => panic!("Expected NodeAdded event"),
    }
}

#[test]
fn test_proto_event_to_pw_node_removed() {
    let proto_event = proto::Event { sequence: 6, timestamp_ms: 6000, event: Some(proto::EventPayload::NodeRemoved(42)) };
    let pw_event = proto_event_to_pw(&proto_event).unwrap();
    match pw_event {
        GraphEvent::NodeRemoved(id) => {
            assert_eq!(id.raw(), 42);
        }
        _ => panic!("Expected NodeRemoved event"),
    }
}

#[test]
fn test_proto_event_to_pw_port_added() {
    let proto_event = proto::Event {
        sequence: 7,
        timestamp_ms: 7000,
        event: Some(proto::EventPayload::PortAdded(Some(proto::Port {
            id: 100,
            node_id: 42,
            name: "test_port".to_string(),
            direction: proto::PortDirection::Output.to_i32(),
            channel: None,
            physical_path: None,
            alias: None,
            is_monitor: false,
            is_control: false,
        }))),
    };
    let pw_event = proto_event_to_pw(&proto_event).unwrap();
    match pw_event {
        GraphEvent::PortAdded(info) => {
            assert_eq!(info.id.raw(), 100);
            assert_eq!(info.node_id.raw(), 42);
        }
        _ => panic!("Expected PortAdded event"),
    }
}

#[test]
fn test_proto_event_to_pw_port_removed() {
    let proto_event = proto::Event { sequence: 8, timestamp_ms: 8000, event: Some(proto::EventPayload::PortRemoved(100)) };
    let pw_event = proto_event_to_pw(&proto_event).unwrap();
    match pw_event {
        GraphEvent::PortRemoved(id) => {
            assert_eq!(id.raw(), 100);
        }
        _ => panic!("Expected PortRemoved event"),
    }
}

#[test]
fn test_proto_event_to_pw_link_added() {
    let proto_event = proto::Event {
        sequence: 9,
        timestamp_ms: 9000,
        event: Some(proto::EventPayload::LinkAdded(Some(proto::Link {
            id: 500,
            output_port_id: 100,
            input_port_id: 200,
            output_node_id: 10,
            input_node_id: 20,
            is_active: true,
            state: proto::LinkState::Active.to_i32(),
        }))),
    };
    let pw_event = proto_event_to_pw(&proto_event).unwrap();
    match pw_event {
        GraphEvent::LinkAdded(info) => {
            assert_eq!(info.id.raw(), 500);
            assert!(info.active);
        }
        _ => panic!("Expected LinkAdded event"),
    }
}

#[test]
fn test_proto_event_to_pw_link_removed() {
    let proto_event = proto::Event { sequence: 10, timestamp_ms: 10000, event: Some(proto::EventPayload::LinkRemoved(500)) };
    let pw_event = proto_event_to_pw(&proto_event).unwrap();
    match pw_event {
        GraphEvent::LinkRemoved(id) => {
            assert_eq!(id.raw(), 500);
        }
        _ => panic!("Expected LinkRemoved event"),
    }
}

#[test]
fn test_proto_event_to_pw_mute_changed() {
    let proto_event = proto::Event {
        sequence: 12,
        timestamp_ms: 12000,
        event: Some(proto::EventPayload::MuteChanged { node_id: 42, muted: true }),
    };
    let pw_event = proto_event_to_pw(&proto_event).unwrap();
    match pw_event {
        GraphEvent::MuteChanged(node_id, muted) => {
            assert_eq!(node_id.raw(), 42);
            assert!(muted);
        }
        _ => panic!("Expected MuteChanged event"),
    }
}

#[test]
fn test_proto_event_to_pw_safety_status_returns_none() {
    let proto_event = proto::Event {
        sequence: 13,
        timestamp_ms: 13000,
        event: Some(proto::EventPayload::SafetyStatus(proto::SafetyStatus {
            mode: proto::SafetyMode::Normal.to_i32(),
            routing_locked: false,
            panic_active: false,
        })),
    };
    assert!(proto_event_to_pw(&proto_event).is_none());
}

#[test]
fn test_proto_event_to_pw_empty_event() {
    let proto_event = proto::Event { sequence: 14, timestamp_ms: 14000, event: None };
    assert!(proto_event_to_pw(&proto_event).is_none());
}

#[test]
fn missing_items_are_ignored() {
    for payload in [proto::EventPayload::NodeAdded(None), proto::EventPayload::PortAdded(None), proto::EventPayload::LinkAdded(None)] {
        let e = proto::Event { sequence: 1, timestamp_ms: 1, event: Some(payload) };
        assert!(proto_event_to_pw(&e).is_none());
    }
}

#[test]
fn node_event_round_trip() {
    let event = GraphEvent::NodeAdded(test_node_info());
    let back = proto_event_to_pw(&event_to_proto(&event, 1, 2).unwrap()).unwrap();
    match back {
        GraphEvent::NodeAdded(info) => {
            assert_eq!(info.id, NodeId::new(42));
            assert_eq!(info.name, "Test Node");
            assert_eq!(info.client_id, Some(ClientId::new(10)));
            assert_eq!(info.media_class, Some(MediaClass::AudioSource));
            assert_eq!(info.application_name, Some("TestApp".to_string()));
            assert_eq!(info.layer, NodeLayer::Session);
        }
        _ => panic!("Expected NodeAdded event"),
    }
}
