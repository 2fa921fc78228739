use pipeflow::adapter::emit_initial_state;
use pipeflow::graph::{Link, Node, Port, PortDirection};
use pipeflow::graph_events::GraphEvent;
use pipeflow::graph_state::GraphState;
use pipeflow::ids::{LinkId, NodeId, PortId};
use pipeflow::proto;
use pipeflow::safety::{SafetyController, SafetyMode};
use pipeflow::commands::{AppCommand, CommandError};
use pipeflow::server::{authenticate, execute_command, forwarded_answer, state_to_proto, CommandDecision, PROTOCOL_VERSION};
use pipeflow::state::ConnectionState;

fn request(version: u32, token: &str) -> proto::ConnectRequest {
    proto::ConnectRequest { client_id: "laptop".to_string(), protocol_version: version, token: token.to_string() }
}

#[test]
fn clients_with_the_right_version_and_token_are_accepted() {
    let token = Some("secret".to_string());
    let r = authenticate(&request(PROTOCOL_VERSION, "secret"), &token, "pipeflow-7".to_string());
    assert!(r.accepted);
    assert_eq!(r.server_id, "pipeflow-7");
    assert!(r.error.is_empty());
    assert_eq!(r.protocol_version, 1);
    // Version 0 means the client did not say.
    assert!(authenticate(&request(0, "secret"), &token, "s".to_string()).accepted);
    // Without an expected token any token is fine.
    assert!(authenticate(&request(1, "whatever"), &None, "s".to_string()).accepted);
}

#[test]
fn wrong_version_or_token_is_refused() {
    let token = Some("secret".to_string());
    let r = authenticate(&request(2, "secret"), &token, "s".to_string());
    assert!(!r.accepted);
    assert_eq!(r.error, "Protocol version mismatch: client=2, server=1");
    assert!(r.server_id.is_empty());
    let r = authenticate(&request(1, "guess"), &token, "s".to_string());
    assert!(!r.accepted);
    assert_eq!(r.error, "Invalid authentication token");
}

fn graph() -> GraphState {
    let mut g = GraphState::default();
    g.add_node(Node::new(NodeId::new(1), "synth".to_string()));
    g.add_node(Node::new(NodeId::new(2), "speakers".to_string()));
    g.add_port(Port::new(PortId::new(10), NodeId::new(1), "out".to_string(), PortDirection::Output));
    g.add_port(Port::new(PortId::new(20), NodeId::new(2), "in".to_string(), PortDirection::Input));
    g.add_link(Link::new(LinkId::new(100), PortId::new(10), PortId::new(20), NodeId::new(1), NodeId::new(2)));
    g
}

#[test]
fn graph_state_message_and_initial_events() {
    let g = graph();
    let mut safety = SafetyController::default();
    safety.set_mode(SafetyMode::Stage);
    let state = state_to_proto(&g, &safety, &ConnectionState::Connected, 9, 1234);
    assert_eq!(state.nodes.len(), 2);
    assert_eq!(state.ports.len(), 2);
    assert_eq!(state.links.len(), 1);
    assert_eq!(state.safety.unwrap().mode, proto::SafetyMode::Stage.to_i32());
    assert_eq!(state.connection.as_ref().unwrap().state, proto::ConnectionState::Connected.to_i32());
    assert_eq!(state.sequence, 9);
    assert_eq!(state.timestamp_ms, 1234);

    let events = emit_initial_state(&state);
    assert_eq!(events.len(), 5);
    assert!(matches!(events[0], GraphEvent::NodeAdded(_)));
    assert!(matches!(events[1], GraphEvent::NodeAdded(_)));
    assert!(matches!(events[2], GraphEvent::PortAdded(_)));
    assert!(matches!(events[3], GraphEvent::PortAdded(_)));
    match &events[4] {
        GraphEvent::LinkAdded(info) => assert_eq!(info.id, LinkId::new(100)),
        _ => panic!("Expected LinkAdded"),
    }
}

#[test]
fn unreadable_ports_are_not_announced() {
    let mut state = state_to_proto(&graph(), &SafetyController::default(), &ConnectionState::Disconnected, 0, 0);
    state.ports[0].direction = 9;
    let events = emit_initial_state(&state);
    assert_eq!(events.len(), 4);
}

fn command(payload: proto::CommandPayload) -> proto::Command {
    proto::Command { command: Some(payload) }
}

fn answer(d: CommandDecision) -> proto::CommandResult {
    match d {
        CommandDecision::Answer(a) => a,
        CommandDecision::Forward(c) => panic!("forwarded {:?}", c),
    }
}

#[test]
fn safety_mode_requests_set_the_mode() {
    let mut safety = SafetyController::default();
    let a = answer(execute_command(&command(proto::CommandPayload::SetSafetyMode { mode: 3 }), &mut safety));
    assert!(a.success);
    assert_eq!(a.error, "");
    assert_eq!(safety.mode, SafetyMode::Stage);
    let a = answer(execute_command(&command(proto::CommandPayload::SetSafetyMode { mode: 42 }), &mut safety));
    assert!(a.success);
    assert_eq!(safety.mode, SafetyMode::Normal);
}

#[test]
fn routing_lock_requests_are_accepted_and_ignored() {
    let mut safety = SafetyController { mode: SafetyMode::ReadOnly };
    let a = answer(execute_command(&command(proto::CommandPayload::ToggleRoutingLock), &mut safety));
    assert!(a.success);
    assert_eq!(safety.mode, SafetyMode::ReadOnly);
}

#[test]
fn unknown_and_blocked_commands_are_refused() {
    let mut safety = SafetyController::default();
    let a = answer(execute_command(&proto::Command { command: None }, &mut safety));
    assert!(!a.success);
    assert_eq!(a.error, "Unknown command");
    let a = answer(execute_command(&command(proto::CommandPayload::PanicMute), &mut safety));
    assert_eq!(a.error, "Unknown command");

    let mut read_only = SafetyController { mode: SafetyMode::ReadOnly };
    let a = answer(execute_command(
        &command(proto::CommandPayload::CreateLink { output_port_id: 1, input_port_id: 2 }),
        &mut read_only,
    ));
    assert!(!a.success);
    assert_eq!(a.error, "Command blocked by safety mode: Routing changes blocked in Read-Only mode");
}

#[test]
fn allowed_commands_are_handed_on() {
    let mut safety = SafetyController::default();
    match execute_command(&command(proto::CommandPayload::RemoveLink { link_id: 9 }), &mut safety) {
        CommandDecision::Forward(c) => assert_eq!(c, AppCommand::RemoveLink(LinkId::new(9))),
        CommandDecision::Answer(a) => panic!("answered {:?}", a),
    }
    let mut stage = SafetyController { mode: SafetyMode::Stage };
    match execute_command(&command(proto::CommandPayload::SetMute { node_id: 4, muted: true }), &mut stage) {
        CommandDecision::Forward(c) => assert_eq!(c, AppCommand::SetMute { node_id: NodeId::new(4), muted: true }),
        CommandDecision::Answer(a) => panic!("answered {:?}", a),
    }
}

#[test]
fn answers_after_hand_over() {
    assert!(forwarded_answer(&Ok(())).success);
    let a = forwarded_answer(&Err(CommandError::InvalidOperation("Not connected".to_string())));
    assert!(!a.success);
    assert_eq!(a.error, "Invalid operation: Not connected");
}

fn test_request(version: u32, token: &str) -> proto::ConnectRequest {
    proto::ConnectRequest { protocol_version: version, token: token.to_string(), client_id: "test-client".to_string() }
}

#[test]
fn test_authenticate_no_token_required() {
    let inner = authenticate(&test_request(PROTOCOL_VERSION, ""), &None, "server".to_string());
    assert!(inner.accepted);
    assert!(inner.error.is_empty());
    assert_eq!(inner.protocol_version, PROTOCOL_VERSION);
}

#[test]
fn test_authenticate_correct_token() {
    let inner = authenticate(&test_request(PROTOCOL_VERSION, "secret123"), &Some("secret123".to_string()), "server".to_string());
    assert!(inner.accepted);
}

#[test]
fn test_authenticate_wrong_token() {
    let inner = authenticate(&test_request(PROTOCOL_VERSION, "wrong_token"), &Some("secret123".to_string()), "server".to_string());
    assert!(!inner.accepted);
    assert_eq!(inner.error, "Invalid authentication token");
}

#[test]
fn test_authenticate_wrong_protocol_version() {
    let inner = authenticate(&test_request(999, ""), &None, "server".to_string());
    assert!(!inner.accepted);
    assert!(inner.error.contains("Protocol version mismatch"));
}

#[test]
fn test_authenticate_version_zero_accepted() {
    let inner = authenticate(&test_request(0, ""), &None, "server".to_string());
    assert!(inner.accepted);
}

#[test]
fn test_get_state() {
    let state = state_to_proto(&GraphState::default(), &SafetyController::default(), &ConnectionState::Disconnected, 42, 0);
    assert!(state.nodes.is_empty());
    assert!(state.ports.is_empty());
    assert!(state.links.is_empty());
    assert_eq!(state.sequence, 42);
}

#[test]
fn test_execute_command_set_safety_mode() {
    let mut safety = SafetyController::default();
    let request = proto::Command {
        command: Some(proto::CommandPayload::SetSafetyMode { mode: proto::SafetyMode::ReadOnly.to_i32() }),
    };
    assert!(answer(execute_command(&request, &mut safety)).success);
    assert_eq!(safety.mode, SafetyMode::ReadOnly);
}

#[test]
fn test_execute_command_toggle_routing_lock_is_noop() {
    let mut safety = SafetyController::default();
    let request = proto::Command { command: Some(proto::CommandPayload::ToggleRoutingLock) };
    assert!(answer(execute_command(&request, &mut safety)).success);
    assert_eq!(safety.mode, SafetyMode::Normal);
}

#[test]
fn test_execute_command_unknown() {
    let mut safety = SafetyController::default();
    let result = answer(execute_command(&proto::Command { command: None }, &mut safety));
    assert!(!result.success);
    assert_eq!(result.error, "Unknown command");
}
