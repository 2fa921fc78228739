//! The decisions of the remote-control server: whether a client is let in,
//! the graph state a client is sent when it asks, and what becomes of a
//! client's command.

use vstd::prelude::*;

use crate::adapter::{
    command_from_proto, command_of_message, connection_message, connection_state_to_proto, link_message, mode_message,
    mode_of_message, node_message, node_to_proto, port_message,
};
use crate::commands::{validation_outcome, AppCommand, CommandError};
use crate::graph::{Link, Node, Port};
use crate::graph_state::{GraphState, every_key, exactly_values};
use crate::proto;
use crate::safety::{SafetyController, SafetyMode};
use crate::state::ConnectionState;
use crate::text::{decimal, owned, push_decimal, push_str, str_eq};

verus! {

/// The protocol version this server speaks.
pub const PROTOCOL_VERSION: u32 = 1;

/// Why a client is refused, if it is: a client that names a protocol version
/// (0 names none) other than the server's, or, when the server expects a
/// token, a client with another token.
pub open spec fn refusal(protocol_version: u32, token: Seq<char>, expected: Option<Seq<char>>) -> Option<Seq<char>> {
    if protocol_version != 0 && protocol_version != PROTOCOL_VERSION {
        Some("Protocol version mismatch: client="@ + decimal(protocol_version as nat) + ", server="@ + decimal(PROTOCOL_VERSION as nat))
    } else {
        match expected {
            Some(t) => if token != t { Some("Invalid authentication token"@) } else { None },
            None => None,
        }
    }
}

/// Answers a connection request: refused with the reason (see `refusal`) and
/// no server id, or accepted with the server's id; always with the server's
/// protocol version.
pub fn authenticate(req: &proto::ConnectRequest, expected_token: &Option<String>, server_id: String) -> (r: proto::ConnectResponse)
    ensures
        r.protocol_version == PROTOCOL_VERSION,
        match refusal(req.protocol_version, req.token@, match expected_token { Some(t) => Some(t@), None => None }) {
            Some(reason) => !r.accepted && r.error@ == reason && r.server_id@.len() == 0,
            None => r.accepted && r.error@.len() == 0 && r.server_id == server_id,
        },
{
    if req.protocol_version != 0 && req.protocol_version != PROTOCOL_VERSION {
        let mut error = owned("Protocol version mismatch: client=");
        push_decimal(&mut error, req.protocol_version as u64);
        push_str(&mut error, ", server=");
        push_decimal(&mut error, PROTOCOL_VERSION as u64);
        return proto::ConnectResponse { accepted: false, protocol_version: PROTOCOL_VERSION, error, server_id: String::new() };
    }
    match expected_token {
        Some(expected) => {
            if !str_eq(req.token.as_str(), expected.as_str()) {
                return proto::ConnectResponse {
                    accepted: false,
                    protocol_version: PROTOCOL_VERSION,
                    error: owned("Invalid authentication token"),
                    server_id: String::new(),
                };
            }
        },
        None => {},
    }
    proto::ConnectResponse { accepted: true, protocol_version: PROTOCOL_VERSION, error: String::new(), server_id }
}

/// The graph state sent to a client: every node, port and link once (in the
/// maps' order), the safety status, the connection status, the sequence number
/// and the time stamp given.
pub fn state_to_proto(graph: &GraphState, safety: &SafetyController, connection: &ConnectionState, sequence: u64, timestamp_ms: u64) -> (r: proto::GraphState)
    ensures
        exists|nv: Seq<Node>| exactly_values(nv, graph.nodes@, every_key()) && r.nodes@.len() == nv.len()
            && forall|i: int| 0 <= i < nv.len() ==> #[trigger] node_message(r.nodes@[i], nv[i]),
        exists|pv: Seq<Port>| exactly_values(pv, graph.ports@, every_key()) && r.ports@ == pv.map_values(|p: Port| port_message(p)),
        exists|lv: Seq<Link>| exactly_values(lv, graph.links@, every_key()) && r.links@ == lv.map_values(|l: Link| link_message(l)),
        r.safety == Some(proto::SafetyStatus { mode: mode_message(safety.mode).value(), routing_locked: false, panic_active: false }),
        r.connection matches Some(c) && c.state == connection_message(*connection).value() && c.reconnect_attempt == 0
            && c.max_reconnect_attempts == 0 && c.error_message@.len() == 0,
        r.sequence == sequence,
        r.timestamp_ms == timestamp_ms,
{
    let node_refs = graph.all_nodes();
    let ghost nv = node_refs@.map_values(|n: &Node| *n);
    let mut nodes: Vec<proto::Node> = Vec::new();
    let mut i: usize = 0;
    while i < node_refs.len()
        invariant
            i <= node_refs@.len(),
            nv == node_refs@.map_values(|n: &Node| *n),
            nodes@.len() == i,
            forall|k: int| 0 <= k < i ==> #[trigger] node_message(nodes@[k], nv[k]),
        decreases node_refs.len() - i,
    {
        nodes.push(node_to_proto(node_refs[i]));
        proof {
            assert(nv[i as int] == *node_refs@[i as int]);
        }
        i += 1;
    }
    let port_refs = graph.all_ports();
    let ghost pv = port_refs@.map_values(|p: &Port| *p);
    let mut ports: Vec<proto::Port> = Vec::new();
    let mut j: usize = 0;
    while j < port_refs.len()
        invariant
            j <= port_refs@.len(),
            pv == port_refs@.map_values(|p: &Port| *p),
            ports@ == pv.take(j as int).map_values(|p: Port| port_message(p)),
        decreases port_refs.len() - j,
    {
        let m: proto::Port = port_refs[j].into();
        ports.push(m);
        proof {
            assert(pv[j as int] == *port_refs@[j as int]);
            assert(ports@ =~= pv.take(j + 1).map_values(|p: Port| port_message(p)));
        }
        j += 1;
    }
    proof {
        assert(pv.take(pv.len() as int) =~= pv);
    }
    let link_list = graph.all_links();
    let mut links: Vec<proto::Link> = Vec::new();
    let mut k: usize = 0;
    while k < link_list.len()
        invariant
            k <= link_list@.len(),
            links@ == link_list@.take(k as int).map_values(|l: Link| link_message(l)),
        decreases link_list.len() - k,
    {
        let m: proto::Link = (&link_list[k]).into();
        links.push(m);
        proof {
            assert(links@ =~= link_list@.take(k + 1).map_values(|l: Link| link_message(l)));
        }
        k += 1;
    }
    proof {
        assert(link_list@.take(link_list@.len() as int) =~= link_list@);
    }
    proto::GraphState {
        nodes,
        ports,
        links,
        safety: Some(safety.into()),
        connection: Some(connection_state_to_proto(connection)),
        sequence,
        timestamp_ms,
    }
}

/// What the server does with a client's command.
#[derive(Debug)]
pub enum CommandDecision {
    /// The command is answered at once.
    Answer(proto::CommandResult),
    /// The command may go ahead and is handed to the PipeWire thread; the
    /// answer then depends on the hand-over (see `forwarded_answer`).
    Forward(AppCommand),
}

/// The mode a safety mode request sets: an unknown code reads as unspecified,
/// and unspecified reads as normal.
pub open spec fn requested_mode(code: i32) -> SafetyMode {
    match proto::SafetyMode::decode(code) {
        Some(m) => mode_of_message(m),
        None => SafetyMode::Normal,
    }
}

/// A successful answer.
pub open spec fn success_answer(r: CommandDecision) -> bool {
    r matches CommandDecision::Answer(a) && a.success && a.error@.len() == 0
}

/// A failed answer with the reason given.
pub open spec fn failure_answer(r: CommandDecision, reason: Seq<char>) -> bool {
    r matches CommandDecision::Answer(a) && !a.success && a.error@ == reason
}

/// Handles a client's command. A safety mode request sets the mode (see
/// `requested_mode`) and a routing lock request is accepted and ignored; both
/// are answered with success. Any other command changes nothing here: one the
/// library does not carry out is answered "Unknown command"; one the safety
/// mode blocks is answered with the refusal; any other is handed on.
pub fn execute_command(cmd: &proto::Command, safety: &mut SafetyController) -> (r: CommandDecision)
    ensures
        match cmd.command {
            Some(proto::CommandPayload::SetSafetyMode { mode }) => final(safety).mode == requested_mode(mode)
                && success_answer(r),
            Some(proto::CommandPayload::ToggleRoutingLock) => *final(safety) == *old(safety) && success_answer(r),
            _ => {
                &&& *final(safety) == *old(safety)
                &&& match command_of_message(*cmd) {
                    None => failure_answer(r, "Unknown command"@),
                    Some(c) => match validation_outcome(c.spec_kind(), old(safety).mode) {
                        Ok(()) => r == CommandDecision::Forward(c),
                        Err(reason) => failure_answer(r, "Command blocked by safety mode: "@ + reason),
                    },
                }
            },
        },
{
    match cmd.command {
        Some(proto::CommandPayload::SetSafetyMode { mode }) => {
            let wire = match proto::SafetyMode::from_i32(mode) {
                Some(m) => m,
                None => proto::SafetyMode::Unspecified,
            };
            safety.set_mode(SafetyMode::from(wire));
            return CommandDecision::Answer(proto::CommandResult { success: true, error: String::new() });
        },
        Some(proto::CommandPayload::ToggleRoutingLock) => {
            return CommandDecision::Answer(proto::CommandResult { success: true, error: String::new() });
        },
        _ => {},
    }
    let app_cmd = match command_from_proto(cmd) {
        Some(c) => c,
        None => {
            return CommandDecision::Answer(proto::CommandResult { success: false, error: owned("Unknown command") });
        },
    };
    match app_cmd.validate(safety) {
        Ok(()) => CommandDecision::Forward(app_cmd),
        Err(e) => CommandDecision::Answer(proto::CommandResult { success: false, error: e.message() }),
    }
}

/// The answer to a command that was handed on: success, or the reason the
/// hand-over failed.
pub fn forwarded_answer(sent: &Result<(), CommandError>) -> (r: proto::CommandResult)
    ensures
        match sent {
            Ok(()) => r.success && r.error@.len() == 0,
            Err(e) => !r.success && r.error@ == e.text(),
        },
{
    match sent {
        Ok(()) => proto::CommandResult { success: true, error: String::new() },
        Err(e) => proto::CommandResult { success: false, error: e.message() },
    }
}

}
