//! Wire messages of the remote-control protocol.
//!
//! Enumerations travel as `i32` codes, with 0 reserved for "unspecified"; the
//! variants are declared in code order, so `as i32` on a variant gives its code.

use vstd::prelude::*;

verus! {

/// Stack layer of a node on the wire.
#[derive(Debug, Clone, Copy, PartialEq, Eq, Hash, Structural)]
pub enum NodeLayer {
    /// No layer given.
    Unspecified,
    /// Hardware layer.
    Hardware,
    /// PipeWire layer.
    Pipewire,
    /// Session layer.
    Session,
}

impl NodeLayer {
    /// The wire code of the layer.
    pub open spec fn value(self) -> i32 {
        match self {
            NodeLayer::Unspecified => 0,
            NodeLayer::Hardware => 1,
            NodeLayer::Pipewire => 2,
            NodeLayer::Session => 3,
        }
    }

    /// The layer a wire code denotes, if any.
    pub open spec fn decode(v: i32) -> Option<NodeLayer> {
        if v == 0 {
            Some(NodeLayer::Unspecified)
        } else if v == 1 {
            Some(NodeLayer::Hardware)
        } else if v == 2 {
            Some(NodeLayer::Pipewire)
        } else if v == 3 {
            Some(NodeLayer::Session)
        } else {
            None
        }
    }

    /// Returns the wire code of the layer.
    pub fn to_i32(self) -> (r: i32)
        ensures
            r == self.value(),
    {
        match self {
            NodeLayer::Unspecified => 0,
            NodeLayer::Hardware => 1,
            NodeLayer::Pipewire => 2,
            NodeLayer::Session => 3,
        }
    }

    /// Reads a wire code.
    pub fn from_i32(v: i32) -> (r: Option<NodeLayer>)
        ensures
            r == Self::decode(v),
    {
        if v == 0 {
            Some(NodeLayer::Unspecified)
        } else if v == 1 {
            Some(NodeLayer::Hardware)
        } else if v == 2 {
            Some(NodeLayer::Pipewire)
        } else if v == 3 {
            Some(NodeLayer::Session)
        } else {
            None
        }
    }
}

/// Direction of a port on the wire.
#[derive(Debug, Clone, Copy, PartialEq, Eq, Hash, Structural)]
pub enum PortDirection {
    /// No direction given.
    Unspecified,
    /// Input port.
    Input,
    /// Output port.
    Output,
}

impl PortDirection {
    /// The wire code of the direction.
    pub open spec fn value(self) -> i32 {
        match self {
            PortDirection::Unspecified => 0,
            PortDirection::Input => 1,
            PortDirection::Output => 2,
        }
    }

    /// The direction a wire code denotes, if any.
    pub open spec fn decode(v: i32) -> Option<PortDirection> {
        if v == 0 {
            Some(PortDirection::Unspecified)
        } else if v == 1 {
            Some(PortDirection::Input)
        } else if v == 2 {
            Some(PortDirection::Output)
        } else {
            None
        }
    }

    /// Returns the wire code of the direction.
    pub fn to_i32(self) -> (r: i32)
        ensures
            r == self.value(),
    {
        match self {
            PortDirection::Unspecified => 0,
            PortDirection::Input => 1,
            PortDirection::Output => 2,
        }
    }

    /// Reads a wire code.
    pub fn from_i32(v: i32) -> (r: Option<PortDirection>)
        ensures
            r == Self::decode(v),
    {
        if v == 0 {
            Some(PortDirection::Unspecified)
        } else if v == 1 {
            Some(PortDirection::Input)
        } else if v == 2 {
            Some(PortDirection::Output)
        } else {
            None
        }
    }
}

/// State of a link on the wire.
#[derive(Debug, Clone, Copy, PartialEq, Eq, Hash, Structural)]
pub enum LinkState {
    /// No state given.
    Unspecified,
    /// Being set up.
    Init,
    /// Negotiating.
    Negotiating,
    /// Allocating buffers.
    Allocating,
    /// Paused.
    Paused,
    /// Active.
    Active,
    /// Failed.
    Error,
    /// Unlinked.
    Unlinked,
}

impl LinkState {
    /// The wire code of the state.
    pub open spec fn value(self) -> i32 {
        match self {
            LinkState::Unspecified => 0,
            LinkState::Init => 1,
            LinkState::Negotiating => 2,
            LinkState::Allocating => 3,
            LinkState::Paused => 4,
            LinkState::Active => 5,
            LinkState::Error => 6,
            LinkState::Unlinked => 7,
        }
    }

    /// The state a wire code denotes, if any.
    pub open spec fn decode(v: i32) -> Option<LinkState> {
        if v == 0 {
            Some(LinkState::Unspecified)
        } else if v == 1 {
            Some(LinkState::Init)
        } else if v == 2 {
            Some(LinkState::Negotiating)
        } else if v == 3 {
            Some(LinkState::Allocating)
        } else if v == 4 {
            Some(LinkState::Paused)
        } else if v == 5 {
            Some(LinkState::Active)
        } else if v == 6 {
            Some(LinkState::Error)
        } else if v == 7 {
            Some(LinkState::Unlinked)
        } else {
            None
        }
    }

    /// Returns the wire code of the state.
    pub fn to_i32(self) -> (r: i32)
        ensures
            r == self.value(),
    {
        match self {
            LinkState::Unspecified => 0,
            LinkState::Init => 1,
            LinkState::Negotiating => 2,
            LinkState::Allocating => 3,
            LinkState::Paused => 4,
            LinkState::Active => 5,
            LinkState::Error => 6,
            LinkState::Unlinked => 7,
        }
    }

    /// Reads a wire code.
    pub fn from_i32(v: i32) -> (r: Option<LinkState>)
        ensures
            r == Self::decode(v),
    {
        if v == 0 {
            Some(LinkState::Unspecified)
        } else if v == 1 {
            Some(LinkState::Init)
        } else if v == 2 {
            Some(LinkState::Negotiating)
        } else if v == 3 {
            Some(LinkState::Allocating)
        } else if v == 4 {
            Some(LinkState::Paused)
        } else if v == 5 {
            Some(LinkState::Active)
        } else if v == 6 {
            Some(LinkState::Error)
        } else if v == 7 {
            Some(LinkState::Unlinked)
        } else {
            None
        }
    }
}

/// Safety mode on the wire.
#[derive(Debug, Clone, Copy, PartialEq, Eq, Hash, Structural)]
pub enum SafetyMode {
    /// No mode given.
    Unspecified,
    /// Normal operation.
    Normal,
    /// Read-only.
    ReadOnly,
    /// Stage mode.
    Stage,
}

impl SafetyMode {
    /// The wire code of the mode.
    pub open spec fn value(self) -> i32 {
        match self {
            SafetyMode::Unspecified => 0,
            SafetyMode::Normal => 1,
            SafetyMode::ReadOnly => 2,
            SafetyMode::Stage => 3,
        }
    }

    /// Returns the wire code of the mode.
    pub fn to_i32(self) -> (r: i32)
        ensures
            r == self.value(),
    {
        match self {
            SafetyMode::Unspecified => 0,
            SafetyMode::Normal => 1,
            SafetyMode::ReadOnly => 2,
            SafetyMode::Stage => 3,
        }
    }

    /// The mode with a wire code, if any.
    pub open spec fn decode(v: i32) -> Option<SafetyMode> {
        if v == 0 {
            Some(SafetyMode::Unspecified)
        } else if v == 1 {
            Some(SafetyMode::Normal)
        } else if v == 2 {
            Some(SafetyMode::ReadOnly)
        } else if v == 3 {
            Some(SafetyMode::Stage)
        } else {
            None
        }
    }

    /// Reads a wire code; none for an unknown code.
    pub fn from_i32(v: i32) -> (r: Option<SafetyMode>)
        ensures
            r == Self::decode(v),
    {
        if v == 0 {
            Some(SafetyMode::Unspecified)
        } else if v == 1 {
            Some(SafetyMode::Normal)
        } else if v == 2 {
            Some(SafetyMode::ReadOnly)
        } else if v == 3 {
            Some(SafetyMode::Stage)
        } else {
            None
        }
    }
}

/// State of the PipeWire connection on the wire.
#[derive(Debug, Clone, Copy, PartialEq, Eq, Hash, Structural)]
pub enum ConnectionState {
    /// No state given.
    Unspecified,
    /// Connected.
    Connected,
    /// Disconnected.
    Disconnected,
    /// Trying to reconnect.
    Reconnecting,
    /// Failed.
    Error,
}

impl ConnectionState {
    /// The wire code of the state.
    pub open spec fn value(self) -> i32 {
        match self {
            ConnectionState::Unspecified => 0,
            ConnectionState::Connected => 1,
            ConnectionState::Disconnected => 2,
            ConnectionState::Reconnecting => 3,
            ConnectionState::Error => 4,
        }
    }

    /// Returns the wire code of the state.
    pub fn to_i32(self) -> (r: i32)
        ensures
            r == self.value(),
    {
        match self {
            ConnectionState::Unspecified => 0,
            ConnectionState::Connected => 1,
            ConnectionState::Disconnected => 2,
            ConnectionState::Reconnecting => 3,
            ConnectionState::Error => 4,
        }
    }

    /// The state with a wire code, if any.
    pub open spec fn decode(v: i32) -> Option<ConnectionState> {
        if v == 0 {
            Some(ConnectionState::Unspecified)
        } else if v == 1 {
            Some(ConnectionState::Connected)
        } else if v == 2 {
            Some(ConnectionState::Disconnected)
        } else if v == 3 {
            Some(ConnectionState::Reconnecting)
        } else if v == 4 {
            Some(ConnectionState::Error)
        } else {
            None
        }
    }

    /// Reads a wire code; none for an unknown code.
    pub fn from_i32(v: i32) -> (r: Option<ConnectionState>)
        ensures
            r == Self::decode(v),
    {
        if v == 0 {
            Some(ConnectionState::Unspecified)
        } else if v == 1 {
            Some(ConnectionState::Connected)
        } else if v == 2 {
            Some(ConnectionState::Disconnected)
        } else if v == 3 {
            Some(ConnectionState::Reconnecting)
        } else if v == 4 {
            Some(ConnectionState::Error)
        } else {
            None
        }
    }
}

/// Audio format message.
#[derive(Debug, Clone, PartialEq, Eq)]
pub struct AudioFormat {
    /// Sample rate in Hz.
    pub sample_rate: u32,
    /// Number of channels.
    pub channels: u32,
    /// Sample format name.
    pub format: String,
}

/// Node message.
#[derive(Debug, Clone, PartialEq, Eq)]
pub struct Node {
    /// Node id.
    pub id: u32,
    /// Node name.
    pub name: String,
    /// Owning client id.
    pub client_id: Option<u32>,
    /// Media class text.
    pub media_class: Option<String>,
    /// Application name.
    pub application_name: Option<String>,
    /// Description.
    pub description: Option<String>,
    /// Nickname.
    pub nick: Option<String>,
    /// Audio format.
    pub format: Option<AudioFormat>,
    /// Ids of the node's ports.
    pub port_ids: Vec<u32>,
    /// Whether the node is active.
    pub is_active: bool,
    /// Layer code (see [`NodeLayer`]).
    pub layer: i32,
    /// Factory name.
    pub factory_name: Option<String>,
    /// Device id.
    pub device_id: Option<u32>,
    /// Object path.
    pub object_path: Option<String>,
    /// Link group.
    pub link_group: Option<String>,
    /// Client API.
    pub client_api: Option<String>,
    /// Target object id.
    pub target_object: Option<u32>,
}

impl Default for Node {
    fn default() -> (r: Self)
        ensures
            r.id == 0,
            r.name@.len() == 0,
            r.client_id is None,
            r.media_class is None,
            r.application_name is None,
            r.description is None,
            r.nick is None,
            r.format is None,
            r.port_ids@.len() == 0,
            !r.is_active,
            r.layer == 0,
            r.factory_name is None,
            r.device_id is None,
            r.object_path is None,
            r.link_group is None,
            r.client_api is None,
            r.target_object is None,
    {
        Node {
            id: 0,
            name: String::new(),
            client_id: None,
            media_class: None,
            application_name: None,
            description: None,
            nick: None,
            format: None,
            port_ids: Vec::new(),
            is_active: false,
            layer: 0,
            factory_name: None,
            device_id: None,
            object_path: None,
            link_group: None,
            client_api: None,
            target_object: None,
        }
    }
}

/// Port message.
#[derive(Debug, Clone, PartialEq, Eq)]
pub struct Port {
    /// Port id.
    pub id: u32,
    /// Owning node id.
    pub node_id: u32,
    /// Port name.
    pub name: String,
    /// Direction code (see [`PortDirection`]).
    pub direction: i32,
    /// Channel index.
    pub channel: Option<u32>,
    /// Physical path.
    pub physical_path: Option<String>,
    /// Alias.
    pub alias: Option<String>,
    /// Monitor port.
    pub is_monitor: bool,
    /// Control port.
    pub is_control: bool,
}

/// Link message.
#[derive(Debug, Clone, Copy, PartialEq, Eq, Structural)]
pub struct Link {
    /// Link id.
    pub id: u32,
    /// Output port id.
    pub output_port_id: u32,
    /// Input port id.
    pub input_port_id: u32,
    /// Output node id.
    pub output_node_id: u32,
    /// Input node id.
    pub input_node_id: u32,
    /// Whether the link is active.
    pub is_active: bool,
    /// State code (see [`LinkState`]).
    pub state: i32,
}

/// Safety status message.
#[derive(Debug, Clone, Copy, PartialEq, Eq, Structural)]
pub struct SafetyStatus {
    /// Mode code (see [`SafetyMode`]).
    pub mode: i32,
    /// Whether routing is locked.
    pub routing_locked: bool,
    /// Whether panic mute is active.
    pub panic_active: bool,
}

/// Connection status message.
#[derive(Debug, Clone, PartialEq, Eq)]
pub struct ConnectionStatus {
    /// State code (see [`ConnectionState`]).
    pub state: i32,
    /// Current reconnect attempt.
    pub reconnect_attempt: u32,
    /// Maximum reconnect attempts.
    pub max_reconnect_attempts: u32,
    /// Error text, empty when there is none.
    pub error_message: String,
}

/// The payload of an event message. Volume changes carry audio levels and
/// travel in the application's own message.
#[derive(Debug, Clone, PartialEq, Eq)]
pub enum EventPayload {
    /// The PipeWire connection changed state.
    ConnectionStatus(ConnectionStatus),
    /// A node appeared.
    NodeAdded(Option<Node>),
    /// A node disappeared (its id).
    NodeRemoved(u32),
    /// A port appeared.
    PortAdded(Option<Port>),
    /// A port disappeared (its id).
    PortRemoved(u32),
    /// A link appeared.
    LinkAdded(Option<Link>),
    /// A link disappeared (its id).
    LinkRemoved(u32),
    /// A node's mute state changed.
    MuteChanged {
        /// Node id.
        node_id: u32,
        /// Whether it is muted.
        muted: bool,
    },
    /// The safety status changed.
    SafetyStatus(SafetyStatus),
}

/// Event message.
#[derive(Debug, Clone, PartialEq, Eq)]
pub struct Event {
    /// Sequence number.
    pub sequence: u64,
    /// Time stamp in milliseconds.
    pub timestamp_ms: u64,
    /// What happened.
    pub event: Option<EventPayload>,
}

/// The payload of a command message. Volume commands carry audio levels and
/// travel in the application's own message.
#[derive(Debug, Clone, Copy, PartialEq, Eq, Structural)]
pub enum CommandPayload {
    /// Create a link between two ports.
    CreateLink {
        /// Output port id.
        output_port_id: u32,
        /// Input port id.
        input_port_id: u32,
    },
    /// Remove a link.
    RemoveLink {
        /// Link id.
        link_id: u32,
    },
    /// Enable or disable a link.
    ToggleLink {
        /// Link id.
        link_id: u32,
        /// New active state.
        active: bool,
    },
    /// Set the mute state of a node.
    SetMute {
        /// Node id.
        node_id: u32,
        /// Whether to mute.
        muted: bool,
    },
    /// Mute everything (no longer supported).
    PanicMute,
    /// Undo a panic mute (no longer supported).
    PanicRestore,
    /// Set the safety mode.
    SetSafetyMode {
        /// Mode code (see [`SafetyMode`]).
        mode: i32,
    },
    /// Lock or unlock routing.
    ToggleRoutingLock,
}

/// Command message.
#[derive(Debug, Clone, Copy, PartialEq, Eq, Structural)]
pub struct Command {
    /// What to do.
    pub command: Option<CommandPayload>,
}

/// Full graph state message. Node volumes carry audio levels and travel in the
/// application's own message.
#[derive(Debug, Clone, PartialEq, Eq)]
pub struct GraphState {
    /// All nodes.
    pub nodes: Vec<Node>,
    /// All ports.
    pub ports: Vec<Port>,
    /// All links.
    pub links: Vec<Link>,
    /// Safety status.
    pub safety: Option<SafetyStatus>,
    /// Connection status.
    pub connection: Option<ConnectionStatus>,
    /// Sequence number of the last event included.
    pub sequence: u64,
    /// Time stamp in milliseconds.
    pub timestamp_ms: u64,
}

/// Connection request message.
#[derive(Debug, Clone, PartialEq, Eq)]
pub struct ConnectRequest {
    /// Client identifier.
    pub client_id: String,
    /// Protocol version the client speaks (0: unspecified).
    pub protocol_version: u32,
    /// Authentication token.
    pub token: String,
}

/// The answer to a command message.
#[derive(Debug, Clone, PartialEq, Eq)]
pub struct CommandResult {
    /// Whether the command was carried out or handed on.
    pub success: bool,
    /// Why it was not, empty on success.
    pub error: String,
}

/// Connection response message.
#[derive(Debug, Clone, PartialEq, Eq)]
pub struct ConnectResponse {
    /// Whether the connection is accepted.
    pub accepted: bool,
    /// Protocol version the server speaks.
    pub protocol_version: u32,
    /// Why the connection was refused, empty when accepted.
    pub error: String,
    /// Server identifier, empty when refused.
    pub server_id: String,
}

}
