//! Conversion between the graph model and the wire messages of the
//! remote-control protocol, in both directions.

use vstd::prelude::*;

use crate::events::{LinkInfo, NodeInfo, PortInfo, opt_string};
use crate::graph::{AudioFormat, Link, LinkState, MediaClass, MediaClassView, Node, NodeLayer, Port, PortDirection, media_class_of, media_class_text, opt_class_view};
use crate::ids::{ClientId, LinkId, NodeId, PortId};
use crate::proto;
use crate::safety::{SafetyController, SafetyMode};
use crate::commands::AppCommand;
use crate::events::PwError;
use crate::graph_events::GraphEvent;
use crate::state::ConnectionState;
use crate::text::owned;

verus! {

// ----------------------------------------------------------------------------
// Models of the conversions
// ----------------------------------------------------------------------------

/// The wire form of a node layer.
pub open spec fn layer_message(l: NodeLayer) -> proto::NodeLayer {
    match l {
        NodeLayer::Hardware => proto::NodeLayer::Hardware,
        NodeLayer::Pipewire => proto::NodeLayer::Pipewire,
        NodeLayer::Session => proto::NodeLayer::Session,
    }
}

/// The layer a wire code is read as: session unless it names another layer.
pub open spec fn layer_of_code(v: i32) -> NodeLayer {
    match proto::NodeLayer::decode(v) {
        Some(proto::NodeLayer::Hardware) => NodeLayer::Hardware,
        Some(proto::NodeLayer::Pipewire) => NodeLayer::Pipewire,
        _ => NodeLayer::Session,
    }
}

/// The wire form of a port direction.
pub open spec fn direction_message(d: PortDirection) -> proto::PortDirection {
    match d {
        PortDirection::Input => proto::PortDirection::Input,
        PortDirection::Output => proto::PortDirection::Output,
    }
}

/// The direction a wire code is read as; none for "unspecified" and unknown codes.
pub open spec fn direction_of_code(v: i32) -> Option<PortDirection> {
    match proto::PortDirection::decode(v) {
        Some(proto::PortDirection::Input) => Some(PortDirection::Input),
        Some(proto::PortDirection::Output) => Some(PortDirection::Output),
        _ => None,
    }
}

/// The wire form of a link state.
pub open spec fn link_state_message(s: LinkState) -> proto::LinkState {
    match s {
        LinkState::Init => proto::LinkState::Init,
        LinkState::Negotiating => proto::LinkState::Negotiating,
        LinkState::Allocating => proto::LinkState::Allocating,
        LinkState::Paused => proto::LinkState::Paused,
        LinkState::Active => proto::LinkState::Active,
        LinkState::Error => proto::LinkState::Error,
        LinkState::Unlinked => proto::LinkState::Unlinked,
    }
}

/// The link state a wire code is read as: "unspecified" reads as the initial
/// state, unknown codes read as nothing.
pub open spec fn link_state_of_code(v: i32) -> Option<LinkState> {
    match proto::LinkState::decode(v) {
        Some(proto::LinkState::Unspecified) => Some(LinkState::Init),
        Some(proto::LinkState::Init) => Some(LinkState::Init),
        Some(proto::LinkState::Negotiating) => Some(LinkState::Negotiating),
        Some(proto::LinkState::Allocating) => Some(LinkState::Allocating),
        Some(proto::LinkState::Paused) => Some(LinkState::Paused),
        Some(proto::LinkState::Active) => Some(LinkState::Active),
        Some(proto::LinkState::Error) => Some(LinkState::Error),
        Some(proto::LinkState::Unlinked) => Some(LinkState::Unlinked),
        None => None,
    }
}

/// The wire form of a safety mode.
pub open spec fn mode_message(m: SafetyMode) -> proto::SafetyMode {
    match m {
        SafetyMode::Normal => proto::SafetyMode::Normal,
        SafetyMode::ReadOnly => proto::SafetyMode::ReadOnly,
        SafetyMode::Stage => proto::SafetyMode::Stage,
    }
}

/// The safety mode a wire mode is read as ("unspecified" reads as normal).
pub open spec fn mode_of_message(m: proto::SafetyMode) -> SafetyMode {
    match m {
        proto::SafetyMode::Normal => SafetyMode::Normal,
        proto::SafetyMode::ReadOnly => SafetyMode::ReadOnly,
        proto::SafetyMode::Stage => SafetyMode::Stage,
        proto::SafetyMode::Unspecified => SafetyMode::Normal,
    }
}

/// The wire form of an audio format.
pub open spec fn format_message(f: AudioFormat) -> proto::AudioFormat {
    proto::AudioFormat { sample_rate: f.sample_rate, channels: f.channels, format: f.format }
}

/// The wire form of an optional audio format.
pub open spec fn opt_format_message(f: Option<AudioFormat>) -> Option<proto::AudioFormat> {
    match f {
        Some(f) => Some(format_message(f)),
        None => None,
    }
}

/// The wire form of an optional client id.
pub open spec fn opt_client_raw(c: Option<ClientId>) -> Option<u32> {
    match c {
        Some(c) => Some(c.0),
        None => None,
    }
}

/// The wire text of an optional media class.
pub open spec fn opt_class_text(m: Option<MediaClass>) -> Option<Seq<char>> {
    match m {
        Some(m) => Some(media_class_text(m@)),
        None => None,
    }
}

/// The wire form of a port.
pub open spec fn port_message(p: Port) -> proto::Port {
    proto::Port {
        id: p.id.0,
        node_id: p.node_id.0,
        name: p.name,
        direction: direction_message(p.direction).value(),
        channel: p.channel,
        physical_path: p.physical_path,
        alias: p.alias,
        is_monitor: p.is_monitor,
        is_control: p.is_control,
    }
}

/// The wire form of a port description.
pub open spec fn port_info_message(p: PortInfo) -> proto::Port {
    proto::Port {
        id: p.id.0,
        node_id: p.node_id.0,
        name: p.name,
        direction: direction_message(p.direction).value(),
        channel: p.channel,
        physical_path: p.physical_path,
        alias: p.alias,
        is_monitor: p.is_monitor,
        is_control: p.is_control,
    }
}

/// The port description a port message is read as; none when its direction is
/// not input or output.
pub open spec fn port_info_of_message(m: proto::Port) -> Option<PortInfo> {
    match direction_of_code(m.direction) {
        Some(d) => Some(PortInfo {
            id: PortId(m.id),
            node_id: NodeId(m.node_id),
            name: m.name,
            direction: d,
            channel: m.channel,
            physical_path: m.physical_path,
            alias: m.alias,
            is_monitor: m.is_monitor,
            is_control: m.is_control,
        }),
        None => None,
    }
}

/// The wire form of a link.
pub open spec fn link_message(l: Link) -> proto::Link {
    proto::Link {
        id: l.id.0,
        output_port_id: l.output_port.0,
        input_port_id: l.input_port.0,
        output_node_id: l.output_node.0,
        input_node_id: l.input_node.0,
        is_active: l.is_active,
        state: link_state_message(l.state).value(),
    }
}

/// The wire form of a link description.
pub open spec fn link_info_message(l: LinkInfo) -> proto::Link {
    proto::Link {
        id: l.id.0,
        output_port_id: l.output_port.0,
        input_port_id: l.input_port.0,
        output_node_id: l.output_node.0,
        input_node_id: l.input_node.0,
        is_active: l.active,
        state: link_state_message(l.state).value(),
    }
}

/// The link description a link message is read as; none when its state code is unknown.
pub open spec fn link_info_of_message(m: proto::Link) -> Option<LinkInfo> {
    match link_state_of_code(m.state) {
        Some(s) => Some(LinkInfo {
            id: LinkId(m.id),
            output_port: PortId(m.output_port_id),
            input_port: PortId(m.input_port_id),
            output_node: NodeId(m.output_node_id),
            input_node: NodeId(m.input_node_id),
            state: s,
            active: m.is_active,
        }),
        None => None,
    }
}

/// The wire form of a connection state (connecting travels as reconnecting).
pub open spec fn connection_message(s: ConnectionState) -> proto::ConnectionState {
    match s {
        ConnectionState::Disconnected => proto::ConnectionState::Disconnected,
        ConnectionState::Connecting => proto::ConnectionState::Reconnecting,
        ConnectionState::Connected => proto::ConnectionState::Connected,
        ConnectionState::Error => proto::ConnectionState::Error,
    }
}

/// The node message describes the node: every field as it is, the media class
/// as its PipeWire text, the layer by its code, no detection properties.
pub open spec fn node_message(r: proto::Node, node: Node) -> bool {
    &&& r.id == node.id.0
    &&& r.name == node.name
    &&& r.client_id == opt_client_raw(node.client_id)
    &&& opt_string(r.media_class) == opt_class_text(node.media_class)
    &&& r.application_name == node.application_name
    &&& r.description == node.description
    &&& r.nick == node.nick
    &&& r.format == opt_format_message(node.format)
    &&& r.port_ids@ == node.port_ids@.map_values(|p: PortId| p.0)
    &&& r.is_active == node.is_active
    &&& r.layer == layer_message(node.layer).value()
    &&& r.factory_name is None
    &&& r.device_id is None
    &&& r.object_path is None
    &&& r.link_group is None
    &&& r.client_api is None
    &&& r.target_object is None
}

/// The node message describes the node description: every field as it is, the
/// media class as its PipeWire text, the layer by its code, no port ids, active.
pub open spec fn node_info_message(r: proto::Node, info: NodeInfo) -> bool {
    &&& r.id == info.id.0
    &&& r.name == info.name
    &&& r.client_id == opt_client_raw(info.client_id)
    &&& opt_string(r.media_class) == opt_class_text(info.media_class)
    &&& r.application_name == info.application_name
    &&& r.description == info.description
    &&& r.nick == info.nick
    &&& r.format == opt_format_message(info.format)
    &&& r.port_ids@.len() == 0
    &&& r.is_active
    &&& r.layer == layer_message(info.layer).value()
    &&& r.factory_name == info.factory_name
    &&& r.device_id == info.device_id
    &&& r.object_path == info.object_path
    &&& r.link_group == info.link_group
    &&& r.client_api == info.client_api
    &&& r.target_object == info.target_object
}

/// The node description read from a node message: every field as it is, the
/// media class parsed from its text, the layer by its code (session when unknown).
pub open spec fn node_info_of_message(r: NodeInfo, node: proto::Node) -> bool {
    &&& r.id == NodeId(node.id)
    &&& r.name == node.name
    &&& r.client_id == match node.client_id {
        Some(c) => Some(ClientId(c)),
        None => None::<ClientId>,
    }
    &&& opt_class_view(r.media_class) == match node.media_class {
        Some(s) => Some(media_class_of(s@)),
        None => None::<MediaClassView>,
    }
    &&& r.application_name == node.application_name
    &&& r.description == node.description
    &&& r.nick == node.nick
    &&& r.format == match node.format {
        Some(f) => Some(AudioFormat { sample_rate: f.sample_rate, channels: f.channels, format: f.format }),
        None => None::<AudioFormat>,
    }
    &&& r.layer == layer_of_code(node.layer)
    &&& r.factory_name == node.factory_name
    &&& r.device_id == node.device_id
    &&& r.object_path == node.object_path
    &&& r.link_group == node.link_group
    &&& r.client_api == node.client_api
    &&& r.target_object == node.target_object
}

/// A connection status message with the given state, attempts and error text.
pub open spec fn is_status(st: proto::ConnectionStatus, state: proto::ConnectionState, attempt: u32, max_attempts: u32, message: Seq<char>) -> bool {
    &&& st.state == state.value()
    &&& st.reconnect_attempt == attempt
    &&& st.max_reconnect_attempts == max_attempts
    &&& st.error_message@ == message
}

/// The payload that carries an event: connection events as a connection status
/// (attempts for reconnecting, the message for an error), additions with the
/// wire form of what appeared, removals and mute changes with their ids. A
/// volume control failure has no payload.
pub open spec fn event_payload_matches(p: proto::EventPayload, event: GraphEvent) -> bool {
    match event {
        GraphEvent::Connected => p matches proto::EventPayload::ConnectionStatus(st)
            && is_status(st, proto::ConnectionState::Connected, 0, 0, Seq::empty()),
        GraphEvent::Disconnected => p matches proto::EventPayload::ConnectionStatus(st)
            && is_status(st, proto::ConnectionState::Disconnected, 0, 0, Seq::empty()),
        GraphEvent::Reconnecting { attempt, max_attempts } => p matches proto::EventPayload::ConnectionStatus(st)
            && is_status(st, proto::ConnectionState::Reconnecting, attempt, max_attempts, Seq::empty()),
        GraphEvent::Error(err) => p matches proto::EventPayload::ConnectionStatus(st)
            && is_status(st, proto::ConnectionState::Error, 0, 0, err.message@),
        GraphEvent::NodeAdded(info) => p matches proto::EventPayload::NodeAdded(Some(n)) && node_info_message(n, info),
        GraphEvent::NodeRemoved(id) => p == proto::EventPayload::NodeRemoved(id.0),
        GraphEvent::PortAdded(info) => p == proto::EventPayload::PortAdded(Some(port_info_message(info))),
        GraphEvent::PortRemoved(id) => p == proto::EventPayload::PortRemoved(id.0),
        GraphEvent::LinkAdded(info) => p == proto::EventPayload::LinkAdded(Some(link_info_message(info))),
        GraphEvent::LinkRemoved(id) => p == proto::EventPayload::LinkRemoved(id.0),
        GraphEvent::MuteChanged(id, muted) => p == (proto::EventPayload::MuteChanged { node_id: id.0, muted }),
        GraphEvent::VolumeControlFailed(..) => false,
    }
}

/// The event read from an event message: connection statuses by their state
/// (an error with code -1 and the message; none for an unknown or unspecified
/// state), additions when the item is present and readable, removals and mute
/// changes by their ids; none for an empty message and for a safety status.
pub open spec fn event_read(r: Option<GraphEvent>, m: proto::Event) -> bool {
    match m.event {
        None => r is None,
        Some(p) => match p {
            proto::EventPayload::ConnectionStatus(st) => match proto::ConnectionState::decode(st.state) {
                Some(proto::ConnectionState::Connected) => r == Some(GraphEvent::Connected),
                Some(proto::ConnectionState::Disconnected) => r == Some(GraphEvent::Disconnected),
                Some(proto::ConnectionState::Reconnecting) => r == Some(GraphEvent::Reconnecting {
                    attempt: st.reconnect_attempt,
                    max_attempts: st.max_reconnect_attempts,
                }),
                Some(proto::ConnectionState::Error) => r matches Some(GraphEvent::Error(e))
                    && e.code == -1 && e.message@ == st.error_message@,
                _ => r is None,
            },
            proto::EventPayload::NodeAdded(n) => match n {
                Some(n) => r matches Some(GraphEvent::NodeAdded(info)) && node_info_of_message(info, n),
                None => r is None,
            },
            proto::EventPayload::NodeRemoved(id) => r == Some(GraphEvent::NodeRemoved(NodeId(id))),
            proto::EventPayload::PortAdded(port) => match port {
                Some(port) => match port_info_of_message(port) {
                    Some(info) => r == Some(GraphEvent::PortAdded(info)),
                    None => r is None,
                },
                None => r is None,
            },
            proto::EventPayload::PortRemoved(id) => r == Some(GraphEvent::PortRemoved(PortId(id))),
            proto::EventPayload::LinkAdded(link) => match link {
                Some(link) => match link_info_of_message(link) {
                    Some(info) => r == Some(GraphEvent::LinkAdded(info)),
                    None => r is None,
                },
                None => r is None,
            },
            proto::EventPayload::LinkRemoved(id) => r == Some(GraphEvent::LinkRemoved(LinkId(id))),
            proto::EventPayload::MuteChanged { node_id, muted } => r == Some(GraphEvent::MuteChanged(NodeId(node_id), muted)),
            proto::EventPayload::SafetyStatus(_) => r is None,
        },
    }
}

/// The command message for a command: routing and mute commands with their
/// ids; none for commands that do not go over the network.
pub open spec fn command_message(c: AppCommand) -> proto::Command {
    proto::Command {
        command: match c {
            AppCommand::CreateLink { output_port, input_port } => Some(proto::CommandPayload::CreateLink {
                output_port_id: output_port.0,
                input_port_id: input_port.0,
            }),
            AppCommand::RemoveLink(link_id) => Some(proto::CommandPayload::RemoveLink { link_id: link_id.0 }),
            AppCommand::ToggleLink { link_id, active } => Some(proto::CommandPayload::ToggleLink { link_id: link_id.0, active }),
            AppCommand::SetMute { node_id, muted } => Some(proto::CommandPayload::SetMute { node_id: node_id.0, muted }),
            AppCommand::Disconnect | AppCommand::StartAllMeters | AppCommand::StopAllMeters => None,
        },
    }
}

/// The command a command message asks for; none for an empty message, for the
/// retired panic commands and for the safety commands that the server handles itself.
pub open spec fn command_of_message(m: proto::Command) -> Option<AppCommand> {
    match m.command {
        Some(proto::CommandPayload::CreateLink { output_port_id, input_port_id }) => Some(AppCommand::CreateLink {
            output_port: PortId(output_port_id),
            input_port: PortId(input_port_id),
        }),
        Some(proto::CommandPayload::RemoveLink { link_id }) => Some(AppCommand::RemoveLink(LinkId(link_id))),
        Some(proto::CommandPayload::ToggleLink { link_id, active }) => Some(AppCommand::ToggleLink { link_id: LinkId(link_id), active }),
        Some(proto::CommandPayload::SetMute { node_id, muted }) => Some(AppCommand::SetMute { node_id: NodeId(node_id), muted }),
        _ => None,
    }
}

// ----------------------------------------------------------------------------
// Helpers
// ----------------------------------------------------------------------------

/// Copies an optional string.
fn clone_opt(o: &Option<String>) -> (r: Option<String>)
    ensures
        r == *o,
{
    match o {
        Some(s) => Some(s.clone()),
        None => None,
    }
}

/// The raw id of an optional client id.
fn client_raw(c: &Option<ClientId>) -> (r: Option<u32>)
    ensures
        r == opt_client_raw(*c),
{
    match c {
        Some(c) => Some(c.raw()),
        None => None,
    }
}

/// The wire form of an optional audio format.
fn opt_format_to_proto(f: &Option<AudioFormat>) -> (r: Option<proto::AudioFormat>)
    ensures
        r == opt_format_message(*f),
{
    match f {
        Some(f) => Some(proto::AudioFormat::from(f)),
        None => None,
    }
}

/// The wire text of an optional media class.
fn opt_class_to_string(m: &Option<MediaClass>) -> (r: Option<String>)
    ensures
        opt_string(r) == opt_class_text(*m),
{
    match m {
        Some(m) => Some(media_class_to_string(m)),
        None => None,
    }
}

// ----------------------------------------------------------------------------
// Model -> wire
// ----------------------------------------------------------------------------

/// The PipeWire text of a media class ("Audio/Sink", ...; the text itself for other classes).
pub fn media_class_to_string(mc: &MediaClass) -> (r: String)
    ensures
        r@ == media_class_text(mc@),
{
    match mc {
        MediaClass::AudioSource => owned("Audio/Source"),
        MediaClass::AudioSink => owned("Audio/Sink"),
        MediaClass::StreamOutputAudio => owned("Stream/Output/Audio"),
        MediaClass::StreamInputAudio => owned("Stream/Input/Audio"),
        MediaClass::VideoSource => owned("Video/Source"),
        MediaClass::VideoSink => owned("Video/Sink"),
        MediaClass::MidiSource => owned("Midi/Source"),
        MediaClass::MidiSink => owned("Midi/Sink"),
        MediaClass::AudioVideoSource => owned("Audio/Video/Source"),
        MediaClass::AudioDevice => owned("Audio/Device"),
        MediaClass::VideoDevice => owned("Video/Device"),
        MediaClass::Other(s) => s.clone(),
    }
}

/// The wire form of a link state.
pub fn link_state_to_proto(state: &LinkState) -> (r: proto::LinkState)
    ensures
        r == link_state_message(*state),
{
    match state {
        LinkState::Init => proto::LinkState::Init,
        LinkState::Negotiating => proto::LinkState::Negotiating,
        LinkState::Allocating => proto::LinkState::Allocating,
        LinkState::Paused => proto::LinkState::Paused,
        LinkState::Active => proto::LinkState::Active,
        LinkState::Error => proto::LinkState::Error,
        LinkState::Unlinked => proto::LinkState::Unlinked,
    }
}

/// The wire form of a safety mode.
pub fn safety_mode_to_proto(mode: &SafetyMode) -> (r: proto::SafetyMode)
    ensures
        r == mode_message(*mode),
{
    match mode {
        SafetyMode::Normal => proto::SafetyMode::Normal,
        SafetyMode::ReadOnly => proto::SafetyMode::ReadOnly,
        SafetyMode::Stage => proto::SafetyMode::Stage,
    }
}

/// The wire form of a node layer.
pub fn node_layer_to_proto(layer: &NodeLayer) -> (r: proto::NodeLayer)
    ensures
        r == layer_message(*layer),
{
    match layer {
        NodeLayer::Hardware => proto::NodeLayer::Hardware,
        NodeLayer::Pipewire => proto::NodeLayer::Pipewire,
        NodeLayer::Session => proto::NodeLayer::Session,
    }
}

/// The wire form of a port direction.
fn direction_to_proto(d: &PortDirection) -> (r: proto::PortDirection)
    ensures
        r == direction_message(*d),
{
    match d {
        PortDirection::Input => proto::PortDirection::Input,
        PortDirection::Output => proto::PortDirection::Output,
    }
}

/// The wire form of a node: ids as raw numbers, the media class as its PipeWire
/// text, port ids in order, the layer as its code; the layer detection
/// properties, which a node does not keep, are absent.
pub fn node_to_proto(node: &Node) -> (r: proto::Node)
    ensures
        node_message(r, *node),
{
    let mut port_ids: Vec<u32> = Vec::new();
    let mut i: usize = 0;
    while i < node.port_ids.len()
        invariant
            i <= node.port_ids@.len(),
            port_ids@ == node.port_ids@.take(i as int).map_values(|p: PortId| p.0),
        decreases node.port_ids.len() - i,
    {
        port_ids.push(node.port_ids[i].raw());
        proof {
            assert(node.port_ids@.take(i + 1) =~= node.port_ids@.take(i as int).push(node.port_ids@[i as int]));
        }
        i += 1;
        proof {
            assert(port_ids@ =~= node.port_ids@.take(i as int).map_values(|p: PortId| p.0));
        }
    }
    proof {
        assert(node.port_ids@.take(node.port_ids@.len() as int) =~= node.port_ids@);
    }
    proto::Node {
        id: node.id.raw(),
        name: node.name.clone(),
        client_id: client_raw(&node.client_id),
        media_class: opt_class_to_string(&node.media_class),
        application_name: clone_opt(&node.application_name),
        description: clone_opt(&node.description),
        nick: clone_opt(&node.nick),
        format: opt_format_to_proto(&node.format),
        port_ids,
        is_active: node.is_active,
        layer: node_layer_to_proto(&node.layer).to_i32(),
        factory_name: None,
        device_id: None,
        object_path: None,
        link_group: None,
        client_api: None,
        target_object: None,
    }
}

impl<'a> From<&'a Port> for proto::Port {
    /// The wire form of a port.
    fn from(port: &'a Port) -> (r: proto::Port) {
        proto::Port {
            id: port.id.raw(),
            node_id: port.node_id.raw(),
            name: port.name.clone(),
            direction: direction_to_proto(&port.direction).to_i32(),
            channel: port.channel,
            physical_path: clone_opt(&port.physical_path),
            alias: clone_opt(&port.alias),
            is_monitor: port.is_monitor,
            is_control: port.is_control,
        }
    }
}

impl<'a> vstd::std_specs::convert::FromSpecImpl<&'a Port> for proto::Port {
    open spec fn obeys_from_spec() -> bool {
        true
    }

    open spec fn from_spec(v: &'a Port) -> proto::Port {
        port_message(*v)
    }
}

impl<'a> From<&'a Link> for proto::Link {
    /// The wire form of a link.
    fn from(link: &'a Link) -> (r: proto::Link) {
        proto::Link {
            id: link.id.raw(),
            output_port_id: link.output_port.raw(),
            input_port_id: link.input_port.raw(),
            output_node_id: link.output_node.raw(),
            input_node_id: link.input_node.raw(),
            is_active: link.is_active,
            state: link_state_to_proto(&link.state).to_i32(),
        }
    }
}

impl<'a> vstd::std_specs::convert::FromSpecImpl<&'a Link> for proto::Link {
    open spec fn obeys_from_spec() -> bool {
        true
    }

    open spec fn from_spec(v: &'a Link) -> proto::Link {
        link_message(*v)
    }
}

impl<'a> From<&'a AudioFormat> for proto::AudioFormat {
    /// The wire form of an audio format.
    fn from(format: &'a AudioFormat) -> (r: proto::AudioFormat) {
        proto::AudioFormat { sample_rate: format.sample_rate, channels: format.channels, format: format.format.clone() }
    }
}

impl<'a> vstd::std_specs::convert::FromSpecImpl<&'a AudioFormat> for proto::AudioFormat {
    open spec fn obeys_from_spec() -> bool {
        true
    }

    open spec fn from_spec(v: &'a AudioFormat) -> proto::AudioFormat {
        format_message(*v)
    }
}

impl<'a> From<&'a SafetyController> for proto::SafetyStatus {
    /// The wire form of the safety state; routing lock and panic mute are never on.
    fn from(safety: &'a SafetyController) -> (r: proto::SafetyStatus) {
        proto::SafetyStatus {
            mode: safety_mode_to_proto(&safety.mode).to_i32(),
            routing_locked: false,
            panic_active: false,
        }
    }
}

impl<'a> vstd::std_specs::convert::FromSpecImpl<&'a SafetyController> for proto::SafetyStatus {
    open spec fn obeys_from_spec() -> bool {
        true
    }

    open spec fn from_spec(v: &'a SafetyController) -> proto::SafetyStatus {
        proto::SafetyStatus { mode: mode_message(v.mode).value(), routing_locked: false, panic_active: false }
    }
}

impl From<proto::SafetyMode> for SafetyMode {
    /// Reads a wire safety mode ("unspecified" reads as normal).
    fn from(mode: proto::SafetyMode) -> (r: SafetyMode) {
        match mode {
            proto::SafetyMode::Normal => SafetyMode::Normal,
            proto::SafetyMode::ReadOnly => SafetyMode::ReadOnly,
            proto::SafetyMode::Stage => SafetyMode::Stage,
            proto::SafetyMode::Unspecified => SafetyMode::Normal,
        }
    }
}

impl vstd::std_specs::convert::FromSpecImpl<proto::SafetyMode> for SafetyMode {
    open spec fn obeys_from_spec() -> bool {
        true
    }

    open spec fn from_spec(v: proto::SafetyMode) -> SafetyMode {
        mode_of_message(v)
    }
}

/// The wire form of a node description; it is active, lists no ports, and
/// carries the layer detection properties.
pub fn node_info_to_proto(info: &NodeInfo) -> (r: proto::Node)
    ensures
        node_info_message(r, *info),
{
    proto::Node {
        id: info.id.raw(),
        name: info.name.clone(),
        client_id: client_raw(&info.client_id),
        media_class: opt_class_to_string(&info.media_class),
        application_name: clone_opt(&info.application_name),
        description: clone_opt(&info.description),
        nick: clone_opt(&info.nick),
        format: opt_format_to_proto(&info.format),
        port_ids: Vec::new(),
        is_active: true,
        layer: node_layer_to_proto(&info.layer).to_i32(),
        factory_name: clone_opt(&info.factory_name),
        device_id: info.device_id,
        object_path: clone_opt(&info.object_path),
        link_group: clone_opt(&info.link_group),
        client_api: clone_opt(&info.client_api),
        target_object: info.target_object,
    }
}

/// The wire form of a port description.
pub fn port_info_to_proto(info: &PortInfo) -> (r: proto::Port)
    ensures
        r == port_info_message(*info),
{
    proto::Port {
        id: info.id.raw(),
        node_id: info.node_id.raw(),
        name: info.name.clone(),
        direction: direction_to_proto(&info.direction).to_i32(),
        channel: info.channel,
        physical_path: clone_opt(&info.physical_path),
        alias: clone_opt(&info.alias),
        is_monitor: info.is_monitor,
        is_control: info.is_control,
    }
}

/// The wire form of a link description.
pub fn link_info_to_proto(info: &LinkInfo) -> (r: proto::Link)
    ensures
        r == link_info_message(*info),
{
    proto::Link {
        id: info.id.raw(),
        output_port_id: info.output_port.raw(),
        input_port_id: info.input_port.raw(),
        output_node_id: info.output_node.raw(),
        input_node_id: info.input_node.raw(),
        is_active: info.active,
        state: link_state_to_proto(&info.state).to_i32(),
    }
}

/// The wire form of the connection state: no reconnect attempts and no error text.
pub fn connection_state_to_proto(state: &ConnectionState) -> (r: proto::ConnectionStatus)
    ensures
        r.state == connection_message(*state).value(),
        r.reconnect_attempt == 0,
        r.max_reconnect_attempts == 0,
        r.error_message@.len() == 0,
{
    let proto_state = match state {
        ConnectionState::Disconnected => proto::ConnectionState::Disconnected,
        ConnectionState::Connecting => proto::ConnectionState::Reconnecting,
        ConnectionState::Connected => proto::ConnectionState::Connected,
        ConnectionState::Error => proto::ConnectionState::Error,
    };
    proto::ConnectionStatus {
        state: proto_state.to_i32(),
        reconnect_attempt: 0,
        max_reconnect_attempts: 0,
        error_message: String::new(),
    }
}

// ----------------------------------------------------------------------------
// Wire -> model
// ----------------------------------------------------------------------------

/// Reads a node message: every field as it is, the media class parsed from its
/// text, the layer from its code (session unless another layer is named).
pub fn proto_node_to_info(node: &proto::Node) -> (r: Option<NodeInfo>)
    ensures
        r is Some,
        node_info_of_message(r->0, *node),
{
    let layer = match proto::NodeLayer::from_i32(node.layer) {
        Some(proto::NodeLayer::Hardware) => NodeLayer::Hardware,
        Some(proto::NodeLayer::Pipewire) => NodeLayer::Pipewire,
        _ => NodeLayer::Session,
    };
    let client_id = match node.client_id {
        Some(c) => Some(ClientId::new(c)),
        None => None,
    };
    let media_class = match &node.media_class {
        Some(s) => Some(MediaClass::from_pipewire_str(s.as_str())),
        None => None,
    };
    let format = match &node.format {
        Some(f) => Some(AudioFormat { sample_rate: f.sample_rate, channels: f.channels, format: f.format.clone() }),
        None => None,
    };
    Some(NodeInfo {
        id: NodeId::new(node.id),
        name: node.name.clone(),
        client_id,
        media_class,
        application_name: clone_opt(&node.application_name),
        description: clone_opt(&node.description),
        nick: clone_opt(&node.nick),
        format,
        layer,
        factory_name: clone_opt(&node.factory_name),
        device_id: node.device_id,
        object_path: clone_opt(&node.object_path),
        link_group: clone_opt(&node.link_group),
        client_api: clone_opt(&node.client_api),
        target_object: node.target_object,
    })
}

/// Reads a port message; none unless its direction is input or output.
pub fn proto_port_to_info(port: &proto::Port) -> (r: Option<PortInfo>)
    ensures
        r == port_info_of_message(*port),
{
    let direction = match proto::PortDirection::from_i32(port.direction) {
        Some(proto::PortDirection::Input) => PortDirection::Input,
        Some(proto::PortDirection::Output) => PortDirection::Output,
        _ => {
            return None;
        },
    };
    Some(PortInfo {
        id: PortId::new(port.id),
        node_id: NodeId::new(port.node_id),
        name: port.name.clone(),
        direction,
        channel: port.channel,
        physical_path: clone_opt(&port.physical_path),
        alias: clone_opt(&port.alias),
        is_monitor: port.is_monitor,
        is_control: port.is_control,
    })
}

/// Reads a link message; none when its state code is unknown ("unspecified"
/// reads as the initial state).
pub fn proto_link_to_info(link: &proto::Link) -> (r: Option<LinkInfo>)
    ensures
        r == link_info_of_message(*link),
{
    let state = match proto::LinkState::from_i32(link.state) {
        Some(proto::LinkState::Init) => LinkState::Init,
        Some(proto::LinkState::Negotiating) => LinkState::Negotiating,
        Some(proto::LinkState::Allocating) => LinkState::Allocating,
        Some(proto::LinkState::Paused) => LinkState::Paused,
        Some(proto::LinkState::Active) => LinkState::Active,
        Some(proto::LinkState::Error) => LinkState::Error,
        Some(proto::LinkState::Unlinked) => LinkState::Unlinked,
        Some(proto::LinkState::Unspecified) => LinkState::Init,
        None => {
            return None;
        },
    };
    Some(LinkInfo {
        id: LinkId::new(link.id),
        output_port: PortId::new(link.output_port_id),
        input_port: PortId::new(link.input_port_id),
        output_node: NodeId::new(link.output_node_id),
        input_node: NodeId::new(link.input_node_id),
        state,
        active: link.is_active,
    })
}

// ----------------------------------------------------------------------------
// Laws
// ----------------------------------------------------------------------------

/// A port description sent over the wire and read back is the same description.
pub proof fn lemma_port_info_round_trip(p: PortInfo)
    ensures
        port_info_of_message(port_info_message(p)) == Some(p),
{
}

/// A link description sent over the wire and read back is the same description.
pub proof fn lemma_link_info_round_trip(l: LinkInfo)
    ensures
        link_info_of_message(link_info_message(l)) == Some(l),
{
}

/// A node layer sent over the wire is read back as the same layer.
pub proof fn lemma_layer_round_trip(l: NodeLayer)
    ensures
        layer_of_code(layer_message(l).value()) == l,
{
}

/// A safety mode sent over the wire is read back as the same mode.
pub proof fn lemma_mode_round_trip(m: SafetyMode)
    ensures
        mode_of_message(mode_message(m)) == m,
{
}

/// A PipeWire media class text read as a media class and written back gives
/// the same text, except "Midi/Bridge", which is read as a MIDI source and
/// written as "Midi/Source".
pub proof fn lemma_media_class_text_round_trip(s: Seq<char>)
    requires
        s != "Midi/Bridge"@,
    ensures
        media_class_text(media_class_of(s)) == s,
{
}

/// A media class written as PipeWire text is parsed back as the same class,
/// unless it is an "other" class whose text names one of the known classes.
pub proof fn lemma_media_class_round_trip(m: MediaClassView)
    requires
        m is Other ==> media_class_of(m->Other_0) is Other,
    ensures
        media_class_of(media_class_text(m)) == m,
{
    reveal_strlit("Audio/Source");
    reveal_strlit("Audio/Sink");
    reveal_strlit("Stream/Output/Audio");
    reveal_strlit("Stream/Input/Audio");
    reveal_strlit("Video/Source");
    reveal_strlit("Video/Sink");
    reveal_strlit("Midi/Source");
    reveal_strlit("Midi/Bridge");
    reveal_strlit("Midi/Sink");
    reveal_strlit("Audio/Video/Source");
    reveal_strlit("Audio/Device");
    reveal_strlit("Video/Device");
    assert("Audio/Source"@.len() == 12);
    assert("Audio/Source"@[0] == 'A');
    assert("Audio/Sink"@.len() == 10);
    assert("Audio/Sink"@[0] == 'A');
    assert("Stream/Output/Audio"@.len() == 19);
    assert("Stream/Output/Audio"@[0] == 'S');
    assert("Stream/Input/Audio"@.len() == 18);
    assert("Stream/Input/Audio"@[0] == 'S');
    assert("Video/Source"@.len() == 12);
    assert("Video/Source"@[0] == 'V');
    assert("Video/Sink"@.len() == 10);
    assert("Video/Sink"@[0] == 'V');
    assert("Midi/Source"@.len() == 11);
    assert("Midi/Source"@[0] == 'M');
    assert("Midi/Bridge"@.len() == 11);
    assert("Midi/Bridge"@[0] == 'M');
    assert("Midi/Sink"@.len() == 9);
    assert("Midi/Sink"@[0] == 'M');
    assert("Audio/Video/Source"@.len() == 18);
    assert("Audio/Video/Source"@[0] == 'A');
    assert("Audio/Device"@.len() == 12);
    assert("Audio/Device"@[0] == 'A');
    assert("Video/Device"@.len() == 12);
    assert("Video/Device"@[0] == 'V');
    assert("Audio/Source"@[6] == 'S');
    assert("Audio/Device"@[6] == 'D');
    assert("Video/Source"@[6] == 'S');
    assert("Video/Device"@[6] == 'D');
    assert("Midi/Source"@[5] == 'S');
    assert("Midi/Bridge"@[5] == 'B');
}

// ----------------------------------------------------------------------------
// Events and commands
// ----------------------------------------------------------------------------

/// The message for an event: none for a volume control failure; otherwise
/// stamped with the sequence number and time, with the payload that carries it.
pub open spec fn event_message(r: Option<proto::Event>, event: GraphEvent, sequence: u64, timestamp_ms: u64) -> bool {
    match event {
        GraphEvent::VolumeControlFailed(..) => r is None,
        _ => match r {
            Some(m) => {
                &&& m.sequence == sequence
                &&& m.timestamp_ms == timestamp_ms
                &&& match m.event {
                    Some(p) => event_payload_matches(p, event),
                    None => false,
                }
            },
            None => false,
        },
    }
}

/// A connection status message.
fn status(state: proto::ConnectionState, attempt: u32, max_attempts: u32, message: String) -> (r: proto::ConnectionStatus)
    ensures
        is_status(r, state, attempt, max_attempts, message@),
{
    proto::ConnectionStatus {
        state: state.to_i32(),
        reconnect_attempt: attempt,
        max_reconnect_attempts: max_attempts,
        error_message: message,
    }
}

/// The wire message for an event, stamped with its sequence number and time;
/// none for a volume control failure, which is local feedback only.
pub fn event_to_proto(event: &GraphEvent, sequence: u64, timestamp_ms: u64) -> (r: Option<proto::Event>)
    ensures
        event_message(r, *event, sequence, timestamp_ms),
{
    let payload = match event {
        GraphEvent::Connected => Some(proto::EventPayload::ConnectionStatus(
            status(proto::ConnectionState::Connected, 0, 0, String::new()),
        )),
        GraphEvent::Disconnected => Some(proto::EventPayload::ConnectionStatus(
            status(proto::ConnectionState::Disconnected, 0, 0, String::new()),
        )),
        GraphEvent::Reconnecting { attempt, max_attempts } => Some(proto::EventPayload::ConnectionStatus(
            status(proto::ConnectionState::Reconnecting, *attempt, *max_attempts, String::new()),
        )),
        GraphEvent::Error(err) => Some(proto::EventPayload::ConnectionStatus(
            status(proto::ConnectionState::Error, 0, 0, err.message.clone()),
        )),
        GraphEvent::NodeAdded(info) => Some(proto::EventPayload::NodeAdded(Some(node_info_to_proto(info)))),
        GraphEvent::NodeRemoved(id) => Some(proto::EventPayload::NodeRemoved(id.raw())),
        GraphEvent::PortAdded(info) => Some(proto::EventPayload::PortAdded(Some(port_info_to_proto(info)))),
        GraphEvent::PortRemoved(id) => Some(proto::EventPayload::PortRemoved(id.raw())),
        GraphEvent::LinkAdded(info) => Some(proto::EventPayload::LinkAdded(Some(link_info_to_proto(info)))),
        GraphEvent::LinkRemoved(id) => Some(proto::EventPayload::LinkRemoved(id.raw())),
        GraphEvent::MuteChanged(id, muted) => Some(proto::EventPayload::MuteChanged { node_id: id.raw(), muted: *muted }),
        GraphEvent::VolumeControlFailed(..) => None,
    };
    match payload {
        Some(p) => Some(proto::Event { sequence, timestamp_ms, event: Some(p) }),
        None => None,
    }
}

/// Reads an event message (see `event_read`).
pub fn proto_event_to_pw(event: &proto::Event) -> (r: Option<GraphEvent>)
    ensures
        event_read(r, *event),
{
    match &event.event {
        None => None,
        Some(p) => match p {
            proto::EventPayload::ConnectionStatus(st) => match proto::ConnectionState::from_i32(st.state) {
                Some(proto::ConnectionState::Connected) => Some(GraphEvent::Connected),
                Some(proto::ConnectionState::Disconnected) => Some(GraphEvent::Disconnected),
                Some(proto::ConnectionState::Reconnecting) => Some(GraphEvent::Reconnecting {
                    attempt: st.reconnect_attempt,
                    max_attempts: st.max_reconnect_attempts,
                }),
                Some(proto::ConnectionState::Error) => Some(GraphEvent::Error(PwError {
                    code: -1,
                    message: st.error_message.clone(),
                })),
                _ => None,
            },
            proto::EventPayload::NodeAdded(n) => match n {
                Some(n) => match proto_node_to_info(n) {
                    Some(info) => Some(GraphEvent::NodeAdded(info)),
                    None => None,
                },
                None => None,
            },
            proto::EventPayload::NodeRemoved(id) => Some(GraphEvent::NodeRemoved(NodeId::new(*id))),
            proto::EventPayload::PortAdded(port) => match port {
                Some(port) => match proto_port_to_info(port) {
                    Some(info) => Some(GraphEvent::PortAdded(info)),
                    None => None,
                },
                None => None,
            },
            proto::EventPayload::PortRemoved(id) => Some(GraphEvent::PortRemoved(PortId::new(*id))),
            proto::EventPayload::LinkAdded(link) => match link {
                Some(link) => match proto_link_to_info(link) {
                    Some(info) => Some(GraphEvent::LinkAdded(info)),
                    None => None,
                },
                None => None,
            },
            proto::EventPayload::LinkRemoved(id) => Some(GraphEvent::LinkRemoved(LinkId::new(*id))),
            proto::EventPayload::MuteChanged { node_id, muted } => Some(GraphEvent::MuteChanged(NodeId::new(*node_id), *muted)),
            proto::EventPayload::SafetyStatus(_) => None,
        },
    }
}

/// The command that a command message asks for (see `command_of_message`).
pub fn command_from_proto(cmd: &proto::Command) -> (r: Option<AppCommand>)
    ensures
        r == command_of_message(*cmd),
{
    match cmd.command {
        Some(proto::CommandPayload::CreateLink { output_port_id, input_port_id }) => Some(AppCommand::CreateLink {
            output_port: PortId::new(output_port_id),
            input_port: PortId::new(input_port_id),
        }),
        Some(proto::CommandPayload::RemoveLink { link_id }) => Some(AppCommand::RemoveLink(LinkId::new(link_id))),
        Some(proto::CommandPayload::ToggleLink { link_id, active }) => Some(AppCommand::ToggleLink {
            link_id: LinkId::new(link_id),
            active,
        }),
        Some(proto::CommandPayload::SetMute { node_id, muted }) => Some(AppCommand::SetMute { node_id: NodeId::new(node_id), muted }),
        Some(proto::CommandPayload::PanicMute) | Some(proto::CommandPayload::PanicRestore) => None,
        Some(proto::CommandPayload::SetSafetyMode { .. }) | Some(proto::CommandPayload::ToggleRoutingLock) => None,
        None => None,
    }
}

/// The wire message for a command (see `command_message`).
pub fn app_command_to_proto(cmd: &AppCommand) -> (r: proto::Command)
    ensures
        r == command_message(*cmd),
{
    let command = match cmd {
        AppCommand::CreateLink { output_port, input_port } => Some(proto::CommandPayload::CreateLink {
            output_port_id: output_port.raw(),
            input_port_id: input_port.raw(),
        }),
        AppCommand::RemoveLink(link_id) => Some(proto::CommandPayload::RemoveLink { link_id: link_id.raw() }),
        AppCommand::ToggleLink { link_id, active } => Some(proto::CommandPayload::ToggleLink {
            link_id: link_id.raw(),
            active: *active,
        }),
        AppCommand::SetMute { node_id, muted } => Some(proto::CommandPayload::SetMute { node_id: node_id.raw(), muted: *muted }),
        AppCommand::Disconnect | AppCommand::StartAllMeters | AppCommand::StopAllMeters => None,
    };
    proto::Command { command }
}

/// A command that goes over the network is read back as the same command; the
/// others travel as an empty message.
pub proof fn lemma_command_round_trip(c: AppCommand)
    ensures
        command_message(c).command is Some ==> command_of_message(command_message(c)) == Some(c),
        command_message(c).command is None <==> (c is Disconnect || c is StartAllMeters || c is StopAllMeters),
{
}

/// Two events agree: the same event, where node descriptions compare their
/// media classes by what they denote and errors compare their message text.
pub open spec fn events_agree(a: GraphEvent, b: GraphEvent) -> bool {
    match (a, b) {
        (GraphEvent::NodeAdded(x), GraphEvent::NodeAdded(y)) => {
            &&& x.id == y.id
            &&& x.name == y.name
            &&& x.client_id == y.client_id
            &&& opt_class_view(x.media_class) == opt_class_view(y.media_class)
            &&& x.application_name == y.application_name
            &&& x.description == y.description
            &&& x.nick == y.nick
            &&& x.format == y.format
            &&& x.layer == y.layer
            &&& x.factory_name == y.factory_name
            &&& x.device_id == y.device_id
            &&& x.object_path == y.object_path
            &&& x.link_group == y.link_group
            &&& x.client_api == y.client_api
            &&& x.target_object == y.target_object
        },
        (GraphEvent::Error(x), GraphEvent::Error(y)) => x.code == y.code && x.message@ == y.message@,
        _ => a == b,
    }
}

/// An event sent over the wire and read back agrees with the event. This holds
/// for every event that has a message, except an error whose code is not -1
/// (the code does not travel) and a node whose media class is an "other" class
/// named like a known one.
pub proof fn lemma_event_round_trip(e: GraphEvent, m: proto::Event, r: Option<GraphEvent>)
    requires
        !(e is VolumeControlFailed),
        e matches GraphEvent::Error(err) ==> err.code == -1,
        e matches GraphEvent::NodeAdded(info) ==> (info.media_class matches Some(mc) ==>
            (mc@ is Other ==> media_class_of(mc@->Other_0) is Other)),
        event_message(Some(m), e, m.sequence, m.timestamp_ms),
        event_read(r, m),
    ensures
        r matches Some(back) && events_agree(back, e),
{
    let p = m.event->0;
    match e {
        GraphEvent::NodeAdded(info) => {
            let n = p->NodeAdded_0->0;
            match info.media_class {
                Some(mc) => {
                    lemma_media_class_round_trip(mc@);
                },
                None => {},
            }
            lemma_layer_round_trip(info.layer);
            let back = r->0->NodeAdded_0;
            assert(opt_class_view(back.media_class) == opt_class_view(info.media_class));
        },
        GraphEvent::PortAdded(info) => {
            lemma_port_info_round_trip(info);
        },
        GraphEvent::LinkAdded(info) => {
            lemma_link_info_round_trip(info);
        },
        _ => {},
    }
}

/// The event that announces a port message, if it can be read.
pub open spec fn port_event_of(p: proto::Port) -> Option<GraphEvent> {
    match port_info_of_message(p) {
        Some(info) => Some(GraphEvent::PortAdded(info)),
        None => None,
    }
}

/// The event that announces a link message, if it can be read.
pub open spec fn link_event_of(l: proto::Link) -> Option<GraphEvent> {
    match link_info_of_message(l) {
        Some(info) => Some(GraphEvent::LinkAdded(info)),
        None => None,
    }
}

/// The event announces the node of the message.
pub open spec fn announces_node(e: GraphEvent, n: proto::Node) -> bool {
    match e {
        GraphEvent::NodeAdded(info) => node_info_of_message(info, n),
        _ => false,
    }
}

/// The events that bring a fresh client up to a server's graph state: every
/// node, then every port and link that can be read, each in message order.
pub fn emit_initial_state(state: &proto::GraphState) -> (r: Vec<GraphEvent>)
    ensures
        r@.len() >= state.nodes@.len(),
        forall|i: int| 0 <= i < state.nodes@.len() ==> #[trigger] announces_node(r@[i], state.nodes@[i]),
        r@.skip(state.nodes@.len() as int) == state.ports@.filter_map(|p: proto::Port| port_event_of(p))
            + state.links@.filter_map(|l: proto::Link| link_event_of(l)),
{
    let mut r: Vec<GraphEvent> = Vec::new();
    let mut i: usize = 0;
    while i < state.nodes.len()
        invariant
            i <= state.nodes@.len(),
            r@.len() == i,
            forall|k: int| 0 <= k < i ==> #[trigger] announces_node(r@[k], state.nodes@[k]),
        decreases state.nodes.len() - i,
    {
        let info = proto_node_to_info(&state.nodes[i]);
        match info {
            Some(info) => {
                r.push(GraphEvent::NodeAdded(info));
            },
            None => {
                proof {
                    assert(false);
                }
                r.push(GraphEvent::Connected);
            },
        }
        i += 1;
    }
    let n = r.len();
    let ghost pf = |p: proto::Port| port_event_of(p);
    let ghost lf = |l: proto::Link| link_event_of(l);
    let mut j: usize = 0;
    proof {
        assert(r@.skip(n as int) =~= state.ports@.take(0).filter_map(pf));
    }
    while j < state.ports.len()
        invariant
            j <= state.ports@.len(),
            n == state.nodes@.len(),
            r@.len() >= n,
            forall|k: int| 0 <= k < n ==> #[trigger] announces_node(r@[k], state.nodes@[k]),
            r@.skip(n as int) == state.ports@.take(j as int).filter_map(pf),
            pf == (|p: proto::Port| port_event_of(p)),
        decreases state.ports.len() - j,
    {
        let ghost before = r@;
        proof {
            assert(state.ports@.take(j + 1).drop_last() =~= state.ports@.take(j as int));
            assert(state.ports@.take(j + 1).last() == state.ports@[j as int]);
        }
        match proto_port_to_info(&state.ports[j]) {
            Some(info) => {
                r.push(GraphEvent::PortAdded(info));
                proof {
                    assert(pf(state.ports@[j as int]) == Some(GraphEvent::PortAdded(info)));
                    assert(r@.skip(n as int) =~= before.skip(n as int) + seq![GraphEvent::PortAdded(info)]);
                }
            },
            None => {
                proof {
                    assert(pf(state.ports@[j as int]) is None);
                }
            },
        }
        proof {
            let t = state.ports@.take(j + 1);
            assert(t.filter_map(pf) == match pf(t.last()) {
                Some(x) => t.drop_last().filter_map(pf) + seq![x],
                None => t.drop_last().filter_map(pf),
            });
        }
        proof {
            assert forall|k: int| 0 <= k < n implies #[trigger] announces_node(r@[k], state.nodes@[k]) by {
                assert(r@[k] == before[k]);
            }
        }
        j += 1;
    }
    proof {
        assert(state.ports@.take(state.ports@.len() as int) =~= state.ports@);
        assert(r@.skip(n as int) =~= state.ports@.filter_map(pf) + state.links@.take(0).filter_map(lf));
    }
    let mut m: usize = 0;
    while m < state.links.len()
        invariant
            m <= state.links@.len(),
            n == state.nodes@.len(),
            r@.len() >= n,
            forall|k: int| 0 <= k < n ==> #[trigger] announces_node(r@[k], state.nodes@[k]),
            r@.skip(n as int) == state.ports@.filter_map(pf) + state.links@.take(m as int).filter_map(lf),
            pf == (|p: proto::Port| port_event_of(p)),
            lf == (|l: proto::Link| link_event_of(l)),
        decreases state.links.len() - m,
    {
        let ghost before = r@;
        proof {
            assert(state.links@.take(m + 1).drop_last() =~= state.links@.take(m as int));
            assert(state.links@.take(m + 1).last() == state.links@[m as int]);
        }
        match proto_link_to_info(&state.links[m]) {
            Some(info) => {
                r.push(GraphEvent::LinkAdded(info));
                proof {
                    assert(lf(state.links@[m as int]) == Some(GraphEvent::LinkAdded(info)));
                    assert(r@.skip(n as int) =~= before.skip(n as int) + seq![GraphEvent::LinkAdded(info)]);
                }
            },
            None => {
                proof {
                    assert(lf(state.links@[m as int]) is None);
                }
            },
        }
        proof {
            let t = state.links@.take(m + 1);
            assert(t.filter_map(lf) == match lf(t.last()) {
                Some(x) => t.drop_last().filter_map(lf) + seq![x],
                None => t.drop_last().filter_map(lf),
            });
            let pre = state.ports@.filter_map(pf);
            assert(pre + t.filter_map(lf) == match lf(t.last()) {
                Some(x) => (pre + t.drop_last().filter_map(lf)) + seq![x],
                None => pre + t.drop_last().filter_map(lf),
            });
        }
        proof {
            assert forall|k: int| 0 <= k < n implies #[trigger] announces_node(r@[k], state.nodes@[k]) by {
                assert(r@[k] == before[k]);
            }
        }
        m += 1;
    }
    proof {
        assert(state.links@.take(state.links@.len() as int) =~= state.links@);
    }
    r
}

}
