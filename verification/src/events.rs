//! Information about PipeWire objects, read from their property lists.

use vstd::prelude::*;

use crate::graph::{AudioFormat, LinkState, MediaClass, MediaClassView, NodeLayer, PortDirection, media_class_of, opt_class_view};
use crate::ids::{ClientId, DeviceId, LinkId, NodeId, PortId};
use crate::properties::Properties;
use crate::text::{decimal, owned, parse_u32, parse_u32_spec, push_decimal, push_i32_decimal, push_str, seq_starts_with, signed_decimal, str_eq, str_starts_with};

verus! {

/// Error from PipeWire.
#[derive(Debug, Clone)]
pub struct PwError {
    /// Error code
    pub code: i32,
    /// Error message
    pub message: String,
}

impl PwError {
    /// The error as text: "PipeWire error CODE: MESSAGE".
    pub fn to_message(&self) -> (r: String)
        ensures
            r@ == "PipeWire error "@ + signed_decimal(self.code as int) + ": "@ + self.message@,
    {
        let mut s = owned("PipeWire error ");
        push_i32_decimal(&mut s, self.code);
        push_str(&mut s, ": ");
        push_str(&mut s, self.message.as_str());
        s
    }
}

/// The number a property holds, if it is present and parses as a `u32`.
pub open spec fn prop_u32(props: Properties, key: Seq<char>) -> Option<u32> {
    match props.value_of(key) {
        Some(v) => parse_u32_spec(v@),
        None => None,
    }
}

/// The text of a property, or `fallback` followed by the object id when absent.
pub open spec fn prop_or_numbered(props: Properties, key: Seq<char>, fallback: Seq<char>, id: u32) -> Seq<char> {
    match props.value_of(key) {
        Some(v) => v@,
        None => fallback + decimal(id as nat),
    }
}

/// Reads a property as a `u32`.
fn get_u32(props: &Properties, key: &str) -> (r: Option<u32>)
    ensures
        r == prop_u32(*props, key@),
{
    match props.get(key) {
        Some(v) => parse_u32(v.as_str()),
        None => None,
    }
}

/// Reads a property, or builds "fallback id" when it is absent.
fn get_or_numbered(props: &Properties, key: &str, fallback: &str, id: u32) -> (r: String)
    ensures
        r@ == prop_or_numbered(*props, key@, fallback@, id),
{
    match props.get(key) {
        Some(v) => v.clone(),
        None => {
            let mut s = owned(fallback);
            push_decimal(&mut s, id as u64);
            s
        },
    }
}

/// The view of an optional string slice.
pub open spec fn opt_str(o: Option<&str>) -> Option<Seq<char>> {
    match o {
        Some(s) => Some(s@),
        None => None,
    }
}

/// The view of an optional string.
pub open spec fn opt_string(o: Option<String>) -> Option<Seq<char>> {
    match o {
        Some(s) => Some(s@),
        None => None,
    }
}

/// The factory name marks a hardware driver (ALSA, V4L2, BlueZ, JACK) or the adapter factory.
pub open spec fn is_driver_factory(f: Seq<char>) -> bool {
    seq_starts_with(f, "api.alsa"@) || seq_starts_with(f, "api.v4l2"@) || seq_starts_with(f, "api.bluez"@)
        || seq_starts_with(f, "api.jack"@) || f == "adapter"@
}

/// The factory name marks a node internal to PipeWire.
pub open spec fn is_internal_factory(f: Seq<char>) -> bool {
    f == "spa-node-factory"@ || f == "audio.convert"@ || f == "link-factory"@ || seq_starts_with(f, "support."@)
}

/// The PipeWire stack layer of a node, by the first rule that applies: a device id
/// or a hardware driver factory means hardware (the adapter factory without a
/// device id means PipeWire); a link group, an internal factory or the
/// `monitor.passthrough` property means PipeWire; a target object, a client API,
/// a stream or device media class, and everything else mean session.
pub open spec fn layer_of(
    media_class: Option<MediaClassView>,
    factory_name: Option<Seq<char>>,
    device_id: Option<u32>,
    link_group: Option<Seq<char>>,
    client_api: Option<Seq<char>>,
    target_object: Option<u32>,
    has_passthrough: bool,
) -> NodeLayer {
    if device_id is Some {
        NodeLayer::Hardware
    } else if factory_name is Some && is_driver_factory(factory_name->0) {
        if factory_name->0 == "adapter"@ { NodeLayer::Pipewire } else { NodeLayer::Hardware }
    } else if link_group is Some {
        NodeLayer::Pipewire
    } else if factory_name is Some && is_internal_factory(factory_name->0) {
        NodeLayer::Pipewire
    } else if has_passthrough {
        NodeLayer::Pipewire
    } else {
        NodeLayer::Session
    }
}

/// Information about a PipeWire node.
#[derive(Debug, Clone)]
pub struct NodeInfo {
    /// Node ID
    pub id: NodeId,
    /// Node name
    pub name: String,
    /// Client ID
    pub client_id: Option<ClientId>,
    /// Media class
    pub media_class: Option<MediaClass>,
    /// Application name
    pub application_name: Option<String>,
    /// Node description
    pub description: Option<String>,
    /// Node nickname
    pub nick: Option<String>,
    /// Audio format
    pub format: Option<AudioFormat>,
    /// Detected layer in the PipeWire stack
    pub layer: NodeLayer,
    /// Factory name (e.g., "api.alsa.pcm.source" for hardware)
    pub factory_name: Option<String>,
    /// Device ID (present for hardware nodes)
    pub device_id: Option<u32>,
    /// Object path (for hardware nodes)
    pub object_path: Option<String>,
    /// Link group (for PipeWire split/channel nodes)
    pub link_group: Option<String>,
    /// Client API (e.g., "pipewire-pulse" for session layer)
    pub client_api: Option<String>,
    /// Target object ID (reference to another node, for session layer)
    pub target_object: Option<u32>,
}

/// Returns true if the factory name marks a hardware driver or the adapter factory.
fn driver_factory(f: &str) -> (r: bool)
    ensures
        r == is_driver_factory(f@),
{
    str_starts_with(f, "api.alsa") || str_starts_with(f, "api.v4l2") || str_starts_with(f, "api.bluez")
        || str_starts_with(f, "api.jack") || str_eq(f, "adapter")
}

/// Returns true if the factory name marks a node internal to PipeWire.
fn internal_factory(f: &str) -> (r: bool)
    ensures
        r == is_internal_factory(f@),
{
    str_eq(f, "spa-node-factory") || str_eq(f, "audio.convert") || str_eq(f, "link-factory")
        || str_starts_with(f, "support.")
}

impl NodeInfo {
    /// Creates a node description from its raw properties: name (or "Node ID"),
    /// client id, media class, application name, description, nick, audio format
    /// (rate, channels and format with defaults 48000, 2 and "F32LE"), the layer
    /// detection properties and the detected layer.
    pub fn from_properties(id: u32, props: &Properties) -> (r: Self)
        ensures
            r.id == NodeId(id),
            r.name@ == prop_or_numbered(*props, "node.name"@, "Node "@, id),
            r.client_id == match prop_u32(*props, "client.id"@) {
                Some(c) => Some(ClientId(c)),
                None => None::<ClientId>,
            },
            opt_class_view(r.media_class) == match props.value_of("media.class"@) {
                Some(v) => Some(media_class_of(v@)),
                None => None,
            },
            r.application_name == props.value_of("application.name"@),
            r.description == props.value_of("node.description"@),
            r.nick == props.value_of("node.nick"@),
            r.format is Some,
            r.format->0.sample_rate == match prop_u32(*props, "audio.rate"@) { Some(v) => v, None => 48000 },
            r.format->0.channels == match prop_u32(*props, "audio.channels"@) { Some(v) => v, None => 2 },
            r.format->0.format@ == match props.value_of("audio.format"@) { Some(v) => v@, None => "F32LE"@ },
            r.factory_name == props.value_of("factory.name"@),
            r.device_id == prop_u32(*props, "device.id"@),
            r.object_path == props.value_of("object.path"@),
            r.link_group == props.value_of("node.link-group"@),
            r.client_api == props.value_of("client.api"@),
            r.target_object == prop_u32(*props, "target.object"@),
            r.layer == layer_of(opt_class_view(r.media_class), opt_string(r.factory_name), r.device_id,
                opt_string(r.link_group), opt_string(r.client_api), r.target_object,
                props.value_of("monitor.passthrough"@) is Some),
    {
        let media_class = match props.get("media.class") {
            Some(s) => Some(MediaClass::from_pipewire_str(s.as_str())),
            None => None,
        };
        let format = Self::parse_format(props);
        let factory_name = props.get_cloned("factory.name");
        let device_id = get_u32(props, "device.id");
        let object_path = props.get_cloned("object.path");
        let link_group = props.get_cloned("node.link-group");
        let client_api = props.get_cloned("client.api");
        let target_object = get_u32(props, "target.object");
        let layer = Self::detect_layer(
            &media_class,
            match &factory_name { Some(f) => Some(f.as_str()), None => None },
            device_id,
            match &link_group { Some(f) => Some(f.as_str()), None => None },
            match &client_api { Some(f) => Some(f.as_str()), None => None },
            target_object,
            props,
        );
        let client_id = match get_u32(props, "client.id") {
            Some(c) => Some(ClientId::new(c)),
            None => None,
        };
        NodeInfo {
            id: NodeId::new(id),
            name: get_or_numbered(props, "node.name", "Node ", id),
            client_id,
            media_class,
            application_name: props.get_cloned("application.name"),
            description: props.get_cloned("node.description"),
            nick: props.get_cloned("node.nick"),
            format,
            layer,
            factory_name,
            device_id,
            object_path,
            link_group,
            client_api,
            target_object,
        }
    }

    /// Detects the PipeWire stack layer for a node based on its properties.
    pub fn detect_layer(
        media_class: &Option<MediaClass>,
        factory_name: Option<&str>,
        device_id: Option<u32>,
        link_group: Option<&str>,
        client_api: Option<&str>,
        target_object: Option<u32>,
        props: &Properties,
    ) -> (r: NodeLayer)
        ensures
            r == layer_of(opt_class_view(*media_class), opt_str(factory_name), device_id, opt_str(link_group),
                opt_str(client_api), target_object, props.value_of("monitor.passthrough"@) is Some),
    {
        if device_id.is_some() {
            return NodeLayer::Hardware;
        }
        match factory_name {
            Some(factory) => {
                if driver_factory(factory) {
                    if str_eq(factory, "adapter") {
                        return NodeLayer::Pipewire;
                    }
                    return NodeLayer::Hardware;
                }
            },
            None => {},
        }
        if link_group.is_some() {
            return NodeLayer::Pipewire;
        }
        match factory_name {
            Some(factory) => {
                if internal_factory(factory) {
                    return NodeLayer::Pipewire;
                }
            },
            None => {},
        }
        if props.get("monitor.passthrough").is_some() {
            return NodeLayer::Pipewire;
        }
        if target_object.is_some() || client_api.is_some() {
            return NodeLayer::Session;
        }
        match media_class {
            Some(MediaClass::StreamOutputAudio) | Some(MediaClass::StreamInputAudio) => {
                return NodeLayer::Session;
            },
            Some(MediaClass::AudioDevice) | Some(MediaClass::VideoDevice) => {
                return NodeLayer::Session;
            },
            _ => {},
        }
        NodeLayer::Session
    }

    /// Reads the audio format: rate, channels and sample format, with the defaults
    /// 48000, 2 and "F32LE" for absent or unparsable values.
    pub fn parse_format(props: &Properties) -> (r: Option<AudioFormat>)
        ensures
            r is Some,
            r->0.sample_rate == match prop_u32(*props, "audio.rate"@) { Some(v) => v, None => 48000 },
            r->0.channels == match prop_u32(*props, "audio.channels"@) { Some(v) => v, None => 2 },
            r->0.format@ == match props.value_of("audio.format"@) { Some(v) => v@, None => "F32LE"@ },
    {
        let sample_rate = match get_u32(props, "audio.rate") {
            Some(v) => v,
            None => 48000,
        };
        let channels = match get_u32(props, "audio.channels") {
            Some(v) => v,
            None => 2,
        };
        let format = match props.get("audio.format") {
            Some(f) => f.clone(),
            None => owned("F32LE"),
        };
        Some(AudioFormat { sample_rate, channels, format })
    }
}

/// Information about a PipeWire port.
#[derive(Debug, Clone)]
pub struct PortInfo {
    /// Port ID
    pub id: PortId,
    /// Node ID
    pub node_id: NodeId,
    /// Port name
    pub name: String,
    /// Port direction
    pub direction: PortDirection,
    /// Channel index
    pub channel: Option<u32>,
    /// Physical port path
    pub physical_path: Option<String>,
    /// Alias name
    pub alias: Option<String>,
    /// Is this a monitor port
    pub is_monitor: bool,
    /// Is this a control port
    pub is_control: bool,
}

/// A property holds exactly the text "true".
pub open spec fn prop_true(props: Properties, key: Seq<char>) -> bool {
    match props.value_of(key) {
        Some(v) => v@ == "true"@,
        None => false,
    }
}

/// Reads a boolean property: true only for the text "true".
fn get_flag(props: &Properties, key: &str) -> (r: bool)
    ensures
        r == prop_true(*props, key@),
{
    match props.get(key) {
        Some(v) => str_eq(v.as_str(), "true"),
        None => false,
    }
}

impl PortInfo {
    /// Creates port information from raw properties: direction ("in" or "out",
    /// else output), node id (else 0), name (else "Port ID"), channel, physical
    /// path, alias, and the monitor and control flags.
    pub fn from_properties(id: u32, props: &Properties) -> (r: Self)
        ensures
            r.id == PortId(id),
            r.direction == match props.value_of("port.direction"@) {
                Some(v) => if v@ == "in"@ { PortDirection::Input } else { PortDirection::Output },
                None => PortDirection::Output,
            },
            r.node_id == NodeId(match prop_u32(*props, "node.id"@) { Some(v) => v, None => 0 }),
            r.name@ == prop_or_numbered(*props, "port.name"@, "Port "@, id),
            r.channel == prop_u32(*props, "audio.channel"@),
            r.physical_path == props.value_of("port.physical"@),
            r.alias == props.value_of("port.alias"@),
            r.is_monitor == prop_true(*props, "port.monitor"@),
            r.is_control == prop_true(*props, "port.control"@),
    {
        let direction = match props.get("port.direction") {
            Some(s) => match PortDirection::from_str(s.as_str()) {
                Some(d) => d,
                None => PortDirection::Output,
            },
            None => PortDirection::Output,
        };
        let node_id = match get_u32(props, "node.id") {
            Some(v) => v,
            None => 0,
        };
        PortInfo {
            id: PortId::new(id),
            node_id: NodeId::new(node_id),
            name: get_or_numbered(props, "port.name", "Port ", id),
            direction,
            channel: get_u32(props, "audio.channel"),
            physical_path: props.get_cloned("port.physical"),
            alias: props.get_cloned("port.alias"),
            is_monitor: get_flag(props, "port.monitor"),
            is_control: get_flag(props, "port.control"),
        }
    }
}

/// Information about a PipeWire link.
#[derive(Debug, Clone, Copy, PartialEq, Eq, Structural)]
pub struct LinkInfo {
    /// Link ID
    pub id: LinkId,
    /// Output port ID
    pub output_port: PortId,
    /// Input port ID
    pub input_port: PortId,
    /// Output node ID
    pub output_node: NodeId,
    /// Input node ID
    pub input_node: NodeId,
    /// Link state
    pub state: LinkState,
    /// Is the link active
    pub active: bool,
}

/// A numeric property, or 0 when absent or unparsable.
pub open spec fn prop_u32_or_zero(props: Properties, key: Seq<char>) -> u32 {
    match prop_u32(props, key) {
        Some(v) => v,
        None => 0,
    }
}

/// Reads a numeric property, or 0.
fn get_u32_or_zero(props: &Properties, key: &str) -> (r: u32)
    ensures
        r == prop_u32_or_zero(*props, key@),
{
    match get_u32(props, key) {
        Some(v) => v,
        None => 0,
    }
}

impl LinkInfo {
    /// Creates link information from raw properties (ids default to 0); a new
    /// link is active and in the initial state.
    pub fn from_properties(id: u32, props: &Properties) -> (r: Self)
        ensures
            r == (LinkInfo {
                id: LinkId(id),
                output_port: PortId(prop_u32_or_zero(*props, "link.output.port"@)),
                input_port: PortId(prop_u32_or_zero(*props, "link.input.port"@)),
                output_node: NodeId(prop_u32_or_zero(*props, "link.output.node"@)),
                input_node: NodeId(prop_u32_or_zero(*props, "link.input.node"@)),
                state: LinkState::Init,
                active: true,
            }),
    {
        LinkInfo {
            id: LinkId::new(id),
            output_port: PortId::new(get_u32_or_zero(props, "link.output.port")),
            input_port: PortId::new(get_u32_or_zero(props, "link.input.port")),
            output_node: NodeId::new(get_u32_or_zero(props, "link.output.node")),
            input_node: NodeId::new(get_u32_or_zero(props, "link.input.node")),
            state: LinkState::Init,
            active: true,
        }
    }
}

/// Information about a PipeWire client.
#[derive(Debug, Clone)]
pub struct ClientInfo {
    /// Client ID
    pub id: ClientId,
    /// Client name
    pub name: String,
    /// Application name
    pub application_name: Option<String>,
    /// Process ID
    pub pid: Option<u32>,
}

impl ClientInfo {
    /// Creates client information from raw properties.
    pub fn from_properties(id: u32, props: &Properties) -> (r: Self)
        ensures
            r.id == ClientId(id),
            r.name@ == prop_or_numbered(*props, "client.name"@, "Client "@, id),
            r.application_name == props.value_of("application.name"@),
            r.pid == prop_u32(*props, "application.process.id"@),
    {
        ClientInfo {
            id: ClientId::new(id),
            name: get_or_numbered(props, "client.name", "Client ", id),
            application_name: props.get_cloned("application.name"),
            pid: get_u32(props, "application.process.id"),
        }
    }
}

/// Information about a PipeWire device.
#[derive(Debug, Clone)]
pub struct DeviceInfo {
    /// Device ID
    pub id: DeviceId,
    /// Device name
    pub name: String,
    /// Device description
    pub description: Option<String>,
    /// Device nick
    pub nick: Option<String>,
}

impl DeviceInfo {
    /// Creates device information from raw properties.
    pub fn from_properties(id: u32, props: &Properties) -> (r: Self)
        ensures
            r.id == DeviceId(id),
            r.name@ == prop_or_numbered(*props, "device.name"@, "Device "@, id),
            r.description == props.value_of("device.description"@),
            r.nick == props.value_of("device.nick"@),
    {
        DeviceInfo {
            id: DeviceId::new(id),
            name: get_or_numbered(props, "device.name", "Device ", id),
            description: props.get_cloned("device.description"),
            nick: props.get_cloned("device.nick"),
        }
    }
}

}
