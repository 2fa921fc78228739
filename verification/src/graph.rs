//! Core graph data model: nodes, ports and links of a PipeWire graph.

use std::collections::HashMap;
use vstd::prelude::*;

use crate::ids::{ClientId, LinkId, NodeId, PortId};
use crate::text::str_eq;

verus! {

broadcast use vstd::std_specs::hash::group_hash_axioms;

/// Classification of nodes into PipeWire stack layers.
#[derive(Debug, Clone, Copy, PartialEq, Eq, Hash, Structural)]
pub enum NodeLayer {
    /// Hardware/device layer - physical devices from kernel (ALSA PCM, etc.)
    Hardware,
    /// PipeWire layer - logical nodes like channel splits, adapters
    Pipewire,
    /// Session layer - WirePlumber-managed application nodes
    Session,
}

impl Default for NodeLayer {
    fn default() -> (r: Self)
        ensures
            r == NodeLayer::Session,
    {
        NodeLayer::Session
    }
}

impl NodeLayer {
    /// Returns a human-readable name for the layer.
    pub fn display_name(&self) -> (r: &'static str)
        ensures
            r@ == match *self {
                NodeLayer::Hardware => "Hardware"@,
                NodeLayer::Pipewire => "PipeWire"@,
                NodeLayer::Session => "Session"@,
            },
    {
        match self {
            NodeLayer::Hardware => "Hardware",
            NodeLayer::Pipewire => "PipeWire",
            NodeLayer::Session => "Session",
        }
    }

    /// Returns a short label for UI display.
    pub fn short_label(&self) -> (r: &'static str)
        ensures
            r@ == match *self {
                NodeLayer::Hardware => "HW"@,
                NodeLayer::Pipewire => "PW"@,
                NodeLayer::Session => "SM"@,
            },
    {
        match self {
            NodeLayer::Hardware => "HW",
            NodeLayer::Pipewire => "PW",
            NodeLayer::Session => "SM",
        }
    }

    /// Returns a description of what this layer represents.
    pub fn description(&self) -> (r: &'static str)
        ensures
            r@ == match *self {
                NodeLayer::Hardware => "Physical device nodes from kernel (ALSA, etc.)"@,
                NodeLayer::Pipewire => "Logical views created by PipeWire (splits, adapters)"@,
                NodeLayer::Session => "Application nodes managed by session manager"@,
            },
    {
        match self {
            NodeLayer::Hardware => "Physical device nodes from kernel (ALSA, etc.)",
            NodeLayer::Pipewire => "Logical views created by PipeWire (splits, adapters)",
            NodeLayer::Session => "Application nodes managed by session manager",
        }
    }
}

/// Media class of a PipeWire node.
#[derive(Debug, Clone, PartialEq, Eq, Hash)]
pub enum MediaClass {
    /// Audio source (e.g., microphone)
    AudioSource,
    /// Audio sink (e.g., speakers)
    AudioSink,
    /// Audio stream from an application
    StreamOutputAudio,
    /// Audio stream to an application
    StreamInputAudio,
    /// Video source (e.g., camera)
    VideoSource,
    /// Video sink (e.g., display)
    VideoSink,
    /// MIDI source
    MidiSource,
    /// MIDI sink
    MidiSink,
    /// Audio/Video source
    AudioVideoSource,
    /// Audio device
    AudioDevice,
    /// Video device
    VideoDevice,
    /// Unknown or other media class
    Other(String),
}

/// The view of a media class: the same variants, with the text of `Other` as characters.
pub enum MediaClassView {
    /// Audio source
    AudioSource,
    /// Audio sink
    AudioSink,
    /// Audio stream from an application
    StreamOutputAudio,
    /// Audio stream to an application
    StreamInputAudio,
    /// Video source
    VideoSource,
    /// Video sink
    VideoSink,
    /// MIDI source
    MidiSource,
    /// MIDI sink
    MidiSink,
    /// Audio/Video source
    AudioVideoSource,
    /// Audio device
    AudioDevice,
    /// Video device
    VideoDevice,
    /// Unknown or other media class
    Other(Seq<char>),
}

impl View for MediaClass {
    type V = MediaClassView;

    open spec fn view(&self) -> MediaClassView {
        match self {
            MediaClass::AudioSource => MediaClassView::AudioSource,
            MediaClass::AudioSink => MediaClassView::AudioSink,
            MediaClass::StreamOutputAudio => MediaClassView::StreamOutputAudio,
            MediaClass::StreamInputAudio => MediaClassView::StreamInputAudio,
            MediaClass::VideoSource => MediaClassView::VideoSource,
            MediaClass::VideoSink => MediaClassView::VideoSink,
            MediaClass::MidiSource => MediaClassView::MidiSource,
            MediaClass::MidiSink => MediaClassView::MidiSink,
            MediaClass::AudioVideoSource => MediaClassView::AudioVideoSource,
            MediaClass::AudioDevice => MediaClassView::AudioDevice,
            MediaClass::VideoDevice => MediaClassView::VideoDevice,
            MediaClass::Other(s) => MediaClassView::Other(s@),
        }
    }
}

/// The media class that a PipeWire `media.class` string denotes.
pub open spec fn media_class_of(s: Seq<char>) -> MediaClassView {
    if s == "Audio/Source"@ {
        MediaClassView::AudioSource
    } else if s == "Audio/Sink"@ {
        MediaClassView::AudioSink
    } else if s == "Stream/Output/Audio"@ {
        MediaClassView::StreamOutputAudio
    } else if s == "Stream/Input/Audio"@ {
        MediaClassView::StreamInputAudio
    } else if s == "Video/Source"@ {
        MediaClassView::VideoSource
    } else if s == "Video/Sink"@ {
        MediaClassView::VideoSink
    } else if s == "Midi/Source"@ || s == "Midi/Bridge"@ {
        MediaClassView::MidiSource
    } else if s == "Midi/Sink"@ {
        MediaClassView::MidiSink
    } else if s == "Audio/Video/Source"@ {
        MediaClassView::AudioVideoSource
    } else if s == "Audio/Device"@ {
        MediaClassView::AudioDevice
    } else if s == "Video/Device"@ {
        MediaClassView::VideoDevice
    } else {
        MediaClassView::Other(s)
    }
}

/// The PipeWire string that a media class is written as.
pub open spec fn media_class_text(m: MediaClassView) -> Seq<char> {
    match m {
        MediaClassView::AudioSource => "Audio/Source"@,
        MediaClassView::AudioSink => "Audio/Sink"@,
        MediaClassView::StreamOutputAudio => "Stream/Output/Audio"@,
        MediaClassView::StreamInputAudio => "Stream/Input/Audio"@,
        MediaClassView::VideoSource => "Video/Source"@,
        MediaClassView::VideoSink => "Video/Sink"@,
        MediaClassView::MidiSource => "Midi/Source"@,
        MediaClassView::MidiSink => "Midi/Sink"@,
        MediaClassView::AudioVideoSource => "Audio/Video/Source"@,
        MediaClassView::AudioDevice => "Audio/Device"@,
        MediaClassView::VideoDevice => "Video/Device"@,
        MediaClassView::Other(s) => s,
    }
}

impl MediaClassView {
    /// Audio-related media classes.
    pub open spec fn is_audio(self) -> bool {
        ||| self is AudioSource
        ||| self is AudioSink
        ||| self is StreamOutputAudio
        ||| self is StreamInputAudio
        ||| self is AudioDevice
        ||| self is AudioVideoSource
    }

    /// Video-related media classes.
    pub open spec fn is_video(self) -> bool {
        ||| self is VideoSource
        ||| self is VideoSink
        ||| self is VideoDevice
        ||| self is AudioVideoSource
    }

    /// MIDI-related media classes.
    pub open spec fn is_midi(self) -> bool {
        self is MidiSource || self is MidiSink
    }

    /// Media classes that produce signal.
    pub open spec fn is_source(self) -> bool {
        ||| self is AudioSource
        ||| self is VideoSource
        ||| self is MidiSource
        ||| self is StreamOutputAudio
        ||| self is AudioVideoSource
    }

    /// Media classes that receive signal.
    pub open spec fn is_sink(self) -> bool {
        ||| self is AudioSink
        ||| self is VideoSink
        ||| self is MidiSink
        ||| self is StreamInputAudio
    }

    /// The human-readable name of the media class.
    pub open spec fn display_name(self) -> Seq<char> {
        match self {
            MediaClassView::AudioSource => "Audio Source"@,
            MediaClassView::AudioSink => "Audio Sink"@,
            MediaClassView::StreamOutputAudio => "Audio Output"@,
            MediaClassView::StreamInputAudio => "Audio Input"@,
            MediaClassView::VideoSource => "Video Source"@,
            MediaClassView::VideoSink => "Video Sink"@,
            MediaClassView::MidiSource => "MIDI Source"@,
            MediaClassView::MidiSink => "MIDI Sink"@,
            MediaClassView::AudioVideoSource => "A/V Source"@,
            MediaClassView::AudioDevice => "Audio Device"@,
            MediaClassView::VideoDevice => "Video Device"@,
            MediaClassView::Other(_) => "Other"@,
        }
    }
}

impl MediaClass {
    /// A copy of the media class.
    pub fn duplicate(&self) -> (r: Self)
        ensures
            r == *self,
    {
        match self {
            MediaClass::AudioSource => MediaClass::AudioSource,
            MediaClass::AudioSink => MediaClass::AudioSink,
            MediaClass::StreamOutputAudio => MediaClass::StreamOutputAudio,
            MediaClass::StreamInputAudio => MediaClass::StreamInputAudio,
            MediaClass::VideoSource => MediaClass::VideoSource,
            MediaClass::VideoSink => MediaClass::VideoSink,
            MediaClass::MidiSource => MediaClass::MidiSource,
            MediaClass::MidiSink => MediaClass::MidiSink,
            MediaClass::AudioVideoSource => MediaClass::AudioVideoSource,
            MediaClass::AudioDevice => MediaClass::AudioDevice,
            MediaClass::VideoDevice => MediaClass::VideoDevice,
            MediaClass::Other(s) => MediaClass::Other(s.clone()),
        }
    }

    /// Parses a media class from a PipeWire string.
    pub fn from_pipewire_str(s: &str) -> (r: Self)
        ensures
            r@ == media_class_of(s@),
    {
        if str_eq(s, "Audio/Source") {
            MediaClass::AudioSource
        } else if str_eq(s, "Audio/Sink") {
            MediaClass::AudioSink
        } else if str_eq(s, "Stream/Output/Audio") {
            MediaClass::StreamOutputAudio
        } else if str_eq(s, "Stream/Input/Audio") {
            MediaClass::StreamInputAudio
        } else if str_eq(s, "Video/Source") {
            MediaClass::VideoSource
        } else if str_eq(s, "Video/Sink") {
            MediaClass::VideoSink
        } else if str_eq(s, "Midi/Source") || str_eq(s, "Midi/Bridge") {
            MediaClass::MidiSource
        } else if str_eq(s, "Midi/Sink") {
            MediaClass::MidiSink
        } else if str_eq(s, "Audio/Video/Source") {
            MediaClass::AudioVideoSource
        } else if str_eq(s, "Audio/Device") {
            MediaClass::AudioDevice
        } else if str_eq(s, "Video/Device") {
            MediaClass::VideoDevice
        } else {
            MediaClass::Other(s.to_owned())
        }
    }

    /// Returns true if this is an audio-related media class.
    pub fn is_audio(&self) -> (r: bool)
        ensures
            r == self@.is_audio(),
    {
        match self {
            MediaClass::AudioSource | MediaClass::AudioSink | MediaClass::StreamOutputAudio
            | MediaClass::StreamInputAudio | MediaClass::AudioDevice
            | MediaClass::AudioVideoSource => true,
            _ => false,
        }
    }

    /// Returns true if this is a video-related media class.
    pub fn is_video(&self) -> (r: bool)
        ensures
            r == self@.is_video(),
    {
        match self {
            MediaClass::VideoSource | MediaClass::VideoSink | MediaClass::VideoDevice
            | MediaClass::AudioVideoSource => true,
            _ => false,
        }
    }

    /// Returns true if this is a MIDI-related media class.
    pub fn is_midi(&self) -> (r: bool)
        ensures
            r == self@.is_midi(),
    {
        match self {
            MediaClass::MidiSource | MediaClass::MidiSink => true,
            _ => false,
        }
    }

    /// Returns true if this is a source (produces output, should be on the left).
    pub fn is_source(&self) -> (r: bool)
        ensures
            r == self@.is_source(),
    {
        match self {
            MediaClass::AudioSource | MediaClass::VideoSource | MediaClass::MidiSource
            | MediaClass::StreamOutputAudio | MediaClass::AudioVideoSource => true,
            _ => false,
        }
    }

    /// Returns true if this is a sink (receives input, should be on the right).
    pub fn is_sink(&self) -> (r: bool)
        ensures
            r == self@.is_sink(),
    {
        match self {
            MediaClass::AudioSink | MediaClass::VideoSink | MediaClass::MidiSink
            | MediaClass::StreamInputAudio => true,
            _ => false,
        }
    }

    /// Returns a layout column hint: -1 for sources (left), 1 for sinks (right), 0 for middle.
    pub fn layout_column(&self) -> (r: i32)
        ensures
            r == (if self@.is_source() { -1 } else if self@.is_sink() { 1 } else { 0int }),
    {
        if self.is_source() {
            -1
        } else if self.is_sink() {
            1
        } else {
            0
        }
    }

    /// Returns a human-readable name for the media class.
    pub fn display_name(&self) -> (r: &'static str)
        ensures
            r@ == self@.display_name(),
    {
        match self {
            MediaClass::AudioSource => "Audio Source",
            MediaClass::AudioSink => "Audio Sink",
            MediaClass::StreamOutputAudio => "Audio Output",
            MediaClass::StreamInputAudio => "Audio Input",
            MediaClass::VideoSource => "Video Source",
            MediaClass::VideoSink => "Video Sink",
            MediaClass::MidiSource => "MIDI Source",
            MediaClass::MidiSink => "MIDI Sink",
            MediaClass::AudioVideoSource => "A/V Source",
            MediaClass::AudioDevice => "Audio Device",
            MediaClass::VideoDevice => "Video Device",
            MediaClass::Other(_) => "Other",
        }
    }
}

impl core::str::FromStr for MediaClass {
    type Err = core::convert::Infallible;

    /// Parses PipeWire media class text; this never fails.
    fn from_str(s: &str) -> (r: Result<Self, Self::Err>)
        ensures
            r matches Ok(m) && m@ == media_class_of(s@),
    {
        Ok(Self::from_pipewire_str(s))
    }
}

/// Direction of a port.
#[derive(Debug, Clone, Copy, PartialEq, Eq, Hash, Structural)]
pub enum PortDirection {
    /// Input port (receives data)
    Input,
    /// Output port (sends data)
    Output,
}

impl PortDirection {
    /// Parses a port direction from a PipeWire string.
    pub fn from_str(s: &str) -> (r: Option<Self>)
        ensures
            r == (if s@ == "in"@ {
                Some(PortDirection::Input)
            } else if s@ == "out"@ {
                Some(PortDirection::Output)
            } else {
                None
            }),
    {
        if str_eq(s, "in") {
            Some(PortDirection::Input)
        } else if str_eq(s, "out") {
            Some(PortDirection::Output)
        } else {
            None
        }
    }

    /// Returns the opposite direction.
    pub fn opposite(&self) -> (r: Self)
        ensures
            r != *self,
    {
        match self {
            PortDirection::Input => PortDirection::Output,
            PortDirection::Output => PortDirection::Input,
        }
    }
}

/// Audio format information.
#[derive(Debug, Clone, PartialEq, Eq)]
pub struct AudioFormat {
    /// Sample rate in Hz
    pub sample_rate: u32,
    /// Number of channels
    pub channels: u32,
    /// Format name (e.g., "F32LE")
    pub format: String,
}

impl AudioFormat {
    /// A copy of the format.
    pub fn duplicate(&self) -> (r: Self)
        ensures
            r == *self,
    {
        AudioFormat { sample_rate: self.sample_rate, channels: self.channels, format: self.format.clone() }
    }
}

impl Default for AudioFormat {
    fn default() -> (r: Self)
        ensures
            r.sample_rate == 48000,
            r.channels == 2,
            r.format@ == "F32LE"@,
    {
        AudioFormat { sample_rate: 48000, channels: 2, format: "F32LE".to_owned() }
    }
}

/// A port on a PipeWire node.
#[derive(Debug, Clone, PartialEq, Eq)]
pub struct Port {
    /// Unique port ID
    pub id: PortId,
    /// ID of the node this port belongs to
    pub node_id: NodeId,
    /// Port name
    pub name: String,
    /// Port direction (input/output)
    pub direction: PortDirection,
    /// Channel index for multi-channel ports
    pub channel: Option<u32>,
    /// Physical port path (if applicable)
    pub physical_path: Option<String>,
    /// Alias name (user-friendly name)
    pub alias: Option<String>,
    /// Whether this port is a monitor port
    pub is_monitor: bool,
    /// Whether this port is a control port
    pub is_control: bool,
}

impl Port {
    /// Creates a new port with the given parameters.
    pub fn new(id: PortId, node_id: NodeId, name: String, direction: PortDirection) -> (r: Self)
        ensures
            r.id == id,
            r.node_id == node_id,
            r.name == name,
            r.direction == direction,
            r.channel is None,
            r.physical_path is None,
            r.alias is None,
            !r.is_monitor,
            !r.is_control,
    {
        Port {
            id,
            node_id,
            name,
            direction,
            channel: None,
            physical_path: None,
            alias: None,
            is_monitor: false,
            is_control: false,
        }
    }

    /// The name shown for the port: the alias if there is one, else the name.
    pub open spec fn spec_display_name(&self) -> Seq<char> {
        match self.alias {
            Some(a) => a@,
            None => self.name@,
        }
    }

    /// Returns the display name for this port.
    pub fn display_name(&self) -> (r: &str)
        ensures
            r@ == self.spec_display_name(),
    {
        match &self.alias {
            Some(a) => a.as_str(),
            None => self.name.as_str(),
        }
    }

    /// Checks if this port can connect to another port: their directions must differ
    /// (self-links on one node are allowed).
    pub fn can_connect_to(&self, other: &Port) -> (r: bool)
        ensures
            r == (self.direction != other.direction),
    {
        self.direction != other.direction
    }
}

/// A PipeWire node (represents an audio source, sink, or application).
#[derive(Debug, Clone, PartialEq, Eq)]
pub struct Node {
    /// Unique node ID
    pub id: NodeId,
    /// Node name
    pub name: String,
    /// Client ID that owns this node
    pub client_id: Option<ClientId>,
    /// Media class
    pub media_class: Option<MediaClass>,
    /// Application name
    pub application_name: Option<String>,
    /// Node description
    pub description: Option<String>,
    /// Node nickname
    pub nick: Option<String>,
    /// Audio format (if applicable)
    pub format: Option<AudioFormat>,
    /// IDs of ports belonging to this node
    pub port_ids: Vec<PortId>,
    /// Whether this node is currently active
    pub is_active: bool,
    /// The PipeWire stack layer this node belongs to
    pub layer: NodeLayer,
}

/// The ports, in the order of `ids`, that are present in `ports` and have direction `dir`.
pub open spec fn ports_with_direction(ids: Seq<PortId>, ports: Map<u32, Port>, dir: PortDirection) -> Seq<Port>
    decreases ids.len(),
{
    if ids.len() == 0 {
        Seq::empty()
    } else {
        let rest = ports_with_direction(ids.drop_last(), ports, dir);
        let id = ids.last().0;
        if ports.contains_key(id) && ports[id].direction == dir {
            rest.push(ports[id])
        } else {
            rest
        }
    }
}

/// The view of an optional media class.
pub open spec fn opt_class_view(m: Option<MediaClass>) -> Option<MediaClassView> {
    match m {
        Some(c) => Some(c@),
        None => None,
    }
}

impl Node {
    /// Creates a new node with the given parameters.
    pub fn new(id: NodeId, name: String) -> (r: Self)
        ensures
            r.id == id,
            r.name == name,
            r.client_id is None,
            r.media_class is None,
            r.application_name is None,
            r.description is None,
            r.nick is None,
            r.format is None,
            r.port_ids@.len() == 0,
            r.is_active,
            r.layer == NodeLayer::Session,
    {
        Node {
            id,
            name,
            client_id: None,
            media_class: None,
            application_name: None,
            description: None,
            nick: None,
            format: None,
            port_ids: Vec::new(),
            is_active: true,
            layer: NodeLayer::Session,
        }
    }

    /// The name shown for the node: the description if there is one, else the name.
    pub open spec fn spec_display_name(&self) -> Seq<char> {
        match self.description {
            Some(d) => d@,
            None => self.name@,
        }
    }

    /// Returns the display name for this node.
    pub fn display_name(&self) -> (r: &str)
        ensures
            r@ == self.spec_display_name(),
    {
        match &self.description {
            Some(d) => d.as_str(),
            None => self.name.as_str(),
        }
    }

    /// The node's ports of one direction, in the order of `port_ids`.
    fn ports_in_direction<'a>(&'a self, ports: &'a HashMap<u32, Port>, dir: PortDirection) -> (r: Vec<&'a Port>)
        ensures
            r@.map_values(|p: &Port| *p) == ports_with_direction(self.port_ids@, ports@, dir),
    {
        let mut r: Vec<&Port> = Vec::new();
        let mut i: usize = 0;
        while i < self.port_ids.len()
            invariant
                i <= self.port_ids@.len(),
                r@.map_values(|p: &Port| *p) == ports_with_direction(self.port_ids@.take(i as int), ports@, dir),
            decreases self.port_ids.len() - i,
        {
            let id = self.port_ids[i];
            proof {
                assert(self.port_ids@.take(i + 1).drop_last() =~= self.port_ids@.take(i as int));
            }
            match ports.get(&id.0) {
                Some(p) => {
                    if p.direction == dir {
                        r.push(p);
                        proof {
                            assert(r@.map_values(|p: &Port| *p) =~= ports_with_direction(self.port_ids@.take(i as int), ports@, dir).push(*p));
                        }
                    }
                },
                None => {},
            }
            i += 1;
        }
        proof {
            assert(self.port_ids@.take(self.port_ids@.len() as int) =~= self.port_ids@);
        }
        r
    }

    /// Returns input ports for this node.
    pub fn input_ports<'a>(&'a self, ports: &'a HashMap<u32, Port>) -> (r: Vec<&'a Port>)
        ensures
            r@.map_values(|p: &Port| *p) == ports_with_direction(self.port_ids@, ports@, PortDirection::Input),
    {
        self.ports_in_direction(ports, PortDirection::Input)
    }

    /// Returns output ports for this node.
    pub fn output_ports<'a>(&'a self, ports: &'a HashMap<u32, Port>) -> (r: Vec<&'a Port>)
        ensures
            r@.map_values(|p: &Port| *p) == ports_with_direction(self.port_ids@, ports@, PortDirection::Output),
    {
        self.ports_in_direction(ports, PortDirection::Output)
    }
}

/// State of a link.
#[derive(Debug, Clone, Copy, PartialEq, Eq, Hash, Structural)]
pub enum LinkState {
    /// Link is being set up
    Init,
    /// Link is being negotiated
    Negotiating,
    /// Link is allocating buffers
    Allocating,
    /// Link is paused
    Paused,
    /// Link is active
    Active,
    /// Link encountered an error
    Error,
    /// Link is unlinked
    Unlinked,
}

impl Default for LinkState {
    fn default() -> (r: Self)
        ensures
            r == LinkState::Init,
    {
        LinkState::Init
    }
}

impl LinkState {
    /// Returns true if the link is in a healthy state (active or paused).
    pub fn is_healthy(&self) -> (r: bool)
        ensures
            r == (*self == LinkState::Active || *self == LinkState::Paused),
    {
        match self {
            LinkState::Active | LinkState::Paused => true,
            _ => false,
        }
    }

    /// Returns a human-readable name for the state.
    pub fn display_name(&self) -> (r: &'static str)
        ensures
            r@ == match *self {
                LinkState::Init => "Initializing"@,
                LinkState::Negotiating => "Negotiating"@,
                LinkState::Allocating => "Allocating"@,
                LinkState::Paused => "Paused"@,
                LinkState::Active => "Active"@,
                LinkState::Error => "Error"@,
                LinkState::Unlinked => "Unlinked"@,
            },
    {
        match self {
            LinkState::Init => "Initializing",
            LinkState::Negotiating => "Negotiating",
            LinkState::Allocating => "Allocating",
            LinkState::Paused => "Paused",
            LinkState::Active => "Active",
            LinkState::Error => "Error",
            LinkState::Unlinked => "Unlinked",
        }
    }
}

/// A link between two ports in the PipeWire graph.
#[derive(Debug, Clone, Copy, PartialEq, Eq, Structural)]
pub struct Link {
    /// Unique link ID
    pub id: LinkId,
    /// Output port ID
    pub output_port: PortId,
    /// Input port ID
    pub input_port: PortId,
    /// Output node ID
    pub output_node: NodeId,
    /// Input node ID
    pub input_node: NodeId,
    /// Whether the link is currently active
    pub is_active: bool,
    /// Link state
    pub state: LinkState,
}

impl Link {
    /// Creates a new active link between two ports, in the initial state.
    pub fn new(id: LinkId, output_port: PortId, input_port: PortId, output_node: NodeId, input_node: NodeId) -> (r: Self)
        ensures
            r == (Link { id, output_port, input_port, output_node, input_node, is_active: true, state: LinkState::Init }),
    {
        Link { id, output_port, input_port, output_node, input_node, is_active: true, state: LinkState::Init }
    }
}

}
