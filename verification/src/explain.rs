//! Human-readable explanations for graph elements, for tooltips and detail panels.

use vstd::prelude::*;

use crate::graph::{MediaClass, MediaClassView, Node, NodeLayer, opt_class_view};
use crate::text::{lowercase, owned, push_str, seq_contains, seq_starts_with, str_contains, str_eq, str_starts_with, to_lowercase};

verus! {

/// Special node type detected from naming patterns.
#[derive(Debug, Clone, Copy, PartialEq, Eq, Structural)]
pub enum SpecialNodeType {
    /// A pipeflow meter node (monitors another node)
    Meter,
    /// A PipeWire channel split node
    ChannelSplit,
    /// A PipeWire adapter node (format conversion)
    Adapter,
    /// A MIDI bridge node
    MidiBridge,
    /// A loopback/virtual device node
    Loopback,
    /// A dummy/null sink node
    DummySink,
    /// A monitor source (captures output)
    Monitor,
    /// Not a special node type
    Regular,
}

/// The lowercased description contains the text.
pub open spec fn description_contains(node: Node, text: Seq<char>) -> bool {
    match node.description {
        Some(d) => seq_contains(lowercase(d@), text),
        None => false,
    }
}

/// The special type of a node, by the first rule that applies: meter name prefix,
/// channel split, adapter, MIDI bridge, loopback, dummy sink, monitor.
pub open spec fn special_type_of(node: Node) -> SpecialNodeType {
    let nl = lowercase(node.name@);
    if seq_starts_with(node.name@, "pipeflow-meter-"@) {
        SpecialNodeType::Meter
    } else if seq_contains(nl, "channelmix"@) || seq_contains(nl, "channel-split"@) {
        SpecialNodeType::ChannelSplit
    } else if seq_contains(nl, "adapter"@) || seq_contains(nl, "audioconvert"@) {
        SpecialNodeType::Adapter
    } else if (match opt_class_view(node.media_class) {
        Some(mc) => mc is MidiSource || mc is MidiSink,
        None => false,
    }) && (seq_contains(nl, "bridge"@) || seq_contains(nl, "through"@)) {
        SpecialNodeType::MidiBridge
    } else if seq_contains(nl, "loopback"@) || seq_contains(nl, "virtual"@) || description_contains(node, "loopback"@) {
        SpecialNodeType::Loopback
    } else if seq_contains(nl, "dummy"@) || seq_contains(nl, "null"@) || seq_contains(nl, "auto_null"@) {
        SpecialNodeType::DummySink
    } else if seq_contains(nl, "monitor"@) || description_contains(node, "monitor"@) {
        SpecialNodeType::Monitor
    } else {
        SpecialNodeType::Regular
    }
}

/// What the name of a node tells of its special type: a name starting with the
/// meter prefix is a meter; a name that mentions "monitor" (in any case) is
/// never a regular node, and it is a monitor unless its name or description
/// marks it as one of the earlier kinds; a regular node's name mentions none of
/// the markers.
pub proof fn lemma_detect_by_name(node: Node)
    ensures
        seq_starts_with(node.name@, "pipeflow-meter-"@) ==> special_type_of(node) == SpecialNodeType::Meter,
        seq_contains(lowercase(node.name@), "monitor"@) ==> special_type_of(node) != SpecialNodeType::Regular,
        ({
            let nl = lowercase(node.name@);
            &&& seq_contains(nl, "monitor"@)
            &&& !seq_starts_with(node.name@, "pipeflow-meter-"@)
            &&& !seq_contains(nl, "channelmix"@) && !seq_contains(nl, "channel-split"@)
            &&& !seq_contains(nl, "adapter"@) && !seq_contains(nl, "audioconvert"@)
            &&& !seq_contains(nl, "bridge"@) && !seq_contains(nl, "through"@)
            &&& !seq_contains(nl, "loopback"@) && !seq_contains(nl, "virtual"@)
            &&& !description_contains(node, "loopback"@)
            &&& !seq_contains(nl, "dummy"@) && !seq_contains(nl, "null"@) && !seq_contains(nl, "auto_null"@)
        }) ==> special_type_of(node) == SpecialNodeType::Monitor,
        special_type_of(node) == SpecialNodeType::Regular ==> {
            let nl = lowercase(node.name@);
            &&& !seq_contains(nl, "monitor"@) && !description_contains(node, "monitor"@)
            &&& !seq_contains(nl, "channelmix"@) && !seq_contains(nl, "channel-split"@)
            &&& !seq_contains(nl, "adapter"@) && !seq_contains(nl, "audioconvert"@)
            &&& !seq_contains(nl, "loopback"@) && !seq_contains(nl, "virtual"@)
            &&& !seq_contains(nl, "dummy"@) && !seq_contains(nl, "null"@)
            &&& !seq_starts_with(node.name@, "pipeflow-meter-"@)
        },
{
}

/// The explanation text of a special node type.
pub open spec fn special_explanation(t: SpecialNodeType) -> Option<Seq<char>> {
    match t {
        SpecialNodeType::Meter => Some("This is a metering node created by Pipeflow to monitor audio levels. It captures the signal without affecting it."@),
        SpecialNodeType::ChannelSplit => Some("This is a channel split node created by PipeWire to separate or combine audio channels (e.g., splitting stereo into left/right or combining mono to stereo)."@),
        SpecialNodeType::Adapter => Some("This is an adapter node that converts between different audio formats or sample rates. PipeWire creates these automatically when needed."@),
        SpecialNodeType::MidiBridge => Some("This is a MIDI bridge node that routes MIDI messages between applications or hardware. It can loop MIDI back to itself for routing purposes."@),
        SpecialNodeType::Loopback => Some("This is a loopback/virtual device that routes audio internally. Useful for capturing application output or routing between apps."@),
        SpecialNodeType::DummySink => Some("This is a dummy/null sink that discards audio. It's used as a placeholder when no real output device is available."@),
        SpecialNodeType::Monitor => Some("This is a monitor source that captures audio from an output device. Use it to record or process what's being played through speakers."@),
        SpecialNodeType::Regular => None,
    }
}

/// Tests whether the optional description, lowercased, contains the text.
fn description_has(node: &Node, text: &str) -> (r: bool)
    ensures
        r == description_contains(*node, text@),
{
    match &node.description {
        Some(d) => {
            let dl = to_lowercase(d.as_str());
            str_contains(dl.as_str(), text)
        },
        None => false,
    }
}

impl SpecialNodeType {
    /// Detects the special node type from node properties.
    pub fn detect(node: &Node) -> (r: Self)
        ensures
            r == special_type_of(*node),
            seq_starts_with(node.name@, "pipeflow-meter-"@) ==> r == SpecialNodeType::Meter,
            seq_contains(lowercase(node.name@), "monitor"@) ==> r != SpecialNodeType::Regular,
            r == SpecialNodeType::Regular ==> !seq_contains(lowercase(node.name@), "monitor"@)
                && !description_contains(*node, "monitor"@),
    {
        proof {
            lemma_detect_by_name(*node);
        }
        let name_lower = to_lowercase(node.name.as_str());
        let nl = name_lower.as_str();
        if str_starts_with(node.name.as_str(), "pipeflow-meter-") {
            return SpecialNodeType::Meter;
        }
        if str_contains(nl, "channelmix") || str_contains(nl, "channel-split") {
            return SpecialNodeType::ChannelSplit;
        }
        if str_contains(nl, "adapter") || str_contains(nl, "audioconvert") {
            return SpecialNodeType::Adapter;
        }
        let is_midi = match &node.media_class {
            Some(MediaClass::MidiSource) | Some(MediaClass::MidiSink) => true,
            _ => false,
        };
        if is_midi && (str_contains(nl, "bridge") || str_contains(nl, "through")) {
            return SpecialNodeType::MidiBridge;
        }
        if str_contains(nl, "loopback") || str_contains(nl, "virtual") || description_has(node, "loopback") {
            return SpecialNodeType::Loopback;
        }
        if str_contains(nl, "dummy") || str_contains(nl, "null") || str_contains(nl, "auto_null") {
            return SpecialNodeType::DummySink;
        }
        if str_contains(nl, "monitor") || description_has(node, "monitor") {
            return SpecialNodeType::Monitor;
        }
        SpecialNodeType::Regular
    }

    /// Returns a human-readable explanation of what this special node type is.
    pub fn explanation(&self) -> (r: Option<&'static str>)
        ensures
            match r {
                Some(s) => special_explanation(*self) == Some(s@),
                None => special_explanation(*self) is None,
            },
    {
        match self {
            SpecialNodeType::Meter => Some("This is a metering node created by Pipeflow to monitor audio levels. It captures the signal without affecting it."),
            SpecialNodeType::ChannelSplit => Some("This is a channel split node created by PipeWire to separate or combine audio channels (e.g., splitting stereo into left/right or combining mono to stereo)."),
            SpecialNodeType::Adapter => Some("This is an adapter node that converts between different audio formats or sample rates. PipeWire creates these automatically when needed."),
            SpecialNodeType::MidiBridge => Some("This is a MIDI bridge node that routes MIDI messages between applications or hardware. It can loop MIDI back to itself for routing purposes."),
            SpecialNodeType::Loopback => Some("This is a loopback/virtual device that routes audio internally. Useful for capturing application output or routing between apps."),
            SpecialNodeType::DummySink => Some("This is a dummy/null sink that discards audio. It's used as a placeholder when no real output device is available."),
            SpecialNodeType::Monitor => Some("This is a monitor source that captures audio from an output device. Use it to record or process what's being played through speakers."),
            SpecialNodeType::Regular => None,
        }
    }
}

/// The primary description line of a node: its media class (with the signal
/// direction) or "Node", then "— application" when the application is known.
pub open spec fn primary_description(node: Node) -> Seq<char> {
    let first = match opt_class_view(node.media_class) {
        Some(mc) => mc.display_name() + if mc.is_source() {
            " (produces audio)"@
        } else if mc.is_sink() {
            " (receives audio)"@
        } else {
            ""@
        },
        None => "Node"@,
    };
    match node.application_name {
        Some(app) => first + " "@ + "— "@ + app@,
        None => first,
    }
}

/// Builds the primary description line.
pub fn build_primary_description(node: &Node) -> (r: String)
    ensures
        r@ == primary_description(*node),
{
    let mut s = match &node.media_class {
        Some(mc) => {
            let mut t = owned(mc.display_name());
            if mc.is_source() {
                push_str(&mut t, " (produces audio)");
            } else if mc.is_sink() {
                push_str(&mut t, " (receives audio)");
            } else {
                proof {
                    reveal_strlit("");
                    assert(t@ =~= t@ + ""@);
                }
            }
            t
        },
        None => owned("Node"),
    };
    match &node.application_name {
        Some(app) => {
            push_str(&mut s, " ");
            push_str(&mut s, "— ");
            push_str(&mut s, app.as_str());
        },
        None => {},
    }
    s
}

/// The signal-flow sentence for a media class (none for unknown classes).
pub open spec fn signal_flow(mc: MediaClassView) -> Option<Seq<char>> {
    match mc {
        MediaClassView::AudioSource | MediaClassView::VideoSource | MediaClassView::MidiSource =>
            Some("This is a SOURCE: it generates signal that flows to other nodes."@),
        MediaClassView::AudioSink | MediaClassView::VideoSink | MediaClassView::MidiSink =>
            Some("This is a SINK: it receives signal from other nodes (final destination)."@),
        MediaClassView::StreamOutputAudio =>
            Some("This is an APPLICATION OUTPUT: an app sending audio to be played or processed."@),
        MediaClassView::StreamInputAudio =>
            Some("This is an APPLICATION INPUT: an app receiving audio (recording, VoIP, etc.)."@),
        MediaClassView::AudioDevice | MediaClassView::VideoDevice =>
            Some("This is a DEVICE: a hardware endpoint that can both send and receive signal."@),
        MediaClassView::AudioVideoSource =>
            Some("This is an A/V SOURCE: produces both audio and video signal."@),
        MediaClassView::Other(_) => None,
    }
}

/// Describes the signal flow direction for a node.
pub fn describe_signal_flow(node: &Node) -> (r: Option<String>)
    ensures
        match r {
            Some(s) => node.media_class is Some && signal_flow(node.media_class->0@) == Some(s@),
            None => node.media_class is None || signal_flow(node.media_class->0@) is None,
        },
{
    let mc = match &node.media_class {
        Some(mc) => mc,
        None => return None,
    };
    let desc: &str = match mc {
        MediaClass::AudioSource | MediaClass::VideoSource | MediaClass::MidiSource =>
            "This is a SOURCE: it generates signal that flows to other nodes.",
        MediaClass::AudioSink | MediaClass::VideoSink | MediaClass::MidiSink =>
            "This is a SINK: it receives signal from other nodes (final destination).",
        MediaClass::StreamOutputAudio =>
            "This is an APPLICATION OUTPUT: an app sending audio to be played or processed.",
        MediaClass::StreamInputAudio =>
            "This is an APPLICATION INPUT: an app receiving audio (recording, VoIP, etc.).",
        MediaClass::AudioDevice | MediaClass::VideoDevice =>
            "This is a DEVICE: a hardware endpoint that can both send and receive signal.",
        MediaClass::AudioVideoSource =>
            "This is an A/V SOURCE: produces both audio and video signal.",
        MediaClass::Other(_) => return None,
    };
    Some(owned(desc))
}

/// The explanation of a node layer.
pub open spec fn layer_text(layer: NodeLayer) -> Seq<char> {
    match layer {
        NodeLayer::Hardware => "Physical hardware managed by kernel drivers (soundcards, USB devices, etc.)"@,
        NodeLayer::Pipewire => "Internal PipeWire node (format adapters, channel mixers, virtual routing)"@,
        NodeLayer::Session => "Application or service managed by the session manager (WirePlumber)"@,
    }
}

/// Returns a human-readable explanation of the node layer.
pub fn layer_explanation(layer: NodeLayer) -> (r: &'static str)
    ensures
        r@ == layer_text(layer),
{
    match layer {
        NodeLayer::Hardware => "Physical hardware managed by kernel drivers (soundcards, USB devices, etc.)",
        NodeLayer::Pipewire => "Internal PipeWire node (format adapters, channel mixers, virtual routing)",
        NodeLayer::Session => "Application or service managed by the session manager (WirePlumber)",
    }
}

/// The bit depth text for a sample format name: by the first of "32", "24", "16",
/// "8" that occurs in it, else the format name itself.
pub open spec fn bit_depth_text(format: Seq<char>) -> Seq<char> {
    if seq_contains(format, "32"@) || seq_contains(format, "F32"@) {
        "32-bit float"@
    } else if seq_contains(format, "24"@) {
        "24-bit"@
    } else if seq_contains(format, "16"@) {
        "16-bit"@
    } else if seq_contains(format, "8"@) {
        "8-bit"@
    } else {
        format
    }
}

/// Extracts a human-readable bit depth from format string.
pub fn format_bit_depth(format: &str) -> (r: &str)
    ensures
        r@ == bit_depth_text(format@),
{
    if str_contains(format, "32") || str_contains(format, "F32") {
        "32-bit float"
    } else if str_contains(format, "24") {
        "24-bit"
    } else if str_contains(format, "16") {
        "16-bit"
    } else if str_contains(format, "8") {
        "8-bit"
    } else {
        format
    }
}

/// The strings with later repetitions removed, keeping first occurrences in order.
pub open spec fn dedup_views(s: Seq<Seq<char>>) -> Seq<Seq<char>>
    decreases s.len(),
{
    if s.len() == 0 {
        s
    } else {
        let prev = dedup_views(s.drop_last());
        if s.drop_last().contains(s.last()) { prev } else { prev.push(s.last()) }
    }
}

/// Deduplicating keeps exactly the strings that occur.
pub proof fn lemma_dedup_same_elements(s: Seq<Seq<char>>)
    ensures
        forall|x: Seq<char>| dedup_views(s).contains(x) <==> s.contains(x),
    decreases s.len(),
{
    if s.len() > 0 {
        let p = s.drop_last();
        lemma_dedup_same_elements(p);
        let d = dedup_views(s);
        let dp = dedup_views(p);
        assert forall|x: Seq<char>| d.contains(x) <==> s.contains(x) by {
            if s.contains(x) {
                let k = choose|k: int| 0 <= k < s.len() && s[k] == x;
                if k < p.len() {
                    assert(p[k] == x);
                } else if !p.contains(s.last()) {
                    assert(d[d.len() - 1] == x);
                }
            }
            if p.contains(x) {
                let k = choose|k: int| 0 <= k < p.len() && p[k] == x;
                assert(s[k] == x);
            }
            if d.contains(x) {
                let k = choose|k: int| 0 <= k < d.len() && d[k] == x;
                if k < dp.len() {
                    assert(dp[k] == x);
                } else {
                    assert(s[s.len() - 1] == x);
                }
            }
            if dp.contains(x) {
                let k = choose|k: int| 0 <= k < dp.len() && dp[k] == x;
                assert(d[k] == x);
            }
        }
    }
}

/// Deduplicated strings hold no repetitions.
pub proof fn lemma_dedup_no_duplicates(s: Seq<Seq<char>>)
    ensures
        dedup_views(s).no_duplicates(),
    decreases s.len(),
{
    if s.len() > 0 {
        lemma_dedup_no_duplicates(s.drop_last());
        lemma_dedup_same_elements(s.drop_last());
    }
}

/// Returns true if some string of `v` equals `s`.
fn contains_string(v: &Vec<String>, s: &str) -> (r: bool)
    ensures
        r == v@.map_values(|x: String| x@).contains(s@),
{
    let mut j: usize = 0;
    while j < v.len()
        invariant
            j <= v@.len(),
            forall|k: int| 0 <= k < j ==> v@[k]@ != s@,
        decreases v.len() - j,
    {
        if str_eq(v[j].as_str(), s) {
            proof {
                assert(v@.map_values(|x: String| x@)[j as int] == s@);
            }
            return true;
        }
        j += 1;
    }
    proof {
        let vv = v@.map_values(|x: String| x@);
        if vv.contains(s@) {
            let k = choose|k: int| 0 <= k < vv.len() && vv[k] == s@;
            assert(v@[k]@ == s@);
        }
    }
    false
}

/// Deduplicates strings while preserving order.
pub fn dedup_strings(strings: Vec<String>) -> (r: Vec<String>)
    ensures
        r@.map_values(|s: String| s@) == dedup_views(strings@.map_values(|s: String| s@)),
{
    let ghost views = strings@.map_values(|s: String| s@);
    let mut out: Vec<String> = Vec::new();
    let mut rest: Vec<String> = strings;
    let ghost src = rest@;
    let ghost mut n: int = 0;
    while rest.len() > 0
        invariant
            0 <= n <= src.len(),
            views == src.map_values(|s: String| s@),
            rest@ == src.skip(n),
            out@.map_values(|s: String| s@) == dedup_views(views.take(n)),
        decreases rest.len(),
    {
        let item = rest.remove(0);
        let ghost iv = item@;
        proof {
            assert(item == src[n]);
            assert(views.take(n + 1).drop_last() =~= views.take(n));
            assert(views.take(n + 1).last() == iv);
            lemma_dedup_same_elements(views.take(n));
        }
        if !contains_string(&out, item.as_str()) {
            out.push(item);
            proof {
                assert(out@.map_values(|s: String| s@) =~= dedup_views(views.take(n)).push(iv));
            }
        }
        proof {
            n = n + 1;
            assert(rest@ =~= src.skip(n));
        }
    }
    proof {
        assert(views.take(src.len() as int) =~= views);
    }
    out
}

}
