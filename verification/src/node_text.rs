//! Full and short natural-language explanations of a node in its graph.
//!
//! The graph keeps its ports and links in hash maps, so the order in which a
//! node's links are visited is not fixed; the explanations are stated for the
//! order that was visited, which is some order of exactly the node's links.

use vstd::prelude::*;

use crate::events::opt_str;
use crate::explain::{SpecialNodeType, bit_depth_text, build_primary_description, dedup_strings, dedup_views, describe_signal_flow, format_bit_depth, layer_explanation, layer_text, primary_description, signal_flow, special_explanation, special_type_of};
use crate::graph::{AudioFormat, Link, MediaClassView, Node, NodeLayer, Port, PortDirection, opt_class_view};
use crate::graph_state::{GraphState, exactly_values, link_touches_node};
use crate::ids::{NodeId, opt_view};
use crate::text::{decimal, join, join_strings, owned, push_decimal, push_str, string_views};

verus! {

broadcast use vstd::std_specs::hash::group_hash_axioms;

// ----------------------------------------------------------------------------
// Model
// ----------------------------------------------------------------------------

/// "" for one, "s" otherwise.
pub open spec fn plural(n: nat) -> Seq<char> {
    if n == 1 { ""@ } else { "s"@ }
}

/// The kinds of port that the port summary counts.
pub enum PortTally {
    /// Signal inputs (input ports that are not control ports).
    Inputs,
    /// Signal outputs (output ports that are not control ports).
    Outputs,
    /// Monitor ports.
    Monitors,
    /// Control ports.
    Controls,
}

/// Whether a port counts towards a tally.
pub open spec fn counts_as(p: Port, t: PortTally) -> bool {
    match t {
        PortTally::Inputs => p.direction == PortDirection::Input && !p.is_control,
        PortTally::Outputs => p.direction == PortDirection::Output && !p.is_control,
        PortTally::Monitors => p.is_monitor,
        PortTally::Controls => p.is_control,
    }
}

/// The number of ports that count towards a tally.
pub open spec fn tally(ps: Seq<Port>, t: PortTally) -> nat
    decreases ps.len(),
{
    if ps.len() == 0 {
        0
    } else {
        tally(ps.drop_last(), t) + if counts_as(ps.last(), t) { 1nat } else { 0nat }
    }
}

/// The pieces of the port summary: inputs and outputs ("2 inputs"), monitors
/// and controls, each only when there is at least one.
pub open spec fn port_parts(ps: Seq<Port>) -> Seq<Seq<char>> {
    let i = tally(ps, PortTally::Inputs);
    let o = tally(ps, PortTally::Outputs);
    let m = tally(ps, PortTally::Monitors);
    let c = tally(ps, PortTally::Controls);
    (if i > 0 { seq![decimal(i) + " input"@ + plural(i)] } else { Seq::empty() })
        + (if o > 0 { seq![decimal(o) + " output"@ + plural(o)] } else { Seq::empty() })
        + (if m > 0 { seq![decimal(m) + " monitor"@ + plural(m)] } else { Seq::empty() })
        + (if c > 0 { seq![decimal(c) + " control"@] } else { Seq::empty() })
}

/// The port summary line, present when the node has a signal input or output.
pub open spec fn ports_line(ps: Seq<Port>) -> Seq<Seq<char>> {
    if tally(ps, PortTally::Inputs) > 0 || tally(ps, PortTally::Outputs) > 0 {
        seq!["Ports: "@ + join(port_parts(ps), ", "@)]
    } else {
        Seq::empty()
    }
}

/// Whether a link leaves the node (`outgoing`) or enters it.
pub open spec fn link_leg(l: Link, id: NodeId, outgoing: bool) -> bool {
    if outgoing { l.output_node == id } else { l.input_node == id }
}

/// Whether some link leaves (or enters) the node.
pub open spec fn any_leg(ls: Seq<Link>, id: NodeId, outgoing: bool) -> bool
    decreases ls.len(),
{
    if ls.len() == 0 {
        false
    } else {
        any_leg(ls.drop_last(), id, outgoing) || link_leg(ls.last(), id, outgoing)
    }
}

/// The display names of the nodes at the other end of the node's outgoing (or
/// incoming) links, in link order, skipping ends that are not in the graph.
pub open spec fn peer_names(ls: Seq<Link>, nodes: Map<u32, Node>, id: NodeId, outgoing: bool) -> Seq<Seq<char>>
    decreases ls.len(),
{
    if ls.len() == 0 {
        Seq::empty()
    } else {
        let rest = peer_names(ls.drop_last(), nodes, id, outgoing);
        let l = ls.last();
        let peer = if outgoing { l.input_node } else { l.output_node };
        if link_leg(l, id, outgoing) && nodes.contains_key(peer.0) {
            rest.push(nodes[peer.0].spec_display_name())
        } else {
            rest
        }
    }
}

/// A line naming peers: all of them when there are at most three distinct
/// names, else the first two and how many others.
pub open spec fn peers_line(label: Seq<char>, names: Seq<Seq<char>>) -> Seq<char> {
    let u = dedup_views(names);
    if u.len() <= 3 {
        label + join(u, ", "@)
    } else {
        label + join(u.take(2), ", "@) + " and "@ + decimal((u.len() - 2) as nat) + " others"@
    }
}

/// The connection lines: where the node sends audio and where it receives it
/// from, or that it is not connected.
pub open spec fn connection_lines(ls: Seq<Link>, nodes: Map<u32, Node>, id: NodeId) -> Seq<Seq<char>> {
    if ls.len() == 0 {
        seq!["Not connected to anything"@]
    } else {
        (if any_leg(ls, id, true) {
            seq![peers_line("Sends audio to: "@, peer_names(ls, nodes, id, true))]
        } else {
            Seq::empty()
        }) + (if any_leg(ls, id, false) {
            seq![peers_line("Receives audio from: "@, peer_names(ls, nodes, id, false))]
        } else {
            Seq::empty()
        })
    }
}

/// The name of a layer.
pub open spec fn layer_name(l: NodeLayer) -> Seq<char> {
    match l {
        NodeLayer::Hardware => "Hardware"@,
        NodeLayer::Pipewire => "PipeWire"@,
        NodeLayer::Session => "Session"@,
    }
}

/// The audio format line.
pub open spec fn format_line(f: AudioFormat) -> Seq<char> {
    "Audio format: "@ + decimal(f.sample_rate as nat) + " Hz, "@ + decimal(f.channels as nat) + " channel"@
        + plural(f.channels as nat) + ", "@ + bit_depth_text(f.format@) + " bit depth"@
}

/// The lines that describe what a node is: primary description, signal flow,
/// special-type explanation, layer, inactivity warning and audio format.
pub open spec fn identity_lines(node: Node, icon: Seq<char>) -> Seq<Seq<char>> {
    seq![primary_description(node)]
        + (match opt_class_view(node.media_class) {
            Some(mc) => match signal_flow(mc) {
                Some(s) => seq![s],
                None => Seq::empty(),
            },
            None => Seq::empty(),
        })
        + (match special_explanation(special_type_of(node)) {
            Some(e) => seq![""@, e],
            None => Seq::empty(),
        })
        + seq![""@, "Layer: "@ + layer_name(node.layer) + " — "@ + layer_text(node.layer)]
        + (if !node.is_active { seq![icon + " Currently inactive (paused or suspended)"@] } else { Seq::empty() })
        + (match node.format {
            Some(f) => seq![format_line(f)],
            None => Seq::empty(),
        })
}

/// All lines of a node's explanation, given the node's ports and links in the
/// order visited, the volume summary (when the node's volume is known) and the
/// volume control failure (when there is one).
pub open spec fn explanation_lines(
    node: Node,
    ps: Seq<Port>,
    ls: Seq<Link>,
    nodes: Map<u32, Node>,
    volume: Option<Seq<char>>,
    failure: Option<Seq<char>>,
    icon: Seq<char>,
) -> Seq<Seq<char>> {
    identity_lines(node, icon) + ports_line(ps) + connection_lines(ls, nodes, node.id)
        + (match volume {
            Some(v) => seq!["Volume: "@ + v],
            None => Seq::empty(),
        })
        + (match failure {
            Some(e) => seq![icon + " Volume control unavailable: "@ + e],
            None => Seq::empty(),
        })
}

/// The volume control failure recorded for a node.
pub open spec fn failure_of(failed: Map<u32, String>, id: NodeId) -> Option<Seq<char>> {
    if failed.contains_key(id.0) { Some(failed[id.0]@) } else { None }
}

/// The pieces of the one-line summary: type and direction, the application when
/// it differs from the description, the layer label off the session layer, the
/// number of connections, and inactivity.
pub open spec fn short_parts(node: Node, link_count: nat) -> Seq<Seq<char>> {
    (match opt_class_view(node.media_class) {
        Some(mc) => seq![mc.display_name() + if mc.is_source() {
            " (source)"@
        } else if mc.is_sink() {
            " (sink)"@
        } else {
            ""@
        }],
        None => Seq::empty(),
    }) + (match node.application_name {
        Some(app) => if opt_view(node.description) == Some(app@) {
            Seq::empty()
        } else {
            seq!["from "@ + app@]
        },
        None => Seq::empty(),
    }) + (if node.layer != NodeLayer::Session {
        seq!["["@ + layer_label(node.layer) + "]"@]
    } else {
        Seq::empty()
    }) + (if link_count > 0 {
        seq![decimal(link_count) + " connection"@ + plural(link_count)]
    } else {
        Seq::empty()
    }) + (if !node.is_active { seq!["(inactive)"@] } else { Seq::empty() })
}

/// The short label of a layer.
pub open spec fn layer_label(l: NodeLayer) -> Seq<char> {
    match l {
        NodeLayer::Hardware => "HW"@,
        NodeLayer::Pipewire => "PW"@,
        NodeLayer::Session => "SM"@,
    }
}

/// The one-line summary: its pieces joined by " · ", or the display name when
/// there are none.
pub open spec fn short_text(node: Node, link_count: nat) -> Seq<char> {
    let parts = short_parts(node, link_count);
    if parts.len() == 0 { node.spec_display_name() } else { join(parts, " · "@) }
}

// ----------------------------------------------------------------------------
// Building blocks
// ----------------------------------------------------------------------------

/// Appends lines to a list of lines.
fn append_lines(dst: &mut Vec<String>, src: Vec<String>)
    ensures
        string_views(final(dst)@) == string_views(old(dst)@) + string_views(src@),
{
    let ghost start = dst@;
    let mut i: usize = 0;
    while i < src.len()
        invariant
            i <= src@.len(),
            dst@ == start + src@.take(i as int),
        decreases src.len() - i,
    {
        dst.push(src[i].clone());
        i += 1;
        proof {
            assert(dst@ =~= start + src@.take(i as int));
        }
    }
    proof {
        assert(src@.take(src@.len() as int) =~= src@);
        assert(string_views(dst@) =~= string_views(start) + string_views(src@));
    }
}

/// A list holding one line.
fn one_line(s: String) -> (r: Vec<String>)
    ensures
        string_views(r@) == seq![s@],
{
    let mut r: Vec<String> = Vec::new();
    r.push(s);
    proof {
        assert(string_views(r@) =~= seq![s@]);
    }
    r
}

/// `n` followed by a word, with "s" unless `n` is one.
fn counted(n: usize, word: &str) -> (r: String)
    ensures
        r@ == decimal(n as nat) + word@ + plural(n as nat),
{
    let mut s = String::new();
    push_decimal(&mut s, n as u64);
    push_str(&mut s, word);
    if n != 1 {
        push_str(&mut s, "s");
    } else {
        proof {
            reveal_strlit("");
            assert(s@ =~= s@ + ""@);
        }
    }
    proof {
        reveal_strlit("");
        assert(s@ =~= decimal(n as nat) + word@ + plural(n as nat));
    }
    s
}

/// The lines that describe what the node is.
fn identity_part(node: &Node, icon: &str) -> (r: Vec<String>)
    ensures
        string_views(r@) == identity_lines(*node, icon@),
{
    let mut lines = one_line(build_primary_description(node));
    let ghost l0 = string_views(lines@);
    match describe_signal_flow(node) {
        Some(flow) => lines.push(flow),
        None => {},
    }
    proof {
        assert(string_views(lines@) =~= l0 + match opt_class_view(node.media_class) {
            Some(mc) => match signal_flow(mc) {
                Some(s) => seq![s],
                None => Seq::<Seq<char>>::empty(),
            },
            None => Seq::<Seq<char>>::empty(),
        });
    }
    let ghost l1 = string_views(lines@);
    let special = SpecialNodeType::detect(node);
    match special.explanation() {
        Some(e) => {
            lines.push(String::new());
            lines.push(owned(e));
            proof {
                reveal_strlit("");
                assert(""@ =~= Seq::<char>::empty());
            }
        },
        None => {},
    }
    proof {
        assert(string_views(lines@) =~= l1 + match special_explanation(special_type_of(*node)) {
            Some(e) => seq![""@, e],
            None => Seq::<Seq<char>>::empty(),
        });
    }
    let ghost l2 = string_views(lines@);
    lines.push(String::new());
    let mut layer_line = owned("Layer: ");
    push_str(&mut layer_line, node.layer.display_name());
    push_str(&mut layer_line, " — ");
    push_str(&mut layer_line, layer_explanation(node.layer));
    lines.push(layer_line);
    proof {
        reveal_strlit("");
        assert(""@ =~= Seq::<char>::empty());
        assert(string_views(lines@) =~= l2 + seq![""@, "Layer: "@ + layer_name(node.layer) + " — "@ + layer_text(node.layer)]);
    }
    let ghost l3 = string_views(lines@);
    if !node.is_active {
        let mut w = owned(icon);
        push_str(&mut w, " Currently inactive (paused or suspended)");
        lines.push(w);
    }
    proof {
        assert(string_views(lines@) =~= l3 + if !node.is_active {
            seq![icon@ + " Currently inactive (paused or suspended)"@]
        } else {
            Seq::<Seq<char>>::empty()
        });
    }
    let ghost l4 = string_views(lines@);
    match &node.format {
        Some(fmt) => {
            let mut s = owned("Audio format: ");
            push_decimal(&mut s, fmt.sample_rate as u64);
            push_str(&mut s, " Hz, ");
            let ch = counted(fmt.channels as usize, " channel");
            push_str(&mut s, ch.as_str());
            push_str(&mut s, ", ");
            push_str(&mut s, format_bit_depth(fmt.format.as_str()));
            push_str(&mut s, " bit depth");
            proof {
                assert(s@ =~= format_line(*fmt));
            }
            lines.push(s);
        },
        None => {},
    }
    proof {
        assert(string_views(lines@) =~= l4 + match node.format {
            Some(f) => seq![format_line(f)],
            None => Seq::<Seq<char>>::empty(),
        });
        assert(string_views(lines@) =~= identity_lines(*node, icon@));
    }
    lines
}

/// The port summary line of the node, if any.
fn ports_part(ports: &Vec<&Port>) -> (r: Vec<String>)
    ensures
        string_views(r@) == ports_line(ports@.map_values(|p: &Port| *p)),
{
    let ghost ps = ports@.map_values(|p: &Port| *p);
    let mut ni: usize = 0;
    let mut no: usize = 0;
    let mut nm: usize = 0;
    let mut nc: usize = 0;
    let mut i: usize = 0;
    while i < ports.len()
        invariant
            i <= ports@.len(),
            ps == ports@.map_values(|p: &Port| *p),
            ni == tally(ps.take(i as int), PortTally::Inputs),
            no == tally(ps.take(i as int), PortTally::Outputs),
            nm == tally(ps.take(i as int), PortTally::Monitors),
            nc == tally(ps.take(i as int), PortTally::Controls),
            ni <= i,
            no <= i,
            nm <= i,
            nc <= i,
        decreases ports.len() - i,
    {
        let p = ports[i];
        proof {
            assert(ps.take(i + 1).drop_last() =~= ps.take(i as int));
            assert(ps.take(i + 1).last() == *p);
        }
        if p.direction == PortDirection::Input && !p.is_control {
            ni += 1;
        }
        if p.direction == PortDirection::Output && !p.is_control {
            no += 1;
        }
        if p.is_monitor {
            nm += 1;
        }
        if p.is_control {
            nc += 1;
        }
        i += 1;
    }
    proof {
        assert(ps.take(ports@.len() as int) =~= ps);
    }
    let mut r: Vec<String> = Vec::new();
    if ni > 0 || no > 0 {
        let mut parts: Vec<String> = Vec::new();
        if ni > 0 {
            parts.push(counted(ni, " input"));
        }
        let ghost p0 = string_views(parts@);
        if no > 0 {
            parts.push(counted(no, " output"));
        }
        let ghost p1 = string_views(parts@);
        if nm > 0 {
            parts.push(counted(nm, " monitor"));
        }
        let ghost p2 = string_views(parts@);
        if nc > 0 {
            let mut c = String::new();
            push_decimal(&mut c, nc as u64);
            push_str(&mut c, " control");
            parts.push(c);
        }
        proof {
            let i_ = tally(ps, PortTally::Inputs);
            let o_ = tally(ps, PortTally::Outputs);
            let m_ = tally(ps, PortTally::Monitors);
            let c_ = tally(ps, PortTally::Controls);
            assert(p0 =~= (if i_ > 0 { seq![decimal(i_) + " input"@ + plural(i_)] } else { Seq::<Seq<char>>::empty() }));
            assert(p1 =~= p0 + (if o_ > 0 { seq![decimal(o_) + " output"@ + plural(o_)] } else { Seq::<Seq<char>>::empty() }));
            assert(p2 =~= p1 + (if m_ > 0 { seq![decimal(m_) + " monitor"@ + plural(m_)] } else { Seq::<Seq<char>>::empty() }));
            assert(string_views(parts@) =~= p2 + (if c_ > 0 { seq![decimal(c_) + " control"@] } else { Seq::<Seq<char>>::empty() }));
            assert(string_views(parts@) =~= port_parts(ps));
        }
        let joined = join_strings(&parts, ", ");
        let mut line = owned("Ports: ");
        push_str(&mut line, joined.as_str());
        r.push(line);
        proof {
            assert(string_views(r@) =~= ports_line(ps));
        }
    } else {
        proof {
            assert(string_views(r@) =~= ports_line(ps));
        }
    }
    r
}

/// The names of the peers at the other end of the node's outgoing (or incoming)
/// links, and whether there is such a link at all.
fn peers_of(graph: &GraphState, links: &Vec<Link>, id: NodeId, outgoing: bool) -> (r: (Vec<String>, bool))
    ensures
        string_views(r.0@) == peer_names(links@, graph.nodes@, id, outgoing),
        r.1 == any_leg(links@, id, outgoing),
{
    let mut names: Vec<String> = Vec::new();
    let mut any = false;
    let mut i: usize = 0;
    while i < links.len()
        invariant
            i <= links@.len(),
            string_views(names@) == peer_names(links@.take(i as int), graph.nodes@, id, outgoing),
            any == any_leg(links@.take(i as int), id, outgoing),
        decreases links.len() - i,
    {
        let l = links[i];
        proof {
            assert(links@.take(i + 1).drop_last() =~= links@.take(i as int));
            assert(links@.take(i + 1).last() == l);
        }
        let leg = if outgoing { l.output_node == id } else { l.input_node == id };
        if leg {
            any = true;
            let peer = if outgoing { l.input_node } else { l.output_node };
            match graph.get_node(&peer) {
                Some(n) => {
                    let ghost before = string_views(names@);
                    names.push(owned(n.display_name()));
                    proof {
                        assert(string_views(names@) =~= before.push(n.spec_display_name()));
                    }
                },
                None => {},
            }
        }
        i += 1;
    }
    proof {
        assert(links@.take(links@.len() as int) =~= links@);
    }
    (names, any)
}

/// The line naming the peers of one direction.
fn peers_text(label: &str, names: Vec<String>) -> (r: String)
    ensures
        r@ == peers_line(label@, string_views(names@)),
{
    let unique = dedup_strings(names);
    let mut line = owned(label);
    if unique.len() <= 3 {
        let joined = join_strings(&unique, ", ");
        push_str(&mut line, joined.as_str());
    } else {
        let mut first: Vec<String> = Vec::new();
        first.push(unique[0].clone());
        first.push(unique[1].clone());
        proof {
            assert(string_views(first@) =~= string_views(unique@).take(2));
        }
        let joined = join_strings(&first, ", ");
        push_str(&mut line, joined.as_str());
        push_str(&mut line, " and ");
        push_decimal(&mut line, (unique.len() - 2) as u64);
        push_str(&mut line, " others");
    }
    line
}

/// The connection lines of the node.
fn connections_part(graph: &GraphState, links: &Vec<Link>, id: NodeId) -> (r: Vec<String>)
    ensures
        string_views(r@) == connection_lines(links@, graph.nodes@, id),
{
    let mut r: Vec<String> = Vec::new();
    if links.len() == 0 {
        r.push(owned("Not connected to anything"));
        proof {
            assert(string_views(r@) =~= connection_lines(links@, graph.nodes@, id));
        }
        return r;
    }
    let (out_names, any_out) = peers_of(graph, links, id, true);
    let (in_names, any_in) = peers_of(graph, links, id, false);
    if any_out {
        r.push(peers_text("Sends audio to: ", out_names));
    }
    let ghost r0 = string_views(r@);
    if any_in {
        r.push(peers_text("Receives audio from: ", in_names));
    }
    proof {
        assert(string_views(r@) =~= r0 + (if any_leg(links@, id, false) {
            seq![peers_line("Receives audio from: "@, peer_names(links@, graph.nodes@, id, false))]
        } else {
            Seq::<Seq<char>>::empty()
        }));
        assert(string_views(r@) =~= connection_lines(links@, graph.nodes@, id));
    }
    r
}

// ----------------------------------------------------------------------------
// Explanations
// ----------------------------------------------------------------------------

/// A human-readable explanation of a node, one item per line: what the node is
/// (type, application, signal flow, special role, layer, inactivity, audio
/// format), its ports, its connections, its volume and any volume control
/// failure. `volume` is the node's volume summary ("75% / -2.5 dB / MUTED"),
/// when its volume is known; `warning_icon` marks the warning lines.
pub fn explain_node(node: &Node, graph: &GraphState, volume: Option<&str>, warning_icon: &str) -> (r: String)
    ensures
        exists|ps: Seq<Port>, ls: Seq<Link>| {
            &&& exactly_values(ps, graph.ports@, |k: u32| graph.ports@[k].node_id == node.id)
            &&& exactly_values(ls, graph.links@, |k: u32| link_touches_node(graph.links@[k], node.id))
            &&& r@ == join(#[trigger] explanation_lines(*node, ps, ls, graph.nodes@, opt_str(volume),
                failure_of(graph.volume_control_failed@, node.id), warning_icon@), "\n"@)
        },
{
    let mut lines = identity_part(node, warning_icon);
    let ports = graph.ports_for_node(&node.id);
    append_lines(&mut lines, ports_part(&ports));
    let links = graph.links_for_node(&node.id);
    append_lines(&mut lines, connections_part(graph, &links, node.id));
    let ghost before_volume = string_views(lines@);
    match volume {
        Some(v) => {
            let mut s = owned("Volume: ");
            push_str(&mut s, v);
            lines.push(s);
        },
        None => {},
    }
    let ghost before_failure = string_views(lines@);
    match graph.volume_control_failed.get(&node.id.0) {
        Some(err) => {
            let mut s = owned(warning_icon);
            push_str(&mut s, " Volume control unavailable: ");
            push_str(&mut s, err.as_str());
            lines.push(s);
        },
        None => {},
    }
    let ghost ps = ports@.map_values(|p: &Port| *p);
    let ghost ls = links@;
    proof {
        let vol = opt_str(volume);
        let fail = failure_of(graph.volume_control_failed@, node.id);
        assert(before_failure =~= before_volume + match vol {
            Some(v) => seq!["Volume: "@ + v],
            None => Seq::<Seq<char>>::empty(),
        });
        assert(string_views(lines@) =~= before_failure + match fail {
            Some(e) => seq![warning_icon@ + " Volume control unavailable: "@ + e],
            None => Seq::<Seq<char>>::empty(),
        });
        assert(string_views(lines@) =~= explanation_lines(*node, ps, ls, graph.nodes@, vol, fail, warning_icon@));
    }
    join_strings(&lines, "\n")
}

/// The pieces of the one-line summary, for a node with `link_count` connections.
#[verifier::spinoff_prover]
fn short_summary_parts(node: &Node, link_count: usize) -> (r: Vec<String>)
    ensures
        string_views(r@) == short_parts(*node, link_count as nat),
{
    let mut parts: Vec<String> = Vec::new();
    match &node.media_class {
        Some(mc) => {
            let mut s = owned(mc.display_name());
            if mc.is_source() {
                push_str(&mut s, " (source)");
            } else if mc.is_sink() {
                push_str(&mut s, " (sink)");
            } else {
                proof {
                    reveal_strlit("");
                    assert(s@ =~= s@ + ""@);
                }
            }
            parts.push(s);
        },
        None => {},
    }
    let ghost p0 = string_views(parts@);
    match &node.application_name {
        Some(app) => {
            let same = match &node.description {
                Some(d) => crate::text::str_eq(app.as_str(), d.as_str()),
                None => false,
            };
            if !same {
                let mut s = owned("from ");
                push_str(&mut s, app.as_str());
                parts.push(s);
            }
        },
        None => {},
    }
    let ghost p1 = string_views(parts@);
    if node.layer != NodeLayer::Session {
        let mut s = owned("[");
        push_str(&mut s, node.layer.short_label());
        push_str(&mut s, "]");
        parts.push(s);
    }
    let ghost p2 = string_views(parts@);
    if link_count > 0 {
        parts.push(counted(link_count, " connection"));
    }
    let ghost p3 = string_views(parts@);
    if !node.is_active {
        parts.push(owned("(inactive)"));
    }
    proof {
        let n = link_count as nat;
        assert(p1 =~= p0 + match node.application_name {
            Some(app) => if opt_view(node.description) == Some(app@) {
                Seq::<Seq<char>>::empty()
            } else {
                seq!["from "@ + app@]
            },
            None => Seq::<Seq<char>>::empty(),
        });
        assert(p2 =~= p1 + (if node.layer != NodeLayer::Session {
            seq!["["@ + layer_label(node.layer) + "]"@]
        } else {
            Seq::<Seq<char>>::empty()
        }));
        assert(p3 =~= p2 + (if n > 0 { seq![decimal(n) + " connection"@ + plural(n)] } else { Seq::<Seq<char>>::empty() }));
        assert(string_views(parts@) =~= short_parts(*node, n));
    }
    parts
}

/// A one-line summary of a node for tooltips: its type and direction, its
/// application (when it differs from the description), its layer (off the
/// session layer), its number of connections and inactivity, joined by " · ";
/// the display name when none of these applies.
pub fn explain_node_short(node: &Node, graph: &GraphState) -> (r: String)
    ensures
        exists|ls: Seq<Link>| {
            &&& exactly_values(ls, graph.links@, |k: u32| link_touches_node(graph.links@[k], node.id))
            &&& r@ == short_text(*node, ls.len())
        },
{
    let links = graph.links_for_node(&node.id);
    let parts = short_summary_parts(node, links.len());
    if parts.len() == 0 {
        owned(node.display_name())
    } else {
        join_strings(&parts, " · ")
    }
}

}
