//! Restoring a saved scene: matching the saved connections to the current graph
//! and working out which links to remove and which to create.
//!
//! Nodes are matched by their stable identifiers, ports by name and direction.
//! When several ports fit one end of a saved connection, any one of them may be
//! taken (the graph's maps have no fixed order); the plan is stated for the
//! choice that was made.

use vstd::prelude::*;

use crate::graph::{Link, Node, Port, PortDirection};
use crate::graph_state::{GraphState, every_key, lemma_values_cover, value_in_map, value_in_seq};
use crate::ids::{LinkId, NodeId, NodeIdentifier, NodeIdentifierView, PortId, opt_view};
use crate::snapshots::SnapshotConnection;
use crate::text::{chars_of, decimal, owned, parse_u32, parse_u32_spec, push_char, push_decimal, push_str, seq_starts_with, str_eq, str_starts_with};

verus! {

// ----------------------------------------------------------------------------
// Stable identifiers
// ----------------------------------------------------------------------------

/// The media class label an identifier records for a node.
pub open spec fn class_label(node: Node) -> Option<Seq<char>> {
    match node.media_class {
        Some(mc) => Some(mc@.display_name()),
        None => None,
    }
}

/// The stable identifier of a node: a meter node is known by the node it meters
/// ("pipeflow-meter-for:" and that node's name, with that node's application and
/// class); any other node by its own name, application and class label.
pub open spec fn stable_identifier(node: Node, metered: Option<Node>) -> NodeIdentifierView {
    match metered {
        Some(main) => NodeIdentifierView {
            name: "pipeflow-meter-for:"@ + main.name@,
            application_name: opt_view(main.application_name),
            media_class: class_label(main),
        },
        None => NodeIdentifierView {
            name: node.name@,
            application_name: opt_view(node.application_name),
            media_class: class_label(node),
        },
    }
}

/// Creates the stable identifier of a node; `metered` is the node it meters when
/// it is a meter node whose target is in the graph.
pub fn create_stable_identifier(node: &Node, metered: Option<&Node>) -> (r: NodeIdentifier)
    ensures
        r@ == stable_identifier(*node, match metered { Some(m) => Some(*m), None => None }),
{
    let source = match metered {
        Some(main) => main,
        None => node,
    };
    let name = match metered {
        Some(main) => {
            let mut s = owned("pipeflow-meter-for:");
            push_str(&mut s, main.name.as_str());
            s
        },
        None => node.name.clone(),
    };
    let application_name = match &source.application_name {
        Some(a) => Some(a.clone()),
        None => None,
    };
    let media_class = match &source.media_class {
        Some(mc) => Some(owned(mc.display_name())),
        None => None,
    };
    NodeIdentifier::new(name, application_name, media_class)
}

/// The prefix of the names of Pipeflow's meter nodes; the metered node's id follows it.
pub open spec fn meter_prefix() -> Seq<char> {
    "pipeflow-meter-"@
}

/// The node a meter node's name points at: the id after the prefix, if it parses.
pub open spec fn spec_meter_target(name: Seq<char>) -> Option<NodeId> {
    if seq_starts_with(name, meter_prefix()) {
        match parse_u32_spec(name.skip(meter_prefix().len() as int)) {
            Some(v) => Some(NodeId(v)),
            None => None,
        }
    } else {
        None
    }
}

/// Returns true if the name is that of one of Pipeflow's meter nodes.
pub fn is_metering_node(name: &str) -> (r: bool)
    ensures
        r == seq_starts_with(name@, meter_prefix()),
{
    str_starts_with(name, "pipeflow-meter-")
}

/// The id of the node that a meter node meters, read from its name.
pub fn get_metering_target_id(name: &str) -> (r: Option<NodeId>)
    ensures
        r == spec_meter_target(name@),
{
    if !is_metering_node(name) {
        return None;
    }
    let prefix = chars_of("pipeflow-meter-");
    let c = chars_of(name);
    let mut rest = String::new();
    let mut i: usize = prefix.len();
    proof {
        assert(prefix@.len() <= c@.len());
    }
    while i < c.len()
        invariant
            prefix@ == meter_prefix(),
            prefix@.len() <= i <= c@.len(),
            c@ == name@,
            rest@ == c@.subrange(prefix@.len() as int, i as int),
        decreases c.len() - i,
    {
        push_char(&mut rest, c[i]);
        i += 1;
        proof {
            assert(rest@ =~= c@.subrange(prefix@.len() as int, i as int));
        }
    }
    proof {
        assert(rest@ =~= name@.skip(meter_prefix().len() as int));
    }
    match parse_u32(rest.as_str()) {
        Some(v) => Some(NodeId::new(v)),
        None => None,
    }
}

/// The stable identifier of a node in a graph: a meter node whose metered node is
/// in the graph is known by that node; any other node by itself.
pub open spec fn graph_identifier(node: Node, nodes: Map<u32, Node>) -> NodeIdentifierView {
    let metered = match spec_meter_target(node.name@) {
        Some(t) => if nodes.contains_key(t.0) { Some(nodes[t.0]) } else { None },
        None => None,
    };
    stable_identifier(node, metered)
}

/// Creates the stable identifier of a node of the graph (see `graph_identifier`).
pub fn identifier_in_graph(node: &Node, graph: &GraphState) -> (r: NodeIdentifier)
    ensures
        r@ == graph_identifier(*node, graph.nodes@),
{
    match get_metering_target_id(node.name.as_str()) {
        Some(main_id) => match graph.get_node(&main_id) {
            Some(main) => create_stable_identifier(node, Some(main)),
            None => create_stable_identifier(node, None),
        },
        None => create_stable_identifier(node, None),
    }
}

/// Compares two optional strings by their text.
fn opt_text_eq(a: &Option<String>, b: &Option<String>) -> (r: bool)
    ensures
        r == (opt_view(*a) == opt_view(*b)),
{
    match (a, b) {
        (Some(x), Some(y)) => str_eq(x.as_str(), y.as_str()),
        (None, None) => true,
        _ => false,
    }
}

/// Compares two identifiers by their text.
pub fn identifier_eq(a: &NodeIdentifier, b: &NodeIdentifier) -> (r: bool)
    ensures
        r == (a@ == b@),
{
    str_eq(a.name.as_str(), b.name.as_str()) && opt_text_eq(&a.application_name, &b.application_name)
        && opt_text_eq(&a.media_class, &b.media_class)
}

/// The node has the identifier, by the list of node identifiers.
pub open spec fn has_identifier(idents: Seq<(NodeId, NodeIdentifier)>, node: NodeId, ident: NodeIdentifierView) -> bool {
    exists|j: int| 0 <= j < idents.len() && idents[j].0 == node && #[trigger] idents[j].1@ == ident
}

/// Returns true if the list gives the node the identifier.
fn node_has_identifier(idents: &Vec<(NodeId, NodeIdentifier)>, node: NodeId, ident: &NodeIdentifier) -> (r: bool)
    ensures
        r == has_identifier(idents@, node, ident@),
{
    let mut j: usize = 0;
    while j < idents.len()
        invariant
            j <= idents@.len(),
            forall|m: int| 0 <= m < j ==> !(idents@[m].0 == node && #[trigger] idents@[m].1@ == ident@),
        decreases idents.len() - j,
    {
        if idents[j].0 == node && identifier_eq(&idents[j].1, ident) {
            return true;
        }
        j += 1;
    }
    false
}

/// The ids of the nodes that the list gives an identifier, in list order.
pub fn nodes_with_identifier(idents: &Vec<(NodeId, NodeIdentifier)>, ident: &NodeIdentifier) -> (r: Vec<NodeId>)
    ensures
        forall|n: NodeId| r@.contains(n) <==> has_identifier(idents@, n, ident@),
{
    let mut r: Vec<NodeId> = Vec::new();
    let mut j: usize = 0;
    while j < idents.len()
        invariant
            j <= idents@.len(),
            forall|n: NodeId| r@.contains(n) <==> exists|m: int| 0 <= m < j && idents@[m].0 == n && #[trigger] idents@[m].1@ == ident@,
        decreases idents.len() - j,
    {
        let ghost old_r = r@;
        if identifier_eq(&idents[j].1, ident) {
            r.push(idents[j].0);
        }
        proof {
            assert forall|n: NodeId| r@.contains(n) <==> exists|m: int| 0 <= m < j + 1 && idents@[m].0 == n && #[trigger] idents@[m].1@ == ident@ by {
                if old_r.contains(n) {
                    let a = choose|a: int| 0 <= a < old_r.len() && old_r[a] == n;
                    assert(r@[a] == n);
                }
                if r@.contains(n) && !old_r.contains(n) {
                    let a = choose|a: int| 0 <= a < r@.len() && r@[a] == n;
                    if a < old_r.len() {
                        assert(old_r[a] == n);
                    }
                    assert(idents@[j as int].0 == n && idents@[j as int].1@ == ident@);
                }
                if idents@[j as int].0 == n && idents@[j as int].1@ == ident@ {
                    assert(r@[r@.len() - 1] == n);
                }
            }
        }
        j += 1;
    }
    r
}

// ----------------------------------------------------------------------------
// The plan
// ----------------------------------------------------------------------------

/// A port fits one end of a saved connection: its name and direction match and
/// its node has the saved identifier.
pub open spec fn fits_end(p: Port, idents: Seq<(NodeId, NodeIdentifier)>, ident: NodeIdentifierView, name: Seq<char>, dir: PortDirection) -> bool {
    p.name@ == name && p.direction == dir && has_identifier(idents, p.node_id, ident)
}

/// Some port of the graph with this id fits the end.
pub open spec fn end_port(ports: Map<u32, Port>, idents: Seq<(NodeId, NodeIdentifier)>, ident: NodeIdentifierView, name: Seq<char>, dir: PortDirection, id: PortId) -> bool {
    exists|k: u32| ports.contains_key(k) && ports[k].id == id && #[trigger] fits_end(ports[k], idents, ident, name, dir)
}

/// Some port of the graph fits the end.
pub open spec fn end_resolves(ports: Map<u32, Port>, idents: Seq<(NodeId, NodeIdentifier)>, ident: NodeIdentifierView, name: Seq<char>, dir: PortDirection) -> bool {
    exists|k: u32| ports.contains_key(k) && #[trigger] fits_end(ports[k], idents, ident, name, dir)
}

/// What was made of a saved connection: the pair of ports chosen for its ends,
/// or nothing when one of its ends fits no port.
pub open spec fn choice_fits(ports: Map<u32, Port>, idents: Seq<(NodeId, NodeIdentifier)>, c: SnapshotConnection, ch: Option<(PortId, PortId)>) -> bool {
    match ch {
        Some((o, i)) => end_port(ports, idents, c.output_node@, c.output_port_name@, PortDirection::Output, o)
            && end_port(ports, idents, c.input_node@, c.input_port_name@, PortDirection::Input, i),
        None => !(end_resolves(ports, idents, c.output_node@, c.output_port_name@, PortDirection::Output)
            && end_resolves(ports, idents, c.input_node@, c.input_port_name@, PortDirection::Input)),
    }
}

/// The number of saved connections that could not be matched.
pub open spec fn count_unresolved(ch: Seq<Option<(PortId, PortId)>>) -> nat
    decreases ch.len(),
{
    if ch.len() == 0 {
        0
    } else {
        count_unresolved(ch.drop_last()) + if ch.last() is None { 1nat } else { 0nat }
    }
}

/// The pair of ports is wanted by the scene.
pub open spec fn wanted(ch: Seq<Option<(PortId, PortId)>>, o: PortId, i: PortId) -> bool {
    exists|j: int| 0 <= j < ch.len() && #[trigger] ch[j] == Some((o, i))
}

/// Some link of the graph joins the two ports.
pub open spec fn linked(links: Map<u32, Link>, o: PortId, i: PortId) -> bool {
    exists|k: u32| links.contains_key(k) && #[trigger] links[k].output_port == o && links[k].input_port == i
}

/// The changes that restore a scene.
#[derive(Debug, Clone)]
pub struct RestorePlan {
    /// Links that exist now but are not part of the scene.
    pub links_to_remove: Vec<LinkId>,
    /// Port pairs of the scene that no link joins yet.
    pub links_to_create: Vec<(PortId, PortId)>,
    /// Saved connections with an end that matches no port.
    pub unresolved: usize,
}

/// A plan restores the scene for a choice of ports: every link not wanted is
/// removed, every wanted pair not yet linked is created (once), and the
/// unmatched connections are counted.
pub open spec fn plan_follows(plan: RestorePlan, links: Map<u32, Link>, ch: Seq<Option<(PortId, PortId)>>) -> bool {
    &&& plan.unresolved == count_unresolved(ch)
    &&& forall|x: LinkId| #[trigger] plan.links_to_remove@.contains(x) <==> exists|k: u32| links.contains_key(k)
        && #[trigger] links[k].id == x && !wanted(ch, links[k].output_port, links[k].input_port)
    &&& removes_each_once(plan.links_to_remove@, links, ch)
    &&& (forall|k: u32| #[trigger] links.contains_key(k) ==> links[k].id.0 == k) ==> plan.links_to_remove@.no_duplicates()
    &&& plan.links_to_create@.no_duplicates()
    &&& forall|pr: (PortId, PortId)| #[trigger] plan.links_to_create@.contains(pr) <==> wanted(ch, pr.0, pr.1)
        && !linked(links, pr.0, pr.1)
}

/// What a restore plan does to a link of the graph: a link joining a pair of
/// ports that some matched connection of the scene names is kept, and a link
/// joining a pair that no matched connection names is removed; a pair is
/// created only when the scene names it and no link joins it yet.
pub proof fn lemma_plan_links(plan: RestorePlan, links: Map<u32, Link>, ch: Seq<Option<(PortId, PortId)>>, k: u32, o: PortId, i: PortId)
    requires
        plan_follows(plan, links, ch),
        links.contains_key(k),
        forall|k2: u32| #[trigger] links.contains_key(k2) && links[k2].id == links[k].id ==> k2 == k,
    ensures
        (exists|j: int| 0 <= j < ch.len() && ch[j] == Some((links[k].output_port, links[k].input_port)))
            ==> !plan.links_to_remove@.contains(links[k].id),
        !(exists|j: int| 0 <= j < ch.len() && ch[j] == Some((links[k].output_port, links[k].input_port)))
            ==> plan.links_to_remove@.contains(links[k].id),
        plan.links_to_create@.contains((o, i)) ==> (exists|j: int| 0 <= j < ch.len() && ch[j] == Some((o, i)))
            && !(exists|k2: u32| links.contains_key(k2) && links[k2].output_port == o && links[k2].input_port == i),
{
    let l = links[k];
    if (exists|j: int| 0 <= j < ch.len() && ch[j] == Some((l.output_port, l.input_port))) {
        let j = choose|j: int| 0 <= j < ch.len() && ch[j] == Some((l.output_port, l.input_port));
        assert(wanted(ch, l.output_port, l.input_port));
        if plan.links_to_remove@.contains(l.id) {
            let k2 = choose|k2: u32| links.contains_key(k2) && #[trigger] links[k2].id == l.id
                && !wanted(ch, links[k2].output_port, links[k2].input_port);
            assert(k2 == k);
        }
    } else {
        assert(!wanted(ch, l.output_port, l.input_port));
        assert(links[k].id == l.id);
    }
    if plan.links_to_create@.contains((o, i)) {
        assert(wanted(ch, o, i) && !linked(links, o, i));
        let j = choose|j: int| 0 <= j < ch.len() && #[trigger] ch[j] == Some((o, i));
        assert(ch[j] == Some((o, i)));
        if exists|k2: u32| links.contains_key(k2) && links[k2].output_port == o && links[k2].input_port == i {
            let k2 = choose|k2: u32| links.contains_key(k2) && links[k2].output_port == o && links[k2].input_port == i;
            assert(linked(links, o, i));
        }
    }
}

/// The removals list the ids of the graph's unwanted links, one entry for each
/// such link of the graph.
pub open spec fn removes_each_once(rm: Seq<LinkId>, links: Map<u32, Link>, ch: Seq<Option<(PortId, PortId)>>) -> bool {
    exists|ks: Seq<u32>| {
        &&& ks.no_duplicates()
        &&& ks.len() == rm.len()
        &&& forall|i: int| 0 <= i < ks.len() ==> links.contains_key(#[trigger] ks[i]) && links[ks[i]].id == rm[i]
            && !wanted(ch, links[ks[i]].output_port, links[ks[i]].input_port)
        &&& forall|k: u32| links.contains_key(k) && !wanted(ch, links[k].output_port, links[k].input_port) ==> #[trigger] ks.contains(k)
    }
}

/// Finds a port of the list that fits the end of a saved connection.
fn find_end(ports: &Vec<&Port>, idents: &Vec<(NodeId, NodeIdentifier)>, ident: &NodeIdentifier, name: &str, dir: PortDirection) -> (r: Option<PortId>)
    ensures
        match r {
            Some(id) => exists|i: int| 0 <= i < ports@.len() && (*ports@[i]).id == id
                && #[trigger] fits_end(*ports@[i], idents@, ident@, name@, dir),
            None => forall|i: int| 0 <= i < ports@.len() ==> !#[trigger] fits_end(*ports@[i], idents@, ident@, name@, dir),
        },
{
    let mut i: usize = 0;
    while i < ports.len()
        invariant
            i <= ports@.len(),
            forall|m: int| 0 <= m < i ==> !#[trigger] fits_end(*ports@[m], idents@, ident@, name@, dir),
        decreases ports.len() - i,
    {
        let p = ports[i];
        if p.direction == dir && str_eq(p.name.as_str(), name) && node_has_identifier(idents, p.node_id, ident) {
            proof {
                assert(fits_end(*ports@[i as int], idents@, ident@, name@, dir));
            }
            return Some(p.id);
        }
        i += 1;
    }
    None
}

/// Returns true if the vector holds the pair.
fn contains_pair(v: &Vec<(PortId, PortId)>, pr: (PortId, PortId)) -> (r: bool)
    ensures
        r == v@.contains(pr),
{
    let mut i: usize = 0;
    while i < v.len()
        invariant
            i <= v@.len(),
            forall|m: int| 0 <= m < i ==> v@[m] != pr,
        decreases v.len() - i,
    {
        if v[i].0 == pr.0 && v[i].1 == pr.1 {
            proof {
                assert(v@[i as int] == pr);
            }
            return true;
        }
        i += 1;
    }
    false
}

/// Returns true if some link of the list joins the two ports.
fn pair_linked(links: &Vec<Link>, o: PortId, i: PortId) -> (r: bool)
    ensures
        r == exists|m: int| 0 <= m < links@.len() && #[trigger] links@[m].output_port == o && links@[m].input_port == i,
{
    let mut j: usize = 0;
    while j < links.len()
        invariant
            j <= links@.len(),
            forall|m: int| 0 <= m < j ==> !(#[trigger] links@[m].output_port == o && links@[m].input_port == i),
        decreases links.len() - j,
    {
        if links[j].output_port == o && links[j].input_port == i {
            return true;
        }
        j += 1;
    }
    false
}

/// Works out how to restore a scene: matches each saved connection to a pair of
/// ports of the graph (by node identifier, port name and direction; `idents`
/// gives the identifier of each node of the graph), then lists the links to
/// remove (those the scene does not want), the port pairs to link (those the
/// scene wants that are not linked yet, each once), and how many saved
/// connections could not be matched.
pub fn plan_restore(graph: &GraphState, idents: &Vec<(NodeId, NodeIdentifier)>, connections: &Vec<SnapshotConnection>) -> (r: RestorePlan)
    ensures
        exists|ch: Seq<Option<(PortId, PortId)>>| {
            &&& ch.len() == connections@.len()
            &&& forall|j: int| 0 <= j < ch.len() ==> #[trigger] choice_fits(graph.ports@, idents@, connections@[j], ch[j])
            &&& plan_follows(r, graph.links@, ch)
        },
{
    let ports = graph.all_ports();
    let ghost pv = ports@.map_values(|p: &Port| *p);
    proof {
        lemma_values_cover(pv, graph.ports@);
    }
    let mut want: Vec<(PortId, PortId)> = Vec::new();
    let mut unresolved: usize = 0;
    let ghost mut ch: Seq<Option<(PortId, PortId)>> = Seq::empty();
    let mut j: usize = 0;
    while j < connections.len()
        invariant
            j <= connections@.len(),
            ch.len() == j,
            pv == ports@.map_values(|p: &Port| *p),
            forall|i: int| 0 <= i < pv.len() ==> #[trigger] value_in_map(graph.ports@, pv[i]),
            forall|k: u32| graph.ports@.contains_key(k) ==> #[trigger] value_in_seq(pv, graph.ports@[k]),
            forall|m: int| 0 <= m < j ==> #[trigger] choice_fits(graph.ports@, idents@, connections@[m], ch[m]),
            unresolved == count_unresolved(ch),
            unresolved <= j,
            want@.no_duplicates(),
            forall|pr: (PortId, PortId)| #[trigger] want@.contains(pr) <==> wanted(ch, pr.0, pr.1),
        decreases connections.len() - j,
    {
        let c = &connections[j];
        let out_port = find_end(&ports, idents, &c.output_node, c.output_port_name.as_str(), PortDirection::Output);
        let in_port = find_end(&ports, idents, &c.input_node, c.input_port_name.as_str(), PortDirection::Input);
        let ghost old_ch = ch;
        let ghost old_want = want@;
        match (out_port, in_port) {
            (Some(o), Some(i)) => {
                proof {
                    let a = choose|a: int| 0 <= a < ports@.len() && (*ports@[a]).id == o
                        && #[trigger] fits_end(*ports@[a], idents@, c.output_node@, c.output_port_name@, PortDirection::Output);
                    assert(pv[a] == *ports@[a]);
                    assert(value_in_map(graph.ports@, pv[a]));
                    let ka = choose|k: u32| graph.ports@.contains_key(k) && #[trigger] graph.ports@[k] == pv[a];
                    assert(fits_end(graph.ports@[ka], idents@, c.output_node@, c.output_port_name@, PortDirection::Output));
                    let b = choose|b: int| 0 <= b < ports@.len() && (*ports@[b]).id == i
                        && #[trigger] fits_end(*ports@[b], idents@, c.input_node@, c.input_port_name@, PortDirection::Input);
                    assert(pv[b] == *ports@[b]);
                    assert(value_in_map(graph.ports@, pv[b]));
                    let kb = choose|k: u32| graph.ports@.contains_key(k) && #[trigger] graph.ports@[k] == pv[b];
                    assert(fits_end(graph.ports@[kb], idents@, c.input_node@, c.input_port_name@, PortDirection::Input));
                    ch = ch.push(Some((o, i)));
                    assert(choice_fits(graph.ports@, idents@, connections@[j as int], ch[j as int]));
                }
                let present = contains_pair(&want, (o, i));
                if !present {
                    want.push((o, i));
                    proof {
                        assert(want@[want@.len() - 1] == (o, i));
                        assert forall|x: int, y: int| 0 <= x < want@.len() && 0 <= y < want@.len() && x != y
                            implies want@[x] != want@[y] by {
                            if x < old_want.len() && y < old_want.len() {
                                assert(old_want[x] != old_want[y]);
                            } else if x < old_want.len() {
                                assert(old_want.contains(old_want[x]));
                            } else if y < old_want.len() {
                                assert(old_want.contains(old_want[y]));
                            }
                        }
                    }
                }
                proof {
                    assert(want@.contains((o, i)));
                    assert forall|q: (PortId, PortId)| old_want.contains(q) implies want@.contains(q) by {
                        let x = choose|x: int| 0 <= x < old_want.len() && old_want[x] == q;
                        assert(want@[x] == q);
                    }
                    assert forall|q: (PortId, PortId)| want@.contains(q) implies old_want.contains(q) || q == (o, i) by {
                        let x = choose|x: int| 0 <= x < want@.len() && want@[x] == q;
                        if x < old_want.len() {
                            assert(old_want[x] == q);
                        }
                    }
                }
            },
            _ => {
                proof {
                    let out_ok = end_resolves(graph.ports@, idents@, c.output_node@, c.output_port_name@, PortDirection::Output);
                    let in_ok = end_resolves(graph.ports@, idents@, c.input_node@, c.input_port_name@, PortDirection::Input);
                    if out_port is None && out_ok {
                        let k = choose|k: u32| graph.ports@.contains_key(k)
                            && #[trigger] fits_end(graph.ports@[k], idents@, c.output_node@, c.output_port_name@, PortDirection::Output);
                        assert(value_in_seq(pv, graph.ports@[k]));
                        let a = choose|a: int| 0 <= a < pv.len() && #[trigger] pv[a] == graph.ports@[k];
                        assert(pv[a] == *ports@[a]);
                        assert(fits_end(*ports@[a], idents@, c.output_node@, c.output_port_name@, PortDirection::Output));
                    }
                    if in_port is None && in_ok {
                        let k = choose|k: u32| graph.ports@.contains_key(k)
                            && #[trigger] fits_end(graph.ports@[k], idents@, c.input_node@, c.input_port_name@, PortDirection::Input);
                        assert(value_in_seq(pv, graph.ports@[k]));
                        let a = choose|a: int| 0 <= a < pv.len() && #[trigger] pv[a] == graph.ports@[k];
                        assert(pv[a] == *ports@[a]);
                        assert(fits_end(*ports@[a], idents@, c.input_node@, c.input_port_name@, PortDirection::Input));
                    }
                    ch = ch.push(None);
                    assert(choice_fits(graph.ports@, idents@, connections@[j as int], ch[j as int]));
                }
                unresolved += 1;
            },
        }
        proof {
            assert(ch.drop_last() =~= old_ch);
            assert forall|m: int| 0 <= m < j + 1 implies #[trigger] choice_fits(graph.ports@, idents@, connections@[m], ch[m]) by {
                if m < j {
                    assert(ch[m] == old_ch[m]);
                }
            }
            assert forall|pr: (PortId, PortId)| #[trigger] want@.contains(pr) <==> wanted(ch, pr.0, pr.1) by {
                if wanted(old_ch, pr.0, pr.1) {
                    let m = choose|m: int| 0 <= m < old_ch.len() && #[trigger] old_ch[m] == Some((pr.0, pr.1));
                    assert(ch[m] == old_ch[m]);
                }
                if wanted(ch, pr.0, pr.1) {
                    let m = choose|m: int| 0 <= m < ch.len() && #[trigger] ch[m] == Some((pr.0, pr.1));
                    if m < j {
                        assert(old_ch[m] == ch[m]);
                        assert(old_want.contains(pr));
                    }
                }
                if want@.contains(pr) && !old_want.contains(pr) {
                    assert(ch[j as int] == Some((pr.0, pr.1)));
                }
            }
        }
        j += 1;
    }

    let links = graph.all_links();
    proof {
        lemma_values_cover(links@, graph.links@);
    }
    let ghost kall = choose|ks: Seq<u32>| {
        &&& ks.no_duplicates()
        &&& ks.len() == links@.len()
        &&& forall|i: int| 0 <= i < ks.len() ==> graph.links@.contains_key(#[trigger] ks[i]) && every_key()(ks[i]) && graph.links@[ks[i]] == links@[i]
        &&& forall|k: u32| graph.links@.contains_key(k) && every_key()(k) ==> #[trigger] ks.contains(k)
    };
    let mut links_to_remove: Vec<LinkId> = Vec::new();
    let ghost mut rks: Seq<u32> = Seq::empty();
    let mut a: usize = 0;
    while a < links.len()
        invariant
            a <= links@.len(),
            kall.no_duplicates(),
            kall.len() == links@.len(),
            forall|i: int| 0 <= i < kall.len() ==> graph.links@.contains_key(#[trigger] kall[i]) && graph.links@[kall[i]] == links@[i],
            rks.no_duplicates(),
            rks.len() == links_to_remove@.len(),
            forall|i: int| #![trigger rks[i]] 0 <= i < rks.len() ==> exists|m: int| 0 <= m < a && #[trigger] kall[m] == rks[i],
            forall|i: int| 0 <= i < rks.len() ==> graph.links@.contains_key(#[trigger] rks[i]) && graph.links@[rks[i]].id == links_to_remove@[i]
                && !wanted(ch, graph.links@[rks[i]].output_port, graph.links@[rks[i]].input_port),
            forall|m: int| 0 <= m < a && !wanted(ch, links@[m].output_port, links@[m].input_port) ==> rks.contains(#[trigger] kall[m]),
            forall|pr: (PortId, PortId)| #[trigger] want@.contains(pr) <==> wanted(ch, pr.0, pr.1),
            forall|x: LinkId| #[trigger] links_to_remove@.contains(x) <==> exists|m: int| 0 <= m < a
                && #[trigger] links@[m].id == x && !wanted(ch, links@[m].output_port, links@[m].input_port),
        decreases links.len() - a,
    {
        let l = links[a];
        let ghost old_rm = links_to_remove@;
        let ghost old_rks = rks;
        let present = contains_pair(&want, (l.output_port, l.input_port));
        if !present {
            links_to_remove.push(l.id);
            proof {
                let ka = kall[a as int];
                assert(!old_rks.contains(ka)) by {
                    if old_rks.contains(ka) {
                        let i = choose|i: int| 0 <= i < old_rks.len() && old_rks[i] == ka;
                        let m = choose|m: int| 0 <= m < a && #[trigger] kall[m] == old_rks[i];
                        assert(kall[m] == kall[a as int]);
                    }
                }
                rks = old_rks.push(ka);
                assert forall|i: int| #![trigger rks[i]] 0 <= i < rks.len() implies exists|m: int| 0 <= m < a + 1 && #[trigger] kall[m] == rks[i] by {
                    if i < old_rks.len() {
                        assert(rks[i] == old_rks[i]);
                        let m = choose|m: int| 0 <= m < a && #[trigger] kall[m] == old_rks[i];
                        assert(kall[m] == rks[i]);
                    } else {
                        assert(kall[a as int] == rks[i]);
                    }
                }
            }
        }
        proof {
            assert(present == wanted(ch, l.output_port, l.input_port));
            assert forall|i: int| #![trigger rks[i]] 0 <= i < rks.len() implies exists|m: int| 0 <= m < a + 1 && #[trigger] kall[m] == rks[i] by {
                if present {
                    let m = choose|m: int| 0 <= m < a && #[trigger] kall[m] == rks[i];
                    assert(kall[m] == rks[i]);
                }
            }
            assert forall|i: int| 0 <= i < rks.len() implies graph.links@.contains_key(#[trigger] rks[i]) && graph.links@[rks[i]].id == links_to_remove@[i]
                && !wanted(ch, graph.links@[rks[i]].output_port, graph.links@[rks[i]].input_port) by {
                if i < old_rks.len() {
                    assert(rks[i] == old_rks[i]);
                    assert(links_to_remove@[i] == old_rm[i]);
                } else {
                    assert(graph.links@[kall[a as int]] == links@[a as int]);
                }
            }
            assert forall|m: int| 0 <= m < a + 1 && !wanted(ch, links@[m].output_port, links@[m].input_port) implies rks.contains(#[trigger] kall[m]) by {
                if m < a {
                    assert(old_rks.contains(kall[m]));
                    let i = choose|i: int| 0 <= i < old_rks.len() && old_rks[i] == kall[m];
                    assert(rks[i] == kall[m]);
                } else {
                    assert(links@[a as int] == l);
                    assert(rks[rks.len() - 1] == kall[m]);
                }
            }
        }
        proof {
            assert(present == wanted(ch, l.output_port, l.input_port));
            assert(links@[a as int] == l);
            assert forall|x: LinkId| #[trigger] links_to_remove@.contains(x) <==> exists|m: int| 0 <= m < a + 1
                && #[trigger] links@[m].id == x && !wanted(ch, links@[m].output_port, links@[m].input_port) by {
                if old_rm.contains(x) {
                    let y = choose|y: int| 0 <= y < old_rm.len() && old_rm[y] == x;
                    assert(links_to_remove@[y] == x);
                    let m = choose|m: int| 0 <= m < a && #[trigger] links@[m].id == x && !wanted(ch, links@[m].output_port, links@[m].input_port);
                    assert(0 <= m < a + 1);
                }
                if links_to_remove@.contains(x) && !old_rm.contains(x) {
                    let y = choose|y: int| 0 <= y < links_to_remove@.len() && links_to_remove@[y] == x;
                    if y < old_rm.len() {
                        assert(old_rm[y] == x);
                    }
                    assert(!present);
                    assert(x == l.id);
                    assert(links@[a as int].id == x);
                }
                if exists|m: int| 0 <= m < a + 1 && #[trigger] links@[m].id == x && !wanted(ch, links@[m].output_port, links@[m].input_port) {
                    let m = choose|m: int| 0 <= m < a + 1 && #[trigger] links@[m].id == x && !wanted(ch, links@[m].output_port, links@[m].input_port);
                    if m < a {
                        assert(old_rm.contains(x));
                        let y = choose|y: int| 0 <= y < old_rm.len() && old_rm[y] == x;
                        assert(links_to_remove@[y] == x);
                    } else {
                        assert(!present);
                        assert(links_to_remove@[links_to_remove@.len() - 1] == x);
                    }
                }
            }
        }
        a += 1;
    }

    let mut links_to_create: Vec<(PortId, PortId)> = Vec::new();
    let mut b: usize = 0;
    while b < want.len()
        invariant
            b <= want@.len(),
            want@.no_duplicates(),
            links_to_create@.no_duplicates(),
            forall|x: int| #![trigger links_to_create@[x]] 0 <= x < links_to_create@.len() ==> exists|m: int| 0 <= m < b && #[trigger] want@[m] == links_to_create@[x],
            forall|pr: (PortId, PortId)| #[trigger] links_to_create@.contains(pr) <==> exists|m: int| 0 <= m < b
                && #[trigger] want@[m] == pr && !(exists|n: int| 0 <= n < links@.len() && #[trigger] links@[n].output_port == pr.0 && links@[n].input_port == pr.1),
        decreases want.len() - b,
    {
        let pr = want[b];
        let exists_now = pair_linked(&links, pr.0, pr.1);
        let ghost old_c = links_to_create@;
        if !exists_now {
            proof {
                assert(!old_c.contains(pr)) by {
                    if old_c.contains(pr) {
                        let x = choose|x: int| 0 <= x < old_c.len() && old_c[x] == pr;
                        let m = choose|m: int| 0 <= m < b && #[trigger] want@[m] == old_c[x];
                        assert(want@[m] == want@[b as int]);
                    }
                }
            }
            links_to_create.push(pr);
        }
        proof {
            assert forall|x: int| #![trigger links_to_create@[x]] 0 <= x < links_to_create@.len() implies exists|m: int| 0 <= m < b + 1 && #[trigger] want@[m] == links_to_create@[x] by {
                if x < old_c.len() {
                    let m = choose|m: int| 0 <= m < b && #[trigger] want@[m] == old_c[x];
                    assert(want@[m] == links_to_create@[x]);
                } else {
                    assert(want@[b as int] == links_to_create@[x]);
                }
            }
            assert forall|q: (PortId, PortId)| #[trigger] links_to_create@.contains(q) <==> exists|m: int| 0 <= m < b + 1
                && #[trigger] want@[m] == q && !(exists|n: int| 0 <= n < links@.len() && #[trigger] links@[n].output_port == q.0 && links@[n].input_port == q.1) by {
                if links_to_create@.contains(q) && !old_c.contains(q) {
                    assert(q == pr);
                    assert(want@[b as int] == q);
                }
                if old_c.contains(q) {
                    let x = choose|x: int| 0 <= x < old_c.len() && old_c[x] == q;
                    assert(links_to_create@[x] == q);
                }
                if exists|m: int| 0 <= m < b + 1 && #[trigger] want@[m] == q && !(exists|n: int| 0 <= n < links@.len() && #[trigger] links@[n].output_port == q.0 && links@[n].input_port == q.1) {
                    let m = choose|m: int| 0 <= m < b + 1 && #[trigger] want@[m] == q && !(exists|n: int| 0 <= n < links@.len() && #[trigger] links@[n].output_port == q.0 && links@[n].input_port == q.1);
                    if m == b {
                        assert(links_to_create@[links_to_create@.len() - 1] == q);
                    }
                }
            }
        }
        b += 1;
    }

    let plan = RestorePlan { links_to_remove, links_to_create, unresolved };
    proof {
        assert(ch.len() == connections@.len());
        assert forall|x: LinkId| #[trigger] plan.links_to_remove@.contains(x) <==> exists|k: u32| graph.links@.contains_key(k)
            && #[trigger] graph.links@[k].id == x && !wanted(ch, graph.links@[k].output_port, graph.links@[k].input_port) by {
            if plan.links_to_remove@.contains(x) {
                let m = choose|m: int| 0 <= m < links@.len() && #[trigger] links@[m].id == x && !wanted(ch, links@[m].output_port, links@[m].input_port);
                assert(value_in_map(graph.links@, links@[m]));
                let k = choose|k: u32| graph.links@.contains_key(k) && #[trigger] graph.links@[k] == links@[m];
                assert(graph.links@[k].id == x);
            }
            if exists|k: u32| graph.links@.contains_key(k) && #[trigger] graph.links@[k].id == x && !wanted(ch, graph.links@[k].output_port, graph.links@[k].input_port) {
                let k = choose|k: u32| graph.links@.contains_key(k) && #[trigger] graph.links@[k].id == x && !wanted(ch, graph.links@[k].output_port, graph.links@[k].input_port);
                assert(value_in_seq(links@, graph.links@[k]));
                let m = choose|m: int| 0 <= m < links@.len() && #[trigger] links@[m] == graph.links@[k];
                assert(links@[m].id == x);
            }
        }
        assert forall|pr: (PortId, PortId)| #[trigger] plan.links_to_create@.contains(pr) <==> wanted(ch, pr.0, pr.1)
            && !linked(graph.links@, pr.0, pr.1) by {
            let in_vec = exists|n: int| 0 <= n < links@.len() && #[trigger] links@[n].output_port == pr.0 && links@[n].input_port == pr.1;
            if in_vec {
                let n = choose|n: int| 0 <= n < links@.len() && #[trigger] links@[n].output_port == pr.0 && links@[n].input_port == pr.1;
                assert(value_in_map(graph.links@, links@[n]));
                let k = choose|k: u32| graph.links@.contains_key(k) && #[trigger] graph.links@[k] == links@[n];
                assert(graph.links@[k].output_port == pr.0);
            }
            if linked(graph.links@, pr.0, pr.1) {
                let k = choose|k: u32| graph.links@.contains_key(k) && #[trigger] graph.links@[k].output_port == pr.0 && graph.links@[k].input_port == pr.1;
                assert(value_in_seq(links@, graph.links@[k]));
                let n = choose|n: int| 0 <= n < links@.len() && #[trigger] links@[n] == graph.links@[k];
                assert(links@[n].output_port == pr.0);
            }
            if plan.links_to_create@.contains(pr) {
                let m = choose|m: int| 0 <= m < want@.len() && #[trigger] want@[m] == pr && !in_vec;
                assert(want@.contains(pr));
            }
            if wanted(ch, pr.0, pr.1) && !in_vec {
                assert(want@.contains(pr));
                let m = choose|m: int| 0 <= m < want@.len() && want@[m] == pr;
                assert(exists|m: int| 0 <= m < want@.len() && #[trigger] want@[m] == pr && !in_vec);
            }
        }
        assert(removes_each_once(plan.links_to_remove@, graph.links@, ch)) by {
            assert forall|k: u32| graph.links@.contains_key(k) && !wanted(ch, graph.links@[k].output_port, graph.links@[k].input_port)
                implies #[trigger] rks.contains(k) by {
                assert(kall.contains(k));
                let m = choose|m: int| 0 <= m < kall.len() && kall[m] == k;
                assert(graph.links@[kall[m]] == links@[m]);
            }
        }
        if forall|k: u32| #[trigger] graph.links@.contains_key(k) ==> graph.links@[k].id.0 == k {
            assert forall|x: int, y: int| 0 <= x < plan.links_to_remove@.len() && 0 <= y < plan.links_to_remove@.len() && x != y
                implies plan.links_to_remove@[x] != plan.links_to_remove@[y] by {
                assert(graph.links@.contains_key(rks[x]) && graph.links@.contains_key(rks[y]));
                assert(rks[x] != rks[y]);
            }
        }
        assert(plan_follows(plan, graph.links@, ch));
    }
    plan
}

/// The status line after restoring a scene: the scene's name, the numbers of
/// links removed and created, and the number of unmatched connections when
/// there are any.
pub open spec fn restore_message_text(name: Seq<char>, removed: nat, created: nat, unresolved: nat) -> Seq<char> {
    "Restored scene '"@ + name + "': -"@ + decimal(removed) + " +"@ + decimal(created) + " links"@
        + if unresolved > 0 { " ("@ + decimal(unresolved) + " unresolved)"@ } else { ""@ }
}

/// Builds the status line after restoring a scene.
pub fn restore_message(name: &str, plan: &RestorePlan) -> (r: String)
    ensures
        r@ == restore_message_text(name@, plan.links_to_remove@.len(), plan.links_to_create@.len(), plan.unresolved as nat),
{
    let mut s = owned("Restored scene '");
    push_str(&mut s, name);
    push_str(&mut s, "': -");
    push_decimal(&mut s, plan.links_to_remove.len() as u64);
    push_str(&mut s, " +");
    push_decimal(&mut s, plan.links_to_create.len() as u64);
    push_str(&mut s, " links");
    if plan.unresolved > 0 {
        push_str(&mut s, " (");
        push_decimal(&mut s, plan.unresolved as u64);
        push_str(&mut s, " unresolved)");
    } else {
        proof {
            reveal_strlit("");
            assert(s@ =~= s@ + ""@);
        }
    }
    s
}

}
