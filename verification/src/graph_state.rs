//! State of the PipeWire graph: nodes, ports and links by id.
//!
//! Removing a node removes its ports and every link that touches it;
//! removing a port removes every link that touches it.

use std::collections::HashMap;
use vstd::prelude::*;

use crate::graph::{Link, Node, Port};
use crate::ids::{LinkId, NodeId, PortId};

verus! {

broadcast use vstd::std_specs::hash::group_hash_axioms;

/// State of the PipeWire graph.
#[derive(Debug, Clone)]
pub struct GraphState {
    /// All nodes by raw node id
    pub nodes: HashMap<u32, Node>,
    /// All ports by raw port id
    pub ports: HashMap<u32, Port>,
    /// All links by raw link id
    pub links: HashMap<u32, Link>,
    /// Nodes where volume control failed (raw node id -> error message)
    pub volume_control_failed: HashMap<u32, String>,
}

/// The ports that do not belong to the node.
pub open spec fn ports_without_node(ports: Map<u32, Port>, node: NodeId) -> Map<u32, Port> {
    ports.restrict(ports.dom().filter(|k: u32| ports[k].node_id != node))
}

/// The links that touch neither end at the node.
pub open spec fn links_without_node(links: Map<u32, Link>, node: NodeId) -> Map<u32, Link> {
    links.restrict(links.dom().filter(|k: u32| links[k].output_node != node && links[k].input_node != node))
}

/// The links that touch neither end at the port.
pub open spec fn links_without_port(links: Map<u32, Link>, port: PortId) -> Map<u32, Link> {
    links.restrict(links.dom().filter(|k: u32| links[k].output_port != port && links[k].input_port != port))
}

/// The sequence with every occurrence of `x` removed.
pub open spec fn without_id(s: Seq<PortId>, x: PortId) -> Seq<PortId>
    decreases s.len(),
{
    if s.len() == 0 {
        s
    } else if s.last() == x {
        without_id(s.drop_last(), x)
    } else {
        without_id(s.drop_last(), x).push(s.last())
    }
}

/// The sequence with `x` appended unless it already occurs.
pub open spec fn with_id(s: Seq<PortId>, x: PortId) -> Seq<PortId> {
    if s.contains(x) { s } else { s.push(x) }
}

/// `r` holds exactly the map's values whose keys satisfy `keep`, each once.
pub open spec fn exactly_values<V>(r: Seq<V>, m: Map<u32, V>, keep: spec_fn(u32) -> bool) -> bool {
    exists|ks: Seq<u32>| {
        &&& ks.no_duplicates()
        &&& ks.len() == r.len()
        &&& forall|i: int| 0 <= i < ks.len() ==> m.contains_key(#[trigger] ks[i]) && keep(ks[i]) && m[ks[i]] == r[i]
        &&& forall|k: u32| m.contains_key(k) && keep(k) ==> #[trigger] ks.contains(k)
    }
}

/// The nodes after adding a port: the port's node, if present, lists the port
/// once and is otherwise unchanged; the other nodes are unchanged.
pub open spec fn nodes_after_port_added(old_nodes: Map<u32, Node>, new_nodes: Map<u32, Node>, port: Port) -> bool {
    if old_nodes.contains_key(port.node_id.0) {
        let n = old_nodes[port.node_id.0];
        &&& new_nodes == old_nodes.insert(port.node_id.0, Node { port_ids: new_nodes[port.node_id.0].port_ids, ..n })
        &&& new_nodes[port.node_id.0].port_ids@ == with_id(n.port_ids@, port.id)
    } else {
        new_nodes == old_nodes
    }
}

/// The nodes after removing a port: the port's node, if both are present, no
/// longer lists the port and is otherwise unchanged; the other nodes are unchanged.
pub open spec fn nodes_after_port_removed(old_nodes: Map<u32, Node>, old_ports: Map<u32, Port>, new_nodes: Map<u32, Node>, id: PortId) -> bool {
    let owner = old_ports[id.0].node_id.0;
    if old_ports.contains_key(id.0) && old_nodes.contains_key(owner) {
        let n = old_nodes[owner];
        &&& new_nodes == old_nodes.insert(owner, Node { port_ids: new_nodes[owner].port_ids, ..n })
        &&& new_nodes[owner].port_ids@ == without_id(n.port_ids@, id)
    } else {
        new_nodes == old_nodes
    }
}

/// The condition that every key meets.
pub open spec fn every_key() -> spec_fn(u32) -> bool {
    |k: u32| true
}

/// Every port belongs to a node of the graph, and every link joins ports of the
/// graph that belong to the nodes the link names.
pub open spec fn graph_consistent(nodes: Map<u32, Node>, ports: Map<u32, Port>, links: Map<u32, Link>) -> bool {
    &&& forall|k: u32| #[trigger] ports.contains_key(k) ==> nodes.contains_key(ports[k].node_id.0)
    &&& forall|k: u32| #[trigger] links.contains_key(k) ==> {
        let l = links[k];
        &&& ports.contains_key(l.output_port.0)
        &&& ports.contains_key(l.input_port.0)
        &&& ports[l.output_port.0].node_id == l.output_node
        &&& ports[l.input_port.0].node_id == l.input_node
    }
}

/// Keys of the map whose entries satisfy `keep`, collected from an iteration.
fn port_keys_of_node(ports: &HashMap<u32, Port>, node: NodeId) -> (r: Vec<u32>)
    ensures
        forall|k: u32| r@.contains(k) <==> (ports@.contains_key(k) && ports@[k].node_id == node),
{
    let mut r: Vec<u32> = Vec::new();
    let ghost s = vstd::std_specs::iter::IteratorSpec::remaining(&vstd::std_specs::hash::spec_hash_map_iter(ports));
    let ghost mut seen: int = 0;
    for (k, v) in it: ports.iter()
        invariant
            it.seq() == s,
            seen == it.index(),
            forall|j: int| 0 <= j < r.len() ==> ports@.contains_key(#[trigger] r@[j]) && ports@[r@[j]].node_id == node,
            forall|i: int| 0 <= i < seen ==> (#[trigger] s[i]).1.node_id == node ==> r@.contains(*s[i].0),
    {
        assert(s[seen as int] == (k, v));
        if v.node_id == node {
            let ghost old_r = r@;
            r.push(*k);
            assert forall|i: int| 0 <= i < seen + 1 && (#[trigger] s[i]).1.node_id == node implies r@.contains(*s[i].0) by {
                if i < seen {
                    let j = choose|j: int| 0 <= j < old_r.len() && old_r[j] == *s[i].0;
                    assert(r@[j] == old_r[j]);
                } else {
                    assert(r@[r.len() - 1] == *k);
                }
            }
        }
        proof { seen = seen + 1; }
    }
    proof {
        assert forall|k: u32| ports@.contains_key(k) && ports@[k].node_id == node implies r@.contains(k) by {
            assert(s.contains((&k, &ports@[k])));
            let i = choose|i: int| 0 <= i < s.len() && s[i] == (&k, &ports@[k]);
            assert(s[i].1.node_id == node);
        }
        assert forall|k: u32| r@.contains(k) implies ports@.contains_key(k) && ports@[k].node_id == node by {
            let j = choose|j: int| 0 <= j < r.len() && r@[j] == k;
        }
    }
    r
}

/// Whether a link touches the node at either end.
pub open spec fn link_touches_node(l: Link, node: NodeId) -> bool {
    l.output_node == node || l.input_node == node
}

/// Whether a link touches the port at either end.
pub open spec fn link_touches_port(l: Link, port: PortId) -> bool {
    l.output_port == port || l.input_port == port
}

/// Keys of the links that touch the node (when `by_node`) or the port.
fn link_keys_touching(links: &HashMap<u32, Link>, by_node: bool, node: NodeId, port: PortId) -> (r: Vec<u32>)
    ensures
        forall|k: u32| r@.contains(k) <==> (links@.contains_key(k) && (if by_node {
            link_touches_node(links@[k], node)
        } else {
            link_touches_port(links@[k], port)
        })),
{
    let ghost keep = |l: Link| if by_node { link_touches_node(l, node) } else { link_touches_port(l, port) };
    let mut r: Vec<u32> = Vec::new();
    let ghost s = vstd::std_specs::iter::IteratorSpec::remaining(&vstd::std_specs::hash::spec_hash_map_iter(links));
    let ghost mut seen: int = 0;
    for (k, v) in it: links.iter()
        invariant
            it.seq() == s,
            seen == it.index(),
            keep == (|l: Link| if by_node { link_touches_node(l, node) } else { link_touches_port(l, port) }),
            forall|j: int| 0 <= j < r.len() ==> links@.contains_key(#[trigger] r@[j]) && keep(links@[r@[j]]),
            forall|i: int| 0 <= i < seen ==> keep(*(#[trigger] s[i]).1) ==> r@.contains(*s[i].0),
    {
        assert(s[seen as int] == (k, v));
        let touches = if by_node {
            v.output_node == node || v.input_node == node
        } else {
            v.output_port == port || v.input_port == port
        };
        if touches {
            let ghost old_r = r@;
            r.push(*k);
            assert forall|i: int| 0 <= i < seen + 1 && keep(*(#[trigger] s[i]).1) implies r@.contains(*s[i].0) by {
                if i < seen {
                    let j = choose|j: int| 0 <= j < old_r.len() && old_r[j] == *s[i].0;
                    assert(r@[j] == old_r[j]);
                } else {
                    assert(r@[r.len() - 1] == *k);
                }
            }
        }
        proof { seen = seen + 1; }
    }
    proof {
        assert forall|k: u32| links@.contains_key(k) && keep(links@[k]) implies r@.contains(k) by {
            assert(s.contains((&k, &links@[k])));
            let i = choose|i: int| 0 <= i < s.len() && s[i] == (&k, &links@[k]);
            assert(keep(*s[i].1));
        }
        assert forall|k: u32| r@.contains(k) implies links@.contains_key(k) && keep(links@[k]) by {
            let j = choose|j: int| 0 <= j < r.len() && r@[j] == k;
        }
    }
    r
}

/// Removes every key of `keys` from the map.
fn remove_port_keys(m: &mut HashMap<u32, Port>, keys: &Vec<u32>)
    ensures
        forall|k: u32| #[trigger] final(m)@.contains_key(k) <==> (old(m)@.contains_key(k) && !keys@.contains(k)),
        forall|k: u32| #[trigger] final(m)@.contains_key(k) ==> final(m)@[k] == old(m)@[k],
{
    let mut i: usize = 0;
    while i < keys.len()
        invariant
            i <= keys@.len(),
            forall|k: u32| #[trigger] m@.contains_key(k) <==> (old(m)@.contains_key(k) && !keys@.take(i as int).contains(k)),
            forall|k: u32| #[trigger] m@.contains_key(k) ==> m@[k] == old(m)@[k],
        decreases keys.len() - i,
    {
        let ghost before = keys@.take(i as int);
        m.remove(&keys[i]);
        i += 1;
        proof {
            assert(keys@.take(i as int) =~= before.push(keys@[i - 1]));
            assert forall|k: u32| keys@.take(i as int).contains(k) <==> (before.contains(k) || k == keys@[i - 1]) by {
                if k == keys@[i - 1] {
                    assert(keys@.take(i as int)[i - 1] == k);
                }
                if before.contains(k) {
                    let j = choose|j: int| 0 <= j < before.len() && before[j] == k;
                    assert(keys@.take(i as int)[j] == k);
                }
                if keys@.take(i as int).contains(k) {
                    let j = choose|j: int| 0 <= j < i && keys@.take(i as int)[j] == k;
                    if j < i - 1 {
                        assert(before[j] == k);
                    }
                }
            }
        }
    }
    proof {
        assert(keys@.take(keys@.len() as int) =~= keys@);
    }
}

/// Removes every key of `keys` from the map.
fn remove_link_keys(m: &mut HashMap<u32, Link>, keys: &Vec<u32>)
    ensures
        forall|k: u32| #[trigger] final(m)@.contains_key(k) <==> (old(m)@.contains_key(k) && !keys@.contains(k)),
        forall|k: u32| #[trigger] final(m)@.contains_key(k) ==> final(m)@[k] == old(m)@[k],
{
    let mut i: usize = 0;
    while i < keys.len()
        invariant
            i <= keys@.len(),
            forall|k: u32| #[trigger] m@.contains_key(k) <==> (old(m)@.contains_key(k) && !keys@.take(i as int).contains(k)),
            forall|k: u32| #[trigger] m@.contains_key(k) ==> m@[k] == old(m)@[k],
        decreases keys.len() - i,
    {
        let ghost before = keys@.take(i as int);
        m.remove(&keys[i]);
        i += 1;
        proof {
            assert(keys@.take(i as int) =~= before.push(keys@[i - 1]));
            assert forall|k: u32| keys@.take(i as int).contains(k) <==> (before.contains(k) || k == keys@[i - 1]) by {
                if k == keys@[i - 1] {
                    assert(keys@.take(i as int)[i - 1] == k);
                }
                if before.contains(k) {
                    let j = choose|j: int| 0 <= j < before.len() && before[j] == k;
                    assert(keys@.take(i as int)[j] == k);
                }
                if keys@.take(i as int).contains(k) {
                    let j = choose|j: int| 0 <= j < i && keys@.take(i as int)[j] == k;
                    if j < i - 1 {
                        assert(before[j] == k);
                    }
                }
            }
        }
    }
    proof {
        assert(keys@.take(keys@.len() as int) =~= keys@);
    }
}

/// Returns true if `x` occurs in `v`.
fn contains_port_id(v: &Vec<PortId>, x: PortId) -> (r: bool)
    ensures
        r == v@.contains(x),
{
    let mut i: usize = 0;
    while i < v.len()
        invariant
            i <= v@.len(),
            forall|k: int| 0 <= k < i ==> v@[k] != x,
        decreases v.len() - i,
    {
        if v[i] == x {
            return true;
        }
        i += 1;
    }
    false
}

impl Default for GraphState {
    fn default() -> (r: Self)
        ensures
            r.nodes@ == Map::<u32, Node>::empty(),
            r.ports@ == Map::<u32, Port>::empty(),
            r.links@ == Map::<u32, Link>::empty(),
            r.volume_control_failed@ == Map::<u32, String>::empty(),
    {
        GraphState {
            nodes: HashMap::new(),
            ports: HashMap::new(),
            links: HashMap::new(),
            volume_control_failed: HashMap::new(),
        }
    }
}

impl GraphState {
    /// Whether the graph's references are consistent.
    pub open spec fn consistent(&self) -> bool {
        graph_consistent(self.nodes@, self.ports@, self.links@)
    }

    /// Clears all graph data.
    pub fn clear(&mut self)
        ensures
            final(self).nodes@ == Map::<u32, Node>::empty(),
            final(self).ports@ == Map::<u32, Port>::empty(),
            final(self).links@ == Map::<u32, Link>::empty(),
            final(self).volume_control_failed@ == Map::<u32, String>::empty(),
    {
        self.nodes.clear();
        self.ports.clear();
        self.links.clear();
        self.volume_control_failed.clear();
    }

    /// Adds a node to the graph (replacing a node with the same id).
    pub fn add_node(&mut self, node: Node)
        ensures
            final(self).nodes@ == old(self).nodes@.insert(node.id.0, node),
            final(self).ports@ == old(self).ports@,
            final(self).links@ == old(self).links@,
            final(self).volume_control_failed@ == old(self).volume_control_failed@,
    {
        let id = node.id.0;
        self.nodes.insert(id, node);
    }

    /// Removes a node together with its ports and every link that touches it.
    pub fn remove_node(&mut self, id: &NodeId) -> (r: Option<Node>)
        ensures
            r == (if old(self).nodes@.contains_key(id.0) { Some(old(self).nodes@[id.0]) } else { None::<Node> }),
            final(self).nodes@ == old(self).nodes@.remove(id.0),
            final(self).ports@ == ports_without_node(old(self).ports@, *id),
            final(self).links@ == links_without_node(old(self).links@, *id),
            final(self).volume_control_failed@ == old(self).volume_control_failed@,
    {
        let port_keys = port_keys_of_node(&self.ports, *id);
        let ghost old_ports = self.ports@;
        remove_port_keys(&mut self.ports, &port_keys);
        proof {
            assert(self.ports@ =~= ports_without_node(old_ports, *id));
        }
        let link_keys = link_keys_touching(&self.links, true, *id, PortId(0));
        let ghost old_links = self.links@;
        remove_link_keys(&mut self.links, &link_keys);
        proof {
            assert(self.links@ =~= links_without_node(old_links, *id));
        }
        self.nodes.remove(&id.0)
    }

    /// Adds a port to the graph; its node, if present, lists the port once.
    pub fn add_port(&mut self, port: Port)
        ensures
            final(self).ports@ == old(self).ports@.insert(port.id.0, port),
            nodes_after_port_added(old(self).nodes@, final(self).nodes@, port),
            final(self).links@ == old(self).links@,
            final(self).volume_control_failed@ == old(self).volume_control_failed@,
    {
        let node_key = port.node_id.0;
        let port_id = port.id;
        match self.nodes.remove(&node_key) {
            Some(mut node) => {
                let ghost before = node;
                let present = contains_port_id(&node.port_ids, port_id);
                if !present {
                    node.port_ids.push(port_id);
                }
                proof {
                    assert(node == Node { port_ids: node.port_ids, ..before });
                }
                self.nodes.insert(node_key, node);
                proof {
                    assert(self.nodes@ =~= old(self).nodes@.insert(node_key, Node { port_ids: self.nodes@[node_key].port_ids, ..before }));
                }
            },
            None => {
                proof {
                    assert(self.nodes@ =~= old(self).nodes@);
                }
            },
        }
        self.ports.insert(port_id.0, port);
    }

    /// Removes a port, drops it from its node's port list, and removes every link that touches it.
    pub fn remove_port(&mut self, id: &PortId) -> (r: Option<Port>)
        ensures
            r == (if old(self).ports@.contains_key(id.0) { Some(old(self).ports@[id.0]) } else { None::<Port> }),
            final(self).ports@ == old(self).ports@.remove(id.0),
            final(self).links@ == links_without_port(old(self).links@, *id),
            nodes_after_port_removed(old(self).nodes@, old(self).ports@, final(self).nodes@, *id),
            final(self).volume_control_failed@ == old(self).volume_control_failed@,
    {
        let owner: Option<u32> = match self.ports.get(&id.0) {
            Some(p) => Some(p.node_id.0),
            None => None,
        };
        match owner {
            Some(owner_key) => {
                match self.nodes.remove(&owner_key) {
                    Some(mut node) => {
                        let ghost before = node;
                        let mut kept: Vec<PortId> = Vec::new();
                        let mut i: usize = 0;
                        while i < node.port_ids.len()
                            invariant
                                i <= node.port_ids@.len(),
                                kept@ == without_id(node.port_ids@.take(i as int), *id),
                            decreases node.port_ids.len() - i,
                        {
                            let pid = node.port_ids[i];
                            proof {
                                assert(node.port_ids@.take(i + 1).drop_last() =~= node.port_ids@.take(i as int));
                                assert(node.port_ids@.take(i + 1).last() == pid);
                            }
                            if pid != *id {
                                kept.push(pid);
                            }
                            i += 1;
                        }
                        proof {
                            assert(node.port_ids@.take(node.port_ids@.len() as int) =~= node.port_ids@);
                        }
                        node.port_ids = kept;
                        proof {
                            assert(node == Node { port_ids: node.port_ids, ..before });
                        }
                        self.nodes.insert(owner_key, node);
                        proof {
                            assert(self.nodes@ =~= old(self).nodes@.insert(owner_key, Node { port_ids: self.nodes@[owner_key].port_ids, ..before }));
                        }
                    },
                    None => {
                        proof {
                            assert(self.nodes@ =~= old(self).nodes@);
                        }
                    },
                }
            },
            None => {},
        }
        let link_keys = link_keys_touching(&self.links, false, NodeId(0), *id);
        let ghost old_links = self.links@;
        remove_link_keys(&mut self.links, &link_keys);
        proof {
            assert(self.links@ =~= links_without_port(old_links, *id));
        }
        self.ports.remove(&id.0)
    }

    /// Adds a link to the graph (replacing a link with the same id).
    pub fn add_link(&mut self, link: Link)
        ensures
            final(self).links@ == old(self).links@.insert(link.id.0, link),
            final(self).nodes@ == old(self).nodes@,
            final(self).ports@ == old(self).ports@,
            final(self).volume_control_failed@ == old(self).volume_control_failed@,
    {
        self.links.insert(link.id.0, link);
    }

    /// Removes a link.
    pub fn remove_link(&mut self, id: &LinkId) -> (r: Option<Link>)
        ensures
            r == (if old(self).links@.contains_key(id.0) { Some(old(self).links@[id.0]) } else { None::<Link> }),
            final(self).links@ == old(self).links@.remove(id.0),
            final(self).nodes@ == old(self).nodes@,
            final(self).ports@ == old(self).ports@,
            final(self).volume_control_failed@ == old(self).volume_control_failed@,
    {
        self.links.remove(&id.0)
    }

    /// Gets a node by ID.
    pub fn get_node(&self, id: &NodeId) -> (r: Option<&Node>)
        ensures
            r == (if self.nodes@.contains_key(id.0) { Some(&self.nodes@[id.0]) } else { None }),
    {
        self.nodes.get(&id.0)
    }

    /// Gets a port by ID.
    pub fn get_port(&self, id: &PortId) -> (r: Option<&Port>)
        ensures
            r == (if self.ports@.contains_key(id.0) { Some(&self.ports@[id.0]) } else { None }),
    {
        self.ports.get(&id.0)
    }

    /// Gets a link by ID.
    pub fn get_link(&self, id: &LinkId) -> (r: Option<&Link>)
        ensures
            r == (if self.links@.contains_key(id.0) { Some(&self.links@[id.0]) } else { None }),
    {
        self.links.get(&id.0)
    }

    /// Gets all ports of a node, each once (in the map's iteration order).
    pub fn ports_for_node(&self, node_id: &NodeId) -> (r: Vec<&Port>)
        ensures
            exactly_values(r@.map_values(|p: &Port| *p), self.ports@, |k: u32| self.ports@[k].node_id == *node_id),
    {
        let ghost m = self.ports@;
        let ghost keep = |k: u32| self.ports@[k].node_id == *node_id;
        let mut r: Vec<&Port> = Vec::new();
        let ghost mut ks: Seq<u32> = Seq::empty();
        let entries = self.ports.iter();
        let ghost s = vstd::std_specs::iter::IteratorSpec::remaining(&entries);
        let ghost mut seen: int = 0;
        proof {
            assert(s.no_duplicates());
            assert(s == vstd::std_specs::iter::IteratorSpec::remaining(&vstd::std_specs::hash::spec_hash_map_iter(&self.ports)));
        }
        for (k, v) in it: entries
            invariant
                it.seq() == s,
                seen == it.index(),
                m == self.ports@,
                s.no_duplicates(),
                s == vstd::std_specs::iter::IteratorSpec::remaining(&vstd::std_specs::hash::spec_hash_map_iter(&self.ports)),
                keep == (|k: u32| self.ports@[k].node_id == *node_id),
                ks.len() == r@.len(),
                ks.no_duplicates(),
                forall|i: int| 0 <= i < ks.len() ==> m.contains_key(#[trigger] ks[i]) && keep(ks[i]) && m[ks[i]] == *r@[i],
                forall|i: int| 0 <= i < ks.len() ==> exists|j: int| 0 <= j < seen && #[trigger] ks[i] == *s[j].0,
                forall|j: int| 0 <= j < seen ==> keep(*(#[trigger] s[j]).0) ==> ks.contains(*s[j].0),
        {
            assert(s[seen as int] == (k, v));
            assert(m.contains_key(*k) && m[*k] == *v);
            if v.node_id == *node_id {
                proof {
                    assert(!ks.contains(*k)) by {
                        if ks.contains(*k) {
                            let i = choose|i: int| 0 <= i < ks.len() && ks[i] == *k;
                            let j = choose|j: int| 0 <= j < seen && ks[i] == *s[j].0;
                            assert(s[j].0 == s[seen].0);
                            assert(m[*s[j].0] == *s[j].1);
                            assert(s[j] == s[seen]);
                        }
                    }
                }
                let ghost old_ks = ks;
                r.push(v);
                proof {
                    ks = ks.push(*k);
                    assert forall|i: int| 0 <= i < ks.len() implies exists|j: int| 0 <= j < seen + 1 && #[trigger] ks[i] == *s[j].0 by {
                        if i < old_ks.len() {
                            assert(ks[i] == old_ks[i]);
                        } else {
                            assert(ks[i] == *s[seen].0);
                        }
                    }
                    assert forall|j: int| 0 <= j < seen + 1 && keep(*(#[trigger] s[j]).0) implies ks.contains(*s[j].0) by {
                        if j < seen {
                            let i = choose|i: int| 0 <= i < old_ks.len() && old_ks[i] == *s[j].0;
                            assert(ks[i] == old_ks[i]);
                        } else {
                            assert(ks[ks.len() - 1] == *k);
                        }
                    }
                }
            }
            proof { seen = seen + 1; }
        }
        proof {
            assert forall|k: u32| m.contains_key(k) && keep(k) implies #[trigger] ks.contains(k) by {
                assert(s.contains((&k, &m[k])));
                let j = choose|j: int| 0 <= j < s.len() && s[j] == (&k, &m[k]);
                assert(keep(*s[j].0));
            }
            let rv = r@.map_values(|p: &Port| *p);
            assert forall|i: int| 0 <= i < ks.len() implies m.contains_key(#[trigger] ks[i]) && keep(ks[i]) && m[ks[i]] == rv[i] by {
                assert(rv[i] == *r@[i]);
            }
        }
        r
    }

    /// Gets all links connected to a node at either end, each once (in the map's iteration order).
    pub fn links_for_node(&self, node_id: &NodeId) -> (r: Vec<Link>)
        ensures
            exactly_values(r@, self.links@, |k: u32| link_touches_node(self.links@[k], *node_id)),
    {
        let ghost m = self.links@;
        let ghost keep = |k: u32| link_touches_node(self.links@[k], *node_id);
        let mut r: Vec<Link> = Vec::new();
        let ghost mut ks: Seq<u32> = Seq::empty();
        let entries = self.links.iter();
        let ghost s = vstd::std_specs::iter::IteratorSpec::remaining(&entries);
        let ghost mut seen: int = 0;
        proof {
            assert(s.no_duplicates());
            assert(s == vstd::std_specs::iter::IteratorSpec::remaining(&vstd::std_specs::hash::spec_hash_map_iter(&self.links)));
        }
        for (k, v) in it: entries
            invariant
                it.seq() == s,
                seen == it.index(),
                m == self.links@,
                s.no_duplicates(),
                s == vstd::std_specs::iter::IteratorSpec::remaining(&vstd::std_specs::hash::spec_hash_map_iter(&self.links)),
                keep == (|k: u32| link_touches_node(self.links@[k], *node_id)),
                ks.len() == r@.len(),
                ks.no_duplicates(),
                forall|i: int| 0 <= i < ks.len() ==> m.contains_key(#[trigger] ks[i]) && keep(ks[i]) && m[ks[i]] == r@[i],
                forall|i: int| 0 <= i < ks.len() ==> exists|j: int| 0 <= j < seen && #[trigger] ks[i] == *s[j].0,
                forall|j: int| 0 <= j < seen ==> keep(*(#[trigger] s[j]).0) ==> ks.contains(*s[j].0),
        {
            assert(s[seen as int] == (k, v));
            assert(m.contains_key(*k) && m[*k] == *v);
            if v.output_node == *node_id || v.input_node == *node_id {
                proof {
                    assert(!ks.contains(*k)) by {
                        if ks.contains(*k) {
                            let i = choose|i: int| 0 <= i < ks.len() && ks[i] == *k;
                            let j = choose|j: int| 0 <= j < seen && ks[i] == *s[j].0;
                            assert(s[j].0 == s[seen].0);
                            assert(m[*s[j].0] == *s[j].1);
                            assert(s[j] == s[seen]);
                        }
                    }
                }
                let ghost old_ks = ks;
                r.push(*v);
                proof {
                    ks = ks.push(*k);
                    assert forall|i: int| 0 <= i < ks.len() implies exists|j: int| 0 <= j < seen + 1 && #[trigger] ks[i] == *s[j].0 by {
                        if i < old_ks.len() {
                            assert(ks[i] == old_ks[i]);
                        } else {
                            assert(ks[i] == *s[seen].0);
                        }
                    }
                    assert forall|j: int| 0 <= j < seen + 1 && keep(*(#[trigger] s[j]).0) implies ks.contains(*s[j].0) by {
                        if j < seen {
                            let i = choose|i: int| 0 <= i < old_ks.len() && old_ks[i] == *s[j].0;
                            assert(ks[i] == old_ks[i]);
                        } else {
                            assert(ks[ks.len() - 1] == *k);
                        }
                    }
                }
            }
            proof { seen = seen + 1; }
        }
        proof {
            assert forall|k: u32| m.contains_key(k) && keep(k) implies #[trigger] ks.contains(k) by {
                assert(s.contains((&k, &m[k])));
                let j = choose|j: int| 0 <= j < s.len() && s[j] == (&k, &m[k]);
                assert(keep(*s[j].0));
            }
        }
        r
    }

    /// Gets all ports, each once (in the map's iteration order).
    pub fn all_ports(&self) -> (r: Vec<&Port>)
        ensures
            exactly_values(r@.map_values(|p: &Port| *p), self.ports@, every_key()),
    {
        let ghost m = self.ports@;
        let ghost keep = every_key();
        let mut r: Vec<&Port> = Vec::new();
        let ghost mut ks: Seq<u32> = Seq::empty();
        let entries = self.ports.iter();
        let ghost s = vstd::std_specs::iter::IteratorSpec::remaining(&entries);
        let ghost mut seen: int = 0;
        proof {
            assert(s.no_duplicates());
            assert(s == vstd::std_specs::iter::IteratorSpec::remaining(&vstd::std_specs::hash::spec_hash_map_iter(&self.ports)));
        }
        for (k, v) in it: entries
            invariant
                it.seq() == s,
                seen == it.index(),
                m == self.ports@,
                s.no_duplicates(),
                s == vstd::std_specs::iter::IteratorSpec::remaining(&vstd::std_specs::hash::spec_hash_map_iter(&self.ports)),
                keep == every_key(),
                ks.len() == r@.len(),
                ks.no_duplicates(),
                forall|i: int| 0 <= i < ks.len() ==> m.contains_key(#[trigger] ks[i]) && keep(ks[i]) && m[ks[i]] == *r@[i],
                forall|i: int| 0 <= i < ks.len() ==> exists|j: int| 0 <= j < seen && #[trigger] ks[i] == *s[j].0,
                forall|j: int| 0 <= j < seen ==> keep(*(#[trigger] s[j]).0) ==> ks.contains(*s[j].0),
        {
            assert(s[seen as int] == (k, v));
            assert(m.contains_key(*k) && m[*k] == *v);
            {
                proof {
                    assert(!ks.contains(*k)) by {
                        if ks.contains(*k) {
                            let i = choose|i: int| 0 <= i < ks.len() && ks[i] == *k;
                            let j = choose|j: int| 0 <= j < seen && ks[i] == *s[j].0;
                            assert(s[j].0 == s[seen].0);
                            assert(m[*s[j].0] == *s[j].1);
                            assert(s[j] == s[seen]);
                        }
                    }
                }
                let ghost old_ks = ks;
                r.push(v);
                proof {
                    ks = ks.push(*k);
                    assert forall|i: int| 0 <= i < ks.len() implies exists|j: int| 0 <= j < seen + 1 && #[trigger] ks[i] == *s[j].0 by {
                        if i < old_ks.len() {
                            assert(ks[i] == old_ks[i]);
                        } else {
                            assert(ks[i] == *s[seen].0);
                        }
                    }
                    assert forall|j: int| 0 <= j < seen + 1 && keep(*(#[trigger] s[j]).0) implies ks.contains(*s[j].0) by {
                        if j < seen {
                            let i = choose|i: int| 0 <= i < old_ks.len() && old_ks[i] == *s[j].0;
                            assert(ks[i] == old_ks[i]);
                        } else {
                            assert(ks[ks.len() - 1] == *k);
                        }
                    }
                }
            }
            proof { seen = seen + 1; }
        }
        proof {
            assert forall|k: u32| m.contains_key(k) && keep(k) implies #[trigger] ks.contains(k) by {
                assert(s.contains((&k, &m[k])));
                let j = choose|j: int| 0 <= j < s.len() && s[j] == (&k, &m[k]);
                assert(keep(*s[j].0));
            }
            let rv = r@.map_values(|p: &Port| *p);
            assert forall|i: int| 0 <= i < ks.len() implies m.contains_key(#[trigger] ks[i]) && keep(ks[i]) && m[ks[i]] == rv[i] by {
                assert(rv[i] == *r@[i]);
            }
        }
        r
    }

    /// Gets all nodes, each once (in the map's iteration order).
    pub fn all_nodes(&self) -> (r: Vec<&Node>)
        ensures
            exactly_values(r@.map_values(|p: &Node| *p), self.nodes@, every_key()),
    {
        let ghost m = self.nodes@;
        let ghost keep = every_key();
        let mut r: Vec<&Node> = Vec::new();
        let ghost mut ks: Seq<u32> = Seq::empty();
        let entries = self.nodes.iter();
        let ghost s = vstd::std_specs::iter::IteratorSpec::remaining(&entries);
        let ghost mut seen: int = 0;
        proof {
            assert(s.no_duplicates());
            assert(s == vstd::std_specs::iter::IteratorSpec::remaining(&vstd::std_specs::hash::spec_hash_map_iter(&self.nodes)));
        }
        for (k, v) in it: entries
            invariant
                it.seq() == s,
                seen == it.index(),
                m == self.nodes@,
                s.no_duplicates(),
                s == vstd::std_specs::iter::IteratorSpec::remaining(&vstd::std_specs::hash::spec_hash_map_iter(&self.nodes)),
                keep == every_key(),
                ks.len() == r@.len(),
                ks.no_duplicates(),
                forall|i: int| 0 <= i < ks.len() ==> m.contains_key(#[trigger] ks[i]) && keep(ks[i]) && m[ks[i]] == *r@[i],
                forall|i: int| 0 <= i < ks.len() ==> exists|j: int| 0 <= j < seen && #[trigger] ks[i] == *s[j].0,
                forall|j: int| 0 <= j < seen ==> keep(*(#[trigger] s[j]).0) ==> ks.contains(*s[j].0),
        {
            assert(s[seen as int] == (k, v));
            assert(m.contains_key(*k) && m[*k] == *v);
            {
                proof {
                    assert(!ks.contains(*k)) by {
                        if ks.contains(*k) {
                            let i = choose|i: int| 0 <= i < ks.len() && ks[i] == *k;
                            let j = choose|j: int| 0 <= j < seen && ks[i] == *s[j].0;
                            assert(s[j].0 == s[seen].0);
                            assert(m[*s[j].0] == *s[j].1);
                            assert(s[j] == s[seen]);
                        }
                    }
                }
                let ghost old_ks = ks;
                r.push(v);
                proof {
                    ks = ks.push(*k);
                    assert forall|i: int| 0 <= i < ks.len() implies exists|j: int| 0 <= j < seen + 1 && #[trigger] ks[i] == *s[j].0 by {
                        if i < old_ks.len() {
                            assert(ks[i] == old_ks[i]);
                        } else {
                            assert(ks[i] == *s[seen].0);
                        }
                    }
                    assert forall|j: int| 0 <= j < seen + 1 && keep(*(#[trigger] s[j]).0) implies ks.contains(*s[j].0) by {
                        if j < seen {
                            let i = choose|i: int| 0 <= i < old_ks.len() && old_ks[i] == *s[j].0;
                            assert(ks[i] == old_ks[i]);
                        } else {
                            assert(ks[ks.len() - 1] == *k);
                        }
                    }
                }
            }
            proof { seen = seen + 1; }
        }
        proof {
            assert forall|k: u32| m.contains_key(k) && keep(k) implies #[trigger] ks.contains(k) by {
                assert(s.contains((&k, &m[k])));
                let j = choose|j: int| 0 <= j < s.len() && s[j] == (&k, &m[k]);
                assert(keep(*s[j].0));
            }
            let rv = r@.map_values(|p: &Node| *p);
            assert forall|i: int| 0 <= i < ks.len() implies m.contains_key(#[trigger] ks[i]) && keep(ks[i]) && m[ks[i]] == rv[i] by {
                assert(rv[i] == *r@[i]);
            }
        }
        r
    }

    /// The id of a link from the output port to the input port, if any (any one
    /// of them when there are several).
    pub fn find_link_between(&self, output_port: PortId, input_port: PortId) -> (r: Option<LinkId>)
        ensures
            match r {
                Some(id) => exists|k: u32| #![trigger self.links@[k]] self.links@.contains_key(k) && self.links@[k].id == id
                    && self.links@[k].output_port == output_port && self.links@[k].input_port == input_port,
                None => forall|k: u32| #![trigger self.links@[k]] self.links@.contains_key(k)
                    ==> !(self.links@[k].output_port == output_port && self.links@[k].input_port == input_port),
            },
    {
        let links = self.all_links();
        proof {
            lemma_values_cover(links@, self.links@);
        }
        let mut i: usize = 0;
        while i < links.len()
            invariant
                i <= links@.len(),
                forall|j: int| 0 <= j < links@.len() ==> #[trigger] value_in_map(self.links@, links@[j]),
                forall|k: u32| self.links@.contains_key(k) ==> #[trigger] value_in_seq(links@, self.links@[k]),
                forall|j: int| 0 <= j < i ==> !(#[trigger] links@[j].output_port == output_port && links@[j].input_port == input_port),
            decreases links.len() - i,
        {
            if links[i].output_port == output_port && links[i].input_port == input_port {
                proof {
                    assert(value_in_map(self.links@, links@[i as int]));
                    let k = choose|k: u32| self.links@.contains_key(k) && self.links@[k] == links@[i as int];
                    assert(self.links@[k].id == links@[i as int].id);
                }
                return Some(links[i].id);
            }
            i += 1;
        }
        proof {
            assert forall|k: u32| #![trigger self.links@[k]] self.links@.contains_key(k)
                implies !(self.links@[k].output_port == output_port && self.links@[k].input_port == input_port) by {
                assert(value_in_seq(links@, self.links@[k]));
                let j = choose|j: int| 0 <= j < links@.len() && links@[j] == self.links@[k];
                assert(!(links@[j].output_port == output_port && links@[j].input_port == input_port));
            }
        }
        None
    }

    /// Gets all links, each once (in the map's iteration order).
    pub fn all_links(&self) -> (r: Vec<Link>)
        ensures
            exactly_values(r@, self.links@, every_key()),
    {
        let ghost m = self.links@;
        let ghost keep = every_key();
        let mut r: Vec<Link> = Vec::new();
        let ghost mut ks: Seq<u32> = Seq::empty();
        let entries = self.links.iter();
        let ghost s = vstd::std_specs::iter::IteratorSpec::remaining(&entries);
        let ghost mut seen: int = 0;
        proof {
            assert(s.no_duplicates());
            assert(s == vstd::std_specs::iter::IteratorSpec::remaining(&vstd::std_specs::hash::spec_hash_map_iter(&self.links)));
        }
        for (k, v) in it: entries
            invariant
                it.seq() == s,
                seen == it.index(),
                m == self.links@,
                s.no_duplicates(),
                s == vstd::std_specs::iter::IteratorSpec::remaining(&vstd::std_specs::hash::spec_hash_map_iter(&self.links)),
                keep == every_key(),
                ks.len() == r@.len(),
                ks.no_duplicates(),
                forall|i: int| 0 <= i < ks.len() ==> m.contains_key(#[trigger] ks[i]) && keep(ks[i]) && m[ks[i]] == r@[i],
                forall|i: int| 0 <= i < ks.len() ==> exists|j: int| 0 <= j < seen && #[trigger] ks[i] == *s[j].0,
                forall|j: int| 0 <= j < seen ==> keep(*(#[trigger] s[j]).0) ==> ks.contains(*s[j].0),
        {
            assert(s[seen as int] == (k, v));
            assert(m.contains_key(*k) && m[*k] == *v);
            {
                proof {
                    assert(!ks.contains(*k)) by {
                        if ks.contains(*k) {
                            let i = choose|i: int| 0 <= i < ks.len() && ks[i] == *k;
                            let j = choose|j: int| 0 <= j < seen && ks[i] == *s[j].0;
                            assert(s[j].0 == s[seen].0);
                            assert(m[*s[j].0] == *s[j].1);
                            assert(s[j] == s[seen]);
                        }
                    }
                }
                let ghost old_ks = ks;
                r.push(*v);
                proof {
                    ks = ks.push(*k);
                    assert forall|i: int| 0 <= i < ks.len() implies exists|j: int| 0 <= j < seen + 1 && #[trigger] ks[i] == *s[j].0 by {
                        if i < old_ks.len() {
                            assert(ks[i] == old_ks[i]);
                        } else {
                            assert(ks[i] == *s[seen].0);
                        }
                    }
                    assert forall|j: int| 0 <= j < seen + 1 && keep(*(#[trigger] s[j]).0) implies ks.contains(*s[j].0) by {
                        if j < seen {
                            let i = choose|i: int| 0 <= i < old_ks.len() && old_ks[i] == *s[j].0;
                            assert(ks[i] == old_ks[i]);
                        } else {
                            assert(ks[ks.len() - 1] == *k);
                        }
                    }
                }
            }
            proof { seen = seen + 1; }
        }
        proof {
            assert forall|k: u32| m.contains_key(k) && keep(k) implies #[trigger] ks.contains(k) by {
                assert(s.contains((&k, &m[k])));
                let j = choose|j: int| 0 <= j < s.len() && s[j] == (&k, &m[k]);
                assert(keep(*s[j].0));
            }
        }
        r
    }
}

}
verus! {

/// Every element of the vector is a value of the map and every value of the map is in the vector.
pub proof fn lemma_values_cover<V>(r: Seq<V>, m: Map<u32, V>)
    requires
        exactly_values(r, m, every_key()),
    ensures
        forall|i: int| 0 <= i < r.len() ==> #[trigger] value_in_map(m, r[i]),
        forall|k: u32| m.contains_key(k) ==> #[trigger] value_in_seq(r, m[k]),
{
    let keep = every_key();
    let ks = choose|ks: Seq<u32>| {
        &&& ks.no_duplicates()
        &&& ks.len() == r.len()
        &&& forall|i: int| 0 <= i < ks.len() ==> m.contains_key(#[trigger] ks[i]) && keep(ks[i]) && m[ks[i]] == r[i]
        &&& forall|k: u32| m.contains_key(k) && keep(k) ==> #[trigger] ks.contains(k)
    };
    assert forall|i: int| 0 <= i < r.len() implies #[trigger] value_in_map(m, r[i]) by {
        assert(m.contains_key(ks[i]) && m[ks[i]] == r[i]);
    }
    assert forall|k: u32| m.contains_key(k) implies #[trigger] value_in_seq(r, m[k]) by {
        assert(keep(k));
        assert(ks.contains(k));
        let i = choose|i: int| 0 <= i < ks.len() && ks[i] == k;
        assert(r[i] == m[k]);
    }
}

/// The value is held under some key of the map.
pub open spec fn value_in_map<V>(m: Map<u32, V>, v: V) -> bool {
    exists|k: u32| m.contains_key(k) && m[k] == v
}

/// The value is an element of the sequence.
pub open spec fn value_in_seq<V>(r: Seq<V>, v: V) -> bool {
    exists|i: int| 0 <= i < r.len() && r[i] == v
}

/// An empty graph is consistent.
pub proof fn lemma_empty_consistent()
    ensures
        graph_consistent(Map::empty(), Map::empty(), Map::empty()),
{
}

/// Adding a node keeps the graph consistent.
pub proof fn lemma_add_node_consistent(nodes: Map<u32, Node>, ports: Map<u32, Port>, links: Map<u32, Link>, node: Node)
    requires
        graph_consistent(nodes, ports, links),
    ensures
        graph_consistent(nodes.insert(node.id.0, node), ports, links),
{
}

/// Adding a port to a node of the graph keeps the graph consistent, provided it
/// does not move an existing port id to another node.
pub proof fn lemma_add_port_consistent(
    nodes: Map<u32, Node>,
    nodes_after: Map<u32, Node>,
    ports: Map<u32, Port>,
    links: Map<u32, Link>,
    port: Port,
)
    requires
        graph_consistent(nodes, ports, links),
        nodes.contains_key(port.node_id.0),
        nodes_after.dom() == nodes.dom(),
        ports.contains_key(port.id.0) ==> ports[port.id.0].node_id == port.node_id,
    ensures
        graph_consistent(nodes_after, ports.insert(port.id.0, port), links),
{
}

/// Adding a link between ports of the graph that belong to the nodes it names
/// keeps the graph consistent.
pub proof fn lemma_add_link_consistent(nodes: Map<u32, Node>, ports: Map<u32, Port>, links: Map<u32, Link>, link: Link)
    requires
        graph_consistent(nodes, ports, links),
        ports.contains_key(link.output_port.0),
        ports.contains_key(link.input_port.0),
        ports[link.output_port.0].node_id == link.output_node,
        ports[link.input_port.0].node_id == link.input_node,
    ensures
        graph_consistent(nodes, ports, links.insert(link.id.0, link)),
{
}

/// Removing a node with its ports and links keeps the graph consistent.
pub proof fn lemma_remove_node_consistent(nodes: Map<u32, Node>, ports: Map<u32, Port>, links: Map<u32, Link>, id: NodeId)
    requires
        graph_consistent(nodes, ports, links),
    ensures
        graph_consistent(nodes.remove(id.0), ports_without_node(ports, id), links_without_node(links, id)),
{
    let p2 = ports_without_node(ports, id);
    let l2 = links_without_node(links, id);
    assert forall|k: u32| #[trigger] p2.contains_key(k) implies nodes.remove(id.0).contains_key(p2[k].node_id.0) by {
        assert(ports[k].node_id != id);
    }
    assert forall|k: u32| #[trigger] l2.contains_key(k) implies p2.contains_key(l2[k].output_port.0) && p2.contains_key(l2[k].input_port.0) by {
        let l = links[k];
        assert(ports[l.output_port.0].node_id == l.output_node);
        assert(ports[l.input_port.0].node_id == l.input_node);
    }
}

/// Removing a port with its links keeps the graph consistent; the nodes may
/// change only their port lists.
pub proof fn lemma_remove_port_consistent(
    nodes: Map<u32, Node>,
    nodes_after: Map<u32, Node>,
    ports: Map<u32, Port>,
    links: Map<u32, Link>,
    id: PortId,
)
    requires
        graph_consistent(nodes, ports, links),
        nodes_after.dom() == nodes.dom(),
    ensures
        graph_consistent(nodes_after, ports.remove(id.0), links_without_port(links, id)),
{
    let l2 = links_without_port(links, id);
    assert forall|k: u32| #[trigger] l2.contains_key(k) implies ports.remove(id.0).contains_key(l2[k].output_port.0)
        && ports.remove(id.0).contains_key(l2[k].input_port.0) by {
        assert(links[k].output_port != id);
        assert(links[k].input_port != id);
    }
    assert forall|k: u32| #[trigger] ports.remove(id.0).contains_key(k) implies nodes_after.contains_key(ports.remove(id.0)[k].node_id.0) by {
        assert(nodes.contains_key(ports[k].node_id.0));
    }
}

/// Removing a link keeps the graph consistent.
pub proof fn lemma_remove_link_consistent(nodes: Map<u32, Node>, ports: Map<u32, Port>, links: Map<u32, Link>, id: LinkId)
    requires
        graph_consistent(nodes, ports, links),
    ensures
        graph_consistent(nodes, ports, links.remove(id.0)),
{
}

/// After removing a node, no port belongs to it and no link touches it.
pub proof fn lemma_remove_node_leaves_nothing(ports: Map<u32, Port>, links: Map<u32, Link>, id: NodeId)
    ensures
        forall|k: u32| #[trigger] ports_without_node(ports, id).contains_key(k) ==> ports_without_node(ports, id)[k].node_id != id,
        forall|k: u32| #[trigger] links_without_node(links, id).contains_key(k) ==> !link_touches_node(links_without_node(links, id)[k], id),
        forall|k: u32| ports.contains_key(k) && ports[k].node_id != id ==> #[trigger] ports_without_node(ports, id).contains_key(k),
        forall|k: u32| links.contains_key(k) && !link_touches_node(links[k], id) ==> #[trigger] links_without_node(links, id).contains_key(k),
{
}

}
