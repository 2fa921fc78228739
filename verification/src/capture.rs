//! Turning what is linked now into saved connections: a connection rule from
//! a node's links, and the connection list of a snapshot.
//!
//! The graph's links have no fixed order, so each result lists what it
//! describes one for one, in some order.

use vstd::prelude::*;

use crate::graph::{Link, Node, Port};
use crate::graph_state::{GraphState, every_key, exactly_values};
use crate::ids::{NodeId, NodeIdentifier, RuleId};
use crate::snapshots::SnapshotConnection;
use crate::reconcile::opt_text;
use crate::rules::{ConnectionRule, ConnectionSpec, MatchPattern, RuleManager, RuleTrigger, app_text, default_rule_name};
use crate::text::{owned, push_str};

verus! {

/// Both ports of the link and both of its nodes are in the graph.
pub open spec fn link_resolves(g: GraphState, l: Link) -> bool {
    &&& g.ports@.contains_key(l.output_port.0)
    &&& g.ports@.contains_key(l.input_port.0)
    &&& g.nodes@.contains_key(l.output_node.0)
    &&& g.nodes@.contains_key(l.input_node.0)
}

/// The link has the node at one of its ends.
pub open spec fn touches(l: Link, node: NodeId) -> bool {
    l.output_node == node || l.input_node == node
}

/// The pattern names exactly the node's application (empty when it has none),
/// the node's name and the port's name.
pub open spec fn pattern_exact(p: MatchPattern, n: Node, port: Port) -> bool {
    &&& p.app_name@ == opt_text(n.application_name)
    &&& p.node_name@ == n.name@
    &&& p.port_name@ == port.name@
}

/// The specification names exactly the two ends of the link.
pub open spec fn spec_describes(c: ConnectionSpec, g: GraphState, l: Link) -> bool {
    &&& pattern_exact(c.output_pattern, g.nodes@[l.output_node.0], g.ports@[l.output_port.0])
    &&& pattern_exact(c.input_pattern, g.nodes@[l.input_node.0], g.ports@[l.input_port.0])
}

/// The links that a rule for the node records: those at the node that resolve.
pub open spec fn recorded(g: GraphState, node: NodeId) -> spec_fn(u32) -> bool {
    |k: u32| touches(g.links@[k], node) && link_resolves(g, g.links@[k])
}

/// `r` describes, one for one, the links of the graph whose keys satisfy `keep`.
pub open spec fn specs_for_links(r: Seq<ConnectionSpec>, g: GraphState, keep: spec_fn(u32) -> bool) -> bool {
    exists|ks: Seq<u32>| {
        &&& ks.no_duplicates()
        &&& ks.len() == r.len()
        &&& forall|i: int| 0 <= i < ks.len() ==> g.links@.contains_key(#[trigger] ks[i]) && keep(ks[i])
            && spec_describes(r[i], g, g.links@[ks[i]])
        &&& forall|k: u32| g.links@.contains_key(k) && keep(k) ==> #[trigger] ks.contains(k)
    }
}

/// The application name of a node as an optional string slice.
fn app_of(n: &Node) -> (r: Option<&str>)
    ensures
        app_text(r) == opt_text(n.application_name),
{
    match &n.application_name {
        Some(a) => Some(a.as_str()),
        None => None,
    }
}

/// The exact connection specifications of the links at a node whose ports and
/// nodes are all known, one per link.
pub fn node_connection_specs(g: &GraphState, node_id: NodeId) -> (r: Vec<ConnectionSpec>)
    ensures
        specs_for_links(r@, *g, recorded(*g, node_id)),
{
    let links = g.all_links();
    let ghost keep = recorded(*g, node_id);
    let ghost ks_all = choose|ks: Seq<u32>| {
        &&& ks.no_duplicates()
        &&& ks.len() == links@.len()
        &&& forall|i: int| 0 <= i < ks.len() ==> g.links@.contains_key(#[trigger] ks[i]) && every_key()(ks[i]) && g.links@[ks[i]] == links@[i]
        &&& forall|k: u32| g.links@.contains_key(k) && every_key()(k) ==> #[trigger] ks.contains(k)
    };
    let mut r: Vec<ConnectionSpec> = Vec::new();
    let ghost mut ks: Seq<u32> = Seq::empty();
    let mut i: usize = 0;
    while i < links.len()
        invariant
            i <= links@.len(),
            keep == recorded(*g, node_id),
            ks_all.no_duplicates(),
            ks_all.len() == links@.len(),
            forall|m: int| 0 <= m < ks_all.len() ==> g.links@.contains_key(#[trigger] ks_all[m]) && g.links@[ks_all[m]] == links@[m],
            forall|k: u32| g.links@.contains_key(k) ==> #[trigger] ks_all.contains(k),
            ks.no_duplicates(),
            ks.len() == r@.len(),
            forall|j: int| 0 <= j < ks.len() ==> g.links@.contains_key(#[trigger] ks[j]) && keep(ks[j])
                && spec_describes(r@[j], *g, g.links@[ks[j]]),
            forall|j: int| #![trigger ks[j]] 0 <= j < ks.len() ==> exists|m: int| 0 <= m < i && #[trigger] ks_all[m] == ks[j],
            forall|m: int| 0 <= m < i && keep(#[trigger] ks_all[m]) ==> ks.contains(ks_all[m]),
        decreases links.len() - i,
    {
        let l = links[i];
        let ghost k = ks_all[i as int];
        proof {
            assert(g.links@[k] == l);
        }
        if l.output_node == node_id || l.input_node == node_id {
            match (g.get_port(&l.output_port), g.get_port(&l.input_port), g.get_node(&l.output_node), g.get_node(&l.input_node)) {
                (Some(out_port), Some(in_port), Some(out_node), Some(in_node)) => {
                    let output_pattern = MatchPattern::exact(app_of(out_node), out_node.name.as_str(), out_port.name.as_str());
                    let input_pattern = MatchPattern::exact(app_of(in_node), in_node.name.as_str(), in_port.name.as_str());
                    let ghost old_ks = ks;
                    proof {
                        assert(!ks.contains(k)) by {
                            if ks.contains(k) {
                                let j = choose|j: int| 0 <= j < ks.len() && ks[j] == k;
                                let m = choose|m: int| 0 <= m < i && #[trigger] ks_all[m] == ks[j];
                                assert(ks_all[m] == ks_all[i as int]);
                            }
                        }
                    }
                    r.push(ConnectionSpec::new(output_pattern, input_pattern));
                    proof {
                        ks = ks.push(k);
                        assert(keep(k));
                        assert forall|j: int| #![trigger ks[j]] 0 <= j < ks.len() implies exists|m: int| 0 <= m < i + 1 && #[trigger] ks_all[m] == ks[j] by {
                            if j < old_ks.len() {
                                assert(ks[j] == old_ks[j]);
                            } else {
                                assert(ks_all[i as int] == ks[j]);
                            }
                        }
                        assert forall|m: int| 0 <= m < i + 1 && keep(#[trigger] ks_all[m]) implies ks.contains(ks_all[m]) by {
                            if m < i {
                                let j = choose|j: int| 0 <= j < old_ks.len() && old_ks[j] == ks_all[m];
                                assert(ks[j] == old_ks[j]);
                            } else {
                                assert(ks[ks.len() - 1] == k);
                            }
                        }
                    }
                },
                _ => {
                    proof {
                        assert(!keep(k));
                    }
                },
            }
        } else {
            proof {
                assert(!keep(k));
            }
        }
        i += 1;
    }
    proof {
        assert forall|k: u32| g.links@.contains_key(k) && keep(k) implies #[trigger] ks.contains(k) by {
            assert(ks_all.contains(k));
            let m = choose|m: int| 0 <= m < ks_all.len() && ks_all[m] == k;
            assert(keep(ks_all[m]));
        }
    }
    r
}

/// The rule that saving a node's connections adds: enabled, triggered when
/// both ends are present, not exclusive; named "NAME connections" after the
/// node's display name (the default rule name when the node is unknown), with
/// that display name as its primary node, and with the given specifications.
pub open spec fn rule_saved_for(rule: ConnectionRule, g: GraphState, node: NodeId, specs: Seq<ConnectionSpec>, counter: nat) -> bool {
    &&& rule.enabled
    &&& rule.trigger == RuleTrigger::OnBothPresent
    &&& !rule.exclusive
    &&& rule.connections@ == specs
    &&& if g.nodes@.contains_key(node.0) {
        let name = g.nodes@[node.0].spec_display_name();
        &&& rule.name@ == name + " connections"@
        &&& rule.primary_node matches Some(p) && p@ == name
    } else {
        &&& rule.name@ == default_rule_name(counter)
        &&& rule.primary_node is None
    }
}

/// Saves the connections of a node as a new rule: one exact specification for
/// each of its links whose ports and nodes are known. Nothing is added when
/// there is no such link; otherwise the rule is appended and its id returned.
pub fn create_rule_from_node_connections(g: &GraphState, rules: &mut RuleManager, node_id: NodeId) -> (r: Option<RuleId>)
    requires
        old(rules).rule_counter() < usize::MAX,
    ensures
        match r {
            None => {
                &&& *final(rules) == *old(rules)
                &&& forall|k: u32| g.links@.contains_key(k) ==> !(#[trigger] recorded(*g, node_id)(k))
            },
            Some(id) => {
                &&& final(rules).rule_counter() == old(rules).rule_counter() + 1
                &&& final(rules).rules@.len() == old(rules).rules@.len() + 1
                &&& final(rules).rules@.take(old(rules).rules@.len() as int) == old(rules).rules@
                &&& final(rules).rules@.last().id == id
                &&& specs_for_links(final(rules).rules@.last().connections@, *g, recorded(*g, node_id))
                &&& final(rules).rules@.last().connections@.len() > 0
                &&& rule_saved_for(final(rules).rules@.last(), *g, node_id, final(rules).rules@.last().connections@, final(rules).rule_counter())
                &&& final(rules).pending_connections == old(rules).pending_connections
                &&& final(rules).pending_disconnections == old(rules).pending_disconnections
            },
        },
{
    let specs = node_connection_specs(g, node_id);
    if specs.len() == 0 {
        proof {
            let ks = choose|ks: Seq<u32>| {
                &&& ks.no_duplicates()
                &&& ks.len() == specs@.len()
                &&& forall|i: int| 0 <= i < ks.len() ==> g.links@.contains_key(#[trigger] ks[i]) && recorded(*g, node_id)(ks[i])
                    && spec_describes(specs@[i], *g, g.links@[ks[i]])
                &&& forall|k: u32| g.links@.contains_key(k) && recorded(*g, node_id)(k) ==> #[trigger] ks.contains(k)
            };
            assert forall|k: u32| g.links@.contains_key(k) implies !(#[trigger] recorded(*g, node_id)(k)) by {
                if recorded(*g, node_id)(k) {
                    assert(ks.contains(k));
                }
            }
        }
        return None;
    }
    let (rule_name, primary) = match g.get_node(&node_id) {
        Some(n) => {
            let name = n.display_name();
            let mut full = owned(name);
            push_str(&mut full, " connections");
            (Some(full), Some(owned(name)))
        },
        None => (None, None),
    };
    let ghost specs_v = specs@;
    let id = rules.create_from_snapshot(rule_name, specs, primary);
    Some(id)
}

/// The snapshot connection names the two ends of the link: each node by the
/// identifier that the resolver may give it, and each port by its name.
pub open spec fn connection_describes<F: Fn(&Node, &GraphState) -> NodeIdentifier>(c: SnapshotConnection, g: GraphState, l: Link, resolve: F) -> bool {
    &&& call_ensures(resolve, (&g.nodes@[l.output_node.0], &g), c.output_node)
    &&& c.output_port_name@ == g.ports@[l.output_port.0].name@
    &&& call_ensures(resolve, (&g.nodes@[l.input_node.0], &g), c.input_node)
    &&& c.input_port_name@ == g.ports@[l.input_port.0].name@
}

/// The links that a snapshot records: those whose ports and nodes are known.
pub open spec fn snapshot_keeps(g: GraphState) -> spec_fn(u32) -> bool {
    |k: u32| link_resolves(g, g.links@[k])
}

/// The connections of a snapshot: one for each link of the graph whose ports and
/// nodes are all known, its nodes named by `resolve_identifier`.
pub fn capture_connections<F: Fn(&Node, &GraphState) -> NodeIdentifier>(g: &GraphState, resolve_identifier: F) -> (r: Vec<SnapshotConnection>)
    requires
        forall|n: Node| #[trigger] call_requires(resolve_identifier, (&n, g)),
    ensures
        exists|ks: Seq<u32>| {
            &&& ks.no_duplicates()
            &&& ks.len() == r@.len()
            &&& forall|i: int| 0 <= i < ks.len() ==> g.links@.contains_key(#[trigger] ks[i]) && snapshot_keeps(*g)(ks[i])
                && connection_describes(r@[i], *g, g.links@[ks[i]], resolve_identifier)
            &&& forall|k: u32| g.links@.contains_key(k) && snapshot_keeps(*g)(k) ==> #[trigger] ks.contains(k)
        },
{
    let links = g.all_links();
    let ghost keep = snapshot_keeps(*g);
    let ghost ks_all = choose|ks: Seq<u32>| {
        &&& ks.no_duplicates()
        &&& ks.len() == links@.len()
        &&& forall|i: int| 0 <= i < ks.len() ==> g.links@.contains_key(#[trigger] ks[i]) && every_key()(ks[i]) && g.links@[ks[i]] == links@[i]
        &&& forall|k: u32| g.links@.contains_key(k) && every_key()(k) ==> #[trigger] ks.contains(k)
    };
    let mut r: Vec<SnapshotConnection> = Vec::new();
    let ghost mut ks: Seq<u32> = Seq::empty();
    let mut i: usize = 0;
    while i < links.len()
        invariant
            i <= links@.len(),
            keep == snapshot_keeps(*g),
            forall|n: Node| #[trigger] call_requires(resolve_identifier, (&n, g)),
            ks_all.no_duplicates(),
            ks_all.len() == links@.len(),
            forall|m: int| 0 <= m < ks_all.len() ==> g.links@.contains_key(#[trigger] ks_all[m]) && g.links@[ks_all[m]] == links@[m],
            forall|k: u32| g.links@.contains_key(k) ==> #[trigger] ks_all.contains(k),
            ks.no_duplicates(),
            ks.len() == r@.len(),
            forall|j: int| 0 <= j < ks.len() ==> g.links@.contains_key(#[trigger] ks[j]) && keep(ks[j])
                && connection_describes(r@[j], *g, g.links@[ks[j]], resolve_identifier),
            forall|j: int| #![trigger ks[j]] 0 <= j < ks.len() ==> exists|m: int| 0 <= m < i && #[trigger] ks_all[m] == ks[j],
            forall|m: int| 0 <= m < i && keep(#[trigger] ks_all[m]) ==> ks.contains(ks_all[m]),
        decreases links.len() - i,
    {
        let l = links[i];
        let ghost k = ks_all[i as int];
        proof {
            assert(g.links@[k] == l);
        }
        match (g.get_port(&l.output_port), g.get_port(&l.input_port), g.get_node(&l.output_node), g.get_node(&l.input_node)) {
            (Some(out_port), Some(in_port), Some(out_node), Some(in_node)) => {
                let output_node = resolve_identifier(out_node, g);
                let input_node = resolve_identifier(in_node, g);
                let ghost old_ks = ks;
                proof {
                    assert(!ks.contains(k)) by {
                        if ks.contains(k) {
                            let j = choose|j: int| 0 <= j < ks.len() && ks[j] == k;
                            let m = choose|m: int| 0 <= m < i && #[trigger] ks_all[m] == ks[j];
                            assert(ks_all[m] == ks_all[i as int]);
                        }
                    }
                }
                r.push(SnapshotConnection {
                    output_node,
                    output_port_name: out_port.name.clone(),
                    input_node,
                    input_port_name: in_port.name.clone(),
                });
                proof {
                    ks = ks.push(k);
                    assert(keep(k));
                    assert forall|j: int| #![trigger ks[j]] 0 <= j < ks.len() implies exists|m: int| 0 <= m < i + 1 && #[trigger] ks_all[m] == ks[j] by {
                        if j < old_ks.len() {
                            assert(ks[j] == old_ks[j]);
                        } else {
                            assert(ks_all[i as int] == ks[j]);
                        }
                    }
                    assert forall|m: int| 0 <= m < i + 1 && keep(#[trigger] ks_all[m]) implies ks.contains(ks_all[m]) by {
                        if m < i {
                            let j = choose|j: int| 0 <= j < old_ks.len() && old_ks[j] == ks_all[m];
                            assert(ks[j] == old_ks[j]);
                        } else {
                            assert(ks[ks.len() - 1] == k);
                        }
                    }
                }
            },
            _ => {
                proof {
                    assert(!keep(k));
                }
            },
        }
        i += 1;
    }
    proof {
        assert forall|k: u32| g.links@.contains_key(k) && keep(k) implies #[trigger] ks.contains(k) by {
            assert(ks_all.contains(k));
            let m = choose|m: int| 0 <= m < ks_all.len() && ks_all[m] == k;
            assert(keep(ks_all[m]));
        }
    }
    r
}

}
