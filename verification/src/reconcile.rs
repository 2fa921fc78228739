//! Applying the automatic connection rules when a node (or one of its ports)
//! appears: which connections to queue and, for exclusive rules, which links
//! to queue for removal.
//!
//! The graph's maps have no fixed order, so the order in which the queued
//! items are added is not fixed either; what is queued is stated as a set.

use vstd::prelude::*;

use crate::graph::{Link, Node, Port, PortDirection};
use crate::graph_state::GraphState;
use crate::ids::{LinkId, NodeId, PortId};
use crate::graph_state::{every_key, exactly_values, lemma_values_cover, value_in_map, value_in_seq};
use crate::restore::linked;
use crate::rules::{ConnectionRule, ConnectionSpec, MatchPattern, PendingConnection, RuleManager, RuleTrigger, app_text, first_rule_index, pattern_matches};
use crate::commands::AppCommand;
use crate::ids::RuleId;
use vstd::seq_lib::{lemma_seq_concat_contains_all_elements, lemma_seq_contains_after_push};

verus! {

// ----------------------------------------------------------------------------
// Model
// ----------------------------------------------------------------------------

/// The text an optional application name is matched as (empty when absent).
pub open spec fn opt_text(o: Option<String>) -> Seq<char> {
    match o {
        Some(s) => s@,
        None => Seq::empty(),
    }
}

/// The port has the direction, belongs to a node of the graph, and the pattern
/// accepts that node's application name, the node's name and the port's name.
pub open spec fn port_selected(pat: MatchPattern, nodes: Map<u32, Node>, p: Port, dir: PortDirection) -> bool {
    &&& p.direction == dir
    &&& nodes.contains_key(p.node_id.0)
    &&& pattern_matches(pat, opt_text(nodes[p.node_id.0].application_name), nodes[p.node_id.0].name@, p.name@)
}

/// Some port of the graph with this id, on this node, is selected by the pattern.
pub open spec fn selected_end(ports: Map<u32, Port>, nodes: Map<u32, Node>, pat: MatchPattern, dir: PortDirection, id: PortId, node: NodeId) -> bool {
    exists|k: u32| #![trigger ports[k]] ports.contains_key(k) && ports[k].id == id && ports[k].node_id == node
        && port_selected(pat, nodes, ports[k], dir)
}

/// Some port of the graph with this id is selected by the pattern.
pub open spec fn selected_id(ports: Map<u32, Port>, nodes: Map<u32, Node>, pat: MatchPattern, dir: PortDirection, id: PortId) -> bool {
    exists|k: u32| #![trigger ports[k]] ports.contains_key(k) && ports[k].id == id && port_selected(pat, nodes, ports[k], dir)
}

/// Whether a rule's trigger asks to connect a pair of ports when node `t` appears.
pub open spec fn should_connect(trigger: RuleTrigger, out_node: NodeId, in_node: NodeId, t: NodeId) -> bool {
    match trigger {
        RuleTrigger::OnSourceAppear => out_node == t,
        RuleTrigger::OnTargetAppear => in_node == t,
        RuleTrigger::OnBothPresent => out_node == t || in_node == t,
        RuleTrigger::ManualOnly => false,
    }
}

/// A connection specification asks for the link from port `o` to port `i`: both
/// ends are selected, the trigger applies to their nodes, and no link joins them yet.
pub open spec fn spec_wants(g: GraphState, cs: ConnectionSpec, trigger: RuleTrigger, t: NodeId, o: PortId, i: PortId) -> bool {
    &&& exists|on: NodeId, inn: NodeId| #![trigger selected_end(g.ports@, g.nodes@, cs.output_pattern, PortDirection::Output, o, on), selected_end(g.ports@, g.nodes@, cs.input_pattern, PortDirection::Input, i, inn)]
        selected_end(g.ports@, g.nodes@, cs.output_pattern, PortDirection::Output, o, on)
        && selected_end(g.ports@, g.nodes@, cs.input_pattern, PortDirection::Input, i, inn)
        && should_connect(trigger, on, inn, t)
    &&& !linked(g.links@, o, i)
}

/// A link leaves a selected output for an input that is not selected, or enters
/// a selected input from an output that is not selected.
pub open spec fn link_strays(g: GraphState, cs: ConnectionSpec, l: Link) -> bool {
    let out_sel = selected_id(g.ports@, g.nodes@, cs.output_pattern, PortDirection::Output, l.output_port);
    let in_sel = selected_id(g.ports@, g.nodes@, cs.input_pattern, PortDirection::Input, l.input_port);
    (out_sel && !in_sel) || (in_sel && !out_sel)
}

/// An exclusive connection specification removes the link with this id.
pub open spec fn spec_drops(g: GraphState, cs: ConnectionSpec, x: LinkId) -> bool {
    exists|k: u32| #![trigger g.links@[k]] g.links@.contains_key(k) && g.links@[k].id == x && link_strays(g, cs, g.links@[k])
}

/// The rules apply for node `t`: it is in the graph and has a port.
pub open spec fn reconcile_applies(g: GraphState, t: NodeId) -> bool {
    &&& g.nodes@.contains_key(t.0)
    &&& exists|k: u32| #![trigger g.ports@[k]] g.ports@.contains_key(k) && g.ports@[k].node_id == t
}

/// The connection is queued by an enabled rule for node `t`.
pub open spec fn queued_connection(g: GraphState, rules: Seq<ConnectionRule>, t: NodeId, pc: PendingConnection) -> bool {
    &&& reconcile_applies(g, t)
    &&& exists|j: int, s: int| #![trigger rules[j].connections@[s]]
        0 <= j < rules.len() && rules[j].enabled && pc.rule_id == rules[j].id
        && 0 <= s < rules[j].connections@.len()
        && spec_wants(g, rules[j].connections@[s], rules[j].trigger, t, pc.output_port, pc.input_port)
}

/// The link is queued for removal by an enabled exclusive rule for node `t`.
pub open spec fn queued_removal(g: GraphState, rules: Seq<ConnectionRule>, t: NodeId, x: LinkId) -> bool {
    &&& reconcile_applies(g, t)
    &&& exists|j: int, s: int| #![trigger rules[j].connections@[s]]
        0 <= j < rules.len() && rules[j].enabled && rules[j].exclusive
        && 0 <= s < rules[j].connections@.len()
        && spec_drops(g, rules[j].connections@[s], x)
}

// ----------------------------------------------------------------------------
// Building blocks
// ----------------------------------------------------------------------------

/// The ports a list of references points to.
pub open spec fn deref_ports(v: Seq<&Port>) -> Seq<Port> {
    v.map_values(|p: &Port| *p)
}

/// The selected ends of a pattern among the ports, in the ports' order: one
/// entry for each selected port.
pub open spec fn selected_in_order(ps: Seq<Port>, nodes: Map<u32, Node>, pat: MatchPattern, dir: PortDirection) -> Seq<(PortId, NodeId)>
    decreases ps.len(),
{
    if ps.len() == 0 {
        Seq::empty()
    } else {
        let rest = selected_in_order(ps.drop_last(), nodes, pat, dir);
        if port_selected(pat, nodes, ps.last(), dir) {
            rest.push((ps.last().id, ps.last().node_id))
        } else {
            rest
        }
    }
}

/// The connections queued from one output: one for each selected input, in
/// order, whose node the trigger pairs with the output's node and that no link
/// joins to the output yet.
pub open spec fn queue_from_output(
    out: (PortId, NodeId), ins: Seq<(PortId, NodeId)>, trigger: RuleTrigger, t: NodeId, links: Map<u32, Link>, rid: RuleId,
) -> Seq<PendingConnection>
    decreases ins.len(),
{
    if ins.len() == 0 {
        Seq::empty()
    } else {
        let rest = queue_from_output(out, ins.drop_last(), trigger, t, links, rid);
        let inp = ins.last();
        if should_connect(trigger, out.1, inp.1, t) && !linked(links, out.0, inp.0) {
            rest.push(PendingConnection { output_port: out.0, input_port: inp.0, rule_id: rid })
        } else {
            rest
        }
    }
}

/// The connections queued from the selected outputs, in order.
pub open spec fn queue_for_outputs(
    outs: Seq<(PortId, NodeId)>, ins: Seq<(PortId, NodeId)>, trigger: RuleTrigger, t: NodeId, links: Map<u32, Link>, rid: RuleId,
) -> Seq<PendingConnection>
    decreases outs.len(),
{
    if outs.len() == 0 {
        Seq::empty()
    } else {
        queue_for_outputs(outs.drop_last(), ins, trigger, t, links, rid) + queue_from_output(outs.last(), ins, trigger, t, links, rid)
    }
}

/// The connections queued for one specification of a rule, the ports taken in
/// the order `ps`.
pub open spec fn queue_for_spec(g: GraphState, ps: Seq<Port>, cs: ConnectionSpec, trigger: RuleTrigger, t: NodeId, rid: RuleId) -> Seq<PendingConnection> {
    queue_for_outputs(
        selected_in_order(ps, g.nodes@, cs.output_pattern, PortDirection::Output),
        selected_in_order(ps, g.nodes@, cs.input_pattern, PortDirection::Input),
        trigger, t, g.links@, rid,
    )
}

/// The connections queued for the specifications of a rule, in order.
pub open spec fn queue_for_specs(g: GraphState, ps: Seq<Port>, specs: Seq<ConnectionSpec>, trigger: RuleTrigger, t: NodeId, rid: RuleId) -> Seq<PendingConnection>
    decreases specs.len(),
{
    if specs.len() == 0 {
        Seq::empty()
    } else {
        queue_for_specs(g, ps, specs.drop_last(), trigger, t, rid) + queue_for_spec(g, ps, specs.last(), trigger, t, rid)
    }
}

/// The connections queued by the rules, in order: for each enabled rule, for
/// each of its specifications, for each selected output, each selected input
/// that the trigger pairs with it and that no link joins to it yet.
pub open spec fn queue_for_rules(g: GraphState, ps: Seq<Port>, rules: Seq<ConnectionRule>, t: NodeId) -> Seq<PendingConnection>
    decreases rules.len(),
{
    if rules.len() == 0 {
        Seq::empty()
    } else {
        let r = rules.last();
        queue_for_rules(g, ps, rules.drop_last(), t) + if r.enabled {
            queue_for_specs(g, ps, r.connections@, r.trigger, t, r.id)
        } else {
            Seq::empty()
        }
    }
}

/// The ports (with their nodes) that a pattern selects in the given direction.
fn select_ports(g: &GraphState, pv: &Vec<&Port>, pat: &MatchPattern, dir: PortDirection) -> (r: Vec<(PortId, NodeId)>)
    requires
        forall|i: int| 0 <= i < pv@.len() ==> #[trigger] value_in_map(g.ports@, *pv@[i]),
        forall|k: u32| g.ports@.contains_key(k) ==> #[trigger] value_in_seq(deref_ports(pv@), g.ports@[k]),
    ensures
        forall|x: (PortId, NodeId)| #[trigger] r@.contains(x) <==> selected_end(g.ports@, g.nodes@, *pat, dir, x.0, x.1),
        r@ == selected_in_order(deref_ports(pv@), g.nodes@, *pat, dir),
{
    let ghost pvv = deref_ports(pv@);
    let mut r: Vec<(PortId, NodeId)> = Vec::new();
    let mut i: usize = 0;
    while i < pv.len()
        invariant
            i <= pv@.len(),
            pvv == deref_ports(pv@),
            r@ == selected_in_order(pvv.take(i as int), g.nodes@, *pat, dir),
            forall|x: (PortId, NodeId)| #[trigger] r@.contains(x) <==> exists|m: int| #![trigger pv@[m]] 0 <= m < i
                && (*pv@[m]).id == x.0 && (*pv@[m]).node_id == x.1 && port_selected(*pat, g.nodes@, *pv@[m], dir),
        decreases pv.len() - i,
    {
        let p = pv[i];
        let ghost old_r = r@;
        let mut take = false;
        if p.direction == dir {
            match g.get_node(&p.node_id) {
                Some(n) => {
                    let app = match &n.application_name {
                        Some(a) => Some(a.as_str()),
                        None => None,
                    };
                    proof {
                        assert(app_text(app) == opt_text(n.application_name));
                    }
                    take = pat.matches(app, n.name.as_str(), p.name.as_str());
                },
                None => {},
            }
        }
        proof {
            assert(take == port_selected(*pat, g.nodes@, *p, dir));
        }
        if take {
            r.push((p.id, p.node_id));
        }
        proof {
            assert(pvv.take(i + 1).drop_last() =~= pvv.take(i as int));
            assert(pvv.take(i + 1).last() == *p);
            assert(pv@[i as int] == p);
            assert forall|x: (PortId, NodeId)| #[trigger] r@.contains(x) <==> exists|m: int| #![trigger pv@[m]] 0 <= m < i + 1
                && (*pv@[m]).id == x.0 && (*pv@[m]).node_id == x.1 && port_selected(*pat, g.nodes@, *pv@[m], dir) by {
                if old_r.contains(x) {
                    let y = choose|y: int| 0 <= y < old_r.len() && old_r[y] == x;
                    assert(r@[y] == x);
                }
                if r@.contains(x) && !old_r.contains(x) {
                    let y = choose|y: int| 0 <= y < r@.len() && r@[y] == x;
                    if y < old_r.len() {
                        assert(old_r[y] == x);
                    }
                    assert(take && x == (p.id, p.node_id));
                }
                if exists|m: int| #![trigger pv@[m]] 0 <= m < i + 1 && (*pv@[m]).id == x.0 && (*pv@[m]).node_id == x.1 && port_selected(*pat, g.nodes@, *pv@[m], dir) {
                    let m = choose|m: int| #![trigger pv@[m]] 0 <= m < i + 1 && (*pv@[m]).id == x.0 && (*pv@[m]).node_id == x.1 && port_selected(*pat, g.nodes@, *pv@[m], dir);
                    if m < i {
                        assert(old_r.contains(x));
                        let y = choose|y: int| 0 <= y < old_r.len() && old_r[y] == x;
                        assert(r@[y] == x);
                    } else {
                        assert(r@[r@.len() - 1] == x);
                    }
                }
            }
        }
        i += 1;
    }
    proof {
        assert(pvv.take(pv@.len() as int) =~= pvv);
        assert forall|x: (PortId, NodeId)| #[trigger] r@.contains(x) <==> selected_end(g.ports@, g.nodes@, *pat, dir, x.0, x.1) by {
            if r@.contains(x) {
                let m = choose|m: int| #![trigger pv@[m]] 0 <= m < pv@.len() && (*pv@[m]).id == x.0 && (*pv@[m]).node_id == x.1 && port_selected(*pat, g.nodes@, *pv@[m], dir);
                assert(value_in_map(g.ports@, *pv@[m]));
                let k = choose|k: u32| g.ports@.contains_key(k) && g.ports@[k] == *pv@[m];
                assert(g.ports@[k].id == x.0);
            }
            if selected_end(g.ports@, g.nodes@, *pat, dir, x.0, x.1) {
                let k = choose|k: u32| #![trigger g.ports@[k]] g.ports@.contains_key(k) && g.ports@[k].id == x.0 && g.ports@[k].node_id == x.1
                    && port_selected(*pat, g.nodes@, g.ports@[k], dir);
                assert(value_in_seq(pvv, g.ports@[k]));
                let m = choose|m: int| 0 <= m < pvv.len() && pvv[m] == g.ports@[k];
                assert(*pv@[m] == pvv[m]);
            }
        }
    }
    r
}

/// Returns true if the list holds a pair with this port id.
fn has_port(v: &Vec<(PortId, NodeId)>, id: PortId) -> (r: bool)
    ensures
        r == exists|a: int| 0 <= a < v@.len() && #[trigger] v@[a].0 == id,
{
    let mut a: usize = 0;
    while a < v.len()
        invariant
            a <= v@.len(),
            forall|m: int| 0 <= m < a ==> #[trigger] v@[m].0 != id,
        decreases v.len() - a,
    {
        if v[a].0 == id {
            return true;
        }
        a += 1;
    }
    false
}

/// Whether the trigger asks to connect, for nodes given at run time.
fn trigger_connects(trigger: RuleTrigger, out_node: NodeId, in_node: NodeId, t: NodeId) -> (r: bool)
    ensures
        r == should_connect(trigger, out_node, in_node, t),
{
    match trigger {
        RuleTrigger::OnSourceAppear => out_node == t,
        RuleTrigger::OnTargetAppear => in_node == t,
        RuleTrigger::OnBothPresent => out_node == t || in_node == t,
        RuleTrigger::ManualOnly => false,
    }
}

/// Returns true if some link of the list joins the two ports.
fn joined(links: &Vec<Link>, o: PortId, i: PortId) -> (r: bool)
    ensures
        r == exists|m: int| 0 <= m < links@.len() && #[trigger] links@[m].output_port == o && links@[m].input_port == i,
{
    let mut j: usize = 0;
    while j < links.len()
        invariant
            j <= links@.len(),
            forall|m: int| 0 <= m < j ==> !(#[trigger] links@[m].output_port == o && links@[m].input_port == i),
        decreases links.len() - j,
    {
        if links[j].output_port == o && links[j].input_port == i {
            return true;
        }
        j += 1;
    }
    false
}


/// Some link of the list joins the two ports.
pub open spec fn vec_joined(lv: Seq<Link>, o: PortId, i: PortId) -> bool {
    exists|m: int| 0 <= m < lv.len() && #[trigger] lv[m].output_port == o && lv[m].input_port == i
}

/// The connection is asked for from the output `out`: some selected input `i`,
/// with the trigger applying to the two nodes, not joined yet.
pub open spec fn wants_from(out: (PortId, NodeId), ins: Seq<(PortId, NodeId)>, trigger: RuleTrigger, t: NodeId, lv: Seq<Link>, rid: crate::ids::RuleId, pc: PendingConnection) -> bool {
    &&& pc.rule_id == rid
    &&& pc.output_port == out.0
    &&& exists|b: int| 0 <= b < ins.len() && #[trigger] ins[b].0 == pc.input_port && should_connect(trigger, out.1, ins[b].1, t)
    &&& !vec_joined(lv, out.0, pc.input_port)
}

/// Appends pending connections.
fn extend_pending(dst: &mut Vec<PendingConnection>, src: Vec<PendingConnection>)
    ensures
        final(dst)@ == old(dst)@ + src@,
{
    let ghost start = dst@;
    let mut i: usize = 0;
    while i < src.len()
        invariant
            i <= src@.len(),
            dst@ == start + src@.take(i as int),
        decreases src.len() - i,
    {
        dst.push(src[i]);
        i += 1;
        proof {
            assert(dst@ =~= start + src@.take(i as int));
        }
    }
    proof {
        assert(src@.take(src@.len() as int) =~= src@);
    }
}

/// A list that holds exactly the graph's links joins two ports when the graph does.
proof fn lemma_vec_joined_linked(lv: Seq<Link>, gl: Map<u32, Link>, o: PortId, i: PortId)
    requires
        forall|m: int| 0 <= m < lv.len() ==> #[trigger] value_in_map(gl, lv[m]),
        forall|k: u32| gl.contains_key(k) ==> #[trigger] value_in_seq(lv, gl[k]),
    ensures
        vec_joined(lv, o, i) == linked(gl, o, i),
{
    if vec_joined(lv, o, i) {
        let m = choose|m: int| 0 <= m < lv.len() && #[trigger] lv[m].output_port == o && lv[m].input_port == i;
        assert(value_in_map(gl, lv[m]));
        let k = choose|k: u32| gl.contains_key(k) && gl[k] == lv[m];
        assert(gl[k].output_port == o);
    }
    if linked(gl, o, i) {
        let k = choose|k: u32| gl.contains_key(k) && #[trigger] gl[k].output_port == o && gl[k].input_port == i;
        assert(value_in_seq(lv, gl[k]));
        let m = choose|m: int| 0 <= m < lv.len() && #[trigger] lv[m] == gl[k];
        assert(lv[m].output_port == o);
    }
}

/// The connections asked for from one selected output.
fn connections_from(out: (PortId, NodeId), ins: &Vec<(PortId, NodeId)>, trigger: RuleTrigger, t: NodeId, links: &Vec<Link>, rid: crate::ids::RuleId, Ghost(gl): Ghost<Map<u32, Link>>) -> (r: Vec<PendingConnection>)
    requires
        forall|m: int| 0 <= m < links@.len() ==> #[trigger] value_in_map(gl, links@[m]),
        forall|k: u32| gl.contains_key(k) ==> #[trigger] value_in_seq(links@, gl[k]),
    ensures
        forall|pc: PendingConnection| #[trigger] r@.contains(pc) <==> wants_from(out, ins@, trigger, t, links@, rid, pc),
        r@ == queue_from_output(out, ins@, trigger, t, gl, rid),
{
    let mut r: Vec<PendingConnection> = Vec::new();
    let mut b: usize = 0;
    while b < ins.len()
        invariant
            b <= ins@.len(),
            forall|m: int| 0 <= m < links@.len() ==> #[trigger] value_in_map(gl, links@[m]),
            forall|k: u32| gl.contains_key(k) ==> #[trigger] value_in_seq(links@, gl[k]),
            r@ == queue_from_output(out, ins@.take(b as int), trigger, t, gl, rid),
            forall|pc: PendingConnection| #[trigger] r@.contains(pc) <==> {
                &&& pc.rule_id == rid
                &&& pc.output_port == out.0
                &&& exists|c: int| 0 <= c < b && #[trigger] ins@[c].0 == pc.input_port && should_connect(trigger, out.1, ins@[c].1, t)
                &&& !vec_joined(links@, out.0, pc.input_port)
            },
        decreases ins.len() - b,
    {
        let inp = ins[b];
        let ghost old_r = r@;
        let go = trigger_connects(trigger, out.1, inp.1, t) && !joined(links, out.0, inp.0);
        let pc = PendingConnection { output_port: out.0, input_port: inp.0, rule_id: rid };
        if go {
            r.push(pc);
        }
        proof {
            lemma_vec_joined_linked(links@, gl, out.0, inp.0);
            assert(ins@.take(b + 1).drop_last() =~= ins@.take(b as int));
            assert(ins@.take(b + 1).last() == inp);
            assert(ins@[b as int] == inp);
            assert forall|q: PendingConnection| #[trigger] r@.contains(q) <==> {
                &&& q.rule_id == rid
                &&& q.output_port == out.0
                &&& exists|c: int| 0 <= c < b + 1 && #[trigger] ins@[c].0 == q.input_port && should_connect(trigger, out.1, ins@[c].1, t)
                &&& !vec_joined(links@, out.0, q.input_port)
            } by {
                if old_r.contains(q) {
                    let y = choose|y: int| 0 <= y < old_r.len() && old_r[y] == q;
                    assert(r@[y] == q);
                }
                if r@.contains(q) && !old_r.contains(q) {
                    let y = choose|y: int| 0 <= y < r@.len() && r@[y] == q;
                    if y < old_r.len() {
                        assert(old_r[y] == q);
                    }
                    assert(go && q == pc);
                }
                if exists|c: int| 0 <= c < b + 1 && #[trigger] ins@[c].0 == q.input_port && should_connect(trigger, out.1, ins@[c].1, t) {
                    let c = choose|c: int| 0 <= c < b + 1 && #[trigger] ins@[c].0 == q.input_port && should_connect(trigger, out.1, ins@[c].1, t);
                    if c == b && q.rule_id == rid && q.output_port == out.0 && !vec_joined(links@, out.0, q.input_port) && !old_r.contains(q) {
                        assert(q == pc);
                        assert(r@[r@.len() - 1] == q);
                    }
                }
            }
        }
        b += 1;
    }
    proof {
        assert(ins@.take(ins@.len() as int) =~= ins@);
    }
    r
}

/// The connections one specification asks for, from the selected outputs and inputs.
fn connections_for_spec(outs: &Vec<(PortId, NodeId)>, ins: &Vec<(PortId, NodeId)>, trigger: RuleTrigger, t: NodeId, links: &Vec<Link>, rid: crate::ids::RuleId, Ghost(gl): Ghost<Map<u32, Link>>) -> (r: Vec<PendingConnection>)
    requires
        forall|m: int| 0 <= m < links@.len() ==> #[trigger] value_in_map(gl, links@[m]),
        forall|k: u32| gl.contains_key(k) ==> #[trigger] value_in_seq(links@, gl[k]),
    ensures
        forall|pc: PendingConnection| #[trigger] r@.contains(pc) <==> exists|a: int| 0 <= a < outs@.len()
            && #[trigger] wants_from(outs@[a], ins@, trigger, t, links@, rid, pc),
        r@ == queue_for_outputs(outs@, ins@, trigger, t, gl, rid),
{
    let mut r: Vec<PendingConnection> = Vec::new();
    let mut a: usize = 0;
    while a < outs.len()
        invariant
            a <= outs@.len(),
            forall|m: int| 0 <= m < links@.len() ==> #[trigger] value_in_map(gl, links@[m]),
            forall|k: u32| gl.contains_key(k) ==> #[trigger] value_in_seq(links@, gl[k]),
            r@ == queue_for_outputs(outs@.take(a as int), ins@, trigger, t, gl, rid),
            forall|pc: PendingConnection| #[trigger] r@.contains(pc) <==> exists|m: int| 0 <= m < a
                && #[trigger] wants_from(outs@[m], ins@, trigger, t, links@, rid, pc),
        decreases outs.len() - a,
    {
        let more = connections_from(outs[a], ins, trigger, t, links, rid, Ghost(gl));
        let ghost old_r = r@;
        extend_pending(&mut r, more);
        proof {
            assert(outs@.take(a + 1).drop_last() =~= outs@.take(a as int));
            assert(outs@.take(a + 1).last() == outs@[a as int]);
            assert(outs@[a as int] == outs[a as int]);
            assert forall|pc: PendingConnection| #[trigger] r@.contains(pc) <==> exists|m: int| 0 <= m < a + 1
                && #[trigger] wants_from(outs@[m], ins@, trigger, t, links@, rid, pc) by {
                if old_r.contains(pc) {
                    let y = choose|y: int| 0 <= y < old_r.len() && old_r[y] == pc;
                    assert(r@[y] == pc);
                }
                if more@.contains(pc) {
                    let y = choose|y: int| 0 <= y < more@.len() && more@[y] == pc;
                    assert(r@[old_r.len() + y] == pc);
                }
                if r@.contains(pc) {
                    let y = choose|y: int| 0 <= y < r@.len() && r@[y] == pc;
                    if y < old_r.len() {
                        assert(old_r[y] == pc);
                    } else {
                        assert(more@[y - old_r.len()] == pc);
                    }
                }
                if exists|m: int| 0 <= m < a + 1 && #[trigger] wants_from(outs@[m], ins@, trigger, t, links@, rid, pc) {
                    let m = choose|m: int| 0 <= m < a + 1 && #[trigger] wants_from(outs@[m], ins@, trigger, t, links@, rid, pc);
                    if m < a {
                        assert(old_r.contains(pc));
                    } else {
                        assert(more@.contains(pc));
                    }
                }
            }
        }
        a += 1;
    }
    proof {
        assert(outs@.take(outs@.len() as int) =~= outs@);
    }
    r
}


/// Some pair of the list has this port id.
pub open spec fn has_id(v: Seq<(PortId, NodeId)>, id: PortId) -> bool {
    exists|a: int| 0 <= a < v.len() && #[trigger] v[a].0 == id
}

/// The end of a link on the selected side (`by_output`: its output port).
pub open spec fn near_end(l: Link, by_output: bool) -> PortId {
    if by_output { l.output_port } else { l.input_port }
}

/// The end of a link on the other side.
pub open spec fn far_end(l: Link, by_output: bool) -> PortId {
    if by_output { l.input_port } else { l.output_port }
}

/// The link leaves (or enters) a selected port from a port not selected on the other side.
pub open spec fn strays_from(sel: Seq<(PortId, NodeId)>, other: Seq<(PortId, NodeId)>, l: Link, by_output: bool) -> bool {
    has_id(sel, near_end(l, by_output)) && !has_id(other, far_end(l, by_output))
}

/// Appends link ids.
fn extend_links(dst: &mut Vec<LinkId>, src: Vec<LinkId>)
    ensures
        final(dst)@ == old(dst)@ + src@,
{
    let ghost start = dst@;
    let mut i: usize = 0;
    while i < src.len()
        invariant
            i <= src@.len(),
            dst@ == start + src@.take(i as int),
        decreases src.len() - i,
    {
        dst.push(src[i]);
        i += 1;
        proof {
            assert(dst@ =~= start + src@.take(i as int));
        }
    }
    proof {
        assert(src@.take(src@.len() as int) =~= src@);
    }
}

/// The links at one selected port whose other end is not selected.
fn drops_at(id: PortId, other: &Vec<(PortId, NodeId)>, links: &Vec<Link>, by_output: bool) -> (r: Vec<LinkId>)
    ensures
        forall|x: LinkId| #[trigger] r@.contains(x) <==> exists|m: int| 0 <= m < links@.len() && #[trigger] links@[m].id == x
            && near_end(links@[m], by_output) == id && !has_id(other@, far_end(links@[m], by_output)),
{
    let mut r: Vec<LinkId> = Vec::new();
    let mut m: usize = 0;
    while m < links.len()
        invariant
            m <= links@.len(),
            forall|x: LinkId| #[trigger] r@.contains(x) <==> exists|n: int| 0 <= n < m && #[trigger] links@[n].id == x
                && near_end(links@[n], by_output) == id && !has_id(other@, far_end(links@[n], by_output)),
        decreases links.len() - m,
    {
        let l = links[m];
        let ghost old_r = r@;
        let near = if by_output { l.output_port } else { l.input_port };
        let far = if by_output { l.input_port } else { l.output_port };
        if near == id && !has_port(other, far) {
            r.push(l.id);
        }
        proof {
            assert(links@[m as int] == l);
            assert forall|x: LinkId| #[trigger] r@.contains(x) <==> exists|n: int| 0 <= n < m + 1 && #[trigger] links@[n].id == x
                && near_end(links@[n], by_output) == id && !has_id(other@, far_end(links@[n], by_output)) by {
                if old_r.contains(x) {
                    let y = choose|y: int| 0 <= y < old_r.len() && old_r[y] == x;
                    assert(r@[y] == x);
                }
                if r@.contains(x) && !old_r.contains(x) {
                    let y = choose|y: int| 0 <= y < r@.len() && r@[y] == x;
                    if y < old_r.len() {
                        assert(old_r[y] == x);
                    }
                    assert(links@[m as int].id == x);
                }
                if exists|n: int| 0 <= n < m + 1 && #[trigger] links@[n].id == x && near_end(links@[n], by_output) == id && !has_id(other@, far_end(links@[n], by_output)) {
                    let n = choose|n: int| 0 <= n < m + 1 && #[trigger] links@[n].id == x && near_end(links@[n], by_output) == id && !has_id(other@, far_end(links@[n], by_output));
                    if n < m {
                        assert(old_r.contains(x));
                        let y = choose|y: int| 0 <= y < old_r.len() && old_r[y] == x;
                        assert(r@[y] == x);
                    } else {
                        assert(r@[r@.len() - 1] == x);
                    }
                }
            }
        }
        m += 1;
    }
    r
}

/// The links at the selected ports whose other end is not selected, port by port.
fn drops_from(sel: &Vec<(PortId, NodeId)>, other: &Vec<(PortId, NodeId)>, links: &Vec<Link>, by_output: bool) -> (r: Vec<LinkId>)
    ensures
        forall|x: LinkId| #[trigger] r@.contains(x) <==> exists|m: int| 0 <= m < links@.len() && #[trigger] links@[m].id == x
            && strays_from(sel@, other@, links@[m], by_output),
{
    let mut r: Vec<LinkId> = Vec::new();
    let mut a: usize = 0;
    while a < sel.len()
        invariant
            a <= sel@.len(),
            forall|x: LinkId| #[trigger] r@.contains(x) <==> exists|m: int, c: int| #![trigger links@[m], sel@[c]] 0 <= m < links@.len() && 0 <= c < a
                && links@[m].id == x && near_end(links@[m], by_output) == sel@[c].0 && !has_id(other@, far_end(links@[m], by_output)),
        decreases sel.len() - a,
    {
        let more = drops_at(sel[a].0, other, links, by_output);
        let ghost old_r = r@;
        extend_links(&mut r, more);
        proof {
            assert forall|x: LinkId| #[trigger] r@.contains(x) <==> exists|m: int, c: int| #![trigger links@[m], sel@[c]] 0 <= m < links@.len() && 0 <= c < a + 1
                && links@[m].id == x && near_end(links@[m], by_output) == sel@[c].0 && !has_id(other@, far_end(links@[m], by_output)) by {
                if old_r.contains(x) {
                    let y = choose|y: int| 0 <= y < old_r.len() && old_r[y] == x;
                    assert(r@[y] == x);
                }
                if more@.contains(x) {
                    let y = choose|y: int| 0 <= y < more@.len() && more@[y] == x;
                    assert(r@[old_r.len() + y] == x);
                    let m = choose|m: int| 0 <= m < links@.len() && #[trigger] links@[m].id == x
                        && near_end(links@[m], by_output) == sel@[a as int].0 && !has_id(other@, far_end(links@[m], by_output));
                    assert(links@[m] == links@[m] && sel@[a as int] == sel@[a as int]);
                }
                if r@.contains(x) {
                    let y = choose|y: int| 0 <= y < r@.len() && r@[y] == x;
                    if y < old_r.len() {
                        assert(old_r[y] == x);
                    } else {
                        assert(more@[y - old_r.len()] == x);
                    }
                }
                if exists|m: int, c: int| #![trigger links@[m], sel@[c]] 0 <= m < links@.len() && 0 <= c < a + 1
                    && links@[m].id == x && near_end(links@[m], by_output) == sel@[c].0 && !has_id(other@, far_end(links@[m], by_output)) {
                    let (m, c) = choose|m: int, c: int| #![trigger links@[m], sel@[c]] 0 <= m < links@.len() && 0 <= c < a + 1
                        && links@[m].id == x && near_end(links@[m], by_output) == sel@[c].0 && !has_id(other@, far_end(links@[m], by_output));
                    if c < a {
                        assert(old_r.contains(x));
                    } else {
                        assert(links@[m].id == x);
                        assert(more@.contains(x));
                    }
                }
            }
        }
        a += 1;
    }
    proof {
        assert forall|x: LinkId| #[trigger] r@.contains(x) <==> exists|m: int| 0 <= m < links@.len() && #[trigger] links@[m].id == x
            && strays_from(sel@, other@, links@[m], by_output) by {
            if r@.contains(x) {
                let (m, c) = choose|m: int, c: int| #![trigger links@[m], sel@[c]] 0 <= m < links@.len() && 0 <= c < sel@.len()
                    && links@[m].id == x && near_end(links@[m], by_output) == sel@[c].0 && !has_id(other@, far_end(links@[m], by_output));
                assert(sel@[c].0 == near_end(links@[m], by_output));
                assert(has_id(sel@, near_end(links@[m], by_output)));
            }
            if exists|m: int| 0 <= m < links@.len() && #[trigger] links@[m].id == x && strays_from(sel@, other@, links@[m], by_output) {
                let m = choose|m: int| 0 <= m < links@.len() && #[trigger] links@[m].id == x && strays_from(sel@, other@, links@[m], by_output);
                let c = choose|c: int| 0 <= c < sel@.len() && #[trigger] sel@[c].0 == near_end(links@[m], by_output);
                assert(links@[m] == links@[m] && sel@[c] == sel@[c]);
            }
        }
    }
    r
}


/// What one specification queues, read from the lists of selected ports, is
/// what the specification asks of the graph.
proof fn lemma_spec_lists(g: GraphState, cs: ConnectionSpec, trigger: RuleTrigger, t: NodeId, rid: crate::ids::RuleId,
    outs: Seq<(PortId, NodeId)>, ins: Seq<(PortId, NodeId)>, lv: Seq<Link>)
    requires
        forall|x: (PortId, NodeId)| #[trigger] outs.contains(x) <==> selected_end(g.ports@, g.nodes@, cs.output_pattern, PortDirection::Output, x.0, x.1),
        forall|x: (PortId, NodeId)| #[trigger] ins.contains(x) <==> selected_end(g.ports@, g.nodes@, cs.input_pattern, PortDirection::Input, x.0, x.1),
        forall|i: int| 0 <= i < lv.len() ==> #[trigger] value_in_map(g.links@, lv[i]),
        forall|k: u32| g.links@.contains_key(k) ==> #[trigger] value_in_seq(lv, g.links@[k]),
    ensures
        forall|pc: PendingConnection| (exists|a: int| 0 <= a < outs.len() && #[trigger] wants_from(outs[a], ins, trigger, t, lv, rid, pc))
            <==> (pc.rule_id == rid && spec_wants(g, cs, trigger, t, pc.output_port, pc.input_port)),
        forall|x: LinkId| (exists|m: int| 0 <= m < lv.len() && #[trigger] lv[m].id == x
            && (strays_from(outs, ins, lv[m], true) || strays_from(ins, outs, lv[m], false)))
            <==> spec_drops(g, cs, x),
{
    assert forall|o: PortId, i: PortId| #[trigger] vec_joined(lv, o, i) <==> linked(g.links@, o, i) by {
        if vec_joined(lv, o, i) {
            let m = choose|m: int| 0 <= m < lv.len() && #[trigger] lv[m].output_port == o && lv[m].input_port == i;
            assert(value_in_map(g.links@, lv[m]));
            let k = choose|k: u32| g.links@.contains_key(k) && g.links@[k] == lv[m];
            assert(g.links@[k].output_port == o);
        }
        if linked(g.links@, o, i) {
            let k = choose|k: u32| g.links@.contains_key(k) && #[trigger] g.links@[k].output_port == o && g.links@[k].input_port == i;
            assert(value_in_seq(lv, g.links@[k]));
            let m = choose|m: int| 0 <= m < lv.len() && lv[m] == g.links@[k];
            assert(lv[m].output_port == o);
        }
    }
    assert forall|id: PortId| #[trigger] has_id(outs, id) <==> selected_id(g.ports@, g.nodes@, cs.output_pattern, PortDirection::Output, id) by {
        if has_id(outs, id) {
            let a = choose|a: int| 0 <= a < outs.len() && #[trigger] outs[a].0 == id;
            assert(outs.contains(outs[a]));
            let k = choose|k: u32| #![trigger g.ports@[k]] g.ports@.contains_key(k) && g.ports@[k].id == outs[a].0 && g.ports@[k].node_id == outs[a].1
                && port_selected(cs.output_pattern, g.nodes@, g.ports@[k], PortDirection::Output);
        }
        if selected_id(g.ports@, g.nodes@, cs.output_pattern, PortDirection::Output, id) {
            let k = choose|k: u32| #![trigger g.ports@[k]] g.ports@.contains_key(k) && g.ports@[k].id == id && port_selected(cs.output_pattern, g.nodes@, g.ports@[k], PortDirection::Output);
            assert(selected_end(g.ports@, g.nodes@, cs.output_pattern, PortDirection::Output, id, g.ports@[k].node_id));
            assert(outs.contains((id, g.ports@[k].node_id)));
            let a = choose|a: int| 0 <= a < outs.len() && outs[a] == (id, g.ports@[k].node_id);
            assert(outs[a].0 == id);
        }
    }
    assert forall|id: PortId| #[trigger] has_id(ins, id) <==> selected_id(g.ports@, g.nodes@, cs.input_pattern, PortDirection::Input, id) by {
        if has_id(ins, id) {
            let a = choose|a: int| 0 <= a < ins.len() && #[trigger] ins[a].0 == id;
            assert(ins.contains(ins[a]));
            let k = choose|k: u32| #![trigger g.ports@[k]] g.ports@.contains_key(k) && g.ports@[k].id == ins[a].0 && g.ports@[k].node_id == ins[a].1
                && port_selected(cs.input_pattern, g.nodes@, g.ports@[k], PortDirection::Input);
        }
        if selected_id(g.ports@, g.nodes@, cs.input_pattern, PortDirection::Input, id) {
            let k = choose|k: u32| #![trigger g.ports@[k]] g.ports@.contains_key(k) && g.ports@[k].id == id && port_selected(cs.input_pattern, g.nodes@, g.ports@[k], PortDirection::Input);
            assert(selected_end(g.ports@, g.nodes@, cs.input_pattern, PortDirection::Input, id, g.ports@[k].node_id));
            assert(ins.contains((id, g.ports@[k].node_id)));
            let a = choose|a: int| 0 <= a < ins.len() && ins[a] == (id, g.ports@[k].node_id);
            assert(ins[a].0 == id);
        }
    }
    assert forall|pc: PendingConnection| (exists|a: int| 0 <= a < outs.len() && #[trigger] wants_from(outs[a], ins, trigger, t, lv, rid, pc))
        <==> (pc.rule_id == rid && spec_wants(g, cs, trigger, t, pc.output_port, pc.input_port)) by {
        if exists|a: int| 0 <= a < outs.len() && #[trigger] wants_from(outs[a], ins, trigger, t, lv, rid, pc) {
            let a = choose|a: int| 0 <= a < outs.len() && #[trigger] wants_from(outs[a], ins, trigger, t, lv, rid, pc);
            let b = choose|b: int| 0 <= b < ins.len() && #[trigger] ins[b].0 == pc.input_port && should_connect(trigger, outs[a].1, ins[b].1, t);
            assert(outs.contains(outs[a]));
            assert(ins.contains(ins[b]));
            assert(selected_end(g.ports@, g.nodes@, cs.output_pattern, PortDirection::Output, pc.output_port, outs[a].1));
            assert(selected_end(g.ports@, g.nodes@, cs.input_pattern, PortDirection::Input, pc.input_port, ins[b].1));
            assert(!vec_joined(lv, pc.output_port, pc.input_port));
        }
        if pc.rule_id == rid && spec_wants(g, cs, trigger, t, pc.output_port, pc.input_port) {
            let (on, inn) = choose|on: NodeId, inn: NodeId| #![trigger selected_end(g.ports@, g.nodes@, cs.output_pattern, PortDirection::Output, pc.output_port, on), selected_end(g.ports@, g.nodes@, cs.input_pattern, PortDirection::Input, pc.input_port, inn)]
                selected_end(g.ports@, g.nodes@, cs.output_pattern, PortDirection::Output, pc.output_port, on)
                && selected_end(g.ports@, g.nodes@, cs.input_pattern, PortDirection::Input, pc.input_port, inn)
                && should_connect(trigger, on, inn, t);
            assert(outs.contains((pc.output_port, on)));
            assert(ins.contains((pc.input_port, inn)));
            let a = choose|a: int| 0 <= a < outs.len() && outs[a] == (pc.output_port, on);
            let b = choose|b: int| 0 <= b < ins.len() && ins[b] == (pc.input_port, inn);
            assert(ins[b].0 == pc.input_port && should_connect(trigger, outs[a].1, ins[b].1, t));
            assert(wants_from(outs[a], ins, trigger, t, lv, rid, pc));
        }
    }
    assert forall|x: LinkId| (exists|m: int| 0 <= m < lv.len() && #[trigger] lv[m].id == x
        && (strays_from(outs, ins, lv[m], true) || strays_from(ins, outs, lv[m], false)))
        <==> spec_drops(g, cs, x) by {
        if exists|m: int| 0 <= m < lv.len() && #[trigger] lv[m].id == x && (strays_from(outs, ins, lv[m], true) || strays_from(ins, outs, lv[m], false)) {
            let m = choose|m: int| 0 <= m < lv.len() && #[trigger] lv[m].id == x && (strays_from(outs, ins, lv[m], true) || strays_from(ins, outs, lv[m], false));
            assert(value_in_map(g.links@, lv[m]));
            let k = choose|k: u32| g.links@.contains_key(k) && g.links@[k] == lv[m];
            assert(has_id(outs, lv[m].output_port) == selected_id(g.ports@, g.nodes@, cs.output_pattern, PortDirection::Output, lv[m].output_port));
            assert(has_id(ins, lv[m].input_port) == selected_id(g.ports@, g.nodes@, cs.input_pattern, PortDirection::Input, lv[m].input_port));
            assert(link_strays(g, cs, g.links@[k]));
        }
        if spec_drops(g, cs, x) {
            let k = choose|k: u32| #![trigger g.links@[k]] g.links@.contains_key(k) && g.links@[k].id == x && link_strays(g, cs, g.links@[k]);
            assert(value_in_seq(lv, g.links@[k]));
            let m = choose|m: int| 0 <= m < lv.len() && lv[m] == g.links@[k];
            assert(has_id(outs, lv[m].output_port) == selected_id(g.ports@, g.nodes@, cs.output_pattern, PortDirection::Output, lv[m].output_port));
            assert(has_id(ins, lv[m].input_port) == selected_id(g.ports@, g.nodes@, cs.input_pattern, PortDirection::Input, lv[m].input_port));
            assert(lv[m].id == x);
        }
    }
}


/// What the rules queue for node `t`: the connections and the links to remove.
fn reconcile_plan(g: &GraphState, rules: &Vec<ConnectionRule>, t: NodeId) -> (r: (Vec<PendingConnection>, Vec<LinkId>))
    requires
        reconcile_applies(*g, t),
    ensures
        forall|pc: PendingConnection| #[trigger] r.0@.contains(pc) <==> queued_connection(*g, rules@, t, pc),
        forall|x: LinkId| #[trigger] r.1@.contains(x) <==> queued_removal(*g, rules@, t, x),
        exists|ps: Seq<Port>| exactly_values(ps, g.ports@, every_key()) && r.0@ == queue_for_rules(*g, ps, rules@, t),
{
    let pv = g.all_ports();
    let ghost ps = deref_ports(pv@);
    let links = g.all_links();
    proof {
        lemma_values_cover(deref_ports(pv@), g.ports@);
        lemma_values_cover(links@, g.links@);
        assert forall|i: int| 0 <= i < pv@.len() implies #[trigger] value_in_map(g.ports@, *pv@[i]) by {
            assert(deref_ports(pv@)[i] == *pv@[i]);
        }
    }
    let mut conns: Vec<PendingConnection> = Vec::new();
    let mut drops: Vec<LinkId> = Vec::new();
    let mut j: usize = 0;
    while j < rules.len()
        invariant
            j <= rules@.len(),
            ps == deref_ports(pv@),
            conns@ == queue_for_rules(*g, ps, rules@.take(j as int), t),
            reconcile_applies(*g, t),
            forall|i: int| 0 <= i < pv@.len() ==> #[trigger] value_in_map(g.ports@, *pv@[i]),
            forall|k: u32| g.ports@.contains_key(k) ==> #[trigger] value_in_seq(deref_ports(pv@), g.ports@[k]),
            forall|i: int| 0 <= i < links@.len() ==> #[trigger] value_in_map(g.links@, links@[i]),
            forall|k: u32| g.links@.contains_key(k) ==> #[trigger] value_in_seq(links@, g.links@[k]),
            forall|pc: PendingConnection| #[trigger] conns@.contains(pc) <==> exists|a: int, b: int| #![trigger rules@[a].connections@[b]]
                0 <= a < j && rules@[a].enabled && pc.rule_id == rules@[a].id && 0 <= b < rules@[a].connections@.len()
                && spec_wants(*g, rules@[a].connections@[b], rules@[a].trigger, t, pc.output_port, pc.input_port),
            forall|x: LinkId| #[trigger] drops@.contains(x) <==> exists|a: int, b: int| #![trigger rules@[a].connections@[b]]
                0 <= a < j && rules@[a].enabled && rules@[a].exclusive && 0 <= b < rules@[a].connections@.len()
                && spec_drops(*g, rules@[a].connections@[b], x),
        decreases rules.len() - j,
    {
        let rule = &rules[j];
        if rule.enabled {
            let mut s: usize = 0;
            while s < rule.connections.len()
                invariant
                    s <= rule.connections@.len(),
                    j < rules@.len(),
                    ps == deref_ports(pv@),
                    conns@ == queue_for_rules(*g, ps, rules@.take(j as int), t)
                        + queue_for_specs(*g, ps, rule.connections@.take(s as int), rule.trigger, t, rule.id),
                    *rule == rules@[j as int],
                    rule.enabled,
                    forall|i: int| 0 <= i < pv@.len() ==> #[trigger] value_in_map(g.ports@, *pv@[i]),
                    forall|k: u32| g.ports@.contains_key(k) ==> #[trigger] value_in_seq(deref_ports(pv@), g.ports@[k]),
                    forall|i: int| 0 <= i < links@.len() ==> #[trigger] value_in_map(g.links@, links@[i]),
                    forall|k: u32| g.links@.contains_key(k) ==> #[trigger] value_in_seq(links@, g.links@[k]),
                    forall|pc: PendingConnection| #[trigger] conns@.contains(pc) <==> (exists|a: int, b: int| #![trigger rules@[a].connections@[b]]
                        0 <= a < j && rules@[a].enabled && pc.rule_id == rules@[a].id && 0 <= b < rules@[a].connections@.len()
                        && spec_wants(*g, rules@[a].connections@[b], rules@[a].trigger, t, pc.output_port, pc.input_port))
                        || (exists|b: int| 0 <= b < s && pc.rule_id == rule.id
                        && spec_wants(*g, #[trigger] rule.connections@[b], rule.trigger, t, pc.output_port, pc.input_port)),
                    forall|x: LinkId| #[trigger] drops@.contains(x) <==> (exists|a: int, b: int| #![trigger rules@[a].connections@[b]]
                        0 <= a < j && rules@[a].enabled && rules@[a].exclusive && 0 <= b < rules@[a].connections@.len()
                        && spec_drops(*g, rules@[a].connections@[b], x))
                        || (rule.exclusive && exists|b: int| 0 <= b < s && spec_drops(*g, #[trigger] rule.connections@[b], x)),
                decreases rule.connections.len() - s,
            {
                let cs = &rule.connections[s];
                let outs = select_ports(g, &pv, &cs.output_pattern, PortDirection::Output);
                let ins = select_ports(g, &pv, &cs.input_pattern, PortDirection::Input);
                proof {
                    lemma_spec_lists(*g, *cs, rule.trigger, t, rule.id, outs@, ins@, links@);
                }
                let more = connections_for_spec(&outs, &ins, rule.trigger, t, &links, rule.id, Ghost(g.links@));
                let ghost old_c = conns@;
                extend_pending(&mut conns, more);
                proof {
                    let specs = rule.connections@;
                    assert(specs.take(s + 1).drop_last() =~= specs.take(s as int));
                    assert(specs.take(s + 1).last() == *cs);
                    assert(more@ == queue_for_spec(*g, ps, *cs, rule.trigger, t, rule.id));
                    assert(conns@ =~= queue_for_rules(*g, ps, rules@.take(j as int), t)
                        + queue_for_specs(*g, ps, specs.take(s + 1), rule.trigger, t, rule.id));
                    assert(rule.connections@[s as int] == *cs);
                    assert forall|pc: PendingConnection| #[trigger] conns@.contains(pc) <==> old_c.contains(pc) || more@.contains(pc) by {
                        if conns@.contains(pc) {
                            let y = choose|y: int| 0 <= y < conns@.len() && conns@[y] == pc;
                            if y < old_c.len() {
                                assert(old_c[y] == pc);
                            } else {
                                assert(more@[y - old_c.len()] == pc);
                            }
                        }
                        if old_c.contains(pc) {
                            let y = choose|y: int| 0 <= y < old_c.len() && old_c[y] == pc;
                            assert(conns@[y] == pc);
                        }
                        if more@.contains(pc) {
                            let y = choose|y: int| 0 <= y < more@.len() && more@[y] == pc;
                            assert(conns@[old_c.len() + y] == pc);
                        }
                    }
                    assert forall|pc: PendingConnection| more@.contains(pc) <==> pc.rule_id == rule.id
                        && spec_wants(*g, rule.connections@[s as int], rule.trigger, t, pc.output_port, pc.input_port) by {
                    }
                }
                if rule.exclusive {
                    let d1 = drops_from(&outs, &ins, &links, true);
                    let d2 = drops_from(&ins, &outs, &links, false);
                    let ghost old_d = drops@;
                    extend_links(&mut drops, d1);
                    let ghost mid_d = drops@;
                    extend_links(&mut drops, d2);
                    proof {
                        assert forall|x: LinkId| #[trigger] drops@.contains(x) <==> old_d.contains(x) || d1@.contains(x) || d2@.contains(x) by {
                            if drops@.contains(x) {
                                let y = choose|y: int| 0 <= y < drops@.len() && drops@[y] == x;
                                if y < mid_d.len() {
                                    assert(mid_d[y] == x);
                                    if y < old_d.len() {
                                        assert(old_d[y] == x);
                                    } else {
                                        assert(d1@[y - old_d.len()] == x);
                                    }
                                } else {
                                    assert(d2@[y - mid_d.len()] == x);
                                }
                            }
                            if old_d.contains(x) {
                                let y = choose|y: int| 0 <= y < old_d.len() && old_d[y] == x;
                                assert(mid_d[y] == x);
                                assert(drops@[y] == x);
                            }
                            if d1@.contains(x) {
                                let y = choose|y: int| 0 <= y < d1@.len() && d1@[y] == x;
                                assert(mid_d[old_d.len() + y] == x);
                                assert(drops@[old_d.len() + y] == x);
                            }
                            if d2@.contains(x) {
                                let y = choose|y: int| 0 <= y < d2@.len() && d2@[y] == x;
                                assert(drops@[mid_d.len() + y] == x);
                            }
                        }
                        assert forall|x: LinkId| d1@.contains(x) || d2@.contains(x) <==> spec_drops(*g, rule.connections@[s as int], x) by {
                            if d1@.contains(x) {
                                let m = choose|m: int| 0 <= m < links@.len() && #[trigger] links@[m].id == x && strays_from(outs@, ins@, links@[m], true);
                                assert(links@[m].id == x && (strays_from(outs@, ins@, links@[m], true) || strays_from(ins@, outs@, links@[m], false)));
                            }
                            if d2@.contains(x) {
                                let m = choose|m: int| 0 <= m < links@.len() && #[trigger] links@[m].id == x && strays_from(ins@, outs@, links@[m], false);
                                assert(links@[m].id == x && (strays_from(outs@, ins@, links@[m], true) || strays_from(ins@, outs@, links@[m], false)));
                            }
                            if spec_drops(*g, rule.connections@[s as int], x) {
                                let m = choose|m: int| 0 <= m < links@.len() && #[trigger] links@[m].id == x
                                    && (strays_from(outs@, ins@, links@[m], true) || strays_from(ins@, outs@, links@[m], false));
                                if strays_from(outs@, ins@, links@[m], true) {
                                    assert(d1@.contains(x));
                                } else {
                                    assert(d2@.contains(x));
                                }
                            }
                        }
                    }
                }
                proof {
                    assert forall|pc: PendingConnection| #[trigger] conns@.contains(pc) <==> (exists|a: int, b: int| #![trigger rules@[a].connections@[b]]
                        0 <= a < j && rules@[a].enabled && pc.rule_id == rules@[a].id && 0 <= b < rules@[a].connections@.len()
                        && spec_wants(*g, rules@[a].connections@[b], rules@[a].trigger, t, pc.output_port, pc.input_port))
                        || (exists|b: int| 0 <= b < s + 1 && pc.rule_id == rule.id
                        && spec_wants(*g, #[trigger] rule.connections@[b], rule.trigger, t, pc.output_port, pc.input_port)) by {
                        if exists|b: int| 0 <= b < s + 1 && pc.rule_id == rule.id && spec_wants(*g, #[trigger] rule.connections@[b], rule.trigger, t, pc.output_port, pc.input_port) {
                            let b = choose|b: int| 0 <= b < s + 1 && pc.rule_id == rule.id && spec_wants(*g, #[trigger] rule.connections@[b], rule.trigger, t, pc.output_port, pc.input_port);
                            if b < s {
                                assert(old_c.contains(pc));
                            }
                        }
                        if more@.contains(pc) {
                            assert(rule.connections@[s as int] == rule.connections@[s as int]);
                        }
                    }
                    assert forall|x: LinkId| #[trigger] drops@.contains(x) <==> (exists|a: int, b: int| #![trigger rules@[a].connections@[b]]
                        0 <= a < j && rules@[a].enabled && rules@[a].exclusive && 0 <= b < rules@[a].connections@.len()
                        && spec_drops(*g, rules@[a].connections@[b], x))
                        || (rule.exclusive && exists|b: int| 0 <= b < s + 1 && spec_drops(*g, #[trigger] rule.connections@[b], x)) by {
                        if rule.exclusive && exists|b: int| 0 <= b < s + 1 && spec_drops(*g, #[trigger] rule.connections@[b], x) {
                            let b = choose|b: int| 0 <= b < s + 1 && spec_drops(*g, #[trigger] rule.connections@[b], x);
                            if b == s {
                                assert(spec_drops(*g, rule.connections@[s as int], x));
                            }
                        }
                    }
                }
                s += 1;
            }
            proof {
                assert(rule.connections@.take(rule.connections@.len() as int) =~= rule.connections@);
                assert(conns@ == queue_for_rules(*g, ps, rules@.take(j as int), t)
                    + queue_for_specs(*g, ps, rule.connections@, rule.trigger, t, rule.id));
            }
        }
        proof {
            assert(rules@.take(j + 1).drop_last() =~= rules@.take(j as int));
            assert(rules@.take(j + 1).last() == *rule);
            assert(conns@ =~= queue_for_rules(*g, ps, rules@.take(j + 1), t));
            assert forall|pc: PendingConnection| #[trigger] conns@.contains(pc) <==> exists|a: int, b: int| #![trigger rules@[a].connections@[b]]
                0 <= a < j + 1 && rules@[a].enabled && pc.rule_id == rules@[a].id && 0 <= b < rules@[a].connections@.len()
                && spec_wants(*g, rules@[a].connections@[b], rules@[a].trigger, t, pc.output_port, pc.input_port) by {
                if exists|a: int, b: int| #![trigger rules@[a].connections@[b]]
                    0 <= a < j + 1 && rules@[a].enabled && pc.rule_id == rules@[a].id && 0 <= b < rules@[a].connections@.len()
                    && spec_wants(*g, rules@[a].connections@[b], rules@[a].trigger, t, pc.output_port, pc.input_port) {
                    let (a, b) = choose|a: int, b: int| #![trigger rules@[a].connections@[b]]
                        0 <= a < j + 1 && rules@[a].enabled && pc.rule_id == rules@[a].id && 0 <= b < rules@[a].connections@.len()
                        && spec_wants(*g, rules@[a].connections@[b], rules@[a].trigger, t, pc.output_port, pc.input_port);
                    if a == j {
                        assert(rule.connections@[b] == rules@[a].connections@[b]);
                    }
                }
                if conns@.contains(pc) && rule.enabled {
                    if exists|b: int| 0 <= b < rule.connections@.len() && pc.rule_id == rule.id && spec_wants(*g, #[trigger] rule.connections@[b], rule.trigger, t, pc.output_port, pc.input_port) {
                        let b = choose|b: int| 0 <= b < rule.connections@.len() && pc.rule_id == rule.id && spec_wants(*g, #[trigger] rule.connections@[b], rule.trigger, t, pc.output_port, pc.input_port);
                        assert(rules@[j as int].connections@[b] == rule.connections@[b]);
                    }
                }
            }
            assert forall|x: LinkId| #[trigger] drops@.contains(x) <==> exists|a: int, b: int| #![trigger rules@[a].connections@[b]]
                0 <= a < j + 1 && rules@[a].enabled && rules@[a].exclusive && 0 <= b < rules@[a].connections@.len()
                && spec_drops(*g, rules@[a].connections@[b], x) by {
                if exists|a: int, b: int| #![trigger rules@[a].connections@[b]]
                    0 <= a < j + 1 && rules@[a].enabled && rules@[a].exclusive && 0 <= b < rules@[a].connections@.len()
                    && spec_drops(*g, rules@[a].connections@[b], x) {
                    let (a, b) = choose|a: int, b: int| #![trigger rules@[a].connections@[b]]
                        0 <= a < j + 1 && rules@[a].enabled && rules@[a].exclusive && 0 <= b < rules@[a].connections@.len()
                        && spec_drops(*g, rules@[a].connections@[b], x);
                    if a == j {
                        assert(rule.connections@[b] == rules@[a].connections@[b]);
                    }
                }
                if drops@.contains(x) && rule.enabled && rule.exclusive {
                    if exists|b: int| 0 <= b < rule.connections@.len() && spec_drops(*g, #[trigger] rule.connections@[b], x) {
                        let b = choose|b: int| 0 <= b < rule.connections@.len() && spec_drops(*g, #[trigger] rule.connections@[b], x);
                        assert(rules@[j as int].connections@[b] == rule.connections@[b]);
                    }
                }
            }
        }
        j += 1;
    }
    proof {
        assert(rules@.take(rules@.len() as int) =~= rules@);
        assert(exactly_values(ps, g.ports@, every_key()));
    }
    (conns, drops)
}


/// A list holding exactly the values kept from a map is empty exactly when no
/// key is kept.
proof fn lemma_kept_nonempty<V>(r: Seq<V>, m: Map<u32, V>, keep: spec_fn(u32) -> bool)
    requires
        crate::graph_state::exactly_values(r, m, keep),
    ensures
        r.len() > 0 <==> exists|k: u32| m.contains_key(k) && #[trigger] keep(k),
{
    let ks = choose|ks: Seq<u32>| {
        &&& ks.no_duplicates()
        &&& ks.len() == r.len()
        &&& forall|i: int| 0 <= i < ks.len() ==> m.contains_key(#[trigger] ks[i]) && keep(ks[i]) && m[ks[i]] == r[i]
        &&& forall|k: u32| m.contains_key(k) && keep(k) ==> #[trigger] ks.contains(k)
    };
    if r.len() > 0 {
        assert(m.contains_key(ks[0]) && keep(ks[0]));
    }
    if exists|k: u32| m.contains_key(k) && #[trigger] keep(k) {
        let k = choose|k: u32| m.contains_key(k) && #[trigger] keep(k);
        assert(ks.contains(k));
    }
}

/// The rule manager `after` is `before` with the rules applied for node `t`:
/// the rules are unchanged; the queued connections are the earlier ones
/// followed by exactly the connections the rules ask for, one entry for each
/// rule, specification, selected output and selected input, in the order of
/// `queue_for_rules` for the graph's ports taken in some order (nothing is
/// queued when the rules do not apply); and the links queued for removal are
/// the earlier ones followed by those the exclusive rules remove that were not
/// queued yet.
pub open spec fn rules_reconciled(before: RuleManager, after: RuleManager, g: GraphState, t: NodeId) -> bool {
    &&& after.rules == before.rules
    &&& after.rule_counter() == before.rule_counter()
    &&& before.pending_connections@.len() <= after.pending_connections@.len()
    &&& after.pending_connections@.take(before.pending_connections@.len() as int) == before.pending_connections@
    &&& reconcile_applies(g, t) ==> exists|ps: Seq<Port>| exactly_values(ps, g.ports@, every_key())
        && #[trigger] queue_for_rules(g, ps, before.rules@, t) == after.pending_connections@.skip(before.pending_connections@.len() as int)
    &&& !reconcile_applies(g, t) ==> after.pending_connections@ == before.pending_connections@
    &&& forall|pc: PendingConnection| #[trigger] after.pending_connections@.skip(before.pending_connections@.len() as int).contains(pc)
        <==> queued_connection(g, before.rules@, t, pc)
    &&& before.pending_disconnections@.len() <= after.pending_disconnections@.len()
    &&& after.pending_disconnections@.take(before.pending_disconnections@.len() as int) == before.pending_disconnections@
    &&& forall|x: LinkId| #[trigger] after.pending_disconnections@.contains(x)
        <==> before.pending_disconnections@.contains(x) || queued_removal(g, before.rules@, t, x)
}

/// Exclusive rules clear the way for their links: when an enabled exclusive
/// rule applies for node `t`, every link of the graph that enters an input its
/// specification selects from an output the specification does not select, and
/// every link that leaves a selected output for an input not selected, is
/// queued for removal; and every link queued for removal is such a link of
/// some enabled exclusive rule, or was queued before.
pub proof fn lemma_exclusive_removals(before: RuleManager, after: RuleManager, g: GraphState, t: NodeId, j: int, s: int, k: u32)
    requires
        rules_reconciled(before, after, g, t),
        reconcile_applies(g, t),
        0 <= j < before.rules@.len(),
        before.rules@[j].enabled,
        before.rules@[j].exclusive,
        0 <= s < before.rules@[j].connections@.len(),
        g.links@.contains_key(k),
    ensures
        selected_id(g.ports@, g.nodes@, before.rules@[j].connections@[s].input_pattern, PortDirection::Input, g.links@[k].input_port)
            && !selected_id(g.ports@, g.nodes@, before.rules@[j].connections@[s].output_pattern, PortDirection::Output, g.links@[k].output_port)
            ==> after.pending_disconnections@.contains(g.links@[k].id),
        selected_id(g.ports@, g.nodes@, before.rules@[j].connections@[s].output_pattern, PortDirection::Output, g.links@[k].output_port)
            && !selected_id(g.ports@, g.nodes@, before.rules@[j].connections@[s].input_pattern, PortDirection::Input, g.links@[k].input_port)
            ==> after.pending_disconnections@.contains(g.links@[k].id),
{
    let cs = before.rules@[j].connections@[s];
    let l = g.links@[k];
    let in_sel = selected_id(g.ports@, g.nodes@, cs.input_pattern, PortDirection::Input, l.input_port);
    let out_sel = selected_id(g.ports@, g.nodes@, cs.output_pattern, PortDirection::Output, l.output_port);
    if in_sel != out_sel {
        assert(link_strays(g, cs, l));
        assert(spec_drops(g, cs, l.id));
        assert(queued_removal(g, before.rules@, t, l.id));
    }
}

/// Links that an exclusive rule keeps: a link whose two ends are both selected,
/// or both unselected, by every specification of every enabled exclusive rule
/// is not queued for removal unless it was queued before.
pub proof fn lemma_exclusive_keeps(before: RuleManager, after: RuleManager, g: GraphState, t: NodeId, k: u32)
    requires
        rules_reconciled(before, after, g, t),
        g.links@.contains_key(k),
        forall|k2: u32| #[trigger] g.links@.contains_key(k2) && g.links@[k2].id == g.links@[k].id ==> k2 == k,
        forall|j: int, s: int| #![trigger before.rules@[j].connections@[s]]
            0 <= j < before.rules@.len() && before.rules@[j].enabled && before.rules@[j].exclusive
            && 0 <= s < before.rules@[j].connections@.len() ==>
            selected_id(g.ports@, g.nodes@, before.rules@[j].connections@[s].input_pattern, PortDirection::Input, g.links@[k].input_port)
            == selected_id(g.ports@, g.nodes@, before.rules@[j].connections@[s].output_pattern, PortDirection::Output, g.links@[k].output_port),
        !before.pending_disconnections@.contains(g.links@[k].id),
    ensures
        !after.pending_disconnections@.contains(g.links@[k].id),
{
    let x = g.links@[k].id;
    if queued_removal(g, before.rules@, t, x) {
        let (j, s) = choose|j: int, s: int| #![trigger before.rules@[j].connections@[s]]
            0 <= j < before.rules@.len() && before.rules@[j].enabled && before.rules@[j].exclusive
            && 0 <= s < before.rules@[j].connections@.len()
            && spec_drops(g, before.rules@[j].connections@[s], x);
        let k2 = choose|k2: u32| #![trigger g.links@[k2]] g.links@.contains_key(k2) && g.links@[k2].id == x
            && link_strays(g, before.rules@[j].connections@[s], g.links@[k2]);
        assert(k2 == k);
    }
}

/// Applies the enabled rules when node `trigger_node_id` (or one of its ports)
/// appears, once the node and at least one of its ports are in the graph: for
/// each connection specification, every selected output and selected input
/// whose nodes the rule's trigger concerns and that no link joins yet are
/// queued for connection (with the rule's id); for exclusive rules, every link
/// from a selected output to an input not selected, or into a selected input
/// from an output not selected, is queued for removal (once). The rules and
/// everything queued before stay as they are.
pub fn reconcile_rules_for_node(graph: &GraphState, rules: &mut RuleManager, trigger_node_id: NodeId)
    ensures
        rules_reconciled(*old(rules), *final(rules), *graph, trigger_node_id),
{
    let applies = match graph.get_node(&trigger_node_id) {
        Some(_) => {
            let own = graph.ports_for_node(&trigger_node_id);
            proof {
                let keep = |k: u32| graph.ports@[k].node_id == trigger_node_id;
                lemma_kept_nonempty(own@.map_values(|p: &Port| *p), graph.ports@, keep);
                if own@.len() > 0 {
                    let k = choose|k: u32| graph.ports@.contains_key(k) && #[trigger] keep(k);
                    assert(graph.ports@[k].node_id == trigger_node_id);
                }
                if exists|k: u32| #![trigger graph.ports@[k]] graph.ports@.contains_key(k) && graph.ports@[k].node_id == trigger_node_id {
                    let k = choose|k: u32| #![trigger graph.ports@[k]] graph.ports@.contains_key(k) && graph.ports@[k].node_id == trigger_node_id;
                    assert(keep(k));
                }
            }
            own.len() > 0
        },
        None => false,
    };
    proof {
        assert(applies == reconcile_applies(*graph, trigger_node_id));
    }
    let ghost start_c = rules.pending_connections@;
    let ghost start_d = rules.pending_disconnections@;
    if !applies {
        proof {
            assert(rules.pending_connections@.skip(start_c.len() as int) =~= Seq::<PendingConnection>::empty());
            assert(rules.pending_connections@.take(start_c.len() as int) =~= start_c);
            assert(rules.pending_disconnections@.take(start_d.len() as int) =~= start_d);
        }
        proof {
            assert(rules.pending_connections@ =~= start_c);
        }
        return;
    }
    let ghost all_rules = rules.rules@;
    let (conns, drops) = reconcile_plan(graph, &rules.rules, trigger_node_id);
    let mut i: usize = 0;
    while i < conns.len()
        invariant
            i <= conns@.len(),
            rules.rules == old(rules).rules,
            rules.rule_counter() == old(rules).rule_counter(),
            rules.pending_disconnections == old(rules).pending_disconnections,
            rules.pending_connections@ == start_c + conns@.take(i as int),
        decreases conns.len() - i,
    {
        rules.queue_connection(conns[i].output_port, conns[i].input_port, conns[i].rule_id);
        proof {
            assert(conns@.take(i + 1) =~= conns@.take(i as int).push(conns@[i as int]));
        }
        i += 1;
    }
    proof {
        assert(conns@.take(conns@.len() as int) =~= conns@);
        assert(rules.pending_connections@.skip(start_c.len() as int) =~= conns@);
        assert(rules.pending_connections@.take(start_c.len() as int) =~= start_c);
        let ps = choose|ps: Seq<Port>| exactly_values(ps, graph.ports@, every_key()) && conns@ == queue_for_rules(*graph, ps, all_rules, trigger_node_id);
        assert(queue_for_rules(*graph, ps, all_rules, trigger_node_id) == rules.pending_connections@.skip(start_c.len() as int));
    }
    let ghost after_c = rules.pending_connections@;
    let mut d: usize = 0;
    while d < drops.len()
        invariant
            d <= drops@.len(),
            rules.rules == old(rules).rules,
            rules.rule_counter() == old(rules).rule_counter(),
            rules.pending_connections@ == after_c,
            start_d.len() <= rules.pending_disconnections@.len(),
            rules.pending_disconnections@.take(start_d.len() as int) == start_d,
            forall|x: LinkId| #[trigger] rules.pending_disconnections@.contains(x) <==> start_d.contains(x)
                || exists|m: int| 0 <= m < d && #[trigger] drops@[m] == x,
        decreases drops.len() - d,
    {
        let ghost before = rules.pending_disconnections@;
        rules.queue_disconnection(drops[d]);
        proof {
            assert(rules.pending_disconnections@.take(start_d.len() as int) =~= before.take(start_d.len() as int));
            assert forall|x: LinkId| #[trigger] rules.pending_disconnections@.contains(x) <==> start_d.contains(x)
                || exists|m: int| 0 <= m < d + 1 && #[trigger] drops@[m] == x by {
                if before.contains(x) && !rules.pending_disconnections@.contains(x) {
                    let y = choose|y: int| 0 <= y < before.len() && before[y] == x;
                    assert(rules.pending_disconnections@[y] == x);
                }
                if rules.pending_disconnections@.contains(x) && !before.contains(x) {
                    let y = choose|y: int| 0 <= y < rules.pending_disconnections@.len() && rules.pending_disconnections@[y] == x;
                    if y < before.len() {
                        assert(before[y] == x);
                    }
                    assert(drops@[d as int] == x);
                }
                if exists|m: int| 0 <= m < d + 1 && #[trigger] drops@[m] == x {
                    let m = choose|m: int| 0 <= m < d + 1 && #[trigger] drops@[m] == x;
                    if m == d && !before.contains(x) {
                        assert(rules.pending_disconnections@[rules.pending_disconnections@.len() - 1] == x);
                    }
                }
            }
        }
        d += 1;
    }
    proof {
        assert forall|x: LinkId| #[trigger] rules.pending_disconnections@.contains(x)
            <==> start_d.contains(x) || queued_removal(*graph, all_rules, trigger_node_id, x) by {
            if drops@.contains(x) {
                let m = choose|m: int| 0 <= m < drops@.len() && drops@[m] == x;
                assert(drops@[m] == x);
            }
            if exists|m: int| 0 <= m < drops@.len() && #[trigger] drops@[m] == x {
                let m = choose|m: int| 0 <= m < drops@.len() && #[trigger] drops@[m] == x;
                assert(drops@.contains(x));
            }
        }
    }
}

// ----------------------------------------------------------------------------
// Applying a rule by hand
// ----------------------------------------------------------------------------

/// A rule applied by hand asks for the link from port `o` to port `i`: one of
/// its specifications selects `o` as an output and `i` as an input (whatever
/// the trigger), and no link joins them yet.
pub open spec fn manual_wants(g: GraphState, rule: ConnectionRule, o: PortId, i: PortId) -> bool {
    &&& exists|s: int| 0 <= s < rule.connections@.len()
        && selected_id(g.ports@, g.nodes@, #[trigger] rule.connections@[s].output_pattern, PortDirection::Output, o)
        && selected_id(g.ports@, g.nodes@, rule.connections@[s].input_pattern, PortDirection::Input, i)
    &&& !linked(g.links@, o, i)
}

/// The command that creates a link from port `o` to port `i`.
pub open spec fn create_link(o: PortId, i: PortId) -> AppCommand {
    AppCommand::CreateLink { output_port: o, input_port: i }
}

/// The commands that applying the rule with the id by hand sends: a link
/// creation for each pair of ports the rule asks for; none when no rule has the id.
pub open spec fn manual_command(g: GraphState, rules: Seq<ConnectionRule>, id: RuleId, c: AppCommand) -> bool {
    match first_rule_index(rules, id) {
        Some(j) => match c {
            AppCommand::CreateLink { output_port, input_port } => manual_wants(g, rules[j], output_port, input_port),
            _ => false,
        },
        None => false,
    }
}

/// Every command of the list creates a link.
pub open spec fn all_creations(v: Seq<AppCommand>) -> bool {
    forall|k: int| 0 <= k < v.len() ==> #[trigger] v[k] is CreateLink
}

/// The selected list holds a port id exactly when the pattern selects that port.
proof fn lemma_has_id_selected(g: GraphState, pat: MatchPattern, dir: PortDirection, v: Seq<(PortId, NodeId)>)
    requires
        forall|x: (PortId, NodeId)| #[trigger] v.contains(x) <==> selected_end(g.ports@, g.nodes@, pat, dir, x.0, x.1),
    ensures
        forall|id: PortId| #[trigger] has_id(v, id) <==> selected_id(g.ports@, g.nodes@, pat, dir, id),
{
    assert forall|id: PortId| #[trigger] has_id(v, id) <==> selected_id(g.ports@, g.nodes@, pat, dir, id) by {
        if has_id(v, id) {
            let a = choose|a: int| 0 <= a < v.len() && #[trigger] v[a].0 == id;
            assert(v.contains(v[a]));
            let k = choose|k: u32| #![trigger g.ports@[k]] g.ports@.contains_key(k) && g.ports@[k].id == v[a].0 && g.ports@[k].node_id == v[a].1
                && port_selected(pat, g.nodes@, g.ports@[k], dir);
        }
        if selected_id(g.ports@, g.nodes@, pat, dir, id) {
            let k = choose|k: u32| #![trigger g.ports@[k]] g.ports@.contains_key(k) && g.ports@[k].id == id && port_selected(pat, g.nodes@, g.ports@[k], dir);
            assert(selected_end(g.ports@, g.nodes@, pat, dir, id, g.ports@[k].node_id));
            assert(v.contains((id, g.ports@[k].node_id)));
            let a = choose|a: int| 0 <= a < v.len() && v[a] == (id, g.ports@[k].node_id);
            assert(v[a].0 == id);
        }
    }
}

/// A list that covers the links joins two ports exactly when the graph does.
proof fn lemma_joined_linked(g: GraphState, lv: Seq<Link>)
    requires
        forall|i: int| 0 <= i < lv.len() ==> #[trigger] value_in_map(g.links@, lv[i]),
        forall|k: u32| g.links@.contains_key(k) ==> #[trigger] value_in_seq(lv, g.links@[k]),
    ensures
        forall|o: PortId, i: PortId| #[trigger] vec_joined(lv, o, i) <==> linked(g.links@, o, i),
{
    assert forall|o: PortId, i: PortId| #[trigger] vec_joined(lv, o, i) <==> linked(g.links@, o, i) by {
        if vec_joined(lv, o, i) {
            let m = choose|m: int| 0 <= m < lv.len() && #[trigger] lv[m].output_port == o && lv[m].input_port == i;
            assert(value_in_map(g.links@, lv[m]));
            let k = choose|k: u32| g.links@.contains_key(k) && g.links@[k] == lv[m];
            assert(g.links@[k].output_port == o);
        }
        if linked(g.links@, o, i) {
            let k = choose|k: u32| g.links@.contains_key(k) && #[trigger] g.links@[k].output_port == o && g.links@[k].input_port == i;
            assert(value_in_seq(lv, g.links@[k]));
            let m = choose|m: int| 0 <= m < lv.len() && lv[m] == g.links@[k];
            assert(lv[m].output_port == o);
        }
    }
}

/// The link creations from one output port: one for each selected input, in
/// order, that no link joins to it yet.
pub open spec fn creations_from_output(o: PortId, ins: Seq<(PortId, NodeId)>, links: Map<u32, Link>) -> Seq<AppCommand>
    decreases ins.len(),
{
    if ins.len() == 0 {
        Seq::empty()
    } else {
        let rest = creations_from_output(o, ins.drop_last(), links);
        if !linked(links, o, ins.last().0) { rest.push(create_link(o, ins.last().0)) } else { rest }
    }
}

/// The link creations from the selected outputs, in order.
pub open spec fn creations_for_outputs(outs: Seq<(PortId, NodeId)>, ins: Seq<(PortId, NodeId)>, links: Map<u32, Link>) -> Seq<AppCommand>
    decreases outs.len(),
{
    if outs.len() == 0 {
        Seq::empty()
    } else {
        creations_for_outputs(outs.drop_last(), ins, links) + creations_from_output(outs.last().0, ins, links)
    }
}

/// The link creations for the specifications of a rule applied by hand, in
/// order, the ports taken in the order `ps`: for each specification, for each
/// selected output, each selected input that no link joins to it yet.
pub open spec fn creations_for_specs(g: GraphState, ps: Seq<Port>, specs: Seq<ConnectionSpec>) -> Seq<AppCommand>
    decreases specs.len(),
{
    if specs.len() == 0 {
        Seq::empty()
    } else {
        let cs = specs.last();
        creations_for_specs(g, ps, specs.drop_last()) + creations_for_outputs(
            selected_in_order(ps, g.nodes@, cs.output_pattern, PortDirection::Output),
            selected_in_order(ps, g.nodes@, cs.input_pattern, PortDirection::Input),
            g.links@,
        )
    }
}

/// Link creations from one output to every listed input that it is not joined to yet.
fn creations_from(o: PortId, ins: &Vec<(PortId, NodeId)>, links: &Vec<Link>, Ghost(gl): Ghost<Map<u32, Link>>) -> (r: Vec<AppCommand>)
    requires
        forall|m: int| 0 <= m < links@.len() ==> #[trigger] value_in_map(gl, links@[m]),
        forall|k: u32| gl.contains_key(k) ==> #[trigger] value_in_seq(links@, gl[k]),
    ensures
        all_creations(r@),
        forall|x: PortId, y: PortId| #[trigger] r@.contains(create_link(x, y)) <==>
            x == o && has_id(ins@, y) && !vec_joined(links@, o, y),
        r@ == creations_from_output(o, ins@, gl),
{
    let mut r: Vec<AppCommand> = Vec::new();
    let mut b: usize = 0;
    while b < ins.len()
        invariant
            b <= ins@.len(),
            forall|m: int| 0 <= m < links@.len() ==> #[trigger] value_in_map(gl, links@[m]),
            forall|k: u32| gl.contains_key(k) ==> #[trigger] value_in_seq(links@, gl[k]),
            r@ == creations_from_output(o, ins@.take(b as int), gl),
            all_creations(r@),
            forall|x: PortId, y: PortId| #[trigger] r@.contains(create_link(x, y)) <==>
                x == o && (exists|m: int| 0 <= m < b && #[trigger] ins@[m].0 == y) && !vec_joined(links@, o, y),
        decreases ins.len() - b,
    {
        let i = ins[b].0;
        let ghost old_r = r@;
        let go = !joined(links, o, i);
        if go {
            r.push(AppCommand::CreateLink { output_port: o, input_port: i });
        }
        proof {
            lemma_vec_joined_linked(links@, gl, o, i);
            assert(ins@.take(b + 1).drop_last() =~= ins@.take(b as int));
            assert(ins@.take(b + 1).last() == ins@[b as int]);
            assert forall|x: PortId, y: PortId| #[trigger] r@.contains(create_link(x, y)) <==>
                x == o && (exists|m: int| 0 <= m < b + 1 && #[trigger] ins@[m].0 == y) && !vec_joined(links@, o, y) by {
                if go {
                    assert(r@ == old_r.push(create_link(o, i)));
                    lemma_seq_contains_after_push(old_r, create_link(o, i), create_link(x, y));
                } else {
                    assert(r@ == old_r);
                }
                if y == i {
                    assert(ins@[b as int].0 == y);
                }
                if exists|m: int| 0 <= m < b + 1 && #[trigger] ins@[m].0 == y {
                    let m = choose|m: int| 0 <= m < b + 1 && #[trigger] ins@[m].0 == y;
                    if m < b {
                        assert(exists|m: int| 0 <= m < b && #[trigger] ins@[m].0 == y);
                    }
                }
            }
            assert forall|k: int| 0 <= k < r@.len() implies #[trigger] r@[k] is CreateLink by {
                if k < old_r.len() {
                    assert(r@[k] == old_r[k]);
                }
            }
        }
        b += 1;
    }
    proof {
        assert(ins@.take(ins@.len() as int) =~= ins@);
    }
    r
}

/// Link creations for every listed output and input not joined yet.
fn creations_for(outs: &Vec<(PortId, NodeId)>, ins: &Vec<(PortId, NodeId)>, links: &Vec<Link>, Ghost(gl): Ghost<Map<u32, Link>>) -> (r: Vec<AppCommand>)
    requires
        forall|m: int| 0 <= m < links@.len() ==> #[trigger] value_in_map(gl, links@[m]),
        forall|k: u32| gl.contains_key(k) ==> #[trigger] value_in_seq(links@, gl[k]),
    ensures
        all_creations(r@),
        forall|x: PortId, y: PortId| #[trigger] r@.contains(create_link(x, y)) <==>
            has_id(outs@, x) && has_id(ins@, y) && !vec_joined(links@, x, y),
        r@ == creations_for_outputs(outs@, ins@, gl),
{
    let mut r: Vec<AppCommand> = Vec::new();
    let mut a: usize = 0;
    while a < outs.len()
        invariant
            a <= outs@.len(),
            forall|m: int| 0 <= m < links@.len() ==> #[trigger] value_in_map(gl, links@[m]),
            forall|k: u32| gl.contains_key(k) ==> #[trigger] value_in_seq(links@, gl[k]),
            r@ == creations_for_outputs(outs@.take(a as int), ins@, gl),
            all_creations(r@),
            forall|x: PortId, y: PortId| #[trigger] r@.contains(create_link(x, y)) <==>
                (exists|m: int| 0 <= m < a && #[trigger] outs@[m].0 == x) && has_id(ins@, y) && !vec_joined(links@, x, y),
        decreases outs.len() - a,
    {
        let mut more = creations_from(outs[a].0, ins, links, Ghost(gl));
        let ghost old_r = r@;
        let ghost more_v = more@;
        r.append(&mut more);
        proof {
            assert(r@ == old_r + more_v);
            assert(outs@.take(a + 1).drop_last() =~= outs@.take(a as int));
            assert(outs@.take(a + 1).last() == outs@[a as int]);
            assert forall|x: PortId, y: PortId| #[trigger] r@.contains(create_link(x, y)) <==>
                (exists|m: int| 0 <= m < a + 1 && #[trigger] outs@[m].0 == x) && has_id(ins@, y) && !vec_joined(links@, x, y) by {
                lemma_seq_concat_contains_all_elements(old_r, more_v, create_link(x, y));
                if x == outs@[a as int].0 {
                    assert(outs@[a as int].0 == x);
                }
                if exists|m: int| 0 <= m < a + 1 && #[trigger] outs@[m].0 == x {
                    let m = choose|m: int| 0 <= m < a + 1 && #[trigger] outs@[m].0 == x;
                    if m < a {
                        assert(exists|m: int| 0 <= m < a && #[trigger] outs@[m].0 == x);
                    }
                }
            }
            assert forall|k: int| 0 <= k < r@.len() implies #[trigger] r@[k] is CreateLink by {
                if k < old_r.len() {
                    assert(r@[k] == old_r[k]);
                } else {
                    assert(r@[k] == more_v[k - old_r.len()]);
                }
            }
        }
        a += 1;
    }
    proof {
        assert(outs@.take(outs@.len() as int) =~= outs@);
    }
    r
}

/// The commands that applying a rule by hand sends: for each of the rule's
/// specifications, a link creation from every output port it selects to every
/// input port it selects that are not linked yet. Nothing when no rule has the id.
pub fn apply_rule_now(g: &GraphState, rules: &RuleManager, rule_id: &RuleId) -> (r: Vec<AppCommand>)
    ensures
        forall|c: AppCommand| #[trigger] r@.contains(c) <==> manual_command(*g, rules.rules@, *rule_id, c),
        match first_rule_index(rules.rules@, *rule_id) {
            Some(j) => exists|ps: Seq<Port>| exactly_values(ps, g.ports@, every_key())
                && #[trigger] creations_for_specs(*g, ps, rules.rules@[j].connections@) == r@,
            None => r@.len() == 0,
        },
{
    let rule = match rules.get_rule(rule_id) {
        Some(r) => r,
        None => {
            return Vec::new();
        },
    };
    let ghost j = first_rule_index(rules.rules@, *rule_id)->0;
    let pv = g.all_ports();
    let ghost ps = deref_ports(pv@);
    let links = g.all_links();
    proof {
        lemma_values_cover(deref_ports(pv@), g.ports@);
        lemma_values_cover(links@, g.links@);
        assert forall|i: int| 0 <= i < pv@.len() implies #[trigger] value_in_map(g.ports@, *pv@[i]) by {
            assert(deref_ports(pv@)[i] == *pv@[i]);
        }
        lemma_joined_linked(*g, links@);
    }
    let mut r: Vec<AppCommand> = Vec::new();
    let mut s: usize = 0;
    while s < rule.connections.len()
        invariant
            s <= rule.connections@.len(),
            ps == deref_ports(pv@),
            forall|i: int| 0 <= i < links@.len() ==> #[trigger] value_in_map(g.links@, links@[i]),
            forall|k: u32| g.links@.contains_key(k) ==> #[trigger] value_in_seq(links@, g.links@[k]),
            r@ == creations_for_specs(*g, ps, rule.connections@.take(s as int)),
            *rule == rules.rules@[j],
            first_rule_index(rules.rules@, *rule_id) == Some(j),
            forall|i: int| 0 <= i < pv@.len() ==> #[trigger] value_in_map(g.ports@, *pv@[i]),
            forall|k: u32| g.ports@.contains_key(k) ==> #[trigger] value_in_seq(deref_ports(pv@), g.ports@[k]),
            forall|o: PortId, i: PortId| #[trigger] vec_joined(links@, o, i) <==> linked(g.links@, o, i),
            all_creations(r@),
            forall|x: PortId, y: PortId| #[trigger] r@.contains(create_link(x, y)) <==>
                (exists|m: int| 0 <= m < s
                    && selected_id(g.ports@, g.nodes@, #[trigger] rule.connections@[m].output_pattern, PortDirection::Output, x)
                    && selected_id(g.ports@, g.nodes@, rule.connections@[m].input_pattern, PortDirection::Input, y))
                && !linked(g.links@, x, y),
        decreases rule.connections.len() - s,
    {
        let cs = &rule.connections[s];
        let outs = select_ports(g, &pv, &cs.output_pattern, PortDirection::Output);
        let ins = select_ports(g, &pv, &cs.input_pattern, PortDirection::Input);
        proof {
            lemma_has_id_selected(*g, cs.output_pattern, PortDirection::Output, outs@);
            lemma_has_id_selected(*g, cs.input_pattern, PortDirection::Input, ins@);
        }
        let mut more = creations_for(&outs, &ins, &links, Ghost(g.links@));
        let ghost old_r = r@;
        let ghost more_v = more@;
        r.append(&mut more);
        proof {
            assert(rule.connections@[s as int] == *cs);
            assert(r@ == old_r + more_v);
            assert(rule.connections@.take(s + 1).drop_last() =~= rule.connections@.take(s as int));
            assert(rule.connections@.take(s + 1).last() == *cs);
            assert forall|x: PortId, y: PortId| #[trigger] r@.contains(create_link(x, y)) <==>
                (exists|m: int| 0 <= m < s + 1
                    && selected_id(g.ports@, g.nodes@, #[trigger] rule.connections@[m].output_pattern, PortDirection::Output, x)
                    && selected_id(g.ports@, g.nodes@, rule.connections@[m].input_pattern, PortDirection::Input, y))
                && !linked(g.links@, x, y) by {
                lemma_seq_concat_contains_all_elements(old_r, more_v, create_link(x, y));
                if exists|m: int| 0 <= m < s + 1
                    && selected_id(g.ports@, g.nodes@, #[trigger] rule.connections@[m].output_pattern, PortDirection::Output, x)
                    && selected_id(g.ports@, g.nodes@, rule.connections@[m].input_pattern, PortDirection::Input, y) {
                    let m = choose|m: int| 0 <= m < s + 1
                        && selected_id(g.ports@, g.nodes@, #[trigger] rule.connections@[m].output_pattern, PortDirection::Output, x)
                        && selected_id(g.ports@, g.nodes@, rule.connections@[m].input_pattern, PortDirection::Input, y);
                    if m < s {
                        assert(exists|m: int| 0 <= m < s
                            && selected_id(g.ports@, g.nodes@, #[trigger] rule.connections@[m].output_pattern, PortDirection::Output, x)
                            && selected_id(g.ports@, g.nodes@, rule.connections@[m].input_pattern, PortDirection::Input, y));
                    }
                }
            }
            assert forall|k: int| 0 <= k < r@.len() implies #[trigger] r@[k] is CreateLink by {
                if k < old_r.len() {
                    assert(r@[k] == old_r[k]);
                } else {
                    assert(r@[k] == more_v[k - old_r.len()]);
                }
            }
        }
        s += 1;
    }
    proof {
        assert(rule.connections@.take(rule.connections@.len() as int) =~= rule.connections@);
        assert(exactly_values(ps, g.ports@, every_key()));
        assert(creations_for_specs(*g, ps, rules.rules@[j].connections@) == r@);
        assert forall|c: AppCommand| #[trigger] r@.contains(c) <==> manual_command(*g, rules.rules@, *rule_id, c) by {
            match c {
                AppCommand::CreateLink { output_port, input_port } => {
                    assert(c == create_link(output_port, input_port));
                },
                _ => {
                    if r@.contains(c) {
                        let k = choose|k: int| 0 <= k < r@.len() && r@[k] == c;
                        assert(r@[k] is CreateLink);
                    }
                },
            }
        }
    }
    r
}

}
