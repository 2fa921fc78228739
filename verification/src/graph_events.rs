//! What each PipeWire event does to the graph, the connection state and the
//! user's state: the marks and names a node gets back by its identifier, its
//! groups, and the queues of the connection rules.
//!
//! Events about volumes, mute and signal levels carry measurements and are
//! handled by the application around this.

use vstd::prelude::*;

use crate::events::{LinkInfo, NodeInfo, PortInfo, PwError};
use crate::graph::{Link, Node, Port};
use crate::graph_state::{GraphState, links_without_node, links_without_port, nodes_after_port_added, nodes_after_port_removed, ports_without_node};
use crate::groups::groups_reconciled;
use crate::ids::{LinkId, NodeId, NodeIdentifier, NodeIdentifierView, PortId};
use crate::reconcile::{reconcile_rules_for_node, rules_reconciled};
use crate::restore::{graph_identifier, identifier_in_graph};
use crate::state::ConnectionState;
use crate::ui_state::{UiState, forgotten, only_changes};

verus! {

/// A PipeWire event that changes the graph or the connection.
#[derive(Debug, Clone)]
pub enum GraphEvent {
    /// Connected to PipeWire.
    Connected,
    /// Disconnected from PipeWire.
    Disconnected,
    /// Trying to reconnect.
    Reconnecting {
        /// Current attempt.
        attempt: u32,
        /// Maximum number of attempts.
        max_attempts: u32,
    },
    /// A PipeWire error.
    Error(PwError),
    /// A node appeared.
    NodeAdded(NodeInfo),
    /// A node disappeared.
    NodeRemoved(NodeId),
    /// A port appeared.
    PortAdded(PortInfo),
    /// A port disappeared.
    PortRemoved(PortId),
    /// A link appeared.
    LinkAdded(LinkInfo),
    /// A link disappeared.
    LinkRemoved(LinkId),
    /// A node's mute state changed (the volume it belongs to is kept by the application).
    MuteChanged(NodeId, bool),
    /// Volume control failed for a node, with the reason.
    VolumeControlFailed(NodeId, String),
}

/// The node made from a node description: its fields, no ports yet, active.
pub open spec fn node_from_info(n: Node, info: NodeInfo) -> bool {
    &&& n.id == info.id
    &&& n.name == info.name
    &&& n.client_id == info.client_id
    &&& n.media_class == info.media_class
    &&& n.application_name == info.application_name
    &&& n.description == info.description
    &&& n.nick == info.nick
    &&& n.format == info.format
    &&& n.port_ids@.len() == 0
    &&& n.is_active
    &&& n.layer == info.layer
}

/// The port made from a port description.
pub open spec fn port_from_info(info: PortInfo) -> Port {
    Port {
        id: info.id,
        node_id: info.node_id,
        name: info.name,
        direction: info.direction,
        channel: info.channel,
        physical_path: info.physical_path,
        alias: info.alias,
        is_monitor: info.is_monitor,
        is_control: info.is_control,
    }
}

/// The link made from a link description.
pub open spec fn link_from_info(info: LinkInfo) -> Link {
    Link {
        id: info.id,
        output_port: info.output_port,
        input_port: info.input_port,
        output_node: info.output_node,
        input_node: info.input_node,
        is_active: info.active,
        state: info.state,
    }
}

/// The graph is unchanged.
pub open spec fn graph_same(a: GraphState, b: GraphState) -> bool {
    &&& b.nodes@ == a.nodes@
    &&& b.ports@ == a.ports@
    &&& b.links@ == a.links@
    &&& b.volume_control_failed@ == a.volume_control_failed@
}

/// Everything of the user's state but the rules is the same.
pub open spec fn same_but_rules(u0: UiState, u1: UiState) -> bool {
    &&& u1.selected_nodes == u0.selected_nodes
    &&& u1.uninteresting_nodes == u0.uninteresting_nodes
    &&& u1.persistent_uninteresting == u0.persistent_uninteresting
    &&& u1.custom_names == u0.custom_names
    &&& u1.persistent_custom_names == u0.persistent_custom_names
    &&& u1.groups == u0.groups
    &&& u1.selected_link == u0.selected_link
    &&& u1.filters == u0.filters
    &&& u1.hide_uninteresting == u0.hide_uninteresting
    &&& u1.show_internal_meter_nodes == u0.show_internal_meter_nodes
    &&& u1.layer_visibility == u0.layer_visibility
    &&& u1.initial_layout_done == u0.initial_layout_done
}

/// The user's state after node `id` with identifier `ident` appeared in graph
/// `g`: its uninteresting mark and custom name come back if saved for the
/// identifier, the groups that list the identifier gain it, and the rules run
/// for it; the saved marks and names and everything else stay.
pub open spec fn ui_node_added(u0: UiState, u1: UiState, g: GraphState, id: NodeId, ident: NodeIdentifierView) -> bool {
    &&& u1.uninteresting_nodes@ == if u0.marked(ident) { u0.uninteresting_nodes@.insert(id.0) } else { u0.uninteresting_nodes@ }
    &&& match u0.saved_name(ident) {
        Some(name) => {
            &&& u1.custom_names@.dom() == u0.custom_names@.dom().insert(id.0)
            &&& u1.custom_names@[id.0]@ == name
            &&& forall|k: u32| k != id.0 && #[trigger] u0.custom_names@.contains_key(k) ==> u1.custom_names@[k] == u0.custom_names@[k]
        },
        None => u1.custom_names@ == u0.custom_names@,
    }
    &&& u1.persistent_uninteresting == u0.persistent_uninteresting
    &&& u1.persistent_custom_names == u0.persistent_custom_names
    &&& groups_reconciled(u0.groups, u1.groups, id, ident)
    &&& rules_reconciled(u0.rules, u1.rules, g, id)
    &&& u1.selected_nodes == u0.selected_nodes
    &&& u1.selected_link == u0.selected_link
    &&& u1.filters == u0.filters
    &&& u1.hide_uninteresting == u0.hide_uninteresting
    &&& u1.show_internal_meter_nodes == u0.show_internal_meter_nodes
    &&& u1.layer_visibility == u0.layer_visibility
    &&& u1.initial_layout_done == u0.initial_layout_done
}

/// The optional identifier is present and has the view.
pub open spec fn gives_identifier(r: Option<NodeIdentifier>, v: NodeIdentifierView) -> bool {
    match r {
        Some(i) => i@ == v,
        None => false,
    }
}

/// What applying an event does: the new graph, connection state and user's
/// state given the old ones, and the identifier returned for a new node.
pub open spec fn event_applied(
    g0: GraphState, c0: ConnectionState, u0: UiState,
    g1: GraphState, c1: ConnectionState, u1: UiState,
    event: GraphEvent, r: Option<NodeIdentifier>,
) -> bool {
    &&& !(event is NodeAdded) ==> r is None
    &&& match event {
        GraphEvent::Connected => c1 == ConnectionState::Connected && graph_same(g0, g1) && u1 == u0,
        GraphEvent::Disconnected => {
            &&& c1 == ConnectionState::Disconnected
            &&& g1.nodes@ == Map::<u32, Node>::empty()
            &&& g1.ports@ == Map::<u32, Port>::empty()
            &&& g1.links@ == Map::<u32, Link>::empty()
            &&& g1.volume_control_failed@ == Map::<u32, String>::empty()
            &&& u1 == u0
        },
        GraphEvent::Reconnecting { .. } => c1 == ConnectionState::Connecting && graph_same(g0, g1) && u1 == u0,
        GraphEvent::Error(_) => c1 == ConnectionState::Error && graph_same(g0, g1) && u1 == u0,
        GraphEvent::NodeAdded(info) => {
            &&& c1 == c0
            &&& exists|n: Node| node_from_info(n, info) && #[trigger] g1.nodes@ == g0.nodes@.insert(info.id.0, n)
                && ui_node_added(u0, u1, g1, info.id, graph_identifier(n, g1.nodes@))
                && gives_identifier(r, graph_identifier(n, g1.nodes@))
            &&& g1.ports@ == g0.ports@
            &&& g1.links@ == g0.links@
            &&& g1.volume_control_failed@ == g0.volume_control_failed@
        },
        GraphEvent::NodeRemoved(id) => {
            &&& c1 == c0
            &&& g1.nodes@ == g0.nodes@.remove(id.0)
            &&& g1.ports@ == ports_without_node(g0.ports@, id)
            &&& g1.links@ == links_without_node(g0.links@, id)
            &&& g1.volume_control_failed@ == g0.volume_control_failed@
            &&& forgotten(u0, u1, id)
            &&& only_changes(u0, u1, true, true, true)
            &&& u1.persistent_uninteresting == u0.persistent_uninteresting
            &&& u1.persistent_custom_names == u0.persistent_custom_names
        },
        GraphEvent::PortAdded(info) => {
            &&& c1 == c0
            &&& if g0.nodes@.contains_key(info.node_id.0) {
                &&& g1.ports@ == g0.ports@.insert(info.id.0, port_from_info(info))
                &&& nodes_after_port_added(g0.nodes@, g1.nodes@, port_from_info(info))
                &&& g1.links@ == g0.links@
                &&& g1.volume_control_failed@ == g0.volume_control_failed@
                &&& rules_reconciled(u0.rules, u1.rules, g1, info.node_id)
                &&& same_but_rules(u0, u1)
            } else {
                graph_same(g0, g1) && u1 == u0
            }
        },
        GraphEvent::PortRemoved(id) => {
            &&& c1 == c0
            &&& g1.ports@ == g0.ports@.remove(id.0)
            &&& g1.links@ == links_without_port(g0.links@, id)
            &&& nodes_after_port_removed(g0.nodes@, g0.ports@, g1.nodes@, id)
            &&& g1.volume_control_failed@ == g0.volume_control_failed@
            &&& u1 == u0
        },
        GraphEvent::LinkAdded(info) => {
            &&& c1 == c0
            &&& u1 == u0
            &&& if g0.nodes@.contains_key(info.output_node.0) && g0.nodes@.contains_key(info.input_node.0) {
                &&& g1.links@ == g0.links@.insert(info.id.0, link_from_info(info))
                &&& g1.nodes@ == g0.nodes@
                &&& g1.ports@ == g0.ports@
                &&& g1.volume_control_failed@ == g0.volume_control_failed@
            } else {
                graph_same(g0, g1)
            }
        },
        GraphEvent::LinkRemoved(id) => {
            &&& c1 == c0
            &&& g1.links@ == g0.links@.remove(id.0)
            &&& g1.nodes@ == g0.nodes@
            &&& g1.ports@ == g0.ports@
            &&& g1.volume_control_failed@ == g0.volume_control_failed@
            &&& u1 == u0
        },
        GraphEvent::MuteChanged(..) => c1 == c0 && graph_same(g0, g1) && u1 == u0,
        GraphEvent::VolumeControlFailed(id, msg) => {
            &&& c1 == c0
            &&& g1.volume_control_failed@ == g0.volume_control_failed@.insert(id.0, msg)
            &&& g1.nodes@ == g0.nodes@
            &&& g1.ports@ == g0.ports@
            &&& g1.links@ == g0.links@
            &&& u1 == u0
        },
    }
}

/// Handles a node that appeared: adds it to the graph (active, with no ports
/// yet), gives it back its uninteresting mark, custom name and group
/// memberships by its stable identifier, and runs the connection rules for it.
/// Returns the identifier, by which the application restores its position and volume.
pub fn handle_node_added(graph: &mut GraphState, ui: &mut UiState, info: NodeInfo) -> (r: NodeIdentifier)
    ensures
        exists|n: Node| node_from_info(n, info) && #[trigger] final(graph).nodes@ == old(graph).nodes@.insert(info.id.0, n)
            && ui_node_added(*old(ui), *final(ui), *final(graph), info.id, graph_identifier(n, final(graph).nodes@))
            && r@ == graph_identifier(n, final(graph).nodes@),
        final(graph).ports@ == old(graph).ports@,
        final(graph).links@ == old(graph).links@,
        final(graph).volume_control_failed@ == old(graph).volume_control_failed@,
{
    let id = info.id;
    let node = Node {
        id: info.id,
        name: info.name,
        client_id: info.client_id,
        media_class: info.media_class,
        application_name: info.application_name,
        description: info.description,
        nick: info.nick,
        format: info.format,
        port_ids: Vec::new(),
        is_active: true,
        layer: info.layer,
    };
    let ghost n = node;
    proof {
        assert(node_from_info(n, info));
    }
    graph.add_node(node);
    let identifier = match graph.get_node(&id) {
        Some(added) => identifier_in_graph(added, graph),
        None => {
            proof {
                assert(graph.nodes@.contains_key(id.0));
            }
            NodeIdentifier::new(String::new(), None, None)
        },
    };
    let ghost u0 = *ui;
    ui.restore_uninteresting_for_node(id, &identifier);
    let ghost u1 = *ui;
    ui.restore_custom_name_for_node(id, &identifier);
    let ghost u2 = *ui;
    ui.groups.reconcile_node(id, &identifier);
    let ghost u3 = *ui;
    reconcile_rules_for_node(graph, &mut ui.rules, id);
    proof {
        assert(graph.nodes@[id.0] == n);
        assert(identifier@ == graph_identifier(n, graph.nodes@));
        assert(u1.marked(identifier@) == u0.marked(identifier@));
        assert(u2.saved_name(identifier@) == u1.saved_name(identifier@));
        assert(u1.saved_name(identifier@) == u0.saved_name(identifier@));
        assert(u2.uninteresting_nodes@ == u1.uninteresting_nodes@);
        assert(u1.custom_names@ == u0.custom_names@);
        assert(ui_node_added(u0, *ui, *graph, id, graph_identifier(n, graph.nodes@)));
    }
    identifier
}

/// Applies one PipeWire event: the connection state follows the connection
/// events (disconnecting clears the graph); nodes, ports and links are added
/// and removed (a port of an unknown node and a link touching an unknown node
/// are ignored); a node that appears is handled by `handle_node_added` and its
/// identifier returned; a node that disappears is forgotten by the user's
/// state; a port that appears makes the connection rules run for its node; a
/// volume control failure is recorded for its node.
pub fn apply_graph_event(graph: &mut GraphState, connection: &mut ConnectionState, ui: &mut UiState, event: GraphEvent) -> (r: Option<NodeIdentifier>)
    ensures
        event_applied(*old(graph), *old(connection), *old(ui), *final(graph), *final(connection), *final(ui), event, r),
{
    match event {
        GraphEvent::Connected => {
            *connection = ConnectionState::Connected;
            None
        },
        GraphEvent::Disconnected => {
            *connection = ConnectionState::Disconnected;
            graph.clear();
            None
        },
        GraphEvent::Reconnecting { .. } => {
            *connection = ConnectionState::Connecting;
            None
        },
        GraphEvent::Error(_) => {
            *connection = ConnectionState::Error;
            None
        },
        GraphEvent::NodeAdded(info) => {
            let identifier = handle_node_added(graph, ui, info);
            Some(identifier)
        },
        GraphEvent::NodeRemoved(id) => {
            graph.remove_node(&id);
            ui.cleanup_removed_node(&id);
            None
        },
        GraphEvent::PortAdded(info) => {
            let node_id = info.node_id;
            if graph.get_node(&node_id).is_some() {
                let port = Port {
                    id: info.id,
                    node_id: info.node_id,
                    name: info.name,
                    direction: info.direction,
                    channel: info.channel,
                    physical_path: info.physical_path,
                    alias: info.alias,
                    is_monitor: info.is_monitor,
                    is_control: info.is_control,
                };
                graph.add_port(port);
                reconcile_rules_for_node(graph, &mut ui.rules, node_id);
            }
            None
        },
        GraphEvent::PortRemoved(id) => {
            graph.remove_port(&id);
            None
        },
        GraphEvent::LinkAdded(info) => {
            if graph.get_node(&info.output_node).is_some() && graph.get_node(&info.input_node).is_some() {
                let link = Link {
                    id: info.id,
                    output_port: info.output_port,
                    input_port: info.input_port,
                    output_node: info.output_node,
                    input_node: info.input_node,
                    is_active: info.active,
                    state: info.state,
                };
                graph.add_link(link);
            }
            None
        },
        GraphEvent::LinkRemoved(id) => {
            graph.remove_link(&id);
            None
        },
        GraphEvent::MuteChanged(..) => None,
        GraphEvent::VolumeControlFailed(id, msg) => {
            graph.volume_control_failed.insert(id.0, msg);
            None
        },
    }
}


/// The event does not break the graph's references: a new port does not move an
/// existing port id to another node, and a new link between known nodes joins
/// ports of the graph that belong to those nodes.
pub open spec fn event_well_formed(g: GraphState, event: GraphEvent) -> bool {
    match event {
        GraphEvent::PortAdded(info) => g.ports@.contains_key(info.id.0) ==> g.ports@[info.id.0].node_id == info.node_id,
        GraphEvent::LinkAdded(info) => {
            &&& g.ports@.contains_key(info.output_port.0)
            &&& g.ports@.contains_key(info.input_port.0)
            &&& g.ports@[info.output_port.0].node_id == info.output_node
            &&& g.ports@[info.input_port.0].node_id == info.input_node
        },
        _ => true,
    }
}

/// Applying an event to a consistent graph leaves it consistent (every port
/// belongs to a node of the graph, every link joins ports of the graph that
/// belong to the nodes it names), for events that do not themselves name
/// ports or nodes wrongly.
pub proof fn lemma_event_keeps_consistent(
    g0: GraphState, c0: ConnectionState, u0: UiState,
    g1: GraphState, c1: ConnectionState, u1: UiState,
    event: GraphEvent, r: Option<NodeIdentifier>,
)
    requires
        g0.consistent(),
        event_well_formed(g0, event),
        event_applied(g0, c0, u0, g1, c1, u1, event, r),
    ensures
        g1.consistent(),
{
    match event {
        GraphEvent::Disconnected => {
            crate::graph_state::lemma_empty_consistent();
        },
        GraphEvent::NodeAdded(info) => {
            let n = choose|n: Node| node_from_info(n, info) && #[trigger] g1.nodes@ == g0.nodes@.insert(info.id.0, n)
                && ui_node_added(u0, u1, g1, info.id, graph_identifier(n, g1.nodes@))
                && gives_identifier(r, graph_identifier(n, g1.nodes@));
            crate::graph_state::lemma_add_node_consistent(g0.nodes@, g0.ports@, g0.links@, n);
        },
        GraphEvent::NodeRemoved(id) => {
            crate::graph_state::lemma_remove_node_consistent(g0.nodes@, g0.ports@, g0.links@, id);
        },
        GraphEvent::PortAdded(info) => {
            if g0.nodes@.contains_key(info.node_id.0) {
                let port = port_from_info(info);
                assert(g1.nodes@.dom() =~= g0.nodes@.dom());
                crate::graph_state::lemma_add_port_consistent(g0.nodes@, g1.nodes@, g0.ports@, g0.links@, port);
            }
        },
        GraphEvent::PortRemoved(id) => {
            assert(g1.nodes@.dom() =~= g0.nodes@.dom());
            crate::graph_state::lemma_remove_port_consistent(g0.nodes@, g1.nodes@, g0.ports@, g0.links@, id);
        },
        GraphEvent::LinkAdded(info) => {
            if g0.nodes@.contains_key(info.output_node.0) && g0.nodes@.contains_key(info.input_node.0) {
                crate::graph_state::lemma_add_link_consistent(g0.nodes@, g0.ports@, g0.links@, link_from_info(info));
            }
        },
        GraphEvent::LinkRemoved(id) => {
            crate::graph_state::lemma_remove_link_consistent(g0.nodes@, g0.ports@, g0.links@, id);
        },
        _ => {},
    }
}

}
