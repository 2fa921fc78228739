//! How the headless server keeps its state up to date with PipeWire events.
//!
//! Unlike the graphical application, the server adds ports and links as they
//! come and runs no connection rules. Node positions, volumes and meter levels
//! are measurements and are kept by the server program next to this state.

use vstd::prelude::*;

use crate::graph::{Link, Node, Port};
use crate::graph_events::{GraphEvent, graph_same, link_from_info, node_from_info, port_from_info};
use crate::graph_state::{GraphState, links_without_node, links_without_port, nodes_after_port_added, nodes_after_port_removed, ports_without_node};
use crate::groups::groups_reconciled;
use crate::ids::NodeIdentifierView;
use crate::restore::{create_stable_identifier, stable_identifier};
use crate::state::ConnectionState;
use crate::ui_state::{UiState, only_changes};

verus! {

broadcast use vstd::std_specs::hash::group_hash_axioms;

/// The user state after a node with the identifier appeared: its uninteresting
/// mark returns if the identifier is marked, and the groups that list the
/// identifier gain it; nothing else changes.
pub open spec fn ui_node_restored(u0: UiState, u1: UiState, node: crate::ids::NodeId, ident: NodeIdentifierView) -> bool {
    &&& u1.uninteresting_nodes@ == if u0.marked(ident) { u0.uninteresting_nodes@.insert(node.0) } else { u0.uninteresting_nodes@ }
    &&& groups_reconciled(u0.groups, u1.groups, node, ident)
    &&& u1.selected_nodes@ == u0.selected_nodes@
    &&& u1.persistent_uninteresting == u0.persistent_uninteresting
    &&& u1.custom_names@ == u0.custom_names@
    &&& u1.persistent_custom_names == u0.persistent_custom_names
    &&& u1.selected_link == u0.selected_link
    &&& u1.rules == u0.rules
    &&& u1.filters == u0.filters
    &&& u1.hide_uninteresting == u0.hide_uninteresting
    &&& u1.show_internal_meter_nodes == u0.show_internal_meter_nodes
    &&& u1.layer_visibility == u0.layer_visibility
    &&& u1.initial_layout_done == u0.initial_layout_done
}

/// What the server does with an event: the connection state follows the
/// connection events (disconnecting clears the graph); nodes, ports and links
/// are added and removed as they come; a new node gets back its uninteresting
/// mark and its group memberships by its identifier (its name, application and
/// class label); a removed node leaves the selection. Mute changes and volume
/// control failures change nothing here.
pub open spec fn headless_applied(
    g0: GraphState, c0: ConnectionState, u0: UiState,
    g1: GraphState, c1: ConnectionState, u1: UiState,
    event: GraphEvent,
) -> bool {
    match event {
        GraphEvent::Connected => c1 == ConnectionState::Connected && graph_same(g0, g1) && u1 == u0,
        GraphEvent::Disconnected => {
            &&& c1 == ConnectionState::Disconnected
            &&& g1.nodes@ == Map::<u32, Node>::empty()
            &&& g1.ports@ == Map::<u32, Port>::empty()
            &&& g1.links@ == Map::<u32, Link>::empty()
            &&& g1.volume_control_failed@ == Map::<u32, String>::empty()
            &&& u1 == u0
        },
        GraphEvent::Reconnecting { .. } => c1 == ConnectionState::Connecting && graph_same(g0, g1) && u1 == u0,
        GraphEvent::Error(_) => c1 == ConnectionState::Error && graph_same(g0, g1) && u1 == u0,
        GraphEvent::NodeAdded(info) => {
            &&& c1 == c0
            &&& exists|n: Node| node_from_info(n, info) && #[trigger] g1.nodes@ == g0.nodes@.insert(info.id.0, n)
                && ui_node_restored(u0, u1, info.id, stable_identifier(n, None))
            &&& g1.ports@ == g0.ports@
            &&& g1.links@ == g0.links@
            &&& g1.volume_control_failed@ == g0.volume_control_failed@
        },
        GraphEvent::NodeRemoved(id) => {
            &&& c1 == c0
            &&& g1.nodes@ == g0.nodes@.remove(id.0)
            &&& g1.ports@ == ports_without_node(g0.ports@, id)
            &&& g1.links@ == links_without_node(g0.links@, id)
            &&& g1.volume_control_failed@ == g0.volume_control_failed@
            &&& u1.selected_nodes@ == u0.selected_nodes@.remove(id.0)
            &&& only_changes(u0, u1, true, false, false)
        },
        GraphEvent::PortAdded(info) => {
            &&& c1 == c0
            &&& g1.ports@ == g0.ports@.insert(info.id.0, port_from_info(info))
            &&& nodes_after_port_added(g0.nodes@, g1.nodes@, port_from_info(info))
            &&& g1.links@ == g0.links@
            &&& g1.volume_control_failed@ == g0.volume_control_failed@
            &&& u1 == u0
        },
        GraphEvent::PortRemoved(id) => {
            &&& c1 == c0
            &&& g1.ports@ == g0.ports@.remove(id.0)
            &&& g1.links@ == links_without_port(g0.links@, id)
            &&& nodes_after_port_removed(g0.nodes@, g0.ports@, g1.nodes@, id)
            &&& g1.volume_control_failed@ == g0.volume_control_failed@
            &&& u1 == u0
        },
        GraphEvent::LinkAdded(info) => {
            &&& c1 == c0
            &&& g1.links@ == g0.links@.insert(info.id.0, link_from_info(info))
            &&& g1.nodes@ == g0.nodes@
            &&& g1.ports@ == g0.ports@
            &&& g1.volume_control_failed@ == g0.volume_control_failed@
            &&& u1 == u0
        },
        GraphEvent::LinkRemoved(id) => {
            &&& c1 == c0
            &&& g1.links@ == g0.links@.remove(id.0)
            &&& g1.nodes@ == g0.nodes@
            &&& g1.ports@ == g0.ports@
            &&& g1.volume_control_failed@ == g0.volume_control_failed@
            &&& u1 == u0
        },
        GraphEvent::MuteChanged(..) | GraphEvent::VolumeControlFailed(..) => c1 == c0 && graph_same(g0, g1) && u1 == u0,
    }
}

/// Processes a PipeWire event and updates the server's state (see `headless_applied`).
pub fn process_event(graph: &mut GraphState, connection: &mut ConnectionState, ui: &mut UiState, event: &GraphEvent)
    ensures
        headless_applied(*old(graph), *old(connection), *old(ui), *final(graph), *final(connection), *final(ui), *event),
{
    match event {
        GraphEvent::Connected => {
            *connection = ConnectionState::Connected;
        },
        GraphEvent::Disconnected => {
            *connection = ConnectionState::Disconnected;
            graph.clear();
        },
        GraphEvent::Reconnecting { .. } => {
            *connection = ConnectionState::Connecting;
        },
        GraphEvent::Error(_) => {
            *connection = ConnectionState::Error;
        },
        GraphEvent::NodeAdded(info) => {
            let node = Node {
                id: info.id,
                name: info.name.clone(),
                client_id: info.client_id,
                media_class: match &info.media_class {
                    Some(mc) => Some(mc.duplicate()),
                    None => None,
                },
                application_name: info.application_name.clone(),
                description: info.description.clone(),
                nick: info.nick.clone(),
                format: match &info.format {
                    Some(f) => Some(f.duplicate()),
                    None => None,
                },
                port_ids: Vec::new(),
                is_active: true,
                layer: info.layer,
            };
            let identifier = create_stable_identifier(&node, None);
            let ghost n = node;
            proof {
                assert(node_from_info(n, *info));
            }
            graph.add_node(node);
            let ghost u0 = *ui;
            ui.restore_uninteresting_for_node(info.id, &identifier);
            let ghost u_mid = *ui;
            ui.groups.reconcile_node(info.id, &identifier);
            proof {
                assert(identifier@ == stable_identifier(n, None));
                assert(u_mid.groups == u0.groups);
                assert(ui.uninteresting_nodes == u_mid.uninteresting_nodes);
                assert(ui_node_restored(u0, *ui, info.id, stable_identifier(n, None)));
                assert(graph.nodes@ == old(graph).nodes@.insert(info.id.0, n));
            }
        },
        GraphEvent::NodeRemoved(id) => {
            graph.remove_node(id);
            ui.selected_nodes.remove(&id.0);
        },
        GraphEvent::PortAdded(info) => {
            let port = Port {
                id: info.id,
                node_id: info.node_id,
                name: info.name.clone(),
                direction: info.direction,
                channel: info.channel,
                physical_path: info.physical_path.clone(),
                alias: info.alias.clone(),
                is_monitor: info.is_monitor,
                is_control: info.is_control,
            };
            graph.add_port(port);
        },
        GraphEvent::PortRemoved(id) => {
            graph.remove_port(id);
        },
        GraphEvent::LinkAdded(info) => {
            let link = Link {
                id: info.id,
                output_port: info.output_port,
                input_port: info.input_port,
                output_node: info.output_node,
                input_node: info.input_node,
                is_active: info.active,
                state: info.state,
            };
            graph.add_link(link);
        },
        GraphEvent::LinkRemoved(id) => {
            graph.remove_link(id);
        },
        GraphEvent::MuteChanged(..) | GraphEvent::VolumeControlFailed(..) => {},
    }
}

}
