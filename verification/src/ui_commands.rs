//! What the user interface's commands do to the user's state: selection,
//! grouping the selection, marking nodes uninteresting, naming nodes and the
//! safety mode. Nodes are known by their stable identifiers in the graph, so
//! that marks, names and group memberships survive restarts.
//!
//! Moving a node is a matter of positions, which the application keeps.

use vstd::prelude::*;

use crate::commands::UiCommand;
use crate::graph_state::GraphState;
use crate::groups::{default_group_name, palette_colors};
use crate::ids::{GroupId, NodeId, NodeIdentifier, NodeIdentifierView};
use crate::restore::{graph_identifier, identifier_in_graph};
use crate::safety::SafetyController;
use crate::ui_state::{UiState, named, only_changes};

verus! {

broadcast use vstd::std_specs::hash::group_hash_axioms;

/// The running uninteresting set and the saved marks after the listed nodes
/// are toggled in turn: each node flips; a node of the graph also has its
/// identifier saved as marked or not, as the node now is.
pub open spec fn toggled(u0: UiState, g: GraphState, ids: Seq<NodeId>) -> (Set<u32>, spec_fn(NodeIdentifierView) -> bool)
    decreases ids.len(),
{
    if ids.len() == 0 {
        (u0.uninteresting_nodes@, |i: NodeIdentifierView| u0.marked(i))
    } else {
        let prev = toggled(u0, g, ids.drop_last());
        let id = ids.last();
        let on = !prev.0.contains(id.0);
        let set = if on { prev.0.insert(id.0) } else { prev.0.remove(id.0) };
        let marks = if g.nodes@.contains_key(id.0) {
            let ident = graph_identifier(g.nodes@[id.0], g.nodes@);
            |i: NodeIdentifierView| if i == ident { on } else { (prev.1)(i) }
        } else {
            prev.1
        };
        (set, marks)
    }
}

/// Some identifier of the list has the view.
pub open spec fn lists_identifier(v: Seq<NodeIdentifier>, i: NodeIdentifierView) -> bool {
    exists|j: int| 0 <= j < v.len() && #[trigger] v[j]@ == i
}

/// One of the first `k` listed nodes is in the graph with the identifier.
pub open spec fn identifies_one_of(members: Seq<NodeId>, k: int, g: GraphState, i: NodeIdentifierView) -> bool {
    exists|m: int| #![trigger members[m]] 0 <= m < k && g.nodes@.contains_key(members[m].0)
        && graph_identifier(g.nodes@[members[m].0], g.nodes@) == i
}

proof fn lemma_lists_push(v: Seq<NodeIdentifier>, x: NodeIdentifier, i: NodeIdentifierView)
    ensures
        lists_identifier(v.push(x), i) <==> lists_identifier(v, i) || x@ == i,
{
    let w = v.push(x);
    if lists_identifier(w, i) {
        let j = choose|j: int| 0 <= j < w.len() && #[trigger] w[j]@ == i;
        if j < v.len() {
            assert(v[j]@ == i);
        }
    }
    if lists_identifier(v, i) {
        let j = choose|j: int| 0 <= j < v.len() && #[trigger] v[j]@ == i;
        assert(w[j]@ == i);
    }
    if x@ == i {
        assert(w[v.len() as int]@ == i);
    }
}

proof fn lemma_identifies_step(members: Seq<NodeId>, k: int, g: GraphState, i: NodeIdentifierView)
    requires
        0 <= k < members.len(),
    ensures
        identifies_one_of(members, k + 1, g, i) <==> identifies_one_of(members, k, g, i)
            || (g.nodes@.contains_key(members[k].0) && graph_identifier(g.nodes@[members[k].0], g.nodes@) == i),
{
    if identifies_one_of(members, k + 1, g, i) {
        let m = choose|m: int| #![trigger members[m]] 0 <= m < k + 1 && g.nodes@.contains_key(members[m].0)
            && graph_identifier(g.nodes@[members[m].0], g.nodes@) == i;
        if m < k {
            assert(identifies_one_of(members, k, g, i));
        }
    }
    if identifies_one_of(members, k, g, i) {
        let m = choose|m: int| #![trigger members[m]] 0 <= m < k && g.nodes@.contains_key(members[m].0)
            && graph_identifier(g.nodes@[members[m].0], g.nodes@) == i;
        assert(members[m] == members[m]);
    }
}

/// Toggles the uninteresting mark of each listed node in turn; for a node of
/// the graph the mark is also saved for its identifier (see `toggled`).
pub fn handle_toggle_uninteresting(ui: &mut UiState, graph: &GraphState, node_ids: &Vec<NodeId>)
    ensures
        final(ui).uninteresting_nodes@ == toggled(*old(ui), *graph, node_ids@).0,
        forall|i: NodeIdentifierView| #[trigger] final(ui).marked(i) == (toggled(*old(ui), *graph, node_ids@).1)(i),
        only_changes(*old(ui), *final(ui), false, true, false),
{
    let ghost u0 = *ui;
    let mut k: usize = 0;
    while k < node_ids.len()
        invariant
            k <= node_ids@.len(),
            ui.uninteresting_nodes@ == toggled(u0, *graph, node_ids@.take(k as int)).0,
            forall|i: NodeIdentifierView| #[trigger] ui.marked(i) == (toggled(u0, *graph, node_ids@.take(k as int)).1)(i),
            only_changes(u0, *ui, false, true, false),
        decreases node_ids.len() - k,
    {
        let id = node_ids[k];
        let ghost before = *ui;
        proof {
            assert(node_ids@.take(k + 1).drop_last() == node_ids@.take(k as int));
            assert(node_ids@.take(k + 1).last() == id);
        }
        let is_currently_uninteresting = ui.is_uninteresting(&id);
        match graph.get_node(&id) {
            Some(node) => {
                let identifier = identifier_in_graph(node, graph);
                ui.update_uninteresting(id, &identifier, !is_currently_uninteresting);
            },
            None => {
                ui.toggle_uninteresting(id);
                proof {
                    assert forall|i: NodeIdentifierView| #[trigger] ui.marked(i) == before.marked(i) by {
                        assert(ui.persistent_uninteresting == before.persistent_uninteresting);
                    }
                }
            },
        }
        k += 1;
    }
    proof {
        assert(node_ids@.take(node_ids@.len() as int) == node_ids@);
    }
}

/// The group made from a selection: it is appended after the existing groups,
/// named as `create_group` names it, with the selected nodes as members and the
/// identifiers of those of them in the graph as its persistent members.
pub open spec fn group_from_selection(u0: UiState, u1: UiState, g: GraphState, name: Option<String>, r: GroupId) -> bool {
    let added = u1.groups.groups@.last();
    &&& u1.groups.created() == u0.groups.created() + 1
    &&& u1.groups.groups@.len() == u0.groups.groups@.len() + 1
    &&& u1.groups.groups@.take(u0.groups.groups@.len() as int) == u0.groups.groups@
    &&& added.id == r
    &&& r.0 != 0
    &&& added.name@ == match name {
        Some(n) => n@,
        None => default_group_name(u1.groups.created()),
    }
    &&& added.members@ == u0.selected_nodes@
    &&& forall|i: NodeIdentifierView| #[trigger] added.persistent_views().contains(i) <==>
        exists|k: u32| #![trigger g.nodes@[k]] u0.selected_nodes@.contains(k) && g.nodes@.contains_key(k)
            && graph_identifier(g.nodes@[k], g.nodes@) == i
    &&& added.wf()
    &&& !added.collapsed
    &&& added.color == palette_colors()[u0.groups.groups@.len() as int % palette_colors().len() as int]
}

/// Makes a group of the selected nodes (see `group_from_selection`); nothing
/// happens when no node is selected.
pub fn create_group_from_selection(ui: &mut UiState, graph: &GraphState, name: Option<String>) -> (r: Option<GroupId>)
    requires
        old(ui).groups.created() < usize::MAX,
    ensures
        match r {
            None => old(ui).selected_nodes@.len() == 0 && *final(ui) == *old(ui),
            Some(id) => {
                &&& old(ui).selected_nodes@.len() > 0
                &&& group_from_selection(*old(ui), *final(ui), *graph, name, id)
            },
        },
        final(ui).selected_nodes == old(ui).selected_nodes,
        final(ui).uninteresting_nodes == old(ui).uninteresting_nodes,
        final(ui).persistent_uninteresting == old(ui).persistent_uninteresting,
        final(ui).custom_names == old(ui).custom_names,
        final(ui).persistent_custom_names == old(ui).persistent_custom_names,
        final(ui).selected_link == old(ui).selected_link,
        final(ui).rules == old(ui).rules,
        final(ui).filters == old(ui).filters,
        final(ui).hide_uninteresting == old(ui).hide_uninteresting,
        final(ui).show_internal_meter_nodes == old(ui).show_internal_meter_nodes,
        final(ui).layer_visibility == old(ui).layer_visibility,
        final(ui).initial_layout_done == old(ui).initial_layout_done,
{
    let members = ui.selected_ids();
    if members.len() == 0 {
        return None;
    }
    let ghost u0 = *ui;
    let mut identifiers: Vec<NodeIdentifier> = Vec::new();
    let mut k: usize = 0;
    while k < members.len()
        invariant
            k <= members@.len(),
            forall|n: NodeId| #[trigger] members@.contains(n) <==> u0.selected_nodes@.contains(n.0),
            forall|i: NodeIdentifierView| #[trigger] lists_identifier(identifiers@, i) <==> identifies_one_of(members@, k as int, *graph, i),
        decreases members.len() - k,
    {
        let m = members[k];
        let ghost old_ids = identifiers@;
        match graph.get_node(&m) {
            Some(node) => {
                let ident = identifier_in_graph(node, graph);
                let ghost iv = ident@;
                identifiers.push(ident);
                proof {
                    assert(identifiers@ == old_ids.push(identifiers@[old_ids.len() as int]));
                    assert forall|i: NodeIdentifierView| #[trigger] lists_identifier(identifiers@, i) <==> identifies_one_of(members@, k + 1, *graph, i) by {
                        lemma_lists_push(old_ids, identifiers@[old_ids.len() as int], i);
                        lemma_identifies_step(members@, k as int, *graph, i);
                    }
                }
            },
            None => {
                proof {
                    assert forall|i: NodeIdentifierView| #[trigger] lists_identifier(identifiers@, i) <==> identifies_one_of(members@, k + 1, *graph, i) by {
                        lemma_identifies_step(members@, k as int, *graph, i);
                    }
                }
            },
        }
        k += 1;
    }
    let ghost members_v = members@;
    proof {
        assert(identifiers@.take(identifiers@.len() as int) == identifiers@);
    }
    let group_id = ui.groups.create_group_with_members(name, members);
    let ghost u1 = *ui;
    let mut group = ui.groups.groups.pop().unwrap();
    let ghost g0 = group;
    let mut j: usize = 0;
    while j < identifiers.len()
        invariant
            j <= identifiers@.len(),
            group.wf(),
            group.id == g0.id,
            group.name == g0.name,
            group.members == g0.members,
            group.collapsed == g0.collapsed,
            group.color == g0.color,
            forall|i: NodeIdentifierView| #[trigger] group.persistent_views().contains(i) <==>
                lists_identifier(identifiers@.take(j as int), i),
        decreases identifiers.len() - j,
    {
        let ident = identifiers[j].duplicate();
        let ghost before = group.persistent_views();
        group.add_persistent_member(ident);
        proof {
            assert forall|i: NodeIdentifierView| #[trigger] group.persistent_views().contains(i) <==>
                lists_identifier(identifiers@.take(j + 1), i) by {
                let t0 = identifiers@.take(j as int);
                let t1 = identifiers@.take(j + 1);
                assert(t1 == t0.push(identifiers@[j as int]));
                if lists_identifier(t1, i) {
                    let a = choose|a: int| 0 <= a < t1.len() && #[trigger] t1[a]@ == i;
                    if a < j {
                        assert(t0[a]@ == i);
                    }
                }
                if lists_identifier(t0, i) {
                    let a = choose|a: int| 0 <= a < t0.len() && #[trigger] t0[a]@ == i;
                    assert(t1[a]@ == i);
                }
                if i == identifiers@[j as int]@ {
                    assert(t1[j as int]@ == i);
                }
                if group.persistent_views() != before {
                    assert(group.persistent_views() == before.push(identifiers@[j as int]@));
                    if group.persistent_views().contains(i) && !before.contains(i) {
                        let x = choose|x: int| 0 <= x < group.persistent_views().len() && group.persistent_views()[x] == i;
                        assert(x == before.len());
                    }
                    if before.contains(i) {
                        let x = choose|x: int| 0 <= x < before.len() && before[x] == i;
                        assert(group.persistent_views()[x] == i);
                    }
                    if i == identifiers@[j as int]@ {
                        assert(group.persistent_views()[before.len() as int] == i);
                    }
                }
            }
        }
        j += 1;
    }
    ui.groups.groups.push(group);
    proof {
        assert(ui.groups.groups@.take(u0.groups.groups@.len() as int) =~= u1.groups.groups@.take(u0.groups.groups@.len() as int));
        let added = ui.groups.groups@.last();
        assert(added == group);
        assert forall|n: u32| added.members@.contains(n) <==> u0.selected_nodes@.contains(n) by {
            if u0.selected_nodes@.contains(n) {
                assert(members_v.contains(NodeId(n)));
                let k = choose|k: int| 0 <= k < members_v.len() && members_v[k] == NodeId(n);
                assert(members_v[k].0 == n);
            }
            if added.members@.contains(n) {
                let k = choose|k: int| 0 <= k < members_v.len() && #[trigger] members_v[k].0 == n;
                assert(members_v.contains(members_v[k]));
            }
        }
        assert(added.members@ =~= u0.selected_nodes@);
        assert(identifiers@.take(j as int) == identifiers@);
        assert forall|i: NodeIdentifierView| #[trigger] added.persistent_views().contains(i) <==>
            exists|k: u32| #![trigger graph.nodes@[k]] u0.selected_nodes@.contains(k) && graph.nodes@.contains_key(k)
                && graph_identifier(graph.nodes@[k], graph.nodes@) == i by {
            assert(added.persistent_views().contains(i) <==> identifies_one_of(members_v, members_v.len() as int, *graph, i));
            if identifies_one_of(members_v, members_v.len() as int, *graph, i) {
                let m = choose|m: int| #![trigger members_v[m]] 0 <= m < members_v.len() && graph.nodes@.contains_key(members_v[m].0)
                    && graph_identifier(graph.nodes@[members_v[m].0], graph.nodes@) == i;
                assert(members_v.contains(members_v[m]));
                assert(u0.selected_nodes@.contains(members_v[m].0));
                assert(graph.nodes@[members_v[m].0] == graph.nodes@[members_v[m].0]);
            }
            if exists|k: u32| #![trigger graph.nodes@[k]] u0.selected_nodes@.contains(k) && graph.nodes@.contains_key(k)
                && graph_identifier(graph.nodes@[k], graph.nodes@) == i {
                let k = choose|k: u32| #![trigger graph.nodes@[k]] u0.selected_nodes@.contains(k) && graph.nodes@.contains_key(k)
                    && graph_identifier(graph.nodes@[k], graph.nodes@) == i;
                assert(members_v.contains(NodeId(k)));
                let m = choose|m: int| 0 <= m < members_v.len() && members_v[m] == NodeId(k);
                assert(members_v[m].0 == k);
                assert(identifies_one_of(members_v, members_v.len() as int, *graph, i));
            }
        }
    }
    Some(group_id)
}

/// What a user interface command does (`save` tells whether the layout file
/// should be written): selection commands change the selection; grouping the
/// selection adds a group of it; toggling marks acts as
/// `handle_toggle_uninteresting`; naming a node of the graph saves or clears
/// its custom name under its identifier (nothing for an unknown node); setting
/// the safety mode sets it.
pub open spec fn ui_command_applied(
    u0: UiState, s0: SafetyController, u1: UiState, s1: SafetyController,
    g: GraphState, command: UiCommand, save: bool,
) -> bool {
    match command {
        UiCommand::SelectNode(id) => !save && s1 == s0 && only_changes(u0, u1, true, false, false)
            && u1.selected_nodes@ == set![id.0],
        UiCommand::AddToSelection(id) => !save && s1 == s0 && only_changes(u0, u1, true, false, false)
            && u1.selected_nodes@ == u0.selected_nodes@.insert(id.0),
        UiCommand::ToggleSelection(id) => !save && s1 == s0 && only_changes(u0, u1, true, false, false)
            && u1.selected_nodes@ == if u0.selected_nodes@.contains(id.0) {
                u0.selected_nodes@.remove(id.0)
            } else {
                u0.selected_nodes@.insert(id.0)
            },
        UiCommand::ClearSelection => !save && s1 == s0 && only_changes(u0, u1, true, false, false)
            && u1.selected_nodes@ == Set::<u32>::empty(),
        UiCommand::CreateGroupFromSelection(name) => {
            &&& save
            &&& s1 == s0
            &&& if u0.selected_nodes@.len() == 0 {
                u1 == u0
            } else {
                exists|id: GroupId| group_from_selection(u0, u1, g, name, id)
            }
            &&& u1.selected_nodes == u0.selected_nodes
            &&& u1.uninteresting_nodes == u0.uninteresting_nodes
            &&& u1.persistent_uninteresting == u0.persistent_uninteresting
            &&& u1.custom_names == u0.custom_names
            &&& u1.persistent_custom_names == u0.persistent_custom_names
            &&& u1.rules == u0.rules
            &&& u1.filters == u0.filters
        },
        UiCommand::SetSafetyMode(mode) => !save && s1.mode == mode && u1 == u0,
        UiCommand::ToggleUninteresting(ids) => {
            &&& save
            &&& s1 == s0
            &&& u1.uninteresting_nodes@ == toggled(u0, g, ids@).0
            &&& forall|i: NodeIdentifierView| #[trigger] u1.marked(i) == (toggled(u0, g, ids@).1)(i)
            &&& only_changes(u0, u1, false, true, false)
        },
        UiCommand::SetCustomName(node_id, name) => {
            &&& save
            &&& s1 == s0
            &&& only_changes(u0, u1, false, false, true)
            &&& if g.nodes@.contains_key(node_id.0) {
                let ident = graph_identifier(g.nodes@[node_id.0], g.nodes@);
                match name {
                    Some(n) => named(u0, u1, node_id, ident, n@),
                    None => {
                        &&& u1.custom_names@ == u0.custom_names@.remove(node_id.0)
                        &&& u1.saved_name(ident) is None
                        &&& forall|i: NodeIdentifierView| i != ident ==> #[trigger] u1.saved_name(i) == u0.saved_name(i)
                    },
                }
            } else {
                u1 == u0
            }
        },
    }
}

/// Carries out a user interface command (see `ui_command_applied`); returns
/// whether the layout file should be written.
pub fn handle_ui_command(ui: &mut UiState, safety: &mut SafetyController, graph: &GraphState, command: UiCommand) -> (save: bool)
    requires
        command is CreateGroupFromSelection ==> old(ui).groups.created() < usize::MAX,
    ensures
        ui_command_applied(*old(ui), *old(safety), *final(ui), *final(safety), *graph, command, save),
{
    match command {
        UiCommand::SelectNode(id) => {
            ui.select_node(id);
            false
        },
        UiCommand::AddToSelection(id) => {
            ui.add_to_selection(id);
            false
        },
        UiCommand::ToggleSelection(id) => {
            ui.toggle_selection(id);
            false
        },
        UiCommand::ClearSelection => {
            ui.clear_selection();
            false
        },
        UiCommand::CreateGroupFromSelection(name) => {
            let ghost nm = name;
            let r = create_group_from_selection(ui, graph, name);
            proof {
                match r {
                    Some(id) => {
                        assert(group_from_selection(*old(ui), *ui, *graph, nm, id));
                    },
                    None => {},
                }
            }
            true
        },
        UiCommand::SetSafetyMode(mode) => {
            safety.set_mode(mode);
            false
        },
        UiCommand::ToggleUninteresting(node_ids) => {
            handle_toggle_uninteresting(ui, graph, &node_ids);
            true
        },
        UiCommand::SetCustomName(node_id, name) => {
            match graph.get_node(&node_id) {
                Some(node) => {
                    let identifier = identifier_in_graph(node, graph);
                    match name {
                        Some(custom_name) => {
                            ui.set_custom_name(node_id, &identifier, custom_name);
                        },
                        None => {
                            ui.clear_custom_name(node_id, &identifier);
                        },
                    }
                },
                None => {},
            }
            true
        },
    }
}

}
