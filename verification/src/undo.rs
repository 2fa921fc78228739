//! Carrying out undo and redo. An action is flattened into its steps, in
//! order (a batch contributes the steps of its actions); each step is then
//! applied to the graph and the user's state, and the link commands it yields
//! go to the PipeWire thread.

use vstd::prelude::*;

use crate::commands::AppCommand;
use crate::graph::Link;
use crate::graph_state::GraphState;
use crate::history::{
    UndoAction, UndoEntry, UndoStack, UndoView, batch_steps, lemma_operations_keep_wf, lemma_steps_not_batch, lemma_push_then_undo,
    lemma_undo_redo_inverse, undo_steps,
};
use crate::ids::{LinkId, PortId};
use crate::text::owned;
use crate::safety::SafetyController;
use crate::ui_commands::{handle_ui_command, ui_command_applied};
use crate::ui_state::UiState;

verus! {

broadcast use vstd::std_specs::hash::group_hash_axioms;

/// Appends the steps of an action to `out`.
fn push_steps(action: UndoAction, out: &mut Vec<UndoAction>)
    ensures
        final(out)@ == old(out)@ + undo_steps(action),
    decreases action,
{
    match action {
        UndoAction::Batch(v) => {
            let ghost vv = v;
            let ghost vs = v@;
            let ghost start = out@;
            let mut rest = v;
            let ghost mut done: Seq<UndoAction> = Seq::empty();
            while rest.len() > 0
                invariant
                    action == UndoAction::Batch(vv),
                    vv@ == vs,
                    done + rest@ == vs,
                    out@ == start + batch_steps(done),
                decreases rest.len(),
            {
                let ghost before = rest@;
                let a = rest.remove(0);
                proof {
                    assert((done + before)[done.len() as int] == before[0]);
                    assert(a == vs[done.len() as int]);
                    vstd::std_specs::vec::axiom_vec_index_decreases(vv, done.len() as int);
                    assert(decreases_to!(action => action->0));
                    assert(decreases_to!(action => vs[done.len() as int]));
                }
                push_steps(a, out);
                proof {
                    let next = done.push(vs[done.len() as int]);
                    assert(next.drop_last() =~= done);
                    assert(next + rest@ =~= vs);
                    done = next;
                }
            }
            assert(done =~= vs);
        },
        _ => {
            out.push(action);
        },
    }
}

/// Flattens an action into its steps, in order; no step is a batch.
pub fn undo_steps_of(action: UndoAction) -> (r: Vec<UndoAction>)
    ensures
        r@ == undo_steps(action),
        forall|i: int| 0 <= i < r@.len() ==> !(#[trigger] r@[i] is Batch),
{
    let mut out: Vec<UndoAction> = Vec::new();
    let ghost a = action;
    push_steps(action, &mut out);
    proof {
        lemma_steps_not_batch(a);
        assert(out@ =~= undo_steps(a));
    }
    out
}

/// What one step does. A PipeWire command changes nothing here and is handed
/// on. A user interface command acts as `handle_ui_command` on the user's
/// state and the safety mode. Removing the link between two ports removes a
/// link of the graph that joins them, if there is one, and hands on its
/// removal; otherwise nothing changes.
pub open spec fn step_applied(
    g0: GraphState, u0: UiState, s0: SafetyController,
    g1: GraphState, u1: UiState, s1: SafetyController,
    step: UndoAction, r: Option<AppCommand>,
) -> bool {
    match step {
        UndoAction::AppCommand(c) => g1 == g0 && u1 == u0 && s1 == s0 && r == Some(c),
        UndoAction::UiCommand(c) => g1 == g0 && r is None
            && exists|save: bool| ui_command_applied(u0, s0, u1, s1, g0, c, save),
        UndoAction::RemoveLinkBetweenPorts { output_port, input_port } => {
            &&& u1 == u0
            &&& s1 == s0
            &&& match r {
                Some(c) => exists|k: u32| {
                    &&& #[trigger] g0.links@.contains_key(k)
                    &&& g0.links@[k].output_port == output_port
                    &&& g0.links@[k].input_port == input_port
                    &&& c == AppCommand::RemoveLink(g0.links@[k].id)
                    &&& g1.links@ == g0.links@.remove(g0.links@[k].id.0)
                    &&& g1.nodes@ == g0.nodes@
                    &&& g1.ports@ == g0.ports@
                    &&& g1.volume_control_failed@ == g0.volume_control_failed@
                },
                None => g1 == g0 && forall|k: u32| #[trigger] g0.links@.contains_key(k)
                    ==> !(g0.links@[k].output_port == output_port && g0.links@[k].input_port == input_port),
            }
        },
        UndoAction::Batch(_) => false,
    }
}

/// Carries out one step of an undo or redo (see `step_applied`); returns the
/// command for the PipeWire thread, if the step yields one.
pub fn execute_undo_step(graph: &mut GraphState, ui: &mut UiState, safety: &mut SafetyController, step: UndoAction) -> (r: Option<AppCommand>)
    requires
        !(step is Batch),
        step matches UndoAction::UiCommand(c) && c is CreateGroupFromSelection ==> old(ui).groups.created() < usize::MAX,
    ensures
        step_applied(*old(graph), *old(ui), *old(safety), *final(graph), *final(ui), *final(safety), step, r),
{
    match step {
        UndoAction::AppCommand(c) => Some(c),
        UndoAction::UiCommand(c) => {
            let ghost cmd = c;
            let save = handle_ui_command(ui, safety, graph, c);
            proof {
                assert(ui_command_applied(*old(ui), *old(safety), *ui, *safety, *graph, cmd, save));
            }
            None
        },
        UndoAction::RemoveLinkBetweenPorts { output_port, input_port } => {
            match graph.find_link_between(output_port, input_port) {
                Some(link_id) => {
                    let ghost g0 = *graph;
                    graph.remove_link(&link_id);
                    proof {
                        let k = choose|k: u32| #![trigger g0.links@[k]] g0.links@.contains_key(k) && g0.links@[k].id == link_id
                            && g0.links@[k].output_port == output_port && g0.links@[k].input_port == input_port;
                        assert(g0.links@.contains_key(k));
                    }
                    Some(AppCommand::RemoveLink(link_id))
                },
                None => None,
            }
        },
        UndoAction::Batch(_) => None,
    }
}

/// The history entry for deleting a link: undone by creating a link between
/// the same ports again.
pub open spec fn link_removal_entry(e: UndoEntry<UndoAction>, id: LinkId, output_port: PortId, input_port: PortId) -> bool {
    &&& e.description@ == "Remove link"@
    &&& e.forward == UndoAction::AppCommand(AppCommand::RemoveLink(id))
    &&& e.reverse == UndoAction::AppCommand(AppCommand::CreateLink { output_port, input_port })
}

/// Deletes the selected link. When a link is selected and in the graph, it is
/// removed from the graph, the link is no longer selected, its removal is
/// recorded in the history (see `link_removal_entry`) and the removal is
/// returned for the PipeWire thread. Otherwise nothing changes.
pub fn handle_delete_selected_link(graph: &mut GraphState, ui: &mut UiState, history: &mut UndoStack<UndoAction>) -> (r: Option<AppCommand>)
    requires
        old(history)@.wf(),
    ensures
        final(history)@.wf(),
        match old(ui).selected_link {
            Some(id) if old(graph).links@.contains_key(id.0) => {
                let l = old(graph).links@[id.0];
                &&& r == Some(AppCommand::RemoveLink(id))
                &&& final(graph).links@ == old(graph).links@.remove(id.0)
                &&& final(graph).nodes@ == old(graph).nodes@
                &&& final(graph).ports@ == old(graph).ports@
                &&& final(graph).volume_control_failed@ == old(graph).volume_control_failed@
                &&& *final(ui) == (UiState { selected_link: None, ..*old(ui) })
                &&& exists|e: UndoEntry<UndoAction>| link_removal_entry(e, id, l.output_port, l.input_port)
                    && final(history)@ == old(history)@.pushed(e)
            },
            _ => r is None && *final(graph) == *old(graph) && *final(ui) == *old(ui) && *final(history) == *old(history),
        },
{
    let found = match ui.selected_link {
        Some(link_id) => match graph.get_link(&link_id) {
            Some(l) => Some((link_id, l.output_port, l.input_port)),
            None => None,
        },
        None => None,
    };
    match found {
        Some((link_id, output_port, input_port)) => {
            graph.remove_link(&link_id);
            ui.selected_link = None;
            let entry = UndoEntry {
                description: owned("Remove link"),
                forward: UndoAction::AppCommand(AppCommand::RemoveLink(link_id)),
                reverse: UndoAction::AppCommand(AppCommand::CreateLink { output_port, input_port }),
            };
            let ghost e = entry;
            history.push(entry);
            proof {
                assert(link_removal_entry(e, link_id, output_port, input_port));
            }
            Some(AppCommand::RemoveLink(link_id))
        },
        None => None,
    }
}

/// The history entry for creating a link: undone by removing the link between
/// the same ports, whatever its id turns out to be.
pub open spec fn link_creation_entry(e: UndoEntry<UndoAction>, output_port: PortId, input_port: PortId) -> bool {
    &&& e.description@ == "Create link"@
    &&& e.forward == UndoAction::AppCommand(AppCommand::CreateLink { output_port, input_port })
    &&& e.reverse == UndoAction::RemoveLinkBetweenPorts { output_port, input_port }
}

/// Records a link the user drew from port `from` to port `to`: the creation is
/// recorded in the history (see `link_creation_entry`) and the creation command
/// is returned for the PipeWire thread.
pub fn record_link_created(history: &mut UndoStack<UndoAction>, from: PortId, to: PortId) -> (r: AppCommand)
    requires
        old(history)@.wf(),
    ensures
        r == (AppCommand::CreateLink { output_port: from, input_port: to }),
        final(history)@.wf(),
        exists|e: UndoEntry<UndoAction>| link_creation_entry(e, from, to) && final(history)@ == old(history)@.pushed(e),
{
    let entry = UndoEntry {
        description: owned("Create link"),
        forward: UndoAction::AppCommand(AppCommand::CreateLink { output_port: from, input_port: to }),
        reverse: UndoAction::RemoveLinkBetweenPorts { output_port: from, input_port: to },
    };
    let ghost e = entry;
    history.push(entry);
    proof {
        assert(link_creation_entry(e, from, to));
    }
    AppCommand::CreateLink { output_port: from, input_port: to }
}

/// The history entry for enabling or disabling a link: undone by toggling it back.
pub open spec fn link_toggle_entry(e: UndoEntry<UndoAction>, id: LinkId, active: bool) -> bool {
    &&& e.description@ == (if active { "Enable link"@ } else { "Disable link"@ })
    &&& e.forward == UndoAction::AppCommand(AppCommand::ToggleLink { link_id: id, active })
    &&& e.reverse == UndoAction::AppCommand(AppCommand::ToggleLink { link_id: id, active: !active })
}

/// Records that the user enabled or disabled a link: the link of the graph
/// under that id, if any, gets the new active state; the change is recorded in
/// the history (see `link_toggle_entry`); the toggle command is returned for
/// the PipeWire thread.
pub fn record_link_toggled(graph: &mut GraphState, history: &mut UndoStack<UndoAction>, link_id: LinkId, active: bool) -> (r: AppCommand)
    requires
        old(history)@.wf(),
    ensures
        r == (AppCommand::ToggleLink { link_id, active }),
        final(graph).links@ == (if old(graph).links@.contains_key(link_id.0) {
            old(graph).links@.insert(link_id.0, (Link { is_active: active, ..old(graph).links@[link_id.0] }))
        } else {
            old(graph).links@
        }),
        final(graph).nodes@ == old(graph).nodes@,
        final(graph).ports@ == old(graph).ports@,
        final(graph).volume_control_failed@ == old(graph).volume_control_failed@,
        final(history)@.wf(),
        exists|e: UndoEntry<UndoAction>| link_toggle_entry(e, link_id, active) && final(history)@ == old(history)@.pushed(e),
{
    let found = match graph.links.get(&link_id.0) {
        Some(l) => Some(*l),
        None => None,
    };
    match found {
        Some(l) => {
            let mut changed = l;
            changed.is_active = active;
            graph.links.insert(link_id.0, changed);
        },
        None => {},
    }
    let description = if active { owned("Enable link") } else { owned("Disable link") };
    let entry = UndoEntry {
        description,
        forward: UndoAction::AppCommand(AppCommand::ToggleLink { link_id, active }),
        reverse: UndoAction::AppCommand(AppCommand::ToggleLink { link_id, active: !active }),
    };
    let ghost e = entry;
    history.push(entry);
    proof {
        assert(link_toggle_entry(e, link_id, active));
    }
    AppCommand::ToggleLink { link_id, active }
}

/// Records that the user removed a link: the link leaves the graph, its
/// removal is recorded in the history when it was in the graph (see
/// `link_removal_entry`), and the removal command is returned for the PipeWire
/// thread in any case.
pub fn record_link_removed(graph: &mut GraphState, history: &mut UndoStack<UndoAction>, link_id: LinkId) -> (r: AppCommand)
    requires
        old(history)@.wf(),
    ensures
        r == AppCommand::RemoveLink(link_id),
        final(graph).links@ == old(graph).links@.remove(link_id.0),
        final(graph).nodes@ == old(graph).nodes@,
        final(graph).ports@ == old(graph).ports@,
        final(graph).volume_control_failed@ == old(graph).volume_control_failed@,
        final(history)@.wf(),
        if old(graph).links@.contains_key(link_id.0) {
            let l = old(graph).links@[link_id.0];
            exists|e: UndoEntry<UndoAction>| link_removal_entry(e, link_id, l.output_port, l.input_port)
                && final(history)@ == old(history)@.pushed(e)
        } else {
            *final(history) == *old(history)
        },
{
    let ports = match graph.get_link(&link_id) {
        Some(l) => Some((l.output_port, l.input_port)),
        None => None,
    };
    graph.remove_link(&link_id);
    match ports {
        Some((output_port, input_port)) => {
            let entry = UndoEntry {
                description: owned("Remove link"),
                forward: UndoAction::AppCommand(AppCommand::RemoveLink(link_id)),
                reverse: UndoAction::AppCommand(AppCommand::CreateLink { output_port, input_port }),
            };
            let ghost e = entry;
            history.push(entry);
            proof {
                assert(link_removal_entry(e, link_id, output_port, input_port));
            }
        },
        None => {},
    }
    AppCommand::RemoveLink(link_id)
}

/// A link deletion recorded in the history is undone by creating a link
/// between the same ports, and redoing it removes the link again.
pub proof fn lemma_deletion_undo_redo(
    v: UndoView<UndoAction>,
    e: UndoEntry<UndoAction>,
    id: LinkId,
    output_port: PortId,
    input_port: PortId,
)
    requires
        v.wf(),
        v.capacity > 0,
        link_removal_entry(e, id, output_port, input_port),
    ensures
        v.pushed(e).entries[v.pushed(e).position - 1].reverse
            == UndoAction::AppCommand(AppCommand::CreateLink { output_port, input_port }),
        v.pushed(e).undone().entries[v.pushed(e).undone().position].forward
            == UndoAction::AppCommand(AppCommand::RemoveLink(id)),
        v.pushed(e).undone().redone() == v.pushed(e),
{
    lemma_push_then_undo(v, e);
    lemma_undo_redo_inverse(v.pushed(e));
    lemma_operations_keep_wf(v, e);
}

}
