//! Small pieces of application state: the rename dialog, the workspace sections
//! and the summary of what the graph view hides.

use vstd::prelude::*;

use crate::filters::{filter_set_matches, predicate_views};
use crate::graph::Node;
use crate::graph_state::{GraphState, every_key};
use crate::ids::{GroupId, NodeId};
use crate::text::owned;
use crate::ui_state::UiState;

verus! {

/// State for the rename node dialog.
#[derive(Debug, Clone)]
pub struct RenameNodeDialog {
    /// Node being renamed (None = dialog closed)
    pub node_id: Option<NodeId>,
    /// Current input text
    pub input: String,
}

impl Default for RenameNodeDialog {
    /// A closed dialog with no text.
    fn default() -> (r: Self)
        ensures
            r.node_id is None,
            r.input@.len() == 0,
    {
        RenameNodeDialog { node_id: None, input: String::new() }
    }
}

impl RenameNodeDialog {
    /// Opens the dialog for a node with the current display name.
    pub fn open(&mut self, node_id: NodeId, current_name: &str)
        ensures
            final(self).node_id == Some(node_id),
            final(self).input@ == current_name@,
    {
        self.node_id = Some(node_id);
        self.input = owned(current_name);
    }

    /// Closes the dialog.
    pub fn close(&mut self)
        ensures
            final(self).node_id is None,
            final(self).input@.len() == 0,
    {
        self.node_id = None;
        self.input = String::new();
    }
}

/// What the central area shows.
#[derive(Debug, Clone, Copy, PartialEq, Eq, Structural)]
pub enum CenterViewMode {
    /// The patch graph.
    Graph,
    /// The mixer of one group.
    GroupMixer(GroupId),
}

/// The sections of the left-side workspace.
#[derive(Debug, Clone, Copy, PartialEq, Eq, Structural)]
pub enum WorkspaceSection {
    /// The patch graph.
    Patch,
    /// Automatic connection rules.
    AutoConnect,
    /// Saved setups.
    SavedSetups,
}

impl WorkspaceSection {
    /// The title of the section.
    pub fn label(self) -> (r: &'static str)
        ensures
            r@ == match self {
                WorkspaceSection::Patch => "Patch"@,
                WorkspaceSection::AutoConnect => "Auto Connect"@,
                WorkspaceSection::SavedSetups => "Saved Setups"@,
            },
    {
        match self {
            WorkspaceSection::Patch => "Patch",
            WorkspaceSection::AutoConnect => "Auto Connect",
            WorkspaceSection::SavedSetups => "Saved Setups",
        }
    }
}

/// Counts of the nodes in the graph view, by why they are not fully shown.
#[derive(Debug, Default, Clone, Copy, PartialEq, Eq, Structural)]
pub struct GraphVisibilitySummary {
    /// All nodes.
    pub total_nodes: usize,
    /// Nodes shown.
    pub visible_nodes: usize,
    /// Nodes hidden by the focus filter.
    pub hidden_by_focus: usize,
    /// Nodes hidden because their layer is hidden.
    pub hidden_by_layer: usize,
    /// Background nodes hidden.
    pub hidden_background: usize,
    /// Internal meter nodes hidden.
    pub hidden_internal_meter_nodes: usize,
    /// Background nodes dimmed.
    pub dimmed_background: usize,
}

impl GraphVisibilitySummary {
    /// Returns true if any node is hidden or dimmed, for any reason.
    pub fn has_hidden_state(self) -> (r: bool)
        ensures
            r == (self.hidden_by_focus > 0 || self.hidden_by_layer > 0 || self.hidden_background > 0
                || self.hidden_internal_meter_nodes > 0 || self.dimmed_background > 0),
    {
        self.hidden_by_focus > 0 || self.hidden_by_layer > 0 || self.hidden_background > 0
            || self.hidden_internal_meter_nodes > 0 || self.dimmed_background > 0
    }
}

/// The number of elements of the list that satisfy `p`.
pub open spec fn seq_count(s: Seq<u32>, p: spec_fn(u32) -> bool) -> nat
    decreases s.len(),
{
    if s.len() == 0 {
        0
    } else {
        seq_count(s.drop_last(), p) + if p(s.last()) { 1nat } else { 0nat }
    }
}

/// Counting a list without repeats counts the set of its elements.
proof fn lemma_seq_count_set(s: Seq<u32>, p: spec_fn(u32) -> bool)
    requires
        s.no_duplicates(),
    ensures
        seq_count(s, p) == s.to_set().filter(p).len(),
    decreases s.len(),
{
    broadcast use vstd::seq_lib::group_seq_properties, vstd::set::group_set_axioms, vstd::set_lib::group_set_lib_default;
    if s.len() == 0 {
        assert(s.to_set().filter(p) =~= Set::<u32>::empty());
    } else {
        let t = s.drop_last();
        assert(t.no_duplicates()) by {
            assert forall|i: int, j: int| 0 <= i < t.len() && 0 <= j < t.len() && i != j implies t[i] != t[j] by {
                assert(t[i] == s[i] && t[j] == s[j]);
            }
        }
        lemma_seq_count_set(t, p);
        assert(s == t.push(s.last()));
        assert(s.to_set() =~= t.to_set().insert(s.last()));
        assert(!t.to_set().contains(s.last())) by {
            if t.to_set().contains(s.last()) {
                let i = choose|i: int| 0 <= i < t.len() && t[i] == s.last();
                assert(s[i] == s[s.len() - 1]);
            }
        }
        vstd::seq_lib::seq_to_set_is_finite(t);
        if p(s.last()) {
            assert(s.to_set().filter(p) =~= t.to_set().filter(p).insert(s.last()));
        } else {
            assert(s.to_set().filter(p) =~= t.to_set().filter(p));
        }
    }
}

/// The node with this key is marked as background (uninteresting).
pub open spec fn is_background(g: GraphState, ui: UiState, k: u32) -> bool {
    ui.uninteresting_nodes@.contains(g.nodes@[k].id.0)
}

/// The node is hidden because background nodes are hidden.
pub open spec fn hidden_background(g: GraphState, ui: UiState) -> spec_fn(u32) -> bool {
    |k: u32| ui.hide_uninteresting && is_background(g, ui, k)
}

/// The node is not hidden as background but its layer is hidden.
pub open spec fn hidden_by_layer(g: GraphState, ui: UiState) -> spec_fn(u32) -> bool {
    |k: u32| !hidden_background(g, ui)(k) && !ui.layer_visibility.spec_is_visible(g.nodes@[k].layer)
}

/// The node is shown by its layer, but filters are active and it does not pass them.
pub open spec fn hidden_by_focus(g: GraphState, ui: UiState) -> spec_fn(u32) -> bool {
    |k: u32| !hidden_background(g, ui)(k) && ui.layer_visibility.spec_is_visible(g.nodes@[k].layer)
        && !(ui.filters.includes@.len() == 0 && ui.filters.excludes@.len() == 0 && ui.filters.search is None)
        && !filter_set_matches(predicate_views(ui.filters.includes@), predicate_views(ui.filters.excludes@),
            ui.filters.search_view(), g.nodes@[k], g.ports@)
}

/// The node is shown.
pub open spec fn shown(g: GraphState, ui: UiState) -> spec_fn(u32) -> bool {
    |k: u32| !hidden_background(g, ui)(k) && !hidden_by_layer(g, ui)(k) && !hidden_by_focus(g, ui)(k)
}

/// The node is shown, dimmed as background.
pub open spec fn dimmed_background(g: GraphState, ui: UiState) -> spec_fn(u32) -> bool {
    |k: u32| shown(g, ui)(k) && is_background(g, ui, k)
}

/// Counts the graph's nodes by how the graph view shows them: hidden as
/// background (when background nodes are hidden), else hidden by layer, else
/// hidden by an active filter, else shown (and dimmed if background). No node
/// is counted as an internal meter node here.
pub fn graph_visibility_summary(g: &GraphState, ui: &UiState) -> (r: GraphVisibilitySummary)
    ensures
        r.total_nodes == g.nodes@.len(),
        r.hidden_background == g.nodes@.dom().filter(hidden_background(*g, *ui)).len(),
        r.hidden_by_layer == g.nodes@.dom().filter(hidden_by_layer(*g, *ui)).len(),
        r.hidden_by_focus == g.nodes@.dom().filter(hidden_by_focus(*g, *ui)).len(),
        r.visible_nodes == g.nodes@.dom().filter(shown(*g, *ui)).len(),
        r.dimmed_background == g.nodes@.dom().filter(dimmed_background(*g, *ui)).len(),
        r.hidden_internal_meter_nodes == 0,
{
    broadcast use vstd::std_specs::hash::group_hash_axioms;
    let nv = g.all_nodes();
    let ghost ks = choose|ks: Seq<u32>| {
        &&& ks.no_duplicates()
        &&& ks.len() == nv@.map_values(|n: &Node| *n).len()
        &&& forall|i: int| 0 <= i < ks.len() ==> g.nodes@.contains_key(#[trigger] ks[i]) && every_key()(ks[i])
            && g.nodes@[ks[i]] == nv@.map_values(|n: &Node| *n)[i]
        &&& forall|k: u32| g.nodes@.contains_key(k) && every_key()(k) ==> #[trigger] ks.contains(k)
    };
    let ghost hb = hidden_background(*g, *ui);
    let ghost hl = hidden_by_layer(*g, *ui);
    let ghost hf = hidden_by_focus(*g, *ui);
    let ghost sh = shown(*g, *ui);
    let ghost db = dimmed_background(*g, *ui);
    let filters_active = !ui.filters.is_empty();
    let mut summary = GraphVisibilitySummary {
        total_nodes: g.nodes.len(),
        visible_nodes: 0,
        hidden_by_focus: 0,
        hidden_by_layer: 0,
        hidden_background: 0,
        hidden_internal_meter_nodes: 0,
        dimmed_background: 0,
    };
    let mut i: usize = 0;
    while i < nv.len()
        invariant
            i <= nv@.len(),
            ks.len() == nv@.len(),
            forall|m: int| 0 <= m < ks.len() ==> g.nodes@.contains_key(#[trigger] ks[m]) && g.nodes@[ks[m]] == *nv@[m],
            hb == hidden_background(*g, *ui),
            hl == hidden_by_layer(*g, *ui),
            hf == hidden_by_focus(*g, *ui),
            sh == shown(*g, *ui),
            db == dimmed_background(*g, *ui),
            filters_active == !(ui.filters.includes@.len() == 0 && ui.filters.excludes@.len() == 0 && ui.filters.search is None),
            summary.total_nodes == g.nodes@.len(),
            summary.hidden_internal_meter_nodes == 0,
            summary.hidden_background == seq_count(ks.take(i as int), hb),
            summary.hidden_by_layer == seq_count(ks.take(i as int), hl),
            summary.hidden_by_focus == seq_count(ks.take(i as int), hf),
            summary.visible_nodes == seq_count(ks.take(i as int), sh),
            summary.dimmed_background == seq_count(ks.take(i as int), db),
            summary.hidden_background + summary.hidden_by_layer + summary.hidden_by_focus + summary.visible_nodes == i,
            summary.dimmed_background <= summary.visible_nodes,
        decreases nv.len() - i,
    {
        let node = nv[i];
        let ghost k = ks[i as int];
        proof {
            assert(nv@.map_values(|n: &Node| *n)[i as int] == *nv@[i as int]);
            assert(g.nodes@[k] == *node);
            assert(ks.take(i + 1).drop_last() == ks.take(i as int));
            assert(ks.take(i + 1).last() == k);
        }
        let is_background = ui.uninteresting_nodes.contains(&node.id.0);
        if ui.hide_uninteresting && is_background {
            summary.hidden_background = summary.hidden_background + 1;
        } else if !ui.layer_visibility.is_visible(node.layer) {
            summary.hidden_by_layer = summary.hidden_by_layer + 1;
        } else if filters_active && !ui.filters.matches_with_ports(node, &g.ports) {
            summary.hidden_by_focus = summary.hidden_by_focus + 1;
        } else {
            summary.visible_nodes = summary.visible_nodes + 1;
            if is_background {
                summary.dimmed_background = summary.dimmed_background + 1;
            }
        }
        i += 1;
    }
    proof {
        assert(ks.take(nv@.len() as int) == ks);
        assert(ks.to_set() =~= g.nodes@.dom()) by {
            assert forall|k: u32| ks.to_set().contains(k) <==> g.nodes@.dom().contains(k) by {
                if g.nodes@.dom().contains(k) {
                    assert(every_key()(k));
                    assert(ks.contains(k));
                }
                if ks.to_set().contains(k) {
                    let m = choose|m: int| 0 <= m < ks.len() && ks[m] == k;
                    assert(g.nodes@.contains_key(ks[m]));
                }
            }
        }
        lemma_seq_count_set(ks, hb);
        lemma_seq_count_set(ks, hl);
        lemma_seq_count_set(ks, hf);
        lemma_seq_count_set(ks, sh);
        lemma_seq_count_set(ks, db);
    }
    summary
}

}
