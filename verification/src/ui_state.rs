//! The user's marks on nodes: selection, "uninteresting" marks and custom
//! names, each kept both for the running node (by its id) and persistently (by
//! its stable identifier) so that it returns when the node reappears.
//!
//! Node positions and volumes carry measurements and are kept by the
//! application next to this state.

use std::collections::HashMap;
use std::collections::HashSet;
use vstd::prelude::*;

use crate::filters::FilterSet;
use crate::graph::Node;
use crate::groups::GroupManager;
use crate::ids::{LinkId, NodeId, NodeIdentifier, NodeIdentifierView};
use crate::restore::identifier_eq;
use crate::rules::RuleManager;
use crate::state::LayerVisibility;

verus! {

broadcast use vstd::std_specs::hash::group_hash_axioms;

/// The name a list of persistent names gives an identifier: the first entry for it.
pub open spec fn name_for(entries: Seq<(NodeIdentifier, String)>, id: NodeIdentifierView) -> Option<Seq<char>>
    decreases entries.len(),
{
    if entries.len() == 0 {
        None
    } else if entries[0].0@ == id {
        Some(entries[0].1@)
    } else {
        name_for(entries.drop_first(), id)
    }
}

/// Some entry of the list is for the identifier.
pub open spec fn listed(ids: Seq<NodeIdentifier>, id: NodeIdentifierView) -> bool {
    exists|i: int| 0 <= i < ids.len() && #[trigger] ids[i]@ == id
}

/// `s1` differs from `s0` at most in the selection, the uninteresting marks
/// (running and persistent) and the custom names (running and persistent), as
/// allowed; everything else is the same.
pub open spec fn only_changes(s0: UiState, s1: UiState, selection: bool, marks: bool, names: bool) -> bool {
    &&& !selection ==> s1.selected_nodes == s0.selected_nodes
    &&& !marks ==> s1.uninteresting_nodes == s0.uninteresting_nodes && s1.persistent_uninteresting == s0.persistent_uninteresting
    &&& !names ==> s1.custom_names == s0.custom_names && s1.persistent_custom_names == s0.persistent_custom_names
    &&& s1.selected_link == s0.selected_link
    &&& s1.rules == s0.rules
    &&& s1.groups == s0.groups
    &&& s1.filters == s0.filters
    &&& s1.hide_uninteresting == s0.hide_uninteresting
    &&& s1.show_internal_meter_nodes == s0.show_internal_meter_nodes
    &&& s1.layer_visibility == s0.layer_visibility
    &&& s1.initial_layout_done == s0.initial_layout_done
}

/// UI state that is not geometry: selection, marks, names, rules and filters.
#[derive(Debug)]
pub struct UiState {
    /// Currently selected nodes (raw node ids)
    pub selected_nodes: HashSet<u32>,
    /// Currently selected link (for inspection)
    pub selected_link: Option<LinkId>,
    /// Connection rules manager
    pub rules: RuleManager,
    /// Node groups
    pub groups: GroupManager,
    /// Active filters
    pub filters: FilterSet,
    /// Nodes marked as uninteresting by the user (raw node ids)
    pub uninteresting_nodes: HashSet<u32>,
    /// Persistent uninteresting nodes, by stable identifier
    pub persistent_uninteresting: Vec<NodeIdentifier>,
    /// Custom display names (raw node id -> name)
    pub custom_names: HashMap<u32, String>,
    /// Persistent custom display names, by stable identifier (the first entry counts)
    pub persistent_custom_names: Vec<(NodeIdentifier, String)>,
    /// Whether to hide uninteresting nodes from the graph view
    pub hide_uninteresting: bool,
    /// Whether to show Pipeflow's internal meter helper nodes in the graph
    pub show_internal_meter_nodes: bool,
    /// Visibility settings for PipeWire stack layers
    pub layer_visibility: LayerVisibility,
    /// Whether the initial layout has been completed (used for first-start detection)
    pub initial_layout_done: bool,
}

impl UiState {
    /// The identifiers persistently marked uninteresting.
    pub open spec fn marked(&self, id: NodeIdentifierView) -> bool {
        listed(self.persistent_uninteresting@, id)
    }

    /// The persistent custom name for an identifier.
    pub open spec fn saved_name(&self, id: NodeIdentifierView) -> Option<Seq<char>> {
        name_for(self.persistent_custom_names@, id)
    }

    /// Creates an empty state: nothing selected, marked or renamed, all layers visible.
    pub fn new() -> (r: Self)
        ensures
            r.selected_nodes@ == Set::<u32>::empty(),
            r.selected_link is None,
            r.uninteresting_nodes@ == Set::<u32>::empty(),
            r.custom_names@ == Map::<u32, String>::empty(),
            forall|id: NodeIdentifierView| !r.marked(id) && r.saved_name(id) is None,
            !r.hide_uninteresting,
            !r.show_internal_meter_nodes,
            !r.initial_layout_done,
            r.groups.groups@.len() == 0,
            r.groups.created() == 0,
    {
        UiState {
            selected_nodes: HashSet::new(),
            selected_link: None,
            rules: RuleManager::new(),
            groups: GroupManager::new(),
            filters: FilterSet::new(),
            uninteresting_nodes: HashSet::new(),
            persistent_uninteresting: Vec::new(),
            custom_names: HashMap::new(),
            persistent_custom_names: Vec::new(),
            hide_uninteresting: false,
            show_internal_meter_nodes: false,
            layer_visibility: LayerVisibility::default(),
            initial_layout_done: false,
        }
    }

    /// Selects a single node, deselecting others.
    pub fn select_node(&mut self, id: NodeId)
        ensures
            only_changes(*old(self), *final(self), true, false, false),
            final(self).selected_nodes@ == set![id.0],
            final(self).uninteresting_nodes == old(self).uninteresting_nodes,
            final(self).custom_names == old(self).custom_names,
    {
        self.selected_nodes.clear();
        self.selected_nodes.insert(id.0);
    }

    /// Adds a node to the selection.
    pub fn add_to_selection(&mut self, id: NodeId)
        ensures
            only_changes(*old(self), *final(self), true, false, false),
            final(self).selected_nodes@ == old(self).selected_nodes@.insert(id.0),
    {
        self.selected_nodes.insert(id.0);
    }

    /// Toggles node selection.
    pub fn toggle_selection(&mut self, id: NodeId)
        ensures
            only_changes(*old(self), *final(self), true, false, false),
            final(self).selected_nodes@ == if old(self).selected_nodes@.contains(id.0) {
                old(self).selected_nodes@.remove(id.0)
            } else {
                old(self).selected_nodes@.insert(id.0)
            },
    {
        if self.selected_nodes.contains(&id.0) {
            self.selected_nodes.remove(&id.0);
        } else {
            self.selected_nodes.insert(id.0);
        }
    }

    /// The selected nodes, each once (in the set's iteration order).
    pub fn selected_ids(&self) -> (r: Vec<NodeId>)
        ensures
            r@.len() == self.selected_nodes@.len(),
            r@.no_duplicates(),
            forall|n: NodeId| #[trigger] r@.contains(n) <==> self.selected_nodes@.contains(n.0),
    {
        let mut r: Vec<NodeId> = Vec::new();
        let keys = self.selected_nodes.iter();
        let ghost s = vstd::std_specs::iter::IteratorSpec::remaining(&keys);
        proof {
            vstd::std_specs::hash::axiom_spec_hash_keys_iter(&self.selected_nodes);
            assert(s.unref().to_set() == self.selected_nodes@);
        }
        for k in it: keys
            invariant
                it.seq() == s,
                s.no_duplicates(),
                s.len() == self.selected_nodes@.len(),
                s.unref().to_set() == self.selected_nodes@,
                r@.len() == it.index(),
                forall|j: int| 0 <= j < r@.len() ==> #[trigger] r@[j] == NodeId(*s[j]),
        {
            r.push(NodeId::new(*k));
        }
        proof {
            assert forall|a: int, b: int| 0 <= a < r@.len() && 0 <= b < r@.len() && a != b implies r@[a] != r@[b] by {
                assert(r@[a] == NodeId(*s[a]) && r@[b] == NodeId(*s[b]));
                assert(s[a] != s[b]);
            }
            assert forall|n: NodeId| #[trigger] r@.contains(n) <==> self.selected_nodes@.contains(n.0) by {
                if r@.contains(n) {
                    let j = choose|j: int| 0 <= j < r@.len() && r@[j] == n;
                    assert(s.unref()[j] == n.0);
                    assert(s.unref().contains(n.0));
                }
                if self.selected_nodes@.contains(n.0) {
                    assert(s.unref().to_set().contains(n.0));
                    let j = choose|j: int| 0 <= j < s.unref().len() && s.unref()[j] == n.0;
                    assert(r@[j] == n);
                }
            }
        }
        r
    }

    /// Clears the selection.
    pub fn clear_selection(&mut self)
        ensures
            only_changes(*old(self), *final(self), true, false, false),
            final(self).selected_nodes@ == Set::<u32>::empty(),
    {
        self.selected_nodes.clear();
    }

    /// Toggles a node's uninteresting status (for this run only).
    pub fn toggle_uninteresting(&mut self, id: NodeId)
        ensures
            only_changes(*old(self), *final(self), false, true, false),
            final(self).persistent_uninteresting == old(self).persistent_uninteresting,
            final(self).uninteresting_nodes@ == if old(self).uninteresting_nodes@.contains(id.0) {
                old(self).uninteresting_nodes@.remove(id.0)
            } else {
                old(self).uninteresting_nodes@.insert(id.0)
            },
    {
        if self.uninteresting_nodes.contains(&id.0) {
            self.uninteresting_nodes.remove(&id.0);
        } else {
            self.uninteresting_nodes.insert(id.0);
        }
    }

    /// Returns true if the node is marked as uninteresting.
    pub fn is_uninteresting(&self, id: &NodeId) -> (r: bool)
        ensures
            r == self.uninteresting_nodes@.contains(id.0),
    {
        self.uninteresting_nodes.contains(&id.0)
    }

    /// Toggles whether to hide uninteresting nodes.
    pub fn toggle_hide_uninteresting(&mut self)
        ensures
            final(self).hide_uninteresting == !old(self).hide_uninteresting,
    {
        self.hide_uninteresting = !self.hide_uninteresting;
    }

    /// Returns true if the identifier is persistently marked uninteresting.
    pub fn is_marked_persistently(&self, identifier: &NodeIdentifier) -> (r: bool)
        ensures
            r == self.marked(identifier@),
    {
        let mut i: usize = 0;
        while i < self.persistent_uninteresting.len()
            invariant
                i <= self.persistent_uninteresting@.len(),
                forall|m: int| 0 <= m < i ==> #[trigger] self.persistent_uninteresting@[m]@ != identifier@,
            decreases self.persistent_uninteresting.len() - i,
        {
            if identifier_eq(&self.persistent_uninteresting[i], identifier) {
                return true;
            }
            i += 1;
        }
        false
    }

    /// Marks the node uninteresting if its identifier is persistently marked;
    /// returns whether it is.
    pub fn restore_uninteresting_for_node(&mut self, node_id: NodeId, identifier: &NodeIdentifier) -> (r: bool)
        ensures
            only_changes(*old(self), *final(self), false, true, false),
            mark_restored(*old(self), *final(self), node_id, identifier@, r),
            final(self).persistent_uninteresting == old(self).persistent_uninteresting,
    {
        if self.is_marked_persistently(identifier) {
            self.uninteresting_nodes.insert(node_id.0);
            true
        } else {
            false
        }
    }

    /// Sets both the running and the persistent uninteresting mark of a node.
    pub fn update_uninteresting(&mut self, node_id: NodeId, identifier: &NodeIdentifier, uninteresting: bool)
        ensures
            only_changes(*old(self), *final(self), false, true, false),
            mark_updated(*old(self), *final(self), node_id, identifier@, uninteresting),
    {
        if uninteresting {
            self.uninteresting_nodes.insert(node_id.0);
            if !self.is_marked_persistently(identifier) {
                self.persistent_uninteresting.push(identifier.duplicate());
                proof {
                    assert(self.persistent_uninteresting@[self.persistent_uninteresting@.len() - 1]@ == identifier@);
                    assert forall|id: NodeIdentifierView| id != identifier@ implies self.marked(id) == old(self).marked(id) by {
                        if old(self).marked(id) {
                            let i = choose|i: int| 0 <= i < old(self).persistent_uninteresting@.len() && #[trigger] old(self).persistent_uninteresting@[i]@ == id;
                            assert(self.persistent_uninteresting@[i] == old(self).persistent_uninteresting@[i]);
                        }
                        if self.marked(id) {
                            let i = choose|i: int| 0 <= i < self.persistent_uninteresting@.len() && #[trigger] self.persistent_uninteresting@[i]@ == id;
                            assert(old(self).persistent_uninteresting@[i] == self.persistent_uninteresting@[i]);
                        }
                    }
                }
            }
        } else {
            self.uninteresting_nodes.remove(&node_id.0);
            let ghost before = self.persistent_uninteresting@;
            let mut kept: Vec<NodeIdentifier> = Vec::new();
            let mut i: usize = 0;
            while i < self.persistent_uninteresting.len()
                invariant
                    i <= self.persistent_uninteresting@.len(),
                    self.persistent_uninteresting@ == before,
                    forall|m: int| 0 <= m < kept@.len() ==> #[trigger] kept@[m]@ != identifier@,
                    forall|id: NodeIdentifierView| id != identifier@ ==> (listed(kept@, id) <==> exists|m: int| 0 <= m < i && #[trigger] before[m]@ == id),
                decreases self.persistent_uninteresting.len() - i,
            {
                let ghost old_kept = kept@;
                if !identifier_eq(&self.persistent_uninteresting[i], identifier) {
                    kept.push(self.persistent_uninteresting[i].duplicate());
                }
                proof {
                    assert forall|id: NodeIdentifierView| id != identifier@ implies (listed(kept@, id) <==> exists|m: int| 0 <= m < i + 1 && #[trigger] before[m]@ == id) by {
                        if listed(old_kept, id) {
                            let a = choose|a: int| 0 <= a < old_kept.len() && #[trigger] old_kept[a]@ == id;
                            assert(kept@[a] == old_kept[a]);
                        }
                        if listed(kept@, id) && !listed(old_kept, id) {
                            let a = choose|a: int| 0 <= a < kept@.len() && #[trigger] kept@[a]@ == id;
                            if a < old_kept.len() {
                                assert(old_kept[a] == kept@[a]);
                            }
                            assert(before[i as int]@ == id);
                        }
                        if before[i as int]@ == id && !listed(old_kept, id) {
                            assert(kept@[kept@.len() - 1]@ == id);
                        }
                    }
                }
                i += 1;
            }
            self.persistent_uninteresting = kept;
            proof {
                assert(!self.marked(identifier@)) by {
                    if self.marked(identifier@) {
                        let a = choose|a: int| 0 <= a < self.persistent_uninteresting@.len() && #[trigger] self.persistent_uninteresting@[a]@ == identifier@;
                    }
                }
            }
        }
    }

    /// Returns the custom display name for a node, if set.
    pub fn get_custom_name(&self, id: &NodeId) -> (r: Option<&str>)
        ensures
            match r {
                Some(s) => self.custom_names@.contains_key(id.0) && s@ == self.custom_names@[id.0]@,
                None => !self.custom_names@.contains_key(id.0),
            },
    {
        match self.custom_names.get(&id.0) {
            Some(s) => Some(s.as_str()),
            None => None,
        }
    }

    /// The persistent custom name for an identifier, if any.
    pub fn saved_custom_name(&self, identifier: &NodeIdentifier) -> (r: Option<&String>)
        ensures
            match r {
                Some(s) => self.saved_name(identifier@) == Some(s@),
                None => self.saved_name(identifier@) is None,
            },
    {
        proof {
            assert(self.persistent_custom_names@.skip(0) =~= self.persistent_custom_names@);
        }
        let mut i: usize = 0;
        while i < self.persistent_custom_names.len()
            invariant
                i <= self.persistent_custom_names@.len(),
                name_for(self.persistent_custom_names@, identifier@) == name_for(self.persistent_custom_names@.skip(i as int), identifier@),
            decreases self.persistent_custom_names.len() - i,
        {
            proof {
                assert(self.persistent_custom_names@.skip(i as int).drop_first() =~= self.persistent_custom_names@.skip(i + 1));
            }
            if identifier_eq(&self.persistent_custom_names[i].0, identifier) {
                return Some(&self.persistent_custom_names[i].1);
            }
            i += 1;
        }
        None
    }

    /// Sets a custom display name for a node, for this run and persistently.
    pub fn set_custom_name(&mut self, node_id: NodeId, identifier: &NodeIdentifier, name: String)
        ensures
            only_changes(*old(self), *final(self), false, false, true),
            named(*old(self), *final(self), node_id, identifier@, name@),
            final(self).custom_names@ == old(self).custom_names@.insert(node_id.0, name),
    {
        let saved = name.clone();
        self.custom_names.insert(node_id.0, name);
        self.persistent_custom_names.insert(0, (identifier.duplicate(), saved));
        proof {
            assert(self.persistent_custom_names@.drop_first() =~= old(self).persistent_custom_names@);
        }
    }

    /// Clears the custom display name for a node, for this run and persistently.
    pub fn clear_custom_name(&mut self, node_id: NodeId, identifier: &NodeIdentifier)
        ensures
            only_changes(*old(self), *final(self), false, false, true),
            final(self).custom_names@ == old(self).custom_names@.remove(node_id.0),
            final(self).saved_name(identifier@) is None,
            forall|id: NodeIdentifierView| id != identifier@ ==> final(self).saved_name(id) == old(self).saved_name(id),
            forall|id: NodeIdentifierView| final(self).marked(id) == old(self).marked(id),
            final(self).uninteresting_nodes@ == old(self).uninteresting_nodes@,
    {
        self.custom_names.remove(&node_id.0);
        let ghost before = self.persistent_custom_names@;
        proof {
            assert(before.skip(0) =~= before);
        }
        let mut kept: Vec<(NodeIdentifier, String)> = Vec::new();
        let mut i: usize = 0;
        while i < self.persistent_custom_names.len()
            invariant
                i <= before.len(),
                self.persistent_custom_names@ == before,
                name_for(kept@, identifier@) is None,
                forall|id: NodeIdentifierView| id != identifier@ && name_for(kept@, id) is None ==>
                    name_for(before, id) == name_for(before.skip(i as int), id),
                forall|id: NodeIdentifierView| id != identifier@ && name_for(kept@, id) is Some ==>
                    name_for(before, id) == name_for(kept@, id),
            decreases before.len() - i,
        {
            let ghost old_kept = kept@;
            proof {
                assert(before.skip(i as int).drop_first() =~= before.skip(i + 1));
                assert(before.skip(i as int)[0] == before[i as int]);
            }
            if !identifier_eq(&self.persistent_custom_names[i].0, identifier) {
                let entry = (self.persistent_custom_names[i].0.duplicate(), self.persistent_custom_names[i].1.clone());
                kept.push(entry);
                proof {
                    lemma_name_for_push(old_kept, entry);
                }
            } else {
                proof {
                    assert(kept@ == old_kept);
                }
            }
            i += 1;
        }
        self.persistent_custom_names = kept;
        proof {
            assert forall|id: NodeIdentifierView| id != identifier@ implies self.saved_name(id) == old(self).saved_name(id) by {
                if name_for(self.persistent_custom_names@, id) is None {
                    assert(before.skip(before.len() as int) =~= Seq::<(NodeIdentifier, String)>::empty());
                }
            }
        }
    }

    /// Gives the node its persistent custom name, if its identifier has one;
    /// returns whether it did.
    pub fn restore_custom_name_for_node(&mut self, node_id: NodeId, identifier: &NodeIdentifier) -> (r: bool)
        ensures
            only_changes(*old(self), *final(self), false, false, true),
            name_restored(*old(self), *final(self), node_id, identifier@, r),
            final(self).persistent_custom_names == old(self).persistent_custom_names,
    {
        let found = match self.saved_custom_name(identifier) {
            Some(name) => Some(name.clone()),
            None => None,
        };
        match found {
            Some(name) => {
                self.custom_names.insert(node_id.0, name);
                true
            },
            None => false,
        }
    }

    /// Returns the display name for a node: its custom name if set, else its
    /// description or name.
    pub fn resolved_display_name<'a>(&'a self, node: &'a Node) -> (r: &'a str)
        ensures
            r@ == if self.custom_names@.contains_key(node.id.0) {
                self.custom_names@[node.id.0]@
            } else {
                node.spec_display_name()
            },
    {
        match self.custom_names.get(&node.id.0) {
            Some(s) => s.as_str(),
            None => node.display_name(),
        }
    }

    /// Forgets what this run knew of a removed node (selection, mark, name);
    /// the persistent marks and names stay for when the node reappears.
    pub fn cleanup_removed_node(&mut self, node_id: &NodeId)
        ensures
            only_changes(*old(self), *final(self), true, true, true),
            forgotten(*old(self), *final(self), *node_id),
            final(self).persistent_uninteresting == old(self).persistent_uninteresting,
            final(self).persistent_custom_names == old(self).persistent_custom_names,
    {
        self.selected_nodes.remove(&node_id.0);
        self.custom_names.remove(&node_id.0);
        self.uninteresting_nodes.remove(&node_id.0);
    }
}

/// Appending an entry changes no name already given, and gives the entry's
/// identifier its name when it had none.
proof fn lemma_name_for_push(s: Seq<(NodeIdentifier, String)>, e: (NodeIdentifier, String))
    ensures
        forall|id: NodeIdentifierView| name_for(s, id) is Some ==> #[trigger] name_for(s.push(e), id) == name_for(s, id),
        forall|id: NodeIdentifierView| name_for(s, id) is None ==> #[trigger] name_for(s.push(e), id) == if e.0@ == id { Some(e.1@) } else { None },
    decreases s.len(),
{
    if s.len() > 0 {
        lemma_name_for_push(s.drop_first(), e);
        assert(s.push(e).drop_first() =~= s.drop_first().push(e));
        assert(s.push(e)[0] == s[0]);
        assert forall|id: NodeIdentifierView| name_for(s, id) is Some implies #[trigger] name_for(s.push(e), id) == name_for(s, id) by {
            if s[0].0@ != id {
                assert(name_for(s.push(e), id) == name_for(s.drop_first().push(e), id));
            }
        }
        assert forall|id: NodeIdentifierView| name_for(s, id) is None implies #[trigger] name_for(s.push(e), id) == if e.0@ == id { Some(e.1@) } else { None } by {
            assert(name_for(s.push(e), id) == name_for(s.drop_first().push(e), id));
        }
    } else {
        assert(s.push(e).drop_first() =~= Seq::<(NodeIdentifier, String)>::empty());
        assert forall|id: NodeIdentifierView| name_for(s, id) is None implies #[trigger] name_for(s.push(e), id) == if e.0@ == id { Some(e.1@) } else { None } by {
            assert(s.push(e)[0] == e);
            if e.0@ != id {
                assert(name_for(s.push(e), id) == name_for(s.push(e).drop_first(), id));
            }
        }
    }
}

/// `s1` is `s0` after naming node `n` (identifier `ident`) `name`, for this run
/// and persistently.
pub open spec fn named(s0: UiState, s1: UiState, n: NodeId, ident: NodeIdentifierView, name: Seq<char>) -> bool {
    &&& s1.custom_names@.dom() == s0.custom_names@.dom().insert(n.0)
    &&& s1.custom_names@[n.0]@ == name
    &&& forall|k: u32| k != n.0 && #[trigger] s0.custom_names@.contains_key(k) ==> s1.custom_names@[k] == s0.custom_names@[k]
    &&& s1.saved_name(ident) == Some(name)
    &&& forall|id: NodeIdentifierView| id != ident ==> #[trigger] s1.saved_name(id) == s0.saved_name(id)
    &&& forall|id: NodeIdentifierView| #[trigger] s1.marked(id) == s0.marked(id)
    &&& s1.uninteresting_nodes@ == s0.uninteresting_nodes@
}

/// `s1` is `s0` after forgetting what this run knew of node `n`: it is no longer
/// selected, marked or named; the persistent marks and names are kept.
pub open spec fn forgotten(s0: UiState, s1: UiState, n: NodeId) -> bool {
    &&& s1.selected_nodes@ == s0.selected_nodes@.remove(n.0)
    &&& s1.custom_names@ == s0.custom_names@.remove(n.0)
    &&& s1.uninteresting_nodes@ == s0.uninteresting_nodes@.remove(n.0)
    &&& forall|id: NodeIdentifierView| #[trigger] s1.saved_name(id) == s0.saved_name(id)
    &&& forall|id: NodeIdentifierView| #[trigger] s1.marked(id) == s0.marked(id)
}

/// `s1` is `s0` after restoring the custom name of node `n` (identifier
/// `ident`); `r` tells whether there was one to restore.
pub open spec fn name_restored(s0: UiState, s1: UiState, n: NodeId, ident: NodeIdentifierView, r: bool) -> bool {
    &&& r == (s0.saved_name(ident) is Some)
    &&& r ==> s1.custom_names@.dom() == s0.custom_names@.dom().insert(n.0)
        && Some(s1.custom_names@[n.0]@) == s0.saved_name(ident)
        && forall|k: u32| k != n.0 && #[trigger] s0.custom_names@.contains_key(k) ==> s1.custom_names@[k] == s0.custom_names@[k]
    &&& !r ==> s1.custom_names@ == s0.custom_names@
    &&& forall|id: NodeIdentifierView| #[trigger] s1.saved_name(id) == s0.saved_name(id)
    &&& forall|id: NodeIdentifierView| #[trigger] s1.marked(id) == s0.marked(id)
    &&& s1.uninteresting_nodes@ == s0.uninteresting_nodes@
}

/// `s1` is `s0` after setting the uninteresting mark of node `n` (identifier
/// `ident`) to `on`, for this run and persistently.
pub open spec fn mark_updated(s0: UiState, s1: UiState, n: NodeId, ident: NodeIdentifierView, on: bool) -> bool {
    &&& s1.uninteresting_nodes@ == if on { s0.uninteresting_nodes@.insert(n.0) } else { s0.uninteresting_nodes@.remove(n.0) }
    &&& s1.marked(ident) == on
    &&& forall|id: NodeIdentifierView| id != ident ==> #[trigger] s1.marked(id) == s0.marked(id)
    &&& forall|id: NodeIdentifierView| #[trigger] s1.saved_name(id) == s0.saved_name(id)
    &&& s1.custom_names@ == s0.custom_names@
}

/// `s1` is `s0` after restoring the uninteresting mark of node `n` (identifier
/// `ident`); `r` tells whether the identifier was marked.
pub open spec fn mark_restored(s0: UiState, s1: UiState, n: NodeId, ident: NodeIdentifierView, r: bool) -> bool {
    &&& r == s0.marked(ident)
    &&& s1.uninteresting_nodes@ == if r { s0.uninteresting_nodes@.insert(n.0) } else { s0.uninteresting_nodes@ }
    &&& forall|id: NodeIdentifierView| #[trigger] s1.marked(id) == s0.marked(id)
    &&& forall|id: NodeIdentifierView| #[trigger] s1.saved_name(id) == s0.saved_name(id)
    &&& s1.custom_names@ == s0.custom_names@
}

/// A custom name survives the node's disappearance: name a node, forget it, and
/// a node that appears with the same identifier (under any id) gets the name back.
pub proof fn lemma_custom_name_survives(
    s0: UiState, s1: UiState, s2: UiState, s3: UiState,
    n0: NodeId, n1: NodeId, ident: NodeIdentifierView, name: Seq<char>, r: bool,
)
    requires
        named(s0, s1, n0, ident, name),
        forgotten(s1, s2, n0),
        name_restored(s2, s3, n1, ident, r),
    ensures
        r,
        s3.custom_names@.contains_key(n1.0),
        s3.custom_names@[n1.0]@ == name,
{
    assert(s2.saved_name(ident) == s1.saved_name(ident));
    assert(s3.custom_names@.dom().contains(n1.0));
}

/// An uninteresting mark survives the node's disappearance: mark a node, forget
/// it, and a node that appears with the same identifier is marked again.
pub proof fn lemma_mark_survives(
    s0: UiState, s1: UiState, s2: UiState, s3: UiState,
    n0: NodeId, n1: NodeId, ident: NodeIdentifierView, r: bool,
)
    requires
        mark_updated(s0, s1, n0, ident, true),
        forgotten(s1, s2, n0),
        mark_restored(s2, s3, n1, ident, r),
    ensures
        r,
        s3.uninteresting_nodes@.contains(n1.0),
{
    assert(s2.marked(ident) == s1.marked(ident));
}

}
