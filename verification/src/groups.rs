//! Node groups: named, colored sets of nodes that can be collapsed together.
//!
//! A group remembers its members both by running node id and by stable
//! identifier, so that membership returns when a node reappears. The group's
//! on-screen position is kept by the application.

use std::collections::HashSet;
use vstd::prelude::*;

use crate::ids::{GroupId, NodeId, NodeIdentifier, NodeIdentifierView};
use crate::restore::identifier_eq;
use crate::text::{decimal, owned, push_decimal};

verus! {

broadcast use vstd::std_specs::hash::group_hash_axioms;

/// Color for a group (for visual distinction).
#[derive(Debug, Clone, Copy, PartialEq, Eq, Structural)]
pub struct GroupColor {
    /// Red component (0-255).
    pub r: u8,
    /// Green component (0-255).
    pub g: u8,
    /// Blue component (0-255).
    pub b: u8,
}

/// The predefined group colors, in order: blue, red, teal, yellow, purple,
/// orange, green, crimson, light blue, violet.
pub open spec fn palette_colors() -> Seq<GroupColor> {
    seq![
        GroupColor { r: 99, g: 155, b: 255 },
        GroupColor { r: 255, g: 99, b: 132 },
        GroupColor { r: 75, g: 192, b: 192 },
        GroupColor { r: 255, g: 206, b: 86 },
        GroupColor { r: 153, g: 102, b: 255 },
        GroupColor { r: 255, g: 159, b: 64 },
        GroupColor { r: 46, g: 204, b: 113 },
        GroupColor { r: 231, g: 76, b: 60 },
        GroupColor { r: 52, g: 152, b: 219 },
        GroupColor { r: 155, g: 89, b: 182 },
    ]
}

impl GroupColor {
    /// Creates a new color.
    pub fn new(r: u8, g: u8, b: u8) -> (c: Self)
        ensures
            c == (GroupColor { r, g, b }),
    {
        GroupColor { r, g, b }
    }

    /// Predefined colors for groups.
    pub fn palette() -> (p: Vec<Self>)
        ensures
            p@ == palette_colors(),
    {
        let p = vec![
            Self::new(99, 155, 255),
            Self::new(255, 99, 132),
            Self::new(75, 192, 192),
            Self::new(255, 206, 86),
            Self::new(153, 102, 255),
            Self::new(255, 159, 64),
            Self::new(46, 204, 113),
            Self::new(231, 76, 60),
            Self::new(52, 152, 219),
            Self::new(155, 89, 182),
        ];
        proof {
            assert(p@ =~= palette_colors());
        }
        p
    }

    /// Returns a color from the palette by index, wrapping around at its end.
    pub fn from_palette(index: usize) -> (c: Self)
        ensures
            c == palette_colors()[index as int % palette_colors().len() as int],
    {
        let palette = Self::palette();
        palette[index % palette.len()]
    }
}

impl Default for GroupColor {
    /// The first palette color (blue).
    fn default() -> (c: Self)
        ensures
            c == (GroupColor { r: 99, g: 155, b: 255 }),
    {
        Self::new(99, 155, 255)
    }
}

/// Colors repeat every palette length: index `i` and `i + 10` pick the same color.
pub proof fn lemma_palette_wraps(i: int)
    requires
        0 <= i,
    ensures
        palette_colors()[i % palette_colors().len() as int]
            == palette_colors()[(i + palette_colors().len()) % palette_colors().len() as int],
{
    assert(palette_colors().len() == 10);
    assert((i + 10) % 10 == i % 10) by (nonlinear_arith);
}

/// A group of nodes that can be manipulated together.
#[derive(Debug)]
pub struct NodeGroup {
    /// Unique group ID
    pub id: GroupId,
    /// Group name
    pub name: String,
    /// Member nodes (raw running node ids)
    pub members: HashSet<u32>,
    /// Persistent member identifiers (survive restarts), each listed once
    pub persistent_members: Vec<NodeIdentifier>,
    /// Whether the group is collapsed
    pub collapsed: bool,
    /// Group color (for visual distinction)
    pub color: GroupColor,
}

/// The views of a list of identifiers.
pub open spec fn identifier_views(ids: Seq<NodeIdentifier>) -> Seq<NodeIdentifierView> {
    ids.map_values(|i: NodeIdentifier| i@)
}

impl NodeGroup {
    /// The persistent members as a list of identifier views.
    pub open spec fn persistent_views(&self) -> Seq<NodeIdentifierView> {
        identifier_views(self.persistent_members@)
    }

    /// No identifier is listed twice among the persistent members.
    pub open spec fn wf(&self) -> bool {
        self.persistent_views().no_duplicates()
    }

    /// Creates a new empty, expanded group with the given name and the default color.
    pub fn new(name: String) -> (g: Self)
        ensures
            g.id.0 != 0,
            g.name == name,
            g.members@ == Set::<u32>::empty(),
            g.persistent_members@.len() == 0,
            !g.collapsed,
            g.color == (GroupColor { r: 99, g: 155, b: 255 }),
            g.wf(),
    {
        let g = NodeGroup {
            id: GroupId::new(),
            name,
            members: HashSet::new(),
            persistent_members: Vec::new(),
            collapsed: false,
            color: GroupColor::default(),
        };
        proof {
            assert(g.persistent_views() =~= Seq::<NodeIdentifierView>::empty());
        }
        g
    }

    /// Adds a node to the group.
    pub fn add_member(&mut self, node_id: NodeId)
        ensures
            final(self).members@ == old(self).members@.insert(node_id.0),
            final(self).persistent_members == old(self).persistent_members,
            final(self).id == old(self).id,
            final(self).name == old(self).name,
            final(self).collapsed == old(self).collapsed,
            final(self).color == old(self).color,
    {
        self.members.insert(node_id.0);
    }

    /// Removes a node from the group; returns whether it was a member.
    pub fn remove_member(&mut self, node_id: &NodeId) -> (r: bool)
        ensures
            r == old(self).members@.contains(node_id.0),
            final(self).members@ == old(self).members@.remove(node_id.0),
            final(self).persistent_members == old(self).persistent_members,
            final(self).id == old(self).id,
            final(self).name == old(self).name,
            final(self).collapsed == old(self).collapsed,
            final(self).color == old(self).color,
    {
        self.members.remove(&node_id.0)
    }

    /// Returns true if the group contains the given node.
    pub fn contains(&self, node_id: &NodeId) -> (r: bool)
        ensures
            r == self.members@.contains(node_id.0),
    {
        self.members.contains(&node_id.0)
    }

    /// Returns true if the identifier is among the persistent members.
    pub fn has_persistent_member(&self, identifier: &NodeIdentifier) -> (r: bool)
        ensures
            r == self.persistent_views().contains(identifier@),
    {
        let mut i: usize = 0;
        while i < self.persistent_members.len()
            invariant
                i <= self.persistent_members@.len(),
                forall|m: int| 0 <= m < i ==> #[trigger] self.persistent_members@[m]@ != identifier@,
            decreases self.persistent_members.len() - i,
        {
            if identifier_eq(&self.persistent_members[i], identifier) {
                proof {
                    assert(self.persistent_views()[i as int] == identifier@);
                }
                return true;
            }
            i += 1;
        }
        proof {
            if self.persistent_views().contains(identifier@) {
                let k = choose|k: int| 0 <= k < self.persistent_views().len() && self.persistent_views()[k] == identifier@;
                assert(self.persistent_members@[k]@ == identifier@);
            }
        }
        false
    }

    /// Adds an identifier to the persistent members unless it is listed already;
    /// returns whether it was added.
    pub fn add_persistent_member(&mut self, identifier: NodeIdentifier) -> (r: bool)
        ensures
            r == !old(self).persistent_views().contains(identifier@),
            final(self).persistent_views() == if r {
                old(self).persistent_views().push(identifier@)
            } else {
                old(self).persistent_views()
            },
            old(self).wf() ==> final(self).wf(),
            final(self).members == old(self).members,
            final(self).id == old(self).id,
            final(self).name == old(self).name,
            final(self).collapsed == old(self).collapsed,
            final(self).color == old(self).color,
    {
        if self.has_persistent_member(&identifier) {
            false
        } else {
            let ghost old_views = self.persistent_views();
            let ghost v = identifier@;
            self.persistent_members.push(identifier);
            proof {
                assert(self.persistent_views() =~= old_views.push(v));
            }
            true
        }
    }

    /// Removes an identifier from the persistent members; returns whether it was listed.
    pub fn remove_persistent_member(&mut self, identifier: &NodeIdentifier) -> (r: bool)
        ensures
            r == old(self).persistent_views().contains(identifier@),
            !r ==> final(self).persistent_members == old(self).persistent_members,
            forall|x: NodeIdentifierView| x != identifier@ ==>
                (#[trigger] final(self).persistent_views().contains(x) <==> old(self).persistent_views().contains(x)),
            old(self).wf() ==> final(self).wf() && !final(self).persistent_views().contains(identifier@),
            final(self).members == old(self).members,
            final(self).id == old(self).id,
            final(self).name == old(self).name,
            final(self).collapsed == old(self).collapsed,
            final(self).color == old(self).color,
    {
        let mut i: usize = 0;
        while i < self.persistent_members.len()
            invariant
                i <= self.persistent_members@.len(),
                self.persistent_members == old(self).persistent_members,
                self.members == old(self).members,
                self.id == old(self).id,
                self.name == old(self).name,
                self.collapsed == old(self).collapsed,
                self.color == old(self).color,
                forall|m: int| 0 <= m < i ==> #[trigger] self.persistent_members@[m]@ != identifier@,
            decreases self.persistent_members.len() - i,
        {
            if identifier_eq(&self.persistent_members[i], identifier) {
                let ghost old_views = self.persistent_views();
                self.persistent_members.remove(i);
                proof {
                    assert(self.persistent_views() =~= old_views.remove(i as int));
                    assert(old_views[i as int] == identifier@);
                    assert forall|x: NodeIdentifierView| x != identifier@ implies
                        (#[trigger] self.persistent_views().contains(x) <==> old_views.contains(x)) by {
                        if old_views.contains(x) {
                            let k = choose|k: int| 0 <= k < old_views.len() && old_views[k] == x;
                            if k < i {
                                assert(self.persistent_views()[k] == x);
                            } else {
                                assert(k != i);
                                assert(self.persistent_views()[k - 1] == x);
                            }
                        }
                        if self.persistent_views().contains(x) {
                            let k = choose|k: int| 0 <= k < self.persistent_views().len() && self.persistent_views()[k] == x;
                            if k < i {
                                assert(old_views[k] == x);
                            } else {
                                assert(old_views[k + 1] == x);
                            }
                        }
                    }
                    if old(self).wf() {
                        let nv = self.persistent_views();
                        assert forall|a: int, b: int| 0 <= a < nv.len() && 0 <= b < nv.len() && a != b implies nv[a] != nv[b] by {
                            let oa = if a < i { a } else { a + 1 };
                            let ob = if b < i { b } else { b + 1 };
                            assert(nv[a] == old_views[oa]);
                            assert(nv[b] == old_views[ob]);
                        }
                        if nv.contains(identifier@) {
                            let k = choose|k: int| 0 <= k < nv.len() && nv[k] == identifier@;
                            let ok = if k < i { k } else { k + 1 };
                            assert(old_views[ok] == identifier@);
                        }
                    }
                }
                return true;
            }
            i += 1;
        }
        proof {
            if self.persistent_views().contains(identifier@) {
                let k = choose|k: int| 0 <= k < self.persistent_views().len() && self.persistent_views()[k] == identifier@;
                assert(self.persistent_members@[k]@ == identifier@);
            }
        }
        false
    }

    /// Reconciles a node: if its identifier is a persistent member, its running id
    /// joins the members. Returns whether it did.
    pub fn reconcile_node(&mut self, node_id: NodeId, identifier: &NodeIdentifier) -> (r: bool)
        ensures
            r == old(self).persistent_views().contains(identifier@),
            final(self).members@ == if r { old(self).members@.insert(node_id.0) } else { old(self).members@ },
            final(self).persistent_members == old(self).persistent_members,
            final(self).id == old(self).id,
            final(self).name == old(self).name,
            final(self).collapsed == old(self).collapsed,
            final(self).color == old(self).color,
    {
        if self.has_persistent_member(identifier) {
            self.members.insert(node_id.0);
            true
        } else {
            false
        }
    }

    /// Returns the number of running members.
    pub fn member_count(&self) -> (r: usize)
        ensures
            r == self.members@.len(),
    {
        self.members.len()
    }

    /// Returns the number of persistent members (survives restarts): the number
    /// of distinct identifiers, the count expected before reconciliation.
    pub fn persistent_member_count(&self) -> (r: usize)
        ensures
            r == self.persistent_members@.len(),
            self.wf() ==> r == self.persistent_views().to_set().len(),
    {
        proof {
            if self.wf() {
                self.persistent_views().unique_seq_to_set();
            }
        }
        self.persistent_members.len()
    }

    /// The member count to show: the persistent count while no running member
    /// is known yet but persistent members are, the running count otherwise.
    pub fn effective_member_count(&self) -> (r: usize)
        ensures
            r == if self.members@.len() == 0 && self.persistent_members@.len() > 0 {
                self.persistent_members@.len()
            } else {
                self.members@.len()
            },
    {
        if self.members.len() == 0 && self.persistent_members.len() > 0 {
            self.persistent_members.len()
        } else {
            self.members.len()
        }
    }

    /// Returns true if the group has no members, running or persistent.
    pub fn is_truly_empty(&self) -> (r: bool)
        ensures
            r == (self.members@.len() == 0 && self.persistent_members@.len() == 0),
    {
        self.members.len() == 0 && self.persistent_members.len() == 0
    }

    /// Returns true if the group has persistent members that no running node
    /// has been reconciled with yet.
    pub fn is_pending_reconciliation(&self) -> (r: bool)
        ensures
            r == (self.members@.len() == 0 && self.persistent_members@.len() > 0),
    {
        self.members.len() == 0 && self.persistent_members.len() > 0
    }

    /// Toggles the collapsed state.
    pub fn toggle_collapsed(&mut self)
        ensures
            final(self).collapsed == !old(self).collapsed,
            final(self).members == old(self).members,
            final(self).persistent_members == old(self).persistent_members,
            final(self).id == old(self).id,
            final(self).name == old(self).name,
            final(self).color == old(self).color,
    {
        self.collapsed = !self.collapsed;
    }
}

/// Manager for node groups.
#[derive(Debug)]
pub struct GroupManager {
    /// All groups
    pub groups: Vec<NodeGroup>,
    /// Counter for generating unique group names
    pub next_group_number: usize,
}

/// The index of the first group with the id, if any.
pub open spec fn first_group_index(groups: Seq<NodeGroup>, id: GroupId) -> Option<int> {
    if exists|i: int| 0 <= i < groups.len() && groups[i].id == id {
        Some(choose|i: int| 0 <= i < groups.len() && groups[i].id == id
            && forall|j: int| 0 <= j < i ==> groups[j].id != id)
    } else {
        None
    }
}

/// The default name of the `n`-th group.
pub open spec fn default_group_name(n: nat) -> Seq<char> {
    "Group "@ + decimal(n)
}

/// `m1` is `m0` after a node with the id and identifier appeared: every group
/// that lists the identifier persistently gains the id; nothing else changes.
pub open spec fn groups_reconciled(m0: GroupManager, m1: GroupManager, node_id: NodeId, identifier: NodeIdentifierView) -> bool {
    &&& m1.created() == m0.created()
    &&& m1.groups@.len() == m0.groups@.len()
    &&& forall|i: int| 0 <= i < m0.groups@.len() ==> {
        let g = #[trigger] m1.groups@[i];
        let o = m0.groups@[i];
        &&& g.members@ == if o.persistent_views().contains(identifier) { o.members@.insert(node_id.0) } else { o.members@ }
        &&& g.persistent_members == o.persistent_members
        &&& g.id == o.id
        &&& g.name == o.name
        &&& g.collapsed == o.collapsed
        &&& g.color == o.color
    }
}

impl Default for GroupManager {
    fn default() -> (r: Self)
        ensures
            r.groups@.len() == 0,
            r.created() == 0,
    {
        GroupManager { groups: Vec::new(), next_group_number: 0 }
    }
}

impl GroupManager {
    /// The number of groups created so far (for default names).
    pub open spec fn created(&self) -> nat {
        self.next_group_number as nat
    }

    /// Creates a new empty group manager.
    pub fn new() -> (r: Self)
        ensures
            r.groups@.len() == 0,
            r.created() == 0,
    {
        GroupManager { groups: Vec::new(), next_group_number: 0 }
    }

    /// Index of the first group with the given id.
    pub fn position(&self, id: &GroupId) -> (r: Option<usize>)
        ensures
            match r {
                Some(i) => i < self.groups@.len() && self.groups@[i as int].id == *id
                    && forall|j: int| 0 <= j < i ==> self.groups@[j].id != *id,
                None => forall|j: int| 0 <= j < self.groups@.len() ==> self.groups@[j].id != *id,
            },
    {
        let mut i: usize = 0;
        while i < self.groups.len()
            invariant
                i <= self.groups@.len(),
                forall|j: int| 0 <= j < i ==> self.groups@[j].id != *id,
            decreases self.groups.len() - i,
        {
            if self.groups[i].id == *id {
                return Some(i);
            }
            i += 1;
        }
        None
    }

    /// Creates a new empty group at the end and returns its id. Without a name
    /// it is called "Group N", N counting the groups created; its color is the
    /// palette color at the number of groups it joins.
    pub fn create_group(&mut self, name: Option<String>) -> (r: GroupId)
        requires
            old(self).created() < usize::MAX,
        ensures
            final(self).created() == old(self).created() + 1,
            final(self).groups@.len() == old(self).groups@.len() + 1,
            final(self).groups@.take(old(self).groups@.len() as int) == old(self).groups@,
            ({
                let added = final(self).groups@.last();
                &&& added.id == r
                &&& r.0 != 0
                &&& added.name@ == match name {
                    Some(n) => n@,
                    None => default_group_name(final(self).created()),
                }
                &&& added.members@ == Set::<u32>::empty()
                &&& added.persistent_members@.len() == 0
                &&& !added.collapsed
                &&& added.color == palette_colors()[old(self).groups@.len() as int % palette_colors().len() as int]
                &&& added.wf()
            }),
    {
        self.next_group_number = self.next_group_number + 1;
        let group_name = match name {
            Some(n) => n,
            None => {
                let mut s = owned("Group ");
                push_decimal(&mut s, self.next_group_number as u64);
                s
            },
        };
        let mut group = NodeGroup::new(group_name);
        group.color = GroupColor::from_palette(self.groups.len());
        let id = group.id;
        proof {
            assert(group.persistent_views() =~= Seq::<NodeIdentifierView>::empty());
        }
        self.groups.push(group);
        proof {
            assert(self.groups@.take(old(self).groups@.len() as int) =~= old(self).groups@);
        }
        id
    }

    /// Creates a group (as `create_group`) whose running members are the given nodes.
    pub fn create_group_with_members(&mut self, name: Option<String>, members: Vec<NodeId>) -> (r: GroupId)
        requires
            old(self).created() < usize::MAX,
        ensures
            final(self).created() == old(self).created() + 1,
            final(self).groups@.len() == old(self).groups@.len() + 1,
            final(self).groups@.take(old(self).groups@.len() as int) == old(self).groups@,
            ({
                let added = final(self).groups@.last();
                &&& added.id == r
                &&& r.0 != 0
                &&& added.name@ == match name {
                    Some(n) => n@,
                    None => default_group_name(final(self).created()),
                }
                &&& forall|n: u32| added.members@.contains(n) <==> exists|k: int| 0 <= k < members@.len() && #[trigger] members@[k].0 == n
                &&& added.persistent_members@.len() == 0
                &&& !added.collapsed
                &&& added.color == palette_colors()[old(self).groups@.len() as int % palette_colors().len() as int]
                &&& added.wf()
            }),
    {
        let id = self.create_group(name);
        let mut set: HashSet<u32> = HashSet::new();
        let mut k: usize = 0;
        while k < members.len()
            invariant
                k <= members@.len(),
                forall|n: u32| set@.contains(n) <==> exists|m: int| 0 <= m < k && #[trigger] members@[m].0 == n,
            decreases members.len() - k,
        {
            set.insert(members[k].0);
            proof {
                assert forall|n: u32| set@.contains(n) <==> exists|m: int| 0 <= m < k + 1 && #[trigger] members@[m].0 == n by {
                    if n == members@[k as int].0 {
                        assert(members@[k as int].0 == n);
                    }
                }
            }
            k += 1;
        }
        let last = self.groups.len() - 1;
        let mut group = self.groups.remove(last);
        group.members = set;
        self.groups.push(group);
        proof {
            assert(self.groups@.take(old(self).groups@.len() as int) =~= old(self).groups@);
            assert(self.groups@.last().persistent_views() =~= Seq::<NodeIdentifierView>::empty());
        }
        id
    }

    /// Removes the first group with the given id and returns it.
    pub fn remove_group(&mut self, id: &GroupId) -> (r: Option<NodeGroup>)
        ensures
            match first_group_index(old(self).groups@, *id) {
                Some(i) => r == Some(old(self).groups@[i]) && final(self).groups@ == old(self).groups@.remove(i),
                None => r is None && final(self).groups@ == old(self).groups@,
            },
            final(self).created() == old(self).created(),
    {
        match self.position(id) {
            Some(i) => {
                proof {
                    let f = first_group_index(old(self).groups@, *id);
                    assert(f == Some(i as int));
                }
                Some(self.groups.remove(i))
            },
            None => None,
        }
    }

    /// Gets the first group with the given id.
    pub fn get_group(&self, id: &GroupId) -> (r: Option<&NodeGroup>)
        ensures
            match first_group_index(self.groups@, *id) {
                Some(i) => r == Some(&self.groups@[i]),
                None => r is None,
            },
    {
        match self.position(id) {
            Some(i) => {
                proof {
                    let f = first_group_index(self.groups@, *id);
                    assert(f == Some(i as int));
                }
                Some(&self.groups[i])
            },
            None => None,
        }
    }

    /// Reconciles a node that just appeared: every group that lists its
    /// identifier persistently gains its running id.
    pub fn reconcile_node(&mut self, node_id: NodeId, identifier: &NodeIdentifier)
        ensures
            groups_reconciled(*old(self), *final(self), node_id, identifier@),
    {
        let n = self.groups.len();
        let mut i: usize = 0;
        while i < n
            invariant
                n == old(self).groups@.len(),
                self.groups@.len() == n,
                i <= n,
                self.created() == old(self).created(),
                forall|k: int| i <= k < n ==> #[trigger] self.groups@[k] == old(self).groups@[k],
                forall|k: int| 0 <= k < i ==> {
                    let g = #[trigger] self.groups@[k];
                    let o = old(self).groups@[k];
                    &&& g.members@ == if o.persistent_views().contains(identifier@) { o.members@.insert(node_id.0) } else { o.members@ }
                    &&& g.persistent_members == o.persistent_members
                    &&& g.id == o.id
                    &&& g.name == o.name
                    &&& g.collapsed == o.collapsed
                    &&& g.color == o.color
                },
            decreases n - i,
        {
            let mut group = self.groups.remove(i);
            group.reconcile_node(node_id, identifier);
            self.groups.insert(i, group);
            i += 1;
        }
    }
}

/// Membership by identifier survives a restart: after a node with a persistent
/// member's identifier reappears under any id and is reconciled, every group
/// that lists that identifier contains the new id.
pub proof fn lemma_membership_survives(before: GroupManager, after: GroupManager, node_id: NodeId, identifier: NodeIdentifierView, i: int)
    requires
        0 <= i < before.groups@.len(),
        before.groups@[i].persistent_views().contains(identifier),
        groups_reconciled(before, after, node_id, identifier),
    ensures
        after.groups@[i].members@.contains(node_id.0),
{
    assert(after.groups@[i].members@ == before.groups@[i].members@.insert(node_id.0));
}

}
