//! Registry of in-flight cycle groups.
//!
//! A cycle group is created when a thread closes a dependency cycle. That thread backs out
//! to its top level and evaluates the strongly connected component again, detached (with an
//! empty query stack), as the group's single owner. Every other thread that touches the
//! group's provisional state waits until the group completes. The group records its members,
//! so that an aborted evaluation can be discarded as a whole by removing the members' memos.
use std::sync::Arc;
use vstd::prelude::*;

use crate::fx_map::FxMap;
use crate::key::{contains_key, DatabaseKeyIndex, ThreadId};

verus! {

/// One live group: the query it is rooted at, and the thread that evaluates it.
#[derive(Clone, Copy, Debug, PartialEq, Eq, Structural)]
pub struct GroupState {
    pub root: DatabaseKeyIndex,
    pub owner: ThreadId,
}

/// The two numbers that name a query: ingredient first, then key.
pub open spec fn spec_key_order(key: DatabaseKeyIndex) -> (u32, u64) {
    (key.ingredient_index.index, key.key_index.bits)
}

/// An arbitrary but run-stable total order over query keys, used to pick canonical
/// cycle-group entries and to arbitrate group-versus-group conflicts.
pub fn key_order(key: DatabaseKeyIndex) -> (order: (u32, u64))
    ensures
        order == spec_key_order(key),
{
    (key.ingredient_index().as_u32(), key.key_index().as_bits())
}

/// Whether `a` comes strictly before `b` in the order of [`key_order`].
pub open spec fn precedes(a: DatabaseKeyIndex, b: DatabaseKeyIndex) -> bool {
    let (x, y) = (spec_key_order(a), spec_key_order(b));
    x.0 < y.0 || (x.0 == y.0 && x.1 < y.1)
}

/// Whether `a` comes strictly before `b` in the order of [`key_order`].
pub fn comes_before(a: DatabaseKeyIndex, b: DatabaseKeyIndex) -> (before: bool)
    ensures
        before == precedes(a, b),
{
    let x = key_order(a);
    let y = key_order(b);
    x.0 < y.0 || (x.0 == y.0 && x.1 < y.1)
}

/// What the registry holds.
#[verifier::ext_equal]
pub struct GroupsView {
    /// Live groups by root key.
    pub groups: Map<DatabaseKeyIndex, GroupState>,
    /// Member key to root key of the live group that it belongs to.
    pub member_index: Map<DatabaseKeyIndex, DatabaseKeyIndex>,
    /// Member key to the cycle heads that it read.
    pub member_heads: Map<DatabaseKeyIndex, Seq<DatabaseKeyIndex>>,
    /// Owner thread to root key of the live group that it evaluates.
    pub owner_index: Map<ThreadId, DatabaseKeyIndex>,
}

impl GroupsView {
    pub open spec fn empty() -> GroupsView {
        GroupsView {
            groups: Map::empty(),
            member_index: Map::empty(),
            member_heads: Map::empty(),
            owner_index: Map::empty(),
        }
    }

    /// Every entry speaks of a live group, and a group's owner is the one it was registered for.
    pub open spec fn wf(self) -> bool {
        &&& forall|root: DatabaseKeyIndex| #[trigger]
            self.groups.contains_key(root) ==> self.groups[root].root == root
        &&& forall|member: DatabaseKeyIndex| #[trigger]
            self.member_index.contains_key(member) ==> self.groups.contains_key(
                self.member_index[member],
            )
        &&& forall|member: DatabaseKeyIndex| #[trigger]
            self.member_heads.contains_key(member) ==> self.member_index.contains_key(member)
        &&& forall|thread: ThreadId| #[trigger]
            self.owner_index.contains_key(thread) ==> {
                let root = self.owner_index[thread];
                self.groups.contains_key(root) && self.groups[root].owner == thread
            }
    }

    /// Whether a live group has `key` as its root or as a member.
    pub open spec fn covers(self, key: DatabaseKeyIndex) -> bool {
        self.groups.contains_key(key) || self.member_index.contains_key(key)
    }

    /// The registry with a new group of which only the root is known.
    pub open spec fn register(self, root: DatabaseKeyIndex, owner: ThreadId) -> GroupsView {
        GroupsView {
            groups: self.groups.insert(root, GroupState { root, owner }),
            member_index: self.member_index.insert(root, root),
            owner_index: self.owner_index.insert(owner, root),
            ..self
        }
    }

    /// The registry with `member` recorded for `root`, linked to exactly `heads`.
    pub open spec fn add_member(
        self,
        root: DatabaseKeyIndex,
        member: DatabaseKeyIndex,
        heads: Seq<DatabaseKeyIndex>,
    ) -> GroupsView {
        GroupsView {
            member_index: self.member_index.insert(member, root),
            member_heads: self.member_heads.insert(member, heads),
            ..self
        }
    }

    /// Whether `key` is recorded for the group rooted at `root`.
    pub open spec fn is_member(self, root: DatabaseKeyIndex, key: DatabaseKeyIndex) -> bool {
        self.member_index.contains_key(key) && self.member_index[key] == root
    }

    /// The registry without the group rooted at `root` and everything recorded for it.
    pub open spec fn complete(self, root: DatabaseKeyIndex) -> GroupsView {
        GroupsView {
            groups: self.groups.remove(root),
            member_index: Map::new(
                |key: DatabaseKeyIndex|
                    self.member_index.contains_key(key) && self.member_index[key] != root,
                |key: DatabaseKeyIndex| self.member_index[key],
            ),
            member_heads: Map::new(
                |key: DatabaseKeyIndex|
                    self.member_heads.contains_key(key) && !self.is_member(root, key),
                |key: DatabaseKeyIndex| self.member_heads[key],
            ),
            owner_index: Map::new(
                |thread: ThreadId|
                    self.owner_index.contains_key(thread) && self.owner_index[thread] != root,
                |thread: ThreadId| self.owner_index[thread],
            ),
        }
    }

    /// Whether `root` is the root of a live group that `thread` owns.
    pub open spec fn owns(self, thread: ThreadId, root: DatabaseKeyIndex) -> bool {
        self.groups.contains_key(root) && self.groups[root].owner == thread
    }

    /// The live group that `key` belongs to.
    pub open spec fn group_of(self, key: DatabaseKeyIndex) -> Option<GroupState> {
        match self.member_index.get(key) {
            Some(root) => self.groups.get(root),
            None => None,
        }
    }

    /// Whether `member` is recorded for `root` with `head` among the heads that it read.
    pub open spec fn read(
        self,
        root: DatabaseKeyIndex,
        member: DatabaseKeyIndex,
        head: DatabaseKeyIndex,
    ) -> bool {
        self.is_member(root, member) && self.member_heads.contains_key(member)
            && self.member_heads[member].contains(head)
    }

    /// Whether `key` is recorded for another group than the one rooted at `root`.
    pub open spec fn is_elsewhere(self, root: DatabaseKeyIndex, key: DatabaseKeyIndex) -> bool {
        self.member_index.contains_key(key) && self.member_index[key] != root
    }

    /// Whether `b` joins the component of `a` directly: `b` is a member of the group that
    /// read `a`, or `a` is one that read `b`, and `b` is not recorded for another group.
    pub open spec fn linked(
        self,
        root: DatabaseKeyIndex,
        a: DatabaseKeyIndex,
        b: DatabaseKeyIndex,
    ) -> bool {
        ||| self.read(root, b, a)
        ||| self.read(root, a, b) && !self.is_elsewhere(root, b)
    }

    /// A sequence of keys in which each joins the component of the one before it.
    pub open spec fn is_path(self, root: DatabaseKeyIndex, path: Seq<DatabaseKeyIndex>) -> bool {
        &&& path.len() > 0
        &&& forall|i: int, j: int|
            0 <= i && j == i + 1 && j < path.len() ==> self.linked(
                root,
                #[trigger] path[i],
                #[trigger] path[j],
            )
    }

    /// Whether `key` is in the closure of the links from `head`.
    pub open spec fn in_component(
        self,
        root: DatabaseKeyIndex,
        head: DatabaseKeyIndex,
        key: DatabaseKeyIndex,
    ) -> bool {
        exists|path: Seq<DatabaseKeyIndex>| #[trigger]
            self.is_path(root, path) && path[0] == head && path.last() == key
    }

    pub open spec fn component(
        self,
        root: DatabaseKeyIndex,
        head: DatabaseKeyIndex,
    ) -> Set<DatabaseKeyIndex> {
        Set::new(|key: DatabaseKeyIndex| self.in_component(root, head, key))
    }
}

impl GroupsView {
    /// Whether every key that joins the component of `a` directly is among `keys`.
    pub open spec fn links_into(
        self,
        root: DatabaseKeyIndex,
        a: DatabaseKeyIndex,
        keys: Seq<DatabaseKeyIndex>,
    ) -> bool {
        forall|b: DatabaseKeyIndex| #[trigger] self.linked(root, a, b) ==> keys.contains(b)
    }

    /// `component` holds nothing but the component of `head`, and `frontier` holds all of it
    /// that may still have links out of it.
    spec fn explored(
        self,
        root: DatabaseKeyIndex,
        head: DatabaseKeyIndex,
        component: Seq<DatabaseKeyIndex>,
        frontier: Seq<DatabaseKeyIndex>,
    ) -> bool {
        &&& component.len() > 0
        &&& component[0] == head
        &&& component.no_duplicates()
        &&& forall|key: DatabaseKeyIndex| #[trigger]
            frontier.contains(key) ==> component.contains(key)
        &&& forall|key: DatabaseKeyIndex| #[trigger]
            component.contains(key) ==> self.in_component(root, head, key)
        &&& forall|key: DatabaseKeyIndex| #[trigger]
            component.contains(key) && !frontier.contains(key) ==> self.links_into(
                root,
                key,
                component,
            )
    }

    /// As `explored`, while the links of `current` are being followed.
    spec fn explored_but(
        self,
        root: DatabaseKeyIndex,
        head: DatabaseKeyIndex,
        component: Seq<DatabaseKeyIndex>,
        frontier: Seq<DatabaseKeyIndex>,
        current: DatabaseKeyIndex,
    ) -> bool {
        &&& component.contains(current)
        &&& self.explored(root, head, component, frontier.push(current))
        &&& forall|key: DatabaseKeyIndex| #[trigger]
            frontier.contains(key) ==> component.contains(key)
    }

    proof fn lemma_join(
        self,
        root: DatabaseKeyIndex,
        head: DatabaseKeyIndex,
        component: Seq<DatabaseKeyIndex>,
        frontier: Seq<DatabaseKeyIndex>,
        current: DatabaseKeyIndex,
        joining: DatabaseKeyIndex,
    )
        requires
            self.explored_but(root, head, component, frontier, current),
            self.linked(root, current, joining),
            !component.contains(joining),
        ensures
            self.explored_but(
                root,
                head,
                component.push(joining),
                frontier.push(joining),
                current,
            ),
    {
        self.lemma_in_component_step(root, head, current, joining);
        crate::seqs::lemma_push_contains(component, joining);
        crate::seqs::lemma_push_contains(frontier, joining);
        crate::seqs::lemma_push_contains(frontier, current);
        crate::seqs::lemma_push_contains(frontier.push(joining), current);
    }

    proof fn lemma_in_component_step(
        self,
        root: DatabaseKeyIndex,
        head: DatabaseKeyIndex,
        a: DatabaseKeyIndex,
        b: DatabaseKeyIndex,
    )
        requires
            self.in_component(root, head, a),
            self.linked(root, a, b),
        ensures
            self.in_component(root, head, b),
    {
        let path = choose|path: Seq<DatabaseKeyIndex>| #[trigger]
            self.is_path(root, path) && path[0] == head && path.last() == a;
        let longer = path.push(b);
        assert forall|i: int, j: int| 0 <= i && j == i + 1 && j < longer.len() implies self.linked(
            root,
            #[trigger] longer[i],
            #[trigger] longer[j],
        ) by {
            if j < path.len() {
                assert(longer[i] == path[i] && longer[j] == path[j]);
            }
        }
        assert(self.is_path(root, longer) && longer[0] == head && longer.last() == b);
    }

    proof fn lemma_in_component_self(self, root: DatabaseKeyIndex, head: DatabaseKeyIndex)
        ensures
            self.in_component(root, head, head),
    {
        let path = seq![head];
        assert(self.is_path(root, path) && path[0] == head && path.last() == head);
    }

    proof fn lemma_in_component_transitive(
        self,
        root: DatabaseKeyIndex,
        a: DatabaseKeyIndex,
        b: DatabaseKeyIndex,
        c: DatabaseKeyIndex,
    )
        requires
            self.in_component(root, a, b),
            self.in_component(root, b, c),
        ensures
            self.in_component(root, a, c),
    {
        let path = choose|path: Seq<DatabaseKeyIndex>| #[trigger]
            self.is_path(root, path) && path[0] == b && path.last() == c;
        let reached = Set::new(|key: DatabaseKeyIndex| self.in_component(root, a, key));
        assert forall|x: DatabaseKeyIndex, y: DatabaseKeyIndex|
            reached.contains(x) && #[trigger] self.linked(root, x, y) implies reached.contains(
            y,
        ) by {
            self.lemma_in_component_step(root, a, x, y);
        }
        self.lemma_path_stays_in_set(root, reached, path, path.len() - 1);
    }

    proof fn lemma_path_stays_in_set(
        self,
        root: DatabaseKeyIndex,
        keys: Set<DatabaseKeyIndex>,
        path: Seq<DatabaseKeyIndex>,
        i: int,
    )
        requires
            self.is_path(root, path),
            keys.contains(path[0]),
            forall|a: DatabaseKeyIndex, b: DatabaseKeyIndex|
                keys.contains(a) && #[trigger] self.linked(root, a, b) ==> keys.contains(b),
            0 <= i < path.len(),
        ensures
            keys.contains(path[i]),
        decreases i,
    {
        if i > 0 {
            self.lemma_path_stays_in_set(root, keys, path, i - 1);
            assert(self.linked(root, path[i - 1], path[i]));
        }
    }

    /// A path that starts within the group stays within it.
    proof fn lemma_path_within_group(
        self,
        root: DatabaseKeyIndex,
        path: Seq<DatabaseKeyIndex>,
        i: int,
    )
        requires
            self.is_path(root, path),
            0 <= i < path.len(),
            i > 0 || !self.is_elsewhere(root, path[0]),
        ensures
            !self.is_elsewhere(root, path[i]),
    {
        if i > 0 {
            assert(self.linked(root, path[i - 1], path[i]));
        }
    }

    /// A path within the group can be followed back from its end to its `i`-th key.
    proof fn lemma_path_back(self, root: DatabaseKeyIndex, path: Seq<DatabaseKeyIndex>, i: int)
        requires
            self.is_path(root, path),
            !self.is_elsewhere(root, path[0]),
            0 <= i < path.len(),
        ensures
            self.in_component(root, path.last(), path[i]),
        decreases path.len() - i,
    {
        if i == path.len() - 1 {
            self.lemma_in_component_self(root, path.last());
        } else {
            self.lemma_path_back(root, path, i + 1);
            self.lemma_path_within_group(root, path, i);
            assert(self.linked(root, path[i], path[i + 1]));
            assert(self.linked(root, path[i + 1], path[i]));
            self.lemma_in_component_step(root, path.last(), path[i + 1], path[i]);
        }
    }

    /// Keys that hold `head` and that no link leads out of hold the component of `head`.
    proof fn lemma_component_least(
        self,
        root: DatabaseKeyIndex,
        head: DatabaseKeyIndex,
        keys: Seq<DatabaseKeyIndex>,
        key: DatabaseKeyIndex,
    )
        requires
            keys.contains(head),
            forall|a: DatabaseKeyIndex| #[trigger]
                keys.contains(a) ==> self.links_into(root, a, keys),
            self.in_component(root, head, key),
        ensures
            keys.contains(key),
    {
        let path = choose|path: Seq<DatabaseKeyIndex>| #[trigger]
            self.is_path(root, path) && path[0] == head && path.last() == key;
        assert forall|x: DatabaseKeyIndex, y: DatabaseKeyIndex|
            keys.to_set().contains(x) && #[trigger] self.linked(
                root,
                x,
                y,
            ) implies keys.to_set().contains(y) by {
            assert(keys.contains(x));
        }
        self.lemma_path_stays_in_set(root, keys.to_set(), path, path.len() - 1);
    }
}

/// Registry of in-flight cycle groups.
pub struct CycleGroups {
    groups: FxMap<DatabaseKeyIndex, Arc<GroupState>>,
    member_index: FxMap<DatabaseKeyIndex, DatabaseKeyIndex>,
    member_heads: FxMap<DatabaseKeyIndex, Vec<DatabaseKeyIndex>>,
    owner_index: FxMap<ThreadId, DatabaseKeyIndex>,
}

impl View for CycleGroups {
    type V = GroupsView;

    closed spec fn view(&self) -> GroupsView {
        GroupsView {
            groups: self.groups@.map_values(|group: Arc<GroupState>| *group),
            member_index: self.member_index@,
            member_heads: self.member_heads@.map_values(|heads: Vec<DatabaseKeyIndex>| heads@),
            owner_index: self.owner_index@,
        }
    }
}

impl Default for CycleGroups {
    fn default() -> (registry: CycleGroups)
        ensures
            registry@ == GroupsView::empty(),
            registry@.wf(),
    {
        let registry = CycleGroups {
            groups: FxMap::new(),
            member_index: FxMap::new(),
            member_heads: FxMap::new(),
            owner_index: FxMap::new(),
        };
        assert(registry@ =~= GroupsView::empty());
        registry
    }
}

impl CycleGroups {
    /// Registers a new group rooted at `root` and owned by `owner`. Returns `None` if a live
    /// group already covers `root` (as root or member).
    pub fn register(&mut self, root: DatabaseKeyIndex, owner: ThreadId) -> (registered: Option<
        Arc<GroupState>,
    >)
        ensures
            old(self)@.covers(root) ==> registered is None && final(self)@ == old(self)@,
            !old(self)@.covers(root) ==> {
                &&& registered matches Some(group) && *group == (GroupState { root, owner })
                &&& final(self)@ == old(self)@.register(root, owner)
                &&& old(self)@.wf() ==> final(self)@.wf()
            },
    {
        if self.groups.get(root).is_some() || self.member_index.get(root).is_some() {
            return None;
        }
        let group = Arc::new(GroupState { root, owner });
        self.groups.insert(root, Arc::clone(&group));
        self.member_index.insert(root, root);
        self.owner_index.insert(owner, root);
        assert(self@ =~= old(self)@.register(root, owner));
        Some(group)
    }

    /// Records `member` as part of the live group rooted at `root`, linked to the cycle
    /// `heads` that it read (itself, if the member is a head).
    ///
    /// Recording a member again replaces its links: components reflect the converged
    /// dependency structure, not couplings of earlier iterations that have since vanished.
    pub fn add_member(
        &mut self,
        root: DatabaseKeyIndex,
        member: DatabaseKeyIndex,
        heads: Vec<DatabaseKeyIndex>,
    )
        requires
            old(self)@.groups.contains_key(root),
        ensures
            final(self)@ == old(self)@.add_member(root, member, heads@),
            old(self)@.wf() ==> final(self)@.wf(),
    {
        self.member_index.insert(member, root);
        self.member_heads.insert(member, heads);
        assert(self@ =~= old(self)@.add_member(root, member, heads@));
    }

    /// Whether `key` is recorded for the group rooted at `root`.
    fn is_member(&self, root: DatabaseKeyIndex, key: DatabaseKeyIndex) -> (member: bool)
        ensures
            member == self@.is_member(root, key),
    {
        match self.member_index.get(key) {
            Some(of) => *of == root,
            None => false,
        }
    }

    /// Whether `key` is recorded for another group than the one rooted at `root`.
    fn is_elsewhere(&self, root: DatabaseKeyIndex, key: DatabaseKeyIndex) -> (elsewhere: bool)
        ensures
            elsewhere == self@.is_elsewhere(root, key),
    {
        match self.member_index.get(key) {
            Some(of) => *of != root,
            None => false,
        }
    }

    /// The members of `head`'s connected component within the group rooted at `root`: the
    /// closure of the links between members and heads. Queries that are recorded for another group
    /// do not join. `head` comes first, and each key once; the order of the others is not fixed.
    ///
    /// The component is a superset of the strongly connected component that `head` belongs to,
    /// and disjoint from independent cycles that merely share the group; a function of the
    /// dependency structure, so stable across runs and entry points.
    pub fn component_of(&self, root: DatabaseKeyIndex, head: DatabaseKeyIndex) -> (component: Vec<
        DatabaseKeyIndex,
    >)
        ensures
            component@.len() > 0,
            component@[0] == head,
            component@.no_duplicates(),
            component@.to_set() == self@.component(root, head),
    {
        let members = self.member_heads.keys();
        let mut component: Vec<DatabaseKeyIndex> = Vec::new();
        component.push(head);
        let mut frontier: Vec<DatabaseKeyIndex> = Vec::new();
        frontier.push(head);
        let ghost view = self@;
        proof {
            view.lemma_in_component_self(root, head);
            assert(frontier@[0] == head);
        }
        while frontier.len() > 0
            invariant
                view == self@,
                forall|key: DatabaseKeyIndex| #[trigger]
                    members@.contains(key) <==> view.member_heads.contains_key(key),
                view.explored(root, head, component@, frontier@),
            decreases usize::MAX - component.len(), frontier.len(),
        {
            let ghost start = component@;
            let ghost before = frontier@;
            let current = frontier[frontier.len() - 1];
            frontier.pop();
            proof {
                assert(before =~= frontier@.push(current));
                crate::seqs::lemma_push_contains(frontier@, current);
                assert(before.contains(current));
            }
            for i in 0..members.len()
                invariant
                    view == self@,
                    forall|key: DatabaseKeyIndex| #[trigger]
                        members@.contains(key) <==> view.member_heads.contains_key(key),
                    view.explored_but(root, head, component@, frontier@, current),
                    component@.len() - start.len() == frontier@.len() - (before.len() - 1),
                    component@.len() >= start.len(),
                    forall|j: int|
                        0 <= j < i && view.read(root, members@[j], current)
                            ==> component@.contains(#[trigger] members@[j]),
            {
                let member = members[i];
                proof {
                    crate::seqs::lemma_push_contains(component@, member);
                }
                if self.is_member(root, member) && !contains_key(&component, member) {
                    match self.member_heads.get(member) {
                        Some(heads) => {
                            if contains_key(heads, current) {
                                proof {
                                    view.lemma_join(
                                        root,
                                        head,
                                        component@,
                                        frontier@,
                                        current,
                                        member,
                                    );
                                }
                                component.push(member);
                                frontier.push(member);
                            }
                        },
                        None => {},
                    }
                }
            }
            proof {
                assert forall|member: DatabaseKeyIndex| #[trigger]
                    view.read(root, member, current) implies component@.contains(member) by {
                    assert(members@.contains(member));
                }
            }
            // Heads that `current` read also join the component, if they may.
            let heads = if self.is_member(root, current) {
                self.member_heads.get(current)
            } else {
                None
            };
            match heads {
                Some(heads) => {
                    for i in 0..heads.len()
                        invariant
                            view == self@,
                            view.is_member(root, current),
                            view.member_heads.contains_key(current),
                            view.member_heads[current] == heads@,
                            view.explored_but(root, head, component@, frontier@, current),
                            component@.len() - start.len() == frontier@.len() - (before.len() - 1),
                            component@.len() >= start.len(),
                            forall|member: DatabaseKeyIndex| #[trigger]
                                view.read(root, member, current) ==> component@.contains(member),
                            forall|j: int|
                                0 <= j < i && !view.is_elsewhere(root, #[trigger] heads@[j])
                                    ==> component@.contains(heads@[j]),
                    {
                        let linked = heads[i];
                        proof {
                            crate::seqs::lemma_push_contains(component@, linked);
                        }
                        if !self.is_elsewhere(root, linked) && !contains_key(&component, linked) {
                            proof {
                                view.lemma_join(root, head, component@, frontier@, current, linked);
                            }
                            component.push(linked);
                            frontier.push(linked);
                        }
                    }
                },
                None => {},
            }
            assert(view.links_into(root, current, component@));
        }
        proof {
            assert forall|key: DatabaseKeyIndex| #[trigger]
                view.component(root, head).contains(key) implies component@.contains(key) by {
                view.lemma_component_least(root, head, component@, key);
            }
            assert(component@.to_set() =~= view.component(root, head));
        }
        component
    }

    /// The live group that `key` belongs to, if any.
    pub fn group_of(&self, key: DatabaseKeyIndex) -> (group: Option<Arc<GroupState>>)
        ensures
            group is Some <==> self@.group_of(key) is Some,
            group matches Some(group) ==> self@.group_of(key) == Some(*group),
            self@.wf() ==> (group is Some <==> self@.member_index.contains_key(key)),
    {
        match self.member_index.get(key) {
            Some(root) => match self.groups.get(*root) {
                Some(group) => Some(Arc::clone(group)),
                None => None,
            },
            None => None,
        }
    }

    /// Whether `root` is the root of a live group that `thread` owns.
    pub fn owns(&self, thread: ThreadId, root: DatabaseKeyIndex) -> (owns: bool)
        ensures
            owns == self@.owns(thread, root),
    {
        match self.groups.get(root) {
            Some(group) => group.owner == thread,
            None => false,
        }
    }

    /// The root of the live group that `thread` owns (evaluates), if any.
    pub fn root_owned_by(&self, thread: ThreadId) -> (root: Option<DatabaseKeyIndex>)
        ensures
            root == self@.owner_index.get(thread),
    {
        match self.owner_index.get(thread) {
            Some(root) => Some(*root),
            None => None,
        }
    }

    /// The members of the live group rooted at `root`, each once, in no particular order
    /// (queries that were never recorded are not among them).
    pub fn members_of(&self, root: DatabaseKeyIndex) -> (members: Vec<DatabaseKeyIndex>)
        ensures
            members@.no_duplicates(),
            forall|key: DatabaseKeyIndex|
                #![trigger members@.contains(key)]
                #![trigger self@.is_member(root, key)]
                members@.contains(key) <==> self@.is_member(root, key),
    {
        let keys = self.member_index.keys();
        let mut members: Vec<DatabaseKeyIndex> = Vec::new();
        for i in 0..keys.len()
            invariant
                keys@.no_duplicates(),
                forall|key: DatabaseKeyIndex| #[trigger]
                    keys@.contains(key) <==> self.member_index@.contains_key(key),
                members@.no_duplicates(),
                forall|key: DatabaseKeyIndex| #[trigger]
                    members@.contains(key) <==> keys@.take(i as int).contains(key)
                        && self.member_index@[key] == root,
        {
            let key = keys[i];
            proof {
                crate::seqs::lemma_take_next(keys@, i as int);
                crate::seqs::lemma_push_contains(members@, key);
                assert(!members@.contains(key));
            }
            match self.member_index.get(key) {
                Some(of) => {
                    if *of == root {
                        members.push(key);
                    }
                },
                None => {},
            }
        }
        proof {
            crate::seqs::lemma_take_all(keys@);
        }
        members
    }

    /// The cycle heads that `member` read, if it is recorded with any.
    pub fn heads_of(&self, member: DatabaseKeyIndex) -> (heads: Option<&Vec<DatabaseKeyIndex>>)
        ensures
            heads is Some <==> self@.member_heads.contains_key(member),
            heads matches Some(heads) ==> heads@ == self@.member_heads[member],
    {
        self.member_heads.get(member)
    }

    /// The threads recorded as owner of the group rooted at `root`.
    fn owners_of(&self, root: DatabaseKeyIndex) -> (owners: Vec<ThreadId>)
        ensures
            forall|thread: ThreadId| #[trigger]
                owners@.contains(thread) <==> self.owner_index@.contains_key(thread)
                    && self.owner_index@[thread] == root,
    {
        let threads = self.owner_index.keys();
        let mut owners: Vec<ThreadId> = Vec::new();
        for i in 0..threads.len()
            invariant
                forall|thread: ThreadId| #[trigger]
                    threads@.contains(thread) <==> self.owner_index@.contains_key(thread),
                forall|thread: ThreadId| #[trigger]
                    owners@.contains(thread) <==> threads@.take(i as int).contains(thread)
                        && self.owner_index@[thread] == root,
        {
            let thread = threads[i];
            proof {
                crate::seqs::lemma_take_next(threads@, i as int);
                crate::seqs::lemma_push_contains(owners@, thread);
            }
            match self.owner_index.get(thread) {
                Some(of) => {
                    if *of == root {
                        owners.push(thread);
                    }
                },
                None => {},
            }
        }
        proof {
            crate::seqs::lemma_take_all(threads@);
        }
        owners
    }

    /// Completes the group rooted at `root`, removing it from the registry with all that was
    /// recorded for it.
    pub fn complete(&mut self, root: DatabaseKeyIndex)
        ensures
            final(self)@ == old(self)@.complete(root),
            old(self)@.wf() ==> final(self)@.wf(),
    {
        let members = self.members_of(root);
        self.member_index.remove_all(&members);
        self.member_heads.remove_all(&members);
        let owners = self.owners_of(root);
        self.owner_index.remove_all(&owners);
        self.groups.remove(root);
        proof {
            assert forall|key: DatabaseKeyIndex| #[trigger]
                members@.to_set().contains(key) <==> old(self)@.is_member(root, key) by {
                assert(members@.contains(key) <==> old(self)@.is_member(root, key));
            }
            assert forall|thread: ThreadId| #[trigger]
                owners@.to_set().contains(thread) <==> old(self).owner_index@.contains_key(thread)
                    && old(self).owner_index@[thread] == root by {
                assert(owners@.contains(thread) <==> owners@.to_set().contains(thread));
            }
            let expected = old(self)@.complete(root);
            assert(self@.groups =~= expected.groups);
            assert(self@.member_index =~= expected.member_index);
            assert(self@.member_heads =~= expected.member_heads);
            assert(self@.owner_index =~= expected.owner_index);
        }
    }
}

/// The order over keys is a strict total order.
pub proof fn law_key_order_is_total(a: DatabaseKeyIndex, b: DatabaseKeyIndex, c: DatabaseKeyIndex)
    ensures
        !precedes(a, a),
        precedes(a, b) || a == b || precedes(b, a),
        precedes(a, b) ==> !precedes(b, a),
        precedes(a, b) && precedes(b, c) ==> precedes(a, c),
        spec_key_order(a) == spec_key_order(b) ==> a == b,
{
}

/// A registered group covers its root, is owned by the thread it was registered for, and has
/// its root as its only member.
pub proof fn law_register_makes_group(view: GroupsView, root: DatabaseKeyIndex, owner: ThreadId)
    requires
        view.wf(),
        !view.covers(root),
    ensures
        view.register(root, owner).covers(root),
        view.register(root, owner).group_of(root) == Some(GroupState { root, owner }),
        view.register(root, owner).owner_index.get(owner) == Some(root),
        forall|key: DatabaseKeyIndex| #[trigger]
            view.register(root, owner).is_member(root, key) <==> key == root,
{
}

/// Completing a group leaves nothing behind of it, and changes nothing for other groups.
pub proof fn law_complete_leaves_nothing(view: GroupsView, root: DatabaseKeyIndex)
    requires
        view.wf(),
    ensures
        !view.complete(root).groups.contains_key(root),
        forall|key: DatabaseKeyIndex| #[trigger]
            view.is_member(root, key) ==> view.complete(root).group_of(key) is None
                && !view.complete(root).member_heads.contains_key(key),
        forall|thread: ThreadId| #[trigger]
            view.complete(root).owner_index.contains_key(thread)
                ==> view.complete(root).owner_index[thread] != root,
        forall|key: DatabaseKeyIndex|
            #![trigger view.is_member(root, key)]
            !view.is_member(root, key) ==> view.complete(root).group_of(key) == view.group_of(key)
                && view.complete(root).member_heads.get(key) == view.member_heads.get(key),
        forall|other: DatabaseKeyIndex|
            other != root ==> #[trigger] view.complete(root).groups.get(other) == view.groups.get(
                other,
            ),
{
}

/// Completing a group that was just registered restores the registry, where its owner owned
/// no group before.
pub proof fn law_complete_undoes_register(view: GroupsView, root: DatabaseKeyIndex, owner: ThreadId)
    requires
        view.wf(),
        !view.covers(root),
        !view.owner_index.contains_key(owner),
    ensures
        view.register(root, owner).complete(root) == view,
{
    let after = view.register(root, owner).complete(root);
    assert(after.groups =~= view.groups);
    assert(after.member_index =~= view.member_index);
    assert(after.member_heads =~= view.member_heads);
    assert(after.owner_index =~= view.owner_index);
}

/// An aborted evaluation is discarded as a whole: completing a group forgets a member that was
/// recorded for it as if it had never been recorded. The member must not have been taken over
/// from another group.
pub proof fn law_complete_discards_members(
    view: GroupsView,
    root: DatabaseKeyIndex,
    member: DatabaseKeyIndex,
    heads: Seq<DatabaseKeyIndex>,
)
    requires
        view.wf(),
        view.groups.contains_key(root),
        view.member_index.contains_key(member) ==> view.member_index[member] == root,
    ensures
        view.add_member(root, member, heads).complete(root) == view.complete(root),
{
    let after = view.add_member(root, member, heads).complete(root);
    let plain = view.complete(root);
    assert(after.groups =~= plain.groups);
    assert(after.member_index =~= plain.member_index);
    assert(after.member_heads =~= plain.member_heads);
    assert(after.owner_index =~= plain.owner_index);
}

/// Recording a member again replaces its links: nothing of the earlier ones remains.
pub proof fn law_recording_replaces_links(
    view: GroupsView,
    root: DatabaseKeyIndex,
    member: DatabaseKeyIndex,
    earlier: Seq<DatabaseKeyIndex>,
    heads: Seq<DatabaseKeyIndex>,
)
    ensures
        view.add_member(root, member, earlier).add_member(root, member, heads) == view.add_member(
            root,
            member,
            heads,
        ),
{
    let twice = view.add_member(root, member, earlier).add_member(root, member, heads);
    let once = view.add_member(root, member, heads);
    assert(twice.member_index =~= once.member_index);
    assert(twice.member_heads =~= once.member_heads);
}

/// The component of `head` is the least set of keys that holds `head` and everything linked to
/// a key that it holds.
pub proof fn law_component_is_closure(
    view: GroupsView,
    root: DatabaseKeyIndex,
    head: DatabaseKeyIndex,
    closed_set: Set<DatabaseKeyIndex>,
)
    requires
        closed_set.contains(head),
        forall|a: DatabaseKeyIndex, b: DatabaseKeyIndex|
            closed_set.contains(a) && #[trigger] view.linked(root, a, b) ==> closed_set.contains(b),
    ensures
        view.component(root, head).contains(head),
        forall|a: DatabaseKeyIndex, b: DatabaseKeyIndex|
            view.component(root, head).contains(a) && #[trigger] view.linked(root, a, b)
                ==> view.component(root, head).contains(b),
        view.component(root, head).subset_of(closed_set),
{
    view.lemma_in_component_self(root, head);
    assert forall|a: DatabaseKeyIndex, b: DatabaseKeyIndex|
        view.component(root, head).contains(a) && #[trigger] view.linked(
            root,
            a,
            b,
        ) implies view.component(root, head).contains(b) by {
        view.lemma_in_component_step(root, head, a, b);
    }
    assert forall|key: DatabaseKeyIndex| #[trigger]
        view.component(root, head).contains(key) implies closed_set.contains(key) by {
        let path = choose|path: Seq<DatabaseKeyIndex>| #[trigger]
            view.is_path(root, path) && path[0] == head && path.last() == key;
        view.lemma_path_stays_in_set(root, closed_set, path, path.len() - 1);
    }
}

/// A component is a superset of the strongly connected component: whatever `head` read, directly
/// or through other members of the group, is in the component of `head` (unless it is recorded for
/// another group), and so is whatever read `head` in this way.
pub proof fn law_component_holds_what_was_read(
    view: GroupsView,
    root: DatabaseKeyIndex,
    path: Seq<DatabaseKeyIndex>,
)
    requires
        path.len() > 0,
        forall|i: int, j: int|
            0 <= i && j == i + 1 && j < path.len() ==> view.read(
                root,
                #[trigger] path[i],
                #[trigger] path[j],
            ),
    ensures
        !view.is_elsewhere(root, path.last()) ==> view.component(root, path[0]).contains(
            path.last(),
        ),
        view.component(root, path.last()).contains(path[0]),
{
    if !view.is_elsewhere(root, path.last()) {
        assert forall|i: int, j: int| 0 <= i && j == i + 1 && j < path.len() implies view.linked(
            root,
            #[trigger] path[i],
            #[trigger] path[j],
        ) by {
            if j < path.len() - 1 {
                assert(view.read(root, path[j], path[j + 1]));
            }
        }
        assert(view.is_path(root, path));
    }
    let back = path.reverse();
    assert forall|i: int, j: int| 0 <= i && j == i + 1 && j < back.len() implies view.linked(
        root,
        #[trigger] back[i],
        #[trigger] back[j],
    ) by {
        assert(back[i] == path[path.len() - 1 - i]);
        assert(back[j] == path[path.len() - 1 - j]);
    }
    assert(view.is_path(root, back) && back[0] == path.last() && back.last() == path[0]);
}

/// Components depend on the links alone.
pub proof fn law_component_follows_links(
    one: GroupsView,
    other: GroupsView,
    root: DatabaseKeyIndex,
    head: DatabaseKeyIndex,
)
    requires
        forall|a: DatabaseKeyIndex, b: DatabaseKeyIndex|
            one.linked(root, a, b) == other.linked(root, a, b),
    ensures
        one.component(root, head) == other.component(root, head),
{
    assert forall|path: Seq<DatabaseKeyIndex>|
        one.is_path(root, path) == other.is_path(root, path) by {
        if one.is_path(root, path) {
            assert forall|i: int, j: int| 0 <= i && j == i + 1 && j < path.len() implies other.linked(
                root,
                #[trigger] path[i],
                #[trigger] path[j],
            ) by {
                assert(one.linked(root, path[i], path[j]));
            }
        }
        if other.is_path(root, path) {
            assert forall|i: int, j: int| 0 <= i && j == i + 1 && j < path.len() implies one.linked(
                root,
                #[trigger] path[i],
                #[trigger] path[j],
            ) by {
                assert(other.linked(root, path[i], path[j]));
            }
        }
    }
    assert(one.component(root, head) =~= other.component(root, head));
}

/// A component never holds a query that is recorded for another group, apart from the one that it
/// was asked for.
pub proof fn law_component_stays_within_group(
    view: GroupsView,
    root: DatabaseKeyIndex,
    head: DatabaseKeyIndex,
    key: DatabaseKeyIndex,
)
    requires
        view.component(root, head).contains(key),
        key != head,
    ensures
        !view.is_elsewhere(root, key),
{
    let path = choose|path: Seq<DatabaseKeyIndex>| #[trigger]
        view.is_path(root, path) && path[0] == head && path.last() == key;
    view.lemma_path_within_group(root, path, path.len() - 1);
}

/// A component is the same from every entry point in it. The query that it was asked for must not
/// be recorded for another group.
pub proof fn law_component_same_from_every_entry(
    view: GroupsView,
    root: DatabaseKeyIndex,
    head: DatabaseKeyIndex,
    entry: DatabaseKeyIndex,
)
    requires
        !view.is_elsewhere(root, head),
        view.component(root, head).contains(entry),
    ensures
        view.component(root, entry) == view.component(root, head),
{
    let path = choose|path: Seq<DatabaseKeyIndex>| #[trigger]
        view.is_path(root, path) && path[0] == head && path.last() == entry;
    view.lemma_path_back(root, path, 0);
    assert forall|key: DatabaseKeyIndex|
        view.in_component(root, entry, key) == view.in_component(root, head, key) by {
        if view.in_component(root, entry, key) {
            view.lemma_in_component_transitive(root, head, entry, key);
        }
        if view.in_component(root, head, key) {
            view.lemma_in_component_transitive(root, entry, head, key);
        }
    }
    assert(view.component(root, entry) =~= view.component(root, head));
}

/// Independent cycles that merely share a group have disjoint components. `b` must not be recorded
/// for another group.
pub proof fn law_independent_components_are_disjoint(
    view: GroupsView,
    root: DatabaseKeyIndex,
    a: DatabaseKeyIndex,
    b: DatabaseKeyIndex,
)
    requires
        !view.is_elsewhere(root, b),
        !view.component(root, a).contains(b),
    ensures
        view.component(root, a).disjoint(view.component(root, b)),
{
    assert forall|key: DatabaseKeyIndex| #[trigger]
        view.component(root, a).contains(key) implies !view.component(root, b).contains(key) by {
        if view.component(root, b).contains(key) {
            law_component_same_from_every_entry(view, root, b, key);
            view.lemma_in_component_self(root, b);
            assert(view.component(root, key).contains(b));
            view.lemma_in_component_transitive(root, a, key, b);
        }
    }
}

} // verus!
