//! The registry of cycle groups.
use vstd::prelude::*;

use crate::cycle_groups::{CycleGroups, GroupState, GroupsView};
use crate::key::{DatabaseKeyIndex, ThreadId};
use std::sync::Arc;

verus! {

/// Keys are ordered by ingredient, and within one ingredient by key: smaller numbers come first.
pub proof fn law_smaller_numbers_come_first(a: DatabaseKeyIndex, b: DatabaseKeyIndex)
    ensures
        a.ingredient_index.index < b.ingredient_index.index ==> crate::cycle_groups::precedes(a, b),
        a.ingredient_index == b.ingredient_index ==> (crate::cycle_groups::precedes(a, b)
            <==> a.key_index.bits < b.key_index.bits),
        a.ingredient_index.index > b.ingredient_index.index ==> !crate::cycle_groups::precedes(
            a,
            b,
        ),
        crate::cycle_groups::spec_key_order(a).0 == a.ingredient_index.index,
        crate::cycle_groups::spec_key_order(a).1 == a.key_index.bits,
{
}

/// A new registry holds nothing.
pub proof fn law_new_registry_is_empty(key: DatabaseKeyIndex, thread: ThreadId)
    ensures
        !GroupsView::empty().groups.contains_key(key),
        !GroupsView::empty().member_index.contains_key(key),
        !GroupsView::empty().member_heads.contains_key(key),
        !GroupsView::empty().owner_index.contains_key(thread),
{
}

/// A key cannot be registered exactly where it is a root or a member of any live group, whoever
/// owns that.
pub proof fn law_registration_is_refused_to_known_keys(view: GroupsView, key: DatabaseKeyIndex)
    ensures
        view.groups.contains_key(key) ==> view.covers(key),
        view.member_index.contains_key(key) ==> view.covers(key),
        view.covers(key) ==> view.groups.contains_key(key) || view.member_index.contains_key(key),
{
}

/// Registering enters the root as a group of the owner, as a member of itself, and for the owner.
/// No entry of another key or thread changes, and no links do.
pub proof fn law_register_enters_the_root_only(
    view: GroupsView,
    root: DatabaseKeyIndex,
    owner: ThreadId,
    key: DatabaseKeyIndex,
    thread: ThreadId,
)
    requires
        key != root,
        thread != owner,
    ensures
        ({
            let after = view.register(root, owner);
            &&& after.groups.contains_key(root) && after.groups[root].root == root
                && after.groups[root].owner == owner
            &&& after.member_index.contains_key(root) && after.member_index[root] == root
            &&& after.owner_index.contains_key(owner) && after.owner_index[owner] == root
            &&& after.groups.get(key) == view.groups.get(key)
            &&& after.member_index.get(key) == view.member_index.get(key)
            &&& after.owner_index.get(thread) == view.owner_index.get(thread)
            &&& after.member_heads == view.member_heads
        }),
{
}

/// Recording a member enters it for the root with exactly the heads it is given. No entry of another
/// key changes, and neither do the groups and their owners.
pub proof fn law_add_member_enters_the_member_only(
    view: GroupsView,
    root: DatabaseKeyIndex,
    member: DatabaseKeyIndex,
    heads: Seq<DatabaseKeyIndex>,
    key: DatabaseKeyIndex,
)
    requires
        key != member,
    ensures
        ({
            let after = view.add_member(root, member, heads);
            &&& after.member_index.contains_key(member) && after.member_index[member] == root
            &&& after.member_heads.contains_key(member) && after.member_heads[member] == heads
            &&& after.member_index.get(key) == view.member_index.get(key)
            &&& after.member_heads.get(key) == view.member_heads.get(key)
            &&& after.groups == view.groups
            &&& after.owner_index == view.owner_index
        }),
{
}

/// Completing a group removes its root, the members recorded for it with their links, and the
/// threads recorded as its owner. All other entries stay.
pub proof fn law_complete_removes_exactly_the_group(
    view: GroupsView,
    root: DatabaseKeyIndex,
    key: DatabaseKeyIndex,
    thread: ThreadId,
)
    ensures
        ({
            let after = view.complete(root);
            let of_group = view.member_index.contains_key(key) && view.member_index[key] == root;
            &&& !after.groups.contains_key(root)
            &&& key != root ==> after.groups.get(key) == view.groups.get(key)
            &&& of_group ==> !after.member_index.contains_key(key)
                && !after.member_heads.contains_key(key)
            &&& !of_group ==> after.member_index.get(key) == view.member_index.get(key)
                && after.member_heads.get(key) == view.member_heads.get(key)
            &&& view.owner_index.contains_key(thread) && view.owner_index[thread] == root
                ==> !after.owner_index.contains_key(thread)
            &&& !(view.owner_index.contains_key(thread) && view.owner_index[thread] == root)
                ==> after.owner_index.get(thread) == view.owner_index.get(thread)
        }),
{
}

/// The group of a key is the live group with the root that the key is recorded for, and a key that
/// is recorded for none has none.
pub proof fn law_group_of_follows_the_entries(view: GroupsView, key: DatabaseKeyIndex)
    ensures
        !view.member_index.contains_key(key) ==> view.group_of(key) is None,
        view.member_index.contains_key(key) ==> view.group_of(key) == view.groups.get(
            view.member_index[key],
        ),
{
}

/// A thread owns a group exactly where the group is live and has the thread as its owner.
pub proof fn law_owns_follows_the_entries(
    view: GroupsView,
    thread: ThreadId,
    root: DatabaseKeyIndex,
)
    ensures
        view.owns(thread, root) <==> (exists|group: GroupState|
            view.groups.get(root) == Some(group) && #[trigger] group.owner == thread),
{
    if view.groups.contains_key(root) {
        assert(view.groups.get(root) == Some(view.groups[root]));
    }
}

/// Of `a` and `b`, one is recorded for the group rooted at `root` with the other among the heads
/// that it read. What was read, `b`, must not be recorded for another group.
pub open spec fn connected_by_a_read(
    view: GroupsView,
    root: DatabaseKeyIndex,
    a: DatabaseKeyIndex,
    b: DatabaseKeyIndex,
) -> bool {
    ||| view.member_index.get(b) == Some(root) && view.member_heads.contains_key(b)
        && view.member_heads[b].contains(a)
    ||| view.member_index.get(a) == Some(root) && view.member_heads.contains_key(a)
        && view.member_heads[a].contains(b) && (view.member_index.get(b) is None
        || view.member_index.get(b) == Some(root))
}

/// Each key of `path` is connected by a read to the one before it.
pub open spec fn is_path_of_reads(
    view: GroupsView,
    root: DatabaseKeyIndex,
    path: Seq<DatabaseKeyIndex>,
) -> bool {
    &&& path.len() > 0
    &&& forall|i: int, j: int|
        0 <= i && j == i + 1 && j < path.len() ==> connected_by_a_read(
            view,
            root,
            #[trigger] path[i],
            #[trigger] path[j],
        )
}

/// A key is in a component exactly where reads connect it with the head.
pub proof fn law_component_is_what_reads_connect(
    view: GroupsView,
    root: DatabaseKeyIndex,
    head: DatabaseKeyIndex,
    key: DatabaseKeyIndex,
)
    ensures
        view.component(root, head).contains(key) <==> exists|path: Seq<DatabaseKeyIndex>| #[trigger]
            is_path_of_reads(view, root, path) && path[0] == head && path.last() == key,
{
    if view.component(root, head).contains(key) {
        let path = choose|path: Seq<DatabaseKeyIndex>| #[trigger]
            view.is_path(root, path) && path[0] == head && path.last() == key;
        assert forall|i: int, j: int|
            0 <= i && j == i + 1 && j < path.len() implies connected_by_a_read(
            view,
            root,
            #[trigger] path[i],
            #[trigger] path[j],
        ) by {
            assert(view.linked(root, path[i], path[j]));
        }
        assert(is_path_of_reads(view, root, path));
    }
    if exists|path: Seq<DatabaseKeyIndex>| #[trigger]
        is_path_of_reads(view, root, path) && path[0] == head && path.last() == key {
        let path = choose|path: Seq<DatabaseKeyIndex>| #[trigger]
            is_path_of_reads(view, root, path) && path[0] == head && path.last() == key;
        assert forall|i: int, j: int| 0 <= i && j == i + 1 && j < path.len() implies view.linked(
            root,
            #[trigger] path[i],
            #[trigger] path[j],
        ) by {
            assert(connected_by_a_read(view, root, path[i], path[j]));
        }
        assert(view.is_path(root, path));
    }
}

/// What the registry answers is what its entries say.
pub proof fn law_registry_answers(
    groups: &CycleGroups,
    root: DatabaseKeyIndex,
    key: DatabaseKeyIndex,
    thread: ThreadId,
    members: Vec<DatabaseKeyIndex>,
    owned: Option<DatabaseKeyIndex>,
    group: Option<Arc<GroupState>>,
)
    requires
        call_ensures(CycleGroups::members_of, (groups, root), members),
        call_ensures(CycleGroups::root_owned_by, (groups, thread), owned),
        call_ensures(CycleGroups::group_of, (groups, key), group),
    ensures
        members@.contains(key) <==> groups@.member_index.get(key) == Some(root),
        forall|i: int, j: int|
            0 <= i < j < members@.len() ==> #[trigger] members@[i] != #[trigger] members@[j],
        owned == groups@.owner_index.get(thread),
        group is Some <==> (groups@.member_index.contains_key(key) && groups@.groups.contains_key(
            groups@.member_index[key],
        )),
        group matches Some(group) ==> *group == groups@.groups[groups@.member_index[key]],
{
    assert(members@.contains(key) <==> groups@.is_member(root, key));
}

/// A component is listed with the query that it was asked for first, each key once, and with exactly
/// the keys that reads connect with that query.
pub proof fn law_component_is_listed(
    groups: &CycleGroups,
    root: DatabaseKeyIndex,
    head: DatabaseKeyIndex,
    component: Vec<DatabaseKeyIndex>,
    key: DatabaseKeyIndex,
)
    requires
        call_ensures(CycleGroups::component_of, (groups, root, head), component),
    ensures
        component@.len() > 0 && component@[0] == head,
        forall|i: int, j: int|
            0 <= i < j < component@.len() ==> #[trigger] component@[i] != #[trigger] component@[j],
        component@.contains(key) <==> exists|path: Seq<DatabaseKeyIndex>| #[trigger]
            is_path_of_reads(groups@, root, path) && path[0] == head && path.last() == key,
{
    law_component_is_what_reads_connect(groups@, root, head, key);
    assert(component@.contains(key) <==> component@.to_set().contains(key));
}

/// What the registry says of heads and owners is what its entries say.
pub proof fn law_registry_answers_of_heads_and_owners(
    groups: &CycleGroups,
    key: DatabaseKeyIndex,
    thread: ThreadId,
    heads: Option<&Vec<DatabaseKeyIndex>>,
    owns: bool,
)
    requires
        call_ensures(CycleGroups::heads_of, (groups, key), heads),
        call_ensures(CycleGroups::owns, (groups, thread, key), owns),
    ensures
        heads is Some <==> groups@.member_heads.contains_key(key),
        heads matches Some(heads) ==> heads@ == groups@.member_heads[key],
        owns <==> (groups@.groups.contains_key(key) && groups@.groups[key].owner == thread),
{
}

} // verus!
