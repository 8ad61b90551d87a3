use salsa_runtime::cycle_groups::{comes_before, key_order, CycleGroups, GroupState};
use salsa_runtime::key::{DatabaseKeyIndex, Id, IngredientIndex, ThreadId};

fn key(n: u64) -> DatabaseKeyIndex {
    DatabaseKeyIndex::new(IngredientIndex::new(0), Id::from_bits(n))
}

fn thread(n: u64) -> ThreadId {
    ThreadId { number: n }
}

fn bits(keys: Vec<DatabaseKeyIndex>) -> Vec<u64> {
    let mut bits: Vec<u64> = keys.iter().map(|key| key.key_index().as_bits()).collect();
    bits.sort();
    bits
}

#[test]
fn keys_are_ordered_by_ingredient_first() {
    let low = DatabaseKeyIndex::new(IngredientIndex::new(1), Id::from_bits(900));
    let high = DatabaseKeyIndex::new(IngredientIndex::new(2), Id::from_bits(3));
    assert_eq!(key_order(low), (1, 900));
    assert!(comes_before(low, high));
    assert!(!comes_before(high, low));
    assert!(comes_before(key(3), key(4)));
    assert!(!comes_before(key(4), key(4)));
}

#[test]
fn a_root_is_registered_once() {
    let mut groups = CycleGroups::default();
    let group = groups.register(key(1), thread(5)).unwrap();
    assert_eq!(*group, GroupState { root: key(1), owner: thread(5) });
    assert!(groups.register(key(1), thread(6)).is_none());
    assert_eq!(groups.root_owned_by(thread(5)), Some(key(1)));
    assert_eq!(groups.root_owned_by(thread(6)), None);
    assert_eq!(*groups.group_of(key(1)).unwrap(), *group);
    assert!(groups.group_of(key(2)).is_none());
}

#[test]
fn a_member_cannot_be_a_new_root() {
    let mut groups = CycleGroups::default();
    groups.register(key(1), thread(5));
    groups.add_member(key(1), key(2), vec![key(1)]);
    assert!(groups.register(key(2), thread(6)).is_none());
    assert_eq!(groups.root_owned_by(thread(6)), None);
    assert_eq!(bits(groups.members_of(key(1))), vec![1, 2]);
}

#[test]
fn completing_forgets_the_group_only() {
    let mut groups = CycleGroups::default();
    groups.register(key(1), thread(5));
    groups.add_member(key(1), key(2), vec![key(1)]);
    groups.register(key(10), thread(6));
    groups.add_member(key(10), key(11), vec![key(10)]);
    groups.complete(key(1));
    assert!(groups.group_of(key(1)).is_none());
    assert!(groups.group_of(key(2)).is_none());
    assert_eq!(groups.root_owned_by(thread(5)), None);
    assert_eq!(bits(groups.members_of(key(1))), Vec::<u64>::new());
    assert_eq!(bits(groups.members_of(key(10))), vec![10, 11]);
    assert_eq!(groups.root_owned_by(thread(6)), Some(key(10)));
    assert_eq!(bits(groups.component_of(key(1), key(2))), vec![2]);
    assert!(groups.register(key(2), thread(5)).is_some());
}

#[test]
fn components_are_closed_under_links() {
    let mut groups = CycleGroups::default();
    groups.register(key(1), thread(5));
    groups.add_member(key(1), key(1), vec![key(1)]);
    groups.add_member(key(1), key(2), vec![key(1)]);
    groups.add_member(key(1), key(3), vec![key(2), key(4)]);
    // An independent cycle that shares the group.
    groups.add_member(key(1), key(7), vec![key(7)]);
    groups.add_member(key(1), key(8), vec![key(7)]);
    for entry in [1, 2, 3, 4] {
        let component = groups.component_of(key(1), key(entry));
        assert_eq!(component[0], key(entry));
        assert_eq!(bits(component), vec![1, 2, 3, 4]);
    }
    assert_eq!(bits(groups.component_of(key(1), key(8))), vec![7, 8]);
}

#[test]
fn recording_again_replaces_links() {
    let mut groups = CycleGroups::default();
    groups.register(key(1), thread(5));
    groups.add_member(key(1), key(2), vec![key(1), key(3)]);
    assert_eq!(bits(groups.component_of(key(1), key(1))), vec![1, 2, 3]);
    groups.add_member(key(1), key(2), vec![key(3)]);
    assert_eq!(bits(groups.component_of(key(1), key(1))), vec![1]);
    assert_eq!(bits(groups.component_of(key(1), key(3))), vec![2, 3]);
}

#[test]
fn members_of_other_groups_do_not_join() {
    let mut groups = CycleGroups::default();
    groups.register(key(1), thread(5));
    groups.register(key(10), thread(6));
    groups.add_member(key(10), key(11), vec![key(1)]);
    assert_eq!(bits(groups.component_of(key(1), key(1))), vec![1]);
}

#[test]
fn heads_of_other_groups_do_not_join() {
    let a = DatabaseKeyIndex::new(IngredientIndex::new(1), Id::from_bits(1));
    let x = DatabaseKeyIndex::new(IngredientIndex::new(1), Id::from_bits(2));
    let y = DatabaseKeyIndex::new(IngredientIndex::new(1), Id::from_bits(3));
    let mut groups = CycleGroups::default();
    groups.register(a, thread(1));
    groups.register(x, thread(1));
    groups.add_member(a, a, vec![a, x]);
    assert_eq!(groups.component_of(a, a), vec![a]);

    // Links of the other group lead nowhere in this one.
    groups.add_member(x, x, vec![x, y]);
    assert_eq!(groups.component_of(a, a), vec![a]);
    assert_eq!(groups.component_of(a, y), vec![y]);
    assert_eq!(groups.component_of(x, x), vec![x, y]);
    assert_eq!(groups.component_of(x, y), vec![y, x]);
}

#[test]
fn heads_of_no_group_join() {
    let mut groups = CycleGroups::default();
    groups.register(key(1), thread(5));
    groups.add_member(key(1), key(1), vec![key(2)]);
    assert_eq!(groups.component_of(key(1), key(1)), vec![key(1), key(2)]);
    assert_eq!(groups.component_of(key(1), key(2)), vec![key(2), key(1)]);
}

#[test]
fn a_query_asked_for_in_another_group_comes_first() {
    let mut groups = CycleGroups::default();
    groups.register(key(1), thread(5));
    groups.register(key(9), thread(6));
    groups.add_member(key(1), key(2), vec![key(9)]);
    // The member that read it joins, but it does not join the member.
    assert_eq!(groups.component_of(key(1), key(9)), vec![key(9), key(2)]);
    assert_eq!(groups.component_of(key(1), key(2)), vec![key(2)]);
}

#[test]
fn groups_are_owned_by_the_thread_that_registered_them() {
    let mut groups = CycleGroups::default();
    groups.register(key(1), thread(5));
    groups.register(key(2), thread(5));
    assert!(groups.owns(thread(5), key(1)));
    assert!(groups.owns(thread(5), key(2)));
    assert!(!groups.owns(thread(6), key(1)));
    assert!(!groups.owns(thread(5), key(3)));
    groups.complete(key(1));
    assert!(!groups.owns(thread(5), key(1)));
}

#[test]
fn heads_are_those_recorded_last() {
    let mut groups = CycleGroups::default();
    groups.register(key(1), thread(5));
    assert_eq!(groups.heads_of(key(1)), None);
    groups.add_member(key(1), key(1), vec![key(1), key(2)]);
    groups.add_member(key(1), key(1), vec![key(2)]);
    assert_eq!(groups.heads_of(key(1)), Some(&vec![key(2)]));
}
