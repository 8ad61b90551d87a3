//! Chains of links: graphs in which each node has at most one successor.
use vstd::prelude::*;

verus! {

/// The node that `steps` links lead to from `node`; `None` where the chain ends before.
pub open spec fn walk<K>(next: Map<K, K>, node: K, steps: nat) -> Option<K>
    decreases steps,
{
    if steps == 0 {
        Some(node)
    } else {
        match walk(next, node, (steps - 1) as nat) {
            Some(previous) => next.get(previous),
            None => None,
        }
    }
}

/// Whether one or more links lead from `from` to `to`.
pub open spec fn reaches<K>(next: Map<K, K>, from: K, to: K) -> bool {
    exists|steps: nat| steps > 0 && #[trigger] walk(next, from, steps) == Some(to)
}

/// No node is on a chain that leads back to it.
pub open spec fn acyclic<K>(next: Map<K, K>) -> bool {
    forall|node: K| !#[trigger] reaches(next, node, node)
}

pub proof fn lemma_walk_add<K>(next: Map<K, K>, node: K, first: nat, second: nat)
    ensures
        walk(next, node, first + second) == (match walk(next, node, first) {
            Some(middle) => walk(next, middle, second),
            None => None,
        }),
    decreases second,
{
    if second > 0 {
        lemma_walk_add(next, node, first, (second - 1) as nat);
        assert((first + second - 1) as nat == first + (second - 1) as nat);
    }
}

/// The chain from `node` starts with its own link.
pub proof fn lemma_reaches_step<K>(next: Map<K, K>, node: K, to: K)
    ensures
        reaches(next, node, to) <==> next.contains_key(node) && (next[node] == to || reaches(
            next,
            next[node],
            to,
        )),
{
    assert(walk(next, node, 1) == next.get(node)) by {
        assert(walk(next, node, 0) == Some(node));
    }
    if reaches(next, node, to) {
        let steps = choose|steps: nat| steps > 0 && #[trigger] walk(next, node, steps) == Some(to);
        lemma_walk_add(next, node, 1, (steps - 1) as nat);
        assert(steps == 1 + (steps - 1) as nat);
        if steps > 1 {
            assert(walk(next, next[node], (steps - 1) as nat) == Some(to));
        } else {
            assert(walk(next, next[node], 0) == Some(next[node]));
        }
    }
    if next.contains_key(node) && reaches(next, next[node], to) {
        let steps = choose|steps: nat|
            steps > 0 && #[trigger] walk(next, next[node], steps) == Some(to);
        lemma_walk_add(next, node, 1, steps);
        assert(walk(next, node, 1 + steps) == Some(to));
    }
}

pub proof fn lemma_reaches_transitive<K>(next: Map<K, K>, a: K, b: K, c: K)
    requires
        reaches(next, a, b),
        reaches(next, b, c),
    ensures
        reaches(next, a, c),
{
    let first = choose|steps: nat| steps > 0 && #[trigger] walk(next, a, steps) == Some(b);
    let second = choose|steps: nat| steps > 0 && #[trigger] walk(next, b, steps) == Some(c);
    lemma_walk_add(next, a, first, second);
    assert(walk(next, a, first + second) == Some(c));
}

/// Two nodes on the chain from `from`: one of them reaches the other, or they are the same.
pub proof fn lemma_reaches_ordered<K>(next: Map<K, K>, from: K, a: K, b: K)
    requires
        reaches(next, from, a),
        reaches(next, from, b),
    ensures
        a == b || reaches(next, a, b) || reaches(next, b, a),
{
    let first = choose|steps: nat| steps > 0 && #[trigger] walk(next, from, steps) == Some(a);
    let second = choose|steps: nat| steps > 0 && #[trigger] walk(next, from, steps) == Some(b);
    if first < second {
        lemma_walk_add(next, from, first, (second - first) as nat);
        assert(first + (second - first) as nat == second);
        assert(walk(next, a, (second - first) as nat) == Some(b));
    } else if second < first {
        lemma_walk_add(next, from, second, (first - second) as nat);
        assert(second + (first - second) as nat == first);
        assert(walk(next, b, (first - second) as nat) == Some(a));
    }
}

proof fn lemma_walk_covered<K>(new_links: Map<K, K>, old_links: Map<K, K>, from: K, steps: nat)
    requires
        forall|k: K| #[trigger]
            new_links.contains_key(k) ==> reaches(old_links, k, new_links[k]),
        steps > 0,
        walk(new_links, from, steps) is Some,
    ensures
        reaches(old_links, from, walk(new_links, from, steps)->0),
    decreases steps,
{
    let before = (steps - 1) as nat;
    let previous = walk(new_links, from, before)->0;
    assert(new_links.contains_key(previous));
    if before > 0 {
        lemma_walk_covered(new_links, old_links, from, before);
        lemma_reaches_transitive(old_links, from, previous, new_links[previous]);
    }
}

/// Where every new link leads somewhere that the old links led to as well, the new chains lead
/// nowhere that the old ones did not.
pub proof fn lemma_reaches_covered<K>(
    new_links: Map<K, K>,
    old_links: Map<K, K>,
    from: K,
    to: K,
)
    requires
        forall|k: K| #[trigger]
            new_links.contains_key(k) ==> reaches(old_links, k, new_links[k]),
        reaches(new_links, from, to),
    ensures
        reaches(old_links, from, to),
{
    let steps = choose|steps: nat| steps > 0 && #[trigger] walk(new_links, from, steps) == Some(to);
    lemma_walk_covered(new_links, old_links, from, steps);
}

/// Taking links away closes no cycle.
pub proof fn lemma_acyclic_submap<K>(sub: Map<K, K>, next: Map<K, K>)
    requires
        sub.submap_of(next),
        acyclic(next),
    ensures
        acyclic(sub),
{
    assert forall|k: K| #[trigger] sub.contains_key(k) implies reaches(next, k, sub[k]) by {
        lemma_reaches_step(next, k, sub[k]);
    }
    assert forall|node: K| !#[trigger] reaches(sub, node, node) by {
        if reaches(sub, node, node) {
            lemma_reaches_covered(sub, next, node, node);
        }
    }
}

/// A chain that leads to `to` has a last link before it.
pub proof fn lemma_last_link<K>(next: Map<K, K>, from: K, to: K) -> (link: K)
    requires
        reaches(next, from, to),
    ensures
        link == from || reaches(next, from, link),
        next.contains_key(link),
        next[link] == to,
{
    let steps = choose|steps: nat| steps > 0 && #[trigger] walk(next, from, steps) == Some(to);
    walk(next, from, (steps - 1) as nat)->0
}

/// Steps over links that did not change lead where they led before.
proof fn lemma_walk_unchanged<K>(
    old_links: Map<K, K>,
    new_links: Map<K, K>,
    moved: Set<K>,
    node: K,
    steps: nat,
)
    requires
        forall|k: K|
            !moved.contains(k) && #[trigger] new_links.contains_key(k) ==> old_links.contains_key(k)
                && old_links[k] == new_links[k],
        walk(new_links, node, steps) is Some,
        forall|i: nat|
            i < steps ==> !moved.contains((#[trigger] walk(new_links, node, i))->0),
    ensures
        walk(old_links, node, steps) == walk(new_links, node, steps),
    decreases steps,
{
    if steps > 0 {
        let before = (steps - 1) as nat;
        lemma_walk_unchanged(old_links, new_links, moved, node, before);
        assert(!moved.contains(walk(new_links, node, before)->0));
        assert(new_links.contains_key(walk(new_links, node, before)->0));
    }
}

/// Where `from` led to no moved link before, it now leads nowhere that it did not lead before.
pub proof fn lemma_reaches_unchanged<K>(
    old_links: Map<K, K>,
    new_links: Map<K, K>,
    moved: Set<K>,
    from: K,
    to: K,
)
    requires
        forall|k: K|
            !moved.contains(k) && #[trigger] new_links.contains_key(k) ==> old_links.contains_key(k)
                && old_links[k] == new_links[k],
        !moved.contains(from),
        forall|k: K| #[trigger] reaches(old_links, from, k) ==> !moved.contains(k),
        reaches(new_links, from, to),
    ensures
        reaches(old_links, from, to),
{
    let steps = choose|steps: nat| steps > 0 && #[trigger] walk(new_links, from, steps) == Some(to);
    lemma_walk_avoids(old_links, new_links, moved, from, steps);
}

proof fn lemma_walk_avoids<K>(
    old_links: Map<K, K>,
    new_links: Map<K, K>,
    moved: Set<K>,
    from: K,
    steps: nat,
)
    requires
        forall|k: K|
            !moved.contains(k) && #[trigger] new_links.contains_key(k) ==> old_links.contains_key(k)
                && old_links[k] == new_links[k],
        !moved.contains(from),
        forall|k: K| #[trigger] reaches(old_links, from, k) ==> !moved.contains(k),
        walk(new_links, from, steps) is Some,
    ensures
        walk(old_links, from, steps) == walk(new_links, from, steps),
        !moved.contains(walk(new_links, from, steps)->0),
    decreases steps,
{
    if steps > 0 {
        let before = (steps - 1) as nat;
        lemma_walk_avoids(old_links, new_links, moved, from, before);
        assert(new_links.contains_key(walk(new_links, from, before)->0));
        assert(reaches(old_links, from, walk(old_links, from, steps)->0));
    }
}

/// Pointing every link of `moved` at `to` closes no cycle, where `to` is not one of them
/// and leads to none of them.
pub proof fn lemma_acyclic_redirect<K>(
    old_links: Map<K, K>,
    new_links: Map<K, K>,
    moved: Set<K>,
    to: K,
)
    requires
        acyclic(old_links),
        forall|k: K|
            #[trigger] new_links.contains_key(k) ==> if moved.contains(k) {
                new_links[k] == to
            } else {
                old_links.contains_key(k) && old_links[k] == new_links[k]
            },
        !moved.contains(to),
        forall|k: K| #[trigger] reaches(old_links, to, k) ==> !moved.contains(k),
    ensures
        acyclic(new_links),
{
    assert forall|node: K| !#[trigger] reaches(new_links, node, node) by {
        if reaches(new_links, node, node) {
            let steps = choose|steps: nat|
                steps > 0 && #[trigger] walk(new_links, node, steps) == Some(node);
            if forall|i: nat|
                i < steps ==> !moved.contains((#[trigger] walk(new_links, node, i))->0) {
                lemma_walk_unchanged(old_links, new_links, moved, node, steps);
                assert(reaches(old_links, node, node));
            } else {
                // A moved link is on the cycle, so `to` leads back to it.
                let i = choose|i: nat|
                    i < steps && moved.contains((#[trigger] walk(new_links, node, i))->0);
                let rest = (steps - i) as nat;
                lemma_walk_add(new_links, node, i, rest);
                assert(i + rest == steps);
                let back = walk(new_links, node, i)->0;
                lemma_walk_add(new_links, back, rest, i);
                assert(walk(new_links, back, rest + i) == Some(back));
                lemma_reaches_step(new_links, back, back);
                lemma_reaches_unchanged(old_links, new_links, moved, to, back);
            }
        }
    }
}

/// A link from `node` to a node that does not lead back to it closes no cycle.
pub proof fn lemma_acyclic_insert<K>(next: Map<K, K>, node: K, to: K)
    requires
        acyclic(next),
        node != to,
        !reaches(next, to, node),
    ensures
        acyclic(next.insert(node, to)),
{
    lemma_acyclic_redirect(next, next.insert(node, to), set![node], to);
}

pub proof fn lemma_acyclic_empty<K>(next: Map<K, K>)
    requires
        forall|node: K| !#[trigger] next.contains_key(node),
    ensures
        acyclic(next),
{
    assert forall|node: K| !#[trigger] reaches(next, node, node) by {
        lemma_reaches_step(next, node, node);
    }
}

/// Following the link of `current` leads to a node that was not passed before: a walk along a
/// chain without cycles passes each link once.
pub proof fn lemma_chain_advances<K>(next: Map<K, K>, passed: Set<K>, current: K)
    requires
        acyclic(next),
        next.dom().finite(),
        next.contains_key(current),
        passed.subset_of(next.dom()),
        forall|node: K| #[trigger] passed.contains(node) ==> reaches(next, node, current),
    ensures
        !passed.contains(current),
        passed.insert(current).subset_of(next.dom()),
        passed.insert(current).len() == passed.len() + 1,
        passed.insert(current).len() <= next.dom().len(),
        forall|node: K| #[trigger]
            passed.insert(current).contains(node) ==> reaches(next, node, next[current]),
{
    vstd::set_lib::lemma_set_subset_finite(next.dom(), passed);
    vstd::set_lib::lemma_len_subset(passed.insert(current), next.dom());
    lemma_reaches_step(next, current, next[current]);
    assert forall|node: K| #[trigger] passed.insert(current).contains(node) implies reaches(
        next,
        node,
        next[current],
    ) by {
        if passed.contains(node) {
            lemma_reaches_transitive(next, node, current, next[current]);
        }
    }
}

/// A chain without cycles ends, at a node that has no link.
pub proof fn lemma_chain_ends<K>(next: Map<K, K>, from: K) -> (end: K)
    requires
        acyclic(next),
        next.dom().finite(),
        next.contains_key(from),
    ensures
        reaches(next, from, end),
        !next.contains_key(end),
{
    lemma_reaches_step(next, from, next[from]);
    lemma_chain_ends_after(next, from, Set::empty(), from)
}

proof fn lemma_chain_ends_after<K>(next: Map<K, K>, from: K, passed: Set<K>, current: K) -> (end:
    K)
    requires
        acyclic(next),
        next.dom().finite(),
        next.contains_key(current),
        current == from || reaches(next, from, current),
        passed.subset_of(next.dom()),
        forall|node: K| #[trigger] passed.contains(node) ==> reaches(next, node, current),
    ensures
        reaches(next, from, end),
        !next.contains_key(end),
    decreases next.dom().len() - passed.len(),
{
    lemma_chain_advances(next, passed, current);
    lemma_reaches_step(next, current, next[current]);
    if current != from {
        lemma_reaches_transitive(next, from, current, next[current]);
    }
    if next.contains_key(next[current]) {
        lemma_chain_ends_after(next, from, passed.insert(current), next[current])
    } else {
        next[current]
    }
}

proof fn lemma_walk_round<K>(next: Map<K, K>, cut: K, steps: nat)
    requires
        next.contains_key(cut),
        walk(next, next[cut], steps) is Some,
    ensures
        ({
            let node = walk(next, next[cut], steps)->0;
            node == next[cut] || reaches(next.remove(cut), next[cut], node)
        }),
    decreases steps,
{
    if steps > 0 {
        let before = (steps - 1) as nat;
        lemma_walk_round(next, cut, before);
        let previous = walk(next, next[cut], before)->0;
        if previous != cut {
            lemma_reaches_step(next.remove(cut), previous, next[previous]);
            if previous != next[cut] {
                lemma_reaches_transitive(next.remove(cut), next[cut], previous, next[previous]);
            }
        }
    }
}

proof fn lemma_walk_up_to<K>(next: Map<K, K>, cut: K, from: K, steps: nat)
    requires
        from != cut,
        walk(next, from, steps) is Some,
    ensures
        walk(next.remove(cut), from, steps) == walk(next, from, steps) || reaches(
            next.remove(cut),
            from,
            cut,
        ),
    decreases steps,
{
    if steps > 0 {
        let before = (steps - 1) as nat;
        lemma_walk_up_to(next, cut, from, before);
        if walk(next.remove(cut), from, before) == Some(cut) {
            assert(before > 0);
        }
    }
}

/// Where `from` leads to `to`, and not through `cut`, it still does without the link of `cut`.
pub proof fn lemma_reaches_without<K>(next: Map<K, K>, cut: K, from: K, to: K)
    requires
        from != cut,
        reaches(next, from, to),
        !reaches(next.remove(cut), from, cut) || to == cut,
    ensures
        reaches(next.remove(cut), from, to),
{
    let steps = choose|steps: nat| steps > 0 && #[trigger] walk(next, from, steps) == Some(to);
    lemma_walk_up_to(next, cut, from, steps);
}

/// The nodes of a cycle other than `cut`, once the link of `cut` is taken away: they are what the
/// chain from the successor of `cut` passes before it comes to `cut`.
pub proof fn lemma_cut_cycle<K>(next: Map<K, K>, cut: K, node: K)
    requires
        reaches(next, cut, cut),
        next[cut] != cut,
    ensures
        reaches(next.remove(cut), next[cut], cut),
        (node != cut && reaches(next, cut, node) && reaches(next, node, cut)) <==> ((node
            == next[cut] || reaches(next.remove(cut), next[cut], node)) && reaches(
            next.remove(cut),
            node,
            cut,
        )),
{
    let rest = next.remove(cut);
    let first = next[cut];
    lemma_reaches_step(next, cut, cut);
    assert forall|k: K| #[trigger] rest.contains_key(k) implies reaches(next, k, rest[k]) by {
        lemma_reaches_step(next, k, rest[k]);
    }
    let steps = choose|steps: nat| steps > 0 && #[trigger] walk(next, first, steps) == Some(cut);
    lemma_walk_up_to(next, cut, first, steps);
    lemma_reaches_step(next, cut, node);
    if node != cut && reaches(next, cut, node) && reaches(next, node, cut) {
        let back = choose|back: nat| back > 0 && #[trigger] walk(next, node, back) == Some(cut);
        lemma_walk_up_to(next, cut, node, back);
        if node != first {
            let there = choose|there: nat|
                there > 0 && #[trigger] walk(next, first, there) == Some(node);
            lemma_walk_round(next, cut, there);
        }
    }
    if (node == first || reaches(rest, first, node)) && reaches(rest, node, cut) {
        lemma_reaches_step(rest, node, cut);
        lemma_reaches_covered(rest, next, node, cut);
        if node != first {
            lemma_reaches_covered(rest, next, first, node);
        }
    }
}

/// Whether `a` has a link to `b`.
pub open spec fn is_link<K>(next: Map<K, K>, a: K, b: K) -> bool {
    next.contains_key(a) && next[a] == b
}

/// Each node of `path` has a link to the node after it.
pub open spec fn is_chain<K>(next: Map<K, K>, path: Seq<K>) -> bool {
    &&& path.len() >= 2
    &&& forall|i: int, j: int|
        0 <= i && j == i + 1 && j < path.len() ==> is_link(
            next,
            #[trigger] path[i],
            #[trigger] path[j],
        )
}

proof fn lemma_walk_defined<K>(next: Map<K, K>, from: K, steps: nat, i: nat)
    requires
        walk(next, from, steps) is Some,
        i <= steps,
    ensures
        walk(next, from, i) is Some,
    decreases steps,
{
    if i < steps {
        lemma_walk_defined(next, from, (steps - 1) as nat, i);
    }
}

proof fn lemma_chain_walk<K>(next: Map<K, K>, path: Seq<K>, i: nat)
    requires
        is_chain(next, path),
        i < path.len(),
    ensures
        walk(next, path[0], i) == Some(path[i as int]),
    decreases i,
{
    if i > 0 {
        lemma_chain_walk(next, path, (i - 1) as nat);
        assert(is_link(next, path[i - 1], path[i as int]));
    }
}

/// One node leads to another exactly where a chain does.
pub proof fn lemma_reaches_is_chain<K>(next: Map<K, K>, from: K, to: K)
    ensures
        reaches(next, from, to) <==> exists|path: Seq<K>| #[trigger]
            is_chain(next, path) && path[0] == from && path.last() == to,
{
    if reaches(next, from, to) {
        let steps = choose|steps: nat| steps > 0 && #[trigger] walk(next, from, steps) == Some(to);
        let path = Seq::new(steps + 1, |i: int| walk(next, from, i as nat)->0);
        assert forall|i: int, j: int| 0 <= i && j == i + 1 && j < path.len() implies is_link(
            next,
            #[trigger] path[i],
            #[trigger] path[j],
        ) by {
            lemma_walk_defined(next, from, steps, i as nat);
            lemma_walk_defined(next, from, steps, j as nat);
            assert((j as nat - 1) as nat == i as nat);
        }
        assert(is_chain(next, path) && path[0] == from && path.last() == to);
    }
    if exists|path: Seq<K>| #[trigger]
        is_chain(next, path) && path[0] == from && path.last() == to {
        let path = choose|path: Seq<K>| #[trigger]
            is_chain(next, path) && path[0] == from && path.last() == to;
        lemma_chain_walk(next, path, (path.len() - 1) as nat);
    }
}

} // verus!
