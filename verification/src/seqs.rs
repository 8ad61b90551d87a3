//! Facts about sequences.
use vstd::prelude::*;

verus! {

pub proof fn lemma_push_contains<A>(seq: Seq<A>, pushed: A)
    ensures
        forall|a: A|
            #![trigger seq.push(pushed).contains(a)]
            #![trigger seq.contains(a)]
            seq.push(pushed).contains(a) <==> seq.contains(a) || a == pushed,
{
    assert forall|a: A|
        #![trigger seq.push(pushed).contains(a)]
        #![trigger seq.contains(a)]
        seq.push(pushed).contains(a) <==> seq.contains(a) || a == pushed by {
        if seq.contains(a) {
            let i = choose|i: int| 0 <= i < seq.len() && seq[i] == a;
            assert(seq.push(pushed)[i] == a);
        }
        if a == pushed {
            assert(seq.push(pushed)[seq.len() as int] == a);
        }
    }
}

/// One more element of `seq` taken: the element is new where `seq` has no duplicates.
pub proof fn lemma_take_next<A>(seq: Seq<A>, i: int)
    requires
        0 <= i < seq.len(),
    ensures
        forall|a: A|
            #![trigger seq.take(i + 1).contains(a)]
            #![trigger seq.take(i).contains(a)]
            seq.take(i + 1).contains(a) <==> seq.take(i).contains(a) || a == seq[i],
        seq.take(i + 1).to_set() == seq.take(i).to_set().insert(seq[i]),
        seq.no_duplicates() ==> !seq.take(i).contains(seq[i]),
        seq.contains(seq[i]),
{
    lemma_push_contains(seq.take(i), seq[i]);
    assert(seq.take(i + 1) =~= seq.take(i).push(seq[i]));
    assert(seq.take(i + 1).to_set() =~= seq.take(i).to_set().insert(seq[i]));
}

pub proof fn lemma_take_all<A>(seq: Seq<A>)
    ensures
        seq.take(seq.len() as int) == seq,
{
    assert(seq.take(seq.len() as int) =~= seq);
}

} // verus!
