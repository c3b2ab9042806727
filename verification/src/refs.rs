//! References on lists.
use vstd::multiset::Multiset;
use vstd::prelude::*;

verus! {

/// The references on an empty list.
pub(crate) proof fn lemma_no_refs()
    ensures
        Seq::<usize>::empty().to_multiset() == Multiset::<usize>::empty(),
{
    Seq::<usize>::empty().to_multiset_ensures();
    vstd::multiset::lemma_multiset_empty_len(Seq::<usize>::empty().to_multiset());
}

/// The references on a list of two.
pub(crate) proof fn lemma_two_refs(a: usize, b: usize)
    ensures
        seq![a, b].to_multiset() == Multiset::singleton(a).insert(b),
{
    broadcast use vstd::seq_lib::to_multiset_build;

    lemma_no_refs();
    assert(seq![a, b] =~= Seq::<usize>::empty().push(a).push(b));
    assert(seq![a, b].to_multiset() =~= Multiset::singleton(a).insert(b));
}

/// The references on a list are the first and the others.
pub(crate) proof fn lemma_first_ref(refs: Seq<usize>)
    requires
        refs.len() > 0,
    ensures
        refs.to_multiset() == refs.skip(1).to_multiset().insert(refs[0]),
{
    broadcast use vstd::seq_lib::to_multiset_remove;

    assert(refs.skip(1) =~= refs.remove(0));
    refs.to_multiset_ensures();
    assert(refs.contains(refs[0]));
    assert(refs.to_multiset() =~= refs.skip(1).to_multiset().insert(refs[0]));
}

/// The references on two lists, one behind the other.
pub(crate) proof fn lemma_all_refs(a: Seq<usize>, b: Seq<usize>)
    ensures
        (a + b).to_multiset() == a.to_multiset().add(b.to_multiset()),
{
    vstd::seq_lib::lemma_multiset_commutative(a, b);
}

/// All references of several lots.
pub open spec fn total(lots: Seq<Multiset<usize>>) -> Multiset<usize>
    decreases lots.len(),
{
    if lots.len() == 0 {
        Multiset::empty()
    } else {
        total(lots.drop_last()).add(lots.last())
    }
}

/// Where every step is balanced, so is the whole: what is held at the end, what was given up and
/// what was lost are what was held at the start and what was gained.
pub(crate) proof fn lemma_balance(
    held: Seq<Multiset<usize>>,
    given_up: Seq<Multiset<usize>>,
    lost: Seq<Multiset<usize>>,
    gained: Seq<Multiset<usize>>,
)
    requires
        held.len() == gained.len() + 1,
        given_up.len() == gained.len(),
        lost.len() == gained.len(),
        forall|i: int|
            0 <= i < gained.len() ==> held[i + 1].add(given_up[i]).add(lost[i]) == held[i].add(
                #[trigger] gained[i],
            ),
    ensures
        held.last().add(total(given_up)).add(total(lost)) == held[0].add(total(gained)),
    decreases gained.len(),
{
    if gained.len() > 0 {
        let n = gained.len() - 1;
        let earlier = held.drop_last();
        assert forall|i: int| 0 <= i < n implies earlier[i + 1].add(given_up.drop_last()[i]).add(
            lost.drop_last()[i],
        ) == earlier[i].add(#[trigger] gained.drop_last()[i]) by {
            assert(gained.drop_last()[i] == gained[i]);
        }
        lemma_balance(earlier, given_up.drop_last(), lost.drop_last(), gained.drop_last());
        assert(held[n + 1].add(given_up[n]).add(lost[n]) == held[n].add(gained[n]));
        lemma_balance_step(
            held[0],
            held[n],
            held[n + 1],
            total(given_up.drop_last()),
            total(lost.drop_last()),
            total(gained.drop_last()),
            given_up[n],
            lost[n],
            gained[n],
        );
    } else {
        assert(held[0].add(Multiset::empty()).add(Multiset::empty()) =~= held[0].add(
            Multiset::empty(),
        ));
    }
}

/// A balance stays one over a step that is balanced.
proof fn lemma_balance_step(
    start: Multiset<usize>,
    before: Multiset<usize>,
    after: Multiset<usize>,
    given_up: Multiset<usize>,
    lost: Multiset<usize>,
    gained: Multiset<usize>,
    more_given_up: Multiset<usize>,
    more_lost: Multiset<usize>,
    more_gained: Multiset<usize>,
)
    requires
        before.add(given_up).add(lost) == start.add(gained),
        after.add(more_given_up).add(more_lost) == before.add(more_gained),
    ensures
        after.add(given_up.add(more_given_up)).add(lost.add(more_lost)) == start.add(
            gained.add(more_gained),
        ),
{
    let left = after.add(given_up.add(more_given_up)).add(lost.add(more_lost));
    let right = start.add(gained.add(more_gained));
    assert forall|v: usize| #[trigger] left.count(v) == right.count(v) by {
        assert(before.add(given_up).add(lost).count(v) == before.count(v) + given_up.count(v)
            + lost.count(v));
        assert(start.add(gained).count(v) == start.count(v) + gained.count(v));
        assert(after.add(more_given_up).add(more_lost).count(v) == after.count(v)
            + more_given_up.count(v) + more_lost.count(v));
        assert(before.add(more_gained).count(v) == before.count(v) + more_gained.count(v));
        assert(left.count(v) == after.count(v) + (given_up.count(v) + more_given_up.count(v)) + (
        lost.count(v) + more_lost.count(v)));
        assert(right.count(v) == start.count(v) + (gained.count(v) + more_gained.count(v)));
    }
    assert(left =~= right);
}

} // verus!
