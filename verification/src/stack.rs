//! Sorting one tile's stack into drawing order.

use vstd::multiset::Multiset;
use vstd::prelude::*;
use crate::order::{lemma_below_chain, lemma_below_or_not_above, VisualObject};

verus! {

/// Whether a stack is in drawing order from bottom to top: nothing lies
/// above what the order puts above it.
pub open spec fn is_sorted(stack: Seq<VisualObject>) -> bool {
    forall|i: int, j: int|
        0 <= i < j < stack.len() ==> (#[trigger] stack[i]).not_above(#[trigger] stack[j])
}

/// Putting one thing into a stack adds it to what the stack holds.
pub proof fn lemma_insert_holds(stack: Seq<VisualObject>, item: VisualObject)
    ensures
        forall|at: int|
            0 <= at <= stack.len() ==> (#[trigger] stack.insert(at, item)).to_multiset()
                == stack.to_multiset().insert(item),
{
    broadcast use vstd::seq_lib::group_to_multiset_ensures;

    assert forall|at: int| 0 <= at <= stack.len() implies (#[trigger] stack.insert(
        at,
        item,
    )).to_multiset() == stack.to_multiset().insert(item) by {
        let longer = stack.insert(at, item);
        assert(longer.remove(at) =~= stack);
        assert(longer[at] == item);
        assert(longer.to_multiset().count(item) > 0) by {
            assert(longer.contains(item));
        }
        assert(longer.to_multiset() =~= stack.to_multiset().insert(item));
    }
}

/// A sorted stack stays sorted when a thing is put in above all that may
/// lie below it and below all that it is strictly below.
pub proof fn lemma_insert_sorted(stack: Seq<VisualObject>, at: int, item: VisualObject)
    requires
        is_sorted(stack),
        0 <= at <= stack.len(),
        forall|i: int| 0 <= i < at ==> (#[trigger] stack[i]).not_above(item),
        forall|j: int| at <= j < stack.len() ==> item.is_below(#[trigger] stack[j]),
    ensures
        is_sorted(stack.insert(at, item)),
{
    let longer = stack.insert(at, item);
    assert forall|i: int, j: int| 0 <= i < j < longer.len() implies (#[trigger] longer[i]).not_above(
        #[trigger] longer[j],
    ) by {
        if i == at {
            assert(longer[j] == stack[j - 1]);
            assert(item.is_below(stack[j - 1]));
        } else if j == at {
            assert(longer[i] == stack[i]);
        } else {
            let a: int = if i < at { i } else { i - 1 };
            let b: int = if j < at { j } else { j - 1 };
            assert(longer[i] == stack[a] && longer[j] == stack[b]);
            assert(stack[a].not_above(stack[b]));
        }
    }
}

/// Where a thing goes in a sorted stack: above everything that is not
/// above it.
fn place_of(stack: &Vec<VisualObject>, item: &VisualObject) -> (at: usize)
    requires
        is_sorted(stack@),
    ensures
        at <= stack.len(),
        forall|i: int| 0 <= i < at ==> (#[trigger] stack@[i]).not_above(*item),
        forall|j: int| at <= j < stack.len() ==> item.is_below(#[trigger] stack@[j]),
{
    let mut at: usize = 0;
    while at < stack.len()
        invariant
            is_sorted(stack@),
            at <= stack.len(),
            forall|i: int| 0 <= i < at ==> (#[trigger] stack@[i]).not_above(*item),
        decreases stack.len() - at,
    {
        let next = &stack[at];
        if item.below(next) {
            proof {
                assert forall|j: int| at <= j < stack.len() implies item.is_below(
                    #[trigger] stack@[j],
                ) by {
                    if j > at {
                        lemma_below_chain(*item, stack@[at as int], stack@[j]);
                    }
                }
            }
            return at;
        }
        proof {
            lemma_below_or_not_above(*item, *next);
        }
        at += 1;
    }
    at
}

/// Sorts a stack into drawing order. It holds afterwards what it held
/// before, each thing as often.
pub fn sort_stack(stack: &mut Vec<VisualObject>)
    ensures
        is_sorted(final(stack)@),
        final(stack)@.to_multiset() == old(stack)@.to_multiset(),
{
    let mut sorted: Vec<VisualObject> = Vec::new();
    proof {
        assert(sorted@.to_multiset().add(stack@.to_multiset()) =~= stack@.to_multiset()) by {
            broadcast use vstd::seq_lib::group_to_multiset_ensures;
            assert(sorted@.to_multiset().len() == 0);
        }
    }
    while stack.len() > 0
        invariant
            is_sorted(sorted@),
            sorted@.to_multiset().add(stack@.to_multiset()) == old(stack)@.to_multiset(),
        decreases stack.len(),
    {
        let ghost before = stack@;
        let ghost done = sorted@;
        let item = stack.pop().unwrap();
        let at = place_of(&sorted, &item);
        sorted.insert(at, item);
        proof {
            lemma_insert_holds(done, item);
            assert(before =~= stack@.push(item));
            vstd::seq_lib::to_multiset_build(stack@, item);
            assert(sorted@.to_multiset().add(stack@.to_multiset()) =~= done.to_multiset().add(
                before.to_multiset(),
            ));
            lemma_insert_sorted(done, at as int, item);
        }
    }
    proof {
        assert(stack@.to_multiset() =~= Multiset::<VisualObject>::empty()) by {
            broadcast use vstd::seq_lib::group_to_multiset_ensures;
            assert(stack@.to_multiset().len() == 0);
        }
        assert(sorted@.to_multiset() =~= old(stack)@.to_multiset());
    }
    *stack = sorted;
}

} // verus!
