//! Facts about lists that the proofs of the move lists use.

use vstd::prelude::*;

verus! {

/// A list of one element holds that element and nothing else.
pub proof fn lemma_single_contains<A>(y: A, x: A)
    ensures
        seq![y].contains(x) <==> x == y,
{
    assert(seq![y][0] == y);
}

/// Two lists put together hold what either holds.
pub proof fn lemma_concat_contains<A>(a: Seq<A>, b: Seq<A>, x: A)
    ensures
        (a + b).contains(x) <==> a.contains(x) || b.contains(x),
{
    vstd::seq_lib::lemma_seq_concat_contains_all_elements(a, b, x);
}

/// A filtered list holds the elements of the list that pass the test.
pub proof fn lemma_filter_holds<A>(list: Seq<A>, test: spec_fn(A) -> bool, x: A)
    ensures
        list.filter(test).contains(x) <==> list.contains(x) && test(x),
{
    let kept = list.filter(test);
    if kept.contains(x) {
        let i = choose|i: int| 0 <= i < kept.len() && kept[i] == x;
        list.lemma_filter_pred(test, i);
        list.lemma_filter_contains_rev(test, x);
    }
    if list.contains(x) && test(x) {
        let i = choose|i: int| 0 <= i < list.len() && list[i] == x;
        list.lemma_filter_contains(test, i);
    }
}

/// Two lists without repeats that share no element make a list without
/// repeats.
pub proof fn lemma_concat_distinct<A>(a: Seq<A>, b: Seq<A>)
    requires
        a.no_duplicates(),
        b.no_duplicates(),
        forall|x: A| a.contains(x) ==> !b.contains(x),
    ensures
        (a + b).no_duplicates(),
{
    assert forall|i: int, j: int| 0 <= i < a.len() && 0 <= j < b.len() implies a[i] != b[j] by {
        assert(a.contains(a[i]));
        assert(b.contains(b[j]));
    }
    vstd::seq_lib::lemma_no_dup_in_concat(a, b);
}

/// The elements of a list that pass a test form a list without repeats
/// if the list has none.
pub proof fn lemma_filter_distinct<A>(list: Seq<A>, test: spec_fn(A) -> bool)
    requires
        list.no_duplicates(),
    ensures
        list.filter(test).no_duplicates(),
    decreases list.len(),
{
    reveal(Seq::filter);
    if list.len() > 0 {
        let front = list.drop_last();
        assert forall|i: int, j: int|
            0 <= i < front.len() && 0 <= j < front.len() && i != j implies front[i]
            != front[j] by {
            assert(front[i] == list[i] && front[j] == list[j]);
        }
        lemma_filter_distinct(front, test);
        if test(list.last()) {
            let kept = front.filter(test);
            if kept.contains(list.last()) {
                front.lemma_filter_contains_rev(test, list.last());
                let i = choose|i: int| 0 <= i < front.len() && front[i] == list.last();
                assert(list[i] == list[list.len() - 1]);
            }
            assert forall|i: int, j: int|
                0 <= i < kept.push(list.last()).len() && 0 <= j < kept.push(list.last()).len() && i
                    != j implies kept.push(list.last())[i] != kept.push(list.last())[j] by {
                if i < kept.len() {
                    assert(kept.contains(kept[i]));
                }
                if j < kept.len() {
                    assert(kept.contains(kept[j]));
                }
            }
        }
    }
}

} // verus!
