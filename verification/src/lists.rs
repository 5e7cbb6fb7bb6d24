//! Lists that keep the order of what stays.

use vstd::prelude::*;

verus! {

/// The elements whose mark is set, in order.
pub open spec fn selected<T>(list: Seq<T>, marks: Seq<bool>) -> Seq<T>
    decreases list.len(),
{
    if list.len() == 0 {
        list
    } else if marks.last() {
        selected(list.drop_last(), marks.drop_last()).push(list.last())
    } else {
        selected(list.drop_last(), marks.drop_last())
    }
}

/// Keep the elements that a predicate accepts.
pub fn retain_list<T>(list: &mut Vec<T>, keep: impl Fn(&T) -> bool)
    requires
        forall|element: &T| call_requires(keep, (element,)),
    ensures
        exists|marks: Seq<bool>| #![trigger selected(old(list)@, marks)]
            marks.len() == old(list)@.len() && (forall|i: int|
                0 <= i < marks.len() ==> call_ensures(
                    keep,
                    (&old(list)@[i],),
                    #[trigger] marks[i],
                )) && final(list)@ == selected(old(list)@, marks),
{
    let ghost before = list@;
    let mut rest: Vec<T> = Vec::new();
    core::mem::swap(&mut rest, list);
    let count: usize = rest.len();
    let mut i: usize = 0;
    let ghost mut marks: Seq<bool> = Seq::empty();
    while i < count
        invariant
            i <= count,
            count == before.len(),
            rest@ == before.skip(i as int),
            marks.len() == i,
            forall|element: &T| call_requires(keep, (element,)),
            forall|j: int| 0 <= j < i ==> call_ensures(keep, (&before[j],), #[trigger] marks[j]),
            list@ == selected(before.take(i as int), marks),
        decreases count - i,
    {
        let element = rest.remove(0);
        let kept = keep(&element);
        proof {
            assert(element == before[i as int]);
            assert(before.skip(i as int).remove(0) =~= before.skip(i + 1));
            assert(before.take(i + 1).drop_last() =~= before.take(i as int));
            assert(marks.push(kept).drop_last() =~= marks);
            marks = marks.push(kept);
        }
        if kept {
            list.push(element);
        }
        i += 1;
    }
    assert(before.take(count as int) =~= before);
    assert(list@ == selected(before, marks));
}

/// Which elements a predicate accepts.
pub open spec fn marks_of<T>(list: Seq<T>, keep: spec_fn(T) -> bool) -> Seq<bool> {
    Seq::new(list.len(), |i: int| keep(list[i]))
}

/// What stays is exactly what is accepted.
pub proof fn lemma_selected<T>(list: Seq<T>, keep: spec_fn(T) -> bool)
    ensures
        selected(list, marks_of(list, keep)) == list.filter(keep),
    decreases list.len(),
{
    reveal(Seq::filter);
    if list.len() > 0 {
        lemma_selected(list.drop_last(), keep);
        assert(marks_of(list, keep).drop_last() =~= marks_of(list.drop_last(), keep));
    }
}

/// What stays of a list is what is marked, in its order, and each marked
/// element stays.
pub proof fn selected_elements_are_marked<T>(list: Seq<T>, marks: Seq<bool>)
    requires
        list.len() == marks.len(),
    ensures
        forall|k: int|
            0 <= k < selected(list, marks).len() ==> exists|i: int|
                0 <= i < list.len() && marks[i] && list[i] == (#[trigger] selected(list, marks)[k]),
        forall|i: int|
            0 <= i < list.len() && marks[i] ==> selected(list, marks).contains(#[trigger] list[i]),
        (forall|i: int| 0 <= i < marks.len() ==> #[trigger] marks[i]) ==> selected(list, marks) == list,
    decreases list.len(),
{
    if list.len() > 0 {
        let shorter = list.drop_last();
        let fewer = marks.drop_last();
        let before = selected(shorter, fewer);
        let all = selected(list, marks);
        selected_elements_are_marked(shorter, fewer);
        assert forall|k: int| 0 <= k < all.len() implies exists|i: int|
            0 <= i < list.len() && marks[i] && list[i] == (#[trigger] all[k]) by {
            if k < before.len() {
                let i = choose|i: int|
                    0 <= i < shorter.len() && fewer[i] && shorter[i] == before[k];
                assert(marks[i] && list[i] == all[k]);
            } else {
                assert(marks[list.len() - 1] && list[list.len() - 1] == all[k]);
            }
        }
        assert forall|i: int| 0 <= i < list.len() && marks[i] implies all.contains(
            #[trigger] list[i],
        ) by {
            if i < shorter.len() {
                assert(fewer[i]);
                assert(before.contains(shorter[i]));
                let k = choose|k: int| 0 <= k < before.len() && before[k] == shorter[i];
                assert(all[k] == list[i]);
            } else {
                assert(all[before.len() as int] == list[i]);
            }
        }
        if forall|i: int| 0 <= i < marks.len() ==> #[trigger] marks[i] {
            assert forall|i: int| 0 <= i < fewer.len() implies #[trigger] fewer[i] by {
                assert(marks[i]);
            }
            assert(marks[marks.len() - 1]);
            assert(all =~= list);
        }
    }
}

} // verus!
