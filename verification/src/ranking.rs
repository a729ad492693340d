//! Ordering a list by rank, best first, without disturbing ties.

use vstd::prelude::*;

verus! {

/// A value with a rank by which lists of it are ordered.
pub trait Ranked {
    /// The rank; a higher one comes earlier.
    spec fn rank(&self) -> int;

    /// Whether `self` ranks strictly above `other`.
    fn outranks(&self, other: &Self) -> (above: bool)
        ensures
            above == (self.rank() > other.rank()),
    ;
}

/// Picks the values of one rank.
pub open spec fn has_rank<T: Ranked>(rank: int) -> spec_fn(T) -> bool {
    |value: T| value.rank() == rank
}

/// Whether no value of the list ranks above one that stands before it.
pub open spec fn descending<T: Ranked>(list: Seq<T>) -> bool {
    forall|i: int, j: int| 0 <= i < j < list.len() ==> list[i].rank() >= list[j].rank()
}

/// Whether `sorted` is `given` put in descending order with ties left as
/// they were: the lists are equally long, and the values of each rank are
/// the same in both, in the same order. `lemma_one_stable_sort` shows that
/// no two lists are that for one `given`.
pub open spec fn is_stable_sort_of<T: Ranked>(sorted: Seq<T>, given: Seq<T>) -> bool {
    &&& sorted.len() == given.len()
    &&& descending(sorted)
    &&& forall|rank: int| #[trigger]
        sorted.filter(has_rank::<T>(rank)) == given.filter(has_rank::<T>(rank))
}

/// A list none of whose values has a rank holds nothing of that rank.
proof fn lemma_none_of_rank<T: Ranked>(list: Seq<T>, rank: int)
    requires
        forall|i: int| 0 <= i < list.len() ==> list[i].rank() != rank,
    ensures
        list.filter(has_rank::<T>(rank)) == Seq::<T>::empty(),
    decreases list.len(),
{
    reveal(Seq::filter);
    if list.len() > 0 {
        lemma_none_of_rank(list.drop_last(), rank);
    }
}

/// What one more value at the end adds to the values of a rank.
proof fn lemma_filter_push<T: Ranked>(list: Seq<T>, value: T, rank: int)
    ensures
        list.push(value).filter(has_rank::<T>(rank)) == if value.rank() == rank {
            list.filter(has_rank::<T>(rank)).push(value)
        } else {
            list.filter(has_rank::<T>(rank))
        },
{
    reveal(Seq::filter);
    assert(list.push(value).drop_last() =~= list);
}

/// What one more value at the front adds to the values of a rank.
proof fn lemma_filter_front<T: Ranked>(value: T, list: Seq<T>, rank: int)
    ensures
        (seq![value] + list).filter(has_rank::<T>(rank)) == if value.rank() == rank {
            seq![value] + list.filter(has_rank::<T>(rank))
        } else {
            list.filter(has_rank::<T>(rank))
        },
{
    let pick = has_rank::<T>(rank);
    Seq::filter_distributes_over_add(seq![value], list, pick);
    lemma_filter_push(Seq::<T>::empty(), value, rank);
    lemma_none_of_rank(Seq::<T>::empty(), rank);
    assert(Seq::<T>::empty().push(value) =~= seq![value]);
    assert(Seq::<T>::empty() + list.filter(pick) =~= list.filter(pick));
}

/// A list without its last value is descending if the list is, and its
/// values rank no lower than the last.
proof fn lemma_drop_last_descending<T: Ranked>(list: Seq<T>)
    requires
        descending(list),
        list.len() > 0,
    ensures
        descending(list.drop_last()),
        forall|i: int| 0 <= i < list.len() ==> list[i].rank() >= list.last().rank(),
{
    let shorter = list.drop_last();
    assert forall|i: int, j: int| 0 <= i < j < shorter.len() implies shorter[i].rank()
        >= shorter[j].rank() by {
        assert(shorter[i] == list[i] && shorter[j] == list[j]);
    }
}

/// Whether every value of `head` ranks at least as high as every value of
/// `tail`.
spec fn all_above<T: Ranked>(head: Seq<T>, tail: Seq<T>) -> bool {
    forall|i: int, j: int|
        0 <= i < head.len() && 0 <= j < tail.len() ==> head[i].rank() >= tail[j].rank()
}

/// Whether `left`, `right` and `tail` together hold, rank by rank, what
/// `first` followed by `second` holds.
spec fn holds_all<T: Ranked>(
    left: Seq<T>,
    right: Seq<T>,
    tail: Seq<T>,
    first: Seq<T>,
    second: Seq<T>,
) -> bool {
    &&& left.len() + right.len() + tail.len() == first.len() + second.len()
    &&& forall|rank: int|
        left.filter(has_rank::<T>(rank)) + right.filter(has_rank::<T>(rank))
            + #[trigger] tail.filter(has_rank::<T>(rank)) == first.filter(has_rank::<T>(rank))
            + second.filter(has_rank::<T>(rank))
}

/// Moving the last value of `right` to the front of the tail keeps what
/// the three lists hold.
proof fn lemma_move_from_right<T: Ranked>(
    left: Seq<T>,
    right: Seq<T>,
    tail: Seq<T>,
    first: Seq<T>,
    second: Seq<T>,
)
    requires
        holds_all(left, right, tail, first, second),
        right.len() > 0,
    ensures
        holds_all(left, right.drop_last(), seq![right.last()] + tail, first, second),
{
    let value = right.last();
    let longer = seq![value] + tail;
    assert(right =~= right.drop_last().push(value));
    assert forall|rank: int|
        left.filter(has_rank::<T>(rank)) + right.drop_last().filter(has_rank::<T>(rank))
            + #[trigger] longer.filter(has_rank::<T>(rank)) == first.filter(has_rank::<T>(rank))
            + second.filter(has_rank::<T>(rank)) by {
        let pick = has_rank::<T>(rank);
        lemma_filter_push(right.drop_last(), value, rank);
        lemma_filter_front(value, tail, rank);
        assert(left.filter(pick) + right.filter(pick) + tail.filter(pick) == first.filter(pick)
            + second.filter(pick));
        if value.rank() == rank {
            assert(left.filter(pick) + right.drop_last().filter(pick) + (seq![value] + tail.filter(
                pick,
            )) =~= left.filter(pick) + right.drop_last().filter(pick).push(value) + tail.filter(
                pick,
            ));
        }
    }
}

/// Moving the last value of `left` to the front of the tail keeps what the
/// three lists hold, where every value of `right` ranks above it.
proof fn lemma_move_from_left<T: Ranked>(
    left: Seq<T>,
    right: Seq<T>,
    tail: Seq<T>,
    first: Seq<T>,
    second: Seq<T>,
)
    requires
        holds_all(left, right, tail, first, second),
        left.len() > 0,
        forall|i: int| 0 <= i < right.len() ==> right[i].rank() > left.last().rank(),
    ensures
        holds_all(left.drop_last(), right, seq![left.last()] + tail, first, second),
{
    let value = left.last();
    let longer = seq![value] + tail;
    assert(left =~= left.drop_last().push(value));
    assert forall|rank: int|
        left.drop_last().filter(has_rank::<T>(rank)) + right.filter(has_rank::<T>(rank))
            + #[trigger] longer.filter(has_rank::<T>(rank)) == first.filter(has_rank::<T>(rank))
            + second.filter(has_rank::<T>(rank)) by {
        let pick = has_rank::<T>(rank);
        lemma_filter_push(left.drop_last(), value, rank);
        lemma_filter_front(value, tail, rank);
        assert(left.filter(pick) + right.filter(pick) + tail.filter(pick) == first.filter(pick)
            + second.filter(pick));
        if value.rank() == rank {
            lemma_none_of_rank(right, rank);
            assert(left.drop_last().filter(pick) + Seq::<T>::empty() + (seq![value] + tail.filter(
                pick,
            )) =~= left.drop_last().filter(pick).push(value) + Seq::<T>::empty() + tail.filter(
                pick,
            ));
        }
    }
}

/// Merges two descending lists into one. Among values of one rank, those
/// of `left` come first.
fn merge<T: Ranked>(left: Vec<T>, right: Vec<T>) -> (merged: Vec<T>)
    requires
        descending(left@),
        descending(right@),
    ensures
        is_stable_sort_of(merged@, left@ + right@),
{
    let ghost first = left@;
    let ghost second = right@;
    let mut left = left;
    let mut right = right;
    // The end of the result, its last value first.
    let mut back: Vec<T> = Vec::new();
    proof {
        assert(back@.reverse() =~= Seq::<T>::empty());
        assert forall|rank: int|
            left@.filter(has_rank::<T>(rank)) + right@.filter(has_rank::<T>(rank))
                + #[trigger] back@.reverse().filter(has_rank::<T>(rank)) == first.filter(
                has_rank::<T>(rank),
            ) + second.filter(has_rank::<T>(rank)) by {
            lemma_none_of_rank(Seq::<T>::empty(), rank);
            assert(first.filter(has_rank::<T>(rank)) + second.filter(has_rank::<T>(rank))
                + Seq::<T>::empty() =~= first.filter(has_rank::<T>(rank)) + second.filter(
                has_rank::<T>(rank),
            ));
        }
    }
    while left.len() > 0 && right.len() > 0
        invariant
            descending(left@),
            descending(right@),
            descending(back@.reverse()),
            all_above(left@, back@.reverse()),
            all_above(right@, back@.reverse()),
            holds_all(left@, right@, back@.reverse(), first, second),
        decreases left.len() + right.len(),
    {
        let ghost tail = back@.reverse();
        let ghost lefts = left@;
        let ghost rights = right@;
        proof {
            lemma_drop_last_descending(lefts);
            lemma_drop_last_descending(rights);
        }
        let from_left = right[right.len() - 1].outranks(&left[left.len() - 1]);
        let value = if from_left {
            proof {
                lemma_move_from_left(lefts, rights, tail, first, second);
            }
            left.pop().unwrap()
        } else {
            proof {
                lemma_move_from_right(lefts, rights, tail, first, second);
            }
            right.pop().unwrap()
        };
        back.push(value);
        proof {
            let longer = seq![value] + tail;
            assert(back@.reverse() =~= longer);
            assert forall|i: int, j: int| 0 <= i < j < longer.len() implies longer[i].rank()
                >= longer[j].rank() by {
                if i > 0 {
                    assert(longer[i] == tail[i - 1] && longer[j] == tail[j - 1]);
                } else {
                    assert(longer[j] == tail[j - 1]);
                    if from_left {
                        assert(lefts[lefts.len() - 1].rank() >= tail[j - 1].rank());
                    } else {
                        assert(rights[rights.len() - 1].rank() >= tail[j - 1].rank());
                    }
                }
            }
            assert forall|i: int, j: int|
                0 <= i < left@.len() && 0 <= j < longer.len() implies left@[i].rank()
                >= longer[j].rank() by {
                assert(left@[i] == lefts[i]);
                if j > 0 {
                    assert(longer[j] == tail[j - 1]);
                }
            }
            assert forall|i: int, j: int|
                0 <= i < right@.len() && 0 <= j < longer.len() implies right@[i].rank()
                >= longer[j].rank() by {
                assert(right@[i] == rights[i]);
                if j > 0 {
                    assert(longer[j] == tail[j - 1]);
                }
            }
        }
    }
    // One of the two is used up; what is left of the other is the front.
    let ghost tail = back@.reverse();
    let mut merged = if left.len() > 0 {
        left
    } else {
        right
    };
    let ghost front = merged@;
    let ghost whole = front + tail;
    proof {
        assert(front =~= left@ + right@);
        assert forall|i: int, j: int| 0 <= i < j < whole.len() implies whole[i].rank()
            >= whole[j].rank() by {
            if j >= front.len() && i < front.len() {
                assert(whole[j] == tail[j - front.len()]);
                assert(left@.len() > 0 ==> whole[i] == left@[i]);
                assert(right@.len() > 0 ==> whole[i] == right@[i]);
            }
        }
        assert forall|rank: int| #[trigger]
            whole.filter(has_rank::<T>(rank)) == (first + second).filter(has_rank::<T>(rank)) by {
            let pick = has_rank::<T>(rank);
            Seq::filter_distributes_over_add(front, tail, pick);
            Seq::filter_distributes_over_add(first, second, pick);
            Seq::filter_distributes_over_add(left@, right@, pick);
            assert(left@.filter(pick) + right@.filter(pick) + tail.filter(pick) == first.filter(
                pick,
            ) + second.filter(pick));
        }
    }
    while back.len() > 0
        invariant
            merged@ + back@.reverse() == whole,
        decreases back.len(),
    {
        let ghost before = back@;
        let value = back.pop().unwrap();
        proof {
            assert(before.reverse() =~= seq![value] + back@.reverse());
            assert(merged@.push(value) + back@.reverse() =~= merged@ + before.reverse());
        }
        merged.push(value);
    }
    proof {
        assert(back@.reverse() =~= Seq::<T>::empty());
        assert(merged@ =~= whole);
    }
    merged
}

/// Sorts a list by rank, highest first. Values of equal rank keep the order
/// in which they stood.
pub fn sort_descending<T: Ranked>(list: &mut Vec<T>)
    ensures
        is_stable_sort_of(final(list)@, old(list)@),
    decreases old(list)@.len(),
{
    if list.len() < 2 {
        return ;
    }
    let ghost given = list@;
    let half = list.len() / 2;
    let mut right = list.split_off(half);
    let mut left: Vec<T> = Vec::new();
    std::mem::swap(list, &mut left);
    let ghost first = left@;
    let ghost second = right@;
    assert(given =~= first + second);
    sort_descending(&mut left);
    sort_descending(&mut right);
    let ghost sorted_first = left@;
    let ghost sorted_second = right@;
    let mut merged = merge(left, right);
    proof {
        assert forall|rank: int| #[trigger]
            merged@.filter(has_rank::<T>(rank)) == given.filter(has_rank::<T>(rank)) by {
            let pick = has_rank::<T>(rank);
            Seq::filter_distributes_over_add(sorted_first, sorted_second, pick);
            Seq::filter_distributes_over_add(first, second, pick);
            assert(sorted_first.filter(pick) == first.filter(pick));
            assert(sorted_second.filter(pick) == second.filter(pick));
        }
    }
    std::mem::swap(list, &mut merged);
}

/// Every value of a sorted list is a value of the list that was sorted.
pub proof fn lemma_sorted_from_given<T: Ranked>(sorted: Seq<T>, given: Seq<T>, i: int)
    requires
        is_stable_sort_of(sorted, given),
        0 <= i < sorted.len(),
    ensures
        given.contains(sorted[i]),
{
    let pick = has_rank::<T>(sorted[i].rank());
    assert(sorted.filter(pick) == given.filter(pick));
    sorted.lemma_filter_contains(pick, i);
    given.lemma_filter_contains_rev(pick, sorted[i]);
}

/// Of two stable sorts of one list, the second ends no higher than the
/// first.
proof fn lemma_last_rank<T: Ranked>(a: Seq<T>, b: Seq<T>, given: Seq<T>)
    requires
        is_stable_sort_of(a, given),
        is_stable_sort_of(b, given),
        a.len() > 0,
    ensures
        b.last().rank() <= a.last().rank(),
{
    let pick = has_rank::<T>(a.last().rank());
    assert(a.filter(pick) == given.filter(pick));
    assert(b.filter(pick) == given.filter(pick));
    a.lemma_filter_contains(pick, a.len() - 1);
    b.lemma_filter_contains_rev(pick, a.last());
    let at = choose|i: int| 0 <= i < b.len() && b[i] == a.last();
    assert(b[at].rank() >= b[b.len() - 1].rank());
}

/// A list has one stable sort: two lists that both are it are equal. So
/// `is_stable_sort_of` says all there is to say of a sorted list.
pub proof fn lemma_one_stable_sort<T: Ranked>(a: Seq<T>, b: Seq<T>, given: Seq<T>)
    requires
        is_stable_sort_of(a, given),
        is_stable_sort_of(b, given),
    ensures
        a == b,
    decreases a.len(),
{
    if a.len() == 0 {
        assert(a =~= b);
    } else {
        lemma_last_rank(a, b, given);
        lemma_last_rank(b, a, given);
        let lowest = a.last().rank();
        let shorter_a = a.drop_last();
        let shorter_b = b.drop_last();
        assert(a =~= shorter_a.push(a.last()));
        assert(b =~= shorter_b.push(b.last()));
        assert forall|rank: int| #[trigger]
            shorter_b.filter(has_rank::<T>(rank)) == shorter_a.filter(has_rank::<T>(rank)) by {
            let pick = has_rank::<T>(rank);
            lemma_filter_push(shorter_a, a.last(), rank);
            lemma_filter_push(shorter_b, b.last(), rank);
            assert(a.filter(pick) == given.filter(pick));
            assert(b.filter(pick) == given.filter(pick));
            if rank == lowest {
                assert(shorter_a.filter(pick).push(a.last()).drop_last() =~= shorter_a.filter(
                    pick,
                ));
                assert(shorter_b.filter(pick).push(b.last()).drop_last() =~= shorter_b.filter(
                    pick,
                ));
            }
        }
        assert(a.last() == b.last()) by {
            let pick = has_rank::<T>(lowest);
            lemma_filter_push(shorter_a, a.last(), lowest);
            lemma_filter_push(shorter_b, b.last(), lowest);
            assert(a.filter(pick) == given.filter(pick));
            assert(b.filter(pick) == given.filter(pick));
            assert(shorter_a.filter(pick).push(a.last()).last() == a.last());
            assert(shorter_b.filter(pick).push(b.last()).last() == b.last());
        }
        lemma_drop_last_descending(a);
        lemma_drop_last_descending(b);
        lemma_one_stable_sort(shorter_a, shorter_b, shorter_a);
    }
}

} // verus!
