//! The allocation of an order line to one of a number of batches.

use crate::domain::{Batch, BatchView, OrderLine, OrderLineView};
use vstd::prelude::*;

verus! {

/// No batch can take the order line.
#[derive(Debug, Clone, Copy)]
pub struct AllocationError;

impl AllocationError {
    /// What the error says in words.
    pub fn to_string(&self) -> (message: String)
        ensures
            message@ == "No allocatable batches found"@,
    {
        "No allocatable batches found".to_owned()
    }
}

/// The batches behind a list of references, as mathematical values.
pub open spec fn views_of(batches: Seq<&mut Batch>) -> Seq<BatchView> {
    Seq::new(batches.len(), |i: int| (*batches[i])@)
}

/// Whether `line` can be allocated to the batch at `i`.
pub open spec fn can_allocate_at(batches: Seq<BatchView>, line: OrderLineView, i: int) -> bool {
    0 <= i < batches.len() && batches[i].can_allocate(line)
}

/// Whether `line` can be allocated to one of the batches.
pub open spec fn any_can_allocate(batches: Seq<BatchView>, line: OrderLineView) -> bool {
    exists|i: int| can_allocate_at(batches, line, i)
}

/// Whether the batch at `i` is the one that allocation takes for `line`:
/// the line can be allocated to it, no batch that could take the line sorts
/// before it, and every such batch that stands earlier in the list sorts
/// after it. This is the first batch that can take the line once the
/// batches are sorted by preference, batches of equal preference staying in
/// the order of the list.
pub open spec fn is_preferred(batches: Seq<BatchView>, line: OrderLineView, i: int) -> bool {
    &&& can_allocate_at(batches, line, i)
    &&& forall|j: int| #[trigger]
        can_allocate_at(batches, line, j) ==> {
            &&& !batches[j].sorts_before(batches[i])
            &&& j < i ==> batches[i].sorts_before(batches[j])
        }
}

/// The place of the batch that allocation takes for `line`, where there is
/// one.
pub open spec fn preferred_index(batches: Seq<BatchView>, line: OrderLineView) -> int {
    choose|i: int| is_preferred(batches, line, i)
}

/// Allocation takes one batch at most.
pub proof fn lemma_preferred_is_unique(
    batches: Seq<BatchView>,
    line: OrderLineView,
    i: int,
    j: int,
)
    requires
        is_preferred(batches, line, i),
        is_preferred(batches, line, j),
    ensures
        i == j,
{
    assert(can_allocate_at(batches, line, i));
    assert(can_allocate_at(batches, line, j));
}

/// Whether `order` lists the places of `batches` sorted by preference, from
/// the most preferred on, with the places of batches of equal preference in
/// their own order: what a stable sort of the batches gives.
pub open spec fn is_stable_sort(batches: Seq<BatchView>, order: Seq<int>) -> bool {
    &&& order.len() == batches.len()
    &&& forall|k: int| 0 <= k < order.len() ==> 0 <= #[trigger] order[k] < batches.len()
    &&& forall|i: int| 0 <= i < batches.len() ==> #[trigger] order.contains(i)
    &&& forall|a: int, b: int|
        0 <= a < b < order.len() ==> {
            &&& !batches[#[trigger] order[b]].sorts_before(batches[#[trigger] order[a]])
            &&& !batches[order[a]].sorts_before(batches[order[b]]) ==> order[a] < order[b]
        }
}

/// To sort the batches by preference and to go through them until one can
/// take the line is to find the batch that allocation takes: the first
/// batch of the sorted list that can take the line is the preferred one.
pub proof fn lemma_first_in_sorted_order_is_preferred(
    batches: Seq<BatchView>,
    line: OrderLineView,
    order: Seq<int>,
    k: int,
)
    requires
        is_stable_sort(batches, order),
        0 <= k < order.len(),
        batches[order[k]].can_allocate(line),
        forall|a: int| 0 <= a < k ==> !batches[#[trigger] order[a]].can_allocate(line),
    ensures
        is_preferred(batches, line, order[k]),
{
    let i = order[k];
    assert forall|j: int| #[trigger] can_allocate_at(batches, line, j) implies {
        &&& !batches[j].sorts_before(batches[i])
        &&& j < i ==> batches[i].sorts_before(batches[j])
    } by {
        assert(order.contains(j));
        let m = choose|m: int| 0 <= m < order.len() && order[m] == j;
        if m < k {
            assert(!batches[order[m]].can_allocate(line));
        } else if m == k {
            match batches[i].eta {
                Some(date) => {
                    crate::date::lemma_dates_are_totally_ordered(date, date);
                },
                None => {},
            }
        }
    }
}

/// Where a batch can take the line, allocation takes one.
pub proof fn lemma_preferred_exists(batches: Seq<BatchView>, line: OrderLineView)
    requires
        any_can_allocate(batches, line),
    ensures
        is_preferred(batches, line, preferred_index(batches, line)),
{
    let some = choose|i: int| can_allocate_at(batches, line, i);
    let n = batches.len() as int;
    lemma_preferred_in_front(batches, line, n);
    let best = choose|b: int| is_preferred_in_front(batches, line, n, b);
    assert(is_preferred(batches, line, best));
}

/// Whether the batch at `b` is preferred among those before place `n` that
/// can take the line.
spec fn is_preferred_in_front(batches: Seq<BatchView>, line: OrderLineView, n: int, b: int) -> bool {
    &&& 0 <= b < n
    &&& can_allocate_at(batches, line, b)
    &&& forall|j: int|
        0 <= j < n && #[trigger] can_allocate_at(batches, line, j) ==> {
            &&& !batches[j].sorts_before(batches[b])
            &&& j < b ==> batches[b].sorts_before(batches[j])
        }
}

proof fn lemma_preferred_in_front(batches: Seq<BatchView>, line: OrderLineView, n: int)
    requires
        0 <= n <= batches.len(),
        exists|i: int| 0 <= i < n && can_allocate_at(batches, line, i),
    ensures
        exists|b: int| is_preferred_in_front(batches, line, n, b),
    decreases n,
{
    let last = n - 1;
    if exists|i: int| 0 <= i < last && can_allocate_at(batches, line, i) {
        lemma_preferred_in_front(batches, line, last);
        let b = choose|b: int| is_preferred_in_front(batches, line, last, b);
        if can_allocate_at(batches, line, last) && batches[last].sorts_before(batches[b]) {
            assert(is_preferred_in_front(batches, line, n, last));
        } else {
            assert(is_preferred_in_front(batches, line, n, b));
        }
    } else {
        let i = choose|i: int| 0 <= i < n && can_allocate_at(batches, line, i);
        assert(i == last);
        assert(is_preferred_in_front(batches, line, n, last));
    }
}

/// Allocates `line` to the batch that is preferred among those that can take
/// it, and returns the reference of that batch. Batches in stock are
/// preferred to shipments and earlier shipments to later ones; of batches
/// that arrive together the first in the list is taken. Where no batch can
/// take the line, nothing changes.
pub fn allocate(line: &OrderLine, batches: Vec<&mut Batch>) -> (result: Result<
    String,
    AllocationError,
>)
    ensures
        match result {
            Ok(reference) => {
                let chosen = preferred_index(views_of(batches@), line@);
                &&& is_preferred(views_of(batches@), line@, chosen)
                &&& reference@ == (*batches@[chosen])@.reference
                &&& (*final(batches@[chosen]))@ == (*batches@[chosen])@.allocate(line@)
                &&& forall|i: int|
                    0 <= i < batches@.len() && i != chosen ==> *final(#[trigger] batches@[i])
                        == *batches@[i]
            },
            Err(_) => {
                &&& !any_can_allocate(views_of(batches@), line@)
                &&& forall|i: int|
                    0 <= i < batches@.len() ==> *final(#[trigger] batches@[i]) == *batches@[i]
            },
        },
{
    let mut batches = batches;
    let ghost views = views_of(batches@);
    let mut best: Option<usize> = None;
    let mut i: usize = 0;
    while i < batches.len()
        invariant
            i <= batches@.len(),
            views == views_of(batches@),
            match best {
                Some(b) => {
                    &&& b < i
                    &&& can_allocate_at(views, line@, b as int)
                    &&& forall|j: int|
                        0 <= j < i && #[trigger] can_allocate_at(views, line@, j) ==> {
                            &&& !views[j].sorts_before(views[b as int])
                            &&& j < b ==> views[b as int].sorts_before(views[j])
                        }
                },
                None => forall|j: int| 0 <= j < i ==> !#[trigger] can_allocate_at(views, line@, j),
            },
        decreases batches@.len() - i,
    {
        if batches[i].can_allocate(line) {
            let better = match best {
                Some(b) => *batches[i] < *batches[b],
                None => true,
            };
            if better {
                best = Some(i);
            }
        }
        i += 1;
    }
    match best {
        Some(b) => {
            proof {
                lemma_preferred_is_unique(views, line@, b as int, preferred_index(views, line@));
            }
            let ghost before = batches@;
            batches[b].allocate(line);
            assert(forall|i: int|
                0 <= i < before.len() && i != b ==> #[trigger] before[i] == batches@[i]);
            Ok(batches[b].reference().to_owned())
        },
        None => Err(AllocationError),
    }
}

} // verus!
