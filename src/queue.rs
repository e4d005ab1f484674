//! The bounded FIFO queues of the driver, kept in `heapless::Deque`.
//!
//! Each entry is a pair of indices: a control block and a per-queue number
//! (a byte offset for the in-flight queue, an awaited tag for the pending one).
use vstd::prelude::*;

verus! {

/// Room in each queue.
pub const QUEUE_CAPACITY: usize = 8;

#[verifier::external_type_specification]
#[verifier::external_body]
#[verifier::reject_recursive_types(T)]
pub struct ExDeque<T, const N: usize>(heapless::Deque<T, N>);

/// The entries of a queue, front first.
pub uninterp spec fn deque_items(d: heapless::Deque<(usize, usize), 8>) -> Seq<(usize, usize)>;

/// Relies on heapless::Deque::new: the new deque is empty.
#[verifier::external_body]
pub(crate) fn deque_new() -> (r: heapless::Deque<(usize, usize), 8>)
    ensures
        deque_items(r).len() == 0,
{
    heapless::Deque::new()
}

/// Relies on heapless::Deque::len: the number of entries, at most the capacity.
#[verifier::external_body]
pub(crate) fn deque_len(d: &heapless::Deque<(usize, usize), 8>) -> (r: usize)
    ensures
        r == deque_items(*d).len(),
        r <= QUEUE_CAPACITY,
{
    d.len()
}

/// Relies on heapless::Deque::front: the front entry, `None` when empty.
#[verifier::external_body]
pub(crate) fn deque_front(d: &heapless::Deque<(usize, usize), 8>) -> (r: Option<(usize, usize)>)
    ensures
        deque_items(*d).len() == 0 ==> r is None,
        deque_items(*d).len() > 0 ==> r == Some(deque_items(*d)[0]),
{
    d.front().copied()
}

/// Relies on heapless::Deque::pop_front: removes and returns the front entry,
/// `None` when empty.
#[verifier::external_body]
pub(crate) fn deque_pop_front(d: &mut heapless::Deque<(usize, usize), 8>) -> (r: Option<(usize, usize)>)
    ensures
        deque_items(*old(d)).len() == 0 ==> r is None && deque_items(*final(d)) == deque_items(*old(d)),
        deque_items(*old(d)).len() > 0 ==> r == Some(deque_items(*old(d))[0])
            && deque_items(*final(d)) == deque_items(*old(d)).drop_first(),
{
    d.pop_front()
}

/// Relies on heapless::Deque::push_front: inserts at the front, or hands the
/// entry back when full.
#[verifier::external_body]
pub(crate) fn deque_push_front(d: &mut heapless::Deque<(usize, usize), 8>, item: (usize, usize)) -> (r: Result<(), (usize, usize)>)
    ensures
        deque_items(*old(d)).len() < QUEUE_CAPACITY ==> r is Ok
            && deque_items(*final(d)) == seq![item] + deque_items(*old(d)),
        deque_items(*old(d)).len() >= QUEUE_CAPACITY ==> r is Err && r->Err_0 == item
            && deque_items(*final(d)) == deque_items(*old(d)),
{
    d.push_front(item)
}

/// Relies on heapless::Deque::push_back: appends at the back, or hands the
/// entry back when full.
#[verifier::external_body]
pub(crate) fn deque_push_back(d: &mut heapless::Deque<(usize, usize), 8>, item: (usize, usize)) -> (r: Result<(), (usize, usize)>)
    ensures
        deque_items(*old(d)).len() < QUEUE_CAPACITY ==> r is Ok
            && deque_items(*final(d)) == deque_items(*old(d)).push(item),
        deque_items(*old(d)).len() >= QUEUE_CAPACITY ==> r is Err && r->Err_0 == item
            && deque_items(*final(d)) == deque_items(*old(d)),
{
    d.push_back(item)
}

} // verus!
