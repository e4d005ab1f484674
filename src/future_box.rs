//! Ownership hand-off between two domains.
//!
//! A control block ([`FutureBox`]) records who may touch a payload next. The
//! blocks live in a fixed-size table ([`FutureBoxes`]); a handle names its
//! block by index. An exclusive handle ([`FutureBoxExHdl`]) may read and write
//! the payload; a pending handle ([`FutureBoxPendHdl`]) may only try to become
//! exclusive once the block's status reaches the tag it awaits.
use vstd::prelude::*;

verus! {

/// The kernel is working and should be allowed exclusive access.
pub const KERNEL_ACCESS: u8 = 0;

/// Userspace is working and should be allowed exclusive access.
pub const USERSPACE_ACCESS: u8 = 1;

/// The transaction finished; the payload is gone.
pub const COMPLETED: u8 = 2;

/// The transaction failed and will never complete; the payload is gone.
pub const ERROR: u8 = 3;

/// Awaited by a handle that only watches for completion or failure.
pub const INVALID: u8 = 4;

/// Which domain a new block is created for.
#[derive(PartialEq, Eq, Structural, Clone, Copy, Debug)]
pub enum Source {
    Kernel,
    Userspace,
}

impl Source {
    pub open spec fn spec_tag(self) -> u8 {
        match self {
            Source::Kernel => KERNEL_ACCESS,
            Source::Userspace => USERSPACE_ACCESS,
        }
    }

    pub fn tag(&self) -> (r: u8)
        ensures
            r == self.spec_tag(),
    {
        match self {
            Source::Kernel => KERNEL_ACCESS,
            Source::Userspace => USERSPACE_ACCESS,
        }
    }
}

/// One shared control block.
pub struct FutureBox<T> {
    pub status: u8,
    /// Number of live handles of either kind.
    pub refcnt: u64,
    /// Whether an exclusive handle currently exists.
    pub ex_taken: bool,
    pub payload: Option<T>,
}

/// Exclusive access to the payload of block `fb`. It is consumed by one of
/// the release operations; a holder that gives up without a proper release
/// ends the transaction with `release_to_error`.
#[derive(PartialEq, Eq, Structural, Debug)]
#[must_use]
pub struct FutureBoxExHdl {
    fb: usize,
}

/// Shared access to block `fb`, with no access to its payload.
#[derive(PartialEq, Eq, Structural, Debug)]
pub struct FutureBoxPendHdl {
    fb: usize,
    awaiting: u8,
}

impl View for FutureBoxExHdl {
    /// The block it holds.
    type V = usize;

    closed spec fn view(&self) -> usize {
        self.fb
    }
}

impl View for FutureBoxPendHdl {
    /// The block it watches and the tag it awaits.
    type V = (usize, u8);

    closed spec fn view(&self) -> (usize, u8) {
        (self.fb, self.awaiting)
    }
}

/// The table of control blocks; a free slot is `None`.
pub struct FutureBoxes<T> {
    slots: Vec<Option<FutureBox<T>>>,
}

pub open spec fn live<T>(t: Seq<Option<FutureBox<T>>>, i: int) -> bool {
    0 <= i < t.len() && t[i] is Some
}

pub open spec fn block<T>(t: Seq<Option<FutureBox<T>>>, i: int) -> FutureBox<T> {
    t[i]->Some_0
}

/// `i` is the lowest free slot of `t`.
pub open spec fn first_free<T>(t: Seq<Option<FutureBox<T>>>, i: int) -> bool {
    0 <= i < t.len() && t[i] is None && forall|j: int| 0 <= j < i ==> #[trigger] t[j] is Some
}

pub open spec fn has_free<T>(t: Seq<Option<FutureBox<T>>>) -> bool {
    exists|j: int| 0 <= j < t.len() && #[trigger] t[j] is None
}

pub open spec fn fresh<T>(payload: T, source: Source) -> FutureBox<T> {
    FutureBox { status: source.spec_tag(), refcnt: 1, ex_taken: true, payload: Some(payload) }
}

/// One more handle on `b` (the count saturates).
pub open spec fn with_extra_ref<T>(b: FutureBox<T>) -> FutureBox<T> {
    FutureBox {
        status: b.status,
        refcnt: if b.refcnt < u64::MAX { (b.refcnt + 1) as u64 } else { b.refcnt },
        ex_taken: b.ex_taken,
        payload: b.payload,
    }
}

/// One handle fewer on `b`; the block is freed when none is left.
pub open spec fn without_ref<T>(b: FutureBox<T>) -> Option<FutureBox<T>> {
    if b.refcnt <= 1 {
        None
    } else {
        Some(
            FutureBox {
                status: b.status,
                refcnt: (b.refcnt - 1) as u64,
                ex_taken: b.ex_taken,
                payload: b.payload,
            },
        )
    }
}

/// `b` after its exclusive holder hands it to the side that `tag` names.
pub open spec fn handed_over<T>(b: FutureBox<T>, tag: u8) -> FutureBox<T> {
    FutureBox { status: tag, refcnt: b.refcnt, ex_taken: false, payload: b.payload }
}

/// `b` after its exclusive holder ends it with terminal status `tag`.
pub open spec fn terminated<T>(b: FutureBox<T>, tag: u8) -> Option<FutureBox<T>> {
    without_ref(FutureBox { status: tag, refcnt: b.refcnt, ex_taken: false, payload: None })
}

/// An upgrade awaiting `awaiting` on `b` yields an exclusive handle.
pub open spec fn upgrade_acquires<T>(b: FutureBox<T>, awaiting: u8) -> bool {
    !b.ex_taken && b.status != ERROR && b.status == awaiting
}

/// An upgrade on `b` reports a permanent failure.
pub open spec fn upgrade_fails<T>(b: FutureBox<T>) -> bool {
    !b.ex_taken && b.status == ERROR
}

/// `b` after an upgrade attempt awaiting `awaiting`.
pub open spec fn upgraded<T>(b: FutureBox<T>, awaiting: u8) -> FutureBox<T> {
    if upgrade_acquires(b, awaiting) {
        let c = with_extra_ref(b);
        FutureBox { status: c.status, refcnt: c.refcnt, ex_taken: true, payload: c.payload }
    } else {
        b
    }
}

impl<T> View for FutureBoxes<T> {
    type V = Seq<Option<FutureBox<T>>>;

    closed spec fn view(&self) -> Seq<Option<FutureBox<T>>> {
        self.slots@
    }
}

impl<T> FutureBoxes<T> {
    /// A table with room for `capacity` blocks, all free.
    pub fn new(capacity: usize) -> (r: FutureBoxes<T>)
        ensures
            r@.len() == capacity,
            forall|i: int| 0 <= i < capacity ==> #[trigger] r@[i] is None,
    {
        let mut slots: Vec<Option<FutureBox<T>>> = Vec::new();
        let mut n: usize = 0;
        while n < capacity
            invariant
                n <= capacity,
                slots@.len() == n,
                forall|i: int| 0 <= i < n ==> #[trigger] slots@[i] is None,
            decreases capacity - n,
        {
            slots.push(None);
            n = n + 1;
        }
        FutureBoxes { slots }
    }

    pub fn capacity(&self) -> (r: usize)
        ensures
            r == self@.len(),
    {
        self.slots.len()
    }

    /// Whether slot `i` holds a block.
    pub fn is_live(&self, i: usize) -> (r: bool)
        ensures
            r == live(self@, i as int),
    {
        i < self.slots.len() && self.slots[i].is_some()
    }

    /// The status of block `i`, if it is live.
    pub fn status_of(&self, i: usize) -> (r: Option<u8>)
        ensures
            live(self@, i as int) ==> r == Some(block(self@, i as int).status),
            !live(self@, i as int) ==> r is None,
    {
        if i < self.slots.len() {
            match &self.slots[i] {
                Some(b) => Some(b.status),
                None => None,
            }
        } else {
            None
        }
    }

    /// The payload that `h` gives access to: block `h.fb` must be live and
    /// held exclusively.
    pub fn payload(&self, h: &FutureBoxExHdl) -> (r: Option<&T>)
        ensures
            r is Some <==> (live(self@, h@ as int) && block(self@, h@ as int).ex_taken
                && block(self@, h@ as int).payload is Some),
            r is Some ==> *r->Some_0 == block(self@, h@ as int).payload->Some_0,
    {
        if h.fb < self.slots.len() {
            match &self.slots[h.fb] {
                Some(b) => {
                    if b.ex_taken {
                        match &b.payload {
                            Some(p) => Some(p),
                            None => None,
                        }
                    } else {
                        None
                    }
                },
                None => None,
            }
        } else {
            None
        }
    }

    /// Takes block `i` out of the table, leaving the slot free.
    fn take(&mut self, i: usize) -> (r: Option<FutureBox<T>>)
        requires
            i < old(self)@.len(),
        ensures
            r == old(self)@[i as int],
            final(self)@ == old(self)@.update(i as int, None),
    {
        let mut cur: Option<FutureBox<T>> = None;
        core::mem::swap(&mut self.slots[i], &mut cur);
        cur
    }

    fn put(&mut self, i: usize, b: Option<FutureBox<T>>)
        requires
            i < old(self)@.len(),
        ensures
            final(self)@ == old(self)@.update(i as int, b),
    {
        self.slots[i] = b;
    }

    /// Replaces the payload that `h` gives access to; false, with nothing
    /// changed, where `h` holds no access.
    pub fn set_payload(&mut self, h: &FutureBoxExHdl, value: T) -> (r: bool)
        ensures
            r == (live(old(self)@, h@ as int) && block(old(self)@, h@ as int).ex_taken),
            r ==> final(self)@ == old(self)@.update(
                h@ as int,
                Some(
                    (FutureBox {
                        status: block(old(self)@, h@ as int).status,
                        refcnt: block(old(self)@, h@ as int).refcnt,
                        ex_taken: true,
                        payload: Some(value),
                    }),
                ),
            ),
            !r ==> final(self)@ == old(self)@,
    {
        if h.fb >= self.slots.len() {
            return false;
        }
        match self.take(h.fb) {
            Some(b) => {
                if b.ex_taken {
                    let nb = FutureBox {
                        status: b.status,
                        refcnt: b.refcnt,
                        ex_taken: true,
                        payload: Some(value),
                    };
                    self.put(h.fb, Some(nb));
                    true
                } else {
                    self.put(h.fb, Some(b));
                    proof {
                        assert(self@ =~= old(self)@);
                    }
                    false
                }
            },
            None => {
                self.put(h.fb, None);
                proof {
                    assert(self@ =~= old(self)@);
                }
                false
            },
        }
    }
}

impl FutureBoxExHdl {
    /// A handle on block `fb`, for the driver that keeps it in a queue.
    pub(crate) fn for_block(fb: usize) -> (r: FutureBoxExHdl)
        ensures
            r@ == fb,
    {
        FutureBoxExHdl { fb }
    }

    /// The block this handle holds.
    pub fn fb(&self) -> (r: usize)
        ensures
            r == self@,
    {
        self.fb
    }

    /// Allocates a block for `payload` on behalf of `source`: exclusively
    /// held, one handle, status the source's access tag. The lowest free slot
    /// is taken; with none free the allocation fails.
    pub fn new_exclusive<T>(boxes: &mut FutureBoxes<T>, payload: T, source: Source) -> (r: Result<FutureBoxExHdl, ()>)
        ensures
            r is Ok <==> has_free(old(boxes)@),
            r is Ok ==> first_free(old(boxes)@, r->Ok_0@ as int) && final(boxes)@ == old(boxes)@.update(
                r->Ok_0@ as int,
                Some(fresh(payload, source)),
            ),
            r is Err ==> final(boxes)@ == old(boxes)@,
    {
        let n = boxes.slots.len();
        let mut i: usize = 0;
        while i < n
            invariant
                n == boxes@.len(),
                boxes@ == old(boxes)@,
                i <= n,
                forall|j: int| 0 <= j < i ==> #[trigger] boxes@[j] is Some,
            decreases n - i,
        {
            if boxes.slots[i].is_none() {
                let tag = source.tag();
                boxes.put(i, Some(FutureBox { status: tag, refcnt: 1, ex_taken: true, payload: Some(payload) }));
                return Ok(FutureBoxExHdl { fb: i });
            }
            i = i + 1;
        }
        Err(())
    }

    /// A pending handle on the same block, awaiting `awaiting`; the block
    /// gains one handle.
    fn add_waiter<T>(&self, boxes: &mut FutureBoxes<T>, awaiting: u8) -> (r: FutureBoxPendHdl)
        ensures
            r@ == (self@, awaiting),
            live(old(boxes)@, self@ as int) ==> final(boxes)@ == old(boxes)@.update(
                self@ as int,
                Some(with_extra_ref(block(old(boxes)@, self@ as int))),
            ),
            !live(old(boxes)@, self@ as int) ==> final(boxes)@ == old(boxes)@,
    {
        if self.fb < boxes.slots.len() {
            match boxes.take(self.fb) {
                Some(b) => {
                    let refcnt = if b.refcnt < u64::MAX { b.refcnt + 1 } else { b.refcnt };
                    boxes.put(self.fb, Some(FutureBox { status: b.status, refcnt, ex_taken: b.ex_taken, payload: b.payload }));
                },
                None => {
                    boxes.put(self.fb, None);
                    proof { assert(boxes@ =~= old(boxes)@); }
                },
            }
        }
        FutureBoxPendHdl { fb: self.fb, awaiting }
    }

    /// A pending handle that watches the block for completion or failure,
    /// while this handle keeps exclusive access.
    pub fn create_monitor<T>(&self, boxes: &mut FutureBoxes<T>) -> (r: FutureBoxPendHdl)
        ensures
            r@ == (self@, INVALID),
            live(old(boxes)@, self@ as int) ==> final(boxes)@ == old(boxes)@.update(
                self@ as int,
                Some(with_extra_ref(block(old(boxes)@, self@ as int))),
            ),
            !live(old(boxes)@, self@ as int) ==> final(boxes)@ == old(boxes)@,
    {
        self.add_waiter(boxes, INVALID)
    }

    /// A pending handle that waits for the block to be handed to the kernel.
    pub fn kernel_waiter<T>(&self, boxes: &mut FutureBoxes<T>) -> (r: FutureBoxPendHdl)
        ensures
            r@ == (self@, KERNEL_ACCESS),
            live(old(boxes)@, self@ as int) ==> final(boxes)@ == old(boxes)@.update(
                self@ as int,
                Some(with_extra_ref(block(old(boxes)@, self@ as int))),
            ),
            !live(old(boxes)@, self@ as int) ==> final(boxes)@ == old(boxes)@,
    {
        self.add_waiter(boxes, KERNEL_ACCESS)
    }

    /// Turns this handle into one that watches for completion or failure.
    /// The block is not touched: the caller has already given up exclusivity.
    pub fn convert_to_monitor(self) -> (r: FutureBoxPendHdl)
        ensures
            r@ == (self@, INVALID),
    {
        FutureBoxPendHdl { fb: self.fb, awaiting: INVALID }
    }

    fn hand_over<T>(self, boxes: &mut FutureBoxes<T>, tag: u8) -> (r: FutureBoxPendHdl)
        ensures
            r@ == (self@, INVALID),
            live(old(boxes)@, self@ as int) ==> final(boxes)@ == old(boxes)@.update(
                self@ as int,
                Some(handed_over(block(old(boxes)@, self@ as int), tag)),
            ),
            !live(old(boxes)@, self@ as int) ==> final(boxes)@ == old(boxes)@,
    {
        if self.fb < boxes.slots.len() {
            match boxes.take(self.fb) {
                Some(b) => {
                    boxes.put(self.fb, Some(FutureBox { status: tag, refcnt: b.refcnt, ex_taken: false, payload: b.payload }));
                },
                None => {
                    boxes.put(self.fb, None);
                    proof { assert(boxes@ =~= old(boxes)@); }
                },
            }
        }
        self.convert_to_monitor()
    }

    fn finish<T>(self, boxes: &mut FutureBoxes<T>, tag: u8)
        ensures
            live(old(boxes)@, self@ as int) ==> final(boxes)@ == old(boxes)@.update(
                self@ as int,
                terminated(block(old(boxes)@, self@ as int), tag),
            ),
            !live(old(boxes)@, self@ as int) ==> final(boxes)@ == old(boxes)@,
    {
        if self.fb < boxes.slots.len() {
            match boxes.take(self.fb) {
                Some(b) => {
                    if b.refcnt <= 1 {
                        boxes.put(self.fb, None);
                    } else {
                        boxes.put(self.fb, Some(FutureBox { status: tag, refcnt: b.refcnt - 1, ex_taken: false, payload: None }));
                    }
                },
                None => {
                    boxes.put(self.fb, None);
                    proof { assert(boxes@ =~= old(boxes)@); }
                },
            }
        }
    }

    /// Hands the block to userspace and gives up exclusive access; what is
    /// left is a handle that watches for completion or failure.
    pub fn release_to_userspace<T>(self, boxes: &mut FutureBoxes<T>) -> (r: FutureBoxPendHdl)
        ensures
            r@ == (self@, INVALID),
            live(old(boxes)@, self@ as int) ==> final(boxes)@ == old(boxes)@.update(
                self@ as int,
                Some(handed_over(block(old(boxes)@, self@ as int), USERSPACE_ACCESS)),
            ),
            !live(old(boxes)@, self@ as int) ==> final(boxes)@ == old(boxes)@,
    {
        self.hand_over(boxes, USERSPACE_ACCESS)
    }

    /// Hands the block to the kernel and gives up exclusive access; what is
    /// left is a handle that watches for completion or failure.
    pub fn release_to_kernel<T>(self, boxes: &mut FutureBoxes<T>) -> (r: FutureBoxPendHdl)
        ensures
            r@ == (self@, INVALID),
            live(old(boxes)@, self@ as int) ==> final(boxes)@ == old(boxes)@.update(
                self@ as int,
                Some(handed_over(block(old(boxes)@, self@ as int), KERNEL_ACCESS)),
            ),
            !live(old(boxes)@, self@ as int) ==> final(boxes)@ == old(boxes)@,
    {
        self.hand_over(boxes, KERNEL_ACCESS)
    }

    /// Ends the transaction as failed: the payload is dropped, exclusivity
    /// given up, and this handle's reference released.
    pub fn release_to_error<T>(self, boxes: &mut FutureBoxes<T>)
        ensures
            live(old(boxes)@, self@ as int) ==> final(boxes)@ == old(boxes)@.update(
                self@ as int,
                terminated(block(old(boxes)@, self@ as int), ERROR),
            ),
            !live(old(boxes)@, self@ as int) ==> final(boxes)@ == old(boxes)@,
    {
        self.finish(boxes, ERROR)
    }

    /// Ends the transaction as completed: the payload is dropped, exclusivity
    /// given up, and this handle's reference released.
    pub fn release_to_complete<T>(self, boxes: &mut FutureBoxes<T>)
        ensures
            live(old(boxes)@, self@ as int) ==> final(boxes)@ == old(boxes)@.update(
                self@ as int,
                terminated(block(old(boxes)@, self@ as int), COMPLETED),
            ),
            !live(old(boxes)@, self@ as int) ==> final(boxes)@ == old(boxes)@,
    {
        self.finish(boxes, COMPLETED)
    }
}

impl FutureBoxPendHdl {
    /// A waiter on block `fb` awaiting `awaiting`, for the driver that keeps
    /// it in a queue.
    pub(crate) fn waiting_on(fb: usize, awaiting: u8) -> (r: FutureBoxPendHdl)
        ensures
            r@ == (fb, awaiting),
    {
        FutureBoxPendHdl { fb, awaiting }
    }

    /// The block this handle watches.
    pub fn fb(&self) -> (r: usize)
        ensures
            r == self@.0,
    {
        self.fb
    }

    /// The status this handle waits for.
    pub fn awaiting(&self) -> (r: u8)
        ensures
            r == self@.1,
    {
        self.awaiting
    }

    /// `Ok(true)` once the block completed, `Err` once it failed or where it
    /// is gone, `Ok(false)` otherwise.
    pub fn is_complete<T>(&self, boxes: &FutureBoxes<T>) -> (r: Result<bool, ()>)
        ensures
            !live(boxes@, self@.0 as int) ==> r is Err,
            live(boxes@, self@.0 as int) ==> {
                let s = block(boxes@, self@.0 as int).status;
                &&& (s == COMPLETED ==> r == Ok::<bool, ()>(true))
                &&& (s == ERROR ==> r is Err)
                &&& (s != COMPLETED && s != ERROR ==> r == Ok::<bool, ()>(false))
            },
    {
        match boxes.status_of(self.fb) {
            Some(s) => {
                if s == COMPLETED {
                    Ok(true)
                } else if s == ERROR {
                    Err(())
                } else {
                    Ok(false)
                }
            },
            None => Err(()),
        }
    }

    /// Tries to take exclusive access without waiting. `Ok(None)`: not yet
    /// (someone holds it, or the status is not the awaited one). `Err`: the
    /// block failed or is gone, for good. `Ok(Some(h))`: `h` is the one
    /// exclusive handle, and the block gains one handle.
    pub fn try_upgrade<T>(&self, boxes: &mut FutureBoxes<T>) -> (r: Result<Option<FutureBoxExHdl>, ()>)
        ensures
            !live(old(boxes)@, self@.0 as int) ==> r is Err && final(boxes)@ == old(boxes)@,
            live(old(boxes)@, self@.0 as int) ==> {
                let b = block(old(boxes)@, self@.0 as int);
                &&& final(boxes)@ == old(boxes)@.update(self@.0 as int, Some(upgraded(b, self@.1)))
                &&& (upgrade_acquires(b, self@.1) ==> r is Ok && r->Ok_0 is Some && r->Ok_0->Some_0@ == self@.0)
                &&& (upgrade_fails(b) ==> r is Err)
                &&& (!upgrade_acquires(b, self@.1) && !upgrade_fails(b) ==> r is Ok && r->Ok_0 is None)
            },
    {
        if self.fb >= boxes.slots.len() {
            return Err(());
        }
        match boxes.take(self.fb) {
            Some(b) => {
                if b.ex_taken {
                    boxes.put(self.fb, Some(b));
                    proof { assert(boxes@ =~= old(boxes)@.update(self@.0 as int, Some(upgraded(b, self@.1)))); }
                    Ok(None)
                } else if b.status == ERROR {
                    boxes.put(self.fb, Some(b));
                    proof { assert(boxes@ =~= old(boxes)@.update(self@.0 as int, Some(upgraded(b, self@.1)))); }
                    Err(())
                } else if b.status == self.awaiting {
                    let refcnt = if b.refcnt < u64::MAX { b.refcnt + 1 } else { b.refcnt };
                    boxes.put(self.fb, Some(FutureBox { status: b.status, refcnt, ex_taken: true, payload: b.payload }));
                    Ok(Some(FutureBoxExHdl { fb: self.fb }))
                } else {
                    boxes.put(self.fb, Some(b));
                    proof { assert(boxes@ =~= old(boxes)@.update(self@.0 as int, Some(upgraded(b, self@.1)))); }
                    Ok(None)
                }
            },
            None => {
                boxes.put(self.fb, None);
                proof { assert(boxes@ =~= old(boxes)@); }
                Err(())
            },
        }
    }

    /// Gives up this handle; the block is freed when no handle is left.
    pub fn release<T>(self, boxes: &mut FutureBoxes<T>)
        ensures
            live(old(boxes)@, self@.0 as int) ==> final(boxes)@ == old(boxes)@.update(
                self@.0 as int,
                without_ref(block(old(boxes)@, self@.0 as int)),
            ),
            !live(old(boxes)@, self@.0 as int) ==> final(boxes)@ == old(boxes)@,
    {
        if self.fb < boxes.slots.len() {
            match boxes.take(self.fb) {
                Some(b) => {
                    if b.refcnt <= 1 {
                        boxes.put(self.fb, None);
                    } else {
                        boxes.put(self.fb, Some(FutureBox { status: b.status, refcnt: b.refcnt - 1, ex_taken: b.ex_taken, payload: b.payload }));
                    }
                },
                None => {
                    boxes.put(self.fb, None);
                    proof { assert(boxes@ =~= old(boxes)@); }
                },
            }
        }
    }
}


/// While one upgrade holds a block exclusively, no other upgrade of it,
/// whatever status it awaits, takes it or changes it: at most one exclusive
/// handle exists per block.
pub proof fn lemma_one_exclusive_at_a_time<T>(b: FutureBox<T>, first: u8, second: u8)
    requires
        upgrade_acquires(b, first),
    ensures
        upgraded(b, first).ex_taken,
        !upgrade_acquires(upgraded(b, first), second),
        !upgrade_fails(upgraded(b, first)),
        upgraded(upgraded(b, first), second) == upgraded(b, first),
{
}

/// A handle awaiting `awaiting` never takes a block whose status is another,
/// non-failed one; such an attempt leaves the block as it was.
pub proof fn lemma_upgrade_only_on_awaited<T>(b: FutureBox<T>, awaiting: u8)
    requires
        b.status != awaiting,
        b.status != ERROR,
    ensures
        !upgrade_acquires(b, awaiting),
        !upgrade_fails(b),
        upgraded(b, awaiting) == b,
{
}

/// Handing a block over clears exclusivity; exactly one upgrade awaiting the
/// new owner's tag then succeeds, and any upgrade after it does not.
pub proof fn lemma_release_enables_one_upgrade<T>(b: FutureBox<T>, tag: u8, second: u8)
    requires
        tag == KERNEL_ACCESS || tag == USERSPACE_ACCESS,
    ensures
        !handed_over(b, tag).ex_taken,
        upgrade_acquires(handed_over(b, tag), tag),
        !upgrade_acquires(upgraded(handed_over(b, tag), tag), second),
{
}

/// Ending a block, as completed or as failed, clears exclusivity and drops
/// the payload of whatever block is left.
pub proof fn lemma_terminal_release_clears_exclusive<T>(b: FutureBox<T>, tag: u8)
    ensures
        terminated(b, tag) is Some ==> !terminated(b, tag)->Some_0.ex_taken,
        terminated(b, tag) is Some ==> terminated(b, tag)->Some_0.payload is None,
        terminated(b, tag) is Some ==> terminated(b, tag)->Some_0.status == tag,
{
}


/// Upgrade attempts run one after another on `b`, awaiting `aws` in turn:
/// the block after them, and how many of them took exclusive access.
pub open spec fn upgrade_run<T>(b: FutureBox<T>, aws: Seq<u8>) -> (FutureBox<T>, nat)
    decreases aws.len(),
{
    if aws.len() == 0 {
        (b, 0)
    } else {
        let r = upgrade_run(upgraded(b, aws[0]), aws.drop_first());
        (r.0, r.1 + if upgrade_acquires(b, aws[0]) { 1nat } else { 0nat })
    }
}

/// While a block is held exclusively, no attempt of any number takes it or
/// changes it.
pub proof fn lemma_held_block_resists_upgrades<T>(b: FutureBox<T>, aws: Seq<u8>)
    requires
        b.ex_taken,
    ensures
        upgrade_run(b, aws) == (b, 0nat),
    decreases aws.len(),
{
    if aws.len() > 0 {
        lemma_held_block_resists_upgrades(b, aws.drop_first());
    }
}

/// After a hand-over, of any number of attempts that all await the new
/// owner's tag, with no release between them, exactly one succeeds.
pub proof fn lemma_release_enables_exactly_one_upgrade<T>(b: FutureBox<T>, tag: u8, aws: Seq<u8>)
    requires
        tag == KERNEL_ACCESS || tag == USERSPACE_ACCESS,
        aws.len() > 0,
        forall|i: int| 0 <= i < aws.len() ==> #[trigger] aws[i] == tag,
    ensures
        upgrade_run(handed_over(b, tag), aws).1 == 1,
{
    let h = handed_over(b, tag);
    assert(upgrade_acquires(h, aws[0]));
    lemma_held_block_resists_upgrades(upgraded(h, aws[0]), aws.drop_first());
}

} // verus!
