//! The non-blocking SPI master.
//!
//! Transactions wait in two bounded queues: the in-flight queue, whose front
//! entry is the one on the wire, and the pending queue of blocks that
//! userspace is still filling. The driver does not touch the hardware
//! itself: each step appends [`Command`]s that its caller carries out, and
//! the caller reports the DMA engine's byte counts back to [`Spim::end_send`].
use vstd::prelude::*;
use crate::dma::{Error, Frequency, frequency_for, spec_frequency_for};
use crate::future_box::{
    FutureBox,
    FutureBoxes,
    FutureBoxExHdl,
    FutureBoxPendHdl,
    Source,
    live,
    block,
    first_free,
    has_free,
    terminated,
    upgraded,
    upgrade_acquires,
    upgrade_fails,
    with_extra_ref,
    without_ref,
    COMPLETED,
    ERROR,
    INVALID,
    KERNEL_ACCESS,
    USERSPACE_ACCESS,
};
use crate::queue::{
    QUEUE_CAPACITY,
    deque_items,
    deque_front,
    deque_len,
    deque_new,
    deque_pop_front,
    deque_push_back,
    deque_push_front,
};

verus! {

/// A buffer to send to one chip, at one clock rate.
pub struct SendTransaction {
    pub data: Vec<u8>,
    pub csn: u8,
    pub speed_khz: u32,
}

/// A step for the caller to carry out on the hardware.
#[derive(PartialEq, Eq, Structural, Clone, Copy, Debug)]
pub enum Command {
    /// Set the clock to `frequency`, drive pin `csn` active, and start the
    /// DMA engine on block `block`'s buffer from byte `offset` to its end.
    Start { csn: u8, frequency: Frequency, block: usize, offset: usize },
    /// Drive pin `csn` inactive.
    Deselect { csn: u8 },
}

pub enum State {
    Idle,
    /// The front of the in-flight queue is on the wire.
    Transferring,
}

/// The control blocks, as a table.
pub type Blocks = Seq<Option<FutureBox<SendTransaction>>>;

/// Queue entries, front first: (block, byte offset) in flight, (block,
/// awaited tag) pending.
pub type Entries = Seq<(usize, usize)>;

/// Block `fb` is held exclusively and still has its payload.
pub open spec fn held(t: Blocks, fb: int) -> bool {
    live(t, fb) && block(t, fb).ex_taken && block(t, fb).payload is Some
}

pub open spec fn payload_of(t: Blocks, fb: int) -> SendTransaction {
    block(t, fb).payload->Some_0
}

/// `b` holds a fresh transaction of `count` zero bytes for chip `csn` at
/// `speed_khz`, held exclusively, with `status` and `refcnt` handles.
pub open spec fn is_send_block(b: FutureBox<SendTransaction>, csn: u8, speed_khz: u32, count: usize, status: u8, refcnt: u64) -> bool {
    &&& b.status == status
    &&& b.refcnt == refcnt
    &&& b.ex_taken
    &&& b.payload is Some
    &&& b.payload->Some_0.csn == csn
    &&& b.payload->Some_0.speed_khz == speed_khz
    &&& b.payload->Some_0.data@ == Seq::new(count as nat, |i: int| 0u8)
}

/// `t` after the exclusive holder of block `fb` ends it with `tag`.
pub open spec fn ended(t: Blocks, fb: int, tag: u8) -> Blocks {
    if live(t, fb) {
        t.update(fb, terminated(block(t, fb), tag))
    } else {
        t
    }
}

/// Promotes pending entries into the in-flight queue, front first, while
/// there is room: an upgraded one moves (its waiter's reference passing to
/// the new exclusive handle), a failed one is dropped, and the first one
/// that is not ready yet stops the walk.
pub open spec fn flushed(t: Blocks, inflight: Entries, pending: Entries) -> (Blocks, Entries, Entries)
    decreases pending.len(),
{
    if inflight.len() >= QUEUE_CAPACITY || pending.len() == 0 {
        (t, inflight, pending)
    } else {
        let fb = pending[0].0 as int;
        let aw = pending[0].1 as u8;
        let rest = pending.drop_first();
        if !live(t, fb) {
            flushed(t, inflight, rest)
        } else if upgrade_acquires(block(t, fb), aw) {
            flushed(t.update(fb, without_ref(upgraded(block(t, fb), aw))), inflight.push((pending[0].0, 0usize)), rest)
        } else if upgrade_fails(block(t, fb)) {
            flushed(t.update(fb, without_ref(block(t, fb))), inflight, rest)
        } else {
            (t, inflight, pending)
        }
    }
}

/// In-flight entry `e` can go on the wire: its block is held, bytes are
/// left, its pin exists and its clock rate is supported.
pub open spec fn startable(t: Blocks, e: (usize, usize), pins: usize) -> bool {
    &&& held(t, e.0 as int)
    &&& e.1 < payload_of(t, e.0 as int).data@.len()
    &&& (payload_of(t, e.0 as int).csn as usize) < pins
    &&& spec_frequency_for(payload_of(t, e.0 as int).speed_khz) is Some
}

pub open spec fn start_command(t: Blocks, e: (usize, usize)) -> Command {
    let p = payload_of(t, e.0 as int);
    Command::Start { csn: p.csn, frequency: spec_frequency_for(p.speed_khz)->Some_0, block: e.0, offset: e.1 }
}

/// The front entry's block is held and every byte of it is already sent.
pub open spec fn fully_sent(t: Blocks, e: (usize, usize)) -> bool {
    held(t, e.0 as int) && e.1 >= payload_of(t, e.0 as int).data@.len()
}

/// Starting the front entry, when idle: it goes on the wire and stays at the
/// front. Where all of it is already sent there is nothing to do; where it
/// cannot go (no such pin, too slow a clock, no held block), it is ended as
/// failed and removed.
pub open spec fn started(t: Blocks, inflight: Entries, transferring: bool, cmds: Seq<Command>, pins: usize) -> (Blocks, Entries, bool, Seq<Command>) {
    if transferring || inflight.len() == 0 || fully_sent(t, inflight[0]) {
        (t, inflight, transferring, cmds)
    } else if startable(t, inflight[0], pins) {
        (t, inflight, true, cmds.push(start_command(t, inflight[0])))
    } else {
        (ended(t, inflight[0].0 as int, ERROR), inflight.drop_first(), false, cmds)
    }
}

/// `start_send` on the given state: blocks, in-flight, pending,
/// transferring, commands.
pub open spec fn start_model(t: Blocks, inflight: Entries, pending: Entries, transferring: bool, cmds: Seq<Command>, pins: usize) -> (Blocks, Entries, Entries, bool, Seq<Command>) {
    let f = flushed(t, inflight, pending);
    let s = started(f.0, f.1, transferring, cmds, pins);
    (s.0, s.1, f.2, s.2, s.3)
}

/// Settling the front in-flight entry `e` after the engine reported `tx`
/// bytes sent: blocks, in-flight entries, commands, and whether the next
/// transfer is started.
pub open spec fn end_step(t: Blocks, e: (usize, usize), rest: Entries, cmds: Seq<Command>, tx: u32) -> (Blocks, Entries, Seq<Command>, bool) {
    if !held(t, e.0 as int) {
        (ended(t, e.0 as int, ERROR), rest, cmds, false)
    } else {
        let p = payload_of(t, e.0 as int);
        let left = p.data@.len() - e.1;
        let cmds1 = cmds.push(Command::Deselect { csn: p.csn });
        if left >= 0 && tx == left {
            (ended(t, e.0 as int, COMPLETED), rest, cmds1, true)
        } else if left >= 0 && tx < left {
            (t, seq![(e.0, (e.1 + tx) as usize)] + rest, cmds1, false)
        } else {
            (ended(t, e.0 as int, ERROR), rest, cmds1, false)
        }
    }
}

/// `end_send` on the given state, with the engine's report `poll`: blocks,
/// in-flight, pending, transferring, commands, and the result.
pub open spec fn end_model(t: Blocks, inflight: Entries, pending: Entries, transferring: bool, cmds: Seq<Command>, pins: usize, poll: Result<(u32, u32), Error>) -> (Blocks, Entries, Entries, bool, Seq<Command>, Result<(), Error>) {
    let f = flushed(t, inflight, pending);
    if !transferring || f.1.len() == 0 {
        (f.0, f.1, f.2, false, cmds, Ok(()))
    } else {
        match poll {
            Err(x) => (f.0, f.1, f.2, true, cmds, Err(x)),
            Ok(counts) => {
                let s = end_step(f.0, f.1[0], f.1.drop_first(), cmds, counts.0);
                if s.3 {
                    let m = start_model(s.0, s.1, f.2, false, s.2, pins);
                    (m.0, m.1, m.2, m.3, m.4, Ok(()))
                } else {
                    (s.0, s.1, f.2, false, s.2, Ok(()))
                }
            },
        }
    }
}

/// `count` zero bytes.
fn zeros(count: usize) -> (r: Vec<u8>)
    ensures
        r@ == Seq::new(count as nat, |i: int| 0u8),
{
    let mut v: Vec<u8> = Vec::new();
    let mut n: usize = 0;
    while n < count
        invariant
            n <= count,
            v@ == Seq::new(n as nat, |i: int| 0u8),
        decreases count - n,
    {
        v.push(0u8);
        n = n + 1;
        proof {
            assert(v@ =~= Seq::new(n as nat, |i: int| 0u8));
        }
    }
    v
}

/// Allocates a kernel-side transaction of `count` zero bytes for chip `csn`
/// at `speed_khz`; fails where no block is free.
pub fn new_send_fut(boxes: &mut FutureBoxes<SendTransaction>, csn: u8, speed_khz: u32, count: usize) -> (r: Result<FutureBoxExHdl, ()>)
    ensures
        r is Ok <==> has_free(old(boxes)@),
        r is Ok ==> {
            let fb = r->Ok_0@ as int;
            &&& first_free(old(boxes)@, fb)
            &&& live(final(boxes)@, fb)
            &&& final(boxes)@ == old(boxes)@.update(fb, final(boxes)@[fb])
            &&& is_send_block(block(final(boxes)@, fb), csn, speed_khz, count, KERNEL_ACCESS, 1)
        },
        r is Err ==> final(boxes)@ == old(boxes)@,
{
    let data = zeros(count);
    FutureBoxExHdl::new_exclusive(boxes, SendTransaction { data, csn, speed_khz }, Source::Kernel)
}

pub struct Spim {
    /// The control blocks of all transactions.
    pub boxes: FutureBoxes<SendTransaction>,
    /// The in-flight queue: (block, bytes already sent).
    pub vdq: heapless::Deque<(usize, usize), 8>,
    /// The pending queue: (block, awaited tag).
    pub waiting: heapless::Deque<(usize, usize), 8>,
    /// The number of chip-select pins.
    pub csn_count: usize,
    pub state: State,
}

impl Spim {
    pub open spec fn inflight(&self) -> Entries {
        deque_items(self.vdq)
    }

    pub open spec fn pending(&self) -> Entries {
        deque_items(self.waiting)
    }

    pub open spec fn transferring(&self) -> bool {
        self.state is Transferring
    }

    /// The number of chip-select pins.
    pub open spec fn pins(&self) -> usize {
        self.csn_count
    }

    pub open spec fn wf(&self) -> bool {
        self.inflight().len() <= QUEUE_CAPACITY && self.pending().len() <= QUEUE_CAPACITY
    }

    /// An idle driver with `csn_count` chip-select pins and room for
    /// `capacity` transactions.
    pub fn new(csn_count: usize, capacity: usize) -> (r: Spim)
        ensures
            r.wf(),
            r.boxes@.len() == capacity,
            forall|i: int| 0 <= i < capacity ==> #[trigger] r.boxes@[i] is None,
            r.inflight().len() == 0,
            r.pending().len() == 0,
            !r.transferring(),
            r.pins() == csn_count,
    {
        Spim {
            boxes: FutureBoxes::new(capacity),
            vdq: deque_new(),
            waiting: deque_new(),
            csn_count,
            state: State::Idle,
        }
    }

    pub fn is_transferring(&self) -> (r: bool)
        ensures
            r == self.transferring(),
    {
        match self.state {
            State::Idle => false,
            State::Transferring => true,
        }
    }

    pub fn pin_count(&self) -> (r: usize)
        ensures
            r == self.pins(),
    {
        self.csn_count
    }

    pub fn inflight_len(&self) -> (r: usize)
        ensures
            r == self.inflight().len(),
    {
        deque_len(&self.vdq)
    }

    pub fn pending_len(&self) -> (r: usize)
        ensures
            r == self.pending().len(),
    {
        deque_len(&self.waiting)
    }

    /// The buffer of the front in-flight transaction, which is the one on the
    /// wire while transferring; `None` where there is none or its block is
    /// not held.
    pub fn front_data(&self) -> (r: Option<&Vec<u8>>)
        ensures
            self.inflight().len() > 0 && held(self.boxes@, self.inflight()[0].0 as int) ==> r is Some
                && r->Some_0@ == payload_of(self.boxes@, self.inflight()[0].0 as int).data@,
            !(self.inflight().len() > 0 && held(self.boxes@, self.inflight()[0].0 as int)) ==> r is None,
    {
        match deque_front(&self.vdq) {
            Some(e) => match self.boxes.payload(&FutureBoxExHdl::for_block(e.0)) {
                Some(p) => Some(&p.data),
                None => None,
            },
            None => None,
        }
    }

    /// The front in-flight entry: its block and how many bytes of it were sent.
    pub fn front(&self) -> (r: Option<(usize, usize)>)
        ensures
            self.inflight().len() == 0 ==> r is None,
            self.inflight().len() > 0 ==> r == Some(self.inflight()[0]),
    {
        deque_front(&self.vdq)
    }
}


impl Spim {
    /// Moves pending transactions that the kernel can now take into the
    /// in-flight queue, in order, while it has room; one that is not ready
    /// stays at the front and stops the walk, one that failed is dropped.
    pub fn flush_waiting(&mut self)
        requires
            old(self).wf(),
        ensures
            final(self).wf(),
            (final(self).boxes@, final(self).inflight(), final(self).pending()) == flushed(
                old(self).boxes@,
                old(self).inflight(),
                old(self).pending(),
            ),
            final(self).state == old(self).state,
            final(self).csn_count == old(self).csn_count,
    {
        let mut go = true;
        while go
            invariant
                self.wf(),
                flushed(self.boxes@, self.inflight(), self.pending()) == flushed(
                    old(self).boxes@,
                    old(self).inflight(),
                    old(self).pending(),
                ),
                !go ==> flushed(self.boxes@, self.inflight(), self.pending()) == (self.boxes@, self.inflight(), self.pending()),
                self.state == old(self).state,
                self.csn_count == old(self).csn_count,
            decreases self.pending().len() + (if go { 1int } else { 0int }),
        {
            if deque_len(&self.vdq) >= QUEUE_CAPACITY {
                go = false;
            } else {
                let ghost t0 = self.boxes@;
                let ghost p0 = self.pending();
                match deque_pop_front(&mut self.waiting) {
                    None => {
                        go = false;
                    },
                    Some(entry) => {
                        let (fb, aw) = entry;
                        let pend = FutureBoxPendHdl::waiting_on(fb, aw as u8);
                        match pend.try_upgrade(&mut self.boxes) {
                            Ok(Some(ready)) => {
                                pend.release(&mut self.boxes);
                                proof {
                                    assert(self.boxes@ =~= t0.update(
                                        fb as int,
                                        without_ref(upgraded(block(t0, fb as int), aw as u8)),
                                    ));
                                }
                                let _ = deque_push_back(&mut self.vdq, (ready.fb(), 0));
                            },
                            Ok(None) => {
                                let _ = deque_push_front(&mut self.waiting, (fb, aw));
                                proof {
                                    assert(self.pending() =~= p0);
                                    assert(self.boxes@ =~= t0);
                                }
                                go = false;
                            },
                            Err(_) => {
                                proof {
                                    if live(t0, fb as int) {
                                        assert(self.boxes@ =~= t0);
                                    }
                                }
                                pend.release(&mut self.boxes);
                            },
                        }
                    },
                }
            }
        }
    }
    /// Runs `flush_waiting`, then, when idle, puts the front in-flight
    /// transaction on the wire: its `Start` command is appended and it keeps
    /// its place at the front. Where all of it is already sent, nothing is
    /// done. One that cannot go (no such pin, too slow a clock) is ended as
    /// failed and removed instead.
    pub fn start_send(&mut self, cmds: &mut Vec<Command>)
        requires
            old(self).wf(),
        ensures
            final(self).wf(),
            final(self).csn_count == old(self).csn_count,
            ({
                let m = start_model(
                    old(self).boxes@,
                    old(self).inflight(),
                    old(self).pending(),
                    old(self).transferring(),
                    old(cmds)@,
                    old(self).csn_count,
                );
                &&& final(self).boxes@ == m.0
                &&& final(self).inflight() == m.1
                &&& final(self).pending() == m.2
                &&& final(self).transferring() == m.3
                &&& final(cmds)@ == m.4
            }),
    {
        self.flush_waiting();
        match self.state {
            State::Idle => {},
            State::Transferring => {
                return;
            },
        }
        let ghost q0 = self.inflight();
        let (fb, off) = match deque_pop_front(&mut self.vdq) {
            Some(e) => e,
            None => {
                return;
            },
        };
        let h = FutureBoxExHdl::for_block(fb);
        let (start, sent_all) = match self.boxes.payload(&h) {
            Some(p) => {
                if off >= p.data.len() {
                    (None, true)
                } else if (p.csn as usize) < self.csn_count {
                    match frequency_for(p.speed_khz) {
                        Some(f) => (Some(Command::Start { csn: p.csn, frequency: f, block: fb, offset: off }), false),
                        None => (None, false),
                    }
                } else {
                    (None, false)
                }
            },
            None => (None, false),
        };
        if sent_all {
            let _ = deque_push_front(&mut self.vdq, (fb, off));
            proof {
                assert(self.inflight() =~= q0);
            }
            return;
        }
        match start {
            Some(c) => {
                cmds.push(c);
                let _ = deque_push_front(&mut self.vdq, (fb, off));
                proof {
                    assert(self.inflight() =~= q0);
                }
                self.state = State::Transferring;
            },
            None => {
                h.release_to_error(&mut self.boxes);
            },
        }
    }

    /// Queues a filled kernel-side transaction and returns a handle that
    /// watches it; the transfer starts at once when the driver is idle. The
    /// handle comes back untouched, with nothing changed, where it holds no
    /// transaction, its pin does not exist, its clock rate is below the
    /// slowest one supported, or the in-flight queue is full.
    pub fn send(&mut self, st: FutureBoxExHdl, cmds: &mut Vec<Command>) -> (r: Result<FutureBoxPendHdl, FutureBoxExHdl>)
        requires
            old(self).wf(),
        ensures
            final(self).wf(),
            final(self).csn_count == old(self).csn_count,
            ({
                let t = old(self).boxes@;
                let fb = st@ as int;
                let admitted = held(t, fb) && (payload_of(t, fb).csn as usize) < old(self).csn_count
                    && spec_frequency_for(payload_of(t, fb).speed_khz) is Some
                    && old(self).inflight().len() < QUEUE_CAPACITY;
                &&& !admitted ==> r is Err && r->Err_0 == st && *final(self) == *old(self) && final(cmds)@ == old(cmds)@
                &&& admitted ==> r is Ok && r->Ok_0@ == (st@, INVALID)
                &&& admitted && !old(self).transferring() ==> {
                    let m = start_model(
                        t.update(fb, Some(with_extra_ref(block(t, fb)))),
                        old(self).inflight().push((st@, 0usize)),
                        old(self).pending(),
                        false,
                        old(cmds)@,
                        old(self).csn_count,
                    );
                    &&& final(self).boxes@ == m.0
                    &&& final(self).inflight() == m.1
                    &&& final(self).pending() == m.2
                    &&& final(self).transferring() == m.3
                    &&& final(cmds)@ == m.4
                }
                &&& admitted && old(self).transferring() ==> {
                    &&& final(self).boxes@ == t.update(fb, Some(with_extra_ref(block(t, fb))))
                    &&& final(self).inflight() == old(self).inflight().push((st@, 0usize))
                    &&& final(self).pending() == old(self).pending()
                    &&& final(self).transferring()
                    &&& final(cmds)@ == old(cmds)@
                }
            }),
    {
        let pin_ok = match self.boxes.payload(&st) {
            Some(p) => (p.csn as usize) < self.csn_count && frequency_for(p.speed_khz).is_some(),
            None => false,
        };
        if !pin_ok {
            return Err(st);
        }
        if deque_len(&self.vdq) >= QUEUE_CAPACITY {
            return Err(st);
        }
        let mon = st.create_monitor(&mut self.boxes);
        let _ = deque_push_back(&mut self.vdq, (st.fb(), 0));
        match self.state {
            State::Idle => self.start_send(cmds),
            State::Transferring => {},
        }
        Ok(mon)
    }

    /// Allocates a userspace-side transaction of `count` zero bytes for chip
    /// `csn` at `speed_khz`, and queues a kernel waiter for it in the pending
    /// queue; the caller fills it and hands it to the kernel. `None`, with
    /// nothing changed, where the pending queue is full or no block is free.
    pub fn alloc_send(&mut self, csn: u8, speed_khz: u32, count: usize) -> (r: Option<FutureBoxExHdl>)
        requires
            old(self).wf(),
        ensures
            final(self).wf(),
            r is Some <==> old(self).pending().len() < QUEUE_CAPACITY && has_free(old(self).boxes@),
            r is None ==> final(self).boxes@ == old(self).boxes@ && final(self).pending() == old(self).pending(),
            r is Some ==> {
                let fb = r->Some_0@ as int;
                &&& first_free(old(self).boxes@, fb)
                &&& live(final(self).boxes@, fb)
                &&& final(self).boxes@ == old(self).boxes@.update(fb, final(self).boxes@[fb])
                &&& is_send_block(block(final(self).boxes@, fb), csn, speed_khz, count, USERSPACE_ACCESS, 2)
                &&& final(self).pending() == old(self).pending().push((r->Some_0@, KERNEL_ACCESS as usize))
            },
            final(self).inflight() == old(self).inflight(),
            final(self).state == old(self).state,
            final(self).csn_count == old(self).csn_count,
    {
        if deque_len(&self.waiting) >= QUEUE_CAPACITY {
            return None;
        }
        let data = zeros(count);
        let fut = match FutureBoxExHdl::new_exclusive(
            &mut self.boxes,
            SendTransaction { data, csn, speed_khz },
            Source::Userspace,
        ) {
            Ok(h) => h,
            Err(_) => {
                return None;
            },
        };
        let ours = fut.kernel_waiter(&mut self.boxes);
        let _ = deque_push_back(&mut self.waiting, (ours.fb(), ours.awaiting() as usize));
        Some(fut)
    }
    /// Handles one end-of-transfer event, with `poll`, what the DMA engine
    /// reported on it (the caller reads and clears the event flags first).
    /// After `flush_waiting` the driver is idle. Where it was transferring,
    /// the front transaction is settled: an engine error puts it back and
    /// is returned; a full send deselects its pin, completes it, and starts
    /// the next; a short one deselects its pin and records its progress at
    /// the front of the queue, and nothing starts until `start_send` is
    /// called again.
    pub fn end_send(&mut self, poll: Result<(u32, u32), Error>, cmds: &mut Vec<Command>) -> (r: Result<(), Error>)
        requires
            old(self).wf(),
        ensures
            final(self).wf(),
            final(self).csn_count == old(self).csn_count,
            ({
                let m = end_model(
                    old(self).boxes@,
                    old(self).inflight(),
                    old(self).pending(),
                    old(self).transferring(),
                    old(cmds)@,
                    old(self).csn_count,
                    poll,
                );
                &&& final(self).boxes@ == m.0
                &&& final(self).inflight() == m.1
                &&& final(self).pending() == m.2
                &&& final(self).transferring() == m.3
                &&& final(cmds)@ == m.4
                &&& r == m.5
            }),
    {
        self.flush_waiting();
        let was_transferring = match self.state {
            State::Idle => false,
            State::Transferring => true,
        };
        self.state = State::Idle;
        if !was_transferring {
            return Ok(());
        }
        let ghost q0 = self.inflight();
        let (fb, off) = match deque_pop_front(&mut self.vdq) {
            Some(e) => e,
            None => {
                return Ok(());
            },
        };
        let tx = match poll {
            Ok(counts) => counts.0,
            Err(e) => {
                let _ = deque_push_front(&mut self.vdq, (fb, off));
                proof {
                    assert(self.inflight() =~= q0);
                }
                self.state = State::Transferring;
                return Err(e);
            },
        };
        let h = FutureBoxExHdl::for_block(fb);
        let info = match self.boxes.payload(&h) {
            Some(p) => Some((p.csn, p.data.len())),
            None => None,
        };
        match info {
            None => {
                h.release_to_error(&mut self.boxes);
            },
            Some((csn, len)) => {
                cmds.push(Command::Deselect { csn });
                let sent = tx as usize;
                if off <= len && sent == len - off {
                    h.release_to_complete(&mut self.boxes);
                    self.start_send(cmds);
                } else if off <= len && sent < len - off {
                    let _ = deque_push_front(&mut self.vdq, (fb, off + sent));
                } else {
                    h.release_to_error(&mut self.boxes);
                }
            },
        }
        Ok(())
    }
}


/// Settling a transaction never loses it: when the engine reports every
/// remaining byte sent, its block is completed (a watcher still holding it
/// sees `COMPLETED`) and the next transfer is started; when it reports
/// fewer, the progress is recorded at the front of the in-flight queue and
/// nothing is started.
pub proof fn lemma_settle_keeps_transaction(t: Blocks, e: (usize, usize), rest: Entries, cmds: Seq<Command>, tx: u32)
    requires
        held(t, e.0 as int),
        e.1 + tx <= payload_of(t, e.0 as int).data@.len(),
    ensures
        ({
            let s = end_step(t, e, rest, cmds, tx);
            let left = payload_of(t, e.0 as int).data@.len() - e.1;
            &&& tx == left ==> s.3 && s.1 == rest && s.0 == ended(t, e.0 as int, COMPLETED)
            &&& tx == left && block(t, e.0 as int).refcnt >= 2 ==> live(s.0, e.0 as int)
                && block(s.0, e.0 as int).status == COMPLETED
            &&& tx < left ==> !s.3 && s.0 == t && s.1 == seq![(e.0, (e.1 + tx) as usize)] + rest
        }),
{
}

/// A short transfer pauses the driver: with nothing pending, the front
/// transaction's offset advances by what was sent, it stays at the front,
/// its pin is deselected, the driver goes idle, and no transfer starts.
pub proof fn lemma_short_transfer_pauses(t: Blocks, inflight: Entries, cmds: Seq<Command>, pins: usize, tx: u32, rx: u32)
    requires
        0 < inflight.len() <= QUEUE_CAPACITY,
        held(t, inflight[0].0 as int),
        inflight[0].1 + tx < payload_of(t, inflight[0].0 as int).data@.len(),
    ensures
        ({
            let m = end_model(t, inflight, Seq::empty(), true, cmds, pins, Ok((tx, rx)));
            let e = inflight[0];
            &&& m.0 == t
            &&& m.1 == seq![(e.0, (e.1 + tx) as usize)] + inflight.drop_first()
            &&& !m.3
            &&& m.4 == cmds.push(Command::Deselect { csn: payload_of(t, e.0 as int).csn })
            &&& m.5 is Ok
        }),
{
    assert(flushed(t, inflight, Seq::empty()) == (t, inflight, Seq::<(usize, usize)>::empty()));
}


/// Flushing loses no transaction: the in-flight queue keeps its entries, in
/// order, and only gains entries at offset 0, no more than it took from the
/// pending queue; what stays pending is the unvisited tail of that queue.
pub proof fn lemma_flush_keeps_entries(t: Blocks, inflight: Entries, pending: Entries)
    ensures
        ({
            let f = flushed(t, inflight, pending);
            &&& inflight.len() <= f.1.len()
            &&& f.1.subrange(0, inflight.len() as int) == inflight
            &&& (forall|j: int| inflight.len() <= j < f.1.len() ==> (#[trigger] f.1[j]).1 == 0)
            &&& f.2.len() <= pending.len()
            &&& f.1.len() - inflight.len() <= pending.len() - f.2.len()
            &&& f.2 == pending.subrange(pending.len() - f.2.len(), pending.len() as int)
        }),
    decreases pending.len(),
{
    if inflight.len() >= QUEUE_CAPACITY || pending.len() == 0 {
        assert(inflight.subrange(0, inflight.len() as int) =~= inflight);
        assert(pending.subrange(0, pending.len() as int) =~= pending);
    } else {
        let fb = pending[0].0 as int;
        let aw = pending[0].1 as u8;
        let rest = pending.drop_first();
        if !live(t, fb) {
            lemma_flush_keeps_entries(t, inflight, rest);
            let f = flushed(t, inflight, rest);
            assert(f.2 =~= pending.subrange(pending.len() - f.2.len(), pending.len() as int));
        } else if upgrade_acquires(block(t, fb), aw) {
            let t1 = t.update(fb, without_ref(upgraded(block(t, fb), aw)));
            let i1 = inflight.push((pending[0].0, 0usize));
            lemma_flush_keeps_entries(t1, i1, rest);
            let f = flushed(t1, i1, rest);
            assert(f.1.subrange(0, inflight.len() as int) =~= f.1.subrange(0, i1.len() as int).subrange(0, inflight.len() as int));
            assert(f.1.subrange(0, inflight.len() as int) =~= inflight);
            assert forall|j: int| inflight.len() <= j < f.1.len() implies (#[trigger] f.1[j]).1 == 0 by {
                if j == inflight.len() {
                    assert(f.1[j] == f.1.subrange(0, i1.len() as int)[j]);
                }
            }
            assert(f.2 =~= pending.subrange(pending.len() - f.2.len(), pending.len() as int));
        } else if upgrade_fails(block(t, fb)) {
            let t1 = t.update(fb, without_ref(block(t, fb)));
            lemma_flush_keeps_entries(t1, inflight, rest);
            let f = flushed(t1, inflight, rest);
            assert(f.2 =~= pending.subrange(pending.len() - f.2.len(), pending.len() as int));
        } else {
            assert(inflight.subrange(0, inflight.len() as int) =~= inflight);
            assert(pending.subrange(0, pending.len() as int) =~= pending);
        }
    }
}


/// Starting loses no transaction: after `start_send` the in-flight queue
/// begins with every entry it had, in order, and the pending queue keeps its
/// unvisited tail; the one exception is a front entry that cannot go on the
/// wire, which is removed only after being ended as failed, where its
/// watchers see it.
pub proof fn lemma_start_keeps_entries(t: Blocks, inflight: Entries, pending: Entries, transferring: bool, cmds: Seq<Command>, pins: usize)
    ensures
        ({
            let f = flushed(t, inflight, pending);
            let m = start_model(t, inflight, pending, transferring, cmds, pins);
            &&& inflight.len() <= f.1.len()
            &&& f.1.subrange(0, inflight.len() as int) == inflight
            &&& m.2 == f.2
            &&& f.2 == pending.subrange(pending.len() - f.2.len(), pending.len() as int)
            &&& (m.1 == f.1 && m.0 == f.0 || {
                &&& f.1.len() > 0
                &&& !startable(f.0, f.1[0], pins)
                &&& !fully_sent(f.0, f.1[0])
                &&& m.1 == f.1.drop_first()
                &&& m.0 == ended(f.0, f.1[0].0 as int, ERROR)
            })
        }),
{
    lemma_flush_keeps_entries(t, inflight, pending);
}


/// An end-of-transfer event loses no transaction. With the engine reporting
/// `tx` bytes for the front transaction (no more than it had left), either
/// every byte is out: it is completed (its watchers see `COMPLETED`) and the
/// next transfer starts, with every entry behind it kept in order but for a
/// front one that cannot go, which is ended as failed; or fewer are: its
/// progress is recorded at the front, everything else stays, and the driver
/// goes idle.
pub proof fn lemma_end_keeps_transactions(t: Blocks, inflight: Entries, pending: Entries, cmds: Seq<Command>, pins: usize, tx: u32, rx: u32)
    requires
        ({
            let f = flushed(t, inflight, pending);
            &&& f.1.len() > 0
            &&& held(f.0, f.1[0].0 as int)
            &&& f.1[0].1 + tx <= payload_of(f.0, f.1[0].0 as int).data@.len()
        }),
    ensures
        ({
            let f = flushed(t, inflight, pending);
            let e = f.1[0];
            let rest = f.1.drop_first();
            let left = payload_of(f.0, e.0 as int).data@.len() - e.1;
            let m = end_model(t, inflight, pending, true, cmds, pins, Ok((tx, rx)));
            let done = ended(f.0, e.0 as int, COMPLETED);
            let g = flushed(done, rest, f.2);
            &&& m.5 is Ok
            &&& tx == left && block(f.0, e.0 as int).refcnt >= 2 ==> live(done, e.0 as int)
                && block(done, e.0 as int).status == COMPLETED
            &&& tx == left ==> rest.len() <= g.1.len() && g.1.subrange(0, rest.len() as int) == rest
            &&& tx == left ==> (m.1 == g.1 || {
                &&& g.1.len() > 0
                &&& !startable(g.0, g.1[0], pins)
                &&& m.1 == g.1.drop_first()
                &&& m.0 == ended(g.0, g.1[0].0 as int, ERROR)
            })
            &&& tx < left ==> m.0 == f.0 && m.1 == seq![(e.0, (e.1 + tx) as usize)] + rest && m.2 == f.2 && !m.3
        }),
{
    let f = flushed(t, inflight, pending);
    let e = f.1[0];
    let rest = f.1.drop_first();
    let cmds1 = cmds.push(Command::Deselect { csn: payload_of(f.0, e.0 as int).csn });
    lemma_start_keeps_entries(ended(f.0, e.0 as int, COMPLETED), rest, f.2, false, cmds1, pins);
}

} // verus!
