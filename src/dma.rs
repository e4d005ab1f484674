//! What the DMA engine is asked to do: clock banding, buffer placement, and
//! how blocking transfers are cut into engine-sized pieces.
use vstd::prelude::*;

verus! {

/// Largest transaction the EasyDMA engine of the nRF52840 moves at once.
pub const EASY_DMA_SIZE: usize = 65535;

/// Start of the data RAM that the DMA engine can read.
pub const SRAM_LOWER: usize = 0x2000_0000;

/// End of that data RAM.
pub const SRAM_UPPER: usize = 0x3000_0000;

/// The clock rates that the peripheral offers.
#[derive(PartialEq, Eq, Structural, Clone, Copy, Debug)]
pub enum Frequency {
    K125,
    K250,
    K500,
    M1,
    M2,
    M4,
    M8,
    M16,
    M32,
}

#[derive(PartialEq, Eq, Structural, Clone, Copy, Debug)]
pub enum Error {
    TxBufferTooLong,
    RxBufferTooLong,
    /// The DMA engine reads only from data RAM; a buffer in flash fails.
    DMABufferNotInDataMemory,
    Transmit,
    Receive,
    NotDone,
}

/// The rate used for a request of `khz`: the fastest one not above it,
/// none below the slowest.
pub open spec fn spec_frequency_for(khz: u32) -> Option<Frequency> {
    if khz < 125 {
        None
    } else if khz < 250 {
        Some(Frequency::K125)
    } else if khz < 500 {
        Some(Frequency::K250)
    } else if khz < 1000 {
        Some(Frequency::K500)
    } else if khz < 2000 {
        Some(Frequency::M1)
    } else if khz < 4000 {
        Some(Frequency::M2)
    } else if khz < 8000 {
        Some(Frequency::M4)
    } else if khz < 16000 {
        Some(Frequency::M8)
    } else if khz < 32000 {
        Some(Frequency::M16)
    } else {
        Some(Frequency::M32)
    }
}

pub fn frequency_for(khz: u32) -> (r: Option<Frequency>)
    ensures
        r == spec_frequency_for(khz),
{
    if khz < 125 {
        None
    } else if khz < 250 {
        Some(Frequency::K125)
    } else if khz < 500 {
        Some(Frequency::K250)
    } else if khz < 1000 {
        Some(Frequency::K500)
    } else if khz < 2000 {
        Some(Frequency::M1)
    } else if khz < 4000 {
        Some(Frequency::M2)
    } else if khz < 8000 {
        Some(Frequency::M4)
    } else if khz < 16000 {
        Some(Frequency::M8)
    } else if khz < 32000 {
        Some(Frequency::M16)
    } else {
        Some(Frequency::M32)
    }
}

/// Whether `len` bytes at address `addr` lie within data RAM.
pub open spec fn spec_slice_in_ram(addr: usize, len: usize) -> bool {
    SRAM_LOWER <= addr && addr + len < SRAM_UPPER
}

pub fn slice_in_ram(addr: usize, len: usize) -> (r: bool)
    ensures
        r == spec_slice_in_ram(addr, len),
{
    addr >= SRAM_LOWER && addr < SRAM_UPPER && len < SRAM_UPPER - addr
}

/// `Err(err)` where the buffer is not in data RAM.
pub fn slice_in_ram_or<T>(addr: usize, len: usize, err: T) -> (r: Result<(), T>)
    ensures
        spec_slice_in_ram(addr, len) ==> r is Ok,
        !spec_slice_in_ram(addr, len) ==> r is Err && r->Err_0 == err,
{
    if slice_in_ram(addr, len) {
        Ok(())
    } else {
        Err(err)
    }
}

/// A buffer as the DMA engine sees it: a 32-bit address and a length.
#[derive(PartialEq, Eq, Structural, Clone, Copy, Debug)]
pub struct DmaSlice {
    pub ptr: u32,
    pub len: u32,
}

impl DmaSlice {
    /// The empty buffer.
    pub fn null() -> (r: DmaSlice)
        ensures
            r == (DmaSlice { ptr: 0, len: 0 }),
    {
        DmaSlice { ptr: 0, len: 0 }
    }

    /// The buffer of `len` bytes at `addr`, cut to 32 bits.
    pub fn from_slice(addr: usize, len: usize) -> (r: DmaSlice)
        ensures
            r == (DmaSlice { ptr: addr as u32, len: len as u32 }),
    {
        DmaSlice { ptr: addr as u32, len: len as u32 }
    }
}

/// What a finished single transaction means: every byte moved both ways,
/// or which side fell short.
pub fn transfer_outcome(tx: DmaSlice, rx: DmaSlice, tx_done: u32, rx_done: u32) -> (r: Result<(), Error>)
    ensures
        tx_done != tx.len ==> r == Err::<(), Error>(Error::Transmit),
        tx_done == tx.len && rx_done != rx.len ==> r == Err::<(), Error>(Error::Receive),
        tx_done == tx.len && rx_done == rx.len ==> r is Ok,
{
    if tx_done != tx.len {
        Err(Error::Transmit)
    } else if rx_done != rx.len {
        Err(Error::Receive)
    } else {
        Ok(())
    }
}

/// Where piece `k` starts: `k` times `EASY_DMA_SIZE`, written out so
/// that the product stays linear.
pub open spec fn piece_start(k: int) -> int {
    k * 65535
}

/// Piece `k` of the `len` bytes at `addr`, cut at the engine's size; the
/// empty buffer once the bytes run out.
pub open spec fn chunk(addr: usize, len: usize, k: int) -> DmaSlice {
    if piece_start(k) < len {
        let off = piece_start(k);
        let n = if len - off < EASY_DMA_SIZE { len - off } else { EASY_DMA_SIZE as int };
        DmaSlice { ptr: (addr + off) as u32, len: n as u32 }
    } else {
        DmaSlice { ptr: 0, len: 0 }
    }
}

/// Whether piece `k` is still sent: while `both` holds, until either buffer
/// runs out, else until both do.
pub open spec fn more_at(k: int, tx_len: usize, rx_len: usize, both: bool) -> bool {
    if both {
        piece_start(k) < tx_len && piece_start(k) < rx_len
    } else {
        piece_start(k) < tx_len || piece_start(k) < rx_len
    }
}

/// `plan` pairs the pieces of the two buffers, one transaction each, for as
/// long as `more_at` holds.
pub open spec fn is_plan(
    plan: Seq<(DmaSlice, DmaSlice)>,
    tx_addr: usize,
    tx_len: usize,
    rx_addr: usize,
    rx_len: usize,
    both: bool,
) -> bool {
    &&& (forall|k: int| 0 <= k < plan.len() ==> #[trigger] more_at(k, tx_len, rx_len, both))
    &&& (forall|k: int|
        0 <= k < plan.len() ==> #[trigger] plan[k] == (
        chunk(tx_addr, tx_len, k),
        chunk(rx_addr, rx_len, k),
    ))
    &&& !more_at(plan.len() as int, tx_len, rx_len, both)
}

fn plan_chunks(tx_addr: usize, tx_len: usize, rx_addr: usize, rx_len: usize, both: bool) -> (r: Vec<(DmaSlice, DmaSlice)>)
    requires
        tx_addr + tx_len <= usize::MAX,
        rx_addr + rx_len <= usize::MAX,
    ensures
        is_plan(r@, tx_addr, tx_len, rx_addr, rx_len, both),
{
    let mut plan: Vec<(DmaSlice, DmaSlice)> = Vec::new();
    let mut off: usize = 0;
    let mut done = false;
    let longest: usize = if tx_len > rx_len { tx_len } else { rx_len };
    while !done
        invariant
            tx_addr + tx_len <= usize::MAX,
            rx_addr + rx_len <= usize::MAX,
            longest == (if tx_len > rx_len { tx_len } else { rx_len }),
            off <= longest,
            forall|k: int| 0 <= k < plan@.len() ==> #[trigger] more_at(k, tx_len, rx_len, both),
            forall|k: int|
                0 <= k < plan@.len() ==> #[trigger] plan@[k] == (
                chunk(tx_addr, tx_len, k),
                chunk(rx_addr, rx_len, k),
            ),
            done ==> !more_at(plan@.len() as int, tx_len, rx_len, both),
            !done ==> off == piece_start(plan@.len() as int),
        decreases longest + EASY_DMA_SIZE - off + (if done { 0int } else { 1int }),
    {
        let tx_more = off < tx_len;
        let rx_more = off < rx_len;
        let more = if both { tx_more && rx_more } else { tx_more || rx_more };
        if !more {
            done = true;
        } else {
            let t = if tx_more {
                let n = if tx_len - off < EASY_DMA_SIZE { tx_len - off } else { EASY_DMA_SIZE };
                DmaSlice::from_slice(tx_addr + off, n)
            } else {
                DmaSlice::null()
            };
            let r = if rx_more {
                let n = if rx_len - off < EASY_DMA_SIZE { rx_len - off } else { EASY_DMA_SIZE };
                DmaSlice::from_slice(rx_addr + off, n)
            } else {
                DmaSlice::null()
            };
            plan.push((t, r));
            assert(plan@[plan@.len() - 1] == (
                chunk(tx_addr, tx_len, plan@.len() - 1),
                chunk(rx_addr, rx_len, plan@.len() - 1),
            ));
            assert(more_at(plan@.len() - 1, tx_len, rx_len, both));
            if longest - off <= EASY_DMA_SIZE {
                done = true;
            } else {
                off = off + EASY_DMA_SIZE;
            }
        }
    }
    plan
}

/// The transactions of a full-duplex transfer of equal halves: the
/// transmit buffer must lie in data RAM; pieces go in pairs until either
/// buffer runs out.
pub fn plan_split_even(tx_addr: usize, tx_len: usize, rx_addr: usize, rx_len: usize) -> (r: Result<Vec<(DmaSlice, DmaSlice)>, Error>)
    requires
        tx_addr + tx_len <= usize::MAX,
        rx_addr + rx_len <= usize::MAX,
    ensures
        !spec_slice_in_ram(tx_addr, tx_len) ==> r == Err::<Vec<(DmaSlice, DmaSlice)>, Error>(Error::DMABufferNotInDataMemory),
        spec_slice_in_ram(tx_addr, tx_len) ==> r is Ok && is_plan(r->Ok_0@, tx_addr, tx_len, rx_addr, rx_len, true),
{
    if !slice_in_ram(tx_addr, tx_len) {
        return Err(Error::DMABufferNotInDataMemory);
    }
    Ok(plan_chunks(tx_addr, tx_len, rx_addr, rx_len, true))
}

/// The transactions of a transfer whose halves may differ in length: a
/// non-empty transmit buffer must lie in data RAM; pieces go until both
/// buffers run out, the shorter side sending or taking nothing.
pub fn plan_split_uneven(tx_addr: usize, tx_len: usize, rx_addr: usize, rx_len: usize) -> (r: Result<Vec<(DmaSlice, DmaSlice)>, Error>)
    requires
        tx_addr + tx_len <= usize::MAX,
        rx_addr + rx_len <= usize::MAX,
    ensures
        tx_len > 0 && !spec_slice_in_ram(tx_addr, tx_len) ==> r == Err::<Vec<(DmaSlice, DmaSlice)>, Error>(Error::DMABufferNotInDataMemory),
        !(tx_len > 0 && !spec_slice_in_ram(tx_addr, tx_len)) ==> r is Ok && is_plan(r->Ok_0@, tx_addr, tx_len, rx_addr, rx_len, false),
{
    if tx_len > 0 && !slice_in_ram(tx_addr, tx_len) {
        return Err(Error::DMABufferNotInDataMemory);
    }
    Ok(plan_chunks(tx_addr, tx_len, rx_addr, rx_len, false))
}

/// The transactions of a write: the buffer must lie in data RAM, and
/// nothing is received.
pub fn plan_write(tx_addr: usize, tx_len: usize) -> (r: Result<Vec<(DmaSlice, DmaSlice)>, Error>)
    requires
        tx_addr + tx_len <= usize::MAX,
    ensures
        !spec_slice_in_ram(tx_addr, tx_len) ==> r == Err::<Vec<(DmaSlice, DmaSlice)>, Error>(Error::DMABufferNotInDataMemory),
        spec_slice_in_ram(tx_addr, tx_len) ==> r is Ok && is_plan(r->Ok_0@, tx_addr, tx_len, 0, 0, false),
{
    if !slice_in_ram(tx_addr, tx_len) {
        return Err(Error::DMABufferNotInDataMemory);
    }
    plan_split_uneven(tx_addr, tx_len, 0, 0)
}

} // verus!
