//! Model of the ACLINT / SiFive CLINT register block.
//!
//! The hardware device is a fixed-layout aggregate of register arrays placed
//! at a platform-known physical address: one 32-bit IPI register per hart,
//! one 64-bit timer-compare register per hart, and one shared 64-bit counter.
//! This module models each register as a plain value and proves the register
//! semantics: every accessor touches exactly one register, reads return the
//! last value written, and writes to one hart's slot leave every other slot
//! unchanged. On real hardware each access must additionally be a single
//! whole-width volatile load or store; performing the accesses against a
//! device mapping is the surrounding firmware's job.

use vstd::prelude::*;

verus! {

broadcast use vstd::array::group_array_axioms;

/// Number of per-hart register slots in each ACLINT register array.
pub const HART_SLOTS: usize = 4095;

/// Machine-level time counter register.
#[derive(Clone, Copy)]
pub struct MTIME(pub u64);

/// Machine-level time compare register.
#[derive(Clone, Copy)]
pub struct MTIMECMP(pub u64);

/// Machine-level IPI register.
#[derive(Clone, Copy)]
pub struct MSIP(pub u32);

/// Set supervisor-level IPI register.
#[derive(Clone, Copy)]
pub struct SETSSIP(pub u32);

/// Machine-level Software Interrupt Device (MSWI): one IPI register per hart
/// plus one reserved trailing slot, 0x4000 bytes in all.
pub struct MSWI {
    /// Hart index 0..4095 machine-level IPI registers.
    pub msip: [MSIP; 4095],
    /// Reserved trailing slot completing the block's 0x4000-byte shape.
    pub reserved: u32,
}

/// Supervisor-level Software Interrupt Device (SSWI): same 0x4000-byte shape
/// as [`MSWI`], repurposed for supervisor-level software interrupts.
pub struct SSWI {
    /// Hart index 0..4095 set-supervisor-IPI registers.
    pub setssip: [SETSSIP; 4095],
    /// Reserved trailing slot completing the block's 0x4000-byte shape.
    pub reserved: u32,
}

/// SiFive Core-Local Interruptor (CLINT) device: the MSWI block, then the
/// per-hart timer-compare array (0x7ff8 bytes, no trailing reserved slot),
/// then the shared counter, 0xc000 bytes in all. The device exists for the
/// life of the machine; firmware obtains a view over its fixed physical
/// address rather than constructing one.
pub struct SifiveClint {
    /// Machine-level inter-processor (software) interrupt registers.
    pub mswi: MSWI,
    /// Machine-level timer-compare registers, one per hart.
    pub mtimecmp: [MTIMECMP; 4095],
    /// Machine-level fixed-frequency counter.
    pub mtime: MTIME,
}

/// Size in bytes of one IPI register slot.
pub const IPI_SLOT_SIZE: usize = 4;

/// Size in bytes of one timer register slot.
pub const TIMER_SLOT_SIZE: usize = 8;

/// Size in bytes of the MSWI block, and of the SSWI block: the hardware
/// places the next device 0x4000 bytes after each.
pub const SWI_BLOCK_SIZE: usize = 0x4000;

/// Size in bytes of the per-hart timer-compare array.
pub const MTIMECMP_ARRAY_SIZE: usize = 0x7ff8;

/// Size in bytes of the whole CLINT register block.
pub const CLINT_BLOCK_SIZE: usize = 0xc000;

/// The register block's layout adds up to the sizes the hardware fixes: 4095
/// four-byte IPI slots plus one reserved slot fill 0x4000 bytes, 4095
/// eight-byte compare slots fill 0x7ff8 bytes, and those two arrays followed
/// by the eight-byte counter fill 0xc000 bytes exactly.
pub proof fn lemma_block_layout()
    ensures
        HART_SLOTS * IPI_SLOT_SIZE + IPI_SLOT_SIZE == SWI_BLOCK_SIZE,
        HART_SLOTS * TIMER_SLOT_SIZE == MTIMECMP_ARRAY_SIZE,
        SWI_BLOCK_SIZE + MTIMECMP_ARRAY_SIZE + TIMER_SLOT_SIZE == CLINT_BLOCK_SIZE,
{
}

/// Mathematical view of the CLINT register state: the IPI register values,
/// the timer-compare values, and the shared counter.
#[verifier::ext_equal]
pub ghost struct ClintView {
    pub ipi: Seq<u32>,
    pub compare: Seq<u64>,
    pub counter: u64,
}

impl ClintView {
    /// Both per-hart arrays hold exactly one slot per hart index.
    pub open spec fn wf(self) -> bool {
        self.ipi.len() == HART_SLOTS && self.compare.len() == HART_SLOTS
    }

    /// A hart's IPI is pending exactly when its IPI register is non-zero.
    pub open spec fn ipi_pending(self, hart_idx: int) -> bool {
        self.ipi[hart_idx] != 0
    }

    /// The state after writing `val` to hart `hart_idx`'s IPI register.
    pub open spec fn with_ipi(self, hart_idx: int, val: u32) -> ClintView {
        ClintView { ipi: self.ipi.update(hart_idx, val), ..self }
    }

    /// The state after writing `val` to hart `hart_idx`'s compare register.
    pub open spec fn with_compare(self, hart_idx: int, val: u64) -> ClintView {
        ClintView { compare: self.compare.update(hart_idx, val), ..self }
    }

    /// The state after writing `val` to the shared counter register.
    pub open spec fn with_counter(self, val: u64) -> ClintView {
        ClintView { counter: val, ..self }
    }
}

impl View for SifiveClint {
    type V = ClintView;

    open spec fn view(&self) -> ClintView {
        ClintView {
            ipi: self.mswi.msip@.map_values(|c: MSIP| c.0),
            compare: self.mtimecmp@.map_values(|c: MTIMECMP| c.0),
            counter: self.mtime.0,
        }
    }
}

impl SifiveClint {
    /// A register block with every register at its reset value of zero.
    pub fn new() -> (r: Self)
        ensures
            r@.wf(),
            r@.counter == 0,
            forall|i: int| 0 <= i < HART_SLOTS ==> r@.ipi[i] == 0u32,
            forall|i: int| 0 <= i < HART_SLOTS ==> r@.compare[i] == 0u64,
    {
        SifiveClint {
            mswi: MSWI { msip: [MSIP(0); 4095], reserved: 0 },
            mtimecmp: [MTIMECMP(0); 4095],
            mtime: MTIME(0),
        }
    }

    /// Read the `MTIME` register.
    pub fn read_mtime(&self) -> (r: u64)
        ensures
            r == self@.counter,
    {
        self.mtime.0
    }

    /// Write the `MTIME` register.
    pub fn write_mtime(&mut self, val: u64)
        ensures
            final(self)@ == old(self)@.with_counter(val),
    {
        self.mtime = MTIME(val);
        proof {
            assert(final(self)@ =~= old(self)@.with_counter(val));
        }
    }

    /// Read the `MTIMECMP` register for the given hart.
    pub fn read_mtimecmp(&self, hart_idx: usize) -> (r: u64)
        requires
            hart_idx < HART_SLOTS,
        ensures
            r == self@.compare[hart_idx as int],
    {
        self.mtimecmp[hart_idx].0
    }

    /// Write the `MTIMECMP` register for the given hart; no other register
    /// changes.
    pub fn write_mtimecmp(&mut self, hart_idx: usize, val: u64)
        requires
            hart_idx < HART_SLOTS,
        ensures
            final(self)@ == old(self)@.with_compare(hart_idx as int, val),
    {
        self.mtimecmp[hart_idx] = MTIMECMP(val);
        proof {
            assert(final(self)@.compare =~= old(self)@.with_compare(
                hart_idx as int,
                val,
            ).compare);
            assert(final(self)@.ipi =~= old(self)@.ipi);
            assert(final(self)@ =~= old(self)@.with_compare(hart_idx as int, val));
        }
    }

    /// Read the machine-level software interrupt state for the given hart:
    /// true exactly when its IPI register is non-zero.
    pub fn read_msip(&self, hart_idx: usize) -> (r: bool)
        requires
            hart_idx < HART_SLOTS,
        ensures
            r == self@.ipi_pending(hart_idx as int),
    {
        self.mswi.msip[hart_idx].0 != 0
    }

    /// Set the machine-level software interrupt for the given hart by writing
    /// 1 to its IPI register; no other register changes.
    pub fn set_msip(&mut self, hart_idx: usize)
        requires
            hart_idx < HART_SLOTS,
        ensures
            final(self)@ == old(self)@.with_ipi(hart_idx as int, 1u32),
    {
        self.mswi.msip[hart_idx] = MSIP(1);
        proof {
            assert(final(self)@.ipi =~= old(self)@.with_ipi(hart_idx as int, 1u32).ipi);
            assert(final(self)@ =~= old(self)@.with_ipi(hart_idx as int, 1u32));
        }
    }

    /// Clear the machine-level software interrupt for the given hart by
    /// writing 0 to its IPI register; no other register changes.
    pub fn clear_msip(&mut self, hart_idx: usize)
        requires
            hart_idx < HART_SLOTS,
        ensures
            final(self)@ == old(self)@.with_ipi(hart_idx as int, 0u32),
    {
        self.mswi.msip[hart_idx] = MSIP(0);
        proof {
            assert(final(self)@.ipi =~= old(self)@.with_ipi(hart_idx as int, 0u32).ipi);
            assert(final(self)@ =~= old(self)@.with_ipi(hart_idx as int, 0u32));
        }
    }
}

/// Setting hart `i`'s IPI register makes `i` pending and leaves every other
/// hart `j`'s pending state as it was; clearing it afterwards makes `i` idle
/// again.
pub proof fn lemma_ipi_set_clear_isolated(v: ClintView, i: int, j: int)
    requires
        v.wf(),
        0 <= i < HART_SLOTS,
        0 <= j < HART_SLOTS,
        i != j,
    ensures
        v.with_ipi(i, 1u32).ipi_pending(i),
        v.with_ipi(i, 1u32).ipi_pending(j) == v.ipi_pending(j),
        !v.with_ipi(i, 1u32).with_ipi(i, 0u32).ipi_pending(i),
        v.with_ipi(i, 1u32).with_ipi(i, 0u32).ipi_pending(j) == v.ipi_pending(j),
{
}

/// Writing hart `i`'s compare register stores exactly the written value and
/// leaves every other hart `k`'s compare register, every IPI register, and
/// the counter unchanged.
pub proof fn lemma_compare_round_trip_isolated(v: ClintView, i: int, k: int, val: u64)
    requires
        v.wf(),
        0 <= i < HART_SLOTS,
        0 <= k < HART_SLOTS,
        k != i,
    ensures
        v.with_compare(i, val).compare[i] == val,
        v.with_compare(i, val).compare[k] == v.compare[k],
        v.with_compare(i, val).ipi == v.ipi,
        v.with_compare(i, val).counter == v.counter,
{
}

/// Writing the shared counter stores exactly the written value and leaves the
/// per-hart registers unchanged.
pub proof fn lemma_counter_round_trip(v: ClintView, val: u64)
    ensures
        v.with_counter(val).counter == val,
        v.with_counter(val).ipi == v.ipi,
        v.with_counter(val).compare == v.compare,
{
}

} // verus!
