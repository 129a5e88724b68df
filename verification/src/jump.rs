//! The SDK jump table: host operations registered at fixed absolute SDK
//! addresses, and the plan that installs them into a guest.
//!
//! Installation grows the guest's indirect-function table by one slot per
//! entry and writes each slot index, as a 4-byte little-endian value, into
//! guest linear memory at `JUMP_TABLE_START + address`. The host executes
//! the plan against the WebAssembly engine; only the mapping from address
//! to slot matters, and this plan fixes it.

use vstd::prelude::*;

verus! {

/// Base guest-linear-memory offset of the SDK address page.
pub const JUMP_TABLE_START: u64 = 0x037f_c000;

/// The guest's linear memory must reach at least this many 64 KiB pages
/// before the jump table is installed.
pub const REQUIRED_MEMORY_PAGES: u64 = 0x700;

/// The SDK operations the simulator backs with host functions.
#[derive(Clone, Copy, Debug, PartialEq, Eq, Structural)]
pub enum SdkCall {
    ForegroundColor,
    BackgroundColor,
    RectDraw,
    RectFill,
    CircleDraw,
    CircleFill,
    StringWidthGet,
    StringHeightGet,
    Render,
    DoubleBufferDisable,
    VPrintf,
    VString,
    VSmallStringAt,
    CopyRect,
    SerialWriteBuffer,
    TasksRun,
    HighResTimeGet,
    SerialWriteFree,
    ExitRequest,
    CompetitionStatus,
}

/// The display entry points, keyed by SDK address.
pub open spec fn display_jump_table() -> Seq<(u64, SdkCall)> {
    seq![
        (0x640u64, SdkCall::ForegroundColor),
        (0x644u64, SdkCall::BackgroundColor),
        (0x668u64, SdkCall::RectDraw),
        (0x670u64, SdkCall::RectFill),
        (0x674u64, SdkCall::CircleDraw),
        (0x67cu64, SdkCall::CircleFill),
        (0x6c0u64, SdkCall::StringWidthGet),
        (0x6c4u64, SdkCall::StringHeightGet),
        (0x7a0u64, SdkCall::Render),
        (0x7a4u64, SdkCall::DoubleBufferDisable),
        (0x680u64, SdkCall::VPrintf),
        (0x684u64, SdkCall::VString),
        (0x6b0u64, SdkCall::VSmallStringAt),
        (0x654u64, SdkCall::CopyRect),
    ]
}

/// The system entry points, keyed by SDK address.
pub open spec fn system_jump_table() -> Seq<(u64, SdkCall)> {
    seq![
        (0x89cu64, SdkCall::SerialWriteBuffer),
        (0x05cu64, SdkCall::TasksRun),
        (0x134u64, SdkCall::HighResTimeGet),
        (0x8acu64, SdkCall::SerialWriteFree),
        (0x130u64, SdkCall::ExitRequest),
        (0x9d8u64, SdkCall::CompetitionStatus),
    ]
}

/// Records host operations keyed by SDK absolute address; addresses are
/// unique.
#[derive(Debug)]
pub struct JumpTableBuilder {
    pub entries: Vec<(u64, SdkCall)>,
}

impl JumpTableBuilder {
    pub open spec fn spec_contains_address(self, address: u64) -> bool {
        exists|i: int| 0 <= i < self.entries@.len() && (#[trigger] self.entries@[i]).0 == address
    }

    /// Addresses are unique.
    pub open spec fn wf(self) -> bool {
        forall|i: int, j: int|
            0 <= i < j < self.entries@.len() ==> (#[trigger] self.entries@[i]).0 != (
            #[trigger] self.entries@[j]).0
    }

    pub fn new() -> (b: JumpTableBuilder)
        ensures
            b.wf(),
            b.entries@.len() == 0,
    {
        JumpTableBuilder { entries: Vec::new() }
    }

    /// Whether an operation is already recorded at this address.
    pub fn contains_address(&self, address: u64) -> (r: bool)
        ensures
            r == self.spec_contains_address(address),
    {
        let n = self.entries.len();
        let mut i: usize = 0;
        while i < n
            invariant
                i <= n,
                n == self.entries@.len(),
                forall|j: int| 0 <= j < i ==> (#[trigger] self.entries@[j]).0 != address,
            decreases n - i,
        {
            if self.entries[i].0 == address {
                return true;
            }
            i += 1;
        }
        false
    }

    /// Records a host operation at an SDK address. Inserting a duplicate
    /// address is a programming error, so the caller must rule it out.
    pub fn insert(&mut self, address: u64, call: SdkCall)
        requires
            old(self).wf(),
            !old(self).spec_contains_address(address),
        ensures
            final(self).wf(),
            final(self).entries@ == old(self).entries@.push((address, call)),
    {
        self.entries.push((address, call));
    }
}

/// Registers every display entry point with the builder.
pub fn build_display_jump_table(builder: &mut JumpTableBuilder)
    requires
        old(builder).wf(),
        !old(builder).spec_contains_address(0x640),
        !old(builder).spec_contains_address(0x644),
        !old(builder).spec_contains_address(0x668),
        !old(builder).spec_contains_address(0x670),
        !old(builder).spec_contains_address(0x674),
        !old(builder).spec_contains_address(0x67c),
        !old(builder).spec_contains_address(0x6c0),
        !old(builder).spec_contains_address(0x6c4),
        !old(builder).spec_contains_address(0x7a0),
        !old(builder).spec_contains_address(0x7a4),
        !old(builder).spec_contains_address(0x680),
        !old(builder).spec_contains_address(0x684),
        !old(builder).spec_contains_address(0x6b0),
        !old(builder).spec_contains_address(0x654),
    ensures
        final(builder).wf(),
        final(builder).entries@ == old(builder).entries@ + display_jump_table(),
{
    builder.insert(0x640, SdkCall::ForegroundColor);
    builder.insert(0x644, SdkCall::BackgroundColor);
    builder.insert(0x668, SdkCall::RectDraw);
    builder.insert(0x670, SdkCall::RectFill);
    builder.insert(0x674, SdkCall::CircleDraw);
    builder.insert(0x67c, SdkCall::CircleFill);
    builder.insert(0x6c0, SdkCall::StringWidthGet);
    builder.insert(0x6c4, SdkCall::StringHeightGet);
    builder.insert(0x7a0, SdkCall::Render);
    builder.insert(0x7a4, SdkCall::DoubleBufferDisable);
    builder.insert(0x680, SdkCall::VPrintf);
    builder.insert(0x684, SdkCall::VString);
    builder.insert(0x6b0, SdkCall::VSmallStringAt);
    builder.insert(0x654, SdkCall::CopyRect);
    proof {
        assert(final(builder).entries@ =~= old(builder).entries@ + display_jump_table());
    }
}

/// Registers every system entry point with the builder.
pub fn build_system_jump_table(builder: &mut JumpTableBuilder)
    requires
        old(builder).wf(),
        !old(builder).spec_contains_address(0x89c),
        !old(builder).spec_contains_address(0x05c),
        !old(builder).spec_contains_address(0x134),
        !old(builder).spec_contains_address(0x8ac),
        !old(builder).spec_contains_address(0x130),
        !old(builder).spec_contains_address(0x9d8),
    ensures
        final(builder).wf(),
        final(builder).entries@ == old(builder).entries@ + system_jump_table(),
{
    builder.insert(0x89c, SdkCall::SerialWriteBuffer);
    builder.insert(0x05c, SdkCall::TasksRun);
    builder.insert(0x134, SdkCall::HighResTimeGet);
    builder.insert(0x8ac, SdkCall::SerialWriteFree);
    builder.insert(0x130, SdkCall::ExitRequest);
    builder.insert(0x9d8, SdkCall::CompetitionStatus);
    proof {
        assert(final(builder).entries@ =~= old(builder).entries@ + system_jump_table());
    }
}

/// The full set of SDK entry points, keyed by unique absolute address.
#[derive(Debug)]
pub struct JumpTable {
    pub api: Vec<(u64, SdkCall)>,
}

impl JumpTable {
    pub open spec fn wf(self) -> bool {
        forall|i: int, j: int|
            0 <= i < j < self.api@.len() ==> (#[trigger] self.api@[i]).0 != (
            #[trigger] self.api@[j]).0
    }

    /// Builds the table with the default API: every display entry point,
    /// then every system entry point.
    pub fn new() -> (t: JumpTable)
        ensures
            t.wf(),
            t.api@ == display_jump_table() + system_jump_table(),
    {
        let mut builder = JumpTableBuilder::new();
        build_display_jump_table(&mut builder);
        build_system_jump_table(&mut builder);
        proof {
            assert(builder.entries@ =~= display_jump_table() + system_jump_table());
        }
        JumpTable { api: builder.entries }
    }

    /// Plans the installation of the table into a guest whose
    /// indirect-function table currently has `base` slots: the table grows
    /// by one slot per entry, entry `i` is bound at slot `base + i`, and
    /// that slot index is written, little-endian, at guest memory offset
    /// `JUMP_TABLE_START + address`. Distinct entries get distinct slots
    /// and distinct memory offsets.
    pub fn expose(self, base: u32) -> (plan: Vec<SlotWrite>)
        requires
            self.wf(),
            base + self.api@.len() <= 0xffff_ffff,
            forall|i: int| 0 <= i < self.api@.len() ==> (#[trigger] self.api@[i]).0
                <= 0xffff_ffff,
        ensures
            plan@.len() == self.api@.len(),
            forall|i: int| 0 <= i < plan@.len() ==> {
                let w = #[trigger] plan@[i];
                &&& w.slot as int == base + i
                &&& w.call == self.api@[i].1
                &&& w.mem_addr as int == JUMP_TABLE_START + self.api@[i].0
                &&& w.bytes@ == u32_le(w.slot)
            },
            forall|i: int, j: int| 0 <= i < j < plan@.len() ==> (#[trigger] plan@[i]).slot != (
            #[trigger] plan@[j]).slot && plan@[i].mem_addr != plan@[j].mem_addr,
    {
        let n = self.api.len();
        let mut plan: Vec<SlotWrite> = Vec::new();
        let mut i: usize = 0;
        while i < n
            invariant
                i <= n,
                n == self.api@.len(),
                self.wf(),
                base + n <= 0xffff_ffff,
                forall|k: int| 0 <= k < n ==> (#[trigger] self.api@[k]).0 <= 0xffff_ffff,
                plan@.len() == i,
                forall|k: int| 0 <= k < i ==> {
                    let w = #[trigger] plan@[k];
                    &&& w.slot as int == base + k
                    &&& w.call == self.api@[k].1
                    &&& w.mem_addr as int == JUMP_TABLE_START + self.api@[k].0
                    &&& w.bytes@ == u32_le(w.slot)
                },
            decreases n - i,
        {
            let (address, call) = self.api[i];
            let slot: u32 = base + (i as u32);
            let bytes = u32_le_exec(slot);
            plan.push(
                SlotWrite { slot, call, mem_addr: JUMP_TABLE_START + address, bytes },
            );
            i += 1;
        }
        proof {
            assert forall|a: int, b: int| 0 <= a < b < plan@.len() implies (#[trigger] plan@[a]).slot
                != (#[trigger] plan@[b]).slot && plan@[a].mem_addr != plan@[b].mem_addr by {
                assert(self.api@[a].0 != self.api@[b].0);
            }
        }
        plan
    }
}

/// One step of the installation plan.
#[derive(Debug)]
pub struct SlotWrite {
    /// Index in the guest's indirect-function table that receives the host
    /// function.
    pub slot: u32,
    /// The SDK operation bound at that slot.
    pub call: SdkCall,
    /// Guest linear-memory offset that receives the slot index.
    pub mem_addr: u64,
    /// The slot index as four little-endian bytes.
    pub bytes: Vec<u8>,
}

/// The four little-endian bytes of a 32-bit value.
pub open spec fn u32_le(v: u32) -> Seq<u8> {
    seq![
        (v & 0xff) as u8,
        ((v >> 8) & 0xff) as u8,
        ((v >> 16) & 0xff) as u8,
        ((v >> 24) & 0xff) as u8,
    ]
}

/// The value a 4-byte little-endian sequence denotes.
pub open spec fn le_value(b: Seq<u8>) -> int
    recommends
        b.len() == 4,
{
    b[0] + 0x100 * (b[1] + 0x100 * (b[2] + 0x100 * b[3]))
}

/// Law: the little-endian bytes of a 32-bit value denote the value.
pub proof fn lemma_u32_le_value(v: u32)
    ensures
        u32_le(v).len() == 4,
        le_value(u32_le(v)) == v,
{
    assert(((v & 0xff) as u8) + 0x100 * ((((v >> 8) & 0xff) as u8) + 0x100 * ((((v >> 16)
        & 0xff) as u8) + 0x100 * (((v >> 24) & 0xff) as u8))) == v) by (bit_vector);
}

/// Serializes a 32-bit value as four little-endian bytes.
pub fn u32_le_exec(v: u32) -> (b: Vec<u8>)
    ensures
        b@ == u32_le(v),
{
    proof {
        assert(v & 0xff < 256 && (v >> 8) & 0xff < 256 && (v >> 16) & 0xff < 256 && (v >> 24)
            & 0xff < 256) by (bit_vector);
    }
    let mut b: Vec<u8> = Vec::new();
    b.push((v & 0xff) as u8);
    b.push(((v >> 8) & 0xff) as u8);
    b.push(((v >> 16) & 0xff) as u8);
    b.push(((v >> 24) & 0xff) as u8);
    proof {
        assert(b@ =~= u32_le(v));
    }
    b
}

} // verus!
