//! Boot-time board-info extraction from a flattened device-tree blob.
//!
//! The blob is the well-known serialized tree format: a 40-byte big-endian
//! header, a structure block of 4-byte cells (begin-node, end-node, property,
//! nop and end tokens), and a strings block holding property names. One
//! depth-first pass over the structure block extracts three facts: the number
//! of `cpu@...` nodes under `cpus`, the `timebase-frequency` property of
//! `cpus`, and the first address of the first `reg` property of the first
//! `uart...`/`serial...` node under `soc`. No tree is materialized: a
//! three-way step decision (into / over / out) is taken at each node or
//! property, driven only by the containing node's role.
//!
//! The walk is specified as a small-step machine: [`step`] gives the decision
//! policy and the structural parsing of one token, [`run`] iterates it, and
//! [`BoardInfo::parse`] is proved to return exactly [`BoardInfo::spec_parse`].

use vstd::prelude::*;

verus! {

/// Magic number opening every valid blob header.
pub const FDT_MAGIC: u32 = 0xd00dfeed;

/// Lowest tolerated header version.
pub const FDT_VERSION: u32 = 17;

/// Structure-block token: a node begins; its name follows.
pub const TOK_BEGIN_NODE: u32 = 1;

/// Structure-block token: the current node ends.
pub const TOK_END_NODE: u32 = 2;

/// Structure-block token: a property; length and name-offset cells follow.
pub const TOK_PROP: u32 = 3;

/// Structure-block token: padding, skipped.
pub const TOK_NOP: u32 = 4;

/// Structure-block token: the structure block ends.
pub const TOK_END: u32 = 9;

/// Byte length of the blob header.
pub const HEADER_LEN: u32 = 40;

/// Board facts extracted from the blob. Missing data is not an error: a field
/// keeps its zero default, which downstream code must read as "unknown".
#[derive(Clone, Copy, PartialEq, Eq, Structural, Debug)]
pub struct BoardInfo {
    /// Number of `cpu@...` nodes under the `cpus` node.
    pub smp: usize,
    /// Value of the `timebase-frequency` property of the `cpus` node.
    pub frequency: u64,
    /// First address of the first `reg` property of the first
    /// `uart...`/`serial...` node under the `soc` node.
    pub uart: u64,
}

/// A fatal structural fault in the blob. Each variant carries the offending
/// header value where one exists. Extraction cannot proceed past any of
/// these; the boot sequence must abort.
#[derive(Clone, Copy, PartialEq, Eq, Structural, Debug)]
pub enum DtbError {
    /// The buffer is shorter than the header, or than the total size the
    /// header declares.
    Truncated,
    /// The magic field is wrong.
    Magic(u32),
    /// The version field is older than [`FDT_VERSION`].
    Version(u32),
    /// The declared total size cannot even hold the header.
    TotalSize(u32),
    /// The memory-reservation block offset is not 4-byte aligned.
    MemRsvMisaligned(u32),
    /// The memory-reservation block offset is outside the blob.
    MemRsvOffset(u32),
    /// The structure block offset or size is not 4-byte aligned.
    StructMisaligned(u32),
    /// The structure block offset is outside the blob.
    StructOffset(u32),
    /// The structure block size overruns the blob.
    StructSize(u32),
    /// The structure block is malformed: it does not open with an anonymous
    /// root node and close with an end token, or a token, name or property
    /// inside it is truncated or unknown.
    StructContent,
    /// The strings block offset is outside the blob.
    StringsOffset(u32),
    /// The strings block size overruns the blob.
    StringsSize(u32),
    /// The console node's `reg` property holds no range at all.
    RegEmpty,
    /// A `timebase-frequency` property is neither 4 nor 8 bytes long.
    FrequencyWidth(u32),
}

/// Role of a node whose contents the walk has stepped into. Only four roles
/// are ever entered: the root, `cpus` and `soc` under the root, and a
/// `uart...`/`serial...` node under `soc`; every other node is stepped over.
#[derive(Clone, Copy, PartialEq, Eq, Structural, Debug)]
pub enum Ctx {
    /// The anonymous root node.
    Root,
    /// The `cpus` node under the root.
    Cpus,
    /// The `soc` node under the root.
    Soc,
    /// A `uart...` or `serial...` node under `soc`.
    UartLike,
}

/// `#address-cells` / `#size-cells` configuration governing `reg` properties:
/// each `reg` range is `addr` address cells followed by `size` size cells.
#[derive(Clone, Copy, PartialEq, Eq, Structural, Debug)]
pub struct Cells {
    pub addr: u32,
    pub size: u32,
}

/// One open node on the walk's stack.
#[derive(Clone, Copy, PartialEq, Eq, Structural, Debug)]
pub struct Frame {
    /// The node's role, deciding the policy for its children and properties.
    pub ctx: Ctx,
    /// Cell configuration for this node's own `reg` properties, taken from
    /// the parent's `#address-cells` / `#size-cells`.
    pub reg: Cells,
    /// Cell configuration collected from this node's own properties, handed
    /// to each child.
    pub sub: Cells,
    /// True when the rest of this node is only structurally skipped: its
    /// properties are not read and its subtrees are not entered.
    pub escape: bool,
}

/// Where the blob's regions lie: `so` is the byte offset of the structure
/// block, `end` the cell index of its final end token, `str_off` and
/// `str_len` the strings block's byte offset and length.
pub ghost struct Lay {
    pub so: int,
    pub end: int,
    pub str_off: int,
    pub str_len: int,
}

/// The walk's whole state between two steps.
#[verifier::ext_equal]
pub ghost struct MState {
    /// Current cell index in the structure block.
    pub pos: int,
    /// Stack of open nodes, root first.
    pub frames: Seq<Frame>,
    /// `cpu@...` nodes counted so far.
    pub smp: int,
    /// Timebase frequency seen so far.
    pub freq: u64,
    /// Console address seen so far.
    pub uart: u64,
    /// Whether a console address was already taken: the first one wins.
    pub uart_set: bool,
}

/// Result of one step of the walk.
#[verifier::ext_equal]
pub ghost enum Outcome {
    /// The walk goes on in this state.
    Next(MState),
    /// The root node was closed: extraction is complete.
    Done(BoardInfo),
    /// A fatal structural fault.
    Fail(DtbError),
}

/// The big-endian 32-bit value of the four bytes at `p`.
pub open spec fn be32(s: Seq<u8>, p: int) -> u32 {
    (s[p] * 0x100_0000 + s[p + 1] * 0x1_0000 + s[p + 2] * 0x100 + s[p + 3]) as u32
}

/// The big-endian 64-bit value of the eight bytes at `p`.
pub open spec fn be64(s: Seq<u8>, p: int) -> u64 {
    (be32(s, p) * 0x1_0000_0000 + be32(s, p + 4)) as u64
}

/// The value of structure-block cell `i`.
pub open spec fn cell(s: Seq<u8>, so: int, i: int) -> u32 {
    be32(s, so + 4 * i)
}

/// A node name ending in cell `i`: the cell's last byte is NUL.
pub open spec fn is_str_end(s: Seq<u8>, so: int, i: int) -> bool {
    s[so + 4 * i + 3] == 0
}

/// Index of the first cell in `[i, end)` whose last byte is NUL, or -1.
pub open spec fn find_str_end(s: Seq<u8>, so: int, end: int, i: int) -> int
    decreases end - i,
{
    if i >= end {
        -1
    } else if is_str_end(s, so, i) {
        i
    } else {
        find_str_end(s, so, end, i + 1)
    }
}

/// How many of a name's final cell's bytes are NUL padding.
pub open spec fn tail_zeros(s: Seq<u8>, so: int, i: int) -> int {
    if s[so + 4 * i] == 0 {
        4
    } else if s[so + 4 * i + 1] == 0 {
        3
    } else if s[so + 4 * i + 2] == 0 {
        2
    } else {
        1
    }
}

/// Index of the first NUL byte in `[a, limit)`, or -1.
pub open spec fn find_nul(s: Seq<u8>, a: int, limit: int) -> int
    decreases limit - a,
{
    if a >= limit {
        -1
    } else if s[a] == 0 {
        a
    } else {
        find_nul(s, a + 1, limit)
    }
}

/// The address opening a `reg` range: `cnt` cells starting at cell `i`,
/// folded big-endian-first with wrapping, as the hardware description
/// convention has it.
pub open spec fn reg_base(s: Seq<u8>, so: int, i: int, cnt: int) -> u64
    decreases cnt,
{
    if cnt <= 0 {
        0u64
    } else {
        (reg_base(s, so, i, cnt - 1) << 32) | cell(s, so, i + cnt - 1) as u64
    }
}

/// The bytes at `[a, a+n)` spell `cpus`.
pub open spec fn name_is_cpus(s: Seq<u8>, a: int, n: int) -> bool {
    n == 4 && s[a] == 99 && s[a + 1] == 112 && s[a + 2] == 117 && s[a + 3] == 115
}

/// The bytes at `[a, a+n)` spell `soc`.
pub open spec fn name_is_soc(s: Seq<u8>, a: int, n: int) -> bool {
    n == 3 && s[a] == 115 && s[a + 1] == 111 && s[a + 2] == 99
}

/// The bytes at `[a, a+n)` open with `cpu@`.
pub open spec fn name_starts_cpu_at(s: Seq<u8>, a: int, n: int) -> bool {
    n >= 4 && s[a] == 99 && s[a + 1] == 112 && s[a + 2] == 117 && s[a + 3] == 64
}

/// The bytes at `[a, a+n)` open with `uart`.
pub open spec fn name_starts_uart(s: Seq<u8>, a: int, n: int) -> bool {
    n >= 4 && s[a] == 117 && s[a + 1] == 97 && s[a + 2] == 114 && s[a + 3] == 116
}

/// The bytes at `[a, a+n)` open with `serial`.
pub open spec fn name_starts_serial(s: Seq<u8>, a: int, n: int) -> bool {
    n >= 6 && s[a] == 115 && s[a + 1] == 101 && s[a + 2] == 114 && s[a + 3] == 105 && s[a + 4]
        == 97 && s[a + 5] == 108
}

/// The bytes at `[a, a+n)` spell `reg`.
pub open spec fn name_is_reg(s: Seq<u8>, a: int, n: int) -> bool {
    n == 3 && s[a] == 114 && s[a + 1] == 101 && s[a + 2] == 103
}

/// The bytes at `[a, a+n)` spell `#address-cells`.
pub open spec fn name_is_address_cells(s: Seq<u8>, a: int, n: int) -> bool {
    n == 14 && s[a] == 35 && s[a + 1] == 97 && s[a + 2] == 100 && s[a + 3] == 100 && s[a + 4]
        == 114 && s[a + 5] == 101 && s[a + 6] == 115 && s[a + 7] == 115 && s[a + 8] == 45 && s[a
        + 9] == 99 && s[a + 10] == 101 && s[a + 11] == 108 && s[a + 12] == 108 && s[a + 13]
        == 115
}

/// The bytes at `[a, a+n)` spell `#size-cells`.
pub open spec fn name_is_size_cells(s: Seq<u8>, a: int, n: int) -> bool {
    n == 11 && s[a] == 35 && s[a + 1] == 115 && s[a + 2] == 105 && s[a + 3] == 122 && s[a + 4]
        == 101 && s[a + 5] == 45 && s[a + 6] == 99 && s[a + 7] == 101 && s[a + 8] == 108 && s[a
        + 9] == 108 && s[a + 10] == 115
}

/// The bytes at `[a, a+n)` spell `timebase-frequency`.
pub open spec fn name_is_timebase(s: Seq<u8>, a: int, n: int) -> bool {
    n == 18 && s[a] == 116 && s[a + 1] == 105 && s[a + 2] == 109 && s[a + 3] == 101 && s[a + 4]
        == 98 && s[a + 5] == 97 && s[a + 6] == 115 && s[a + 7] == 101 && s[a + 8] == 45 && s[a
        + 9] == 102 && s[a + 10] == 114 && s[a + 11] == 101 && s[a + 12] == 113 && s[a + 13]
        == 117 && s[a + 14] == 101 && s[a + 15] == 110 && s[a + 16] == 99 && s[a + 17] == 121
}

/// The decision the policy takes for a subnode named `[a, a+n)` seen from a
/// node with role `ctx`: the child's role where it is stepped into, `None`
/// where it is stepped over. Counting `cpu@...` nodes is handled beside this.
pub open spec fn enter_role(s: Seq<u8>, a: int, n: int, ctx: Ctx) -> Option<Ctx> {
    match ctx {
        Ctx::Root => if name_is_cpus(s, a, n) {
            Some(Ctx::Cpus)
        } else if name_is_soc(s, a, n) {
            Some(Ctx::Soc)
        } else {
            None
        },
        Ctx::Soc => if name_starts_uart(s, a, n) || name_starts_serial(s, a, n) {
            Some(Ctx::UartLike)
        } else {
            None
        },
        _ => None,
    }
}

/// One step of the walk: parse the token at `m.pos` and apply the decision
/// policy. A node begin pushes a frame — entered per [`enter_role`], counted
/// when it is a `cpu@...` under `cpus`, otherwise skipped; a node end pops
/// one, closing the walk at the root; a property updates the cell
/// configuration, takes the first console address (stepping out of the node),
/// or takes the timebase frequency. Anything structurally impossible fails.
pub open spec fn step(s: Seq<u8>, lay: Lay, m: MState) -> Outcome {
    if m.frames.len() == 0 || m.pos >= lay.end {
        Outcome::Fail(DtbError::StructContent)
    } else {
        let fr = m.frames.last();
        let t = cell(s, lay.so, m.pos);
        if t == TOK_END_NODE {
            if m.frames.len() == 1 {
                Outcome::Done(
                    BoardInfo { smp: m.smp as usize, frequency: m.freq, uart: m.uart },
                )
            } else {
                Outcome::Next(MState { pos: m.pos + 1, frames: m.frames.drop_last(), ..m })
            }
        } else if t == TOK_NOP {
            Outcome::Next(MState { pos: m.pos + 1, ..m })
        } else if t == TOK_BEGIN_NODE {
            let j = find_str_end(s, lay.so, lay.end, m.pos + 1);
            if j < 0 {
                Outcome::Fail(DtbError::StructContent)
            } else {
                let a = lay.so + 4 * (m.pos + 1);
                let n = 4 * (j - m.pos) - tail_zeros(s, lay.so, j);
                let skip = Frame { ctx: fr.ctx, reg: fr.sub, sub: default_cells(), escape: true };
                if fr.escape {
                    Outcome::Next(MState { pos: j + 1, frames: m.frames.push(skip), ..m })
                } else {
                    match enter_role(s, a, n, fr.ctx) {
                        Some(role) => Outcome::Next(
                            MState {
                                pos: j + 1,
                                frames: m.frames.push(
                                    Frame {
                                        ctx: role,
                                        reg: fr.sub,
                                        sub: default_cells(),
                                        escape: false,
                                    },
                                ),
                                ..m
                            },
                        ),
                        None => {
                            let counted: int = if fr.ctx is Cpus && name_starts_cpu_at(s, a, n) {
                                m.smp + 1
                            } else {
                                m.smp
                            };
                            Outcome::Next(
                                MState {
                                    pos: j + 1,
                                    frames: m.frames.push(skip),
                                    smp: counted,
                                    ..m
                                },
                            )
                        },
                    }
                }
            }
        } else if t == TOK_PROP {
            if m.pos + 3 > lay.end {
                Outcome::Fail(DtbError::StructContent)
            } else {
                let len = cell(s, lay.so, m.pos + 1) as int;
                let noff = cell(s, lay.so, m.pos + 2) as int;
                let vc = (len + 3) / 4;
                if m.pos + 3 + vc > lay.end {
                    Outcome::Fail(DtbError::StructContent)
                } else {
                    let pos2 = m.pos + 3 + vc;
                    if fr.escape {
                        Outcome::Next(MState { pos: pos2, ..m })
                    } else {
                        let a = lay.str_off + noff;
                        let q = find_nul(s, a, lay.str_off + lay.str_len);
                        if noff > lay.str_len || q < 0 {
                            Outcome::Fail(DtbError::StructContent)
                        } else {
                            step_prop(s, lay, m, fr, a, q - a, len, vc, pos2)
                        }
                    }
                }
            }
        } else {
            Outcome::Fail(DtbError::StructContent)
        }
    }
}

/// The policy for one property of an entered node, named `[a, a+n)`, with
/// payload byte length `len` filling `vc` cells at `m.pos + 3`; `pos2` is the
/// cell index after the property.
pub open spec fn step_prop(
    s: Seq<u8>,
    lay: Lay,
    m: MState,
    fr: Frame,
    a: int,
    n: int,
    len: int,
    vc: int,
    pos2: int,
) -> Outcome {
    if name_is_address_cells(s, a, n) && vc == 1 {
        let sub = Cells { addr: cell(s, lay.so, m.pos + 3), ..fr.sub };
        Outcome::Next(
            MState {
                pos: pos2,
                frames: m.frames.update(m.frames.len() - 1, Frame { sub, ..fr }),
                ..m
            },
        )
    } else if name_is_size_cells(s, a, n) && vc == 1 {
        let sub = Cells { size: cell(s, lay.so, m.pos + 3), ..fr.sub };
        Outcome::Next(
            MState {
                pos: pos2,
                frames: m.frames.update(m.frames.len() - 1, Frame { sub, ..fr }),
                ..m
            },
        )
    } else if name_is_reg(s, a, n) {
        let item = fr.reg.addr as int + fr.reg.size as int;
        if item == 0 {
            Outcome::Fail(DtbError::StructContent)
        } else if vc % item == 0 {
            if fr.ctx is UartLike {
                if vc == 0 {
                    Outcome::Fail(DtbError::RegEmpty)
                } else {
                    Outcome::Next(
                        MState {
                            pos: pos2,
                            frames: m.frames.update(
                                m.frames.len() - 1,
                                Frame { escape: true, ..fr },
                            ),
                            uart: if m.uart_set {
                                m.uart
                            } else {
                                reg_base(s, lay.so, m.pos + 3, fr.reg.addr as int)
                            },
                            uart_set: true,
                            ..m
                        },
                    )
                }
            } else {
                Outcome::Next(MState { pos: pos2, ..m })
            }
        } else {
            Outcome::Next(MState { pos: pos2, ..m })
        }
    } else if name_is_timebase(s, a, n) && fr.ctx is Cpus {
        if len == 4 {
            Outcome::Next(
                MState { pos: pos2, freq: cell(s, lay.so, m.pos + 3) as u64, ..m },
            )
        } else if len == 8 {
            Outcome::Next(MState { pos: pos2, freq: be64(s, lay.so + 4 * (m.pos + 3)), ..m })
        } else {
            Outcome::Fail(DtbError::FrequencyWidth(len as u32))
        }
    } else {
        Outcome::Next(MState { pos: pos2, ..m })
    }
}

/// The cell configuration a node starts from when its parent gave none:
/// two address cells, one size cell.
pub open spec fn default_cells() -> Cells {
    Cells { addr: 2, size: 1 }
}

/// The walk's starting state: just inside the anonymous root node, at the
/// first cell after the root's begin token and empty name.
pub open spec fn init_state() -> MState {
    MState {
        pos: 2,
        frames: seq![
            Frame { ctx: Ctx::Root, reg: default_cells(), sub: default_cells(), escape: false },
        ],
        smp: 0,
        freq: 0,
        uart: 0,
        uart_set: false,
    }
}

/// Iterate [`step`] until the walk closes or fails. Every step consumes at
/// least one structure cell, so one unit of fuel per cell is ample; the fuel
/// exists only to ground the recursion and is never exhausted from
/// [`BoardInfo::spec_parse`].
pub open spec fn run(s: Seq<u8>, lay: Lay, m: MState, fuel: nat) -> Result<BoardInfo, DtbError>
    decreases fuel,
{
    if fuel == 0 {
        Err(DtbError::StructContent)
    } else {
        match step(s, lay, m) {
            Outcome::Next(n) => run(s, lay, n, (fuel - 1) as nat),
            Outcome::Done(b) => Ok(b),
            Outcome::Fail(e) => Err(e),
        }
    }
}

impl BoardInfo {
    /// What extraction returns on blob `s`: the header checks in order —
    /// tolerating only an outdated compatible-version marker, as some real
    /// hardware emits one — then the walk from the root. The offending header
    /// field rides in the error.
    pub open spec fn spec_parse(s: Seq<u8>) -> Result<BoardInfo, DtbError> {
        let total = be32(s, 4) as int;
        let off_struct = be32(s, 8) as int;
        let off_strings = be32(s, 12) as int;
        let off_memrsv = be32(s, 16) as int;
        let size_strings = be32(s, 32) as int;
        let size_struct = be32(s, 36) as int;
        let n_cells = size_struct / 4;
        if s.len() < HEADER_LEN {
            Err(DtbError::Truncated)
        } else if be32(s, 0) != FDT_MAGIC {
            Err(DtbError::Magic(be32(s, 0)))
        } else if be32(s, 20) < FDT_VERSION {
            Err(DtbError::Version(be32(s, 20)))
        } else if total < HEADER_LEN {
            Err(DtbError::TotalSize(be32(s, 4)))
        } else if total > s.len() {
            Err(DtbError::Truncated)
        } else if off_memrsv % 4 != 0 {
            Err(DtbError::MemRsvMisaligned(be32(s, 16)))
        } else if !(HEADER_LEN <= off_memrsv && off_memrsv < total) {
            Err(DtbError::MemRsvOffset(be32(s, 16)))
        } else if off_struct % 4 != 0 {
            Err(DtbError::StructMisaligned(be32(s, 8)))
        } else if !(off_memrsv <= off_struct && off_struct < total) {
            Err(DtbError::StructOffset(be32(s, 8)))
        } else if size_struct % 4 != 0 {
            Err(DtbError::StructMisaligned(be32(s, 36)))
        } else if size_struct > total - off_struct {
            Err(DtbError::StructSize(be32(s, 36)))
        } else if !(n_cells >= 3 && cell(s, off_struct, 0) == TOK_BEGIN_NODE && cell(
            s,
            off_struct,
            1,
        ) == 0 && cell(s, off_struct, n_cells - 1) == TOK_END) {
            Err(DtbError::StructContent)
        } else if !(off_struct + size_struct <= off_strings && off_strings < total) {
            Err(DtbError::StringsOffset(be32(s, 12)))
        } else if size_strings > total - off_struct - size_struct {
            Err(DtbError::StringsSize(be32(s, 32)))
        } else if off_strings + size_strings > total {
            Err(DtbError::StringsSize(be32(s, 32)))
        } else {
            let lay = Lay {
                so: off_struct,
                end: n_cells - 1,
                str_off: off_strings,
                str_len: size_strings,
            };
            run(s, lay, init_state(), (n_cells - 1) as nat)
        }
    }
}

/// Corrupted magic is always fatal: whenever the buffer holds a full header
/// whose magic field is wrong, extraction fails with that field, never
/// returning a default-valued [`BoardInfo`].
pub proof fn lemma_bad_magic_fatal(s: Seq<u8>)
    requires
        s.len() >= HEADER_LEN,
        be32(s, 0) != FDT_MAGIC,
    ensures
        BoardInfo::spec_parse(s) == Err::<BoardInfo, DtbError>(DtbError::Magic(be32(s, 0))),
{
}

/// The walk's state assembled from the extraction loop's variables.
spec fn cur_state(
    pos: int,
    frames: Seq<Frame>,
    smp: int,
    freq: u64,
    uart: u64,
    uart_set: bool,
) -> MState {
    MState { pos, frames, smp, freq, uart, uart_set }
}

/// Read the big-endian 32-bit value at byte offset `p`.
fn rd32(s: &[u8], p: usize) -> (r: u32)
    requires
        p + 4 <= s@.len(),
    ensures
        r == be32(s@, p as int),
{
    (s[p] as u32) * 0x100_0000 + (s[p + 1] as u32) * 0x1_0000 + (s[p + 2] as u32) * 0x100 + (s[p
        + 3] as u32)
}

/// Read the big-endian 64-bit value at byte offset `p`.
fn rd64(s: &[u8], p: usize) -> (r: u64)
    requires
        p + 8 <= s@.len(),
    ensures
        r == be64(s@, p as int),
{
    proof {
        // a slice's length always fits in usize
        assert(vstd::slice::spec_slice_len(s) == s@.len());
    }
    (rd32(s, p) as u64) * 0x1_0000_0000 + (rd32(s, p + 4) as u64)
}

/// Find the first cell in `[i, end)` whose last byte is NUL: the cell a node
/// name ends in.
fn find_str_end_x(s: &[u8], so: usize, end: usize, i: usize) -> (r: Option<usize>)
    requires
        i <= end,
        so + 4 * end <= s@.len(),
    ensures
        match r {
            Some(j) => i <= j < end && find_str_end(s@, so as int, end as int, i as int) == j as int,
            None => find_str_end(s@, so as int, end as int, i as int) == -1,
        },
    decreases end - i,
{
    proof {
        // a slice's length always fits in usize
        assert(vstd::slice::spec_slice_len(s) == s@.len());
    }
    if i >= end {
        None
    } else if s[so + 4 * i + 3] == 0 {
        Some(i)
    } else {
        find_str_end_x(s, so, end, i + 1)
    }
}

/// Find the first NUL byte in `[a, limit)`: the end of a property name in
/// the strings block.
fn find_nul_x(s: &[u8], a: usize, limit: usize) -> (r: Option<usize>)
    requires
        a <= limit,
        limit <= s@.len(),
    ensures
        match r {
            Some(q) => a <= q < limit && find_nul(s@, a as int, limit as int) == q as int,
            None => find_nul(s@, a as int, limit as int) == -1,
        },
    decreases limit - a,
{
    if a >= limit {
        None
    } else if s[a] == 0 {
        Some(a)
    } else {
        find_nul_x(s, a + 1, limit)
    }
}

/// Count the NUL padding bytes closing a name's final cell.
fn tail_zeros_x(s: &[u8], so: usize, i: usize) -> (r: usize)
    requires
        so + 4 * i + 4 <= s@.len(),
    ensures
        1 <= r <= 4,
        r as int == tail_zeros(s@, so as int, i as int),
{
    proof {
        // a slice's length always fits in usize
        assert(vstd::slice::spec_slice_len(s) == s@.len());
    }
    if s[so + 4 * i] == 0 {
        4
    } else if s[so + 4 * i + 1] == 0 {
        3
    } else if s[so + 4 * i + 2] == 0 {
        2
    } else {
        1
    }
}

/// Do the bytes at `[a, a+n)` spell `cpus`?
fn is_cpus_x(s: &[u8], a: usize, n: usize) -> (r: bool)
    requires
        a + n <= s@.len(),
    ensures
        r == name_is_cpus(s@, a as int, n as int),
{
    n == 4 && s[a] == 99 && s[a + 1] == 112 && s[a + 2] == 117 && s[a + 3] == 115
}

/// Do the bytes at `[a, a+n)` spell `soc`?
fn is_soc_x(s: &[u8], a: usize, n: usize) -> (r: bool)
    requires
        a + n <= s@.len(),
    ensures
        r == name_is_soc(s@, a as int, n as int),
{
    n == 3 && s[a] == 115 && s[a + 1] == 111 && s[a + 2] == 99
}

/// Do the bytes at `[a, a+n)` open with `cpu@`?
fn starts_cpu_at_x(s: &[u8], a: usize, n: usize) -> (r: bool)
    requires
        a + n <= s@.len(),
    ensures
        r == name_starts_cpu_at(s@, a as int, n as int),
{
    n >= 4 && s[a] == 99 && s[a + 1] == 112 && s[a + 2] == 117 && s[a + 3] == 64
}

/// Do the bytes at `[a, a+n)` open with `uart`?
fn starts_uart_x(s: &[u8], a: usize, n: usize) -> (r: bool)
    requires
        a + n <= s@.len(),
    ensures
        r == name_starts_uart(s@, a as int, n as int),
{
    n >= 4 && s[a] == 117 && s[a + 1] == 97 && s[a + 2] == 114 && s[a + 3] == 116
}

/// Do the bytes at `[a, a+n)` open with `serial`?
fn starts_serial_x(s: &[u8], a: usize, n: usize) -> (r: bool)
    requires
        a + n <= s@.len(),
    ensures
        r == name_starts_serial(s@, a as int, n as int),
{
    n >= 6 && s[a] == 115 && s[a + 1] == 101 && s[a + 2] == 114 && s[a + 3] == 105 && s[a + 4]
        == 97 && s[a + 5] == 108
}

/// Do the bytes at `[a, a+n)` spell `reg`?
fn is_reg_x(s: &[u8], a: usize, n: usize) -> (r: bool)
    requires
        a + n <= s@.len(),
    ensures
        r == name_is_reg(s@, a as int, n as int),
{
    n == 3 && s[a] == 114 && s[a + 1] == 101 && s[a + 2] == 103
}

/// Do the bytes at `[a, a+n)` spell `#address-cells`?
fn is_address_cells_x(s: &[u8], a: usize, n: usize) -> (r: bool)
    requires
        a + n <= s@.len(),
    ensures
        r == name_is_address_cells(s@, a as int, n as int),
{
    n == 14 && s[a] == 35 && s[a + 1] == 97 && s[a + 2] == 100 && s[a + 3] == 100 && s[a + 4]
        == 114 && s[a + 5] == 101 && s[a + 6] == 115 && s[a + 7] == 115 && s[a + 8] == 45 && s[a + 9]
        == 99 && s[a + 10] == 101 && s[a + 11] == 108 && s[a + 12] == 108 && s[a + 13] == 115
}

/// Do the bytes at `[a, a+n)` spell `#size-cells`?
fn is_size_cells_x(s: &[u8], a: usize, n: usize) -> (r: bool)
    requires
        a + n <= s@.len(),
    ensures
        r == name_is_size_cells(s@, a as int, n as int),
{
    n == 11 && s[a] == 35 && s[a + 1] == 115 && s[a + 2] == 105 && s[a + 3] == 122 && s[a + 4]
        == 101 && s[a + 5] == 45 && s[a + 6] == 99 && s[a + 7] == 101 && s[a + 8] == 108 && s[a + 9]
        == 108 && s[a + 10] == 115
}

/// Do the bytes at `[a, a+n)` spell `timebase-frequency`?
fn is_timebase_x(s: &[u8], a: usize, n: usize) -> (r: bool)
    requires
        a + n <= s@.len(),
    ensures
        r == name_is_timebase(s@, a as int, n as int),
{
    n == 18 && s[a] == 116 && s[a + 1] == 105 && s[a + 2] == 109 && s[a + 3] == 101 && s[a + 4]
        == 98 && s[a + 5] == 97 && s[a + 6] == 115 && s[a + 7] == 101 && s[a + 8] == 45 && s[a + 9]
        == 102 && s[a + 10] == 114 && s[a + 11] == 101 && s[a + 12] == 113 && s[a + 13] == 117 && s[a
        + 14] == 101 && s[a + 15] == 110 && s[a + 16] == 99 && s[a + 17] == 121
}

/// The role a subnode is entered under, per the decision policy, or `None`
/// where it is stepped over.
fn enter_role_x(s: &[u8], a: usize, n: usize, ctx: Ctx) -> (r: Option<Ctx>)
    requires
        a + n <= s@.len(),
    ensures
        r == enter_role(s@, a as int, n as int, ctx),
{
    match ctx {
        Ctx::Root => {
            if is_cpus_x(s, a, n) {
                Some(Ctx::Cpus)
            } else if is_soc_x(s, a, n) {
                Some(Ctx::Soc)
            } else {
                None
            }
        },
        Ctx::Soc => {
            if starts_uart_x(s, a, n) || starts_serial_x(s, a, n) {
                Some(Ctx::UartLike)
            } else {
                None
            }
        },
        _ => None,
    }
}

/// Fold `cnt` cells starting at cell `i` into one address, big-endian first.
fn reg_base_x(s: &[u8], so: usize, i: usize, cnt: usize) -> (r: u64)
    requires
        so + 4 * (i + cnt) <= s@.len(),
    ensures
        r == reg_base(s@, so as int, i as int, cnt as int),
    decreases cnt,
{
    proof {
        // a slice's length always fits in usize
        assert(vstd::slice::spec_slice_len(s) == s@.len());
    }
    if cnt == 0 {
        0
    } else {
        let prev = reg_base_x(s, so, i, cnt - 1);
        (prev << 32) | (rd32(s, so + 4 * (i + cnt - 1)) as u64)
    }
}

impl BoardInfo {
    /// Extract the board facts from a device-tree blob, returning exactly
    /// what [`BoardInfo::spec_parse`] lays down: the header is checked, then
    /// the structure block is walked in one pass under the decision policy
    /// of [`step`].
    pub fn parse(dtb: &[u8]) -> (r: Result<BoardInfo, DtbError>)
        ensures
            r == Self::spec_parse(dtb@),
    {
        if dtb.len() < 40 {
            return Err(DtbError::Truncated);
        }
        let magic = rd32(dtb, 0);
        if magic != FDT_MAGIC {
            return Err(DtbError::Magic(magic));
        }
        let version = rd32(dtb, 20);
        if version < FDT_VERSION {
            return Err(DtbError::Version(version));
        }
        let total32 = rd32(dtb, 4);
        if total32 < HEADER_LEN {
            return Err(DtbError::TotalSize(total32));
        }
        if (total32 as u64) > (dtb.len() as u64) {
            return Err(DtbError::Truncated);
        }
        let total = total32 as usize;
        let off_memrsv = rd32(dtb, 16);
        if off_memrsv % 4 != 0 {
            return Err(DtbError::MemRsvMisaligned(off_memrsv));
        }
        if !(HEADER_LEN <= off_memrsv && (off_memrsv as usize) < total) {
            return Err(DtbError::MemRsvOffset(off_memrsv));
        }
        let off_struct = rd32(dtb, 8);
        if off_struct % 4 != 0 {
            return Err(DtbError::StructMisaligned(off_struct));
        }
        if !(off_memrsv <= off_struct && (off_struct as usize) < total) {
            return Err(DtbError::StructOffset(off_struct));
        }
        let size_struct32 = rd32(dtb, 36);
        if size_struct32 % 4 != 0 {
            return Err(DtbError::StructMisaligned(size_struct32));
        }
        let so = off_struct as usize;
        if (size_struct32 as usize) > total - so {
            return Err(DtbError::StructSize(size_struct32));
        }
        let size_struct = size_struct32 as usize;
        let n_cells = size_struct / 4;
        if !(n_cells >= 3 && rd32(dtb, so) == TOK_BEGIN_NODE && rd32(dtb, so + 4) == 0 && rd32(
            dtb,
            so + 4 * (n_cells - 1),
        ) == TOK_END) {
            return Err(DtbError::StructContent);
        }
        let off_strings = rd32(dtb, 12);
        if !((so as u64) + (size_struct as u64) <= (off_strings as u64) && (off_strings as usize)
            < total) {
            return Err(DtbError::StringsOffset(off_strings));
        }
        let size_strings = rd32(dtb, 32);
        if (size_strings as u64) > (total as u64) - (so as u64) - (size_struct as u64) {
            return Err(DtbError::StringsSize(size_strings));
        }
        if (off_strings as u64) + (size_strings as u64) > (total as u64) {
            return Err(DtbError::StringsSize(size_strings));
        }
        let str_off = off_strings as usize;
        let str_len = size_strings as usize;
        let end = n_cells - 1;
        let ghost lay = Lay {
            so: so as int,
            end: end as int,
            str_off: str_off as int,
            str_len: str_len as int,
        };
        let mut frames: Vec<Frame> = Vec::new();
        frames.push(
            Frame {
                ctx: Ctx::Root,
                reg: Cells { addr: 2, size: 1 },
                sub: Cells { addr: 2, size: 1 },
                escape: false,
            },
        );
        let mut pos: usize = 2;
        let mut smp: usize = 0;
        let mut freq: u64 = 0;
        let mut uart: u64 = 0;
        let mut uart_set: bool = false;
        let ghost mut fuel: nat = end as nat;
        proof {
            assert(cur_state(pos as int, frames@, smp as int, freq, uart, uart_set)
                =~= init_state());
            assert(Self::spec_parse(dtb@) == run(dtb@, lay, init_state(), end as nat));
        }
        loop
            invariant
                frames@.len() >= 1,
                2 <= pos && pos <= end,
                end <= 0x3fff_ffff,
                lay.so == so as int,
                lay.end == end as int,
                lay.str_off == str_off as int,
                lay.str_len == str_len as int,
                so + 4 * end + 4 <= dtb@.len(),
                dtb@.len() <= usize::MAX,
                str_off + str_len <= dtb@.len(),
                fuel as int >= end as int + 1 - pos as int,
                fuel <= end as nat,
                smp as int <= end as int - fuel as int,
                run(dtb@, lay, cur_state(pos as int, frames@, smp as int, freq, uart, uart_set),
                    fuel) == run(dtb@, lay, init_state(), end as nat),
                BoardInfo::spec_parse(dtb@) == run(dtb@, lay, init_state(), end as nat),
            decreases end - pos,
        {
            let ghost pre = cur_state(pos as int, frames@, smp as int, freq, uart, uart_set);
            if pos >= end {
                proof {
                    assert(step(dtb@, lay, pre) =~= Outcome::Fail(DtbError::StructContent));
                }
                return Err(DtbError::StructContent);
            }
            let fr = frames[frames.len() - 1];
            let t = rd32(dtb, so + 4 * pos);
            if t == TOK_END_NODE {
                if frames.len() == 1 {
                    let b = BoardInfo { smp, frequency: freq, uart };
                    proof {
                        assert(step(dtb@, lay, pre) =~= Outcome::Done(b));
                    }
                    return Ok(b);
                }
                let _ = frames.pop();
                pos = pos + 1;
                proof {
                    let post = cur_state(pos as int, frames@, smp as int, freq, uart, uart_set);
                    assert(pre.frames.drop_last() =~= post.frames);
                    assert(step(dtb@, lay, pre) =~= Outcome::Next(post));
                    fuel = (fuel - 1) as nat;
                }
            } else if t == TOK_NOP {
                pos = pos + 1;
                proof {
                    let post = cur_state(pos as int, frames@, smp as int, freq, uart, uart_set);
                    assert(step(dtb@, lay, pre) =~= Outcome::Next(post));
                    fuel = (fuel - 1) as nat;
                }
            } else if t == TOK_BEGIN_NODE {
                let jr = find_str_end_x(dtb, so, end, pos + 1);
                if jr.is_none() {
                    proof {
                        assert(step(dtb@, lay, pre) =~= Outcome::Fail(DtbError::StructContent));
                    }
                    return Err(DtbError::StructContent);
                }
                let j = jr.unwrap();
                let tz = tail_zeros_x(dtb, so, j);
                let a = so + 4 * (pos + 1);
                let n = 4 * (j - pos) - tz;
                let skip = Frame { ctx: fr.ctx, reg: fr.sub, sub: Cells { addr: 2, size: 1 }, escape: true };
                if fr.escape {
                    frames.push(skip);
                } else {
                    let role = enter_role_x(dtb, a, n, fr.ctx);
                    if role.is_some() {
                        frames.push(
                            Frame {
                                ctx: role.unwrap(),
                                reg: fr.sub,
                                sub: Cells { addr: 2, size: 1 },
                                escape: false,
                            },
                        );
                    } else {
                        let in_cpus = match fr.ctx {
                            Ctx::Cpus => true,
                            _ => false,
                        };
                        if in_cpus && starts_cpu_at_x(dtb, a, n) {
                            smp = smp + 1;
                        }
                        frames.push(skip);
                    }
                }
                pos = j + 1;
                proof {
                    let post = cur_state(pos as int, frames@, smp as int, freq, uart, uart_set);
                    assert(step(dtb@, lay, pre) =~= Outcome::Next(post));
                    fuel = (fuel - 1) as nat;
                }
            } else if t == TOK_PROP {
                if pos + 3 > end {
                    proof {
                        assert(step(dtb@, lay, pre) =~= Outcome::Fail(DtbError::StructContent));
                    }
                    return Err(DtbError::StructContent);
                }
                let plen = rd32(dtb, so + 4 * (pos + 1));
                let noff = rd32(dtb, so + 4 * (pos + 2));
                let vc64 = ((plen as u64) + 3) / 4;
                if (pos as u64) + 3 + vc64 > (end as u64) {
                    proof {
                        assert(step(dtb@, lay, pre) =~= Outcome::Fail(DtbError::StructContent));
                    }
                    return Err(DtbError::StructContent);
                }
                let vc = vc64 as usize;
                let pos2 = pos + 3 + vc;
                if fr.escape {
                    pos = pos2;
                    proof {
                        let post = cur_state(pos as int, frames@, smp as int, freq, uart, uart_set);
                        assert(step(dtb@, lay, pre) =~= Outcome::Next(post));
                        fuel = (fuel - 1) as nat;
                    }
                } else {
                    if (noff as u64) > (str_len as u64) {
                        proof {
                            assert(step(dtb@, lay, pre) =~= Outcome::Fail(DtbError::StructContent));
                        }
                        return Err(DtbError::StructContent);
                    }
                    let a = str_off + (noff as usize);
                    let qr = find_nul_x(dtb, a, str_off + str_len);
                    if qr.is_none() {
                        proof {
                            assert(step(dtb@, lay, pre) =~= Outcome::Fail(DtbError::StructContent));
                        }
                        return Err(DtbError::StructContent);
                    }
                    let q = qr.unwrap();
                    let n = q - a;
                    if is_address_cells_x(dtb, a, n) && vc == 1 {
                        let mut f2 = fr;
                        f2.sub.addr = rd32(dtb, so + 4 * (pos + 3));
                        let k = frames.len() - 1;
                        frames[k] = f2;
                    } else if is_size_cells_x(dtb, a, n) && vc == 1 {
                        let mut f2 = fr;
                        f2.sub.size = rd32(dtb, so + 4 * (pos + 3));
                        let k = frames.len() - 1;
                        frames[k] = f2;
                    } else if is_reg_x(dtb, a, n) {
                        let item = (fr.reg.addr as u64) + (fr.reg.size as u64);
                        if item == 0 {
                            proof {
                                assert(step(dtb@, lay, pre) =~= Outcome::Fail(
                                    DtbError::StructContent,
                                ));
                            }
                            return Err(DtbError::StructContent);
                        }
                        if vc64 % item == 0 {
                            let in_uart = match fr.ctx {
                                Ctx::UartLike => true,
                                _ => false,
                            };
                            if in_uart {
                                if vc == 0 {
                                    proof {
                                        assert(step(dtb@, lay, pre) =~= Outcome::Fail(
                                            DtbError::RegEmpty,
                                        ));
                                    }
                                    return Err(DtbError::RegEmpty);
                                }
                                proof {
                                    assert(vc64 as int >= item as int) by (nonlinear_arith)
                                        requires
                                            vc64 as int % (item as int) == 0,
                                            vc64 as int > 0,
                                            item as int > 0,
                                    ;
                                }
                                let base = reg_base_x(dtb, so, pos + 3, fr.reg.addr as usize);
                                if !uart_set {
                                    uart = base;
                                }
                                uart_set = true;
                                let mut f2 = fr;
                                f2.escape = true;
                                let k = frames.len() - 1;
                                frames[k] = f2;
                            }
                        }
                    } else if is_timebase_x(dtb, a, n) {
                        let in_cpus = match fr.ctx {
                            Ctx::Cpus => true,
                            _ => false,
                        };
                        if in_cpus {
                            if plen == 4 {
                                freq = rd32(dtb, so + 4 * (pos + 3)) as u64;
                            } else if plen == 8 {
                                freq = rd64(dtb, so + 4 * (pos + 3));
                            } else {
                                proof {
                                    assert(step(dtb@, lay, pre) =~= Outcome::Fail(
                                        DtbError::FrequencyWidth(plen),
                                    ));
                                }
                                return Err(DtbError::FrequencyWidth(plen));
                            }
                        }
                    }
                    pos = pos2;
                    proof {
                        let post = cur_state(pos as int, frames@, smp as int, freq, uart, uart_set);
                        assert(step(dtb@, lay, pre) =~= Outcome::Next(post));
                        fuel = (fuel - 1) as nat;
                    }
                }
            } else {
                proof {
                    assert(step(dtb@, lay, pre) =~= Outcome::Fail(DtbError::StructContent));
                }
                return Err(DtbError::StructContent);
            }
        }
    }
}

} // verus!
