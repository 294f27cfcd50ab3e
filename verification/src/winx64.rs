//! Windows x64 unwind backend: lowers the target-independent unwind
//! codes of one function's prologue into the fixed-layout binary
//! `UNWIND_INFO` structure of the Windows x64 exception-handling ABI.

use vstd::prelude::*;
use crate::ir;

verus! {

/// One Windows unwind operation, recorded in chronological order. The
/// binary format stores the array in reverse chronological order; the
/// emitter reverses on output. Offsets are prologue offsets, which the
/// format limits to one byte.
#[derive(Clone, Copy, Debug, PartialEq, Eq, Structural)]
pub enum UnwindCode {
    /// A nonvolatile register was pushed.
    PushRegister { offset: u8, reg: u8 },
    /// The stack grew by `size` bytes.
    StackAlloc { offset: u8, size: u32 },
}

/// A stack allocation fits the one-slot "small" form: a multiple of
/// eight between 8 and 0x78 bytes, stored scaled minus one in the
/// operation's info nibble.
pub open spec fn alloc_small(size: u32) -> bool {
    size % 8 == 0 && 8 <= size && size / 8 <= 0xF
}

/// A stack allocation fits the two-slot "large, scaled 16-bit" form: a
/// multiple of eight up to 0x7FFF8 bytes, stored scaled in one extra
/// slot. Anything larger, or unscalable, takes the three-slot unscaled
/// 32-bit form.
pub open spec fn alloc_medium(size: u32) -> bool {
    !alloc_small(size) && size % 8 == 0 && size / 8 <= 0xFFFF
}

/// Number of two-byte slots one operation occupies.
pub open spec fn code_slots(c: UnwindCode) -> int {
    match c {
        UnwindCode::PushRegister { .. } => 1,
        UnwindCode::StackAlloc { size, .. } => {
            if alloc_small(size) {
                1
            } else if alloc_medium(size) {
                2
            } else {
                3
            }
        }
    }
}

/// Total number of slots of a code sequence.
pub open spec fn node_count(codes: Seq<UnwindCode>) -> int
    decreases codes.len(),
{
    if codes.len() == 0 {
        0
    } else {
        code_slots(codes[0]) + node_count(codes.skip(1))
    }
}

/// The bytes of one operation: a prologue-offset byte, an operation
/// byte carrying the operation in its low nibble and the info in its
/// high nibble, and little-endian size slots for the large forms.
pub open spec fn code_bytes(c: UnwindCode) -> Seq<u8> {
    match c {
        UnwindCode::PushRegister { offset, reg } => seq![offset, ((reg * 16) as u8)],
        UnwindCode::StackAlloc { offset, size } => {
            if alloc_small(size) {
                seq![offset, (((size / 8 - 1) * 16 + 2) as u8)]
            } else if alloc_medium(size) {
                seq![offset, 1u8, ((size / 8 % 256) as u8), ((size / 8 / 256) as u8)]
            } else {
                seq![
                    offset,
                    0x11u8,
                    ((size % 256) as u8),
                    ((size / 256 % 256) as u8),
                    ((size / 65536 % 256) as u8),
                    ((size / 16777216 % 256) as u8),
                ]
            }
        }
    }
}

/// The unwind-code array in the binary's order: the operations appear
/// in reverse chronological order, so the code nearest function entry
/// comes last.
pub open spec fn codes_bytes(codes: Seq<UnwindCode>) -> Seq<u8>
    decreases codes.len(),
{
    if codes.len() == 0 {
        Seq::empty()
    } else {
        codes_bytes(codes.skip(1)) + code_bytes(codes[0])
    }
}

/// Windows x64 unwind information for one function.
#[derive(Debug, PartialEq, Eq)]
pub struct UnwindInfo {
    /// Header flags; always zero for plain function unwind.
    pub flags: u8,
    /// Size in bytes of the prologue.
    pub prologue_size: u8,
    /// The dedicated frame register, if one was established.
    pub frame_register: Option<u8>,
    /// Scaled offset of the frame register from the stack pointer.
    pub frame_register_offset: u8,
    /// The operations, in chronological order.
    pub unwind_codes: Vec<UnwindCode>,
}

impl Clone for UnwindInfo {
    /// A clone carries the same header fields and operations.
    fn clone(&self) -> (r: Self)
        ensures
            r.flags == self.flags,
            r.prologue_size == self.prologue_size,
            r.frame_register == self.frame_register,
            r.frame_register_offset == self.frame_register_offset,
            r.unwind_codes@ == self.unwind_codes@,
    {
        UnwindInfo {
            flags: self.flags,
            prologue_size: self.prologue_size,
            frame_register: self.frame_register,
            frame_register_offset: self.frame_register_offset,
            unwind_codes: crate::copy_elements(&self.unwind_codes),
        }
    }
}

/// The byte packing the frame register and its offset.
pub open spec fn frame_byte(frame_register: Option<u8>, frame_register_offset: u8) -> u8 {
    match frame_register {
        Some(r) => ((r + frame_register_offset * 16) as u8),
        None => 0,
    }
}

impl UnwindInfo {
    /// Well-formed unwind information: nibble-sized register numbers and
    /// a slot count that fits the count byte.
    pub open spec fn wf(self) -> bool {
        &&& self.flags <= 0xF
        &&& match self.frame_register {
            Some(r) => r < 16,
            None => true,
        }
        &&& self.frame_register_offset < 16
        &&& node_count(self.unwind_codes@) <= 0xFF
        &&& forall|i: int|
            0 <= i < self.unwind_codes@.len() ==> match #[trigger] self.unwind_codes@[i] {
                UnwindCode::PushRegister { reg, .. } => reg < 16,
                UnwindCode::StackAlloc { .. } => true,
            }
    }

    /// The emitted image: a four-byte header — version and flags,
    /// prologue size, slot count, frame-register byte — then the
    /// unwind-code array in reverse chronological order, padded to an
    /// even slot count.
    pub open spec fn emit_spec(self) -> Seq<u8> {
        let count = node_count(self.unwind_codes@);
        let header = seq![
            ((1 + self.flags * 8) as u8),
            self.prologue_size,
            (count as u8),
            frame_byte(self.frame_register, self.frame_register_offset),
        ];
        let body = header + codes_bytes(self.unwind_codes@);
        if count % 2 == 1 {
            body + seq![0u8, 0u8]
        } else {
            body
        }
    }

    /// Size in bytes of the emitted image.
    pub open spec fn emit_size_spec(self) -> int {
        let count = node_count(self.unwind_codes@);
        if count % 2 == 1 {
            4 + 2 * count + 2
        } else {
            4 + 2 * count
        }
    }

    /// Computes the emitted size: the header plus two bytes per slot,
    /// padded to an even slot count.
    pub fn emit_size(&self) -> (r: usize)
        requires
            self.wf(),
        ensures
            r == self.emit_size_spec(),
    {
        let count = self.node_count_exec();
        if count % 2 == 1 {
            4 + 2 * (count as usize) + 2
        } else {
            4 + 2 * (count as usize)
        }
    }

    /// Counts the slots of the unwind-code array.
    fn node_count_exec(&self) -> (r: u32)
        requires
            node_count(self.unwind_codes@) <= 0xFF,
        ensures
            r == node_count(self.unwind_codes@),
    {
        let ghost codes = self.unwind_codes@;
        let mut count: u32 = 0;
        let mut i: usize = 0;
        proof {
            lemma_node_count_bounds(codes);
            assert(codes.skip(0) =~= codes);
        }
        while i < self.unwind_codes.len()
            invariant
                0 <= i <= codes.len(),
                codes == self.unwind_codes@,
                node_count(codes) <= 0xFF,
                count + node_count(codes.skip(i as int)) == node_count(codes),
                count <= node_count(codes),
            decreases codes.len() - i,
        {
            let ghost rest = codes.skip(i as int);
            proof {
                assert(rest[0] == codes[i as int]);
                assert(rest.skip(1) =~= codes.skip(i + 1));
                lemma_node_count_bounds(codes.skip(i + 1));
            }
            let c = self.unwind_codes[i];
            let slots: u32 = match c {
                UnwindCode::PushRegister { .. } => 1,
                UnwindCode::StackAlloc { size, .. } => {
                    if size % 8 == 0 && 8 <= size && size / 8 <= 0xF {
                        1
                    } else if size % 8 == 0 && size / 8 <= 0xFFFF {
                        2
                    } else {
                        3
                    }
                }
            };
            count = count + slots;
            i = i + 1;
        }
        proof {
            assert(codes.skip(codes.len() as int) =~= Seq::<UnwindCode>::empty());
        }
        count
    }

    /// Emits the binary `UNWIND_INFO` image.
    pub fn emit(&self) -> (r: Vec<u8>)
        requires
            self.wf(),
        ensures
            r@ == self.emit_spec(),
            r@.len() == self.emit_size_spec(),
    {
        let ghost codes = self.unwind_codes@;
        let count = self.node_count_exec();
        let mut out: Vec<u8> = Vec::new();
        out.push(1 + self.flags * 8);
        out.push(self.prologue_size);
        out.push(count as u8);
        let fb: u8 = match self.frame_register {
            Some(r) => r + self.frame_register_offset * 16,
            None => 0,
        };
        out.push(fb);
        proof {
            assert(out@ =~= seq![
                ((1 + self.flags * 8) as u8),
                self.prologue_size,
                (count as u8),
                frame_byte(self.frame_register, self.frame_register_offset),
            ]);
        }
        let ghost header = out@;

        let mut i: usize = self.unwind_codes.len();
        proof {
            assert(codes.skip(i as int) =~= Seq::<UnwindCode>::empty());
            assert(out@ =~= header + codes_bytes(codes.skip(i as int)));
        }
        while i > 0
            invariant
                0 <= i <= codes.len(),
                codes == self.unwind_codes@,
                self.wf(),
                out@ == header + codes_bytes(codes.skip(i as int)),
            decreases i,
        {
            i = i - 1;
            let ghost rest = codes.skip(i as int);
            proof {
                assert(rest[0] == codes[i as int]);
                assert(rest.skip(1) =~= codes.skip(i + 1));
            }
            let c = self.unwind_codes[i];
            let ghost prev = out@;
            push_code_bytes(&mut out, c);
            proof {
                assert(codes_bytes(rest) == codes_bytes(codes.skip(i + 1)) + code_bytes(c));
                assert(header + codes_bytes(rest) =~= (header + codes_bytes(codes.skip(i + 1)))
                    + code_bytes(c));
            }
        }
        proof {
            assert(codes.skip(0) =~= codes);
        }
        if count % 2 == 1 {
            out.push(0);
            out.push(0);
        }
        proof {
            lemma_codes_bytes_len(codes);
            assert(out@ =~= self.emit_spec());
        }
        out
    }
}

/// Appends the bytes of one operation.
#[verifier::rlimit(30)]
fn push_code_bytes(out: &mut Vec<u8>, c: UnwindCode)
    requires
        match c {
            UnwindCode::PushRegister { reg, .. } => reg < 16,
            UnwindCode::StackAlloc { .. } => true,
        },
    ensures
        final(out)@ == old(out)@ + code_bytes(c),
{
    match c {
        UnwindCode::PushRegister { offset, reg } => {
            out.push(offset);
            out.push(reg * 16);
        }
        UnwindCode::StackAlloc { offset, size } => {
            if size % 8 == 0 && 8 <= size && size / 8 <= 0xF {
                out.push(offset);
                out.push((((size / 8 - 1) * 16 + 2) as u8));
            } else if size % 8 == 0 && size / 8 <= 0xFFFF {
                out.push(offset);
                out.push(1u8);
                out.push(((size / 8 % 256) as u8));
                out.push(((size / 8 / 256) as u8));
            } else {
                out.push(offset);
                out.push(0x11u8);
                out.push(((size % 256) as u8));
                out.push(((size / 256 % 256) as u8));
                out.push(((size / 65536 % 256) as u8));
                out.push(((size / 16777216 % 256) as u8));
            }
        }
    }
    proof {
        assert(out@ =~= old(out)@ + code_bytes(c));
    }
}

/// Slot counts are nonnegative and at most three per operation.
pub proof fn lemma_node_count_bounds(codes: Seq<UnwindCode>)
    ensures
        0 <= node_count(codes) <= 3 * codes.len(),
    decreases codes.len(),
{
    if codes.len() > 0 {
        lemma_node_count_bounds(codes.skip(1));
    }
}

/// The unwind-code array occupies two bytes per slot.
proof fn lemma_codes_bytes_len(codes: Seq<UnwindCode>)
    ensures
        codes_bytes(codes).len() == 2 * node_count(codes),
    decreases codes.len(),
{
    if codes.len() > 0 {
        lemma_codes_bytes_len(codes.skip(1));
    }
}

/// The Windows operations one prologue's unwind codes lower to: pushes
/// and stack allocations become operations; everything else either
/// feeds the header or does not concern Windows unwind.
pub open spec fn win_codes(codes: Seq<ir::UnwindCode>) -> Seq<UnwindCode>
    decreases codes.len(),
{
    if codes.len() == 0 {
        Seq::empty()
    } else {
        win_code(codes[0]) + win_codes(codes.skip(1))
    }
}

/// The Windows operations of one unwind code.
pub open spec fn win_code(code: ir::UnwindCode) -> Seq<UnwindCode> {
    match code {
        ir::UnwindCode::PushRegister { offset, reg } => seq![
            UnwindCode::PushRegister { offset: (offset as u8), reg: reg.hw_enc },
        ],
        ir::UnwindCode::StackAlloc { offset, size } => seq![
            UnwindCode::StackAlloc { offset: (offset as u8), size },
        ],
        _ => Seq::empty(),
    }
}

/// The frame register the header records: that of the last
/// frame-pointer establishment in the prologue, starting from `acc`.
pub open spec fn win_frame_register(codes: Seq<ir::UnwindCode>, acc: Option<u8>) -> Option<u8>
    decreases codes.len(),
{
    if codes.len() == 0 {
        acc
    } else {
        match codes[0] {
            ir::UnwindCode::SetCfaRegister { reg, .. } => win_frame_register(
                codes.skip(1),
                Some(reg.hw_enc),
            ),
            _ => win_frame_register(codes.skip(1), acc),
        }
    }
}

/// Lowers one function's unwind description to Windows x64 unwind
/// information: version 1, no flags, the prologue's pushes and stack
/// allocations as operations in chronological order, and the frame
/// register recorded in the header rather than as an operation.
pub fn create_unwind_info(unwind: &ir::UnwindInfo) -> (r: Option<UnwindInfo>)
    requires
        unwind.wf(),
        unwind.prologue_size <= 0xFF,
        ir::codes_bounded(unwind.prologue_unwind_codes@, 0xFF),
        unwind.prologue_unwind_codes@.len() <= 85,
    ensures
        match r {
            Some(u) => {
                &&& u.flags == 0
                &&& u.prologue_size == unwind.prologue_size
                &&& u.frame_register == win_frame_register(unwind.prologue_unwind_codes@, None)
                &&& u.frame_register_offset == 0
                &&& u.unwind_codes@ == win_codes(unwind.prologue_unwind_codes@)
                &&& u.wf()
            }
            None => false,
        },
{
    let ghost codes = unwind.prologue_unwind_codes@;
    let mut unwind_codes: Vec<UnwindCode> = Vec::new();
    let mut frame_register: Option<u8> = None;
    proof {
        assert(codes.skip(0) =~= codes);
        assert(Seq::<UnwindCode>::empty() + win_codes(codes) =~= win_codes(codes));
    }
    let mut i: usize = 0;
    while i < unwind.prologue_unwind_codes.len()
        invariant
            0 <= i <= codes.len(),
            codes == unwind.prologue_unwind_codes@,
            unwind.wf(),
            ir::codes_bounded(codes, 0xFF),
            win_codes(codes) == unwind_codes@ + win_codes(codes.skip(i as int)),
            win_frame_register(codes, None) == win_frame_register(
                codes.skip(i as int),
                frame_register,
            ),
            match frame_register {
                Some(r) => r < 16,
                None => true,
            },
            forall|k: int|
                0 <= k < unwind_codes@.len() ==> match #[trigger] unwind_codes@[k] {
                    UnwindCode::PushRegister { reg, .. } => reg < 16,
                    UnwindCode::StackAlloc { .. } => true,
                },
            unwind_codes@.len() <= i,
        decreases codes.len() - i,
    {
        let ghost rest = codes.skip(i as int);
        let ghost prev = unwind_codes@;
        proof {
            assert(rest[0] == codes[i as int]);
            assert(rest.skip(1) =~= codes.skip(i + 1));
            assert(codes[i as int].regs_valid());
            assert(codes[i as int].code_offset() <= 0xFF);
        }
        let code = unwind.prologue_unwind_codes[i];
        match code {
            ir::UnwindCode::PushRegister { offset, reg } => {
                unwind_codes.push(UnwindCode::PushRegister { offset: offset as u8, reg: reg.hw_enc });
            }
            ir::UnwindCode::StackAlloc { offset, size } => {
                unwind_codes.push(UnwindCode::StackAlloc { offset: offset as u8, size });
            }
            ir::UnwindCode::SetCfaRegister { reg, .. } => {
                frame_register = Some(reg.hw_enc);
            }
            _ => {}
        }
        proof {
            assert(unwind_codes@ =~= prev + win_code(codes[i as int]));
            assert((prev + win_code(codes[i as int])) + win_codes(codes.skip(i + 1)) =~= prev
                + win_codes(rest));
        }
        i = i + 1;
    }
    proof {
        assert(codes.skip(codes.len() as int) =~= Seq::<ir::UnwindCode>::empty());
        assert(unwind_codes@ =~= win_codes(codes));
        lemma_win_codes_len(codes);
        lemma_node_count_bounds(unwind_codes@);
    }
    Some(
        UnwindInfo {
            flags: 0,
            prologue_size: unwind.prologue_size as u8,
            frame_register,
            frame_register_offset: 0,
            unwind_codes,
        },
    )
}

/// Lowering yields at most one operation per unwind code.
proof fn lemma_win_codes_len(codes: Seq<ir::UnwindCode>)
    ensures
        win_codes(codes).len() <= codes.len(),
    decreases codes.len(),
{
    if codes.len() > 0 {
        lemma_win_codes_len(codes.skip(1));
    }
}

/// Law: the emitted image opens with version 1 in the first byte's low
/// nibble, and its third byte is the exact count of emitted unwind-code
/// slots, multi-slot operations included; the image is as long as
/// `emit_size` reports.
pub proof fn lemma_emit_header(info: UnwindInfo)
    requires
        info.wf(),
        info.flags == 0,
    ensures
        info.emit_spec().len() == info.emit_size_spec(),
        info.emit_spec()[0] == 1,
        info.emit_spec()[2] == node_count(info.unwind_codes@) as u8,
{
    lemma_codes_bytes_len(info.unwind_codes@);
    lemma_node_count_bounds(info.unwind_codes@);
}

/// Law: stack-allocation classification is exact at the boundaries.
/// 0x78 bytes is the largest small-form allocation, encoded in one slot
/// with info `size / 8 - 1`; 0x7FFF8 bytes is the largest scaled 16-bit
/// allocation, in two slots; any larger or unscalable size takes the
/// unscaled 32-bit form, in three slots.
pub proof fn lemma_alloc_boundaries(offset: u8, size: u32)
    ensures
        size == 0x78 ==> alloc_small(size) && code_slots(UnwindCode::StackAlloc { offset, size })
            == 1 && code_bytes(UnwindCode::StackAlloc { offset, size }) == seq![
            offset,
            (((size / 8 - 1) * 16 + 2) as u8),
        ],
        size == 0x7FFF8 ==> alloc_medium(size) && code_slots(
            UnwindCode::StackAlloc { offset, size },
        ) == 2,
        size > 0x7FFF8 || size % 8 != 0 ==> !alloc_small(size) && !alloc_medium(size) && code_slots(
            UnwindCode::StackAlloc { offset, size },
        ) == 3,
{
}

} // verus!
