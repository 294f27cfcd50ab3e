//! Target-independent unwind vocabulary: the effects a prologue or an
//! epilogue has on the stack frame, each tied to a code offset.

use vstd::prelude::*;
use crate::reg::Register;

verus! {

/// Byte offset from the start of a function's code.
pub type CodeOffset = u32;

/// One prologue or epilogue effect at a specific code offset.
#[derive(Clone, Copy, Debug, PartialEq, Eq, Structural)]
pub enum UnwindCode {
    /// A register was pushed onto the stack.
    PushRegister { offset: CodeOffset, reg: Register },
    /// A register was popped off the stack.
    PopRegister { offset: CodeOffset, reg: Register },
    /// A register was stored at a constant offset from the stack pointer.
    SaveRegister { offset: CodeOffset, reg: Register, stack_offset: u32 },
    /// A vector register was stored at a constant offset from the stack pointer.
    SaveXmm { offset: CodeOffset, reg: Register, stack_offset: u32 },
    /// The stack grew by `size` bytes.
    StackAlloc { offset: CodeOffset, size: u32 },
    /// The stack shrank by `size` bytes.
    StackDealloc { offset: CodeOffset, size: u32 },
    /// The canonical frame address is now tracked relative to `reg`,
    /// after a dedicated frame-pointer register was established.
    SetCfaRegister { offset: CodeOffset, reg: Register },
    /// Snapshot the call-frame-information state.
    RememberState { offset: CodeOffset },
    /// Restore the last snapshotted call-frame-information state.
    RestoreState { offset: CodeOffset },
}

impl UnwindCode {
    /// The code offset the effect is tied to.
    pub open spec fn code_offset(self) -> CodeOffset {
        match self {
            UnwindCode::PushRegister { offset, .. } => offset,
            UnwindCode::PopRegister { offset, .. } => offset,
            UnwindCode::SaveRegister { offset, .. } => offset,
            UnwindCode::SaveXmm { offset, .. } => offset,
            UnwindCode::StackAlloc { offset, .. } => offset,
            UnwindCode::StackDealloc { offset, .. } => offset,
            UnwindCode::SetCfaRegister { offset, .. } => offset,
            UnwindCode::RememberState { offset } => offset,
            UnwindCode::RestoreState { offset } => offset,
        }
    }

    /// Every register the code mentions is a valid machine register.
    pub open spec fn regs_valid(self) -> bool {
        match self {
            UnwindCode::PushRegister { reg, .. } => reg.valid(),
            UnwindCode::PopRegister { reg, .. } => reg.valid(),
            UnwindCode::SaveRegister { reg, .. } => reg.valid(),
            UnwindCode::SaveXmm { reg, .. } => reg.valid(),
            UnwindCode::SetCfaRegister { reg, .. } => reg.valid(),
            _ => true,
        }
    }
}

/// All registers in a code sequence are valid.
pub open spec fn codes_regs_valid(codes: Seq<UnwindCode>) -> bool {
    forall|i: int| 0 <= i < codes.len() ==> #[trigger] codes[i].regs_valid()
}

/// Every code offset in a sequence is at most `bound`.
pub open spec fn codes_bounded(codes: Seq<UnwindCode>, bound: u32) -> bool {
    forall|k: int| 0 <= k < codes.len() ==> (#[trigger] codes[k]).code_offset() <= bound
}

/// Code offsets in a sequence never decrease.
pub open spec fn codes_sorted(codes: Seq<UnwindCode>) -> bool {
    forall|i: int, j: int|
        0 <= i <= j < codes.len() ==> #[trigger] codes[i].code_offset() <= #[trigger] codes[j].code_offset()
}

/// Target-independent unwind description of one function: what its
/// prologue does, what each of its epilogues does, and its sizes.
#[derive(Clone, Debug, PartialEq, Eq)]
pub struct UnwindInfo {
    /// Size in bytes of the prologue.
    pub prologue_size: CodeOffset,
    /// Effects of the prologue, in code order.
    pub prologue_unwind_codes: Vec<UnwindCode>,
    /// Effects of each epilogue, one inner list per epilogue, ordered by
    /// appearance in the code.
    pub epilogues_unwind_codes: Vec<Vec<UnwindCode>>,
    /// Total size in bytes of the function's code.
    pub function_size: CodeOffset,
    /// Size in bytes of a machine word.
    pub word_size: u8,
}

impl UnwindInfo {
    /// A well-formed description names only valid registers and keeps
    /// offsets in code order within each code list.
    pub open spec fn wf(self) -> bool {
        &&& codes_regs_valid(self.prologue_unwind_codes@)
        &&& codes_sorted(self.prologue_unwind_codes@)
        &&& forall|i: int|
            0 <= i < self.epilogues_unwind_codes@.len() ==> codes_regs_valid(
                #[trigger] self.epilogues_unwind_codes@[i]@,
            )
        &&& forall|i: int|
            0 <= i < self.epilogues_unwind_codes@.len() ==> codes_sorted(
                #[trigger] self.epilogues_unwind_codes@[i]@,
            )
    }
}

} // verus!
