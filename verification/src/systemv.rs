//! System V unwind backend: lowers the target-independent unwind codes of
//! one function into DWARF call-frame instructions by running a
//! CFA-offset state machine, and packages them as a frame description
//! entry referencing a shared common information entry.

use vstd::prelude::*;
use crate::ir::UnwindCode;
use crate::reg::{dwarf_reg_num, map_reg, Register};

verus! {

/// One DWARF call-frame instruction, with registers already translated
/// to their DWARF numbers.
#[derive(Clone, Copy, Debug, PartialEq, Eq, Structural)]
pub enum CallFrameInstruction {
    /// The CFA is at `register + offset`.
    Cfa(u16, i32),
    /// The CFA offset changes; its register is unchanged.
    CfaOffset(i32),
    /// The CFA register changes; its offset is unchanged.
    CfaRegister(u16),
    /// The register's saved value lives at `CFA + offset`.
    Offset(u16, i32),
    /// The register holds its value from the caller.
    SameValue(u16),
    /// Snapshot all register rules.
    RememberState,
    /// Restore the last snapshotted register rules.
    RestoreState,
}

/// The state of the CFA state machine: the running offset of the CFA
/// from its register, and the snapshot taken by the last
/// `RememberState` not yet restored.
pub struct CfaState {
    /// Current offset of the CFA from the CFA register.
    pub cfa_offset: int,
    /// Snapshot of `cfa_offset` taken by `RememberState`.
    pub saved_state: Option<int>,
}

/// The machine starts with the CFA one word above the stack pointer,
/// accounting for the return address pushed by the call instruction.
pub open spec fn init_state() -> CfaState {
    CfaState { cfa_offset: 8, saved_state: None }
}

/// Whether a push of `reg` moves the CFA: it does when `reg` is the
/// frame-pointer register, or when no frame pointer is configured.
pub open spec fn push_moves_cfa(fp: Option<Register>, reg: Register) -> bool {
    match fp {
        Some(f) => reg == f,
        None => true,
    }
}

/// The configured frame-pointer register, if any, is valid.
pub open spec fn fp_valid(fp: Option<Register>) -> bool {
    match fp {
        Some(f) => f.valid(),
        None => true,
    }
}

/// Whether one unwind code can be processed from state `st`: its
/// arithmetic stays within `i32`, and a `RestoreState` finds a snapshot.
pub open spec fn step_ok(st: CfaState, code: UnwindCode, fp: Option<Register>) -> bool {
    match code {
        UnwindCode::PushRegister { .. } => st.cfa_offset + 8 <= i32::MAX,
        UnwindCode::PopRegister { .. } => i32::MIN <= st.cfa_offset - 8,
        UnwindCode::StackAlloc { size, .. } => fp is Some || st.cfa_offset + size <= i32::MAX,
        UnwindCode::StackDealloc { size, .. } => fp is Some || i32::MIN <= st.cfa_offset - size,
        UnwindCode::RestoreState { .. } => st.saved_state is Some,
        _ => true,
    }
}

/// The state after processing one unwind code.
pub open spec fn step_state(st: CfaState, code: UnwindCode, fp: Option<Register>) -> CfaState {
    match code {
        UnwindCode::PushRegister { .. } => CfaState { cfa_offset: st.cfa_offset + 8, ..st },
        UnwindCode::PopRegister { .. } => CfaState { cfa_offset: st.cfa_offset - 8, ..st },
        UnwindCode::StackAlloc { size, .. } => {
            if fp is Some {
                st
            } else {
                CfaState { cfa_offset: st.cfa_offset + size, ..st }
            }
        }
        UnwindCode::StackDealloc { size, .. } => {
            if fp is Some {
                st
            } else {
                CfaState { cfa_offset: st.cfa_offset - size, ..st }
            }
        }
        UnwindCode::RememberState { .. } => CfaState { saved_state: Some(st.cfa_offset), ..st },
        UnwindCode::RestoreState { .. } => CfaState {
            cfa_offset: st.saved_state->0,
            saved_state: None,
        },
        _ => st,
    }
}

/// The DWARF instructions emitted for one unwind code from state `st`.
pub open spec fn step_instrs(st: CfaState, code: UnwindCode, fp: Option<Register>) -> Seq<
    (u32, CallFrameInstruction),
> {
    match code {
        UnwindCode::PushRegister { offset, reg } => {
            let cfa = st.cfa_offset + 8;
            let tail = seq![
                (offset, CallFrameInstruction::Offset(dwarf_reg_num(reg), (-cfa) as i32)),
            ];
            if push_moves_cfa(fp, reg) {
                seq![(offset, CallFrameInstruction::CfaOffset(cfa as i32))] + tail
            } else {
                tail
            }
        }
        UnwindCode::PopRegister { offset, reg } => {
            let cfa = st.cfa_offset - 8;
            match fp {
                Some(f) => {
                    if reg == f {
                        seq![(offset, CallFrameInstruction::Cfa(7, cfa as i32))]
                    } else {
                        Seq::empty()
                    }
                }
                None => seq![
                    (offset, CallFrameInstruction::CfaOffset(cfa as i32)),
                    (offset, CallFrameInstruction::SameValue(dwarf_reg_num(reg))),
                ],
            }
        }
        UnwindCode::StackAlloc { offset, size } => {
            if fp is Some {
                Seq::empty()
            } else {
                seq![(offset, CallFrameInstruction::CfaOffset((st.cfa_offset + size) as i32))]
            }
        }
        UnwindCode::StackDealloc { offset, size } => {
            if fp is Some {
                Seq::empty()
            } else {
                seq![(offset, CallFrameInstruction::CfaOffset((st.cfa_offset - size) as i32))]
            }
        }
        UnwindCode::SetCfaRegister { offset, reg } => seq![
            (offset, CallFrameInstruction::CfaRegister(dwarf_reg_num(reg))),
        ],
        UnwindCode::RememberState { offset } => seq![
            (offset, CallFrameInstruction::RememberState),
        ],
        UnwindCode::RestoreState { offset } => seq![(offset, CallFrameInstruction::RestoreState)],
        _ => Seq::empty(),
    }
}

/// Every step of a code sequence can be processed from state `st`.
pub open spec fn run_ok(st: CfaState, codes: Seq<UnwindCode>, fp: Option<Register>) -> bool
    decreases codes.len(),
{
    codes.len() == 0 || (step_ok(st, codes[0], fp) && run_ok(
        step_state(st, codes[0], fp),
        codes.skip(1),
        fp,
    ))
}

/// The state after processing a whole code sequence.
pub open spec fn run_state(st: CfaState, codes: Seq<UnwindCode>, fp: Option<Register>) -> CfaState
    decreases codes.len(),
{
    if codes.len() == 0 {
        st
    } else {
        run_state(step_state(st, codes[0], fp), codes.skip(1), fp)
    }
}

/// The DWARF instructions emitted for a whole code sequence.
pub open spec fn run_instrs(st: CfaState, codes: Seq<UnwindCode>, fp: Option<Register>) -> Seq<
    (u32, CallFrameInstruction),
>
    decreases codes.len(),
{
    if codes.len() == 0 {
        Seq::empty()
    } else {
        step_instrs(st, codes[0], fp) + run_instrs(step_state(st, codes[0], fp), codes.skip(1), fp)
    }
}

/// All unwind codes of one function in processing order: the prologue's
/// codes, then those of each epilogue in order of appearance.
pub open spec fn all_codes(u: crate::ir::UnwindInfo) -> Seq<UnwindCode> {
    u.prologue_unwind_codes@ + flatten_epilogues(
        u.epilogues_unwind_codes@.map_values(|v: Vec<UnwindCode>| v@),
    )
}

/// Concatenation of per-epilogue code lists, in order.
pub open spec fn flatten_epilogues(es: Seq<Seq<UnwindCode>>) -> Seq<UnwindCode>
    decreases es.len(),
{
    if es.len() == 0 {
        Seq::empty()
    } else {
        es[0] + flatten_epilogues(es.skip(1))
    }
}

/// System V unwind information for one function: DWARF call-frame
/// instructions ordered by code offset, plus the function's code length.
#[derive(Debug, PartialEq, Eq)]
pub struct UnwindInfo {
    /// The call-frame instructions, each at its code offset.
    pub instructions: Vec<(u32, CallFrameInstruction)>,
    /// Length in bytes of the function's code.
    pub len: u32,
}

impl Clone for UnwindInfo {
    /// A clone carries the same instructions and length.
    fn clone(&self) -> (r: Self)
        ensures
            r.instructions@ == self.instructions@,
            r.len == self.len,
    {
        UnwindInfo { instructions: crate::copy_elements(&self.instructions), len: self.len }
    }
}

impl UnwindInfo {
    /// Packages an instruction list and a code length.
    pub fn new(instructions: Vec<(u32, CallFrameInstruction)>, len: u32) -> (r: UnwindInfo)
        ensures
            r.instructions == instructions,
            r.len == len,
    {
        UnwindInfo { instructions, len }
    }
}

/// Runs the CFA state machine over one function's unwind codes,
/// translating each code into its DWARF call-frame instructions.
pub struct InstructionBuilder {
    /// Running offset of the CFA from the CFA register.
    pub cfa_offset: i32,
    /// Snapshot taken by the last `RememberState` not yet restored.
    pub saved_state: Option<i32>,
    /// The dedicated frame-pointer register, if one is in use.
    pub frame_register: Option<Register>,
    /// The instructions emitted so far, in code order.
    pub instructions: Vec<(u32, CallFrameInstruction)>,
    /// Index of the instruction ending the prologue, when known.
    pub prologue_end: Option<u32>,
    /// Indices of the instructions starting each epilogue.
    pub epilogues_start: Vec<u32>,
}

impl InstructionBuilder {
    /// The builder's position in the CFA state machine.
    pub open spec fn state(self) -> CfaState {
        CfaState {
            cfa_offset: self.cfa_offset as int,
            saved_state: match self.saved_state {
                Some(v) => Some(v as int),
                None => None,
            },
        }
    }

    /// The builder's fixed configuration, unchanged by processing codes.
    pub open spec fn same_config(self, other: InstructionBuilder) -> bool {
        &&& self.frame_register == other.frame_register
        &&& self.prologue_end == other.prologue_end
        &&& self.epilogues_start == other.epilogues_start
    }

    /// Starts the machine at the initial CFA offset of one word,
    /// accounting for the return address pushed by the call instruction.
    pub fn new(
        frame_register: Option<Register>,
        prologue_end: Option<u32>,
        epilogues_start: Vec<u32>,
    ) -> (r: InstructionBuilder)
        ensures
            r.state() == init_state(),
            r.instructions@ == Seq::<(u32, CallFrameInstruction)>::empty(),
            r.frame_register == frame_register,
            r.prologue_end == prologue_end,
            r.epilogues_start == epilogues_start,
    {
        InstructionBuilder {
            cfa_offset: 8,
            saved_state: None,
            frame_register,
            instructions: Vec::new(),
            prologue_end,
            epilogues_start,
        }
    }

    /// Processes a push of `reg`: the CFA moves one word away from the
    /// stack pointer, and the register's saved value is recorded at its
    /// offset from the CFA.
    pub fn push_reg(&mut self, offset: u32, reg: Register)
        requires
            reg.valid(),
            step_ok(old(self).state(), UnwindCode::PushRegister { offset, reg }, old(
                self,
            ).frame_register),
        ensures
            final(self).same_config(*old(self)),
            final(self).state() == step_state(
                old(self).state(),
                UnwindCode::PushRegister { offset, reg },
                old(self).frame_register,
            ),
            final(self).instructions@ == old(self).instructions@ + step_instrs(
                old(self).state(),
                UnwindCode::PushRegister { offset, reg },
                old(self).frame_register,
            ),
    {
        self.cfa_offset = self.cfa_offset + 8;
        let moves = match self.frame_register {
            Some(f) => reg == f,
            None => true,
        };
        if moves {
            self.instructions.push((offset, CallFrameInstruction::CfaOffset(self.cfa_offset)));
        }
        let n = match map_reg(reg) {
            Ok(n) => n,
            Err(_) => 0,
        };
        self.instructions.push((offset, CallFrameInstruction::Offset(n, -self.cfa_offset)));
        proof {
            assert(self.instructions@ =~= old(self).instructions@ + step_instrs(
                old(self).state(),
                UnwindCode::PushRegister { offset, reg },
                old(self).frame_register,
            ));
        }
    }

    /// Processes a stack allocation: when no frame pointer is in use the
    /// CFA moves by the allocated size.
    pub fn adjust_sp_down_imm(&mut self, offset: u32, imm: i64)
        requires
            0 <= imm <= u32::MAX,
            step_ok(
                old(self).state(),
                UnwindCode::StackAlloc { offset, size: imm as u32 },
                old(self).frame_register,
            ),
        ensures
            final(self).same_config(*old(self)),
            final(self).state() == step_state(
                old(self).state(),
                UnwindCode::StackAlloc { offset, size: imm as u32 },
                old(self).frame_register,
            ),
            final(self).instructions@ == old(self).instructions@ + step_instrs(
                old(self).state(),
                UnwindCode::StackAlloc { offset, size: imm as u32 },
                old(self).frame_register,
            ),
    {
        if self.frame_register.is_some() {
            proof {
                assert(self.instructions@ =~= self.instructions@ + step_instrs(
                    self.state(),
                    UnwindCode::StackAlloc { offset, size: imm as u32 },
                    self.frame_register,
                ));
            }
        } else {
            let new_cfa: i64 = self.cfa_offset as i64 + imm;
            assert(i32::MIN <= new_cfa <= i32::MAX);
            self.cfa_offset = new_cfa as i32;
            self.instructions.push((offset, CallFrameInstruction::CfaOffset(self.cfa_offset)));
            proof {
                assert(self.instructions@ =~= old(self).instructions@ + step_instrs(
                    old(self).state(),
                    UnwindCode::StackAlloc { offset, size: imm as u32 },
                    old(self).frame_register,
                ));
            }
        }
    }

    /// Processes a stack deallocation: when no frame pointer is in use
    /// the CFA moves back by the freed size.
    pub fn adjust_sp_up_imm(&mut self, offset: u32, imm: i64)
        requires
            0 <= imm <= u32::MAX,
            step_ok(
                old(self).state(),
                UnwindCode::StackDealloc { offset, size: imm as u32 },
                old(self).frame_register,
            ),
        ensures
            final(self).same_config(*old(self)),
            final(self).state() == step_state(
                old(self).state(),
                UnwindCode::StackDealloc { offset, size: imm as u32 },
                old(self).frame_register,
            ),
            final(self).instructions@ == old(self).instructions@ + step_instrs(
                old(self).state(),
                UnwindCode::StackDealloc { offset, size: imm as u32 },
                old(self).frame_register,
            ),
    {
        if self.frame_register.is_some() {
            proof {
                assert(self.instructions@ =~= self.instructions@ + step_instrs(
                    self.state(),
                    UnwindCode::StackDealloc { offset, size: imm as u32 },
                    self.frame_register,
                ));
            }
        } else {
            let new_cfa: i64 = self.cfa_offset as i64 - imm;
            assert(i32::MIN <= new_cfa <= i32::MAX);
            self.cfa_offset = new_cfa as i32;
            self.instructions.push((offset, CallFrameInstruction::CfaOffset(self.cfa_offset)));
            proof {
                assert(self.instructions@ =~= old(self).instructions@ + step_instrs(
                    old(self).state(),
                    UnwindCode::StackDealloc { offset, size: imm as u32 },
                    old(self).frame_register,
                ));
            }
        }
    }

    /// Records that the CFA is now tracked relative to `reg`.
    pub fn set_cfa_reg(&mut self, offset: u32, reg: Register)
        requires
            reg.valid(),
        ensures
            final(self).same_config(*old(self)),
            final(self).state() == old(self).state(),
            final(self).instructions@ == old(self).instructions@ + step_instrs(
                old(self).state(),
                UnwindCode::SetCfaRegister { offset, reg },
                old(self).frame_register,
            ),
    {
        let n = match map_reg(reg) {
            Ok(n) => n,
            Err(_) => 0,
        };
        self.instructions.push((offset, CallFrameInstruction::CfaRegister(n)));
        proof {
            assert(self.instructions@ =~= old(self).instructions@ + step_instrs(
                old(self).state(),
                UnwindCode::SetCfaRegister { offset, reg },
                old(self).frame_register,
            ));
        }
    }

    /// Processes a pop of `reg`: the CFA moves one word back towards the
    /// stack pointer. Popping the frame pointer re-anchors the CFA on the
    /// stack pointer; without a frame pointer the register is restored.
    pub fn pop_reg(&mut self, offset: u32, reg: Register)
        requires
            reg.valid(),
            step_ok(old(self).state(), UnwindCode::PopRegister { offset, reg }, old(
                self,
            ).frame_register),
        ensures
            final(self).same_config(*old(self)),
            final(self).state() == step_state(
                old(self).state(),
                UnwindCode::PopRegister { offset, reg },
                old(self).frame_register,
            ),
            final(self).instructions@ == old(self).instructions@ + step_instrs(
                old(self).state(),
                UnwindCode::PopRegister { offset, reg },
                old(self).frame_register,
            ),
    {
        self.cfa_offset = self.cfa_offset - 8;
        match self.frame_register {
            Some(f) => {
                if reg == f {
                    self.instructions.push((offset, CallFrameInstruction::Cfa(7, self.cfa_offset)));
                }
            }
            None => {
                self.instructions.push((offset, CallFrameInstruction::CfaOffset(self.cfa_offset)));
                let n = match map_reg(reg) {
                    Ok(n) => n,
                    Err(_) => 0,
                };
                self.instructions.push((offset, CallFrameInstruction::SameValue(n)));
            }
        }
        proof {
            assert(self.instructions@ =~= old(self).instructions@ + step_instrs(
                old(self).state(),
                UnwindCode::PopRegister { offset, reg },
                old(self).frame_register,
            ));
        }
    }

    /// Snapshots the CFA offset and emits `RememberState`.
    pub fn remember_state(&mut self, offset: u32)
        ensures
            final(self).same_config(*old(self)),
            final(self).state() == step_state(
                old(self).state(),
                UnwindCode::RememberState { offset },
                old(self).frame_register,
            ),
            final(self).instructions@ == old(self).instructions@ + step_instrs(
                old(self).state(),
                UnwindCode::RememberState { offset },
                old(self).frame_register,
            ),
    {
        self.saved_state = Some(self.cfa_offset);
        self.instructions.push((offset, CallFrameInstruction::RememberState));
        proof {
            assert(self.instructions@ =~= old(self).instructions@ + step_instrs(
                old(self).state(),
                UnwindCode::RememberState { offset },
                old(self).frame_register,
            ));
        }
    }

    /// Restores the CFA offset from the snapshot and emits
    /// `RestoreState`. A snapshot must exist.
    pub fn restore_state(&mut self, offset: u32)
        requires
            old(self).saved_state is Some,
        ensures
            final(self).same_config(*old(self)),
            final(self).state() == step_state(
                old(self).state(),
                UnwindCode::RestoreState { offset },
                old(self).frame_register,
            ),
            final(self).instructions@ == old(self).instructions@ + step_instrs(
                old(self).state(),
                UnwindCode::RestoreState { offset },
                old(self).frame_register,
            ),
    {
        let cfa_offset = match self.saved_state {
            Some(v) => v,
            None => 0,
        };
        self.cfa_offset = cfa_offset;
        self.saved_state = None;
        self.instructions.push((offset, CallFrameInstruction::RestoreState));
        proof {
            assert(self.instructions@ =~= old(self).instructions@ + step_instrs(
                old(self).state(),
                UnwindCode::RestoreState { offset },
                old(self).frame_register,
            ));
        }
    }

    /// Whether instruction index `inst` ends the prologue.
    pub fn is_prologue_end(&self, inst: u32) -> (r: bool)
        ensures
            r == (self.prologue_end == Some(inst)),
    {
        match self.prologue_end {
            Some(e) => e == inst,
            None => false,
        }
    }

    /// Whether instruction index `inst` starts an epilogue.
    pub fn is_epilogue_start(&self, inst: u32) -> (r: bool)
        ensures
            r == self.epilogues_start@.contains(inst),
    {
        let mut i: usize = 0;
        while i < self.epilogues_start.len()
            invariant
                0 <= i <= self.epilogues_start@.len(),
                forall|k: int| 0 <= k < i ==> self.epilogues_start@[k] != inst,
            decreases self.epilogues_start@.len() - i,
        {
            if self.epilogues_start[i] == inst {
                return true;
            }
            i = i + 1;
        }
        false
    }
}

/// Lowers one function's unwind description to System V unwind
/// information: the prologue's codes and then each epilogue's codes run
/// through the CFA state machine, and the emitted DWARF instructions are
/// collected in code order.
pub fn create_unwind_info(unwind: &crate::ir::UnwindInfo, frame_register: Option<Register>) -> (r:
    Option<UnwindInfo>)
    requires
        unwind.wf(),
        fp_valid(frame_register),
        run_ok(init_state(), all_codes(*unwind), frame_register),
    ensures
        match r {
            Some(u) => {
                &&& u.instructions@ == run_instrs(
                    init_state(),
                    all_codes(*unwind),
                    frame_register,
                )
                &&& u.len == unwind.function_size
            }
            None => false,
        },
{
    let ghost codes: Seq<UnwindCode> = all_codes(*unwind);
    let mut builder = InstructionBuilder::new(frame_register, None, Vec::new());
    proof {
        assert(codes.skip(0) =~= codes);
        assert(Seq::<(u32, CallFrameInstruction)>::empty() + run_instrs(
            init_state(),
            codes,
            frame_register,
        ) =~= run_instrs(init_state(), codes, frame_register));
    }

    let mut i: usize = 0;
    while i < unwind.prologue_unwind_codes.len()
        invariant
            0 <= i <= unwind.prologue_unwind_codes@.len(),
            unwind.wf(),
            fp_valid(frame_register),
            builder.frame_register == frame_register,
            codes == all_codes(*unwind),
            run_ok(builder.state(), codes.skip(i as int), frame_register),
            run_instrs(init_state(), codes, frame_register) == builder.instructions@ + run_instrs(
                builder.state(),
                codes.skip(i as int),
                frame_register,
            ),
        decreases unwind.prologue_unwind_codes@.len() - i,
    {
        let ghost st = builder.state();
        let ghost prev = builder.instructions@;
        let ghost rest = codes.skip(i as int);
        proof {
            assert(codes[i as int] == unwind.prologue_unwind_codes@[i as int]);
            assert(rest[0] == codes[i as int]);
            assert(rest.skip(1) =~= codes.skip(i + 1));
            assert(unwind.prologue_unwind_codes@[i as int].regs_valid());
        }
        let code = unwind.prologue_unwind_codes[i];
        process_code(&mut builder, code);
        proof {
            assert(run_instrs(st, rest, frame_register) == step_instrs(st, code, frame_register)
                + run_instrs(builder.state(), codes.skip(i + 1), frame_register));
            assert((prev + step_instrs(st, code, frame_register)) + run_instrs(
                builder.state(),
                codes.skip(i + 1),
                frame_register,
            ) =~= prev + run_instrs(st, rest, frame_register));
        }
        i = i + 1;
    }

    let ghost prologue_len = unwind.prologue_unwind_codes@.len() as int;
    proof {
        lemma_flatten_len_bound(unwind.epilogues_unwind_codes@.map_values(|v: Vec<UnwindCode>| v@));
        assert(consumed(*unwind, 0) == prologue_len);
    }
    let mut e: usize = 0;
    while e < unwind.epilogues_unwind_codes.len()
        invariant
            0 <= e <= unwind.epilogues_unwind_codes@.len(),
            unwind.wf(),
            fp_valid(frame_register),
            builder.frame_register == frame_register,
            codes == all_codes(*unwind),
            prologue_len == unwind.prologue_unwind_codes@.len(),
            0 <= consumed(*unwind, e as int) <= codes.len(),
            run_ok(builder.state(), codes.skip(consumed(*unwind, e as int)), frame_register),
            run_instrs(init_state(), codes, frame_register) == builder.instructions@ + run_instrs(
                builder.state(),
                codes.skip(consumed(*unwind, e as int)),
                frame_register,
            ),
        decreases unwind.epilogues_unwind_codes@.len() - e,
    {
        proof {
            lemma_consumed_next(*unwind, e as int);
        }
        let epilogue = &unwind.epilogues_unwind_codes[e];
        let mut j: usize = 0;
        while j < epilogue.len()
            invariant
                0 <= j <= epilogue@.len(),
                0 <= e < unwind.epilogues_unwind_codes@.len(),
                epilogue@ == unwind.epilogues_unwind_codes@[e as int]@,
                unwind.wf(),
                fp_valid(frame_register),
                builder.frame_register == frame_register,
                codes == all_codes(*unwind),
                0 <= consumed(*unwind, e as int),
                consumed(*unwind, e as int) + epilogue@.len() == consumed(*unwind, e + 1),
                consumed(*unwind, e + 1) <= codes.len(),
                forall|k: int|
                    0 <= k < epilogue@.len() ==> #[trigger] codes[consumed(*unwind, e as int) + k]
                        == epilogue@[k],
                run_ok(
                    builder.state(),
                    codes.skip(consumed(*unwind, e as int) + j),
                    frame_register,
                ),
                run_instrs(init_state(), codes, frame_register) == builder.instructions@
                    + run_instrs(
                    builder.state(),
                    codes.skip(consumed(*unwind, e as int) + j),
                    frame_register,
                ),
            decreases epilogue@.len() - j,
        {
            let ghost pos = consumed(*unwind, e as int) + j;
            let ghost st = builder.state();
            let ghost prev = builder.instructions@;
            let ghost rest = codes.skip(pos);
            proof {
                assert(codes[consumed(*unwind, e as int) + j] == epilogue@[j as int]);
                assert(rest[0] == codes[pos]);
                assert(rest.skip(1) =~= codes.skip(pos + 1));
                assert(epilogue@[j as int].regs_valid());
            }
            let code = epilogue[j];
            process_code(&mut builder, code);
            proof {
                assert(run_instrs(st, rest, frame_register) == step_instrs(
                    st,
                    code,
                    frame_register,
                ) + run_instrs(builder.state(), codes.skip(pos + 1), frame_register));
                assert((prev + step_instrs(st, code, frame_register)) + run_instrs(
                    builder.state(),
                    codes.skip(pos + 1),
                    frame_register,
                ) =~= prev + run_instrs(st, rest, frame_register));
            }
            j = j + 1;
        }
        e = e + 1;
    }
    proof {
        lemma_consumed_total(*unwind);
        assert(codes.skip(codes.len() as int) =~= Seq::<UnwindCode>::empty());
    }
    Some(UnwindInfo { instructions: builder.instructions, len: unwind.function_size })
}

/// Number of unwind codes processed once the prologue and the first `e`
/// epilogues are done.
pub open spec fn consumed(u: crate::ir::UnwindInfo, e: int) -> int
    decreases e,
{
    if e <= 0 {
        u.prologue_unwind_codes@.len() as int
    } else {
        consumed(u, e - 1) + u.epilogues_unwind_codes@[e - 1]@.len()
    }
}

proof fn lemma_flatten_index(es: Seq<Seq<UnwindCode>>, e: int)
    requires
        0 <= e < es.len(),
    ensures
        flatten_len(es.take(e)) + es[e].len() <= flatten_len(es),
        forall|k: int|
            0 <= k < es[e].len() ==> flatten_epilogues(es)[flatten_len(es.take(e)) + k] == es[e][k],
    decreases es.len(),
{
    assert(flatten_epilogues(es) == es[0] + flatten_epilogues(es.skip(1)));
    if e == 0 {
        assert(es.take(0) =~= Seq::<Seq<UnwindCode>>::empty());
        lemma_flatten_len_bound(es.skip(1));
        assert forall|k: int| 0 <= k < es[0].len() implies flatten_epilogues(es)[k]
            == es[0][k] by {
            assert(flatten_epilogues(es)[k] == (es[0] + flatten_epilogues(es.skip(1)))[k]);
        }
    } else {
        lemma_flatten_index(es.skip(1), e - 1);
        lemma_flatten_len_bound(es);
        lemma_flatten_len_bound(es.skip(1));
        lemma_flatten_len_bound(es.skip(1).take(e - 1));
        assert(es.skip(1).take(e - 1) =~= es.take(e).skip(1));
        assert(flatten_epilogues(es.take(e)) == es.take(e)[0] + flatten_epilogues(
            es.take(e).skip(1),
        ));
        assert(flatten_len(es.take(e)) == es.take(e)[0].len() + flatten_len(es.take(e).skip(1)));
        assert(es.take(e)[0] == es[0]);
        assert(es.skip(1)[e - 1] == es[e]);
        assert forall|k: int| 0 <= k < es[e].len() implies flatten_epilogues(es)[flatten_len(
            es.take(e),
        ) + k] == es[e][k] by {
            let idx = flatten_len(es.take(e)) + k;
            assert(flatten_len(es.take(e)) == es[0].len() + flatten_len(es.skip(1).take(e - 1)));
            assert(flatten_epilogues(es)[idx] == flatten_epilogues(es.skip(1))[idx - es[0].len()]);
            assert(flatten_epilogues(es.skip(1))[flatten_len(es.skip(1).take(e - 1)) + k]
                == es.skip(1)[e - 1][k]);
        }
    }
}

/// Total length of a flattened sequence of code lists.
pub open spec fn flatten_len(es: Seq<Seq<UnwindCode>>) -> int
    decreases es.len(),
{
    if es.len() == 0 {
        0
    } else {
        es[0].len() + flatten_len(es.skip(1))
    }
}

proof fn lemma_flatten_len_bound(es: Seq<Seq<UnwindCode>>)
    ensures
        flatten_epilogues(es).len() == flatten_len(es),
        flatten_len(es) >= 0,
    decreases es.len(),
{
    if es.len() > 0 {
        lemma_flatten_len_bound(es.skip(1));
    }
}

proof fn lemma_consumed_flatten(u: crate::ir::UnwindInfo, e: int)
    requires
        0 <= e <= u.epilogues_unwind_codes@.len(),
    ensures
        consumed(u, e) == u.prologue_unwind_codes@.len() + flatten_len(
            u.epilogues_unwind_codes@.map_values(|v: Vec<UnwindCode>| v@).take(e),
        ),
    decreases e,
{
    let es = u.epilogues_unwind_codes@.map_values(|v: Vec<UnwindCode>| v@);
    if e == 0 {
        assert(es.take(0) =~= Seq::<Seq<UnwindCode>>::empty());
    } else {
        lemma_consumed_flatten(u, e - 1);
        lemma_flatten_len_snoc(es, e);
    }
}

proof fn lemma_flatten_len_snoc(es: Seq<Seq<UnwindCode>>, e: int)
    requires
        0 < e <= es.len(),
    ensures
        flatten_len(es.take(e)) == flatten_len(es.take(e - 1)) + es[e - 1].len(),
    decreases e,
{
    if e == 1 {
        assert(es.take(1) == seq![es[0]]);
        assert(es.take(1).skip(1) =~= Seq::<Seq<UnwindCode>>::empty());
        assert(es.take(0) =~= Seq::<Seq<UnwindCode>>::empty());
    } else {
        lemma_flatten_len_snoc(es.skip(1), e - 1);
        assert(es.take(e).skip(1) =~= es.skip(1).take(e - 1));
        assert(es.take(e - 1).skip(1) =~= es.skip(1).take(e - 2));
        assert(flatten_epilogues(es.take(e)) == es.take(e)[0] + flatten_epilogues(
            es.take(e).skip(1),
        ));
        assert(es.take(e)[0] == es[0]);
        assert(es.take(e - 1)[0] == es[0]);
        assert(es.skip(1)[e - 2] == es[e - 1]);
    }
}

/// After the prologue and `e` epilogues, the next epilogue's codes lie
/// contiguously in `all_codes`.
proof fn lemma_consumed_next(u: crate::ir::UnwindInfo, e: int)
    requires
        0 <= e < u.epilogues_unwind_codes@.len(),
    ensures
        consumed(u, e + 1) == consumed(u, e) + u.epilogues_unwind_codes@[e]@.len(),
        consumed(u, e + 1) <= all_codes(u).len(),
        forall|k: int|
            0 <= k < u.epilogues_unwind_codes@[e]@.len() ==> all_codes(u)[consumed(u, e) + k]
                == u.epilogues_unwind_codes@[e]@[k],
{
    let es = u.epilogues_unwind_codes@.map_values(|v: Vec<UnwindCode>| v@);
    lemma_consumed_flatten(u, e);
    lemma_flatten_index(es, e);
    lemma_flatten_len_bound(es);
    lemma_flatten_len_bound(es.take(e));
    lemma_flatten_len_snoc(es, e + 1);
    lemma_consumed_flatten(u, e + 1);
    assert(es[e] == u.epilogues_unwind_codes@[e]@);
    assert forall|k: int| 0 <= k < u.epilogues_unwind_codes@[e]@.len() implies all_codes(u)[consumed(
        u,
        e,
    ) + k] == u.epilogues_unwind_codes@[e]@[k] by {
        assert(flatten_epilogues(es)[flatten_len(es.take(e)) + k] == es[e][k]);
        assert(all_codes(u)[u.prologue_unwind_codes@.len() + flatten_len(es.take(e)) + k]
            == flatten_epilogues(es)[flatten_len(es.take(e)) + k]);
    }
}

/// Once every epilogue is processed, every code of `all_codes` is
/// consumed.
proof fn lemma_consumed_total(u: crate::ir::UnwindInfo)
    ensures
        consumed(u, u.epilogues_unwind_codes@.len() as int) == all_codes(u).len(),
{
    let es = u.epilogues_unwind_codes@.map_values(|v: Vec<UnwindCode>| v@);
    lemma_consumed_flatten(u, u.epilogues_unwind_codes@.len() as int);
    lemma_flatten_len_bound(es);
    assert(es.take(es.len() as int) =~= es);
}

/// Dispatches one unwind code to the builder method that processes it.
fn process_code(builder: &mut InstructionBuilder, code: UnwindCode)
    requires
        code.regs_valid(),
        fp_valid(old(builder).frame_register),
        step_ok(old(builder).state(), code, old(builder).frame_register),
    ensures
        final(builder).same_config(*old(builder)),
        final(builder).state() == step_state(
            old(builder).state(),
            code,
            old(builder).frame_register,
        ),
        final(builder).instructions@ == old(builder).instructions@ + step_instrs(
            old(builder).state(),
            code,
            old(builder).frame_register,
        ),
{
    match code {
        UnwindCode::PushRegister { offset, reg } => builder.push_reg(offset, reg),
        UnwindCode::PopRegister { offset, reg } => builder.pop_reg(offset, reg),
        UnwindCode::StackAlloc { offset, size } => builder.adjust_sp_down_imm(offset, size as i64),
        UnwindCode::StackDealloc { offset, size } => builder.adjust_sp_up_imm(offset, size as i64),
        UnwindCode::SetCfaRegister { offset, reg } => builder.set_cfa_reg(offset, reg),
        UnwindCode::RememberState { offset } => builder.remember_state(offset),
        UnwindCode::RestoreState { offset } => builder.restore_state(offset),
        UnwindCode::SaveRegister { .. } => {
            proof {
                assert(builder.instructions@ =~= builder.instructions@ + Seq::<
                    (u32, CallFrameInstruction),
                >::empty());
            }
        }
        UnwindCode::SaveXmm { .. } => {
            proof {
                assert(builder.instructions@ =~= builder.instructions@ + Seq::<
                    (u32, CallFrameInstruction),
                >::empty());
            }
        }
    }
}

/// Offsets of an instruction list never decrease.
pub open spec fn instrs_sorted(s: Seq<(u32, CallFrameInstruction)>) -> bool {
    forall|i: int, j: int| 0 <= i <= j < s.len() ==> (#[trigger] s[i]).0 <= (#[trigger] s[j]).0
}

/// Every instruction emitted for one unwind code carries that code's offset.
proof fn lemma_step_instrs_offsets(st: CfaState, code: UnwindCode, fp: Option<Register>)
    ensures
        forall|i: int|
            0 <= i < step_instrs(st, code, fp).len() ==> (#[trigger] step_instrs(st, code, fp)[i]).0
                == code.code_offset(),
{
    let out = step_instrs(st, code, fp);
    assert forall|i: int| 0 <= i < out.len() implies out[i].0 == code.code_offset() by {
        if i == 0 {
        } else {
            assert(i >= 1);
        }
    }
}

/// The state machine emits instructions in code order: when the unwind
/// codes are sorted by offset, so is the emitted instruction list, and no
/// instruction precedes the first code's offset. This realizes the
/// invariant that System V unwind information is ordered by offset.
pub proof fn lemma_run_instrs_sorted(st: CfaState, codes: Seq<UnwindCode>, fp: Option<Register>)
    requires
        crate::ir::codes_sorted(codes),
    ensures
        instrs_sorted(run_instrs(st, codes, fp)),
        codes.len() > 0 ==> forall|i: int|
            0 <= i < run_instrs(st, codes, fp).len() ==> (#[trigger] run_instrs(st, codes, fp)[i]).0
                >= codes[0].code_offset(),
    decreases codes.len(),
{
    if codes.len() > 0 {
        let c0 = codes[0];
        let head = step_instrs(st, c0, fp);
        let st1 = step_state(st, c0, fp);
        let rest = codes.skip(1);
        let tail = run_instrs(st1, rest, fp);
        assert(crate::ir::codes_sorted(rest)) by {
            assert forall|i: int, j: int| 0 <= i <= j < rest.len() implies (
            #[trigger] rest[i].code_offset()) <= (#[trigger] rest[j].code_offset()) by {
                assert(rest[i] == codes[i + 1]);
                assert(rest[j] == codes[j + 1]);
            }
        }
        lemma_run_instrs_sorted(st1, rest, fp);
        lemma_step_instrs_offsets(st, c0, fp);
        let out = run_instrs(st, codes, fp);
        assert(out == head + tail);
        assert forall|i: int| 0 <= i < out.len() implies (#[trigger] out[i]).0
            >= c0.code_offset() by {
            if i < head.len() {
                assert(out[i] == head[i]);
            } else {
                assert(out[i] == tail[i - head.len()]);
                assert(rest[0] == codes[1]);
                assert(codes[0].code_offset() <= codes[1].code_offset());
            }
        }
        assert forall|i: int, j: int| 0 <= i <= j < out.len() implies (#[trigger] out[i]).0 <= (
        #[trigger] out[j]).0 by {
            if j < head.len() {
                assert(out[i] == head[i]);
                assert(out[j] == head[j]);
            } else if i >= head.len() {
                assert(out[i] == tail[i - head.len()]);
                assert(out[j] == tail[j - head.len()]);
            } else {
                assert(out[i] == head[i]);
                assert(out[j] == tail[j - head.len()]);
                assert(rest[0] == codes[1]);
                assert(codes[0].code_offset() <= codes[1].code_offset());
            }
        }
    }
}

/// Every emitted instruction carries the offset of some input code:
/// when the unwind codes stay within the function's length, so does the
/// emitted instruction list.
pub proof fn lemma_run_instrs_bounded(
    st: CfaState,
    codes: Seq<UnwindCode>,
    fp: Option<Register>,
    bound: u32,
)
    requires
        crate::ir::codes_bounded(codes, bound),
    ensures
        forall|i: int|
            0 <= i < run_instrs(st, codes, fp).len() ==> (#[trigger] run_instrs(st, codes, fp)[i]).0
                <= bound,
    decreases codes.len(),
{
    if codes.len() > 0 {
        let c0 = codes[0];
        let head = step_instrs(st, c0, fp);
        let st1 = step_state(st, c0, fp);
        let rest = codes.skip(1);
        assert(crate::ir::codes_bounded(rest, bound)) by {
            assert(forall|i: int| 0 <= i < rest.len() ==> #[trigger] rest[i] == codes[i + 1]);
        }
        lemma_run_instrs_bounded(st1, rest, fp, bound);
        lemma_step_instrs_offsets(st, c0, fp);
        let out = run_instrs(st, codes, fp);
        let tail = run_instrs(st1, rest, fp);
        assert(out == head + tail);
        assert forall|i: int| 0 <= i < out.len() implies (#[trigger] out[i]).0 <= bound by {
            if i < head.len() {
                assert(out[i] == head[i]);
            } else {
                assert(out[i] == tail[i - head.len()]);
            }
        }
    }
}

/// Law: for a function whose first prologue effect is the push of the
/// frame-pointer register, the System V output's first two instructions
/// are `CfaOffset(16)` and `Offset(fp, -16)`: the return-address slot
/// plus the pushed frame pointer, each one word wide.
pub proof fn lemma_frame_pointer_prologue(
    u: crate::ir::UnwindInfo,
    fp: Option<Register>,
    offset: u32,
    f: Register,
)
    requires
        u.prologue_unwind_codes@.len() >= 1,
        u.prologue_unwind_codes@[0] == (UnwindCode::PushRegister { offset, reg: f }),
        push_moves_cfa(fp, f),
    ensures
        run_instrs(init_state(), all_codes(u), fp).len() >= 2,
        run_instrs(init_state(), all_codes(u), fp)[0] == (
            offset,
            CallFrameInstruction::CfaOffset(16),
        ),
        run_instrs(init_state(), all_codes(u), fp)[1] == (
            offset,
            CallFrameInstruction::Offset(dwarf_reg_num(f), -16i32),
        ),
{
    let codes = all_codes(u);
    assert(codes[0] == u.prologue_unwind_codes@[0]);
    let head = step_instrs(init_state(), codes[0], fp);
    assert(head[0] == (offset, CallFrameInstruction::CfaOffset(16)));
    assert(head[1] == (offset, CallFrameInstruction::Offset(dwarf_reg_num(f), -16i32)));
    assert(run_instrs(init_state(), codes, fp) == head + run_instrs(
        step_state(init_state(), codes[0], fp),
        codes.skip(1),
        fp,
    ));
}

#[verifier::external_type_specification]
#[verifier::external_body]
pub struct ExCommonInformationEntry(gimli::write::CommonInformationEntry);

#[verifier::external_type_specification]
#[verifier::external_body]
pub struct ExFrameDescriptionEntry(gimli::write::FrameDescriptionEntry);

#[verifier::external_type_specification]
#[verifier::external_body]
pub struct ExAddress(gimli::write::Address);

/// Relies on gimli's write::CommonInformationEntry: builds the one CIE
/// shared by every function of a compilation session, with code
/// alignment factor 1, data alignment factor -8, the return-address
/// column, and the two initial rules CFA = RSP + 8 and return address
/// saved at CFA - 8.
#[verifier::external_body]
pub fn create_cie() -> gimli::write::CommonInformationEntry {
    let mut entry = gimli::write::CommonInformationEntry::new(
        gimli::Encoding { address_size: 8, format: gimli::Format::Dwarf32, version: 1 },
        1,
        -8,
        gimli::X86_64::RA,
    );
    entry.add_instruction(gimli::write::CallFrameInstruction::Cfa(gimli::X86_64::RSP, 8));
    entry.add_instruction(gimli::write::CallFrameInstruction::Offset(gimli::X86_64::RA, -8));
    entry
}

/// Relies on gimli's write::FrameDescriptionEntry::new: a frame
/// description entry for a function at `address` whose code is `length`
/// bytes, carrying no instructions yet.
#[verifier::external_body]
fn fde_new(address: gimli::write::Address, length: u32) -> gimli::write::FrameDescriptionEntry {
    gimli::write::FrameDescriptionEntry::new(address, length)
}

/// Relies on gimli's write::FrameDescriptionEntry::add_instruction,
/// which appends one call-frame instruction at `offset`. gimli expects
/// offsets to be added in non-decreasing order; the one caller adds them
/// from a list sorted by offset.
#[verifier::external_body]
fn fde_add_instruction(
    fde: &mut gimli::write::FrameDescriptionEntry,
    offset: u32,
    instruction: &CallFrameInstruction,
) {
    fde.add_instruction(offset, match *instruction {
        CallFrameInstruction::Cfa(r, o) => gimli::write::CallFrameInstruction::Cfa(gimli::Register(r), o),
        CallFrameInstruction::CfaOffset(o) => gimli::write::CallFrameInstruction::CfaOffset(o),
        CallFrameInstruction::CfaRegister(r) => gimli::write::CallFrameInstruction::CfaRegister(gimli::Register(r)),
        CallFrameInstruction::Offset(r, o) => gimli::write::CallFrameInstruction::Offset(gimli::Register(r), o),
        CallFrameInstruction::SameValue(r) => gimli::write::CallFrameInstruction::SameValue(gimli::Register(r)),
        CallFrameInstruction::RememberState => gimli::write::CallFrameInstruction::RememberState,
        CallFrameInstruction::RestoreState => gimli::write::CallFrameInstruction::RestoreState,
    });
}

impl UnwindInfo {
    /// Builds the complete frame description entry for a function at
    /// `address`: the instruction list, already ordered by code offset,
    /// is added to an entry that references the shared CIE of
    /// `create_cie` when assembled into a frame table.
    pub fn to_fde(&self, address: gimli::write::Address) -> gimli::write::FrameDescriptionEntry
        requires
            instrs_sorted(self.instructions@),
    {
        let mut fde = fde_new(address, self.len);
        let mut i: usize = 0;
        while i < self.instructions.len()
            invariant
                0 <= i <= self.instructions@.len(),
            decreases self.instructions@.len() - i,
        {
            let (offset, instruction) = self.instructions[i];
            fde_add_instruction(&mut fde, offset, &instruction);
            i = i + 1;
        }
        fde
    }
}

/// Codes that only build a frame: no pop, and no state snapshotting.
pub open spec fn frame_building_codes(codes: Seq<UnwindCode>) -> bool {
    forall|i: int|
        0 <= i < codes.len() ==> match #[trigger] codes[i] {
            UnwindCode::PopRegister { .. } => false,
            UnwindCode::RememberState { .. } => false,
            UnwindCode::RestoreState { .. } => false,
            _ => true,
        }
}

/// An epilogue's code list: empty, or one `RememberState` followed by
/// one `RestoreState`.
pub open spec fn remember_restore_chunk(chunk: Seq<UnwindCode>) -> bool {
    ||| chunk.len() == 0
    ||| (chunk.len() == 2 && chunk[0] is RememberState && chunk[1] is RestoreState)
}

/// Running the machine over a concatenation runs it over each part in
/// turn.
pub proof fn lemma_run_append(
    st: CfaState,
    a: Seq<UnwindCode>,
    b: Seq<UnwindCode>,
    fp: Option<Register>,
)
    ensures
        run_ok(st, a + b, fp) == (run_ok(st, a, fp) && run_ok(run_state(st, a, fp), b, fp)),
        run_state(st, a + b, fp) == run_state(run_state(st, a, fp), b, fp),
        run_instrs(st, a + b, fp) == run_instrs(st, a, fp) + run_instrs(
            run_state(st, a, fp),
            b,
            fp,
        ),
    decreases a.len(),
{
    if a.len() == 0 {
        assert(a + b =~= b);
        assert(run_instrs(st, a, fp) + run_instrs(run_state(st, a, fp), b, fp) =~= run_instrs(
            st,
            b,
            fp,
        ));
    } else {
        let st1 = step_state(st, a[0], fp);
        lemma_run_append(st1, a.skip(1), b, fp);
        assert((a + b)[0] == a[0]);
        assert((a + b).skip(1) =~= a.skip(1) + b);
        assert(run_instrs(st, a + b, fp) == step_instrs(st, a[0], fp) + run_instrs(
            st1,
            a.skip(1) + b,
            fp,
        ));
        assert((step_instrs(st, a[0], fp) + run_instrs(st1, a.skip(1), fp)) + run_instrs(
            run_state(st1, a.skip(1), fp),
            b,
            fp,
        ) =~= step_instrs(st, a[0], fp) + (run_instrs(st1, a.skip(1), fp) + run_instrs(
            run_state(st1, a.skip(1), fp),
            b,
            fp,
        )));
    }
}

/// With a frame pointer configured, frame-building codes always run:
/// only pushes move the CFA, by one word each, and the snapshot is kept.
pub proof fn lemma_run_ok_frame_building(
    st: CfaState,
    codes: Seq<UnwindCode>,
    fp: Option<Register>,
)
    requires
        fp is Some,
        frame_building_codes(codes),
        st.cfa_offset + 8 * codes.len() <= i32::MAX,
    ensures
        run_ok(st, codes, fp),
        run_state(st, codes, fp).saved_state == st.saved_state,
        st.cfa_offset <= run_state(st, codes, fp).cfa_offset <= st.cfa_offset + 8 * codes.len(),
    decreases codes.len(),
{
    if codes.len() > 0 {
        let st1 = step_state(st, codes[0], fp);
        assert(frame_building_codes(codes.skip(1))) by {
            assert(forall|i: int|
                0 <= i < codes.skip(1).len() ==> #[trigger] codes.skip(1)[i] == codes[i + 1]);
        }
        lemma_run_ok_frame_building(st1, codes.skip(1), fp);
    }
}

/// An epilogue's remember/restore pair always runs, and leaves the CFA
/// offset where it found it.
pub proof fn lemma_run_ok_chunk(st: CfaState, chunk: Seq<UnwindCode>, fp: Option<Register>)
    requires
        remember_restore_chunk(chunk),
    ensures
        run_ok(st, chunk, fp),
        run_state(st, chunk, fp).cfa_offset == st.cfa_offset,
{
    if chunk.len() == 2 {
        let st1 = step_state(st, chunk[0], fp);
        let rest = chunk.skip(1);
        let st2 = step_state(st1, chunk[1], fp);
        assert(rest[0] == chunk[1]);
        assert(rest.skip(1) =~= Seq::<UnwindCode>::empty());
        assert(st1.saved_state == Some(st.cfa_offset));
        assert(step_ok(st1, chunk[1], fp));
        assert(run_ok(st2, rest.skip(1), fp));
        assert(run_ok(st1, rest, fp));
        assert(run_ok(st, chunk, fp));
        assert(run_state(st2, rest.skip(1), fp) == st2);
        assert(run_state(st1, rest, fp) == st2);
        assert(run_state(st, chunk, fp) == st2);
        assert(st2.cfa_offset == st.cfa_offset);
    } else {
        assert(chunk.len() == 0);
    }
}

/// A whole list of epilogue chunks runs from any state, leaving the CFA
/// offset unchanged.
pub proof fn lemma_run_ok_chunks(st: CfaState, es: Seq<Seq<UnwindCode>>, fp: Option<Register>)
    requires
        forall|e: int| 0 <= e < es.len() ==> remember_restore_chunk(#[trigger] es[e]),
    ensures
        run_ok(st, flatten_epilogues(es), fp),
        run_state(st, flatten_epilogues(es), fp).cfa_offset == st.cfa_offset,
    decreases es.len(),
{
    if es.len() == 0 {
        assert(flatten_epilogues(es) =~= Seq::<UnwindCode>::empty());
    } else {
        lemma_run_ok_chunk(st, es[0], fp);
        let st1 = run_state(st, es[0], fp);
        assert(forall|e: int|
            0 <= e < es.skip(1).len() ==> remember_restore_chunk(#[trigger] es.skip(1)[e]));
        lemma_run_ok_chunks(st1, es.skip(1), fp);
        lemma_run_append(st, es[0], flatten_epilogues(es.skip(1)), fp);
    }
}

/// Number of `RememberState` instructions in an instruction list.
pub open spec fn count_remember_instrs(s: Seq<(u32, CallFrameInstruction)>) -> int
    decreases s.len(),
{
    if s.len() == 0 {
        0
    } else {
        (if s[0].1 is RememberState {
            1int
        } else {
            0int
        }) + count_remember_instrs(s.skip(1))
    }
}

/// Number of `RestoreState` instructions in an instruction list.
pub open spec fn count_restore_instrs(s: Seq<(u32, CallFrameInstruction)>) -> int
    decreases s.len(),
{
    if s.len() == 0 {
        0
    } else {
        (if s[0].1 is RestoreState {
            1int
        } else {
            0int
        }) + count_restore_instrs(s.skip(1))
    }
}

/// Number of `RememberState` codes in an unwind-code list.
pub open spec fn count_remember_codes(s: Seq<UnwindCode>) -> int
    decreases s.len(),
{
    if s.len() == 0 {
        0
    } else {
        (if s[0] is RememberState {
            1int
        } else {
            0int
        }) + count_remember_codes(s.skip(1))
    }
}

/// Number of `RestoreState` codes in an unwind-code list.
pub open spec fn count_restore_codes(s: Seq<UnwindCode>) -> int
    decreases s.len(),
{
    if s.len() == 0 {
        0
    } else {
        (if s[0] is RestoreState {
            1int
        } else {
            0int
        }) + count_restore_codes(s.skip(1))
    }
}

/// Counting instructions distributes over concatenation.
proof fn lemma_count_instrs_add(a: Seq<(u32, CallFrameInstruction)>, b: Seq<
    (u32, CallFrameInstruction),
>)
    ensures
        count_remember_instrs(a + b) == count_remember_instrs(a) + count_remember_instrs(b),
        count_restore_instrs(a + b) == count_restore_instrs(a) + count_restore_instrs(b),
    decreases a.len(),
{
    if a.len() == 0 {
        assert(a + b =~= b);
    } else {
        lemma_count_instrs_add(a.skip(1), b);
        assert((a + b)[0] == a[0]);
        assert((a + b).skip(1) =~= a.skip(1) + b);
    }
}

/// One unwind code emits exactly one `RememberState` instruction when
/// it is a `RememberState` code, and none otherwise; likewise for
/// `RestoreState`.
proof fn lemma_step_instrs_counts(st: CfaState, code: UnwindCode, fp: Option<Register>)
    ensures
        count_remember_instrs(step_instrs(st, code, fp)) == (if code is RememberState {
            1int
        } else {
            0int
        }),
        count_restore_instrs(step_instrs(st, code, fp)) == (if code is RestoreState {
            1int
        } else {
            0int
        }),
{
    let out = step_instrs(st, code, fp);
    if out.len() == 0 {
    } else if out.len() == 1 {
        assert(out.skip(1) =~= Seq::<(u32, CallFrameInstruction)>::empty());
        assert(count_remember_instrs(out.skip(1)) == 0);
        assert(count_restore_instrs(out.skip(1)) == 0);
        assert(count_remember_instrs(out) == (if out[0].1 is RememberState {
            1int
        } else {
            0int
        }));
        assert(count_restore_instrs(out) == (if out[0].1 is RestoreState {
            1int
        } else {
            0int
        }));
    } else {
        assert(out.len() == 2);
        assert(out.skip(1).skip(1) =~= Seq::<(u32, CallFrameInstruction)>::empty());
        assert(out.skip(1)[0] == out[1]);
        assert(count_remember_instrs(out.skip(1).skip(1)) == 0);
        assert(count_restore_instrs(out.skip(1).skip(1)) == 0);
        assert(count_remember_instrs(out.skip(1)) == (if out[1].1 is RememberState {
            1int
        } else {
            0int
        }));
        assert(count_remember_instrs(out) == (if out[0].1 is RememberState {
            1int
        } else {
            0int
        }) + (if out[1].1 is RememberState {
            1int
        } else {
            0int
        }));
        assert(count_restore_instrs(out.skip(1)) == (if out[1].1 is RestoreState {
            1int
        } else {
            0int
        }));
        assert(count_restore_instrs(out) == (if out[0].1 is RestoreState {
            1int
        } else {
            0int
        }) + (if out[1].1 is RestoreState {
            1int
        } else {
            0int
        }));
        assert(!(out[0].1 is RememberState) && !(out[1].1 is RememberState));
        assert(!(out[0].1 is RestoreState) && !(out[1].1 is RestoreState));
    }
}

/// Law: the state machine emits exactly one `RememberState` and one
/// `RestoreState` instruction per `RememberState` and `RestoreState`
/// code in its input, wherever the codes appear.
pub proof fn lemma_run_instrs_counts(st: CfaState, codes: Seq<UnwindCode>, fp: Option<Register>)
    ensures
        count_remember_instrs(run_instrs(st, codes, fp)) == count_remember_codes(codes),
        count_restore_instrs(run_instrs(st, codes, fp)) == count_restore_codes(codes),
    decreases codes.len(),
{
    if codes.len() > 0 {
        let st1 = step_state(st, codes[0], fp);
        lemma_run_instrs_counts(st1, codes.skip(1), fp);
        lemma_step_instrs_counts(st, codes[0], fp);
        lemma_count_instrs_add(step_instrs(st, codes[0], fp), run_instrs(st1, codes.skip(1), fp));
    }
}

/// Counting codes distributes over concatenation.
pub proof fn lemma_count_codes_add(a: Seq<UnwindCode>, b: Seq<UnwindCode>)
    ensures
        count_remember_codes(a + b) == count_remember_codes(a) + count_remember_codes(b),
        count_restore_codes(a + b) == count_restore_codes(a) + count_restore_codes(b),
    decreases a.len(),
{
    if a.len() == 0 {
        assert(a + b =~= b);
    } else {
        lemma_count_codes_add(a.skip(1), b);
        assert((a + b)[0] == a[0]);
        assert((a + b).skip(1) =~= a.skip(1) + b);
    }
}

/// Number of nonempty chunks in a list of code lists.
pub open spec fn nonempty_chunks(es: Seq<Seq<UnwindCode>>) -> int
    decreases es.len(),
{
    if es.len() == 0 {
        0
    } else {
        (if es[0].len() > 0 {
            1int
        } else {
            0int
        }) + nonempty_chunks(es.skip(1))
    }
}

/// Frame-building codes contain no state snapshotting.
pub proof fn lemma_count_frame_building(codes: Seq<UnwindCode>)
    requires
        frame_building_codes(codes),
    ensures
        count_remember_codes(codes) == 0,
        count_restore_codes(codes) == 0,
    decreases codes.len(),
{
    if codes.len() > 0 {
        assert(forall|i: int|
            0 <= i < codes.skip(1).len() ==> #[trigger] codes.skip(1)[i] == codes[i + 1]);
        lemma_count_frame_building(codes.skip(1));
    }
}

/// A list of remember/restore chunks holds exactly one `RememberState`
/// and one `RestoreState` code per nonempty chunk.
pub proof fn lemma_count_chunks(es: Seq<Seq<UnwindCode>>)
    requires
        forall|e: int| 0 <= e < es.len() ==> remember_restore_chunk(#[trigger] es[e]),
    ensures
        count_remember_codes(flatten_epilogues(es)) == nonempty_chunks(es),
        count_restore_codes(flatten_epilogues(es)) == nonempty_chunks(es),
    decreases es.len(),
{
    if es.len() == 0 {
        assert(flatten_epilogues(es) =~= Seq::<UnwindCode>::empty());
    } else {
        assert(forall|e: int|
            0 <= e < es.skip(1).len() ==> remember_restore_chunk(#[trigger] es.skip(1)[e]));
        lemma_count_chunks(es.skip(1));
        lemma_count_codes_add(es[0], flatten_epilogues(es.skip(1)));
        let c = es[0];
        if c.len() == 0 {
            assert(count_remember_codes(c) == 0);
            assert(count_restore_codes(c) == 0);
        } else {
            assert(c.len() == 2);
            assert(c.skip(1)[0] == c[1]);
            assert(c.skip(1).skip(1) =~= Seq::<UnwindCode>::empty());
            assert(count_remember_codes(c.skip(1).skip(1)) == 0);
            assert(count_restore_codes(c.skip(1).skip(1)) == 0);
            assert(count_remember_codes(c.skip(1)) == 0);
            assert(count_restore_codes(c.skip(1)) == 1);
            assert(count_remember_codes(c) == 1);
            assert(count_restore_codes(c) == 1);
        }
    }
}

} // verus!
