//! System V pipeline tests: scanning a compiled function's instruction
//! stream and lowering it to DWARF call-frame instructions.

use jit_unwind::reg::{rbp, rsp, RegClass, Register};
use jit_unwind::scanner::{Inst, InstRange, UnwindInfoContext};
use jit_unwind::systemv::CallFrameInstruction;
use jit_unwind::unwind::{UnwindInfo, UnwindInfoKind, X64UnwindInfo};

fn simple_func_context(len: u32) -> UnwindInfoContext {
    // push rbp; mov rbp, rsp; sub rsp, 64; ...; add rsp, 64; ret
    UnwindInfoContext {
        insts: vec![
            Inst::Push64 { reg: rbp() },
            Inst::MovRR { src: rsp(), dst: rbp() },
            Inst::SubImm { dst: rsp(), imm: 64 },
            Inst::AddImm { dst: rsp(), imm: 64 },
            Inst::Other,
        ],
        insts_layout: vec![1, 4, 8, 12, len],
        len,
        prologue: InstRange { start: 0, end: 3 },
        epilogues: vec![InstRange { start: 3, end: 5 }],
    }
}

#[test]
fn systemv_test_simple_func() {
    let context = simple_func_context(13);

    let fde = match X64UnwindInfo::create_unwind_info(&context, UnwindInfoKind::SystemV)
        .expect("can create unwind info")
    {
        Some(UnwindInfo::SystemV(info)) => info.to_fde(gimli::write::Address::Constant(1234)),
        _ => panic!("expected unwind information"),
    };

    assert_eq!(format!("{:?}", fde), "FrameDescriptionEntry { address: Constant(1234), length: 13, lsda: None, instructions: [(1, CfaOffset(16)), (1, Offset(Register(6), -16)), (4, CfaRegister(Register(6)))] }");
}

#[test]
fn systemv_test_multi_return_func() {
    // push rbp; mov rbp, rsp; then two return paths, the first of which
    // is not at the end of the function.
    let context = UnwindInfoContext {
        insts: vec![
            Inst::Push64 { reg: rbp() },
            Inst::MovRR { src: rsp(), dst: rbp() },
            Inst::Other,
            Inst::Other,
            Inst::Other,
            Inst::Other,
            Inst::Other,
        ],
        insts_layout: vec![1, 4, 14, 16, 18, 20, 23],
        len: 23,
        prologue: InstRange { start: 0, end: 2 },
        epilogues: vec![InstRange { start: 3, end: 5 }, InstRange { start: 5, end: 7 }],
    };

    let fde = match X64UnwindInfo::create_unwind_info(&context, UnwindInfoKind::SystemV)
        .expect("can create unwind info")
    {
        Some(UnwindInfo::SystemV(info)) => info.to_fde(gimli::write::Address::Constant(4321)),
        _ => panic!("expected unwind information"),
    };

    assert_eq!(format!("{:?}", fde), "FrameDescriptionEntry { address: Constant(4321), length: 23, lsda: None, instructions: [(1, CfaOffset(16)), (1, Offset(Register(6), -16)), (4, CfaRegister(Register(6))), (16, RememberState), (18, RestoreState)] }");
}

#[test]
fn simple_func_instruction_list() {
    // The same function, inspected without gimli: the 64-byte stack
    // slot under a frame pointer adds no instruction of its own.
    let context = simple_func_context(13);
    let info = match X64UnwindInfo::create_unwind_info(&context, UnwindInfoKind::SystemV)
        .expect("can create unwind info")
    {
        Some(UnwindInfo::SystemV(info)) => info,
        _ => panic!("expected unwind information"),
    };
    assert_eq!(info.len, 13);
    assert_eq!(
        info.instructions,
        vec![
            (1, CallFrameInstruction::CfaOffset(16)),
            (1, CallFrameInstruction::Offset(6, -16)),
            (4, CallFrameInstruction::CfaRegister(6)),
        ]
    );
}

#[test]
fn no_unwind_kind_produces_nothing() {
    let context = simple_func_context(13);
    let r = X64UnwindInfo::create_unwind_info(&context, UnwindInfoKind::Omit)
        .expect("can create unwind info");
    assert!(r.is_none());
}

#[test]
fn saves_and_other_instructions_are_ignored() {
    // A store to the stack and an unrelated move contribute nothing to
    // the System V program.
    let context = UnwindInfoContext {
        insts: vec![
            Inst::Push64 { reg: rbp() },
            Inst::MovRR { src: rsp(), dst: rbp() },
            Inst::MovRM { src: Register { class: RegClass::Int, hw_enc: 3 }, base: rsp(), simm32: 16 },
            Inst::MovRR { src: rbp(), dst: Register { class: RegClass::Int, hw_enc: 0 } },
            Inst::Other,
        ],
        insts_layout: vec![1, 4, 9, 12, 14],
        len: 14,
        prologue: InstRange { start: 0, end: 4 },
        epilogues: vec![InstRange { start: 4, end: 5 }],
    };
    let info = match X64UnwindInfo::create_unwind_info(&context, UnwindInfoKind::SystemV)
        .expect("can create unwind info")
    {
        Some(UnwindInfo::SystemV(info)) => info,
        _ => panic!("expected unwind information"),
    };
    assert_eq!(
        info.instructions,
        vec![
            (1, CallFrameInstruction::CfaOffset(16)),
            (1, CallFrameInstruction::Offset(6, -16)),
            (4, CallFrameInstruction::CfaRegister(6)),
        ]
    );
}

#[test]
fn remember_restore_pair_per_nonterminal_epilogue() {
    // Three epilogues; only the last ends at the function's last
    // offset, so exactly two remember/restore pairs appear, ordered.
    let context = UnwindInfoContext {
        insts: vec![
            Inst::Push64 { reg: rbp() },
            Inst::MovRR { src: rsp(), dst: rbp() },
            Inst::Other,
            Inst::Other,
            Inst::Other,
            Inst::Other,
            Inst::Other,
            Inst::Other,
        ],
        insts_layout: vec![1, 4, 8, 10, 12, 14, 16, 20],
        len: 20,
        prologue: InstRange { start: 0, end: 2 },
        epilogues: vec![
            InstRange { start: 2, end: 4 },
            InstRange { start: 4, end: 6 },
            InstRange { start: 6, end: 8 },
        ],
    };
    let info = match X64UnwindInfo::create_unwind_info(&context, UnwindInfoKind::SystemV)
        .expect("can create unwind info")
    {
        Some(UnwindInfo::SystemV(info)) => info,
        _ => panic!("expected unwind information"),
    };
    let remembers: Vec<u32> = info
        .instructions
        .iter()
        .filter(|(_, i)| *i == CallFrameInstruction::RememberState)
        .map(|(o, _)| *o)
        .collect();
    let restores: Vec<u32> = info
        .instructions
        .iter()
        .filter(|(_, i)| *i == CallFrameInstruction::RestoreState)
        .map(|(o, _)| *o)
        .collect();
    assert_eq!(remembers, vec![8, 12]);
    assert_eq!(restores, vec![10, 14]);
    assert!(remembers[0] <= restores[0] && restores[0] <= remembers[1]);
}

#[test]
fn create_cie_builds() {
    // The shared CIE is constructed once per session.
    let cie = jit_unwind::systemv::create_cie();
    let s = format!("{:?}", cie);
    assert!(s.contains("code_alignment_factor: 1"));
    assert!(s.contains("data_alignment_factor: -8"));
}
