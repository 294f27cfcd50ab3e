//! End-to-end dispatch tests: one instruction stream lowered to each
//! unwind format.

use jit_unwind::reg::{rbp, rsp};
use jit_unwind::scanner::{Inst, InstRange, UnwindInfoContext};
use jit_unwind::systemv::CallFrameInstruction;
use jit_unwind::unwind::{UnwindInfo, UnwindInfoKind, X64UnwindInfo};
use jit_unwind::winx64::UnwindCode;

/// A function with one explicit 64-byte stack slot and a single
/// implicit return epilogue.
fn context_with_frame_pointer() -> UnwindInfoContext {
    // push rbp; mov rbp, rsp; sub rsp, 64; ...; ret
    UnwindInfoContext {
        insts: vec![
            Inst::Push64 { reg: rbp() },
            Inst::MovRR { src: rsp(), dst: rbp() },
            Inst::SubImm { dst: rsp(), imm: 64 },
            Inst::Other,
            Inst::Other,
        ],
        insts_layout: vec![1, 4, 8, 12, 16],
        len: 16,
        prologue: InstRange { start: 0, end: 3 },
        epilogues: vec![InstRange { start: 3, end: 5 }],
    }
}

/// The same stack slot under a calling convention that saves RBP
/// without using it as a frame pointer.
fn context_without_frame_pointer() -> UnwindInfoContext {
    // push rbp; sub rsp, 64; ...; ret
    UnwindInfoContext {
        insts: vec![
            Inst::Push64 { reg: rbp() },
            Inst::SubImm { dst: rsp(), imm: 64 },
            Inst::Other,
            Inst::Other,
        ],
        insts_layout: vec![2, 9, 12, 16],
        len: 16,
        prologue: InstRange { start: 0, end: 2 },
        epilogues: vec![InstRange { start: 2, end: 4 }],
    }
}

#[test]
fn systemv_end_to_end() {
    let info = match X64UnwindInfo::create_unwind_info(
        &context_with_frame_pointer(),
        UnwindInfoKind::SystemV,
    ).expect("can create unwind info") {
        Some(UnwindInfo::SystemV(info)) => info,
        _ => panic!("expected System V unwind information"),
    };
    // The stack allocation moves no CFA under a frame pointer, and the
    // terminal epilogue adds nothing.
    assert_eq!(
        info.instructions,
        vec![
            (1, CallFrameInstruction::CfaOffset(16)),
            (1, CallFrameInstruction::Offset(6, -16)),
            (4, CallFrameInstruction::CfaRegister(6)),
        ]
    );
    assert_eq!(info.len, 16);
}

#[test]
fn windows_end_to_end() {
    let info = match X64UnwindInfo::create_unwind_info(
        &context_without_frame_pointer(),
        UnwindInfoKind::Windows,
    ).expect("can create unwind info") {
        Some(UnwindInfo::WindowsX64(info)) => info,
        _ => panic!("expected Windows unwind information"),
    };
    assert_eq!(
        info.unwind_codes,
        vec![
            UnwindCode::PushRegister { offset: 2, reg: 5 },
            UnwindCode::StackAlloc { offset: 9, size: 64 },
        ]
    );
    assert_eq!(info.emit_size(), 8);
    let buf = info.emit();
    assert_eq!(buf[0], 0x01);
    assert_eq!(buf[1], info.prologue_size);
    assert_eq!(buf[2], 0x02);
    assert_eq!(buf[3], 0x00);
    assert_eq!(&buf[4..8], &[0x09, 0x72, 0x02, 0x50]);
}

#[test]
fn emitted_header_counts_every_slot() {
    // The first byte's low nibble is the version; the third byte counts
    // slots, multi-slot operations included.
    let info = match X64UnwindInfo::create_unwind_info(
        &UnwindInfoContext {
            insts: vec![
                Inst::Push64 { reg: rbp() },
                Inst::SubImm { dst: rsp(), imm: 1000000 },
                Inst::Other,
            ],
            insts_layout: vec![2, 9, 12],
            len: 12,
            prologue: InstRange { start: 0, end: 2 },
            epilogues: vec![],
        },
        UnwindInfoKind::Windows,
    ).expect("can create unwind info") {
        Some(UnwindInfo::WindowsX64(info)) => info,
        _ => panic!("expected Windows unwind information"),
    };
    let buf = info.emit();
    assert_eq!(buf[0] & 0xF, 1);
    assert_eq!(buf[2], 4);
    assert_eq!(buf.len(), info.emit_size());
}
