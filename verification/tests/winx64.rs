//! Windows x64 backend tests: lowering and bit-exact binary emission of
//! `UNWIND_INFO`.

use jit_unwind::ir::{UnwindCode as IrCode, UnwindInfo as IrUnwindInfo};
use jit_unwind::reg::rbp;
use jit_unwind::winx64::{create_unwind_info, UnwindCode, UnwindInfo};

fn input(prologue_size: u32, alloc_offset: u32, alloc_size: u32) -> IrUnwindInfo {
    IrUnwindInfo {
        prologue_size,
        prologue_unwind_codes: vec![
            IrCode::PushRegister { offset: 2, reg: rbp() },
            IrCode::StackAlloc { offset: alloc_offset, size: alloc_size },
        ],
        epilogues_unwind_codes: vec![vec![]],
        function_size: 40,
        word_size: 8,
    }
}

#[test]
fn test_small_alloc() {
    let unwind = create_unwind_info(&input(9, 9, 64)).expect("can create unwind info");

    assert_eq!(
        unwind,
        UnwindInfo {
            flags: 0,
            prologue_size: 9,
            frame_register: None,
            frame_register_offset: 0,
            unwind_codes: vec![
                UnwindCode::PushRegister { offset: 2, reg: 5 },
                UnwindCode::StackAlloc { offset: 9, size: 64 },
            ]
        }
    );

    assert_eq!(unwind.emit_size(), 8);

    let buf = unwind.emit();
    assert_eq!(
        buf,
        vec![
            0x01, // Version and flags (version 1, no flags)
            0x09, // Prologue size
            0x02, // Unwind code count (1 for stack alloc, 1 for push reg)
            0x00, // Frame register + offset (no frame register)
            0x09, // Prolog offset
            0x72, // Operation 2 (small stack alloc), size = (0x7 * 8) + 8 = 64 bytes
            0x02, // Prolog offset
            0x50, // Operation 0 (save nonvolatile register), reg = 5 (RBP)
        ]
    );
}

#[test]
fn test_medium_alloc() {
    let unwind = create_unwind_info(&input(27, 27, 10000)).expect("can create unwind info");

    assert_eq!(
        unwind,
        UnwindInfo {
            flags: 0,
            prologue_size: 27,
            frame_register: None,
            frame_register_offset: 0,
            unwind_codes: vec![
                UnwindCode::PushRegister { offset: 2, reg: 5 },
                UnwindCode::StackAlloc { offset: 27, size: 10000 },
            ]
        }
    );

    assert_eq!(unwind.emit_size(), 12);

    let buf = unwind.emit();
    assert_eq!(
        buf,
        vec![
            0x01, // Version and flags (version 1, no flags)
            0x1B, // Prologue size
            0x03, // Unwind code count (2 for stack alloc, 1 for push reg)
            0x00, // Frame register + offset (no frame register)
            0x1B, // Prolog offset
            0x01, // Operation 1 (large stack alloc), size is scaled 16-bits (info = 0)
            0xE2, // Low size byte
            0x04, // High size byte (0x04E2 * 8 = 10000 bytes)
            0x02, // Prolog offset
            0x50, // Operation 0 (push nonvolatile register), reg = 5 (RBP)
            0x00, // Padding
            0x00, // Padding
        ]
    );
}

#[test]
fn test_large_alloc() {
    let unwind = create_unwind_info(&input(27, 27, 1000000)).expect("can create unwind info");

    assert_eq!(
        unwind,
        UnwindInfo {
            flags: 0,
            prologue_size: 27,
            frame_register: None,
            frame_register_offset: 0,
            unwind_codes: vec![
                UnwindCode::PushRegister { offset: 2, reg: 5 },
                UnwindCode::StackAlloc { offset: 27, size: 1000000 },
            ]
        }
    );

    assert_eq!(unwind.emit_size(), 12);

    let buf = unwind.emit();
    assert_eq!(
        buf,
        vec![
            0x01, // Version and flags (version 1, no flags)
            0x1B, // Prologue size
            0x04, // Unwind code count (3 for stack alloc, 1 for push reg)
            0x00, // Frame register + offset (no frame register)
            0x1B, // Prolog offset
            0x11, // Operation 1 (large stack alloc), size is unscaled 32-bits (info = 1)
            0x40, // Byte 1 of size
            0x42, // Byte 2 of size
            0x0F, // Byte 3 of size
            0x00, // Byte 4 of size (size is 0xF4240 = 1000000 bytes)
            0x02, // Prolog offset
            0x50, // Operation 0 (push nonvolatile register), reg = 5 (RBP)
        ]
    );
}

#[test]
fn alloc_boundary_small() {
    // 0x78 bytes is the largest small-form allocation: one slot with
    // info = size / 8 - 1 = 0xE.
    let unwind = create_unwind_info(&input(9, 9, 0x78)).expect("can create unwind info");
    assert_eq!(unwind.emit_size(), 8);
    let buf = unwind.emit();
    assert_eq!(buf[5], 0xE2);
}

#[test]
fn alloc_boundary_medium() {
    // 0x7FFF8 bytes is the largest scaled 16-bit allocation.
    let unwind = create_unwind_info(&input(9, 9, 0x7FFF8)).expect("can create unwind info");
    assert_eq!(unwind.emit_size(), 12);
    let buf = unwind.emit();
    assert_eq!(&buf[4..8], &[0x09, 0x01, 0xFF, 0xFF]);
}

#[test]
fn alloc_boundary_large() {
    // One step past 0x7FFF8 takes the unscaled 32-bit form.
    let unwind = create_unwind_info(&input(9, 9, 0x80000)).expect("can create unwind info");
    assert_eq!(unwind.emit_size(), 12);
    let buf = unwind.emit();
    assert_eq!(&buf[4..10], &[0x09, 0x11, 0x00, 0x00, 0x08, 0x00]);
}

#[test]
fn alloc_unscalable_size_is_large() {
    // A size that is not a multiple of eight cannot be scaled.
    let unwind = create_unwind_info(&input(9, 9, 12)).expect("can create unwind info");
    assert_eq!(unwind.emit_size(), 12);
    let buf = unwind.emit();
    assert_eq!(&buf[4..10], &[0x09, 0x11, 0x0C, 0x00, 0x00, 0x00]);
}

#[test]
fn frame_register_goes_to_header() {
    // Establishing a frame pointer is a header matter, not an
    // operation.
    let unwind = create_unwind_info(
        &IrUnwindInfo {
            prologue_size: 4,
            prologue_unwind_codes: vec![
                IrCode::PushRegister { offset: 1, reg: rbp() },
                IrCode::SetCfaRegister { offset: 4, reg: rbp() },
            ],
            epilogues_unwind_codes: vec![],
            function_size: 16,
            word_size: 8,
        },
    ).expect("can create unwind info");
    assert_eq!(unwind.frame_register, Some(5));
    assert_eq!(unwind.unwind_codes, vec![UnwindCode::PushRegister { offset: 1, reg: 5 }]);
    let buf = unwind.emit();
    assert_eq!(buf[3], 0x05);
}
