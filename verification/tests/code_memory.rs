//! Code memory manager tests: allocation, publication, protection and
//! relocation bookkeeping.

use jit_unwind::code_memory::{
    CodeMemory, CompiledFunction, LibCall, Protection, RelocKind, RelocationEntry, RelocationTarget,
};
use jit_unwind::systemv::CallFrameInstruction;
use jit_unwind::unwind::UnwindInfo;

fn plain_function(len: usize) -> CompiledFunction {
    let mut body = Vec::new();
    for i in 0..len {
        body.push((i % 251) as u8);
    }
    CompiledFunction { body, unwind_info: None }
}

fn sysv_function(len: usize) -> CompiledFunction {
    let mut f = plain_function(len);
    f.unwind_info = Some(UnwindInfo::SystemV(jit_unwind::systemv::UnwindInfo {
        instructions: vec![
            (1, CallFrameInstruction::CfaOffset(16)),
            (1, CallFrameInstruction::Offset(6, -16)),
        ],
        len: len as u32,
    }));
    f
}

fn winx64_function(len: usize) -> CompiledFunction {
    let mut f = plain_function(len);
    f.unwind_info = Some(UnwindInfo::WindowsX64(jit_unwind::winx64::UnwindInfo {
        flags: 0,
        prologue_size: 9,
        frame_register: None,
        frame_register_offset: 0,
        unwind_codes: vec![
            jit_unwind::winx64::UnwindCode::PushRegister { offset: 2, reg: 5 },
            jit_unwind::winx64::UnwindCode::StackAlloc { offset: 9, size: 64 },
        ],
    }));
    f
}

#[test]
fn allocate_then_publish_protects_and_lists_the_range() {
    let mut cm = CodeMemory::new();
    let func = plain_function(64);
    let (addr, len) = cm.allocate_for_function(&func, &Vec::new()).expect("allocation");
    assert_eq!(len, 64);

    cm.publish();

    let ranges = cm.published_ranges();
    assert_eq!(ranges, vec![(addr, addr + 64)]);
    assert_eq!(cm.entries.len(), 1);
    assert_eq!(cm.entries[0].mmap.protection, Protection::ReadExecute);
    assert!(cm.entries[0].registry.published);
    assert!(cm.entries[0].relocs.is_empty());
}

#[test]
fn body_is_copied_and_unwind_registered() {
    let mut cm = CodeMemory::new();
    let func = sysv_function(100);
    let (addr, len) = cm.allocate_for_function(&func, &Vec::new()).expect("allocation");
    assert_eq!(len, 100);

    let entry = cm.current.as_ref().expect("current arena");
    let start = addr - entry.base;
    assert_eq!(&entry.mmap.bytes[start..start + 100], &func.body[..]);
    assert_eq!(entry.registry.entries.len(), 1);
    assert_eq!(entry.registry.entries[0].offset, start as u32);
    assert_eq!(entry.registry.entries[0].len, 100);
}

#[test]
fn windows_unwind_block_is_emitted_after_the_body() {
    let mut cm = CodeMemory::new();
    let func = winx64_function(10);
    let (addr, _) = cm.allocate_for_function(&func, &Vec::new()).expect("allocation");

    let entry = cm.current.as_ref().expect("current arena");
    let start = addr - entry.base;
    // The body occupies 10 bytes; the unwind block starts at the next
    // four-byte boundary, 12, and is 8 bytes.
    assert_eq!(&entry.mmap.bytes[start..start + 10], &func.body[..]);
    let expected = match &func.unwind_info {
        Some(UnwindInfo::WindowsX64(w)) => w.emit(),
        _ => unreachable!(),
    };
    assert_eq!(&entry.mmap.bytes[start + 12..start + 20], &expected[..]);
    assert_eq!(entry.len, 20);
}

#[test]
fn relocations_are_recorded_until_publish() {
    let mut cm = CodeMemory::new();
    let relocs = vec![
        RelocationEntry {
            reloc: RelocKind::Abs8,
            reloc_target: RelocationTarget::UserFunc(3),
            offset: 8,
            addend: 0,
        },
        RelocationEntry {
            reloc: RelocKind::X86CallPCRel4,
            reloc_target: RelocationTarget::LibCall(LibCall::CeilF32),
            offset: 20,
            addend: 0,
        },
    ];
    let func = plain_function(32);
    let (addr, _) = cm.allocate_for_function(&func, &relocs).expect("allocation");

    let pending = cm.unpublished_relocations();
    assert_eq!(pending.len(), 2);
    assert_eq!(pending[0].0, addr);
    assert_eq!(pending[0].1, relocs[0]);
    assert_eq!(pending[1].1, relocs[1]);

    cm.publish();
    assert!(cm.unpublished_relocations().is_empty());
}

#[test]
fn compilation_is_allocated_back_to_back() {
    let mut cm = CodeMemory::new();
    let compilation = vec![plain_function(10), plain_function(20), plain_function(30)];
    let relocations = vec![Vec::new(), Vec::new(), Vec::new()];
    let rs = cm.allocate_for_compilation(&compilation, &relocations).expect("allocation");
    assert_eq!(rs.len(), 3);
    assert_eq!(rs[0].1, 10);
    assert_eq!(rs[1].1, 20);
    assert_eq!(rs[2].1, 30);
    // Each function starts at the next four-byte boundary.
    assert_eq!(rs[1].0, rs[0].0 + 12);
    assert_eq!(rs[2].0, rs[1].0 + 20);

    let entry = cm.current.as_ref().expect("current arena");
    for (i, f) in compilation.iter().enumerate() {
        let start = rs[i].0 - entry.base;
        assert_eq!(&entry.mmap.bytes[start..start + f.body.len()], &f.body[..]);
    }
}

#[test]
fn compilation_registers_and_records_per_function() {
    let mut cm = CodeMemory::new();
    let compilation = vec![sysv_function(10), plain_function(20), sysv_function(30)];
    let relocations = vec![
        vec![RelocationEntry {
            reloc: RelocKind::Abs4,
            reloc_target: RelocationTarget::UserFunc(1),
            offset: 4,
            addend: 0,
        }],
        Vec::new(),
        Vec::new(),
    ];
    let rs = cm.allocate_for_compilation(&compilation, &relocations).expect("allocation");

    let entry = cm.current.as_ref().expect("current arena");
    // One registration per function that carries unwind information,
    // in function order, at each function's own start offset.
    assert_eq!(entry.registry.entries.len(), 2);
    assert_eq!(entry.registry.entries[0].offset as usize, rs[0].0 - entry.base);
    assert_eq!(entry.registry.entries[0].len, 10);
    assert_eq!(entry.registry.entries[1].offset as usize, rs[2].0 - entry.base);
    assert_eq!(entry.registry.entries[1].len, 30);
    // One relocation group per function, at its start offset.
    assert_eq!(entry.relocs.len(), 3);
    assert_eq!(entry.relocs[0].0 as usize, rs[0].0 - entry.base);
    assert_eq!(entry.relocs[0].1.len(), 1);
    assert_eq!(entry.relocs[1].0 as usize, rs[1].0 - entry.base);
    assert!(entry.relocs[1].1.is_empty());
}

#[test]
fn a_second_arena_opens_when_the_first_is_full() {
    let mut cm = CodeMemory::new();
    let big = plain_function(0x10000);
    let (a0, _) = cm.allocate_for_function(&big, &Vec::new()).expect("allocation");
    let (a1, _) = cm.allocate_for_function(&big, &Vec::new()).expect("allocation");
    // The second function cannot fit the first 64 KiB arena.
    assert!(a1 >= a0 + 0x10000);
    cm.publish();
    let ranges = cm.published_ranges();
    assert_eq!(ranges.len(), 2);
    assert_eq!(ranges[0], (a0, a0 + 0x10000));
    assert_eq!(ranges[1], (a1, a1 + 0x10000));
    // Ranges never overlap.
    assert!(ranges[0].1 <= ranges[1].0);
}

#[test]
fn publish_is_idempotent_for_published_arenas() {
    let mut cm = CodeMemory::new();
    let func = plain_function(16);
    let (addr, _) = cm.allocate_for_function(&func, &Vec::new()).expect("allocation");
    cm.publish();
    let first = cm.published_ranges();
    // New allocations after a publish open a fresh arena; the old one
    // stays as it was.
    let (addr2, _) = cm.allocate_for_function(&func, &Vec::new()).expect("allocation");
    assert!(addr2 > addr);
    cm.publish();
    let second = cm.published_ranges();
    assert_eq!(second[0], first[0]);
    assert_eq!(second.len(), 2);
}

#[test]
fn registry_lookup_finds_the_covering_range() {
    let mut cm = CodeMemory::new();
    let func = sysv_function(40);
    let (addr, _) = cm.allocate_for_function(&func, &Vec::new()).expect("allocation");
    cm.publish();
    let registry = &cm.entries[0].registry;
    assert_eq!(registry.lookup(addr + 10), Some(0));
    assert_eq!(registry.lookup(addr + 39), Some(0));
    assert_eq!(registry.lookup(addr + 40), None);
}
