//! Object-image ingestion tests: symbol classification, library-call
//! names, relocation conversion, and loading a linked image's text
//! section into code memory.

use jit_unwind::code_memory::{
    to_cranelift_relocation, to_libcall, symbol_kind, CodeMemory, LibCall, ObjSymbol,
    ObjectUnwindInfo, RawRelocEncoding, RawRelocKind, RawRelocation, RelocKind, RelocationTarget,
    SymbolKind,
};
use jit_unwind::systemv::CallFrameInstruction;
use jit_unwind::unwind::UnwindInfo;

#[test]
fn symbol_names_classify() {
    assert_eq!(
        symbol_kind(&b"_wasm_function_7".to_vec()),
        Some(SymbolKind::WasmFunction(7))
    );
    assert_eq!(
        symbol_kind(&b"_trampoline_12".to_vec()),
        Some(SymbolKind::Trampoline(12))
    );
    assert_eq!(symbol_kind(&b"wasmtime_f64_floor".to_vec()), Some(SymbolKind::Library));
    assert_eq!(symbol_kind(&b"main".to_vec()), Some(SymbolKind::Other));
    // An index that does not parse is rejected, not misread.
    assert_eq!(symbol_kind(&b"_wasm_function_".to_vec()), None);
    assert_eq!(symbol_kind(&b"_wasm_function_9x".to_vec()), None);
    assert_eq!(symbol_kind(&b"_wasm_function_99999999999".to_vec()), None);
}

#[test]
fn library_call_names() {
    assert_eq!(to_libcall(&b"wasmtime_i64_udiv".to_vec()), Some(LibCall::UdivI64));
    assert_eq!(to_libcall(&b"wasmtime_f32_nearest".to_vec()), Some(LibCall::NearestF32));
    assert_eq!(to_libcall(&b"wasmtime_f64_trunc".to_vec()), Some(LibCall::TruncF64));
    assert_eq!(to_libcall(&b"wasmtime_i64_sshr".to_vec()), Some(LibCall::SshrI64));
    assert_eq!(to_libcall(&b"wasmtime_nothing".to_vec()), None);
}

fn sym(name: &[u8]) -> ObjSymbol {
    ObjSymbol { name: name.to_vec(), address: 0, size: 0, defined: true }
}

#[test]
fn relocation_conversion() {
    let symbols = vec![sym(b"_wasm_function_4"), sym(b"wasmtime_i64_srem"), sym(b"mystery")];
    let raw = RawRelocation {
        offset: 0x30,
        kind: RawRelocKind::Absolute,
        encoding: RawRelocEncoding::Generic,
        size: 64,
        symbol: 0,
        addend: 0,
    };
    let rel = to_cranelift_relocation(&raw, &symbols).expect("convertible");
    assert_eq!(rel.reloc, RelocKind::Abs8);
    assert_eq!(rel.reloc_target, RelocationTarget::UserFunc(4));
    assert_eq!(rel.offset, 0x30);
    assert_eq!(rel.addend, 0);

    let call = RawRelocation {
        offset: 8,
        kind: RawRelocKind::Relative,
        encoding: RawRelocEncoding::X86Branch,
        size: 32,
        symbol: 1,
        addend: 0,
    };
    let rel = to_cranelift_relocation(&call, &symbols).expect("convertible");
    assert_eq!(rel.reloc, RelocKind::X86CallPCRel4);
    assert_eq!(rel.reloc_target, RelocationTarget::LibCall(LibCall::SremI64));

    let tls = RawRelocation {
        offset: 8,
        kind: RawRelocKind::Elf(19),
        encoding: RawRelocEncoding::Generic,
        size: 32,
        symbol: 0,
        addend: 0,
    };
    assert_eq!(
        to_cranelift_relocation(&tls, &symbols).expect("convertible").reloc,
        RelocKind::ElfX86_64TlsGd
    );

    // Unknown target symbols and unsupported kinds are refused.
    assert!(to_cranelift_relocation(
        &RawRelocation { symbol: 2, ..raw },
        &symbols
    ).is_err());
    assert!(to_cranelift_relocation(
        &RawRelocation { kind: RawRelocKind::Other, ..raw },
        &symbols
    ).is_err());
}

fn build_image(code: &[u8]) -> Vec<u8> {
    let mut obj = object::write::Object::new(
        object::BinaryFormat::Elf,
        object::Architecture::X86_64,
        object::Endianness::Little,
    );
    let text = obj.add_section(Vec::new(), b".text".to_vec(), object::SectionKind::Text);
    obj.append_section_data(text, code, 16);
    obj.add_symbol(object::write::Symbol {
        name: b"_wasm_function_0".to_vec(),
        value: 0,
        size: 8,
        kind: object::SymbolKind::Text,
        scope: object::SymbolScope::Linkage,
        weak: false,
        section: object::write::SymbolSection::Section(text),
        flags: object::SymbolFlags::None,
    });
    obj.add_symbol(object::write::Symbol {
        name: b"_trampoline_0".to_vec(),
        value: 8,
        size: 8,
        kind: object::SymbolKind::Text,
        scope: object::SymbolScope::Linkage,
        weak: false,
        section: object::write::SymbolSection::Section(text),
        flags: object::SymbolFlags::None,
    });
    obj.write().expect("image")
}

#[test]
fn object_text_is_loaded_and_registered() {
    let code: Vec<u8> = (0u8..16).collect();
    let image = build_image(&code);

    let info = UnwindInfo::SystemV(jit_unwind::systemv::UnwindInfo {
        instructions: vec![(1, CallFrameInstruction::CfaOffset(16))],
        len: 8,
    });

    let mut cm = CodeMemory::new();
    let (funcs, trampolines) = cm
        .allocate_for_object(&image, vec![ObjectUnwindInfo::Func(0, info)])
        .expect("loadable image");

    assert_eq!(funcs.len(), 1);
    assert_eq!(trampolines.len(), 1);
    assert_eq!(funcs[0].1, 8);
    assert_eq!(trampolines[0].1, 8);
    assert_eq!(trampolines[0].0, funcs[0].0 + 8);

    let entry = cm.current.as_ref().expect("current arena");
    let start = funcs[0].0 - entry.base;
    assert_eq!(&entry.mmap.bytes[start..start + 16], &code[..]);
    assert_eq!(entry.registry.entries.len(), 1);
    assert_eq!(entry.registry.entries[0].len, 8);

    cm.publish();
    assert_eq!(cm.published_ranges().len(), 1);
}

#[test]
fn unparsable_image_is_refused() {
    let mut cm = CodeMemory::new();
    let garbage = vec![1u8, 2, 3, 4];
    assert!(cm.allocate_for_object(&garbage, Vec::new()).is_err());
}
