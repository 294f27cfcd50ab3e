//! Debug-section writing tests.

use jit_unwind::debug::{
    bytes_eq, target_is_wasm_function, write_debugsections, DwarfSection, DwarfSectionReloc,
};

fn new_object() -> object::write::Object<'static> {
    object::write::Object::new(
        object::BinaryFormat::Elf,
        object::Architecture::X86_64,
        object::Endianness::Little,
    )
}

#[test]
fn sections_and_section_relocations_are_written() {
    let mut obj = new_object();
    let sections = vec![
        DwarfSection {
            name: b".debug_abbrev".to_vec(),
            body: vec![1, 2, 3, 4],
            relocs: vec![],
        },
        DwarfSection {
            name: b".debug_info".to_vec(),
            body: vec![5, 6, 7, 8, 9, 10, 11, 12],
            relocs: vec![DwarfSectionReloc {
                target: b".debug_abbrev".to_vec(),
                offset: 0,
                size: 4,
                addend: 0,
            }],
        },
    ];
    write_debugsections(&mut obj, sections).expect("sections written");
    let image = obj.write().expect("image");
    assert!(!image.is_empty());
}

#[test]
fn function_relocation_resolves_to_the_symbol() {
    let mut obj = new_object();
    let text = obj.add_section(Vec::new(), b".text".to_vec(), object::SectionKind::Text);
    obj.append_section_data(text, &[0x90; 8], 16);
    obj.add_symbol(object::write::Symbol {
        name: b"_wasm_function_0".to_vec(),
        value: 0,
        size: 8,
        kind: object::SymbolKind::Text,
        scope: object::SymbolScope::Linkage,
        weak: false,
        section: object::write::SymbolSection::Section(text),
        flags: object::SymbolFlags::None,
    });
    let sections = vec![DwarfSection {
        name: b".debug_info".to_vec(),
        body: vec![0; 16],
        relocs: vec![DwarfSectionReloc {
            target: b"_wasm_function_0".to_vec(),
            offset: 4,
            size: 8,
            addend: 0,
        }],
    }];
    write_debugsections(&mut obj, sections).expect("sections written");
    assert!(obj.write().is_ok());
}

#[test]
fn missing_function_symbol_is_an_error() {
    let mut obj = new_object();
    let sections = vec![DwarfSection {
        name: b".debug_info".to_vec(),
        body: vec![0; 4],
        relocs: vec![DwarfSectionReloc {
            target: b"_wasm_function_9".to_vec(),
            offset: 0,
            size: 4,
            addend: 0,
        }],
    }];
    assert!(write_debugsections(&mut obj, sections).is_err());
}

#[test]
fn unknown_section_target_is_an_error() {
    let mut obj = new_object();
    let sections = vec![DwarfSection {
        name: b".debug_info".to_vec(),
        body: vec![0; 4],
        relocs: vec![DwarfSectionReloc {
            target: b".debug_nowhere".to_vec(),
            offset: 0,
            size: 4,
            addend: 0,
        }],
    }];
    assert!(write_debugsections(&mut obj, sections).is_err());
}

#[test]
fn format_without_debug_segment_is_an_error() {
    // The PE writer has no standard debug segment; the sections are
    // refused instead of reaching a call that cannot handle them.
    let mut obj = object::write::Object::new(
        object::BinaryFormat::Pe,
        object::Architecture::X86_64,
        object::Endianness::Little,
    );
    let sections = vec![DwarfSection {
        name: b".debug_info".to_vec(),
        body: vec![0; 4],
        relocs: vec![],
    }];
    assert!(write_debugsections(&mut obj, sections).is_err());
}

#[test]
fn wasm_function_targets_are_recognized() {
    assert!(target_is_wasm_function(&b"_wasm_function_0".to_vec()));
    assert!(target_is_wasm_function(&b"_wasm_function".to_vec()));
    assert!(!target_is_wasm_function(&b"_wasm_functio".to_vec()));
    assert!(!target_is_wasm_function(&b".debug_info".to_vec()));
}

#[test]
fn byte_equality() {
    assert!(bytes_eq(&b"abc".to_vec(), &b"abc".to_vec()));
    assert!(!bytes_eq(&b"abc".to_vec(), &b"abd".to_vec()));
    assert!(!bytes_eq(&b"abc".to_vec(), &b"ab".to_vec()));
}
