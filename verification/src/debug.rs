//! Writing DWARF debug sections into a relocatable object image, and
//! the small pieces of the debug machinery whose behaviour belongs to
//! this crate: the debug-transform error, the debugger registration
//! marker, and the compiler placeholder that produces no machine code.

use vstd::prelude::*;

verus! {

/// An error while transforming or emitting debug information.
#[derive(Debug)]
pub struct TransformError(pub &'static str);

/// Marker for a debugger's registration of one JIT-compiled module;
/// dropping it unregisters the module. Implemented by debugger agents,
/// not by this library.
pub trait DebuggerJitCodeRegistration {

}

/// A compiler that does not compile a WebAssembly module: its functions
/// are run by an interpreter instead.
pub struct Interpreter;

/// One relocation of a DWARF section: the symbol or section `target`
/// whose address belongs at `offset`, with `size` bytes and an addend.
#[derive(Debug)]
pub struct DwarfSectionReloc {
    /// Name of the target symbol or section.
    pub target: Vec<u8>,
    /// Offset of the patch site within the section.
    pub offset: u32,
    /// Size in bytes of the patch site.
    pub size: u8,
    /// Addend to the target's address.
    pub addend: i32,
}

/// One emitted DWARF section: its name, its contents, and its
/// relocations.
#[derive(Debug)]
pub struct DwarfSection {
    /// The section's name.
    pub name: Vec<u8>,
    /// The section's contents.
    pub body: Vec<u8>,
    /// The section's relocations.
    pub relocs: Vec<DwarfSectionReloc>,
}

#[verifier::external_type_specification]
#[verifier::external_body]
pub struct ExObject<'a>(object::write::Object<'a>);

#[verifier::external_type_specification]
#[verifier::external_body]
pub struct ExSectionId(object::write::SectionId);

#[verifier::external_type_specification]
#[verifier::external_body]
pub struct ExSymbolId(object::write::SymbolId);

/// Relies on object's write::Object::format and segment_name: the name
/// of the standard debug segment for the formats `segment_name`
/// implements — COFF, ELF and Mach-O — and `None` for any other, so
/// the call is never reached on a format it does not handle.
#[verifier::external_body]
fn obj_debug_segment_name(obj: &object::write::Object) -> Option<Vec<u8>> {
    match obj.format() {
        object::BinaryFormat::Coff | object::BinaryFormat::Elf | object::BinaryFormat::MachO => {
            Some(obj.segment_name(object::write::StandardSegment::Debug).to_vec())
        }
        _ => None,
    }
}

/// Relies on object's write::Object::add_section, adding a debug
/// section with the given segment and name and returning its id.
#[verifier::external_body]
fn obj_add_debug_section(
    obj: &mut object::write::Object,
    segment: Vec<u8>,
    name: &Vec<u8>,
) -> object::write::SectionId {
    obj.add_section(segment, name.clone(), object::SectionKind::Debug)
}

/// Relies on object's write::Object::append_section_data, appending
/// `data` to the section behind `id`. Byte alignment is requested, so
/// the alignment is a power of two as the call demands.
#[verifier::external_body]
fn obj_append_section_data(
    obj: &mut object::write::Object,
    id: object::write::SectionId,
    data: &Vec<u8>,
) {
    obj.append_section_data(id, data, 1);
}

/// Relies on object's write::Object::symbol_id: the id of the symbol
/// with the given name, if the object defines one.
#[verifier::external_body]
fn obj_symbol_id(
    obj: &object::write::Object,
    name: &Vec<u8>,
) -> Option<object::write::SymbolId> {
    obj.symbol_id(name)
}

/// Relies on object's write::Object::section_symbol: the section symbol
/// of a section id that `add_section` returned for this object.
#[verifier::external_body]
fn obj_section_symbol(
    obj: &mut object::write::Object,
    id: object::write::SectionId,
) -> object::write::SymbolId {
    obj.section_symbol(id)
}

/// Relies on object's write::Object::add_relocation, adding an absolute
/// generic relocation of `size_bits` bits at `offset` against `symbol`,
/// for a section id that `add_section` returned for this object.
/// Returns whether the object accepted it.
#[verifier::external_body]
fn obj_add_absolute_relocation(
    obj: &mut object::write::Object,
    section: object::write::SectionId,
    offset: u64,
    size_bits: u8,
    symbol: object::write::SymbolId,
    addend: i64,
) -> bool {
    obj.add_relocation(
        section,
        object::write::Relocation {
            offset,
            symbol,
            addend,
            flags: object::RelocationFlags::Generic {
                kind: object::RelocationKind::Absolute,
                encoding: object::RelocationEncoding::Generic,
                size: size_bits,
            },
        },
    ).is_ok()
}

/// The bytes of the prefix that names a module function's symbol. The
/// values spell `_wasm_function`.
pub open spec fn wasm_function_prefix() -> Seq<u8> {
    seq![95u8, 119u8, 97u8, 115u8, 109u8, 95u8, 102u8, 117u8, 110u8, 99u8, 116u8, 105u8, 111u8, 110u8]
}

/// Whether a relocation target names a module function.
pub open spec fn is_wasm_function_target(s: Seq<u8>) -> bool {
    s.len() >= 14 && s.subrange(0, 14) == wasm_function_prefix()
}

/// The function-symbol prefix as bytes.
fn wasm_prefix_vec() -> (r: Vec<u8>)
    ensures
        r@ == wasm_function_prefix(),
{
    let mut v: Vec<u8> = Vec::new();
    v.push(95);
    v.push(119);
    v.push(97);
    v.push(115);
    v.push(109);
    v.push(95);
    v.push(102);
    v.push(117);
    v.push(110);
    v.push(99);
    v.push(116);
    v.push(105);
    v.push(111);
    v.push(110);
    proof {
        assert(v@ =~= wasm_function_prefix());
    }
    v
}

/// Tests whether a relocation target names a module function.
pub fn target_is_wasm_function(target: &Vec<u8>) -> (r: bool)
    ensures
        r == is_wasm_function_target(target@),
{
    let prefix = wasm_prefix_vec();
    if target.len() < 14 {
        proof {
            assert(!is_wasm_function_target(target@));
        }
        return false;
    }
    let mut i: usize = 0;
    while i < 14
        invariant
            0 <= i <= 14,
            target@.len() >= 14,
            prefix@ == wasm_function_prefix(),
            forall|k: int| 0 <= k < i ==> target@[k] == wasm_function_prefix()[k],
        decreases 14 - i,
    {
        let p = prefix[i];
        if target[i] != p {
            proof {
                assert(target@.subrange(0, 14)[i as int] != wasm_function_prefix()[i as int]);
            }
            return false;
        }
        i = i + 1;
    }
    proof {
        assert(target@.subrange(0, 14) =~= wasm_function_prefix());
    }
    true
}

/// Whether two byte vectors hold the same bytes.
pub fn bytes_eq(a: &Vec<u8>, b: &Vec<u8>) -> (r: bool)
    ensures
        r == (a@ == b@),
{
    if a.len() != b.len() {
        proof {
            assert(a@ != b@);
        }
        return false;
    }
    let mut i: usize = 0;
    while i < a.len()
        invariant
            0 <= i <= a@.len(),
            a@.len() == b@.len(),
            forall|k: int| 0 <= k < i ==> a@[k] == b@[k],
        decreases a@.len() - i,
    {
        if a[i] != b[i] {
            return false;
        }
        i = i + 1;
    }
    proof {
        assert(a@ =~= b@);
    }
    true
}

/// Writes DWARF sections into a relocatable object: each section's
/// body is added under the debug segment, then each of its relocations
/// is resolved — a target naming a module function resolves to that
/// symbol, any other target to the section of that name added here —
/// and recorded as an absolute relocation. Fails when the object's
/// format has no debug segment, when a target cannot be resolved, or
/// when a relocation is rejected.
pub fn write_debugsections(
    obj: &mut object::write::Object,
    sections: Vec<DwarfSection>,
) -> (r: Result<(), TransformError>)
{
    let segment = match obj_debug_segment_name(obj) {
        Some(s) => s,
        None => {
            return Err(TransformError("object format has no debug segment"));
        }
    };
    let mut ids: Vec<(Vec<u8>, object::write::SectionId)> = Vec::new();
    let mut i: usize = 0;
    while i < sections.len()
        decreases sections@.len() - i,
    {
        let section = &sections[i];
        let section_id = obj_add_debug_section(obj, crate::copy_elements(&segment), &section.name);
        obj_append_section_data(obj, section_id, &section.body);
        ids.push((crate::copy_elements(&section.name), section_id));
        i = i + 1;
    }
    let mut s: usize = 0;
    while s < sections.len()
        decreases sections@.len() - s,
    {
        let section = &sections[s];
        let section_id = match find_section_id(&ids, &section.name) {
            Some(id) => id,
            None => {
                return Err(TransformError("debug section was not added"));
            }
        };
        let mut r: usize = 0;
        while r < section.relocs.len()
            decreases section.relocs@.len() - r,
        {
            let reloc = &section.relocs[r];
            let target_symbol: object::write::SymbolId;
            if target_is_wasm_function(&reloc.target) {
                match obj_symbol_id(obj, &reloc.target) {
                    Some(sym) => {
                        target_symbol = sym;
                    }
                    None => {
                        return Err(TransformError("function symbol is not defined"));
                    }
                }
            } else {
                match find_section_id(&ids, &reloc.target) {
                    Some(id) => {
                        target_symbol = obj_section_symbol(obj, id);
                    }
                    None => {
                        return Err(TransformError("relocation target is not a section"));
                    }
                }
            }
            let size_bits = if reloc.size <= 0x1F {
                reloc.size * 8
            } else {
                return Err(TransformError("relocation size is too wide"));
            };
            let ok = obj_add_absolute_relocation(
                obj,
                section_id,
                reloc.offset as u64,
                size_bits,
                target_symbol,
                reloc.addend as i64,
            );
            if !ok {
                return Err(TransformError("relocation was rejected"));
            }
            r = r + 1;
        }
        s = s + 1;
    }
    Ok(())
}

/// Finds the id recorded for a section name.
fn find_section_id(
    ids: &Vec<(Vec<u8>, object::write::SectionId)>,
    name: &Vec<u8>,
) -> (r: Option<object::write::SectionId>)
    ensures
        r is Some ==> exists|k: int|
            0 <= k < ids@.len() && (#[trigger] ids@[k]).0@ == name@,
{
    let mut i: usize = 0;
    while i < ids.len()
        invariant
            0 <= i <= ids@.len(),
        decreases ids@.len() - i,
    {
        let (n, id) = &ids[i];
        if bytes_eq(n, name) {
            return Some(*id);
        }
        i = i + 1;
    }
    None
}

} // verus!
