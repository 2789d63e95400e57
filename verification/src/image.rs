//! Relocatable object files of linked code: the instruction words, as little-endian bytes,
//! make the text section, and one global text symbol at its start names the entry (`_start`
//! in an ELF file for Linux, `main` in a Mach-O file for macOS). The object crate writes the
//! file.
use vstd::prelude::*;
use ::object::write::{Object, Symbol, SymbolSection};
use ::object::{Architecture, BinaryFormat, Endianness, SectionKind, SymbolFlags, SymbolKind, SymbolScope};
use crate::listing::{code_bytes, le_bytes};

verus! {

/// What the object crate writes for a little-endian AArch64 ELF file whose `.text` section
/// (alignment 4) holds `text`, with a global text symbol `_start` at offset 0 that covers the
/// section; `None` where writing fails.
pub uninterp spec fn aarch64_elf_object(text: Seq<u8>) -> Option<Seq<u8>>;

/// What the object crate writes for a little-endian AArch64 Mach-O file whose `__TEXT,__text`
/// section (alignment 4) holds `text`, with a global text symbol `main` at offset 0 that
/// covers the section; `None` where writing fails.
pub uninterp spec fn aarch64_macho_object(text: Seq<u8>) -> Option<Seq<u8>>;

/// Builds with `object::write::Object` an ELF file for AArch64 as `aarch64_elf_object`
/// describes it (`add_section`, `append_section_data`, `add_symbol`) and returns what
/// `Object::write` gives. The contract claims only that the result is what the name stands
/// for on `text`.
#[verifier::external_body]
fn write_elf_object(text: &[u8]) -> (r: Option<Vec<u8>>)
    ensures
        aarch64_elf_object(text@) == match r {
            Some(v) => Some(v@),
            None => None,
        },
{
    let mut obj = Object::new(BinaryFormat::Elf, Architecture::Aarch64, Endianness::Little);
    let section = obj.add_section(b".text".to_vec(), b".text".to_vec(), SectionKind::Text);
    obj.append_section_data(section, text, 4);
    obj.add_symbol(Symbol { name: b"_start".to_vec(), value: 0, size: text.len() as u64, kind: SymbolKind::Text,
        section: SymbolSection::Section(section), scope: SymbolScope::Linkage, weak: false, flags: SymbolFlags::None });
    obj.write().ok()
}

/// Builds with `object::write::Object` a Mach-O file for AArch64 as `aarch64_macho_object`
/// describes it and returns what `Object::write` gives. The contract claims only that the
/// result is what the name stands for on `text`.
#[verifier::external_body]
fn write_macho_object(text: &[u8]) -> (r: Option<Vec<u8>>)
    ensures
        aarch64_macho_object(text@) == match r {
            Some(v) => Some(v@),
            None => None,
        },
{
    let mut obj = Object::new(BinaryFormat::MachO, Architecture::Aarch64, Endianness::Little);
    let section = obj.add_section(b"__TEXT".to_vec(), b"__text".to_vec(), SectionKind::Text);
    obj.append_section_data(section, text, 4);
    obj.add_symbol(Symbol { name: b"main".to_vec(), value: 0, size: text.len() as u64, kind: SymbolKind::Text,
        section: SymbolSection::Section(section), scope: SymbolScope::Linkage, weak: false, flags: SymbolFlags::None });
    obj.write().ok()
}

/// The ELF object file of `instructions`; `None` where the object crate fails to write it.
pub fn elf_object(instructions: &[u32]) -> (r: Option<Vec<u8>>)
    ensures
        aarch64_elf_object(le_bytes(instructions@)) == match r {
            Some(v) => Some(v@),
            None => None,
        },
{
    let text = code_bytes(instructions);
    write_elf_object(text.as_slice())
}

/// The Mach-O object file of `instructions`; `None` where the object crate fails to write it.
pub fn macho_object(instructions: &[u32]) -> (r: Option<Vec<u8>>)
    ensures
        aarch64_macho_object(le_bytes(instructions@)) == match r {
            Some(v) => Some(v@),
            None => None,
        },
{
    let text = code_bytes(instructions);
    write_macho_object(text.as_slice())
}

} // verus!
