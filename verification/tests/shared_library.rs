use std::collections::HashMap;

use arm_to_wasm::aw_core::shared_library::{
    analyze_shared_library, analyze_shared_object, is_listed_symbol, listed_symbols,
    needed_libraries, symbol_variant, DynamicSymbol, SharedLibraryError, SymbolVariant,
    VersionNeed, VersionReference, SHN_ABS,
};

fn needs() -> Vec<VersionNeed> {
    vec![
        VersionNeed {
            file: "libc.so.6".to_string(),
            versions: vec![("GLIBC_2.17".to_string(), 2), ("GLIBC_2.34".to_string(), 3)],
        },
        VersionNeed { file: "libm.so.6".to_string(), versions: vec![("GLIBC_2.29".to_string(), 4)] },
    ]
}

fn symbol(name: &str, st_info: u8, st_shndx: u16, version: u16) -> DynamicSymbol {
    DynamicSymbol { name: name.to_string(), st_info, st_shndx, version }
}

#[test]
fn lists_typed_symbols_only() {
    assert!(is_listed_symbol(0x12, 12));
    assert!(!is_listed_symbol(0x10, 12));
    assert!(!is_listed_symbol(0x03, 12));
    assert!(!is_listed_symbol(0x12, SHN_ABS));
}

#[test]
fn resolves_symbol_versions() {
    let (libraries, references) = needed_libraries(&needs());
    assert_eq!(libraries.len(), 2);
    assert_eq!(libraries[0].name, "libc.so.6");
    assert_eq!(libraries[0].versions, vec!["GLIBC_2.17".to_string(), "GLIBC_2.34".to_string()]);
    assert_eq!(libraries[1].versions, vec!["GLIBC_2.29".to_string()]);
    assert_eq!(references.len(), 3);
    assert_eq!(symbol_variant(0, &references), SymbolVariant::Local);
    assert_eq!(symbol_variant(1, &references), SymbolVariant::Global);
    assert_eq!(
        symbol_variant(3, &references),
        SymbolVariant::Versioned(VersionReference { library_index: 0, relative_index: 1 })
    );
    // the hidden bit is ignored
    assert_eq!(
        symbol_variant(0x8004, &references),
        SymbolVariant::Versioned(VersionReference { library_index: 1, relative_index: 0 })
    );
    assert_eq!(symbol_variant(9, &references), SymbolVariant::Global);
    assert_eq!(symbol_variant(7, &HashMap::new()), SymbolVariant::Global);
}

#[test]
fn analyzes_shared_libraries() {
    let symbols = vec![
        symbol("", 0x00, 0, 0),
        symbol("memcpy", 0x12, 0, 2),
        symbol("section", 0x03, 5, 1),
        symbol("exported", 0x12, 12, 1),
        symbol("absolute", 0x11, SHN_ABS, 1),
    ];
    let analysis = analyze_shared_library(&needs(), &Some(symbols));
    assert_eq!(analysis.needed_libraries.len(), 2);
    assert_eq!(analysis.symbols.len(), 2);
    assert_eq!(analysis.symbols[0].name, "memcpy");
    assert_eq!(
        analysis.symbols[0].variant,
        SymbolVariant::Versioned(VersionReference { library_index: 0, relative_index: 0 })
    );
    assert_eq!(analysis.symbols[1].name, "exported");
    assert_eq!(analysis.symbols[1].variant, SymbolVariant::Global);

    let without_versions = analyze_shared_library(&needs(), &None);
    assert!(without_versions.symbols.is_empty());
    assert_eq!(without_versions.needed_libraries[1].name, "libm.so.6");
}

#[test]
fn listed_symbols_keep_order() {
    let (_, references) = needed_libraries(&needs());
    let symbols = vec![symbol("b", 0x12, 1, 4), symbol("a", 0x11, 1, 0)];
    let listed = listed_symbols(&symbols, &references);
    assert_eq!(listed.len(), 2);
    assert_eq!(listed[0].name, "b");
    assert_eq!(listed[1].name, "a");
    assert_eq!(listed[1].variant, SymbolVariant::Local);
}

fn push_u16(out: &mut Vec<u8>, v: u16) {
    out.extend_from_slice(&v.to_le_bytes());
}

fn push_u32(out: &mut Vec<u8>, v: u32) {
    out.extend_from_slice(&v.to_le_bytes());
}

fn push_u64(out: &mut Vec<u8>, v: u64) {
    out.extend_from_slice(&v.to_le_bytes());
}

fn align(out: &mut Vec<u8>, to: usize) {
    while out.len() % to != 0 {
        out.push(0);
    }
}

/// A section to place in the test object: name offset, type, link, info, entry size and
/// contents.
struct Section {
    name: u32,
    kind: u32,
    link: u32,
    info: u32,
    entsize: u64,
    data: Vec<u8>,
}

/// A little-endian ELF64 shared object with the given sections after the null section;
/// the last section is the section name table.
fn build_shared_object(sections: Vec<Section>) -> Vec<u8> {
    let mut out: Vec<u8> = Vec::new();
    out.extend_from_slice(&[0x7f, b'E', b'L', b'F', 2, 1, 1, 0]);
    out.extend_from_slice(&[0u8; 8]);
    push_u16(&mut out, 3); // ET_DYN
    push_u16(&mut out, 183);
    push_u32(&mut out, 1);
    push_u64(&mut out, 0);
    push_u64(&mut out, 0); // no program headers
    let shoff_position = out.len();
    push_u64(&mut out, 0);
    push_u32(&mut out, 0);
    push_u16(&mut out, 64);
    push_u16(&mut out, 56);
    push_u16(&mut out, 0);
    push_u16(&mut out, 64);
    push_u16(&mut out, sections.len() as u16 + 1);
    push_u16(&mut out, sections.len() as u16);
    let mut offsets = Vec::new();
    for section in &sections {
        align(&mut out, 8);
        offsets.push(out.len() as u64);
        out.extend_from_slice(&section.data);
    }
    align(&mut out, 8);
    let shoff = out.len() as u64;
    out[shoff_position..shoff_position + 8].copy_from_slice(&shoff.to_le_bytes());
    out.extend_from_slice(&[0u8; 64]);
    for (section, offset) in sections.iter().zip(offsets) {
        push_u32(&mut out, section.name);
        push_u32(&mut out, section.kind);
        push_u64(&mut out, 0);
        push_u64(&mut out, 0);
        push_u64(&mut out, offset);
        push_u64(&mut out, section.data.len() as u64);
        push_u32(&mut out, section.link);
        push_u32(&mut out, section.info);
        push_u64(&mut out, 8);
        push_u64(&mut out, section.entsize);
    }
    out
}

fn dynamic_symbol(name: u32, info: u8, shndx: u16, out: &mut Vec<u8>) {
    push_u32(out, name);
    out.push(info);
    out.push(0);
    push_u16(out, shndx);
    push_u64(out, 0);
    push_u64(out, 0);
}

/// libc.so.6 needed at version GLIBC_2.17 (index 2); memcpy bound to it, `exported`
/// global, and an absolute symbol that is not listed.
fn sample_shared_object(with_versions: bool) -> Vec<u8> {
    let dynstr = b"\0libc.so.6\0GLIBC_2.17\0memcpy\0exported\0absolute\0".to_vec();
    let mut dynsym = Vec::new();
    dynsym.extend_from_slice(&[0u8; 24]);
    dynamic_symbol(22, 0x12, 0, &mut dynsym);
    dynamic_symbol(29, 0x12, 5, &mut dynsym);
    dynamic_symbol(38, 0x11, SHN_ABS, &mut dynsym);
    let mut versym = Vec::new();
    for index in [0u16, 2, 1, 1] {
        push_u16(&mut versym, index);
    }
    let mut verneed = Vec::new();
    push_u16(&mut verneed, 1);
    push_u16(&mut verneed, 1);
    push_u32(&mut verneed, 1);
    push_u32(&mut verneed, 16);
    push_u32(&mut verneed, 0);
    push_u32(&mut verneed, 0x0d696910);
    push_u16(&mut verneed, 0);
    push_u16(&mut verneed, 2);
    push_u32(&mut verneed, 11);
    push_u32(&mut verneed, 0);
    let mut dynamic = Vec::new();
    push_u64(&mut dynamic, 1); // DT_NEEDED
    push_u64(&mut dynamic, 1);
    push_u64(&mut dynamic, 0);
    push_u64(&mut dynamic, 0);
    let shstrtab =
        b"\0.dynstr\0.dynsym\0.gnu.version\0.gnu.version_r\0.dynamic\0.shstrtab\0".to_vec();
    let mut sections = vec![
        Section { name: 1, kind: 3, link: 0, info: 0, entsize: 0, data: dynstr },
        Section { name: 9, kind: 11, link: 1, info: 1, entsize: 24, data: dynsym },
    ];
    if with_versions {
        sections.push(Section { name: 17, kind: 0x6fff_ffff, link: 2, info: 0, entsize: 2, data: versym });
        sections.push(Section { name: 30, kind: 0x6fff_fffe, link: 1, info: 1, entsize: 0, data: verneed });
    }
    sections.push(Section { name: 45, kind: 6, link: 1, info: 0, entsize: 16, data: dynamic });
    sections.push(Section { name: 54, kind: 3, link: 0, info: 0, entsize: 0, data: shstrtab });
    build_shared_object(sections)
}

#[test]
fn analyzes_shared_object_files() {
    let analysis = analyze_shared_object(&sample_shared_object(true)).unwrap();
    assert_eq!(analysis.needed_libraries.len(), 1);
    assert_eq!(analysis.needed_libraries[0].name, "libc.so.6");
    assert_eq!(analysis.needed_libraries[0].versions, vec!["GLIBC_2.17".to_string()]);
    assert_eq!(analysis.symbols.len(), 2);
    assert_eq!(analysis.symbols[0].name, "memcpy");
    assert_eq!(
        analysis.symbols[0].variant,
        SymbolVariant::Versioned(VersionReference { library_index: 0, relative_index: 0 })
    );
    assert_eq!(analysis.symbols[1].name, "exported");
    assert_eq!(analysis.symbols[1].variant, SymbolVariant::Global);
}

#[test]
fn shared_objects_without_version_sections_list_no_symbols() {
    let analysis = analyze_shared_object(&sample_shared_object(false)).unwrap();
    assert!(analysis.needed_libraries.is_empty());
    assert!(analysis.symbols.is_empty());
}

#[test]
fn rejects_files_that_are_not_shared_objects() {
    assert!(matches!(analyze_shared_object(&[]), Err(SharedLibraryError::Parse(_))));
    let mut header_only = sample_shared_object(false);
    // no section headers at all: no dynamic table either
    for byte in &mut header_only[0x28..0x30] {
        *byte = 0;
    }
    assert!(matches!(analyze_shared_object(&header_only), Err(SharedLibraryError::NoDynamicTable)));
}
