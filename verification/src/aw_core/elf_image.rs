use vstd::prelude::*;
use elf::ElfBytes;
use elf::ParseError;
use elf::endian::AnyEndian;

verus! {

/// The error the `elf` crate reports for malformed ELF data.
#[verifier::external_type_specification]
#[verifier::external_body]
pub struct ExParseError(ParseError);

/// A symbol table entry: its name offset, type and binding, and value.
#[derive(Debug, Clone, Copy, PartialEq, Eq)]
pub struct SymbolEntry {
    pub st_name: u32,
    pub st_info: u8,
    pub st_value: u64,
}

/// A program header: its type, flags, file offset, load address and file size.
#[derive(Debug, Clone, Copy, PartialEq, Eq)]
pub struct SegmentEntry {
    pub p_type: u32,
    pub p_flags: u32,
    pub p_offset: u64,
    pub p_vaddr: u64,
    pub p_filesz: u64,
}

/// The entry point of the ELF file `data`, or `None` where its header does not parse.
pub uninterp spec fn elf_entry(data: Seq<u8>) -> Option<u64>;

/// The flags of the section headers of `data` (`None` where it has none) and whether it
/// has a section name string table; `None` where they do not parse.
pub uninterp spec fn elf_section_flags(data: Seq<u8>) -> Option<(Option<Seq<u64>>, bool)>;

/// The contents of the section with header `index` of `data`; `None` where they do not
/// parse.
pub uninterp spec fn elf_section_data(data: Seq<u8>, index: usize) -> Option<Seq<u8>>;

/// The entries of the symbol table of `data` (`None` where it has none); `None` where
/// they do not parse.
pub uninterp spec fn elf_symbols(data: Seq<u8>) -> Option<Option<Seq<SymbolEntry>>>;

/// The string at `offset` of the string table linked to the symbol table of `data`;
/// `None` where it does not parse.
pub uninterp spec fn elf_symbol_name(data: Seq<u8>, offset: u32) -> Option<Seq<char>>;

/// The program headers of `data` (`None` where it has none); `None` where the header
/// does not parse.
pub uninterp spec fn elf_segments(data: Seq<u8>) -> Option<Option<Seq<SegmentEntry>>>;

/// The views of optional section flags.
pub open spec fn flags_view(flags: Option<Vec<u64>>) -> Option<Seq<u64>> {
    match flags {
        Some(f) => Some(f@),
        None => None,
    }
}

/// The views of optional entries.
pub open spec fn entries_view<T>(entries: Option<Vec<T>>) -> Option<Seq<T>> {
    match entries {
        Some(e) => Some(e@),
        None => None,
    }
}

/// `ElfBytes::minimal_parse` and the header's `e_entry`: the entry point, or the parse
/// error. The contract claims only that the result is a function of the bytes.
#[verifier::external_body]
pub(crate) fn read_entry(data: &[u8]) -> (r: Result<u64, ParseError>)
    ensures
        match r {
            Ok(entry) => elf_entry(data@) == Some(entry),
            Err(_) => elf_entry(data@) is None,
        },
{
    ElfBytes::<AnyEndian>::minimal_parse(data).map(|file| file.ehdr.e_entry)
}

/// `ElfBytes::section_headers_with_strtab`, after `minimal_parse`: the `sh_flags` of the
/// section headers its table yields, in order, and whether a name table was found. The
/// contract claims only that the result is a function of the bytes.
#[verifier::external_body]
pub(crate) fn read_section_flags(data: &[u8]) -> (r: Result<(Option<Vec<u64>>, bool), ParseError>)
    ensures
        match r {
            Ok((flags, has_names)) => elf_section_flags(data@) == Some((flags_view(flags), has_names)),
            Err(_) => elf_section_flags(data@) is None,
        },
{
    let file = ElfBytes::<AnyEndian>::minimal_parse(data)?;
    let (headers, names) = file.section_headers_with_strtab()?;
    let flags = headers.map(|table| table.iter().map(|header| header.sh_flags).collect());
    Ok((flags, names.is_some()))
}

/// `ElfBytes::section_data` of the section header `index` of `section_headers`, after
/// `minimal_parse`: a copy of the section's bytes. The contract claims only that the
/// result is a function of the bytes and the index; the file must have section headers.
#[verifier::external_body]
pub(crate) fn read_section_data(data: &[u8], index: usize) -> (r: Result<Vec<u8>, ParseError>)
    requires
        elf_section_flags(data@) matches Some((Some(_), _)),
    ensures
        match r {
            Ok(bytes) => elf_section_data(data@, index) == Some(bytes@),
            Err(_) => elf_section_data(data@, index) is None,
        },
{
    let file = ElfBytes::<AnyEndian>::minimal_parse(data)?;
    let header = file.section_headers().unwrap().get(index)?;
    Ok(file.section_data(&header)?.0.to_vec())
}

/// `ElfBytes::symbol_table`, after `minimal_parse`: the name offset, `st_info` and value
/// of each entry its table yields, in order. The contract claims only that the result
/// is a function of the bytes.
#[verifier::external_body]
pub(crate) fn read_symbols(data: &[u8]) -> (r: Result<Option<Vec<SymbolEntry>>, ParseError>)
    ensures
        match r {
            Ok(entries) => elf_symbols(data@) == Some(entries_view(entries)),
            Err(_) => elf_symbols(data@) is None,
        },
{
    let file = ElfBytes::<AnyEndian>::minimal_parse(data)?;
    let to_entry = |s: elf::symbol::Symbol|
        SymbolEntry { st_name: s.st_name, st_info: s.st_info, st_value: s.st_value };
    Ok(file.symbol_table()?.map(|(table, _)| table.iter().map(to_entry).collect()))
}

/// `StringTable::get` on the string table that `ElfBytes::symbol_table` links to the
/// symbol table, after `minimal_parse`: the name at `offset`. The contract claims only
/// that the result is a function of the bytes and the offset; the file must have a
/// symbol table.
#[verifier::external_body]
pub(crate) fn read_symbol_name(data: &[u8], offset: u32) -> (r: Result<String, ParseError>)
    requires
        elf_symbols(data@) matches Some(Some(_)),
    ensures
        match r {
            Ok(name) => elf_symbol_name(data@, offset) == Some(name@),
            Err(_) => elf_symbol_name(data@, offset) is None,
        },
{
    let file = ElfBytes::<AnyEndian>::minimal_parse(data)?;
    let (_, names) = file.symbol_table()?.unwrap();
    Ok(names.get(offset as usize)?.to_string())
}

/// `ElfBytes::segments`, after `minimal_parse`: the type, flags, offset, load address
/// and file size of each program header its table yields, in order. The contract
/// claims only that the result is a function of the bytes.
#[verifier::external_body]
pub(crate) fn read_segments(data: &[u8]) -> (r: Result<Option<Vec<SegmentEntry>>, ParseError>)
    ensures
        match r {
            Ok(entries) => elf_segments(data@) == Some(entries_view(entries)),
            Err(_) => elf_segments(data@) is None,
        },
{
    let file = ElfBytes::<AnyEndian>::minimal_parse(data)?;
    let to_entry = |p: elf::segment::ProgramHeader|
        SegmentEntry {
            p_type: p.p_type,
            p_flags: p.p_flags,
            p_offset: p.p_offset,
            p_vaddr: p.p_vaddr,
            p_filesz: p.p_filesz,
        };
    Ok(file.segments().map(|table| table.iter().map(to_entry).collect()))
}


/// A dynamic symbol table entry: its name offset, type and binding, and section index.
#[derive(Debug, Clone, Copy, PartialEq, Eq)]
pub struct DynamicSymbolEntry {
    pub st_name: u32,
    pub st_info: u8,
    pub st_shndx: u16,
}

/// A section header: its name offset, type, flags, load address, the section it links
/// to, and its extra information.
#[derive(Debug, Clone, Copy, PartialEq, Eq)]
pub struct SectionEntry {
    pub sh_name: u32,
    pub sh_type: u32,
    pub sh_flags: u64,
    pub sh_addr: u64,
    pub sh_link: u32,
    pub sh_info: u32,
}

/// A `.gnu.version_r` entry: the name offset of the needed file, and the name offset and
/// version index of each version of it that is referenced.
#[derive(Debug)]
pub struct VersionNeedEntry {
    pub vn_file: u32,
    pub versions: Vec<(u32, u16)>,
}

/// The views of version need entries.
pub open spec fn version_needs_view(entries: Seq<VersionNeedEntry>) -> Seq<(u32, Seq<(u32, u16)>)> {
    entries.map_values(|e: VersionNeedEntry| (e.vn_file, e.versions@))
}

/// The section name table of `data` and its string at `offset`: `None` where the
/// headers, the table or the string do not parse, `Some(None)` where there is no table.
pub uninterp spec fn elf_section_name(data: Seq<u8>, offset: u32) -> Option<Option<Seq<char>>>;

/// The tags and values of the entries of the dynamic table of `data` (`None` where it
/// has none); `None` where they do not parse.
pub uninterp spec fn elf_dynamic_entries(data: Seq<u8>) -> Option<Option<Seq<(i64, u64)>>>;

/// The entries of the dynamic symbol table of `data` (`None` where it has none); `None`
/// where they do not parse.
pub uninterp spec fn elf_dynamic_symbols(data: Seq<u8>) -> Option<Option<Seq<DynamicSymbolEntry>>>;

/// The string at `offset` of the string table of the dynamic symbol table of `data`;
/// `None` where it does not parse.
pub uninterp spec fn elf_dynamic_string(data: Seq<u8>, offset: u64) -> Option<Seq<char>>;

/// The section headers of `data` (`None` where it has none); `None` where they do not
/// parse.
pub uninterp spec fn elf_section_entries(data: Seq<u8>) -> Option<Option<Seq<SectionEntry>>>;

/// The string table in section `section` of `data` and its string at `offset`: `None`
/// where the table does not parse, `Some(None)` where the string does not.
pub uninterp spec fn elf_linked_string(data: Seq<u8>, section: usize, offset: u32) -> Option<Option<Seq<char>>>;

/// The first `count` version need entries of the `.gnu.version_r` section `section` of
/// `data`, as the `elf` crate walks them; `None` where the section does not parse.
pub uninterp spec fn elf_version_needs(data: Seq<u8>, section: usize, count: u64) -> Option<Seq<(u32, Seq<(u32, u16)>)>>;

/// The version indices of the `.gnu.version` section `section` of `data`; `None` where
/// the section does not parse.
pub uninterp spec fn elf_version_indices(data: Seq<u8>, section: usize) -> Option<Seq<u16>>;

/// `ElfBytes::dynamic`, after `minimal_parse`: the `d_tag` and `d_val` of each entry the
/// table yields, in order. The contract claims only that the result is a function of
/// the bytes.
#[verifier::external_body]
pub(crate) fn read_dynamic_entries(data: &[u8]) -> (r: Result<Option<Vec<(i64, u64)>>, ParseError>)
    ensures
        match r {
            Ok(entries) => elf_dynamic_entries(data@) == Some(entries_view(entries)),
            Err(_) => elf_dynamic_entries(data@) is None,
        },
{
    let file = ElfBytes::<AnyEndian>::minimal_parse(data)?;
    Ok(file.dynamic()?.map(|table| table.iter().map(|d| (d.d_tag, d.d_val())).collect()))
}

/// `ElfBytes::dynamic_symbol_table`, after `minimal_parse`: the name offset, `st_info` and
/// `st_shndx` of each entry the table yields, in order. The contract claims only that
/// the result is a function of the bytes.
#[verifier::external_body]
pub(crate) fn read_dynamic_symbols(data: &[u8]) -> (r: Result<Option<Vec<DynamicSymbolEntry>>, ParseError>)
    ensures
        match r {
            Ok(entries) => elf_dynamic_symbols(data@) == Some(entries_view(entries)),
            Err(_) => elf_dynamic_symbols(data@) is None,
        },
{
    let file = ElfBytes::<AnyEndian>::minimal_parse(data)?;
    let to_entry = |s: elf::symbol::Symbol|
        DynamicSymbolEntry { st_name: s.st_name, st_info: s.st_info, st_shndx: s.st_shndx };
    Ok(file.dynamic_symbol_table()?.map(|(table, _)| table.iter().map(to_entry).collect()))
}

/// `StringTable::get` on the string table that `ElfBytes::dynamic_symbol_table` links to
/// the dynamic symbol table, after `minimal_parse`: the string at `offset`. The contract
/// claims only that the result is a function of the bytes and the offset; the file must
/// have a dynamic symbol table.
#[verifier::external_body]
pub(crate) fn read_dynamic_string(data: &[u8], offset: u64) -> (r: Result<String, ParseError>)
    requires
        elf_dynamic_symbols(data@) matches Some(Some(_)),
    ensures
        match r {
            Ok(name) => elf_dynamic_string(data@, offset) == Some(name@),
            Err(_) => elf_dynamic_string(data@, offset) is None,
        },
{
    let file = ElfBytes::<AnyEndian>::minimal_parse(data)?;
    let (_, names) = file.dynamic_symbol_table()?.unwrap();
    Ok(names.get(offset as usize)?.to_string())
}

/// `ElfBytes::section_headers`, after `minimal_parse`: the `sh_name`, `sh_type`,
/// `sh_flags`, `sh_addr`, `sh_link` and `sh_info` of each header its table yields, in
/// order. The contract claims only that
/// the result is a function of the bytes.
#[verifier::external_body]
pub(crate) fn read_section_entries(data: &[u8]) -> (r: Result<Option<Vec<SectionEntry>>, ParseError>)
    ensures
        match r {
            Ok(entries) => elf_section_entries(data@) == Some(entries_view(entries)),
            Err(_) => elf_section_entries(data@) is None,
        },
{
    let file = ElfBytes::<AnyEndian>::minimal_parse(data)?;
    let to_entry = |h: elf::section::SectionHeader|
        SectionEntry {
            sh_name: h.sh_name,
            sh_type: h.sh_type,
            sh_flags: h.sh_flags,
            sh_addr: h.sh_addr,
            sh_link: h.sh_link,
            sh_info: h.sh_info,
        };
    Ok(file.section_headers().map(|table| table.iter().map(to_entry).collect()))
}

/// `ElfBytes::section_headers_with_strtab`, after `minimal_parse`, and `StringTable::get`
/// of `offset` in the name table: the name, `None` where the file has no name table, or
/// the error of any of these steps. The contract claims only that the result is a
/// function of the bytes and the offset.
#[verifier::external_body]
pub(crate) fn read_section_name(data: &[u8], offset: u32) -> (r: Result<Option<String>, ParseError>)
    ensures
        match r {
            Ok(Some(name)) => elf_section_name(data@, offset) == Some(Some(name@)),
            Ok(None) => elf_section_name(data@, offset) == Some(None::<Seq<char>>),
            Err(_) => elf_section_name(data@, offset) is None,
        },
{
    let file = ElfBytes::<AnyEndian>::minimal_parse(data)?;
    let (_, names) = file.section_headers_with_strtab()?;
    match names {
        Some(names) => Ok(Some(names.get(offset as usize)?.to_string())),
        None => Ok(None),
    }
}

/// `ElfBytes::section_data_as_strtab` of the section header `section`, after
/// `minimal_parse`, and `StringTable::get` of `offset` in it: the outer error is the
/// table's, the inner `None` the string's. The contract claims only that the result is
/// a function of the bytes, the section and the offset; the file must have section
/// headers.
#[verifier::external_body]
pub(crate) fn read_linked_string(data: &[u8], section: usize, offset: u32) -> (r: Result<Option<String>, ParseError>)
    requires
        elf_section_entries(data@) matches Some(Some(_)),
    ensures
        match r {
            Ok(Some(name)) => elf_linked_string(data@, section, offset) == Some(Some(name@)),
            Ok(None) => elf_linked_string(data@, section, offset) == Some(None::<Seq<char>>),
            Err(_) => elf_linked_string(data@, section, offset) is None,
        },
{
    let file = ElfBytes::<AnyEndian>::minimal_parse(data)?;
    let header = file.section_headers().unwrap().get(section)?;
    let strings = file.section_data_as_strtab(&header)?;
    Ok(strings.get(offset as usize).ok().map(|name| name.to_string()))
}

/// Whether an offset into a buffer of `len` bytes plus a 32-bit link stays within
/// `usize`: the `elf` crate's version need iterators add such links to their offset
/// without a check, and stop counting down correctly only when they do not wrap.
pub open spec fn offsets_fit(len: nat) -> bool {
    len + 0x1_0000_0000 <= usize::MAX
}

/// `VerNeedIterator` over the data of the section header `section` for `count` entries,
/// after `minimal_parse` and `ElfBytes::section_data`: each entry's `vn_file` and the
/// `vna_name` and `vna_other` of its auxiliary entries. The contract claims only that the
/// result is a function of the bytes, the section and the count; the file must have
/// section headers, and offsets into it plus a 32-bit link must not wrap (on a 32-bit
/// target they can, and the iterator then panics or does not end).
#[verifier::external_body]
pub(crate) fn read_version_needs(data: &[u8], section: usize, count: u64) -> (r: Result<Vec<VersionNeedEntry>, ParseError>)
    requires
        elf_section_entries(data@) matches Some(Some(_)),
        offsets_fit(data@.len()),
    ensures
        match r {
            Ok(entries) => elf_version_needs(data@, section, count) == Some(version_needs_view(entries@)),
            Err(_) => elf_version_needs(data@, section, count) is None,
        },
{
    let file = ElfBytes::<AnyEndian>::minimal_parse(data)?;
    let header = file.section_headers().unwrap().get(section)?;
    let (bytes, _) = file.section_data(&header)?;
    let needs = elf::gnu_symver::VerNeedIterator::new(file.ehdr.endianness, file.ehdr.class, count, 0, bytes);
    Ok(needs.map(|(need, auxes)| VersionNeedEntry {
        vn_file: need.vn_file,
        versions: auxes.map(|aux| (aux.vna_name, aux.vna_other)).collect(),
    }).collect())
}

/// `VersionIndexTable` over the data of the section header `section`, after
/// `minimal_parse` and `ElfBytes::section_data`: each index it yields, in order. The
/// contract claims only that the result is a function of the bytes and the section; the
/// file must have section headers.
#[verifier::external_body]
pub(crate) fn read_version_indices(data: &[u8], section: usize) -> (r: Result<Vec<u16>, ParseError>)
    requires
        elf_section_entries(data@) matches Some(Some(_)),
    ensures
        match r {
            Ok(indices) => elf_version_indices(data@, section) == Some(indices@),
            Err(_) => elf_version_indices(data@, section) is None,
        },
{
    let file = ElfBytes::<AnyEndian>::minimal_parse(data)?;
    let header = file.section_headers().unwrap().get(section)?;
    let (bytes, _) = file.section_data(&header)?;
    let table = elf::gnu_symver::VersionIndexTable::new(file.ehdr.endianness, file.ehdr.class, bytes);
    Ok(table.iter().map(|index| index.0).collect())
}

} // verus!
