use vstd::prelude::*;
use std::collections::HashMap;
use elf::ParseError;
use crate::aw_core::elf_image::{
    DynamicSymbolEntry, SectionEntry, elf_dynamic_entries, elf_dynamic_string,
    elf_dynamic_symbols, elf_linked_string, elf_section_entries, elf_version_indices,
    elf_version_needs, entries_view, read_dynamic_entries, read_dynamic_string,
    read_dynamic_symbols, read_linked_string, read_section_entries, read_version_indices,
    read_version_needs, version_needs_view, offsets_fit,
};

verus! {

/// A library a shared object needs, with the versions of it that it references.
#[derive(Debug)]
pub struct NeededLibrary {
    pub name: String,
    pub versions: Vec<String>,
}

/// A dynamic symbol and how it is bound.
#[derive(Debug)]
pub struct Symbol {
    pub name: String,
    pub variant: SymbolVariant,
}

/// The needed libraries and dynamic symbols of a shared object.
#[derive(Debug)]
pub struct SharedLibraryAnalysis {
    pub needed_libraries: Vec<NeededLibrary>,
    pub symbols: Vec<Symbol>,
}

/// How a dynamic symbol is bound: locally, globally, or to a version of a needed
/// library.
#[derive(Debug, Clone, Copy, PartialEq, Eq)]
pub enum SymbolVariant {
    Local,
    Global,
    Versioned(VersionReference),
}

/// A version of a needed library: the library's index and the version's index among
/// the library's versions.
#[derive(Debug, Clone, Copy, PartialEq, Eq)]
pub struct VersionReference {
    pub library_index: usize,
    pub relative_index: usize,
}

/// The symbol type without data (`STT_NOTYPE`).
pub const STT_NOTYPE: u8 = 0;

/// The symbol type of a section (`STT_SECTION`).
pub const STT_SECTION: u8 = 3;

/// The section index of absolute symbols (`SHN_ABS`).
pub const SHN_ABS: u16 = 0xfff1;

/// The version index of a local symbol (`VER_NDX_LOCAL`).
pub const VER_NDX_LOCAL: u16 = 0;

/// The version index of a global symbol (`VER_NDX_GLOBAL`).
pub const VER_NDX_GLOBAL: u16 = 1;

/// Whether a dynamic symbol is listed: it has a type other than none or section, and is
/// not absolute.
pub open spec fn is_listed(st_info: u8, st_shndx: u16) -> bool {
    let symtype = st_info % 16;
    !(symtype == STT_NOTYPE || symtype == STT_SECTION || st_shndx == SHN_ABS)
}

/// Whether the dynamic symbol with `st_info` and `st_shndx` is listed.
pub fn is_listed_symbol(st_info: u8, st_shndx: u16) -> (r: bool)
    ensures
        r == is_listed(st_info, st_shndx),
{
    let symtype = st_info & 0xf;
    assert(st_info & 0xf == st_info % 16) by (bit_vector);
    !(symtype == STT_NOTYPE || symtype == STT_SECTION || st_shndx == SHN_ABS)
}

/// The version index in a `.gnu.version` entry: its low fifteen bits (the top bit marks
/// a hidden symbol).
pub open spec fn version_index(entry: u16) -> u16 {
    entry % 0x8000
}

/// How a dynamic symbol whose `.gnu.version` entry is `entry` is bound: locally or
/// globally for the reserved indices, to the version `references` maps the index to,
/// and globally where it maps none.
pub open spec fn variant_of(entry: u16, references: Map<u16, VersionReference>) -> SymbolVariant {
    let index = version_index(entry);
    if index == VER_NDX_LOCAL {
        SymbolVariant::Local
    } else if index == VER_NDX_GLOBAL {
        SymbolVariant::Global
    } else if references.contains_key(index) {
        SymbolVariant::Versioned(references[index])
    } else {
        SymbolVariant::Global
    }
}

/// How the dynamic symbol whose `.gnu.version` entry is `entry` is bound.
pub fn symbol_variant(entry: u16, references: &HashMap<u16, VersionReference>) -> (r: SymbolVariant)
    ensures
        r == variant_of(entry, references@),
{
    broadcast use vstd::std_specs::hash::group_hash_axioms;

    let index = entry & 0x7fff;
    assert(entry & 0x7fff == entry % 0x8000) by (bit_vector);
    if index == VER_NDX_LOCAL {
        SymbolVariant::Local
    } else if index == VER_NDX_GLOBAL {
        SymbolVariant::Global
    } else {
        match references.get(&index) {
            Some(reference) => SymbolVariant::Versioned(*reference),
            None => SymbolVariant::Global,
        }
    }
}

/// A `.gnu.version_r` entry: the file name of a needed library, and the name and
/// `vna_other` index of each version of it that is referenced.
#[derive(Debug)]
pub struct VersionNeed {
    pub file: String,
    pub versions: Vec<(String, u16)>,
}

/// A dynamic symbol table entry, with its name and its `.gnu.version` entry.
#[derive(Debug)]
pub struct DynamicSymbol {
    pub name: String,
    pub st_info: u8,
    pub st_shndx: u16,
    pub version: u16,
}

/// The version references `needs` define: each version's `vna_other` index refers to
/// the library it belongs to and its position there, a later definition replacing an
/// earlier one.
pub open spec fn references_of(needs: Seq<VersionNeed>) -> Map<u16, VersionReference>
    decreases needs.len(),
{
    if needs.len() == 0 {
        Map::empty()
    } else {
        let library_index = (needs.len() - 1) as usize;
        let versions = needs.last().versions@;
        references_of(needs.drop_last()).union_prefer_right(
            versions_references(versions, library_index, versions.len() as int),
        )
    }
}

/// The version references of the first `n` versions of the library at `library_index`.
pub open spec fn versions_references(versions: Seq<(String, u16)>, library_index: usize, n: int) -> Map<
    u16,
    VersionReference,
>
    decreases n,
{
    if n <= 0 {
        Map::empty()
    } else {
        versions_references(versions, library_index, n - 1).insert(
            versions[n - 1].1,
            VersionReference { library_index, relative_index: (n - 1) as usize },
        )
    }
}

/// The needed libraries `needs` describe, with their version names, and the version
/// references they define.
pub fn needed_libraries(needs: &Vec<VersionNeed>) -> (r: (Vec<NeededLibrary>, HashMap<u16, VersionReference>))
    ensures
        r.0.len() == needs.len(),
        forall|k: int|
            0 <= k < needs.len() ==> {
                &&& (#[trigger] r.0@[k]).name@ == needs@[k].file@
                &&& r.0@[k].versions.len() == needs@[k].versions.len()
                &&& forall|v: int|
                    0 <= v < needs@[k].versions.len() ==> r.0@[k].versions@[v]@
                        == needs@[k].versions@[v].0@
            },
        r.1@ == references_of(needs@),
{
    broadcast use vstd::std_specs::hash::group_hash_axioms;

    let mut libraries: Vec<NeededLibrary> = Vec::new();
    let mut references: HashMap<u16, VersionReference> = HashMap::new();
    let mut k: usize = 0;
    while k < needs.len()
        invariant
            k <= needs.len(),
            libraries.len() == k,
            forall|m: int|
                0 <= m < k ==> {
                    &&& (#[trigger] libraries@[m]).name@ == needs@[m].file@
                    &&& libraries@[m].versions.len() == needs@[m].versions.len()
                    &&& forall|v: int|
                        0 <= v < needs@[m].versions.len() ==> libraries@[m].versions@[v]@
                            == needs@[m].versions@[v].0@
                },
            references@ == references_of(needs@.take(k as int)),
        decreases needs.len() - k,
    {
        let need = &needs[k];
        let ghost before = references@;
        let mut versions: Vec<String> = Vec::new();
        let mut v: usize = 0;
        while v < need.versions.len()
            invariant
                v <= need.versions.len(),
                versions.len() == v,
                forall|w: int| 0 <= w < v ==> (#[trigger] versions@[w])@ == need.versions@[w].0@,
                references@ == before.union_prefer_right(
                    versions_references(need.versions@, k, v as int),
                ),
            decreases need.versions.len() - v,
        {
            let (name, other) = &need.versions[v];
            versions.push(name.clone());
            references.insert(*other, VersionReference { library_index: k, relative_index: v });
            proof {
                assert(references@ =~= before.union_prefer_right(
                    versions_references(need.versions@, k, v + 1),
                ));
            }
            v = v + 1;
        }
        libraries.push(NeededLibrary { name: need.file.clone(), versions });
        proof {
            assert(needs@.take(k + 1).drop_last() =~= needs@.take(k as int));
            assert(needs@.take(k + 1).last() == needs@[k as int]);
        }
        k = k + 1;
    }
    proof {
        assert(needs@.take(needs.len() as int) =~= needs@);
    }
    (libraries, references)
}

/// The listed symbols of `symbols`, in order.
pub open spec fn listed(symbols: Seq<DynamicSymbol>) -> Seq<DynamicSymbol>
    decreases symbols.len(),
{
    if symbols.len() == 0 {
        Seq::empty()
    } else {
        listed(symbols.drop_last()) + if is_listed(symbols.last().st_info, symbols.last().st_shndx) {
            seq![symbols.last()]
        } else {
            Seq::empty()
        }
    }
}

/// The listed dynamic symbols, each with how it is bound given the version references.
pub fn listed_symbols(symbols: &Vec<DynamicSymbol>, references: &HashMap<u16, VersionReference>) -> (r: Vec<Symbol>)
    ensures
        r.len() == listed(symbols@).len(),
        forall|k: int|
            0 <= k < r.len() ==> {
                &&& (#[trigger] r@[k]).name@ == listed(symbols@)[k].name@
                &&& r@[k].variant == variant_of(listed(symbols@)[k].version, references@)
            },
{
    let mut result: Vec<Symbol> = Vec::new();
    let mut i: usize = 0;
    while i < symbols.len()
        invariant
            i <= symbols.len(),
            result.len() == listed(symbols@.take(i as int)).len(),
            forall|k: int|
                0 <= k < result.len() ==> {
                    &&& (#[trigger] result@[k]).name@ == listed(symbols@.take(i as int))[k].name@
                    &&& result@[k].variant == variant_of(
                        listed(symbols@.take(i as int))[k].version,
                        references@,
                    )
                },
        decreases symbols.len() - i,
    {
        let symbol = &symbols[i];
        proof {
            assert(symbols@.take(i + 1).drop_last() =~= symbols@.take(i as int));
            assert(symbols@.take(i + 1).last() == symbols@[i as int]);
        }
        if is_listed_symbol(symbol.st_info, symbol.st_shndx) {
            let variant = symbol_variant(symbol.version, references);
            result.push(Symbol { name: symbol.name.clone(), variant });
        }
        proof {
            let before = listed(symbols@.take(i as int));
            let after = listed(symbols@.take(i + 1));
            assert forall|k: int| 0 <= k < result.len() implies {
                &&& (#[trigger] result@[k]).name@ == after[k].name@
                &&& result@[k].variant == variant_of(after[k].version, references@)
            } by {
                if k < before.len() {
                    assert(after[k] == before[k]);
                }
            }
        }
        i = i + 1;
    }
    proof {
        assert(symbols@.take(symbols.len() as int) =~= symbols@);
    }
    result
}

/// Whether `r` is the analysis of a shared object with version needs `needs` and, where it
/// has a `.gnu.version` section, dynamic symbols `symbols`: its needed libraries with
/// their versions, and its listed symbols with how each is bound (none without a
/// `.gnu.version` section).
pub open spec fn analysis_of(
    r: SharedLibraryAnalysis,
    needs: Seq<VersionNeed>,
    symbols: Option<Seq<DynamicSymbol>>,
) -> bool {
    &&& r.needed_libraries.len() == needs.len()
    &&& forall|k: int|
        0 <= k < needs.len() ==> {
            &&& (#[trigger] r.needed_libraries@[k]).name@ == needs[k].file@
            &&& r.needed_libraries@[k].versions.len() == needs[k].versions.len()
            &&& forall|v: int|
                0 <= v < needs[k].versions.len() ==> r.needed_libraries@[k].versions@[v]@
                    == needs[k].versions@[v].0@
        }
    &&& match symbols {
        Some(symbols) => {
            &&& r.symbols.len() == listed(symbols).len()
            &&& forall|k: int|
                0 <= k < r.symbols.len() ==> {
                    &&& (#[trigger] r.symbols@[k]).name@ == listed(symbols)[k].name@
                    &&& r.symbols@[k].variant == variant_of(
                        listed(symbols)[k].version,
                        references_of(needs),
                    )
                }
        },
        None => r.symbols.len() == 0,
    }
}

proof fn lemma_versions_references_in_range(versions: Seq<(String, u16)>, library_index: usize, n: int)
    requires
        0 <= n <= versions.len(),
        n <= usize::MAX,
    ensures
        forall|key: u16|
            #[trigger] versions_references(versions, library_index, n).contains_key(key) ==> {
                &&& versions_references(versions, library_index, n)[key].library_index == library_index
                &&& versions_references(versions, library_index, n)[key].relative_index < n
            },
    decreases n,
{
    if n > 0 {
        lemma_versions_references_in_range(versions, library_index, n - 1);
        let previous = versions_references(versions, library_index, n - 1);
        let added = VersionReference { library_index, relative_index: (n - 1) as usize };
        assert(versions_references(versions, library_index, n) == previous.insert(versions[n - 1].1, added));
        assert forall|key: u16| #[trigger] versions_references(versions, library_index, n).contains_key(key) implies {
            &&& versions_references(versions, library_index, n)[key].library_index == library_index
            &&& versions_references(versions, library_index, n)[key].relative_index < n
        } by {
            if key != versions[n - 1].1 {
                assert(previous.contains_key(key));
            }
        }
    }
}

proof fn lemma_references_in_range(needs: Seq<VersionNeed>)
    requires
        needs.len() <= usize::MAX,
    ensures
        forall|key: u16|
            #[trigger] references_of(needs).contains_key(key) ==> {
                let v = references_of(needs)[key];
                &&& v.library_index < needs.len()
                &&& v.relative_index < needs[v.library_index as int].versions.len()
            },
    decreases needs.len(),
{
    if needs.len() > 0 {
        let prefix = needs.drop_last();
        let library_index = (needs.len() - 1) as usize;
        let versions = needs.last().versions@;
        assert(versions.len() == needs.last().versions.len());
        lemma_references_in_range(prefix);
        lemma_versions_references_in_range(versions, library_index, versions.len() as int);
        assert forall|key: u16| #[trigger] references_of(needs).contains_key(key) implies {
            let v = references_of(needs)[key];
            &&& v.library_index < needs.len()
            &&& v.relative_index < needs[v.library_index as int].versions.len()
        } by {
            let right = versions_references(versions, library_index, versions.len() as int);
            if right.contains_key(key) {
            } else {
                assert(references_of(prefix).contains_key(key));
                let v = references_of(prefix)[key];
                assert(needs[v.library_index as int] == prefix[v.library_index as int]);
            }
        }
    }
}

/// Every versioned symbol of an analysis refers to a needed library of the analysis and
/// to one of that library's versions.
pub proof fn lemma_versioned_symbols_in_range(
    r: SharedLibraryAnalysis,
    needs: Seq<VersionNeed>,
    symbols: Option<Seq<DynamicSymbol>>,
)
    requires
        analysis_of(r, needs, symbols),
        needs.len() <= usize::MAX,
    ensures
        forall|k: int|
            0 <= k < r.symbols.len() ==> ((#[trigger] r.symbols@[k]).variant matches SymbolVariant::Versioned(v)
                ==> {
                &&& v.library_index < r.needed_libraries.len()
                &&& v.relative_index < r.needed_libraries@[v.library_index as int].versions.len()
            }),
{
    lemma_references_in_range(needs);
    assert forall|k: int| 0 <= k < r.symbols.len() implies ((#[trigger] r.symbols@[k]).variant matches SymbolVariant::Versioned(v)
        ==> {
        &&& v.library_index < r.needed_libraries.len()
        &&& v.relative_index < r.needed_libraries@[v.library_index as int].versions.len()
    }) by {
        if let SymbolVariant::Versioned(v) = r.symbols@[k].variant {
            let symbols = symbols->0;
            let index = version_index(listed(symbols)[k].version);
            assert(references_of(needs).contains_key(index));
            assert(r.needed_libraries@[v.library_index as int].versions.len()
                == needs[v.library_index as int].versions.len());
        }
    }
}

/// The analysis of a shared object with version needs `needs` and, where it has a
/// `.gnu.version` section, dynamic symbols `symbols`.
pub fn analyze_shared_library(needs: &Vec<VersionNeed>, symbols: &Option<Vec<DynamicSymbol>>) -> (r: SharedLibraryAnalysis)
    ensures
        analysis_of(r, needs@, entries_view(*symbols)),
{
    let (needed_libraries, references) = needed_libraries(needs);
    let symbols = match symbols {
        Some(symbols) => listed_symbols(symbols, &references),
        None => Vec::new(),
    };
    SharedLibraryAnalysis { needed_libraries, symbols }
}


/// The dynamic table tag of a needed library (`DT_NEEDED`).
pub const DT_NEEDED: i64 = 1;

/// The section type of `.gnu.version_r` (`SHT_GNU_VERNEED`).
pub const SHT_GNU_VERNEED: u32 = 0x6fff_fffe;

/// The section type of `.gnu.version` (`SHT_GNU_VERSYM`).
pub const SHT_GNU_VERSYM: u32 = 0x6fff_ffff;

/// Why a shared object could not be analysed.
#[derive(Debug)]
pub enum SharedLibraryError {
    /// The `elf` crate could not parse a part of the file.
    Parse(ParseError),
    /// The file has no dynamic table.
    NoDynamicTable,
    /// The file has no dynamic symbol table.
    NoDynamicSymbolTable,
}

/// The index of the first header of `headers`, from `from` on, of type `kind`.
pub open spec fn section_of_type_from(headers: Seq<SectionEntry>, kind: u32, from: int) -> Option<usize>
    decreases headers.len() - from,
{
    if from < 0 || from >= headers.len() {
        None
    } else if headers[from].sh_type == kind {
        Some(from as usize)
    } else {
        section_of_type_from(headers, kind, from + 1)
    }
}

/// The index of the first header of `headers` of type `kind`.
pub open spec fn section_of_type(headers: Seq<SectionEntry>, kind: u32) -> Option<usize> {
    section_of_type_from(headers, kind, 0)
}

/// The name of unknown strings.
pub open spec fn unknown_name() -> Seq<char> {
    "<unknown>"@
}

/// The string at `offset` of the string table in section `link` of `data`, or the
/// unknown name where it cannot be read.
pub open spec fn linked_name(data: Seq<u8>, link: usize, offset: u32) -> Seq<char> {
    match elf_linked_string(data, link, offset) {
        Some(Some(name)) => name,
        _ => unknown_name(),
    }
}

/// The string at `offset` of the dynamic string table of `data`, or the unknown name
/// where it cannot be read.
pub open spec fn dynamic_name(data: Seq<u8>, offset: u32) -> Seq<char> {
    match elf_dynamic_string(data, offset as u64) {
        Some(name) => name,
        None => unknown_name(),
    }
}

/// Whether `need` is the version need entry `entry`, its names read from the string table
/// in section `link` of `data`.
pub open spec fn need_matches(data: Seq<u8>, link: usize, need: VersionNeed, entry: (u32, Seq<(u32, u16)>)) -> bool {
    &&& need.file@ == linked_name(data, link, entry.0)
    &&& need.versions.len() == entry.1.len()
    &&& forall|v: int|
        0 <= v < entry.1.len() ==> {
            &&& (#[trigger] need.versions@[v]).0@ == linked_name(data, link, entry.1[v].0)
            &&& need.versions@[v].1 == entry.1[v].1
        }
}

/// The version needs section of `data` and its linked string table, if it has one.
pub open spec fn verneed_section(data: Seq<u8>) -> Option<(usize, SectionEntry)> {
    match elf_section_entries(data) {
        Some(Some(headers)) => match section_of_type(headers, SHT_GNU_VERNEED) {
            Some(i) => Some((i, headers[i as int])),
            None => None,
        },
        _ => None,
    }
}

/// The version symbol section of `data`, if it has one.
pub open spec fn versym_section(data: Seq<u8>) -> Option<usize> {
    match elf_section_entries(data) {
        Some(Some(headers)) => section_of_type(headers, SHT_GNU_VERSYM),
        _ => None,
    }
}

/// Whether the version needs of the shared object `data` are `needs`: one per entry of
/// its `.gnu.version_r` section, none without one.
pub open spec fn needs_from_elf(data: Seq<u8>, needs: Seq<VersionNeed>) -> bool {
    match verneed_section(data) {
        Some((i, header)) => elf_version_needs(data, i, header.sh_info as u64) matches Some(entries)
            && needs.len() == entries.len() && forall|k: int|
            0 <= k < needs.len() ==> need_matches(
                data,
                header.sh_link as usize,
                #[trigger] needs[k],
                entries[k],
            ),
        None => needs.len() == 0,
    }
}

/// Whether `symbols` are the dynamic symbols of the shared object `data` with their
/// `.gnu.version` entries, paired in order (as many as both have), or none without a
/// `.gnu.version` section.
pub open spec fn symbols_from_elf(data: Seq<u8>, symbols: Option<Seq<DynamicSymbol>>) -> bool {
    match versym_section(data) {
        Some(i) => {
            &&& elf_dynamic_symbols(data) matches Some(Some(entries))
            &&& elf_version_indices(data, i) matches Some(indices)
            &&& symbols matches Some(symbols)
            &&& symbols.len() == (if entries.len() < indices.len() {
                entries.len()
            } else {
                indices.len()
            })
            &&& forall|k: int|
                0 <= k < symbols.len() ==> {
                    &&& (#[trigger] symbols[k]).name@ == dynamic_name(data, entries[k].st_name)
                    &&& symbols[k].st_info == entries[k].st_info
                    &&& symbols[k].st_shndx == entries[k].st_shndx
                    &&& symbols[k].version == indices[k]
                }
        },
        None => symbols is None,
    }
}

/// Whether every needed library named in the dynamic table `entries` of `data` has a
/// readable name.
pub open spec fn needed_names_readable(data: Seq<u8>, entries: Seq<(i64, u64)>) -> bool {
    forall|k: int|
        0 <= k < entries.len() && (#[trigger] entries[k]).0 == DT_NEEDED ==> elf_dynamic_string(
            data,
            entries[k].1,
        ) is Some
}

/// Whether the version needs of `data` can be read: its section, its string table and,
/// from the table, every name it refers to.
pub open spec fn needs_readable(data: Seq<u8>) -> bool {
    match verneed_section(data) {
        Some((i, header)) => {
            &&& elf_linked_string(data, header.sh_link as usize, 0) is Some
            &&& elf_version_needs(data, i, header.sh_info as u64) matches Some(entries)
            &&& forall|k: int|
                0 <= k < entries.len() ==> {
                    &&& elf_linked_string(data, header.sh_link as usize, (#[trigger] entries[k]).0) is Some
                    &&& forall|v: int|
                        0 <= v < entries[k].1.len() ==> elf_linked_string(
                            data,
                            header.sh_link as usize,
                            (#[trigger] entries[k].1[v]).0,
                        ) is Some
                }
        },
        None => true,
    }
}

/// Whether the parts of the shared object `data` its analysis reads can be read.
pub open spec fn shared_object_readable(data: Seq<u8>) -> bool {
    &&& elf_dynamic_entries(data) matches Some(Some(entries)) && needed_names_readable(data, entries)
    &&& elf_dynamic_symbols(data) matches Some(Some(_))
    &&& elf_section_entries(data) is Some
    &&& needs_readable(data)
    &&& versym_section(data) matches Some(i) ==> elf_version_indices(data, i) is Some
}

proof fn lemma_section_of_type_in_range(headers: Seq<SectionEntry>, kind: u32, from: int)
    requires
        0 <= from,
        headers.len() <= usize::MAX,
    ensures
        match section_of_type_from(headers, kind, from) {
            Some(i) => from <= i < headers.len() && headers[i as int].sh_type == kind,
            None => true,
        },
    decreases headers.len() - from,
{
    if from < headers.len() && headers[from].sh_type != kind {
        lemma_section_of_type_in_range(headers, kind, from + 1);
    }
}

/// The index of the first header of `headers` of type `kind`.
fn find_section(headers: &Vec<SectionEntry>, kind: u32) -> (r: Option<usize>)
    ensures
        r == section_of_type(headers@, kind),
        r matches Some(i) ==> i < headers.len(),
{
    let count = headers.len();
    proof {
        lemma_section_of_type_in_range(headers@, kind, 0);
    }
    let mut i: usize = 0;
    while i < count
        invariant
            count == headers.len(),
            i <= count,
            section_of_type(headers@, kind) == section_of_type_from(headers@, kind, i as int),
        decreases count - i,
    {
        if headers[i].sh_type == kind {
            return Some(i);
        }
        i = i + 1;
    }
    None
}

fn unknown() -> (r: String)
    ensures
        r@ == unknown_name(),
{
    String::from_str("<unknown>")
}

/// Reads the name at `offset` of the string table in section `section`.
fn linked_string(data: &[u8], section: usize, offset: u32) -> (r: Result<String, ParseError>)
    requires
        elf_section_entries(data@) matches Some(Some(_)),
    ensures
        match r {
            Ok(name) => name@ == linked_name(data@, section, offset) && elf_linked_string(
                data@,
                section,
                offset,
            ) is Some,
            Err(_) => elf_linked_string(data@, section, offset) is None,
        },
{
    match read_linked_string(data, section, offset) {
        Ok(Some(name)) => Ok(name),
        Ok(None) => Ok(unknown()),
        Err(e) => Err(e),
    }
}

/// The version needs of the shared object `data`.
fn version_needs(data: &[u8], headers: &Vec<SectionEntry>) -> (r: Result<Vec<VersionNeed>, ParseError>)
    requires
        elf_section_entries(data@) == Some(Some(headers@)),
        offsets_fit(data@.len()),
    ensures
        match r {
            Ok(needs) => needs_readable(data@) && needs_from_elf(data@, needs@),
            Err(_) => !needs_readable(data@),
        },
{
    let index = match find_section(headers, SHT_GNU_VERNEED) {
        Some(index) => index,
        None => {
            return Ok(Vec::new());
        },
    };
    let header = headers[index];
    let link = header.sh_link as usize;
    match linked_string(data, link, 0) {
        Ok(_) => {},
        Err(e) => {
            return Err(e);
        },
    }
    let entries = match read_version_needs(data, index, header.sh_info as u64) {
        Ok(entries) => entries,
        Err(e) => {
            return Err(e);
        },
    };
    let ghost view = version_needs_view(entries@);
    let mut needs: Vec<VersionNeed> = Vec::new();
    let mut k: usize = 0;
    while k < entries.len()
        invariant
            k <= entries.len(),
            view == version_needs_view(entries@),
            elf_section_entries(data@) == Some(Some(headers@)),
            verneed_section(data@) == Some((index, header)),
            link == header.sh_link as usize,
            elf_linked_string(data@, link, 0) is Some,
            elf_version_needs(data@, index, header.sh_info as u64) == Some(view),
            needs.len() == k,
            forall|m: int| 0 <= m < k ==> need_matches(data@, link, #[trigger] needs@[m], view[m]),
            forall|m: int|
                0 <= m < k ==> {
                    &&& elf_linked_string(data@, link, (#[trigger] view[m]).0) is Some
                    &&& forall|v: int|
                        0 <= v < view[m].1.len() ==> elf_linked_string(
                            data@,
                            link,
                            (#[trigger] view[m].1[v]).0,
                        ) is Some
                },
        decreases entries.len() - k,
    {
        let entry = &entries[k];
        proof {
            assert(view[k as int] == (entry.vn_file, entry.versions@));
        }
        let file = match linked_string(data, link, entry.vn_file) {
            Ok(name) => name,
            Err(e) => {
                proof {
                    assert(view[k as int].0 == entry.vn_file);
                }
                return Err(e);
            },
        };
        let mut versions: Vec<(String, u16)> = Vec::new();
        let mut v: usize = 0;
        while v < entry.versions.len()
            invariant
                v <= entry.versions.len(),
                k < entries.len(),
                view.len() == entries.len(),
                view[k as int] == (entry.vn_file, entry.versions@),
                verneed_section(data@) == Some((index, header)),
                link == header.sh_link as usize,
                elf_version_needs(data@, index, header.sh_info as u64) == Some(view),
                elf_section_entries(data@) == Some(Some(headers@)),
                versions.len() == v,
                forall|w: int|
                    0 <= w < v ==> {
                        &&& (#[trigger] versions@[w]).0@ == linked_name(
                            data@,
                            link,
                            entry.versions@[w].0,
                        )
                        &&& versions@[w].1 == entry.versions@[w].1
                        &&& elf_linked_string(data@, link, entry.versions@[w].0) is Some
                    },
            decreases entry.versions.len() - v,
        {
            let (name_offset, other) = entry.versions[v];
            proof {
                assert(entry.versions@[v as int] == (name_offset, other));
            }
            let name = match linked_string(data, link, name_offset) {
                Ok(name) => name,
                Err(e) => {
                    proof {
                        assert(view[k as int].1[v as int] == (name_offset, other));
                        assert(elf_linked_string(data@, link, view[k as int].1[v as int].0) is None);
                    }
                    return Err(e);
                },
            };
            versions.push((name, other));
            v = v + 1;
        }
        proof {
            assert forall|w: int| 0 <= w < view[k as int].1.len() implies elf_linked_string(
                data@,
                link,
                (#[trigger] view[k as int].1[w]).0,
            ) is Some by {
                assert(view[k as int].1[w] == entry.versions@[w]);
                assert(versions@[w].1 == entry.versions@[w].1);
            }
        }
        needs.push(VersionNeed { file, versions });
        proof {
            assert(need_matches(data@, link, needs@[k as int], view[k as int]));
        }
        k = k + 1;
    }
    Ok(needs)
}

/// Checks that every needed library named in `entries` has a readable name.
fn check_needed_names(data: &[u8], entries: &Vec<(i64, u64)>) -> (r: Result<(), ParseError>)
    requires
        elf_dynamic_symbols(data@) matches Some(Some(_)),
    ensures
        r is Ok <==> needed_names_readable(data@, entries@),
{
    let mut k: usize = 0;
    while k < entries.len()
        invariant
            k <= entries.len(),
            elf_dynamic_symbols(data@) matches Some(Some(_)),
            forall|m: int|
                0 <= m < k && (#[trigger] entries@[m]).0 == DT_NEEDED ==> elf_dynamic_string(
                    data@,
                    entries@[m].1,
                ) is Some,
        decreases entries.len() - k,
    {
        let (tag, value) = entries[k];
        if tag == DT_NEEDED {
            match read_dynamic_string(data, value) {
                Ok(_) => {},
                Err(e) => {
                    return Err(e);
                },
            }
        }
        k = k + 1;
    }
    Ok(())
}

/// The dynamic symbols of `data` paired with the version indices of section `section`.
fn versioned_symbols(data: &[u8], symbols: &Vec<DynamicSymbolEntry>, indices: &Vec<u16>) -> (r: Vec<DynamicSymbol>)
    requires
        elf_dynamic_symbols(data@) == Some(Some(symbols@)),
    ensures
        r.len() == (if symbols.len() < indices.len() {
            symbols.len()
        } else {
            indices.len()
        }),
        forall|k: int|
            0 <= k < r.len() ==> {
                &&& (#[trigger] r@[k]).name@ == dynamic_name(data@, symbols@[k].st_name)
                &&& r@[k].st_info == symbols@[k].st_info
                &&& r@[k].st_shndx == symbols@[k].st_shndx
                &&& r@[k].version == indices@[k]
            },
{
    let count = if symbols.len() < indices.len() {
        symbols.len()
    } else {
        indices.len()
    };
    let mut result: Vec<DynamicSymbol> = Vec::new();
    let mut k: usize = 0;
    while k < count
        invariant
            k <= count,
            count <= symbols.len(),
            count <= indices.len(),
            elf_dynamic_symbols(data@) == Some(Some(symbols@)),
            result.len() == k,
            forall|m: int|
                0 <= m < k ==> {
                    &&& (#[trigger] result@[m]).name@ == dynamic_name(data@, symbols@[m].st_name)
                    &&& result@[m].st_info == symbols@[m].st_info
                    &&& result@[m].st_shndx == symbols@[m].st_shndx
                    &&& result@[m].version == indices@[m]
                },
        decreases count - k,
    {
        let entry = symbols[k];
        let name = match read_dynamic_string(data, entry.st_name as u64) {
            Ok(name) => name,
            Err(_) => unknown(),
        };
        result.push(
            DynamicSymbol {
                name,
                st_info: entry.st_info,
                st_shndx: entry.st_shndx,
                version: indices[k],
            },
        );
        k = k + 1;
    }
    result
}

/// Analyses the shared object `elf_bytes`: the libraries its `.gnu.version_r` section
/// needs, with their versions, and its listed dynamic symbols, each bound as its
/// `.gnu.version` entry says, after checking that it has a dynamic table and a dynamic
/// symbol table and that the names of its needed libraries can be read.
#[verifier::spinoff_prover]
pub fn analyze_shared_object(elf_bytes: &[u8]) -> (r: Result<SharedLibraryAnalysis, SharedLibraryError>)
    requires
        offsets_fit(elf_bytes@.len()),
    ensures
        match r {
            Ok(analysis) => {
                &&& shared_object_readable(elf_bytes@)
                &&& exists|needs: Seq<VersionNeed>, symbols: Option<Seq<DynamicSymbol>>|
                    #![trigger needs_from_elf(elf_bytes@, needs), symbols_from_elf(elf_bytes@, symbols)]
                    {
                        &&& needs_from_elf(elf_bytes@, needs)
                        &&& symbols_from_elf(elf_bytes@, symbols)
                        &&& analysis_of(analysis, needs, symbols)
                    }
            },
            Err(SharedLibraryError::Parse(_)) => {
                &&& !shared_object_readable(elf_bytes@)
                &&& elf_dynamic_entries(elf_bytes@) != Some(None::<Seq<(i64, u64)>>)
                &&& elf_dynamic_entries(elf_bytes@) is Some ==> elf_dynamic_symbols(elf_bytes@)
                    != Some(None::<Seq<DynamicSymbolEntry>>)
            },
            Err(SharedLibraryError::NoDynamicTable) => elf_dynamic_entries(elf_bytes@) == Some(
                None::<Seq<(i64, u64)>>,
            ),
            Err(SharedLibraryError::NoDynamicSymbolTable) => elf_dynamic_entries(elf_bytes@) is Some
                && elf_dynamic_entries(elf_bytes@) != Some(None::<Seq<(i64, u64)>>)
                && elf_dynamic_symbols(elf_bytes@) == Some(None::<Seq<DynamicSymbolEntry>>),
        },
{
    let entries = match read_dynamic_entries(elf_bytes) {
        Ok(Some(entries)) => entries,
        Ok(None) => {
            return Err(SharedLibraryError::NoDynamicTable);
        },
        Err(e) => {
            return Err(SharedLibraryError::Parse(e));
        },
    };
    let dynamic_symbols = match read_dynamic_symbols(elf_bytes) {
        Ok(Some(symbols)) => symbols,
        Ok(None) => {
            return Err(SharedLibraryError::NoDynamicSymbolTable);
        },
        Err(e) => {
            return Err(SharedLibraryError::Parse(e));
        },
    };
    match check_needed_names(elf_bytes, &entries) {
        Ok(()) => {},
        Err(e) => {
            return Err(SharedLibraryError::Parse(e));
        },
    }
    let headers = match read_section_entries(elf_bytes) {
        Ok(Some(headers)) => headers,
        Ok(None) => {
            let no_needs: Vec<VersionNeed> = Vec::new();
            let analysis = analyze_shared_library(&no_needs, &None);
            proof {
                assert(needs_from_elf(elf_bytes@, no_needs@));
                assert(symbols_from_elf(elf_bytes@, None));
            }
            return Ok(analysis);
        },
        Err(e) => {
            return Err(SharedLibraryError::Parse(e));
        },
    };
    let needs = match version_needs(elf_bytes, &headers) {
        Ok(needs) => needs,
        Err(e) => {
            return Err(SharedLibraryError::Parse(e));
        },
    };
    let symbols = match find_section(&headers, SHT_GNU_VERSYM) {
        Some(index) => match read_version_indices(elf_bytes, index) {
            Ok(indices) => Some(versioned_symbols(elf_bytes, &dynamic_symbols, &indices)),
            Err(e) => {
                return Err(SharedLibraryError::Parse(e));
            },
        },
        None => None,
    };
    let analysis = analyze_shared_library(&needs, &symbols);
    proof {
        assert(needs_from_elf(elf_bytes@, needs@));
        assert(symbols_from_elf(elf_bytes@, entries_view(symbols)));
    }
    Ok(analysis)
}

} // verus!
