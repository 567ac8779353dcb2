//! Decoding the executable sections of an ELF file word by word, and counting the
//! mnemonics that capstone gives the words the decoder does not know.

use vstd::prelude::*;
use capstone::arch::BuildsCapstone;
use elf::ParseError;
use crate::arm_decoder::utilities::{le_word, read_le_word};
use crate::aw_core::analysis::SHF_EXECINSTR;
use crate::aw_core::elf_image::{
    SectionEntry, elf_section_data, elf_section_entries, elf_section_flags, elf_section_name,
    read_section_data, read_section_entries, read_section_flags, read_section_name,
};
use crate::aw_core::shared_library::unknown_name;
use crate::reboot::instructions::{Instruction, all_decodable, spec_decode, words_decodable};
use crate::arm_decoder::decoding;
use crate::arm_decoder::instructions::Instruction as ArmInstruction;

verus! {

/// An executable section: its name, load address and contents.
#[derive(Debug)]
pub struct CodeSection {
    pub name: String,
    pub address: u64,
    pub data: Vec<u8>,
}

/// Whether the section header `e` marks executable code.
pub open spec fn is_executable(e: SectionEntry) -> bool {
    e.sh_flags & SHF_EXECINSTR != 0
}

/// The indices, in order, of the executable headers among the first `n` of `entries`.
pub open spec fn executable_indices(entries: Seq<SectionEntry>, n: int) -> Seq<int>
    decreases n,
{
    if n <= 0 {
        Seq::empty()
    } else if is_executable(entries[n - 1]) {
        executable_indices(entries, n - 1).push(n - 1)
    } else {
        executable_indices(entries, n - 1)
    }
}

/// The name of the section whose name is at `offset` of the name table of `data`, or
/// `<unknown>` where the file has no name table.
pub open spec fn section_name_of(data: Seq<u8>, offset: u32) -> Seq<char> {
    match elf_section_name(data, offset) {
        Some(Some(name)) => name,
        _ => unknown_name(),
    }
}

/// Whether `s` is the section with header `i` of `entries` in `data`: its name, address
/// and contents.
pub open spec fn section_matches(data: Seq<u8>, entries: Seq<SectionEntry>, i: int, s: CodeSection) -> bool {
    &&& elf_section_name(data, entries[i].sh_name) is Some
    &&& s.name@ == section_name_of(data, entries[i].sh_name)
    &&& s.address == entries[i].sh_addr
    &&& elf_section_data(data, i as usize) == Some(s.data@)
}

/// Whether `sections` are the executable sections of the ELF file `data`, in the order
/// of their headers.
pub open spec fn sections_of(data: Seq<u8>, sections: Seq<CodeSection>) -> bool {
    match elf_section_flags(data) {
        Some((None, _)) => sections.len() == 0,
        Some((Some(_), _)) => match elf_section_entries(data) {
            Some(None) => sections.len() == 0,
            Some(Some(entries)) => {
                let indices = executable_indices(entries, entries.len() as int);
                &&& sections.len() == indices.len()
                &&& forall|j: int|
                    0 <= j < sections.len() ==> section_matches(
                        data,
                        entries,
                        indices[j],
                        #[trigger] sections[j],
                    )
            },
            None => false,
        },
        None => false,
    }
}

/// Whether the executable sections of `data` can be read: its section headers, and the
/// name and contents of each executable section.
pub open spec fn sections_readable(data: Seq<u8>) -> bool {
    match elf_section_flags(data) {
        Some((None, _)) => true,
        Some((Some(_), _)) => match elf_section_entries(data) {
            Some(None) => true,
            Some(Some(entries)) => forall|i: int|
                0 <= i < entries.len() && is_executable(#[trigger] entries[i]) ==> {
                    &&& elf_section_name(data, entries[i].sh_name) is Some
                    &&& elf_section_data(data, i as usize) is Some
                },
            None => false,
        },
        None => false,
    }
}

fn unknown_section_name() -> (r: String)
    ensures
        r@ == unknown_name(),
{
    String::from_str("<unknown>")
}

/// The executable sections of the ELF file `elf_bytes`, in the order of their headers:
/// each with its name from the section name table (`<unknown>` without one), its load
/// address and its contents.
pub fn executable_sections(elf_bytes: &[u8]) -> (r: Result<Vec<CodeSection>, ParseError>)
    ensures
        match r {
            Ok(sections) => sections_readable(elf_bytes@) && sections_of(elf_bytes@, sections@),
            Err(_) => !sections_readable(elf_bytes@),
        },
{
    let has_headers = match read_section_flags(elf_bytes) {
        Ok((flags, _)) => flags.is_some(),
        Err(e) => {
            return Err(e);
        },
    };
    if !has_headers {
        return Ok(Vec::new());
    }
    let entries = match read_section_entries(elf_bytes) {
        Ok(Some(entries)) => entries,
        Ok(None) => {
            return Ok(Vec::new());
        },
        Err(e) => {
            return Err(e);
        },
    };
    let mut sections: Vec<CodeSection> = Vec::new();
    let mut i: usize = 0;
    while i < entries.len()
        invariant
            i <= entries.len(),
            elf_section_flags(elf_bytes@) matches Some((Some(_), _)),
            elf_section_entries(elf_bytes@) == Some(Some(entries@)),
            sections.len() == executable_indices(entries@, i as int).len(),
            forall|j: int|
                0 <= j < sections.len() ==> section_matches(
                    elf_bytes@,
                    entries@,
                    executable_indices(entries@, i as int)[j],
                    #[trigger] sections@[j],
                ),
            forall|k: int|
                0 <= k < i && is_executable(#[trigger] entries@[k]) ==> {
                    &&& elf_section_name(elf_bytes@, entries@[k].sh_name) is Some
                    &&& elf_section_data(elf_bytes@, k as usize) is Some
                },
        decreases entries.len() - i,
    {
        let entry = entries[i];
        if entry.sh_flags & SHF_EXECINSTR != 0 {
            let name = match read_section_name(elf_bytes, entry.sh_name) {
                Ok(Some(name)) => name,
                Ok(None) => unknown_section_name(),
                Err(e) => {
                    return Err(e);
                },
            };
            let data = match read_section_data(elf_bytes, i) {
                Ok(data) => data,
                Err(e) => {
                    return Err(e);
                },
            };
            sections.push(CodeSection { name, address: entry.sh_addr, data });
        }
        i = i + 1;
    }
    Ok(sections)
}

/// The first mnemonic capstone gives the four little-endian bytes of `word` at
/// `address`, decoded as AArch64; `None` where it decodes no instruction there or gives
/// no mnemonic.
pub uninterp spec fn capstone_mnemonic(word: u32, address: u64) -> Option<Seq<char>>;

/// `Capstone::disasm_all` of the little-endian bytes of `word` at `address`, with an
/// AArch64 disassembler in Arm mode, and `Insn::mnemonic` of the first instruction it
/// yields. The contract claims that the result is a function of the word and the
/// address; setting up the disassembler is taken to succeed, as it does wherever
/// capstone was built with AArch64 support.
#[verifier::external_body]
fn mnemonic_of(word: u32, address: u64) -> (r: Option<String>)
    ensures
        match r {
            Some(m) => capstone_mnemonic(word, address) == Some(m@),
            None => capstone_mnemonic(word, address) is None,
        },
{
    let disassembler = capstone::Capstone::new().arm64().mode(
        capstone::arch::arm64::ArchMode::Arm,
    ).build().ok()?;
    let instructions = disassembler.disasm_all(&word.to_le_bytes(), address).ok()?;
    let first = instructions.iter().next()?;
    first.mnemonic().map(|m| m.to_string())
}

/// The mnemonics capstone gives the words of `data`, at `address` on, among the first
/// `n` words, that the decoder leaves `Unknown` (those it gives one).
pub open spec fn unknown_mnemonics_in(data: Seq<u8>, address: u64, n: int) -> Seq<Seq<char>>
    decreases n,
{
    if n <= 0 {
        Seq::empty()
    } else {
        let previous = unknown_mnemonics_in(data, address, n - 1);
        let word = le_word(data, 4 * (n - 1));
        let at = address.wrapping_add((4 * (n - 1)) as u64);
        if spec_decode(word) is Unknown && capstone_mnemonic(word, at) is Some {
            previous.push(capstone_mnemonic(word, at)->0)
        } else {
            previous
        }
    }
}

/// The mnemonics of the unknown words of the first `n` of `sections`, section by
/// section.
pub open spec fn unknown_mnemonics(sections: Seq<CodeSection>, n: int) -> Seq<Seq<char>>
    decreases n,
{
    if n <= 0 {
        Seq::empty()
    } else {
        let s = sections[n - 1];
        unknown_mnemonics(sections, n - 1) + unknown_mnemonics_in(
            s.data@,
            s.address,
            (s.data@.len() / 4) as int,
        )
    }
}

/// How often `m` occurs in `s`.
pub open spec fn occurrences(s: Seq<Seq<char>>, m: Seq<char>) -> nat
    decreases s.len(),
{
    if s.len() == 0 {
        0
    } else {
        occurrences(s.drop_last(), m) + if s.last() == m {
            1nat
        } else {
            0nat
        }
    }
}

/// The views of `strings`.
pub open spec fn string_views(strings: Seq<String>) -> Seq<Seq<char>> {
    strings.map_values(|s: String| s@)
}

/// Whether `counts` counts the strings of `s`: each distinct string once, with the
/// number of times it occurs, and nothing else.
pub open spec fn counts_of(s: Seq<Seq<char>>, counts: Seq<(String, u64)>) -> bool {
    &&& forall|i: int, j: int|
        0 <= i < j < counts.len() ==> (#[trigger] counts[i]).0@ != (#[trigger] counts[j]).0@
    &&& forall|i: int|
        0 <= i < counts.len() ==> (#[trigger] counts[i]).1 == occurrences(s, counts[i].0@)
            && counts[i].1 > 0
    &&& forall|k: int|
        0 <= k < s.len() ==> exists|i: int| 0 <= i < counts.len() && (#[trigger] counts[i]).0@ == #[trigger] s[k]
}

proof fn lemma_occurrences_push(s: Seq<Seq<char>>, x: Seq<char>, m: Seq<char>)
    ensures
        occurrences(s.push(x), m) == occurrences(s, m) + if x == m {
            1nat
        } else {
            0nat
        },
{
    assert(s.push(x).drop_last() =~= s);
}

proof fn lemma_occurrences_bound(s: Seq<Seq<char>>, m: Seq<char>)
    ensures
        occurrences(s, m) <= s.len(),
    decreases s.len(),
{
    if s.len() > 0 {
        lemma_occurrences_bound(s.drop_last(), m);
    }
}

/// Counts the strings of `mnemonics`: each distinct one once, in the order it first
/// occurs, with the number of times it occurs.
pub fn count_mnemonics(mnemonics: &Vec<String>) -> (r: Vec<(String, u64)>)
    ensures
        counts_of(string_views(mnemonics@), r@),
{
    let ghost all = string_views(mnemonics@);
    let mut counts: Vec<(String, u64)> = Vec::new();
    let mut k: usize = 0;
    while k < mnemonics.len()
        invariant
            k <= mnemonics.len(),
            all == string_views(mnemonics@),
            counts_of(all.take(k as int), counts@),
        decreases mnemonics.len() - k,
    {
        let ghost before = all.take(k as int);
        let name = &mnemonics[k];
        proof {
            assert(all.take(k as int + 1) =~= before.push(name@));
            assert forall|m: Seq<char>| true implies occurrences(all.take(k as int + 1), m)
                == occurrences(before, m) + if name@ == m {
                1nat
            } else {
                0nat
            } by {
                lemma_occurrences_push(before, name@, m);
            }
            lemma_occurrences_bound(before, name@);
        }
        let mut found = false;
        let mut i: usize = 0;
        while i < counts.len()
            invariant_except_break
                i <= counts.len(),
                !found,
                forall|j: int| 0 <= j < i ==> (#[trigger] counts@[j]).0@ != name@,
            ensures
                found ==> i < counts.len() && counts@[i as int].0@ == name@,
                !found ==> forall|j: int| 0 <= j < counts.len() ==> (#[trigger] counts@[j]).0@ != name@,
            decreases counts.len() - i,
        {
            if counts[i].0 == *name {
                found = true;
                break;
            }
            i = i + 1;
        }
        let ghost old_counts = counts@;
        if found {
            let current = counts[i].0.clone();
            let count = counts[i].1;
            proof {
                assert(count == occurrences(before, name@));
                assert(count <= k);
            }
            counts.set(i, (current, count + 1));
            proof {
                assert forall|j: int| 0 <= j < counts.len() implies (#[trigger] counts@[j]).1
                    == occurrences(all.take(k as int + 1), counts@[j].0@) by {
                    if j != i {
                        assert(counts@[j].0@ != name@);
                    }
                }
                assert forall|q: int| 0 <= q < k + 1 implies exists|j: int|
                    0 <= j < counts.len() && (#[trigger] counts@[j]).0@ == #[trigger] all.take(
                        k as int + 1,
                    )[q] by {
                    if q < k {
                        assert(all.take(k as int + 1)[q] == before[q]);
                        let j = choose|j: int| 0 <= j < old_counts.len() && old_counts[j].0@ == before[q];
                        assert(counts@[j].0@ == old_counts[j].0@);
                    } else {
                        assert(counts@[i as int].0@ == name@);
                    }
                }
            }
        } else {
            proof {
                assert(occurrences(before, name@) == 0) by {
                    if occurrences(before, name@) > 0 {
                        lemma_occurrence_witness(before, name@);
                        let q = choose|q: int| 0 <= q < before.len() && before[q] == name@;
                        assert(exists|j: int| 0 <= j < counts.len() && (#[trigger] counts@[j]).0@ == before[q]);
                        let j = choose|j: int| 0 <= j < counts.len() && (#[trigger] counts@[j]).0@ == before[q];
                        assert(counts@[j].0@ == name@);
                    }
                }
            }
            counts.push((name.clone(), 1));
            proof {
                assert forall|j: int| 0 <= j < counts.len() implies (#[trigger] counts@[j]).1
                    == occurrences(all.take(k as int + 1), counts@[j].0@) by {
                    if j < old_counts.len() {
                        assert(counts@[j] == old_counts[j]);
                        assert(old_counts[j].0@ != name@);
                    }
                }
                assert forall|q: int| 0 <= q < k + 1 implies exists|j: int|
                    0 <= j < counts.len() && (#[trigger] counts@[j]).0@ == #[trigger] all.take(
                        k as int + 1,
                    )[q] by {
                    if q < k {
                        assert(all.take(k as int + 1)[q] == before[q]);
                        let j = choose|j: int| 0 <= j < old_counts.len() && old_counts[j].0@ == before[q];
                        assert(counts@[j] == old_counts[j]);
                    } else {
                        assert(counts@[old_counts.len() as int].0@ == name@);
                    }
                }
            }
        }
        k = k + 1;
    }
    proof {
        assert(all.take(mnemonics.len() as int) =~= all);
    }
    counts
}

proof fn lemma_occurrence_witness(s: Seq<Seq<char>>, m: Seq<char>)
    requires
        occurrences(s, m) > 0,
    ensures
        exists|q: int| 0 <= q < s.len() && s[q] == m,
    decreases s.len(),
{
    if s.last() != m {
        lemma_occurrence_witness(s.drop_last(), m);
        let q = choose|q: int| 0 <= q < s.drop_last().len() && s.drop_last()[q] == m;
        assert(s[q] == m);
    } else {
        assert(s[s.len() - 1] == m);
    }
}


/// The decoded executable sections of an ELF file: each section, its instructions word
/// by word, and how often capstone gives each mnemonic to the words the decoder does not
/// know.
#[derive(Debug)]
pub struct FileListing {
    pub sections: Vec<CodeSection>,
    pub instructions: Vec<Vec<Instruction>>,
    pub unknown_counts: Vec<(String, u64)>,
}

/// Why the executable sections of an ELF file could not be decoded.
#[derive(Debug)]
pub enum DecodeFileError {
    /// The `elf` crate could not parse the section headers, a section name or a
    /// section's contents.
    Parse(ParseError),
    /// The executable section at `section_index` (among the executable sections) holds a
    /// word the decoder does not accept.
    Undecodable { section_index: usize },
    /// Capstone gives no mnemonic for word `word_index` of the executable section at
    /// `section_index`.
    NoMnemonic { section_index: usize, word_index: usize },
}

/// Whether each of `instructions` is the decoding of the words of the section with the
/// same index in `sections`.
pub open spec fn decoded_sections(sections: Seq<CodeSection>, instructions: Seq<Vec<Instruction>>) -> bool {
    &&& instructions.len() == sections.len()
    &&& forall|k: int|
        0 <= k < sections.len() ==> {
            let data = (#[trigger] sections[k]).data@;
            &&& all_decodable(data)
            &&& instructions[k].len() == data.len() / 4
            &&& forall|w: int|
                0 <= w < instructions[k].len() ==> #[trigger] instructions[k][w] == spec_decode(
                    le_word(data, 4 * w),
                )
        }
}

/// Decodes every word of the executable sections of the ELF file `elf_bytes`, and counts
/// the mnemonics capstone gives the words the decoder leaves `Unknown`.
pub fn decode_file(elf_bytes: &[u8]) -> (r: Result<FileListing, DecodeFileError>)
    ensures
        match r {
            Ok(listing) => {
                &&& sections_readable(elf_bytes@)
                &&& sections_of(elf_bytes@, listing.sections@)
                &&& decoded_sections(listing.sections@, listing.instructions@)
                &&& counts_of(
                    unknown_mnemonics(listing.sections@, listing.sections.len() as int),
                    listing.unknown_counts@,
                )
            },
            Err(DecodeFileError::Parse(_)) => !sections_readable(elf_bytes@),
            Err(DecodeFileError::Undecodable { section_index }) => exists|sections: Seq<CodeSection>|
                {
                    &&& #[trigger] sections_of(elf_bytes@, sections)
                    &&& sections_readable(elf_bytes@)
                    &&& section_index < sections.len()
                    &&& !all_decodable(sections[section_index as int].data@)
                    &&& forall|j: int| 0 <= j < section_index ==> all_decodable(#[trigger] sections[j].data@)
                },
            Err(DecodeFileError::NoMnemonic { .. }) => false,
        },
{
    let sections = match executable_sections(elf_bytes) {
        Ok(sections) => sections,
        Err(e) => {
            return Err(DecodeFileError::Parse(e));
        },
    };
    let mut instructions: Vec<Vec<Instruction>> = Vec::new();
    let mut mnemonics: Vec<String> = Vec::new();
    let mut k: usize = 0;
    while k < sections.len()
        invariant
            k <= sections.len(),
            sections_readable(elf_bytes@),
            sections_of(elf_bytes@, sections@),
            decoded_sections(sections@.take(k as int), instructions@),
            string_views(mnemonics@) == unknown_mnemonics(sections@, k as int),
        decreases sections.len() - k,
    {
        let section = &sections[k];
        if !words_decodable(&section.data) {
            proof {
                assert forall|j: int| 0 <= j < k implies all_decodable(#[trigger] sections@[j].data@) by {
                    assert(sections@.take(k as int)[j] == sections@[j]);
                }
            }
            return Err(DecodeFileError::Undecodable { section_index: k });
        }
        let decoded = Instruction::decode_bytes(&section.data);
        let count = section.data.len() / 4;
        let mut w: usize = 0;
        while w < count
            invariant
                w <= count,
                count == section.data.len() / 4,
                decoded.len() == count,
                forall|q: int|
                    0 <= q < count ==> #[trigger] decoded[q] == spec_decode(le_word(section.data@, 4 * q)),
                string_views(mnemonics@) == unknown_mnemonics(sections@, k as int)
                    + unknown_mnemonics_in(section.data@, section.address, w as int),
            decreases count - w,
        {
            assert(4 * w + 4 <= section.data.len()) by (nonlinear_arith)
                requires
                    w < count,
                    count == section.data.len() / 4,
            ;
            let word = read_le_word(&section.data, 4 * w);
            let ghost before = string_views(mnemonics@);
            let unknown = match decoded[w] {
                Instruction::Unknown => true,
                _ => false,
            };
            if unknown {
                let address = section.address.wrapping_add((4 * w) as u64);
                match mnemonic_of(word, address) {
                    Some(m) => {
                        mnemonics.push(m);
                        proof {
                            assert(string_views(mnemonics@) =~= before.push(
                                capstone_mnemonic(word, address)->0,
                            ));
                        }
                    },
                    None => {},
                }
            }
            proof {
                let all = unknown_mnemonics(sections@, k as int);
                assert(unknown_mnemonics_in(section.data@, section.address, w as int + 1)
                    =~= if spec_decode(word) is Unknown && capstone_mnemonic(
                    word,
                    section.address.wrapping_add((4 * w) as u64),
                ) is Some {
                    unknown_mnemonics_in(section.data@, section.address, w as int).push(
                        capstone_mnemonic(word, section.address.wrapping_add((4 * w) as u64))->0,
                    )
                } else {
                    unknown_mnemonics_in(section.data@, section.address, w as int)
                });
                assert(string_views(mnemonics@) =~= all + unknown_mnemonics_in(
                    section.data@,
                    section.address,
                    w as int + 1,
                ));
            }
            w = w + 1;
        }
        let ghost before_instructions = instructions@;
        instructions.push(decoded);
        proof {
            assert(sections@.take(k as int + 1) =~= sections@.take(k as int).push(sections@[k as int]));
            assert(unknown_mnemonics(sections@, k as int + 1) =~= unknown_mnemonics(sections@, k as int)
                + unknown_mnemonics_in(section.data@, section.address, count as int));
            assert forall|j: int| 0 <= j < k + 1 implies {
                let data = (#[trigger] sections@.take(k as int + 1)[j]).data@;
                &&& all_decodable(data)
                &&& instructions@[j].len() == data.len() / 4
                &&& forall|q: int|
                    0 <= q < instructions@[j].len() ==> #[trigger] instructions@[j][q] == spec_decode(
                        le_word(data, 4 * q),
                    )
            } by {
                if j < k {
                    assert(sections@.take(k as int + 1)[j] == sections@.take(k as int)[j]);
                    assert(instructions@[j] == before_instructions[j]);
                }
            }
        }
        k = k + 1;
    }
    let unknown_counts = count_mnemonics(&mnemonics);
    proof {
        assert(sections@.take(sections.len() as int) =~= sections@);
    }
    Ok(FileListing { sections, instructions, unknown_counts })
}


/// The words of the executable sections of an ELF file as the Arm decoder reads them:
/// each section, its instructions and the capstone mnemonic of each word, and per
/// mnemonic how many words the decoder knows and how many it leaves `Unknown`.
#[derive(Debug)]
pub struct MnemonicTally {
    pub sections: Vec<CodeSection>,
    pub instructions: Vec<Vec<ArmInstruction>>,
    pub mnemonics: Vec<Vec<String>>,
    pub counts: Vec<(String, usize, usize)>,
}

/// The address of word `w` of `section`.
pub open spec fn word_address(section: CodeSection, w: int) -> u64 {
    section.address.wrapping_add((4 * w) as u64)
}

/// Whether each of `instructions` is the Arm decoding of the words of the section with
/// the same index in `sections`, and each of `mnemonics` the capstone mnemonics of those
/// words.
pub open spec fn arm_decoded_sections(
    sections: Seq<CodeSection>,
    instructions: Seq<Vec<ArmInstruction>>,
    mnemonics: Seq<Vec<String>>,
) -> bool {
    &&& instructions.len() == sections.len()
    &&& mnemonics.len() == sections.len()
    &&& forall|k: int|
        0 <= k < sections.len() ==> {
            let data = (#[trigger] sections[k]).data@;
            &&& crate::arm_decoder::instructions::all_decodable(data)
            &&& instructions[k].len() == data.len() / 4
            &&& mnemonics[k].len() == data.len() / 4
            &&& forall|w: int|
                0 <= w < instructions[k].len() ==> {
                    &&& #[trigger] instructions[k][w] == decoding::spec_decode(le_word(data, 4 * w))
                    &&& capstone_mnemonic(le_word(data, 4 * w), word_address(sections[k], w))
                        == Some(mnemonics[k][w]@)
                }
        }
}

/// The first `n` words of `section`, each as its mnemonic and whether the Arm decoder
/// leaves it `Unknown`.
pub open spec fn section_entries(section: CodeSection, n: int) -> Seq<(Seq<char>, bool)>
    decreases n,
{
    if n <= 0 {
        Seq::empty()
    } else {
        let word = le_word(section.data@, 4 * (n - 1));
        section_entries(section, n - 1).push(
            (
                capstone_mnemonic(word, word_address(section, n - 1))->0,
                decoding::spec_decode(word) is Unknown,
            ),
        )
    }
}

/// The words of the first `n` of `sections`, section by section, each as its mnemonic
/// and whether the Arm decoder leaves it `Unknown`.
pub open spec fn tally_entries(sections: Seq<CodeSection>, n: int) -> Seq<(Seq<char>, bool)>
    decreases n,
{
    if n <= 0 {
        Seq::empty()
    } else {
        tally_entries(sections, n - 1) + section_entries(
            sections[n - 1],
            (sections[n - 1].data@.len() / 4) as int,
        )
    }
}

/// How many entries of `s` have mnemonic `m` and unknown flag `unknown`.
pub open spec fn flagged_occurrences(s: Seq<(Seq<char>, bool)>, m: Seq<char>, unknown: bool) -> nat
    decreases s.len(),
{
    if s.len() == 0 {
        0
    } else {
        flagged_occurrences(s.drop_last(), m, unknown) + if s.last() == (m, unknown) {
            1nat
        } else {
            0nat
        }
    }
}

/// Whether `counts` tallies `s`: each distinct mnemonic once, with how many of its
/// entries are known and how many unknown, and nothing else.
pub open spec fn tally_of(s: Seq<(Seq<char>, bool)>, counts: Seq<(String, usize, usize)>) -> bool {
    &&& forall|i: int, j: int|
        0 <= i < j < counts.len() ==> (#[trigger] counts[i]).0@ != (#[trigger] counts[j]).0@
    &&& forall|i: int|
        0 <= i < counts.len() ==> {
            &&& (#[trigger] counts[i]).1 == flagged_occurrences(s, counts[i].0@, false)
            &&& counts[i].2 == flagged_occurrences(s, counts[i].0@, true)
            &&& counts[i].1 + counts[i].2 > 0
        }
    &&& forall|k: int|
        0 <= k < s.len() ==> exists|i: int| 0 <= i < counts.len() && (#[trigger] counts[i]).0@ == (#[trigger] s[k]).0
}

proof fn lemma_flagged_push(s: Seq<(Seq<char>, bool)>, x: (Seq<char>, bool), m: Seq<char>, unknown: bool)
    ensures
        flagged_occurrences(s.push(x), m, unknown) == flagged_occurrences(s, m, unknown) + if x == (
            m,
            unknown,
        ) {
            1nat
        } else {
            0nat
        },
{
    assert(s.push(x).drop_last() =~= s);
}

proof fn lemma_flagged_bound(s: Seq<(Seq<char>, bool)>, m: Seq<char>, unknown: bool)
    ensures
        flagged_occurrences(s, m, unknown) <= s.len(),
    decreases s.len(),
{
    if s.len() > 0 {
        lemma_flagged_bound(s.drop_last(), m, unknown);
    }
}

proof fn lemma_flagged_witness(s: Seq<(Seq<char>, bool)>, m: Seq<char>, unknown: bool)
    requires
        flagged_occurrences(s, m, unknown) > 0,
    ensures
        exists|q: int| 0 <= q < s.len() && s[q].0 == m,
    decreases s.len(),
{
    if s.last() != (m, unknown) {
        lemma_flagged_witness(s.drop_last(), m, unknown);
        let q = choose|q: int| 0 <= q < s.drop_last().len() && s.drop_last()[q].0 == m;
        assert(s[q].0 == m);
    } else {
        assert(s[s.len() - 1].0 == m);
    }
}

/// The views of mnemonic entries.
pub open spec fn entry_views(entries: Seq<(String, bool)>) -> Seq<(Seq<char>, bool)> {
    entries.map_values(|e: (String, bool)| (e.0@, e.1))
}

/// Tallies `entries`: each distinct mnemonic once, in the order it first occurs, with how
/// many of its entries are known and how many unknown.
pub fn tally_mnemonics(entries: &Vec<(String, bool)>) -> (r: Vec<(String, usize, usize)>)
    ensures
        tally_of(entry_views(entries@), r@),
{
    let ghost all = entry_views(entries@);
    let mut counts: Vec<(String, usize, usize)> = Vec::new();
    let mut k: usize = 0;
    while k < entries.len()
        invariant
            k <= entries.len(),
            all == entry_views(entries@),
            tally_of(all.take(k as int), counts@),
        decreases entries.len() - k,
    {
        let ghost before = all.take(k as int);
        let name = &entries[k].0;
        let unknown = entries[k].1;
        let ghost x = (name@, unknown);
        proof {
            assert(all[k as int] == x);
            assert(all.take(k as int + 1) =~= before.push(x));
            assert forall|m: Seq<char>, f: bool| true implies flagged_occurrences(all.take(k as int + 1), m, f)
                == flagged_occurrences(before, m, f) + if x == (m, f) {
                1nat
            } else {
                0nat
            } by {
                lemma_flagged_push(before, x, m, f);
            }
            lemma_flagged_bound(before, name@, true);
            lemma_flagged_bound(before, name@, false);
        }
        let mut found = false;
        let mut i: usize = 0;
        while i < counts.len()
            invariant_except_break
                i <= counts.len(),
                !found,
                forall|j: int| 0 <= j < i ==> (#[trigger] counts@[j]).0@ != name@,
            ensures
                found ==> i < counts.len() && counts@[i as int].0@ == name@,
                !found ==> forall|j: int| 0 <= j < counts.len() ==> (#[trigger] counts@[j]).0@ != name@,
            decreases counts.len() - i,
        {
            if counts[i].0 == *name {
                found = true;
                break;
            }
            i = i + 1;
        }
        let ghost old_counts = counts@;
        if found {
            let current = counts[i].0.clone();
            let known = counts[i].1;
            let unknowns = counts[i].2;
            if unknown {
                counts.set(i, (current, known, unknowns + 1));
            } else {
                counts.set(i, (current, known + 1, unknowns));
            }
            proof {
                assert forall|j: int| 0 <= j < counts.len() implies {
                    &&& (#[trigger] counts@[j]).1 == flagged_occurrences(all.take(k as int + 1), counts@[j].0@, false)
                    &&& counts@[j].2 == flagged_occurrences(all.take(k as int + 1), counts@[j].0@, true)
                    &&& counts@[j].1 + counts@[j].2 > 0
                } by {
                    if j != i {
                        assert(counts@[j] == old_counts[j]);
                        assert(counts@[j].0@ != name@);
                    }
                }
                assert forall|q: int| 0 <= q < k + 1 implies exists|j: int|
                    0 <= j < counts.len() && (#[trigger] counts@[j]).0@ == (#[trigger] all.take(
                        k as int + 1,
                    )[q]).0 by {
                    if q < k {
                        assert(all.take(k as int + 1)[q] == before[q]);
                        assert(exists|j: int| 0 <= j < old_counts.len() && (#[trigger] old_counts[j]).0@ == before[q].0);
                        let j = choose|j: int| 0 <= j < old_counts.len() && (#[trigger] old_counts[j]).0@ == before[q].0;
                        assert(counts@[j].0@ == old_counts[j].0@);
                    } else {
                        assert(counts@[i as int].0@ == name@);
                    }
                }
            }
        } else {
            proof {
                assert(flagged_occurrences(before, name@, true) == 0 && flagged_occurrences(before, name@, false) == 0) by {
                    if flagged_occurrences(before, name@, true) > 0 {
                        lemma_flagged_witness(before, name@, true);
                    }
                    if flagged_occurrences(before, name@, false) > 0 {
                        lemma_flagged_witness(before, name@, false);
                    }
                    if exists|q: int| 0 <= q < before.len() && before[q].0 == name@ {
                        let q = choose|q: int| 0 <= q < before.len() && before[q].0 == name@;
                        assert(exists|j: int| 0 <= j < counts.len() && (#[trigger] counts@[j]).0@ == before[q].0);
                        let j = choose|j: int| 0 <= j < counts.len() && (#[trigger] counts@[j]).0@ == before[q].0;
                        assert(counts@[j].0@ == name@);
                    }
                }
            }
            if unknown {
                counts.push((name.clone(), 0, 1));
            } else {
                counts.push((name.clone(), 1, 0));
            }
            proof {
                assert forall|j: int| 0 <= j < counts.len() implies {
                    &&& (#[trigger] counts@[j]).1 == flagged_occurrences(all.take(k as int + 1), counts@[j].0@, false)
                    &&& counts@[j].2 == flagged_occurrences(all.take(k as int + 1), counts@[j].0@, true)
                    &&& counts@[j].1 + counts@[j].2 > 0
                } by {
                    if j < old_counts.len() {
                        assert(counts@[j] == old_counts[j]);
                        assert(old_counts[j].0@ != name@);
                    }
                }
                assert forall|q: int| 0 <= q < k + 1 implies exists|j: int|
                    0 <= j < counts.len() && (#[trigger] counts@[j]).0@ == (#[trigger] all.take(
                        k as int + 1,
                    )[q]).0 by {
                    if q < k {
                        assert(all.take(k as int + 1)[q] == before[q]);
                        assert(exists|j: int| 0 <= j < old_counts.len() && (#[trigger] old_counts[j]).0@ == before[q].0);
                        let j = choose|j: int| 0 <= j < old_counts.len() && (#[trigger] old_counts[j]).0@ == before[q].0;
                        assert(counts@[j] == old_counts[j]);
                    } else {
                        assert(counts@[old_counts.len() as int].0@ == name@);
                    }
                }
            }
        }
        k = k + 1;
    }
    proof {
        assert(all.take(entries.len() as int) =~= all);
    }
    counts
}


/// Whether capstone gives a mnemonic to each of the first `n` words of `section`.
pub open spec fn mnemonics_present(section: CodeSection, n: int) -> bool {
    forall|w: int|
        0 <= w < n ==> capstone_mnemonic(le_word(section.data@, 4 * w), #[trigger] word_address(section, w))
            is Some
}

/// Whether the first `n` of `sections` decode under the Arm decoder and capstone gives a
/// mnemonic to each of their words.
pub open spec fn sections_complete_before(sections: Seq<CodeSection>, n: int) -> bool {
    forall|j: int|
        0 <= j < n ==> {
            &&& crate::arm_decoder::instructions::all_decodable((#[trigger] sections[j]).data@)
            &&& mnemonics_present(sections[j], (sections[j].data@.len() / 4) as int)
        }
}

/// Decodes every word of the executable sections of the ELF file `elf_bytes` with the Arm
/// decoder, asks capstone for each word's mnemonic, and counts per mnemonic the words the
/// decoder knows and those it leaves `Unknown`.
pub fn mnemonic_tally(elf_bytes: &[u8]) -> (r: Result<MnemonicTally, DecodeFileError>)
    ensures
        match r {
            Ok(t) => {
                &&& sections_readable(elf_bytes@)
                &&& sections_of(elf_bytes@, t.sections@)
                &&& arm_decoded_sections(t.sections@, t.instructions@, t.mnemonics@)
                &&& tally_of(tally_entries(t.sections@, t.sections.len() as int), t.counts@)
            },
            Err(DecodeFileError::Parse(_)) => !sections_readable(elf_bytes@),
            Err(DecodeFileError::Undecodable { section_index }) => exists|sections: Seq<CodeSection>|
                {
                    &&& #[trigger] sections_of(elf_bytes@, sections)
                    &&& sections_readable(elf_bytes@)
                    &&& section_index < sections.len()
                    &&& !crate::arm_decoder::instructions::all_decodable(sections[section_index as int].data@)
                    &&& sections_complete_before(sections, section_index as int)
                },
            Err(DecodeFileError::NoMnemonic { section_index, word_index }) => exists|sections: Seq<CodeSection>|
                {
                    &&& #[trigger] sections_of(elf_bytes@, sections)
                    &&& sections_readable(elf_bytes@)
                    &&& section_index < sections.len()
                    &&& sections_complete_before(sections, section_index as int)
                    &&& crate::arm_decoder::instructions::all_decodable(sections[section_index as int].data@)
                    &&& word_index < sections[section_index as int].data@.len() / 4
                    &&& mnemonics_present(sections[section_index as int], word_index as int)
                    &&& capstone_mnemonic(
                        le_word(sections[section_index as int].data@, 4 * word_index),
                        word_address(sections[section_index as int], word_index as int),
                    ) is None
                },
        },
{
    let sections = match executable_sections(elf_bytes) {
        Ok(sections) => sections,
        Err(e) => {
            return Err(DecodeFileError::Parse(e));
        },
    };
    let mut instructions: Vec<Vec<ArmInstruction>> = Vec::new();
    let mut mnemonics: Vec<Vec<String>> = Vec::new();
    let mut entries: Vec<(String, bool)> = Vec::new();
    let mut k: usize = 0;
    while k < sections.len()
        invariant
            k <= sections.len(),
            sections_readable(elf_bytes@),
            sections_of(elf_bytes@, sections@),
            arm_decoded_sections(sections@.take(k as int), instructions@, mnemonics@),
            sections_complete_before(sections@, k as int),
            entry_views(entries@) == tally_entries(sections@, k as int),
        decreases sections.len() - k,
    {
        let section = &sections[k];
        if !crate::arm_decoder::instructions::words_decodable(&section.data) {
            return Err(DecodeFileError::Undecodable { section_index: k });
        }
        let decoded = ArmInstruction::decode_bytes(&section.data);
        let count = section.data.len() / 4;
        let mut row: Vec<String> = Vec::new();
        let mut w: usize = 0;
        while w < count
            invariant
                w <= count,
                k < sections.len(),
                section == &sections[k as int],
                count == section.data.len() / 4,
                decoded.len() == count,
                forall|q: int|
                    0 <= q < count ==> #[trigger] decoded[q] == decoding::spec_decode(le_word(section.data@, 4 * q)),
                row.len() == w,
                forall|q: int|
                    0 <= q < w ==> capstone_mnemonic(le_word(section.data@, 4 * q), word_address(*section, q))
                        == Some((#[trigger] row@[q])@),
                sections_readable(elf_bytes@),
                sections_of(elf_bytes@, sections@),
                sections_complete_before(sections@, k as int),
                crate::arm_decoder::instructions::all_decodable(section.data@),
                entry_views(entries@) == tally_entries(sections@, k as int) + section_entries(*section, w as int),
            decreases count - w,
        {
            assert(4 * w + 4 <= section.data.len()) by (nonlinear_arith)
                requires
                    w < count,
                    count == section.data.len() / 4,
            ;
            let word = read_le_word(&section.data, 4 * w);
            let address = section.address.wrapping_add((4 * w) as u64);
            let mnemonic = match mnemonic_of(word, address) {
                Some(m) => m,
                None => {
                    proof {
                        assert forall|q: int| 0 <= q < w implies capstone_mnemonic(
                            le_word(section.data@, 4 * q),
                            #[trigger] word_address(*section, q),
                        ) is Some by {
                            assert(capstone_mnemonic(le_word(section.data@, 4 * q), word_address(*section, q))
                                == Some(row@[q]@));
                        }
                        assert(mnemonics_present(*section, w as int));
                    }
                    return Err(DecodeFileError::NoMnemonic { section_index: k, word_index: w });
                },
            };
            let unknown = match decoded[w] {
                ArmInstruction::Unknown => true,
                _ => false,
            };
            let ghost before = entry_views(entries@);
            entries.push((mnemonic.clone(), unknown));
            row.push(mnemonic);
            proof {
                assert(entry_views(entries@) =~= before.push((capstone_mnemonic(word, address)->0, unknown)));
                assert(section_entries(*section, w as int + 1) =~= section_entries(*section, w as int).push(
                    (capstone_mnemonic(word, address)->0, unknown),
                ));
                assert(entry_views(entries@) =~= tally_entries(sections@, k as int) + section_entries(
                    *section,
                    w as int + 1,
                ));
            }
            w = w + 1;
        }
        proof {
            assert forall|q: int| 0 <= q < count implies capstone_mnemonic(
                le_word(section.data@, 4 * q),
                #[trigger] word_address(*section, q),
            ) is Some by {
                assert(capstone_mnemonic(le_word(section.data@, 4 * q), word_address(*section, q))
                    == Some(row@[q]@));
            }
        }
        let ghost before_instructions = instructions@;
        let ghost before_mnemonics = mnemonics@;
        instructions.push(decoded);
        mnemonics.push(row);
        proof {
            assert(sections@.take(k as int + 1) =~= sections@.take(k as int).push(sections@[k as int]));
            assert(tally_entries(sections@, k as int + 1) =~= tally_entries(sections@, k as int)
                + section_entries(sections@[k as int], count as int));
            assert(mnemonics_present(sections@[k as int], count as int));
            assert forall|j: int| 0 <= j < k + 1 implies {
                let data = (#[trigger] sections@.take(k as int + 1)[j]).data@;
                &&& crate::arm_decoder::instructions::all_decodable(data)
                &&& instructions@[j].len() == data.len() / 4
                &&& mnemonics@[j].len() == data.len() / 4
                &&& forall|q: int|
                    0 <= q < instructions@[j].len() ==> {
                        &&& #[trigger] instructions@[j][q] == decoding::spec_decode(le_word(data, 4 * q))
                        &&& capstone_mnemonic(le_word(data, 4 * q), word_address(sections@.take(k as int + 1)[j], q))
                            == Some(mnemonics@[j][q]@)
                    }
            } by {
                if j < k {
                    assert(sections@.take(k as int + 1)[j] == sections@.take(k as int)[j]);
                    assert(instructions@[j] == before_instructions[j]);
                    assert(mnemonics@[j] == before_mnemonics[j]);
                }
            }
            assert forall|j: int| 0 <= j < k + 1 implies {
                &&& crate::arm_decoder::instructions::all_decodable((#[trigger] sections@[j]).data@)
                &&& mnemonics_present(sections@[j], (sections@[j].data@.len() / 4) as int)
            } by {}
        }
        k = k + 1;
    }
    let counts = tally_mnemonics(&entries);
    proof {
        assert(sections@.take(sections.len() as int) =~= sections@);
    }
    Ok(MnemonicTally { sections, instructions, mnemonics, counts })
}

} // verus!
