use arm_to_wasm::arm::arch::Arm;
use arm_to_wasm::aw_core::translator::{
    set_up_memory, translate_elf, MemoryError, MemorySegment, TranslationError, PAGE_SIZE,
};
use arm_to_wasm::module::expression::Expression;
use arm_to_wasm::reboot::instructions::Instruction as RebootInstruction;
use arm_to_wasm::reboot::listing::{
    count_mnemonics, decode_file, executable_sections, mnemonic_tally, DecodeFileError,
};
use arm_to_wasm::arm::translation::ArmInstruction;
use arm_to_wasm::arm_decoder::instructions::{
    AddSubtractOp, AddSubtractRightOperand, BranchTarget, Instruction, LoadStoreOffset,
    LoadStoreOp,
};
use arm_to_wasm::arm_decoder::structures::{
    Condition, Register, Shift, SizeVariant, SliceSize, WritebackOffset,
};
use arm_to_wasm::aw_core::analysis::{
    analyze, analyze_program, analyze_routine, find_address, lay_out_blocks, scan_routine,
    AnalysisError, BlockLayout, CodeSegment, ElfAnalysisError, FunctionSymbol, Jump, LayoutError,
    RegisterReadWalker, StackAccessRecord,
};

const BASE: u64 = 0x1000;

fn sub_sp(amount: u64) -> ArmInstruction {
    ArmInstruction(Instruction::AddSubtract {
        destination: Register::SP,
        op: AddSubtractOp::Subtract,
        set_flags: false,
        operand1: Register::SP,
        operand2: AddSubtractRightOperand::Immediate(amount),
        variant: SizeVariant::Reg64,
    })
}

fn branch_if_equal(offset: i64) -> ArmInstruction {
    ArmInstruction(Instruction::BranchConditionally { condition: Condition::EQ, target: offset })
}

fn branch(offset: i64) -> ArmInstruction {
    ArmInstruction(Instruction::UnconditionalBranch {
        link: false,
        target: BranchTarget::RelativeInstructionOffset(offset),
    })
}

fn call(offset: i64) -> ArmInstruction {
    ArmInstruction(Instruction::UnconditionalBranch {
        link: true,
        target: BranchTarget::RelativeInstructionOffset(offset),
    })
}

fn nop() -> ArmInstruction {
    ArmInstruction(Instruction::Nop)
}

fn ret() -> ArmInstruction {
    ArmInstruction(Instruction::Return { target: Register::X30 })
}

fn store_word_to_stack(offset: i32) -> ArmInstruction {
    ArmInstruction(Instruction::LoadStoreRegister {
        address: Register::SP,
        offset: LoadStoreOffset::Immediate {
            offset: WritebackOffset { access: offset, writeback: None },
        },
        op: LoadStoreOp::Store,
        size: SliceSize::Word,
        value: Register::X0,
    })
}

fn add(destination: Register, operand1: Register, operand2: Register) -> ArmInstruction {
    ArmInstruction(Instruction::AddSubtract {
        destination,
        op: AddSubtractOp::Add,
        set_flags: false,
        operand1,
        operand2: AddSubtractRightOperand::ShiftedRegister {
            register: operand2,
            shift_amount: 0,
            shift_type: Shift::LSL,
        },
        variant: SizeVariant::Reg64,
    })
}

fn segment(instructions: Vec<ArmInstruction>) -> CodeSegment {
    let size = 4 * instructions.len() as u64;
    CodeSegment { address: BASE, instructions, source_offset: 0, size }
}

/// sub sp, sp, #16; b.eq +2; nop; ret
fn branching_routine() -> Vec<ArmInstruction> {
    vec![sub_sp(16), branch_if_equal(2), nop(), ret()]
}

fn plain(instructions: &[ArmInstruction]) -> Vec<Instruction> {
    instructions.iter().map(|i| i.0).collect()
}

fn main_symbol(address: u64) -> FunctionSymbol {
    FunctionSymbol { address, name: "main".to_string() }
}

#[test]
fn finds_addresses() {
    assert_eq!(find_address(&[0x10, 0x20, 0x30, 0x20], 0x20), Some(1));
    assert_eq!(find_address(&[0x10, 0x20], 0x40), None);
    assert_eq!(find_address(&[], 0x40), None);
}

#[test]
fn scans_a_routine() {
    let instructions = branching_routine();
    let scan = scan_routine(&instructions, 0, BASE, BASE + 16, &[BASE], 31).unwrap();
    assert_eq!(
        scan.jumps,
        vec![Jump {
            conditional: true,
            next_address: BASE + 8,
            source_address: BASE + 4,
            tail_call_routine_index: None,
            target_address: BASE + 12,
        }]
    );
    assert_eq!(scan.stack_entry_size, Some(16));
    assert!(scan.stack_accesses.is_empty());
    assert_eq!(scan.explicit_return, Some(BASE + 16));
}

#[test]
fn scan_records_stack_accesses_and_ends_the_prologue() {
    // the access ends the prologue, so the later allocation does not count
    let instructions = vec![store_word_to_stack(4), sub_sp(32), ret()];
    let scan = scan_routine(&instructions, 0, BASE, BASE + 12, &[BASE], 31).unwrap();
    assert_eq!(scan.stack_entry_size, None);
    assert_eq!(
        scan.stack_accesses,
        vec![StackAccessRecord { address: BASE, offset: 4, size_bytes: 4, read: false, write: true }]
    );
    assert_eq!(scan.explicit_return, Some(BASE + 12));
}

#[test]
fn scan_stops_at_the_routine_end() {
    let instructions = vec![nop(), nop(), nop()];
    let scan = scan_routine(&instructions, 0, BASE, BASE + 8, &[BASE], 31).unwrap();
    assert!(scan.jumps.is_empty());
    assert_eq!(scan.explicit_return, None);
}

#[test]
fn scan_rejects_jumps_to_unknown_addresses() {
    let instructions = vec![branch(64), ret()];
    assert_eq!(
        scan_routine(&instructions, 0, BASE, BASE + 8, &[BASE], 31).unwrap_err(),
        AnalysisError::UnknownJumpTarget { source_address: BASE, target_address: BASE + 256 }
    );
}

#[test]
fn scan_records_tail_calls() {
    let instructions = vec![branch(2), nop(), ret()];
    let scan = scan_routine(&instructions, 0, BASE, BASE + 8, &[BASE, BASE + 8], 31).unwrap();
    assert_eq!(scan.jumps.len(), 1);
    assert_eq!(scan.jumps[0].tail_call_routine_index, Some(1));
    assert!(!scan.jumps[0].conditional);
}

#[test]
fn lays_out_blocks() {
    let jumps = vec![Jump {
        conditional: true,
        next_address: BASE + 8,
        source_address: BASE + 4,
        tail_call_routine_index: None,
        target_address: BASE + 12,
    }];
    let blocks = lay_out_blocks(BASE, BASE + 16, &jumps, Some(BASE + 16)).unwrap();
    assert_eq!(
        blocks,
        vec![
            BlockLayout {
                start_address: BASE,
                end_address: BASE + 8,
                fallthrough_block_index: Some(1),
                jump_block_index: Some(2),
                tail_call_routine_index: None,
            },
            BlockLayout {
                start_address: BASE + 8,
                end_address: BASE + 12,
                fallthrough_block_index: Some(2),
                jump_block_index: None,
                tail_call_routine_index: None,
            },
            BlockLayout {
                start_address: BASE + 12,
                end_address: BASE + 16,
                fallthrough_block_index: None,
                jump_block_index: None,
                tail_call_routine_index: None,
            },
        ]
    );
}

#[test]
fn a_single_block_without_jumps() {
    let blocks = lay_out_blocks(BASE, BASE + 8, &vec![], None).unwrap();
    assert_eq!(
        blocks,
        vec![BlockLayout {
            start_address: BASE,
            end_address: BASE + 8,
            fallthrough_block_index: None,
            jump_block_index: None,
            tail_call_routine_index: None,
        }]
    );
}

#[test]
fn layout_needs_a_block_end() {
    assert_eq!(
        lay_out_blocks(BASE, BASE, &vec![], None),
        Err(LayoutError::NoBlockEnd { start_address: BASE })
    );
}

#[test]
fn analyzes_a_routine() {
    let segment = segment(branching_routine());
    let routine =
        analyze_routine(&segment, BASE, BASE + 16, &[BASE], Some("main".to_string()), 31)
            .unwrap();
    assert_eq!(routine.address, BASE);
    assert_eq!(routine.name, Some("main".to_string()));
    assert_eq!(routine.stack_size, Some(16));
    assert!(routine.variables.is_empty());
    assert_eq!(routine.blocks.len(), 3);
    assert_eq!(plain(&routine.blocks[0].instructions), plain(&[sub_sp(16), branch_if_equal(2)]));
    assert_eq!(routine.blocks[0].fallthrough_block_index, Some(1));
    assert_eq!(routine.blocks[0].jump_block_index, Some(2));
    assert_eq!(plain(&routine.blocks[1].instructions), vec![Instruction::Nop]);
    assert_eq!(plain(&routine.blocks[2].instructions), plain(&[ret()]));
    assert_eq!(routine.blocks[2].fallthrough_block_index, None);
}

#[test]
fn routine_variables_keep_the_widest_access() {
    let instructions = vec![
        store_word_to_stack(8),
        ArmInstruction(Instruction::LoadStoreRegister {
            address: Register::SP,
            offset: LoadStoreOffset::Immediate {
                offset: WritebackOffset { access: 8, writeback: None },
            },
            op: LoadStoreOp::LoadZeroExtend,
            size: SliceSize::Byte,
            value: Register::X1,
        }),
        ret(),
    ];
    let segment = segment(instructions);
    let routine = analyze_routine(&segment, BASE, BASE + 12, &[BASE], None, 31).unwrap();
    assert_eq!(routine.variables.len(), 1);
    assert_eq!(routine.variables.get(&8), Some(&4));
}

#[test]
fn unentered_blocks_are_rejected() {
    // nop; b.eq to the next routine (a tail call); ret: the block after the tail call
    // is neither fallen through to nor jumped to
    let segment = segment(vec![nop(), branch_if_equal(2), ret(), ret()]);
    assert_eq!(
        analyze_routine(&segment, BASE, BASE + 12, &[BASE, BASE + 12], None, 31).unwrap_err(),
        AnalysisError::BlockNotEntered { routine_address: BASE, block_index: 1 }
    );
}

#[test]
fn analyzes_a_program() {
    let segments = vec![segment(branching_routine())];
    let analysis = analyze_program(BASE, &vec![main_symbol(BASE)], &segments, 31).unwrap();
    assert_eq!(analysis.entry_routine_index, Some(0));
    assert_eq!(analysis.routines.len(), 1);
    assert_eq!(analysis.routines[0].address, BASE);
    assert_eq!(analysis.routines[0].name, Some("main".to_string()));
    assert_eq!(analysis.routines[0].blocks.len(), 3);
}

#[test]
fn routines_come_out_by_decreasing_address() {
    // main: bl helper; ret / helper: ret
    let segments = vec![segment(vec![call(2), ret(), ret()])];
    let symbols = vec![
        main_symbol(BASE),
        FunctionSymbol { address: BASE + 8, name: "helper".to_string() },
    ];
    let analysis = analyze_program(BASE, &symbols, &segments, 31).unwrap();
    assert_eq!(analysis.routines.len(), 2);
    assert_eq!(analysis.routines[0].address, BASE + 8);
    assert_eq!(analysis.routines[0].name, Some("helper".to_string()));
    assert_eq!(analysis.routines[1].address, BASE);
    assert_eq!(analysis.entry_routine_index, Some(1));
    assert_eq!(analysis.routines[1].blocks.len(), 1);
    assert_eq!(analysis.routines[1].blocks[0].instructions.len(), 2);
}

#[test]
fn program_without_entry_point() {
    let segments = vec![segment(vec![ret()])];
    let analysis = analyze_program(0, &vec![main_symbol(BASE)], &segments, 31).unwrap();
    assert_eq!(analysis.entry_routine_index, None);
    assert_eq!(analysis.routines.len(), 1);
}

#[test]
fn program_errors() {
    let segments = vec![segment(vec![nop(), ret()])];
    assert_eq!(
        analyze_program(0, &vec![main_symbol(0x9000)], &segments, 31).unwrap_err(),
        AnalysisError::RoutineOutsideSegments { routine_address: 0x9000 }
    );
    assert_eq!(
        analyze_program(0, &vec![main_symbol(BASE + 2)], &segments, 31).unwrap_err(),
        AnalysisError::UnalignedRoutine { routine_address: BASE + 2 }
    );
    let jumping = vec![segment(vec![branch(64), ret()])];
    assert_eq!(
        analyze_program(BASE, &vec![], &jumping, 31).unwrap_err(),
        AnalysisError::UnknownJumpTarget { source_address: BASE, target_address: BASE + 256 }
    );
}

#[test]
fn walker_tracks_reads_before_writes() {
    let mut walker = RegisterReadWalker::default();
    walker.process(&add(Register::X0, Register::X1, Register::X2));
    walker.process(&add(Register::X3, Register::X0, Register::X4));
    let mut read: Vec<u32> = walker.registers_read.iter().copied().collect();
    read.sort();
    assert_eq!(read, vec![1, 2, 4]);
    let mut written: Vec<u32> = walker.registers_written.iter().copied().collect();
    written.sort();
    assert_eq!(written, vec![0, 3]);
}

#[test]
fn walkers_merge() {
    let mut first = RegisterReadWalker::default();
    first.process(&add(Register::X0, Register::X1, Register::X1));
    let mut second = RegisterReadWalker::default();
    second.process(&add(Register::X5, Register::X6, Register::X7));
    let merged = first.merge(&second);
    let mut read: Vec<u32> = merged.registers_read.iter().copied().collect();
    read.sort();
    assert_eq!(read, vec![1, 6, 7]);
    assert_eq!(first.registers_read.len(), 1);
    let all = RegisterReadWalker::merge_all(&[first, second]);
    let mut written: Vec<u32> = all.registers_written.iter().copied().collect();
    written.sort();
    assert_eq!(written, vec![0, 5]);
    assert!(RegisterReadWalker::merge_all(&[]).registers_read.is_empty());
}

// A minimal little-endian ELF64 image for AArch64: one executable segment holding
// `code` at `ENTRY`, the sections .text and .shstrtab, and optionally a symbol
// table naming `main` at the entry point.
const ENTRY: u64 = 0x400078;

fn push_u16(out: &mut Vec<u8>, v: u16) {
    out.extend_from_slice(&v.to_le_bytes());
}

fn push_u32(out: &mut Vec<u8>, v: u32) {
    out.extend_from_slice(&v.to_le_bytes());
}

fn push_u64(out: &mut Vec<u8>, v: u64) {
    out.extend_from_slice(&v.to_le_bytes());
}

#[allow(clippy::too_many_arguments)]
fn push_section_header(
    out: &mut Vec<u8>,
    name: u32,
    kind: u32,
    flags: u64,
    addr: u64,
    offset: u64,
    size: u64,
    link: u32,
    info: u32,
    align: u64,
    entsize: u64,
) {
    push_u32(out, name);
    push_u32(out, kind);
    push_u64(out, flags);
    push_u64(out, addr);
    push_u64(out, offset);
    push_u64(out, size);
    push_u32(out, link);
    push_u32(out, info);
    push_u64(out, align);
    push_u64(out, entsize);
}

fn pad_to(out: &mut Vec<u8>, alignment: usize) {
    while out.len() % alignment != 0 {
        out.push(0);
    }
}

fn build_elf(code: &[u32], with_symbols: bool) -> Vec<u8> {
    let code_offset: u64 = 0x78;
    let code_size = 4 * code.len() as u64;
    let mut body: Vec<u8> = Vec::new();
    for word in code {
        push_u32(&mut body, *word);
    }
    let shstrtab: &[u8] = b"\0.text\0.shstrtab\0.symtab\0.strtab\0";
    let shstrtab_offset = code_offset + code_size;
    body.extend_from_slice(shstrtab);
    let strtab: &[u8] = b"\0main\0";
    let strtab_offset = code_offset + body.len() as u64;
    body.extend_from_slice(strtab);
    while (code_offset as usize + body.len()) % 8 != 0 {
        body.push(0);
    }
    let symtab_offset = code_offset + body.len() as u64;
    // the null symbol, then main: FUNC, GLOBAL, in .text
    body.extend_from_slice(&[0u8; 24]);
    push_u32(&mut body, 1);
    body.push(0x12);
    body.push(0);
    push_u16(&mut body, 1);
    push_u64(&mut body, ENTRY);
    push_u64(&mut body, code_size);
    let section_count: u16 = if with_symbols { 5 } else { 3 };
    let shoff = code_offset + body.len() as u64;

    let mut out: Vec<u8> = Vec::new();
    out.extend_from_slice(&[0x7f, b'E', b'L', b'F', 2, 1, 1, 0]);
    out.extend_from_slice(&[0u8; 8]);
    push_u16(&mut out, 2); // ET_EXEC
    push_u16(&mut out, 183); // EM_AARCH64
    push_u32(&mut out, 1);
    push_u64(&mut out, ENTRY);
    push_u64(&mut out, 0x40); // program headers
    push_u64(&mut out, shoff);
    push_u32(&mut out, 0);
    push_u16(&mut out, 64);
    push_u16(&mut out, 56);
    push_u16(&mut out, 1);
    push_u16(&mut out, 64);
    push_u16(&mut out, section_count);
    push_u16(&mut out, 2); // .shstrtab
    assert_eq!(out.len(), 0x40);

    push_u32(&mut out, 1); // PT_LOAD
    push_u32(&mut out, 5); // PF_R | PF_X
    push_u64(&mut out, code_offset);
    push_u64(&mut out, ENTRY);
    push_u64(&mut out, ENTRY);
    push_u64(&mut out, code_size);
    push_u64(&mut out, code_size);
    push_u64(&mut out, 4);
    assert_eq!(out.len() as u64, code_offset);

    out.extend_from_slice(&body);
    pad_to(&mut out, 8);
    assert_eq!(out.len() as u64, shoff);
    push_section_header(&mut out, 0, 0, 0, 0, 0, 0, 0, 0, 0, 0);
    push_section_header(&mut out, 1, 1, 0x6, ENTRY, code_offset, code_size, 0, 0, 4, 0);
    push_section_header(
        &mut out,
        7,
        3,
        0,
        0,
        shstrtab_offset,
        shstrtab.len() as u64,
        0,
        0,
        1,
        0,
    );
    if with_symbols {
        push_section_header(&mut out, 17, 2, 0, 0, symtab_offset, 48, 4, 1, 8, 24);
        push_section_header(
            &mut out,
            25,
            3,
            0,
            0,
            strtab_offset,
            strtab.len() as u64,
            0,
            0,
            1,
            0,
        );
    }
    out
}

#[test]
fn analyzes_an_elf_file() {
    let elf = build_elf(&[0xd503201f, 0xd65f03c0], true);
    let analysis = analyze(&elf, &Arm).unwrap();
    assert_eq!(analysis.entry_routine_index, Some(0));
    assert_eq!(analysis.routines.len(), 1);
    let routine = &analysis.routines[0];
    assert_eq!(routine.address, ENTRY);
    assert_eq!(routine.name, Some("main".to_string()));
    assert_eq!(routine.blocks.len(), 1);
    assert_eq!(plain(&routine.blocks[0].instructions), plain(&[nop(), ret()]));
}

#[test]
fn analyzes_an_elf_file_without_symbols() {
    let elf = build_elf(&[0xd10043ff, 0xd65f03c0], false);
    let analysis = analyze(&elf, &Arm).unwrap();
    assert_eq!(analysis.routines.len(), 1);
    assert_eq!(analysis.routines[0].name, None);
    assert_eq!(analysis.routines[0].stack_size, Some(16));
}

#[test]
fn rejects_malformed_elf_files() {
    let mut elf = build_elf(&[0xd503201f, 0xd65f03c0], true);
    elf[0] = 0;
    assert!(matches!(analyze(&elf, &Arm), Err(ElfAnalysisError::Parse(_))));
    assert!(matches!(analyze(&[], &Arm), Err(ElfAnalysisError::Parse(_))));
}

#[test]
fn rejects_elf_files_without_section_headers() {
    let mut elf = build_elf(&[0xd503201f, 0xd65f03c0], false);
    // e_shoff = 0
    for byte in &mut elf[0x28..0x30] {
        *byte = 0;
    }
    assert!(matches!(analyze(&elf, &Arm), Err(ElfAnalysisError::NoSectionHeaders)));
}


#[test]
fn lays_out_program_memory() {
    let elf = build_elf(&[0xd503201f, 0xd65f03c0], false);
    let memory = set_up_memory(&elf).unwrap();
    assert_eq!(
        memory.segments,
        vec![MemorySegment { address: ENTRY, file_offset: 0x78, size: 8, writable: false }]
    );
    // 0x400080 rounds up to 65 pages, then the stack's two
    assert_eq!(memory.stack_internal_address, 65 * PAGE_SIZE);
    assert_eq!(memory.page_count, 67);
    assert_eq!(memory.stack_size, 2 * PAGE_SIZE);
    assert!(matches!(set_up_memory(&[]), Err(MemoryError::Parse(_))));
}

#[test]
fn translates_an_elf_file() {
    let elf = build_elf(&[0xd503201f, 0xd65f03c0], true);
    let program = translate_elf(&elf).unwrap();
    assert_eq!(program.analysis.routines.len(), 1);
    assert_eq!(program.memory.page_count, 67);
    assert_eq!(program.context.routine_addresses, vec![ENTRY]);
    assert_eq!(program.routines.len(), 1);
    let routine = &program.routines[0];
    assert_eq!(routine.blocks.len(), 1);
    // the block neither falls through nor jumps, so a trap closes it
    assert_eq!(routine.blocks[0].len(), 3);
    assert_eq!(routine.blocks[0][0], Expression::Nop);
    assert!(matches!(routine.blocks[0][1], Expression::Return(_)));
    assert_eq!(routine.blocks[0][2], Expression::Unreachable);
    assert!(routine.branches.is_empty());
}

#[test]
fn translation_reports_what_stops_it() {
    assert!(matches!(
        translate_elf(&[]),
        Err(TranslationError::Analysis(ElfAnalysisError::Parse(_)))
    ));
    // `ret x1` returns through a register other than the link register
    let elf = build_elf(&[0xd503201f, 0xd65f0020], true);
    assert!(matches!(
        translate_elf(&elf),
        Err(TranslationError::NotLowerable { routine_index: 0 })
    ));
}

#[test]
fn finds_the_executable_sections() {
    let elf = build_elf(&[0xd503201f, 0xd65f03c0], false);
    let sections = executable_sections(&elf).unwrap();
    assert_eq!(sections.len(), 1);
    assert_eq!(sections[0].name, ".text");
    assert_eq!(sections[0].address, ENTRY);
    assert_eq!(sections[0].data, vec![0x1f, 0x20, 0x03, 0xd5, 0xc0, 0x03, 0x5f, 0xd6]);
    assert!(executable_sections(&[]).is_err());
}

#[test]
fn decodes_a_file_and_counts_unknown_mnemonics() {
    // mul x0, x1, x2 is unknown to the decoder; capstone names it
    let elf = build_elf(&[0x9b027c20, 0xd503201f, 0x9b027c20, 0xd65f03c0], false);
    let listing = decode_file(&elf).unwrap();
    assert_eq!(listing.sections.len(), 1);
    assert_eq!(listing.instructions.len(), 1);
    let instructions = &listing.instructions[0];
    assert_eq!(instructions.len(), 4);
    assert_eq!(instructions[0], RebootInstruction::Unknown);
    assert_eq!(instructions[1], RebootInstruction::Nop);
    assert_eq!(listing.unknown_counts, vec![("mul".to_string(), 2)]);
    assert!(matches!(decode_file(&[]), Err(DecodeFileError::Parse(_))));
}

#[test]
fn counts_each_mnemonic_once() {
    let names: Vec<String> = ["mul", "udf", "mul", "mul"].iter().map(|s| s.to_string()).collect();
    assert_eq!(
        count_mnemonics(&names),
        vec![("mul".to_string(), 3), ("udf".to_string(), 1)]
    );
    assert_eq!(count_mnemonics(&Vec::new()), vec![]);
}

#[test]
fn walker_walks_a_path() {
    let path = vec![
        add(Register::X0, Register::X1, Register::X2),
        add(Register::X3, Register::X0, Register::X4),
        add(Register::X1, Register::X3, Register::X5),
    ];
    let mut walker = RegisterReadWalker::default();
    walker.process_all(&path);
    let mut read: Vec<u32> = walker.registers_read.iter().copied().collect();
    read.sort();
    // x0 and x3 are written before they are read; x1 is read before it is written
    assert_eq!(read, vec![1, 2, 4, 5]);
    let mut written: Vec<u32> = walker.registers_written.iter().copied().collect();
    written.sort();
    assert_eq!(written, vec![0, 1, 3]);
}

#[test]
fn tallies_known_and_unknown_mnemonics() {
    // nop, an unknown word (mul x0, x1, x2 is not in the decoder), nop, ret
    let elf = build_elf(&[0xd503201f, 0x9b027c20, 0xd503201f, 0xd65f03c0], false);
    let tally = mnemonic_tally(&elf).unwrap();
    assert_eq!(tally.sections.len(), 1);
    assert_eq!(tally.instructions[0].len(), 4);
    assert_eq!(tally.mnemonics[0], vec!["nop", "mul", "nop", "ret"]);
    assert_eq!(
        tally.counts,
        vec![("nop".to_string(), 2, 0), ("mul".to_string(), 0, 1), ("ret".to_string(), 1, 0)]
    );
    assert!(matches!(mnemonic_tally(&[]), Err(DecodeFileError::Parse(_))));
}
