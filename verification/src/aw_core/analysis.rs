use vstd::prelude::*;
use std::collections::{HashMap, HashSet};
use vstd::std_specs::iter::IteratorSpec;
use elf::ParseError;
use crate::arm::arch::Arm;
use crate::arm::registers::register_id;
use crate::arm_decoder::structures::Register;
use crate::arm_decoder::decoding::spec_decode;
use crate::arm_decoder::instructions::{all_decodable, words_decodable};
use crate::arm_decoder::utilities::le_word;
use crate::aw_core::elf_image::{
    SegmentEntry, SymbolEntry, elf_entry, elf_section_data, elf_section_flags, elf_segments,
    elf_symbol_name, elf_symbols, read_entry, read_section_data, read_section_flags,
    read_segments, read_symbol_name, read_symbols,
};
use crate::arm::translation::{
    ArmInstruction, branch_kind_of, register_ids, stack_frame_effect_of,
};
use crate::aw_core::instruction_helper::{registers_read_by, registers_written_by};
use crate::aw_core::architecture::{BranchKind, StackAccess};

verus! {

/// A branch found while scanning a routine.
#[derive(Debug, Clone, Copy, PartialEq, Eq)]
pub struct Jump {
    pub conditional: bool,
    pub next_address: u64,
    pub source_address: u64,
    pub tail_call_routine_index: Option<usize>,
    pub target_address: u64,
}

/// A stack access found while scanning a routine, with the address of the instruction
/// that makes it.
#[derive(Debug, Clone, Copy, PartialEq, Eq)]
pub struct StackAccessRecord {
    pub address: u64,
    pub offset: i32,
    pub size_bytes: u32,
    pub read: bool,
    pub write: bool,
}

/// Why a program could not be analysed.
#[derive(Debug, Clone, Copy, PartialEq, Eq)]
pub enum AnalysisError {
    /// A branch leaves its routine for an address where no routine starts.
    UnknownJumpTarget { source_address: u64, target_address: u64 },
    /// A routine does not start on an instruction boundary of its segment.
    UnalignedRoutine { routine_address: u64 },
    /// A routine starts after the last whole instruction of its segment.
    NoInstructionAtRoutine { routine_address: u64 },
    /// No block end lies after this block start.
    NoBlockEnd { start_address: u64 },
    /// A block runs past the end of its segment.
    BlockOutsideSegment { start_address: u64 },
    /// No block falls through or jumps to this block.
    BlockNotEntered { routine_address: u64, block_index: usize },
    /// A routine lies in no executable segment.
    RoutineOutsideSegments { routine_address: u64 },
    /// A routine starts at `2^63`, where ordering by signed address overflows.
    UnorderableRoutine { routine_address: u64 },
}

/// What scanning a routine's instructions has found so far.
pub struct ScanState {
    pub jumps: Seq<Jump>,
    pub stack_entry_size: Option<u64>,
    pub is_prologue: bool,
    pub stack_accesses: Seq<StackAccessRecord>,
    pub explicit_return: Option<u64>,
}

/// The state before the first instruction: in the prologue, nothing found.
pub open spec fn initial_scan_state() -> ScanState {
    ScanState {
        jumps: Seq::empty(),
        stack_entry_size: None,
        is_prologue: true,
        stack_accesses: Seq::empty(),
        explicit_return: None,
    }
}

/// The outcome of scanning one instruction.
pub enum ScanStep {
    Continue(ScanState),
    Stop(ScanState),
    Fail { source_address: u64, target_address: u64 },
}

/// The first index at which `x` occurs in `s`, looking from `from` on.
pub open spec fn index_of_from(s: Seq<u64>, x: u64, from: int) -> Option<usize>
    decreases s.len() - from,
{
    if from < 0 || from >= s.len() {
        None
    } else if s[from] == x {
        Some(from as usize)
    } else {
        index_of_from(s, x, from + 1)
    }
}

/// The first index at which `x` occurs in `s`.
pub open spec fn index_of(s: Seq<u64>, x: u64) -> Option<usize> {
    index_of_from(s, x, 0)
}

/// `accesses`, made by the instruction at `address`.
pub open spec fn records_at(address: u64, accesses: Seq<StackAccess>) -> Seq<StackAccessRecord> {
    accesses.map_values(
        |a: StackAccess|
            StackAccessRecord {
                address,
                offset: a.offset,
                size_bytes: a.size_bytes,
                read: a.read,
                write: a.write,
            },
    )
}

/// Records an instruction's effect on the stack frame: the first frame allocation made
/// in the prologue is the routine's frame size, and the first stack access ends the
/// prologue.
pub open spec fn record_frame_effect(
    st: ScanState,
    address: u64,
    allocation: Option<u64>,
    accesses: Seq<StackAccess>,
) -> ScanState {
    let sized = if allocation is Some && st.stack_entry_size is None && st.is_prologue {
        ScanState { stack_entry_size: allocation, ..st }
    } else {
        st
    };
    if accesses.len() > 0 {
        ScanState {
            stack_accesses: sized.stack_accesses + records_at(address, accesses),
            is_prologue: false,
            ..sized
        }
    } else {
        sized
    }
}

/// Scans the instruction `instruction` at `address` of the routine spanning
/// `routine_address..routine_end_address`: a branch ends the prologue; a jump is
/// recorded, and one that leaves the routine must go to the start of a routine, whose
/// index it records as a tail call; an unconditional jump or a return ends the scan.
#[verifier::opaque]
pub open spec fn scan_step(
    instruction: ArmInstruction,
    address: u64,
    routine_address: u64,
    routine_end_address: u64,
    routine_addresses: Seq<u64>,
    stack_pointer: u32,
    st: ScanState,
) -> ScanStep {
    let (allocation, accesses) = stack_frame_effect_of(instruction.0, stack_pointer);
    let st1 = record_frame_effect(st, address, allocation, accesses);
    let next_address = (address + 4) as u64;
    match branch_kind_of(instruction.0, address) {
        BranchKind::Jump { conditional, target_address } => {
            let external = target_address < routine_address || target_address
                >= routine_end_address;
            let tail_call = if external {
                index_of(routine_addresses, target_address)
            } else {
                None
            };
            if external && tail_call is None {
                ScanStep::Fail { source_address: address, target_address }
            } else {
                let st2 = ScanState {
                    jumps: st1.jumps.push(
                        Jump {
                            conditional,
                            next_address,
                            source_address: address,
                            tail_call_routine_index: tail_call,
                            target_address,
                        },
                    ),
                    is_prologue: false,
                    ..st1
                };
                if conditional {
                    ScanStep::Continue(st2)
                } else {
                    ScanStep::Stop(st2)
                }
            }
        },
        BranchKind::Call => ScanStep::Continue(ScanState { is_prologue: false, ..st1 }),
        BranchKind::Return => ScanStep::Stop(
            ScanState { is_prologue: false, explicit_return: Some(next_address), ..st1 },
        ),
        BranchKind::NoBranch => ScanStep::Continue(st1),
    }
}

/// Scans the instructions from index `i`, the first of them at `address`, until an
/// instruction ends the scan, the instructions run out, or the address leaves the
/// routine. `Err` holds the source and target of a jump to an unknown address.
pub open spec fn scan_from(
    instructions: Seq<ArmInstruction>,
    i: int,
    address: u64,
    routine_address: u64,
    routine_end_address: u64,
    routine_addresses: Seq<u64>,
    stack_pointer: u32,
    st: ScanState,
) -> Result<ScanState, (u64, u64)>
    decreases instructions.len() - i,
{
    if i < 0 || i >= instructions.len() || address < routine_address || address
        >= routine_end_address {
        Ok(st)
    } else {
        match scan_step(
            instructions[i],
            address,
            routine_address,
            routine_end_address,
            routine_addresses,
            stack_pointer,
            st,
        ) {
            ScanStep::Continue(next) => scan_from(
                instructions,
                i + 1,
                (address + 4) as u64,
                routine_address,
                routine_end_address,
                routine_addresses,
                stack_pointer,
                next,
            ),
            ScanStep::Stop(last) => Ok(last),
            ScanStep::Fail { source_address, target_address } => Err(
                (source_address, target_address),
            ),
        }
    }
}

/// What scanning a routine found.
#[derive(Debug)]
pub struct RoutineScan {
    pub jumps: Vec<Jump>,
    pub stack_entry_size: Option<u64>,
    pub stack_accesses: Vec<StackAccessRecord>,
    pub explicit_return: Option<u64>,
}

/// Whether `scan` is what `st` describes.
pub open spec fn scan_matches(scan: RoutineScan, st: ScanState) -> bool {
    &&& scan.jumps@ == st.jumps
    &&& scan.stack_entry_size == st.stack_entry_size
    &&& scan.stack_accesses@ == st.stack_accesses
    &&& scan.explicit_return == st.explicit_return
}

/// The first index at which `x` occurs in `s`.
pub fn find_address(s: &[u64], x: u64) -> (r: Option<usize>)
    ensures
        r == index_of(s@, x),
{
    let mut i: usize = 0;
    while i < s.len()
        invariant
            i <= s.len(),
            index_of(s@, x) == index_of_from(s@, x, i as int),
        decreases s.len() - i,
    {
        if s[i] == x {
            return Some(i);
        }
        i = i + 1;
    }
    None
}

fn push_records(records: &mut Vec<StackAccessRecord>, address: u64, accesses: Vec<StackAccess>)
    ensures
        final(records)@ == old(records)@ + records_at(address, accesses@),
{
    let ghost start = records@;
    let mut i: usize = 0;
    while i < accesses.len()
        invariant
            i <= accesses.len(),
            records@ == start + records_at(address, accesses@.take(i as int)),
        decreases accesses.len() - i,
    {
        let a = accesses[i];
        records.push(
            StackAccessRecord {
                address,
                offset: a.offset,
                size_bytes: a.size_bytes,
                read: a.read,
                write: a.write,
            },
        );
        proof {
            assert(accesses@.take(i + 1) =~= accesses@.take(i as int).push(a));
            assert(records_at(address, accesses@.take(i + 1)) =~= records_at(
                address,
                accesses@.take(i as int),
            ).push(records@.last()));
        }
        i = i + 1;
    }
    proof {
        assert(accesses@.take(accesses.len() as int) =~= accesses@);
    }
}

/// The state of a scan in progress.
struct ScanProgress {
    jumps: Vec<Jump>,
    stack_entry_size: Option<u64>,
    is_prologue: bool,
    stack_accesses: Vec<StackAccessRecord>,
    explicit_return: Option<u64>,
}

impl ScanProgress {
    spec fn state(&self) -> ScanState {
        ScanState {
            jumps: self.jumps@,
            stack_entry_size: self.stack_entry_size,
            is_prologue: self.is_prologue,
            stack_accesses: self.stack_accesses@,
            explicit_return: self.explicit_return,
        }
    }
}

/// What a scanned instruction asks of the scan.
enum StepOutcome {
    Continue,
    Stop,
    Fail { source_address: u64, target_address: u64 },
}

fn record_effect(progress: &mut ScanProgress, instruction: &ArmInstruction, address: u64, stack_pointer: u32)
    ensures
        ({
            let (allocation, accesses) = stack_frame_effect_of(instruction.0, stack_pointer);
            final(progress).state() == record_frame_effect(old(progress).state(), address, allocation, accesses)
        }),
{
    let (allocate, accesses) = instruction.stack_frame_effect(stack_pointer);
    if allocate.is_some() && progress.stack_entry_size.is_none() && progress.is_prologue {
        progress.stack_entry_size = allocate;
    }
    if accesses.len() > 0 {
        push_records(&mut progress.stack_accesses, address, accesses);
        progress.is_prologue = false;
    }
}

#[verifier::spinoff_prover]
fn scan_instruction(
    progress: &mut ScanProgress,
    instruction: &ArmInstruction,
    address: u64,
    routine_address: u64,
    routine_end_address: u64,
    routine_addresses: &[u64],
    stack_pointer: u32,
) -> (r: StepOutcome)
    requires
        address < routine_end_address <= u64::MAX - 4,
    ensures
        match scan_step(
            *instruction,
            address,
            routine_address,
            routine_end_address,
            routine_addresses@,
            stack_pointer,
            old(progress).state(),
        ) {
            ScanStep::Continue(st) => r is Continue && final(progress).state() == st,
            ScanStep::Stop(st) => r is Stop && final(progress).state() == st,
            ScanStep::Fail { source_address, target_address } => r == (StepOutcome::Fail {
                source_address,
                target_address,
            }),
        },
{
    reveal(scan_step);
    let next_address = address + 4;
    let branch_kind = instruction.branch_kind(address);
    record_effect(progress, instruction, address, stack_pointer);
    match branch_kind {
        BranchKind::Jump { conditional, target_address } => {
            let external = target_address < routine_address || target_address
                >= routine_end_address;
            let tail_call_routine_index = if external {
                find_address(routine_addresses, target_address)
            } else {
                None
            };
            if external && tail_call_routine_index.is_none() {
                return StepOutcome::Fail { source_address: address, target_address };
            }
            progress.jumps.push(
                Jump {
                    conditional,
                    next_address,
                    source_address: address,
                    tail_call_routine_index,
                    target_address,
                },
            );
            progress.is_prologue = false;
            if conditional {
                StepOutcome::Continue
            } else {
                StepOutcome::Stop
            }
        },
        BranchKind::Call => {
            progress.is_prologue = false;
            StepOutcome::Continue
        },
        BranchKind::Return => {
            progress.is_prologue = false;
            progress.explicit_return = Some(next_address);
            StepOutcome::Stop
        },
        BranchKind::NoBranch => StepOutcome::Continue,
    }
}

/// Scans the routine spanning `routine_address..routine_end_address`, whose first
/// instruction is `instructions[first_index]`, as `scan_from` describes.
#[verifier::spinoff_prover]
pub fn scan_routine(
    instructions: &[ArmInstruction],
    first_index: usize,
    routine_address: u64,
    routine_end_address: u64,
    routine_addresses: &[u64],
    stack_pointer: u32,
) -> (r: Result<RoutineScan, AnalysisError>)
    requires
        routine_end_address <= u64::MAX - 4,
    ensures
        match (
            r,
            scan_from(
                instructions@,
                first_index as int,
                routine_address,
                routine_address,
                routine_end_address,
                routine_addresses@,
                stack_pointer,
                initial_scan_state(),
            ),
        ) {
            (Ok(scan), Ok(st)) => scan_matches(scan, st),
            (Err(AnalysisError::UnknownJumpTarget { source_address, target_address }), Err(e)) => (
            source_address, target_address) == e,
            _ => false,
        },
{
    let ghost result = scan_from(
        instructions@,
        first_index as int,
        routine_address,
        routine_address,
        routine_end_address,
        routine_addresses@,
        stack_pointer,
        initial_scan_state(),
    );
    let mut progress = ScanProgress {
        jumps: Vec::new(),
        stack_entry_size: None,
        is_prologue: true,
        stack_accesses: Vec::new(),
        explicit_return: None,
    };
    proof {
        assert(progress.state() =~= initial_scan_state());
    }
    let mut current_address = routine_address;
    let mut i = first_index;
    while i < instructions.len()
        invariant_except_break
            result == scan_from(
                instructions@,
                i as int,
                current_address,
                routine_address,
                routine_end_address,
                routine_addresses@,
                stack_pointer,
                progress.state(),
            ),
        invariant
            routine_end_address <= u64::MAX - 4,
            result == scan_from(
                instructions@,
                first_index as int,
                routine_address,
                routine_address,
                routine_end_address,
                routine_addresses@,
                stack_pointer,
                initial_scan_state(),
            ),
        ensures
            result == Ok::<ScanState, (u64, u64)>(progress.state()),
        decreases instructions.len() - i,
    {
        if current_address < routine_address || current_address >= routine_end_address {
            break;
        }
        let ghost before = progress.state();
        proof {
            reveal_with_fuel(scan_from, 2);
        }
        match scan_instruction(
            &mut progress,
            &instructions[i],
            current_address,
            routine_address,
            routine_end_address,
            routine_addresses,
            stack_pointer,
        ) {
            StepOutcome::Continue => {},
            StepOutcome::Stop => {
                break;
            },
            StepOutcome::Fail { source_address, target_address } => {
                assert(result == Err::<ScanState, (u64, u64)>((source_address, target_address)));
                return Err(AnalysisError::UnknownJumpTarget { source_address, target_address });
            },
        }
        current_address = current_address + 4;
        i = i + 1;
    }
    Ok(
        RoutineScan {
            jumps: progress.jumps,
            stack_entry_size: progress.stack_entry_size,
            stack_accesses: progress.stack_accesses,
            explicit_return: progress.explicit_return,
        },
    )
}

/// Why a block ends where it does.
#[derive(Debug, Clone, Copy, PartialEq, Eq)]
pub enum BlockEndKind {
    ExplicitReturn,
    JumpTarget,
    JumpSource(Jump),
    RoutineEnd,
    TailCall { routine_index: usize },
}

/// Where several block ends fall on one address, the one of lowest priority wins.
pub open spec fn end_priority(kind: BlockEndKind) -> int {
    match kind {
        BlockEndKind::JumpSource(_) => 0,
        BlockEndKind::ExplicitReturn => 1,
        BlockEndKind::JumpTarget => 2,
        BlockEndKind::RoutineEnd => 3,
        BlockEndKind::TailCall { .. } => 4,
    }
}

/// The block ends a routine's jumps within the routine make: a block ends after each
/// branch and just before each branch target.
pub open spec fn jump_ends(jumps: Seq<Jump>) -> Seq<(u64, BlockEndKind)>
    decreases jumps.len(),
{
    if jumps.len() == 0 {
        Seq::empty()
    } else {
        let j = jumps.last();
        jump_ends(jumps.drop_last()) + if j.tail_call_routine_index is None {
            seq![
                (j.next_address, BlockEndKind::JumpSource(j)),
                (j.target_address, BlockEndKind::JumpTarget),
            ]
        } else {
            Seq::empty()
        }
    }
}

/// The block ends a routine's tail calls make: at the calling branch.
pub open spec fn tail_call_ends(jumps: Seq<Jump>) -> Seq<(u64, BlockEndKind)>
    decreases jumps.len(),
{
    if jumps.len() == 0 {
        Seq::empty()
    } else {
        let j = jumps.last();
        tail_call_ends(jumps.drop_last()) + match j.tail_call_routine_index {
            Some(routine_index) => seq![
                (j.source_address, BlockEndKind::TailCall { routine_index }),
            ],
            None => Seq::empty(),
        }
    }
}

/// Every block end of a routine, in the order they are considered: those of its jumps,
/// the one after its return, those of its tail calls, and its end.
pub open spec fn block_ends(
    jumps: Seq<Jump>,
    explicit_return: Option<u64>,
    routine_end_address: u64,
) -> Seq<(u64, BlockEndKind)> {
    jump_ends(jumps) + match explicit_return {
        Some(address) => seq![(address, BlockEndKind::ExplicitReturn)],
        None => Seq::empty(),
    } + tail_call_ends(jumps) + seq![(routine_end_address, BlockEndKind::RoutineEnd)]
}

/// Whether a block starts at `address`: the routine's start, the target of a jump
/// within the routine, or the instruction after a conditional jump.
pub open spec fn is_block_start(jumps: Seq<Jump>, routine_address: u64, address: u64) -> bool {
    ||| address == routine_address
    ||| exists|k: int|
        0 <= k < jumps.len() && {
            ||| (#[trigger] jumps[k]).tail_call_routine_index is None && jumps[k].target_address
                == address
            ||| jumps[k].conditional && jumps[k].next_address == address
        }
}

/// Whether `s` is strictly increasing.
pub open spec fn strictly_increasing(s: Seq<u64>) -> bool {
    forall|i: int, j: int| 0 <= i < j < s.len() ==> s[i] < s[j]
}

/// Whether block end `a` comes before block end `b`: at a lower address, or at the same
/// address with a lower priority.
pub open spec fn end_before(a: (u64, BlockEndKind), b: (u64, BlockEndKind)) -> bool {
    a.0 < b.0 || (a.0 == b.0 && end_priority(a.1) < end_priority(b.1))
}

/// Whether `ends[j]` ends the block that starts at `start`: the first, in the order of
/// `ends`, among the block ends after `start` that no other comes before.
pub open spec fn is_block_end(ends: Seq<(u64, BlockEndKind)>, start: u64, j: int) -> bool {
    &&& 0 <= j < ends.len()
    &&& ends[j].0 > start
    &&& forall|k: int| 0 <= k < ends.len() && ends[k].0 > start ==> !end_before(ends[k], ends[j])
    &&& forall|k: int| 0 <= k < j && ends[k].0 > start ==> end_before(ends[j], ends[k])
}

/// Whether some block end lies after `start`.
pub open spec fn has_end_after(ends: Seq<(u64, BlockEndKind)>, start: u64) -> bool {
    exists|k: int| 0 <= k < ends.len() && ends[k].0 > start
}

/// The extent of a block and how control leaves it.
#[derive(Debug, Clone, Copy, PartialEq, Eq)]
pub struct BlockLayout {
    pub start_address: u64,
    pub end_address: u64,
    pub fallthrough_block_index: Option<usize>,
    pub jump_block_index: Option<usize>,
    pub tail_call_routine_index: Option<usize>,
}

/// Whether a block ending this way continues with the block at its end.
pub open spec fn falls_through(kind: BlockEndKind) -> bool {
    match kind {
        BlockEndKind::JumpTarget => true,
        BlockEndKind::JumpSource(j) => j.conditional,
        _ => false,
    }
}

/// The block that starts at `start` and ends with `end`, among the blocks starting at
/// `starts`: it falls through to the block at its end, jumps to the block at its jump's
/// target unless that is the block it falls through to, and records a tail call.
pub open spec fn layout_of(starts: Seq<u64>, start: u64, end: (u64, BlockEndKind)) -> BlockLayout {
    let fallthrough = if falls_through(end.1) {
        index_of(starts, end.0)
    } else {
        None
    };
    let jump = match end.1 {
        BlockEndKind::JumpSource(j) => index_of(starts, j.target_address),
        _ => None,
    };
    BlockLayout {
        start_address: start,
        end_address: end.0,
        fallthrough_block_index: fallthrough,
        jump_block_index: if fallthrough == jump {
            None
        } else {
            jump
        },
        tail_call_routine_index: match end.1 {
            BlockEndKind::TailCall { routine_index } => Some(routine_index),
            _ => None,
        },
    }
}

/// Why a routine's blocks could not be laid out.
#[derive(Debug, Clone, Copy, PartialEq, Eq)]
pub enum LayoutError {
    /// No block end lies after this block start.
    NoBlockEnd { start_address: u64 },
}

/// Inserts `x` into the strictly increasing `v`, unless it is there.
fn insert_sorted(v: &mut Vec<u64>, x: u64)
    requires
        strictly_increasing(old(v)@),
    ensures
        strictly_increasing(final(v)@),
        final(v)@.to_set() == old(v)@.to_set().insert(x),
{
    let ghost before = v@;
    let mut p: usize = 0;
    while p < v.len() && v[p] < x
        invariant
            p <= v.len(),
            v@ == before,
            forall|k: int| 0 <= k < p ==> v@[k] < x,
        decreases v.len() - p,
    {
        p = p + 1;
    }
    if p < v.len() && v[p] == x {
        proof {
            assert(before.to_set().insert(x) =~= before.to_set());
        }
        return;
    }
    v.insert(p, x);
    proof {
        assert(v@ =~= before.take(p as int).push(x) + before.skip(p as int));
        assert forall|i: int, j: int| 0 <= i < j < v@.len() implies v@[i] < v@[j] by {
            if j < p {
            } else if j == p {
            } else if i < p {
            } else if i == p {
            }
        }
        assert forall|y: u64| v@.to_set().contains(y) <==> before.to_set().insert(x).contains(y) by {
            if v@.contains(y) {
                let k = choose|k: int| 0 <= k < v@.len() && v@[k] == y;
                if k < p {
                    assert(before[k] == y);
                } else if k > p {
                    assert(before[k - 1] == y);
                }
            }
            if before.contains(y) {
                let k = choose|k: int| 0 <= k < before.len() && before[k] == y;
                if k < p {
                    assert(v@[k] == y);
                } else {
                    assert(v@[k + 1] == y);
                }
            }
            if y == x {
                assert(v@[p as int] == x);
            }
        }
        assert(v@.to_set() =~= before.to_set().insert(x));
    }
}

/// The addresses where the blocks of a routine start.
pub open spec fn block_start_set(jumps: Seq<Jump>, routine_address: u64) -> Set<u64> {
    Set::new(|a: u64| is_block_start(jumps, routine_address, a))
}

/// The block starts of a routine, in increasing order.
#[verifier::spinoff_prover]
fn collect_block_starts(routine_address: u64, jumps: &Vec<Jump>) -> (r: Vec<u64>)
    ensures
        strictly_increasing(r@),
        r@.to_set() == block_start_set(jumps@, routine_address),
{
    let mut starts: Vec<u64> = Vec::new();
    let mut i: usize = 0;
    while i < jumps.len()
        invariant
            i <= jumps.len(),
            strictly_increasing(starts@),
            starts@.to_set() == Set::new(
                |a: u64|
                    exists|k: int|
                        0 <= k < i && (#[trigger] jumps@[k]).tail_call_routine_index is None
                            && jumps@[k].target_address == a,
            ),
        decreases jumps.len() - i,
    {
        let ghost before = starts@.to_set();
        if jumps[i].tail_call_routine_index.is_none() {
            insert_sorted(&mut starts, jumps[i].target_address);
        }
        proof {
            assert(starts@.to_set() =~= Set::new(
                |a: u64|
                    exists|k: int|
                        0 <= k < i + 1 && (#[trigger] jumps@[k]).tail_call_routine_index is None
                            && jumps@[k].target_address == a,
            )) by {
                assert forall|a: u64|
                    (exists|k: int|
                        0 <= k < i + 1 && (#[trigger] jumps@[k]).tail_call_routine_index is None
                            && jumps@[k].target_address == a) implies starts@.to_set().contains(
                    a,
                ) by {
                    let k = choose|k: int|
                        0 <= k < i + 1 && (#[trigger] jumps@[k]).tail_call_routine_index is None
                            && jumps@[k].target_address == a;
                    if k < i {
                        assert(before.contains(a));
                    }
                }
            }
        }
        i = i + 1;
    }
    let ghost targets = starts@.to_set();
    insert_sorted(&mut starts, routine_address);
    let mut i: usize = 0;
    while i < jumps.len()
        invariant
            i <= jumps.len(),
            strictly_increasing(starts@),
            starts@.to_set() == targets.insert(routine_address).union(
                Set::new(
                    |a: u64|
                        exists|k: int|
                            0 <= k < i && (#[trigger] jumps@[k]).conditional
                                && jumps@[k].next_address == a,
                ),
            ),
            targets == Set::new(
                |a: u64|
                    exists|k: int|
                        0 <= k < jumps.len() && (#[trigger] jumps@[k]).tail_call_routine_index
                            is None && jumps@[k].target_address == a,
            ),
        decreases jumps.len() - i,
    {
        let ghost before = starts@.to_set();
        if jumps[i].conditional {
            insert_sorted(&mut starts, jumps[i].next_address);
        }
        proof {
            let next_set = Set::new(
                |a: u64|
                    exists|k: int|
                        0 <= k < i + 1 && (#[trigger] jumps@[k]).conditional
                            && jumps@[k].next_address == a,
            );
            let prev_set = Set::new(
                |a: u64|
                    exists|k: int|
                        0 <= k < i && (#[trigger] jumps@[k]).conditional
                            && jumps@[k].next_address == a,
            );
            assert forall|a: u64| next_set.contains(a) implies #[trigger] starts@.to_set().contains(
                a,
            ) by {
                let k = choose|k: int|
                    0 <= k < i + 1 && (#[trigger] jumps@[k]).conditional
                        && jumps@[k].next_address == a;
                if k < i {
                    assert(prev_set.contains(a));
                    assert(before.contains(a));
                }
            }
            assert forall|a: u64| prev_set.contains(a) implies #[trigger] next_set.contains(a) by {
                let k = choose|k: int|
                    0 <= k < i && (#[trigger] jumps@[k]).conditional
                        && jumps@[k].next_address == a;
                assert(0 <= k < i + 1);
            }
            assert(starts@.to_set() =~= targets.insert(routine_address).union(next_set));
        }
        i = i + 1;
    }
    proof {
        assert forall|a: u64|
            #[trigger] starts@.to_set().contains(a) <==> block_start_set(
                jumps@,
                routine_address,
            ).contains(a) by {
            if starts@.to_set().contains(a) && a != routine_address {
                if targets.contains(a) {
                    let k = choose|k: int|
                        0 <= k < jumps.len() && (#[trigger] jumps@[k]).tail_call_routine_index
                            is None && jumps@[k].target_address == a;
                    assert(is_block_start(jumps@, routine_address, a));
                } else {
                    let k = choose|k: int|
                        0 <= k < jumps.len() && (#[trigger] jumps@[k]).conditional
                            && jumps@[k].next_address == a;
                    assert(is_block_start(jumps@, routine_address, a));
                }
            }
            if is_block_start(jumps@, routine_address, a) && a != routine_address {
                let k = choose|k: int|
                    0 <= k < jumps.len() && {
                        ||| (#[trigger] jumps@[k]).tail_call_routine_index is None
                            && jumps@[k].target_address == a
                        ||| jumps@[k].conditional && jumps@[k].next_address == a
                    };
                if jumps@[k].tail_call_routine_index is None && jumps@[k].target_address == a {
                    assert(targets.contains(a));
                } else {
                    assert(starts@.to_set().contains(a));
                }
            }
        }
        assert(starts@.to_set() =~= block_start_set(jumps@, routine_address));
    }
    starts
}

/// The block ends of a routine, as `block_ends` lists them.
fn collect_block_ends(jumps: &Vec<Jump>, explicit_return: Option<u64>, routine_end_address: u64) -> (r: Vec<(u64, BlockEndKind)>)
    ensures
        r@ == block_ends(jumps@, explicit_return, routine_end_address),
{
    let mut ends: Vec<(u64, BlockEndKind)> = Vec::new();
    let mut i: usize = 0;
    while i < jumps.len()
        invariant
            i <= jumps.len(),
            ends@ == jump_ends(jumps@.take(i as int)),
        decreases jumps.len() - i,
    {
        let jump = jumps[i];
        proof {
            assert(jumps@.take(i + 1).drop_last() =~= jumps@.take(i as int));
        }
        if jump.tail_call_routine_index.is_none() {
            ends.push((jump.next_address, BlockEndKind::JumpSource(jump)));
            ends.push((jump.target_address, BlockEndKind::JumpTarget));
        }
        proof {
            assert(ends@ =~= jump_ends(jumps@.take(i + 1)));
        }
        i = i + 1;
    }
    proof {
        assert(jumps@.take(jumps.len() as int) =~= jumps@);
    }
    if let Some(address) = explicit_return {
        ends.push((address, BlockEndKind::ExplicitReturn));
    }
    let ghost before_tail_calls = ends@;
    let mut i: usize = 0;
    while i < jumps.len()
        invariant
            i <= jumps.len(),
            ends@ == before_tail_calls + tail_call_ends(jumps@.take(i as int)),
        decreases jumps.len() - i,
    {
        let jump = jumps[i];
        proof {
            assert(jumps@.take(i + 1).drop_last() =~= jumps@.take(i as int));
        }
        if let Some(routine_index) = jump.tail_call_routine_index {
            ends.push((jump.source_address, BlockEndKind::TailCall { routine_index }));
        }
        proof {
            assert(ends@ =~= before_tail_calls + tail_call_ends(jumps@.take(i + 1)));
        }
        i = i + 1;
    }
    ends.push((routine_end_address, BlockEndKind::RoutineEnd));
    proof {
        assert(jumps@.take(jumps.len() as int) =~= jumps@);
        assert(ends@ =~= block_ends(jumps@, explicit_return, routine_end_address));
    }
    ends
}

fn priority(kind: &BlockEndKind) -> (r: u8)
    ensures
        r == end_priority(*kind),
{
    match kind {
        BlockEndKind::JumpSource(_) => 0,
        BlockEndKind::ExplicitReturn => 1,
        BlockEndKind::JumpTarget => 2,
        BlockEndKind::RoutineEnd => 3,
        BlockEndKind::TailCall { .. } => 4,
    }
}

/// The index of the end of the block that starts at `start`, if any end lies after it.
fn find_block_end(ends: &Vec<(u64, BlockEndKind)>, start: u64) -> (r: Option<usize>)
    ensures
        match r {
            Some(j) => is_block_end(ends@, start, j as int),
            None => !has_end_after(ends@, start),
        },
{
    let mut best: Option<usize> = None;
    let mut k: usize = 0;
    while k < ends.len()
        invariant
            k <= ends.len(),
            match best {
                Some(j) => {
                    &&& j < k
                    &&& ends@[j as int].0 > start
                    &&& forall|m: int|
                        0 <= m < k && ends@[m].0 > start ==> !end_before(ends@[m], ends@[j as int])
                    &&& forall|m: int|
                        0 <= m < j && ends@[m].0 > start ==> end_before(ends@[j as int], ends@[m])
                },
                None => forall|m: int| 0 <= m < k ==> ends@[m].0 <= start,
            },
        decreases ends.len() - k,
    {
        let (address, kind) = ends[k];
        if address > start {
            let better = match best {
                None => true,
                Some(j) => {
                    let (best_address, best_kind) = ends[j];
                    address < best_address || (address == best_address && priority(&kind)
                        < priority(&best_kind))
                },
            };
            if better {
                best = Some(k);
            }
        }
        k = k + 1;
    }
    best
}

/// The start addresses of `blocks`, in order.
pub open spec fn block_start_addresses(blocks: Seq<BlockLayout>) -> Seq<u64> {
    blocks.map_values(|b: BlockLayout| b.start_address)
}

/// Whether `blocks` are the blocks of a routine with block ends `ends` and block starts
/// `starts`: one per start, in increasing order, each laid out by the end that ends it.
pub open spec fn blocks_laid_out(
    blocks: Seq<BlockLayout>,
    starts: Set<u64>,
    ends: Seq<(u64, BlockEndKind)>,
) -> bool {
    &&& strictly_increasing(block_start_addresses(blocks))
    &&& block_start_addresses(blocks).to_set() == starts
    &&& forall|i: int|
        0 <= i < blocks.len() ==> exists|j: int|
            is_block_end(ends, blocks[i].start_address, j) && #[trigger] blocks[i] == layout_of(
                block_start_addresses(blocks),
                blocks[i].start_address,
                ends[j],
            )
}

/// Splits the routine spanning `routine_address..routine_end_address` into blocks,
/// given what scanning it found.
#[verifier::spinoff_prover]
pub fn lay_out_blocks(
    routine_address: u64,
    routine_end_address: u64,
    jumps: &Vec<Jump>,
    explicit_return: Option<u64>,
) -> (r: Result<Vec<BlockLayout>, LayoutError>)
    ensures
        ({
            let ends = block_ends(jumps@, explicit_return, routine_end_address);
            let starts = block_start_set(jumps@, routine_address);
            &&& r is Ok <==> (forall|a: u64| starts.contains(a) ==> has_end_after(ends, a))
            &&& match r {
                Ok(blocks) => blocks_laid_out(blocks@, starts, ends),
                Err(LayoutError::NoBlockEnd { start_address }) => {
                    &&& starts.contains(start_address)
                    &&& !has_end_after(ends, start_address)
                    &&& forall|a: u64|
                        starts.contains(a) && a < start_address ==> has_end_after(ends, a)
                },
            }
        }),
{
    let starts = collect_block_starts(routine_address, jumps);
    let ends = collect_block_ends(jumps, explicit_return, routine_end_address);
    let ghost start_set = block_start_set(jumps@, routine_address);
    let mut blocks: Vec<BlockLayout> = Vec::new();
    let mut i: usize = 0;
    while i < starts.len()
        invariant
            i <= starts.len(),
            strictly_increasing(starts@),
            starts@.to_set() == start_set,
            start_set == block_start_set(jumps@, routine_address),
            ends@ == block_ends(jumps@, explicit_return, routine_end_address),
            blocks.len() == i,
            forall|k: int| 0 <= k < i ==> #[trigger] blocks@[k].start_address == starts@[k],
            forall|k: int| 0 <= k < i ==> has_end_after(ends@, #[trigger] starts@[k]),
            forall|k: int|
                0 <= k < i ==> exists|j: int|
                    is_block_end(ends@, blocks@[k].start_address, j) && #[trigger] blocks@[k]
                        == layout_of(starts@, blocks@[k].start_address, ends@[j]),
        decreases starts.len() - i,
    {
        let start = starts[i];
        let end_index = match find_block_end(&ends, start) {
            Some(j) => j,
            None => {
                proof {
                    assert(starts@.contains(start));
                    assert(start_set.contains(start));
                    assert forall|a: u64| start_set.contains(a) && a < start implies has_end_after(
                        ends@,
                        a,
                    ) by {
                        assert(starts@.to_set().contains(a));
                        let k = choose|k: int| 0 <= k < starts@.len() && starts@[k] == a;
                        if k >= i {
                            assert(starts@[i as int] <= starts@[k]);
                        }
                    }
                }
                return Err(LayoutError::NoBlockEnd { start_address: start });
            },
        };
        let (end_address, kind) = ends[end_index];
        let fallthrough = match kind {
            BlockEndKind::JumpTarget => find_address(starts.as_slice(), end_address),
            BlockEndKind::JumpSource(jump) => if jump.conditional {
                find_address(starts.as_slice(), end_address)
            } else {
                None
            },
            _ => None,
        };
        let jump = match kind {
            BlockEndKind::JumpSource(jump) => find_address(starts.as_slice(), jump.target_address),
            _ => None,
        };
        let same = match (fallthrough, jump) {
            (Some(a), Some(b)) => a == b,
            (None, None) => true,
            _ => false,
        };
        let tail_call_routine_index = match kind {
            BlockEndKind::TailCall { routine_index } => Some(routine_index),
            _ => None,
        };
        let block = BlockLayout {
            start_address: start,
            end_address,
            fallthrough_block_index: fallthrough,
            jump_block_index: if same {
                None
            } else {
                jump
            },
            tail_call_routine_index,
        };
        proof {
            assert(block == layout_of(starts@, start, ends@[end_index as int]));
        }
        blocks.push(block);
        proof {
            assert(has_end_after(ends@, start));
            assert forall|k: int|
                0 <= k < i + 1 implies exists|j: int|
                    is_block_end(ends@, blocks@[k].start_address, j) && #[trigger] blocks@[k]
                        == layout_of(starts@, blocks@[k].start_address, ends@[j]) by {
                if k == i {
                    assert(is_block_end(ends@, blocks@[k].start_address, end_index as int));
                }
            }
        }
        i = i + 1;
    }
    proof {
        assert(block_start_addresses(blocks@) =~= starts@);
        assert forall|a: u64| start_set.contains(a) implies has_end_after(ends@, a) by {
            assert(starts@.to_set().contains(a));
            let k = choose|k: int| 0 <= k < starts@.len() && starts@[k] == a;
        }
    }
    Ok(blocks)
}

/// Whether the block with index `i` is entered: the first block is the routine's
/// entry, and any other must be the fallthrough or jump target of some block.
pub open spec fn block_entered(blocks: Seq<BlockLayout>, i: int) -> bool {
    i == 0 || exists|k: int|
        0 <= k < blocks.len() && ((#[trigger] blocks[k]).fallthrough_block_index == Some(
            i as usize,
        ) || blocks[k].jump_block_index == Some(i as usize))
}

/// The index of the first block that is not entered, if there is one.
fn first_unentered_block(blocks: &Vec<BlockLayout>) -> (r: Option<usize>)
    ensures
        match r {
            Some(i) => i < blocks.len() && !block_entered(blocks@, i as int) && forall|k: int|
                0 <= k < i ==> block_entered(blocks@, k),
            None => forall|k: int| 0 <= k < blocks.len() ==> block_entered(blocks@, k),
        },
{
    let mut i: usize = 1;
    while i < blocks.len()
        invariant
            1 <= i,
            forall|k: int| 0 <= k < i && k < blocks.len() ==> block_entered(blocks@, k),
        decreases blocks.len() - i,
    {
        let mut entered = false;
        let mut k: usize = 0;
        while k < blocks.len()
            invariant
                k <= blocks.len(),
                entered ==> block_entered(blocks@, i as int),
                !entered ==> forall|m: int|
                    0 <= m < k ==> !((#[trigger] blocks@[m]).fallthrough_block_index == Some(i)
                        || blocks@[m].jump_block_index == Some(i)),
            decreases blocks.len() - k,
        {
            let block = blocks[k];
            let falls = match block.fallthrough_block_index {
                Some(f) => f == i,
                None => false,
            };
            let jumps = match block.jump_block_index {
                Some(j) => j == i,
                None => false,
            };
            if falls || jumps {
                entered = true;
            }
            k = k + 1;
        }
        if !entered {
            return Some(i);
        }
        i = i + 1;
    }
    None
}

/// The variables a routine keeps on the stack: for each offset it accesses, the size of
/// its largest access there.
pub open spec fn variables_of(accesses: Seq<StackAccessRecord>) -> Map<i32, u32>
    decreases accesses.len(),
{
    if accesses.len() == 0 {
        Map::empty()
    } else {
        let m = variables_of(accesses.drop_last());
        let a = accesses.last();
        m.insert(
            a.offset,
            if m.contains_key(a.offset) && m[a.offset] > a.size_bytes {
                m[a.offset]
            } else {
                a.size_bytes
            },
        )
    }
}

fn collect_variables(accesses: &Vec<StackAccessRecord>) -> (r: HashMap<i32, u32>)
    ensures
        r@ == variables_of(accesses@),
{
    broadcast use vstd::std_specs::hash::group_hash_axioms;
    let mut variables: HashMap<i32, u32> = HashMap::new();
    let mut i: usize = 0;
    while i < accesses.len()
        invariant
            i <= accesses.len(),
            variables@ == variables_of(accesses@.take(i as int)),
        decreases accesses.len() - i,
    {
        let access = accesses[i];
        proof {
            assert(accesses@.take(i + 1).drop_last() =~= accesses@.take(i as int));
        }
        let size = match variables.get(&access.offset) {
            Some(existing) => if *existing > access.size_bytes {
                *existing
            } else {
                access.size_bytes
            },
            None => access.size_bytes,
        };
        variables.insert(access.offset, size);
        i = i + 1;
    }
    proof {
        assert(accesses@.take(accesses.len() as int) =~= accesses@);
    }
    variables
}

/// An executable segment: its load address, its decoded instructions, and where its
/// bytes are in the file.
#[derive(Debug)]
pub struct CodeSegment {
    pub address: u64,
    pub instructions: Vec<ArmInstruction>,
    pub source_offset: u64,
    pub size: u64,
}

/// Whether a segment holds one instruction per whole word and ends well below the top
/// of the address space.
pub open spec fn segment_ok(segment: CodeSegment) -> bool {
    &&& segment.instructions.len() == segment.size / 4
    &&& segment.address + segment.size <= u64::MAX - 4
}

/// A basic block of a routine.
#[derive(Debug)]
pub struct Block {
    pub fallthrough_block_index: Option<usize>,
    pub instructions: Vec<ArmInstruction>,
    pub jump_block_index: Option<usize>,
    pub start_address: u64,
    /// Set when the block ends with a tail call; then it neither falls through nor jumps.
    pub tail_call_routine_index: Option<usize>,
}

/// A routine: its blocks, name, stack frame size and stack variables.
#[derive(Debug)]
pub struct Routine {
    pub address: u64,
    pub blocks: Vec<Block>,
    pub name: Option<String>,
    pub stack_size: Option<u64>,
    pub variables: HashMap<i32, u32>,
}

/// The instructions of `segment` from the word at `start` to the last whole word
/// before `end`.
pub open spec fn segment_words(segment: CodeSegment, start: u64, end: u64) -> Seq<ArmInstruction> {
    let first = (start - segment.address) / 4;
    segment.instructions@.subrange(first, first + (end - start) / 4)
}

/// Whether `block` is laid out as `layout` with the instructions of `segment` it spans.
pub open spec fn block_matches(block: Block, layout: BlockLayout, segment: CodeSegment) -> bool {
    &&& block.start_address == layout.start_address
    &&& block.fallthrough_block_index == layout.fallthrough_block_index
    &&& block.jump_block_index == layout.jump_block_index
    &&& block.tail_call_routine_index == layout.tail_call_routine_index
    &&& block.instructions@ == segment_words(segment, layout.start_address, layout.end_address)
}

/// Copies the words of `segment` from `start` to `end`.
fn block_instructions(segment: &CodeSegment, start: u64, end: u64) -> (r: Vec<ArmInstruction>)
    requires
        segment_ok(*segment),
        segment.address <= start < end <= segment.address + segment.size,
        (start - segment.address) % 4 == 0,
    ensures
        r@ == segment_words(*segment, start, end),
{
    let first = ((start - segment.address) / 4) as usize;
    let count = ((end - start) / 4) as usize;
    assert(first + count <= segment.instructions.len()) by (nonlinear_arith)
        requires
            first == (start - segment.address) / 4,
            count == (end - start) / 4,
            (start - segment.address) % 4 == 0,
            segment.instructions.len() == segment.size / 4,
            start < end <= segment.address + segment.size,
            segment.address <= start,
    ;
    let mut result: Vec<ArmInstruction> = Vec::new();
    let mut k: usize = 0;
    while k < count
        invariant
            k <= count,
            first + count <= segment.instructions.len(),
            result@ == segment.instructions@.subrange(first as int, (first + k) as int),
        decreases count - k,
    {
        result.push(segment.instructions[first + k]);
        proof {
            assert(result@ =~= segment.instructions@.subrange(first as int, (first + k + 1) as int));
        }
        k = k + 1;
    }
    result
}

/// Whether `layouts` are the blocks of a routine whose scan found `st`, and all of them
/// lie within `segment`.
pub open spec fn layouts_within(
    layouts: Seq<BlockLayout>,
    segment: CodeSegment,
    routine_address: u64,
    routine_end_address: u64,
    st: ScanState,
) -> bool {
    &&& blocks_laid_out(
        layouts,
        block_start_set(st.jumps, routine_address),
        block_ends(st.jumps, st.explicit_return, routine_end_address),
    )
    &&& forall|i: int|
        0 <= i < layouts.len() ==> #[trigger] layouts[i].end_address <= segment.address
            + segment.size
}

/// Whether `routine` is the routine at `routine_address`, ending at
/// `routine_end_address`, in `segment`, whose scan found `st`: its blocks are laid out
/// from the scan, each holding the words it spans, and every block is entered.
pub open spec fn routine_built(
    routine: Routine,
    segment: CodeSegment,
    routine_address: u64,
    routine_end_address: u64,
    st: ScanState,
) -> bool {
    &&& routine.address == routine_address
    &&& routine.stack_size == st.stack_entry_size
    &&& routine.variables@ == variables_of(st.stack_accesses)
    &&& exists|layouts: Seq<BlockLayout>|
        {
            &&& layouts_within(layouts, segment, routine_address, routine_end_address, st)
            &&& layouts.len() == routine.blocks.len()
            &&& forall|i: int|
                0 <= i < layouts.len() ==> block_matches(
                    #[trigger] routine.blocks@[i],
                    layouts[i],
                    segment,
                )
            &&& forall|i: int| 0 <= i < layouts.len() ==> block_entered(layouts, i)
        }
}

/// The scan of the routine at `routine_address`, from the instruction at that address.
pub open spec fn routine_scan(
    segment: CodeSegment,
    routine_address: u64,
    routine_end_address: u64,
    routine_addresses: Seq<u64>,
    stack_pointer: u32,
) -> Result<ScanState, (u64, u64)> {
    scan_from(
        segment.instructions@,
        (routine_address - segment.address) / 4,
        routine_address,
        routine_address,
        routine_end_address,
        routine_addresses,
        stack_pointer,
        initial_scan_state(),
    )
}

/// Whether `j` could have been recorded by scanning the routine spanning
/// `routine_address..routine_end_address`: its source is an instruction of the routine,
/// it continues with the next instruction, its target lies a whole number of
/// instructions away, and a jump that is no tail call stays within the routine.
pub open spec fn jump_in_routine(j: Jump, routine_address: u64, routine_end_address: u64) -> bool {
    &&& routine_address <= j.source_address < routine_end_address
    &&& (j.source_address - routine_address) % 4 == 0
    &&& j.next_address == j.source_address + 4
    &&& (j.target_address - j.source_address) % 4 == 0
    &&& j.tail_call_routine_index is None ==> routine_address <= j.target_address
        < routine_end_address
}

/// Whether every jump of `jumps` could have been recorded by scanning the routine.
pub open spec fn jumps_in_routine(jumps: Seq<Jump>, routine_address: u64, routine_end_address: u64) -> bool {
    forall|k: int|
        0 <= k < jumps.len() ==> jump_in_routine(#[trigger] jumps[k], routine_address, routine_end_address)
}

/// A jump target lies a whole number of instructions away from the branch, even when
/// the address wraps around.
pub proof fn lemma_jump_target_congruent(address: u64, offset: i64)
    ensures
        (crate::arm::translation::jump_target(address, offset) - address) % 4 == 0,
{
    let m: int = 0x1_0000_0000_0000_0000;
    let y: int = address + 4 * offset;
    vstd::arithmetic::div_mod::lemma_fundamental_div_mod(y, m);
    let t: int = y % m;
    assert(t - address == 4 * offset - m * (y / m));
    assert(t - address == 4 * (offset - 0x4000_0000_0000_0000 * (y / m))) by (nonlinear_arith)
        requires
            t - address == 4 * offset - m * (y / m),
            m == 0x1_0000_0000_0000_0000,
    ;
    vstd::arithmetic::div_mod::lemma_mod_multiples_basic(offset - 0x4000_0000_0000_0000 * (y / m), 4);
}

/// Scanning a routine only ever records jumps of the routine: each comes from one of its
/// instructions, targets a whole number of instructions away, and stays within the
/// routine unless it is a tail call.
pub proof fn lemma_scan_jumps_in_routine(
    instructions: Seq<ArmInstruction>,
    i: int,
    address: u64,
    routine_address: u64,
    routine_end_address: u64,
    routine_addresses: Seq<u64>,
    stack_pointer: u32,
    st: ScanState,
)
    requires
        routine_end_address <= u64::MAX - 4,
        (address - routine_address) % 4 == 0,
        jumps_in_routine(st.jumps, routine_address, routine_end_address),
    ensures
        scan_from(
            instructions,
            i,
            address,
            routine_address,
            routine_end_address,
            routine_addresses,
            stack_pointer,
            st,
        ) matches Ok(last) ==> jumps_in_routine(last.jumps, routine_address, routine_end_address),
    decreases instructions.len() - i,
{
    if i < 0 || i >= instructions.len() || address < routine_address || address
        >= routine_end_address {
    } else {
        reveal(scan_step);
        let (allocation, accesses) = stack_frame_effect_of(instructions[i].0, stack_pointer);
        let st1 = record_frame_effect(st, address, allocation, accesses);
        assert(st1.jumps == st.jumps);
        match branch_kind_of(instructions[i].0, address) {
            BranchKind::Jump { conditional, target_address } => {
                match instructions[i].0 {
                    crate::arm_decoder::instructions::Instruction::UnconditionalBranch {
                        link: false,
                        target: crate::arm_decoder::instructions::BranchTarget::RelativeInstructionOffset(
                            offset,
                        ),
                    } => lemma_jump_target_congruent(address, offset),
                    crate::arm_decoder::instructions::Instruction::BranchConditionally {
                        target,
                        ..
                    } => lemma_jump_target_congruent(address, target),
                    crate::arm_decoder::instructions::Instruction::CompareAndBranch {
                        target,
                        ..
                    } => lemma_jump_target_congruent(address, target),
                    crate::arm_decoder::instructions::Instruction::TestBitAndBranch {
                        target,
                        ..
                    } => lemma_jump_target_congruent(address, target),
                    _ => {},
                }
            },
            _ => {},
        }
        match scan_step(
            instructions[i],
            address,
            routine_address,
            routine_end_address,
            routine_addresses,
            stack_pointer,
            st,
        ) {
            ScanStep::Continue(next) => {
                assert(jumps_in_routine(next.jumps, routine_address, routine_end_address));
                lemma_scan_jumps_in_routine(
                    instructions,
                    i + 1,
                    (address + 4) as u64,
                    routine_address,
                    routine_end_address,
                    routine_addresses,
                    stack_pointer,
                    next,
                );
            },
            ScanStep::Stop(last) => {
                assert(jumps_in_routine(last.jumps, routine_address, routine_end_address));
            },
            ScanStep::Fail { .. } => {},
        }
    }
}

/// Every block of a scanned routine starts on an instruction of the routine, before
/// its end.
proof fn lemma_block_start_aligned(
    jumps: Seq<Jump>,
    routine_address: u64,
    routine_end_address: u64,
    segment_address: u64,
    layouts: Seq<BlockLayout>,
    ends: Seq<(u64, BlockEndKind)>,
    i: int,
)
    requires
        jumps_in_routine(jumps, routine_address, routine_end_address),
        blocks_laid_out(layouts, block_start_set(jumps, routine_address), ends),
        segment_address <= routine_address,
        (routine_address - segment_address) % 4 == 0,
        0 <= i < layouts.len(),
    ensures
        routine_address <= layouts[i].start_address,
        (layouts[i].start_address - segment_address) % 4 == 0,
        layouts[i].start_address < layouts[i].end_address,
{
    let start = layouts[i].start_address;
    assert(block_start_addresses(layouts)[i] == start);
    assert(block_start_addresses(layouts).to_set().contains(start));
    assert(is_block_start(jumps, routine_address, start));
    if start != routine_address {
        let k = choose|k: int|
            0 <= k < jumps.len() && {
                ||| (#[trigger] jumps[k]).tail_call_routine_index is None
                    && jumps[k].target_address == start
                ||| jumps[k].conditional && jumps[k].next_address == start
            };
        assert(jump_in_routine(jumps[k], routine_address, routine_end_address));
    }
    let j = choose|j: int|
        is_block_end(ends, layouts[i].start_address, j) && #[trigger] layouts[i] == layout_of(
            block_start_addresses(layouts),
            layouts[i].start_address,
            ends[j],
        );
}

/// The blocks laid out by `layouts`, each with the instructions of `segment` it spans;
/// `Err` holds the start of the first block that runs past the segment's end.
fn build_blocks(segment: &CodeSegment, layouts: &Vec<BlockLayout>) -> (r: Result<Vec<Block>, u64>)
    requires
        segment_ok(*segment),
        forall|k: int|
            0 <= k < layouts@.len() ==> {
                &&& segment.address <= #[trigger] layouts@[k].start_address
                &&& (layouts@[k].start_address - segment.address) % 4 == 0
                &&& layouts@[k].start_address < layouts@[k].end_address
            },
    ensures
        match r {
            Ok(blocks) => {
                &&& blocks.len() == layouts.len()
                &&& forall|k: int|
                    0 <= k < layouts.len() ==> #[trigger] layouts@[k].end_address
                        <= segment.address + segment.size
                &&& forall|k: int|
                    0 <= k < layouts.len() ==> block_matches(
                        #[trigger] blocks@[k],
                        layouts@[k],
                        *segment,
                    )
            },
            Err(start_address) => exists|k: int|
                0 <= k < layouts.len() && (#[trigger] layouts@[k]).start_address == start_address
                    && layouts@[k].end_address > segment.address + segment.size,
        },
{
    let mut blocks: Vec<Block> = Vec::new();
    let mut i: usize = 0;
    while i < layouts.len()
        invariant
            segment_ok(*segment),
            i <= layouts.len(),
            blocks.len() == i,
            forall|k: int|
                0 <= k < layouts@.len() ==> {
                    &&& segment.address <= #[trigger] layouts@[k].start_address
                    &&& (layouts@[k].start_address - segment.address) % 4 == 0
                    &&& layouts@[k].start_address < layouts@[k].end_address
                },
            forall|k: int|
                0 <= k < i ==> #[trigger] layouts@[k].end_address <= segment.address
                    + segment.size,
            forall|k: int|
                0 <= k < i ==> block_matches(#[trigger] blocks@[k], layouts@[k], *segment),
        decreases layouts.len() - i,
    {
        let layout = layouts[i];
        if layout.end_address > segment.address + segment.size {
            return Err(layout.start_address);
        }
        let instructions = block_instructions(segment, layout.start_address, layout.end_address);
        blocks.push(
            Block {
                fallthrough_block_index: layout.fallthrough_block_index,
                instructions,
                jump_block_index: layout.jump_block_index,
                start_address: layout.start_address,
                tail_call_routine_index: layout.tail_call_routine_index,
            },
        );
        i = i + 1;
    }
    Ok(blocks)
}

/// What analysing the routine at `routine_address` in `segment`, ending at
/// `routine_end_address`, gives: an error for a routine off the instruction grid or
/// past the segment's last instruction, the source and target of a jump to an unknown
/// address, a block start no block end follows (the lowest), a block that runs past
/// the segment, or a block nothing enters; otherwise the routine its scan and block
/// layout describe, named `name`.
pub open spec fn routine_outcome(
    segment: CodeSegment,
    routine_address: u64,
    routine_end_address: u64,
    routine_addresses: Seq<u64>,
    stack_pointer: u32,
    name: Option<Seq<char>>,
    r: Result<Routine, AnalysisError>,
) -> bool {
    &&& (routine_address - segment.address) % 4 != 0 ==> r == Err::<Routine, AnalysisError>(
        AnalysisError::UnalignedRoutine { routine_address },
    )
    &&& (routine_address - segment.address) % 4 == 0 && (routine_address - segment.address) / 4
        >= segment.instructions.len() ==> r == Err::<Routine, AnalysisError>(
        AnalysisError::NoInstructionAtRoutine { routine_address },
    )
    &&& (routine_address - segment.address) % 4 == 0 && (routine_address - segment.address) / 4
        < segment.instructions.len() ==> match routine_scan(
        segment,
        routine_address,
        routine_end_address,
        routine_addresses,
        stack_pointer,
    ) {
        Err((source_address, target_address)) => r == Err::<Routine, AnalysisError>(
            AnalysisError::UnknownJumpTarget { source_address, target_address },
        ),
        Ok(st) => {
            let starts = block_start_set(st.jumps, routine_address);
            let ends = block_ends(st.jumps, st.explicit_return, routine_end_address);
            match r {
                Ok(routine) => routine_built(
                    routine,
                    segment,
                    routine_address,
                    routine_end_address,
                    st,
                ) && name_view(routine.name) == name,
                Err(AnalysisError::NoBlockEnd { start_address }) => {
                    &&& starts.contains(start_address)
                    &&& !has_end_after(ends, start_address)
                    &&& forall|a: u64|
                        starts.contains(a) && a < start_address ==> has_end_after(ends, a)
                },
                Err(AnalysisError::BlockOutsideSegment { start_address }) => exists|
                    layouts: Seq<BlockLayout>,
                |
                    {
                        &&& blocks_laid_out(layouts, starts, ends)
                        &&& exists|i: int|
                            0 <= i < layouts.len() && (#[trigger] layouts[i]).start_address
                                == start_address && layouts[i].end_address > segment.address
                                + segment.size
                    },
                Err(AnalysisError::BlockNotEntered { routine_address: reported, block_index }) => {
                    &&& reported == routine_address
                    &&& exists|layouts: Seq<BlockLayout>|
                        #![trigger layouts_within(layouts, segment, routine_address, routine_end_address, st)]
                    {
                        &&& layouts_within(
                            layouts,
                            segment,
                            routine_address,
                            routine_end_address,
                            st,
                        )
                        &&& block_index < layouts.len()
                        &&& !block_entered(layouts, block_index as int)
                    }
                },
                Err(_) => false,
            }
        },
    }
}

/// Analyses the routine at `routine_address` in `segment`, which ends at
/// `routine_end_address` (the next routine or the segment's end): scans it, splits it
/// into blocks, checks that every block is entered, and collects its stack variables.
#[verifier::spinoff_prover]
pub fn analyze_routine(
    segment: &CodeSegment,
    routine_address: u64,
    routine_end_address: u64,
    routine_addresses: &[u64],
    name: Option<String>,
    stack_pointer: u32,
) -> (r: Result<Routine, AnalysisError>)
    requires
        segment_ok(*segment),
        segment.address <= routine_address < routine_end_address,
        routine_end_address <= segment.address + segment.size,
    ensures
        routine_outcome(
            *segment,
            routine_address,
            routine_end_address,
            routine_addresses@,
            stack_pointer,
            name_view(name),
            r,
        ),
{
    let offset = routine_address - segment.address;
    if offset % 4 != 0 {
        return Err(AnalysisError::UnalignedRoutine { routine_address });
    }
    let first_index_wide = offset / 4;
    if first_index_wide >= segment.instructions.len() as u64 {
        return Err(AnalysisError::NoInstructionAtRoutine { routine_address });
    }
    let first_index = first_index_wide as usize;
    let scan = match scan_routine(
        segment.instructions.as_slice(),
        first_index,
        routine_address,
        routine_end_address,
        routine_addresses,
        stack_pointer,
    ) {
        Ok(scan) => scan,
        Err(e) => {
            return Err(e);
        },
    };
    let ghost st = routine_scan(
        *segment,
        routine_address,
        routine_end_address,
        routine_addresses@,
        stack_pointer,
    )->Ok_0;
    proof {
        lemma_scan_jumps_in_routine(
            segment.instructions@,
            first_index as int,
            routine_address,
            routine_address,
            routine_end_address,
            routine_addresses@,
            stack_pointer,
            initial_scan_state(),
        );
    }
    let layouts = match lay_out_blocks(
        routine_address,
        routine_end_address,
        &scan.jumps,
        scan.explicit_return,
    ) {
        Ok(layouts) => layouts,
        Err(LayoutError::NoBlockEnd { start_address }) => {
            return Err(AnalysisError::NoBlockEnd { start_address });
        },
    };
    proof {
        assert forall|k: int| 0 <= k < layouts@.len() implies {
            &&& segment.address <= #[trigger] layouts@[k].start_address
            &&& (layouts@[k].start_address - segment.address) % 4 == 0
            &&& layouts@[k].start_address < layouts@[k].end_address
        } by {
            lemma_block_start_aligned(
                scan.jumps@,
                routine_address,
                routine_end_address,
                segment.address,
                layouts@,
                block_ends(scan.jumps@, scan.explicit_return, routine_end_address),
                k,
            );
        }
    }
    let blocks = match build_blocks(segment, &layouts) {
        Ok(blocks) => blocks,
        Err(start_address) => {
            return Err(AnalysisError::BlockOutsideSegment { start_address });
        },
    };
    proof {
        assert(st.jumps == scan.jumps@);
        assert(st.explicit_return == scan.explicit_return);
        assert(layouts_within(layouts@, *segment, routine_address, routine_end_address, st));
    }
    if let Some(block_index) = first_unentered_block(&layouts) {
        proof {
            assert({
                &&& layouts_within(layouts@, *segment, routine_address, routine_end_address, st)
                &&& block_index < layouts@.len()
                &&& !block_entered(layouts@, block_index as int)
            });
        }
        return Err(AnalysisError::BlockNotEntered { routine_address, block_index });
    }
    let variables = collect_variables(&scan.stack_accesses);
    Ok(
        Routine {
            address: routine_address,
            blocks,
            name,
            stack_size: scan.stack_entry_size,
            variables,
        },
    )
}

/// A function symbol: its address and name.
#[derive(Debug, Clone)]
pub struct FunctionSymbol {
    pub address: u64,
    pub name: String,
}

/// The index of the last symbol before index `k` at `address`.
pub open spec fn last_symbol_before(symbols: Seq<FunctionSymbol>, address: u64, k: int) -> Option<int>
    decreases k,
{
    if k <= 0 {
        None
    } else if symbols[k - 1].address == address {
        Some(k - 1)
    } else {
        last_symbol_before(symbols, address, k - 1)
    }
}

/// Whether a routine starts at `address`: the entry point (unless it is zero) or a
/// function symbol.
pub open spec fn is_routine_start(entry_address: u64, symbols: Seq<FunctionSymbol>, address: u64) -> bool {
    (address == entry_address && entry_address != 0) || last_symbol_before(
        symbols,
        address,
        symbols.len() as int,
    ) is Some
}

/// The name of the routine at `address`: that of the last function symbol there, if
/// any.
pub open spec fn routine_name_at(symbols: Seq<FunctionSymbol>, address: u64) -> Option<Seq<char>> {
    match last_symbol_before(symbols, address, symbols.len() as int) {
        Some(k) => Some(symbols[k].name@),
        None => None,
    }
}

/// The view of an optional name.
pub open spec fn name_view(name: Option<String>) -> Option<Seq<char>> {
    match name {
        Some(n) => Some(n@),
        None => None,
    }
}

proof fn lemma_last_symbol_found(symbols: Seq<FunctionSymbol>, address: u64, k: int)
    requires
        0 <= k <= symbols.len(),
    ensures
        last_symbol_before(symbols, address, k) matches Some(j) ==> 0 <= j < k && symbols[j].address
            == address,
        last_symbol_before(symbols, address, k) is None ==> forall|j: int|
            0 <= j < k ==> symbols[j].address != address,
    decreases k,
{
    if k > 0 {
        lemma_last_symbol_found(symbols, address, k - 1);
    }
}

fn clone_name(name: &String) -> (r: String)
    ensures
        r@ == name@,
{
    name.clone()
}

/// The routines of a program, by increasing address, with their names.
#[verifier::spinoff_prover]
fn routine_table(entry_address: u64, symbols: &Vec<FunctionSymbol>) -> (r: (Vec<u64>, Vec<Option<String>>))
    ensures
        strictly_increasing(r.0@),
        r.0@.to_set() == Set::new(|a: u64| is_routine_start(entry_address, symbols@, a)),
        r.1.len() == r.0.len(),
        forall|i: int|
            0 <= i < r.0.len() ==> name_view(#[trigger] r.1@[i]) == routine_name_at(
                symbols@,
                r.0@[i],
            ),
{
    let mut addresses: Vec<u64> = Vec::new();
    let mut names: Vec<Option<String>> = Vec::new();
    if entry_address != 0 {
        addresses.push(entry_address);
        names.push(None);
    }
    proof {
        assert forall|a: u64|
            addresses@.to_set().contains(a) <==> ((a == entry_address && entry_address != 0)
                || last_symbol_before(symbols@, a, 0) is Some) by {
            if entry_address != 0 && a == entry_address {
                assert(addresses@[0] == a);
            }
        }
        assert(addresses@.to_set() =~= Set::new(
            |a: u64|
                (a == entry_address && entry_address != 0) || last_symbol_before(symbols@, a, 0)
                    is Some,
        ));
    }
    let mut k: usize = 0;
    while k < symbols.len()
        invariant
            k <= symbols.len(),
            strictly_increasing(addresses@),
            names.len() == addresses.len(),
            addresses@.to_set() == Set::new(
                |a: u64|
                    (a == entry_address && entry_address != 0) || last_symbol_before(
                        symbols@,
                        a,
                        k as int,
                    ) is Some,
            ),
            forall|i: int|
                0 <= i < addresses.len() ==> name_view(#[trigger] names@[i]) == match last_symbol_before(
                    symbols@,
                    addresses@[i],
                    k as int,
                ) {
                    Some(j) => Some(symbols@[j].name@),
                    None => None::<Seq<char>>,
                },
        decreases symbols.len() - k,
    {
        let address = symbols[k].address;
        let name = Some(clone_name(&symbols[k].name));
        let ghost before_addresses = addresses@;
        let ghost before_names = names@;
        let mut p: usize = 0;
        while p < addresses.len() && addresses[p] < address
            invariant
                p <= addresses.len(),
                addresses@ == before_addresses,
                forall|q: int| 0 <= q < p ==> addresses@[q] < address,
            decreases addresses.len() - p,
        {
            p = p + 1;
        }
        if p < addresses.len() && addresses[p] == address {
            names.set(p, name);
            proof {
                assert forall|i: int| 0 <= i < addresses.len() implies name_view(
                    #[trigger] names@[i],
                ) == match last_symbol_before(symbols@, addresses@[i], k + 1) {
                    Some(j) => Some(symbols@[j].name@),
                    None => None::<Seq<char>>,
                } by {
                    if i != p {
                        assert(addresses@[i] != address) by {
                            if i < p {
                            } else {
                                assert(addresses@[p as int] < addresses@[i]);
                            }
                        }
                    }
                }
                assert(addresses@.to_set() =~= Set::new(
                    |a: u64|
                        (a == entry_address && entry_address != 0) || last_symbol_before(
                            symbols@,
                            a,
                            k + 1,
                        ) is Some,
                )) by {
                    assert forall|a: u64|
                        last_symbol_before(symbols@, a, k + 1) is Some && a
                            != address implies last_symbol_before(symbols@, a, k as int) is Some by {
                    }
                    assert(addresses@.contains(address));
                }
            }
        } else {
            addresses.insert(p, address);
            names.insert(p, name);
            proof {
                assert(addresses@ =~= before_addresses.take(p as int).push(address) + before_addresses.skip(p as int));
                assert(names@ =~= before_names.take(p as int).push(name) + before_names.skip(p as int));
                assert forall|i: int, j: int|
                    0 <= i < j < addresses@.len() implies addresses@[i] < addresses@[j] by {
                    if j < p {
                    } else if j == p {
                    } else if i < p {
                    } else if i == p {
                    }
                }
                assert(!before_addresses.contains(address)) by {
                    if before_addresses.contains(address) {
                        let q = choose|q: int| 0 <= q < before_addresses.len() && before_addresses[q] == address;
                        if q < p {
                        } else {
                            assert(before_addresses[p as int] <= before_addresses[q]);
                        }
                    }
                }
                assert forall|i: int| 0 <= i < addresses.len() implies name_view(
                    #[trigger] names@[i],
                ) == match last_symbol_before(symbols@, addresses@[i], k + 1) {
                    Some(j) => Some(symbols@[j].name@),
                    None => None::<Seq<char>>,
                } by {
                    if i < p {
                        assert(names@[i] == before_names[i]);
                        assert(addresses@[i] == before_addresses[i]);
                    } else if i > p {
                        assert(names@[i] == before_names[i - 1]);
                        assert(addresses@[i] == before_addresses[i - 1]);
                    }
                }
                assert(addresses@.to_set() =~= Set::new(
                    |a: u64|
                        (a == entry_address && entry_address != 0) || last_symbol_before(
                            symbols@,
                            a,
                            k + 1,
                        ) is Some,
                )) by {
                    assert forall|a: u64|
                        addresses@.to_set().contains(a) <==> before_addresses.to_set().insert(
                            address,
                        ).contains(a) by {
                        if addresses@.contains(a) {
                            let q = choose|q: int| 0 <= q < addresses@.len() && addresses@[q] == a;
                            if q < p {
                                assert(before_addresses[q] == a);
                            } else if q > p {
                                assert(before_addresses[q - 1] == a);
                            }
                        }
                        if before_addresses.contains(a) {
                            let q = choose|q: int| 0 <= q < before_addresses.len() && before_addresses[q] == a;
                            if q < p {
                                assert(addresses@[q] == a);
                            } else {
                                assert(addresses@[q + 1] == a);
                            }
                        }
                        if a == address {
                            assert(addresses@[p as int] == a);
                        }
                    }
                }
            }
        }
        k = k + 1;
    }
    (addresses, names)
}

/// Two strictly increasing sequences with the same elements are equal.
pub proof fn lemma_strictly_increasing_unique(s1: Seq<u64>, s2: Seq<u64>)
    requires
        strictly_increasing(s1),
        strictly_increasing(s2),
        s1.to_set() == s2.to_set(),
    ensures
        s1 == s2,
    decreases s1.len(),
{
    if s1.len() == 0 {
        if s2.len() > 0 {
            assert(s2.to_set().contains(s2[0]));
        }
    } else if s2.len() == 0 {
        assert(s1.to_set().contains(s1[0]));
    } else {
        assert(s1.to_set().contains(s1[0]));
        assert(s2.to_set().contains(s2[0]));
        let k1 = choose|k: int| 0 <= k < s2.len() && s2[k] == s1[0];
        let k2 = choose|k: int| 0 <= k < s1.len() && s1[k] == s2[0];
        assert(s1[0] == s2[0]) by {
            if k1 > 0 {
                assert(s2[0] < s2[k1]);
            }
            if k2 > 0 {
                assert(s1[0] < s1[k2]);
            }
        }
        let t1 = s1.drop_first();
        let t2 = s2.drop_first();
        assert forall|x: u64| t1.to_set().contains(x) implies t2.to_set().contains(x) by {
            let k = choose|k: int| 0 <= k < t1.len() && t1[k] == x;
            assert(s1[k + 1] == x);
            assert(s1.to_set().contains(x));
            let m = choose|m: int| 0 <= m < s2.len() && s2[m] == x;
            if m == 0 {
                assert(s1[0] < s1[k + 1]);
            }
            assert(t2[m - 1] == x);
        }
        assert forall|x: u64| t2.to_set().contains(x) implies t1.to_set().contains(x) by {
            let k = choose|k: int| 0 <= k < t2.len() && t2[k] == x;
            assert(s2[k + 1] == x);
            assert(s2.to_set().contains(x));
            let m = choose|m: int| 0 <= m < s1.len() && s1[m] == x;
            if m == 0 {
                assert(s2[0] < s2[k + 1]);
            }
            assert(t1[m - 1] == x);
        }
        assert(t1.to_set() =~= t2.to_set());
        lemma_strictly_increasing_unique(t1, t2);
        assert(s1 =~= seq![s1[0]] + t1);
        assert(s2 =~= seq![s2[0]] + t2);
    }
}

/// The addresses where the program's routines start.
pub open spec fn routine_start_set(entry_address: u64, symbols: Seq<FunctionSymbol>) -> Set<u64> {
    Set::new(|a: u64| is_routine_start(entry_address, symbols, a))
}

/// The routine start addresses in increasing order.
pub open spec fn sorted_routine_addresses(entry_address: u64, symbols: Seq<FunctionSymbol>) -> Seq<u64> {
    choose|s: Seq<u64>|
        strictly_increasing(s) && s.to_set() == routine_start_set(entry_address, symbols)
}

/// The index of the first segment that contains `address`, looking from `from` on.
pub open spec fn segment_index_from(segments: Seq<CodeSegment>, address: u64, from: int) -> Option<int>
    decreases segments.len() - from,
{
    if from < 0 || from >= segments.len() {
        None
    } else if segments[from].address <= address < segments[from].address + segments[from].size {
        Some(from)
    } else {
        segment_index_from(segments, address, from + 1)
    }
}

/// Where the routine at `addresses[i]` in `segment` ends: at the next routine, or at the
/// end of its segment if that comes first.
pub open spec fn routine_end(addresses: Seq<u64>, i: int, segment: CodeSegment) -> u64 {
    let next: u64 = if i + 1 < addresses.len() {
        addresses[i + 1]
    } else {
        u64::MAX
    };
    let segment_end = (segment.address + segment.size) as u64;
    if next < segment_end {
        next
    } else {
        segment_end
    }
}

/// Whether analysing the routine at `addresses[i]` gives `r`: its segment is the first
/// that contains it, and `routine_outcome` describes `r`.
pub open spec fn routine_result(
    segments: Seq<CodeSegment>,
    addresses: Seq<u64>,
    i: int,
    names: Seq<FunctionSymbol>,
    stack_pointer: u32,
    r: Result<Routine, AnalysisError>,
) -> bool {
    match segment_index_from(segments, addresses[i], 0) {
        None => r == Err::<Routine, AnalysisError>(
            AnalysisError::RoutineOutsideSegments { routine_address: addresses[i] },
        ),
        Some(k) => routine_outcome(
            segments[k],
            addresses[i],
            routine_end(addresses, i, segments[k]),
            addresses,
            stack_pointer,
            routine_name_at(names, addresses[i]),
            r,
        ),
    }
}

/// Whether the routine at `addresses[i]` can be analysed.
pub open spec fn routine_succeeds(
    segments: Seq<CodeSegment>,
    addresses: Seq<u64>,
    i: int,
    names: Seq<FunctionSymbol>,
    stack_pointer: u32,
) -> bool {
    exists|routine: Routine|
        routine_result(segments, addresses, i, names, stack_pointer, Ok(routine))
}

/// An address read as a signed number, as the routines are ordered by.
pub open spec fn signed_address(a: u64) -> int {
    if a < 0x8000_0000_0000_0000 {
        a as int
    } else {
        a - 0x1_0000_0000_0000_0000
    }
}

/// The result of analysing a program.
#[derive(Debug)]
pub struct Analysis {
    pub entry_routine_index: Option<usize>,
    pub routines: Vec<Routine>,
}

proof fn lemma_segment_index_in_range(segments: Seq<CodeSegment>, address: u64, from: int)
    requires
        0 <= from,
    ensures
        segment_index_from(segments, address, from) matches Some(k) ==> from <= k < segments.len()
            && segments[k].address <= address < segments[k].address + segments[k].size,
    decreases segments.len() - from,
{
    if from < segments.len() {
        lemma_segment_index_in_range(segments, address, from + 1);
    }
}

fn find_segment(segments: &Vec<CodeSegment>, address: u64) -> (r: Option<usize>)
    requires
        forall|k: int| 0 <= k < segments.len() ==> segment_ok(#[trigger] segments@[k]),
    ensures
        r == match segment_index_from(segments@, address, 0) {
            Some(k) => Some(k as usize),
            None => None::<usize>,
        },
{
    let mut k: usize = 0;
    while k < segments.len()
        invariant
            k <= segments.len(),
            forall|m: int| 0 <= m < segments.len() ==> segment_ok(#[trigger] segments@[m]),
            segment_index_from(segments@, address, 0) == segment_index_from(segments@, address, k as int),
        decreases segments.len() - k,
    {
        let segment = &segments[k];
        assert(segment_ok(segments@[k as int]));
        if segment.address <= address && address < segment.address + segment.size {
            return Some(k);
        }
        k = k + 1;
    }
    None
}

/// Whether `routine` is the analysed routine at one of `addresses`.
pub open spec fn is_analysed_routine(
    segments: Seq<CodeSegment>,
    addresses: Seq<u64>,
    names: Seq<FunctionSymbol>,
    stack_pointer: u32,
    routine: Routine,
) -> bool {
    exists|i: int|
        0 <= i < addresses.len() && addresses[i] == routine.address && #[trigger] routine_result(
            segments,
            addresses,
            i,
            names,
            stack_pointer,
            Ok(routine),
        )
}

/// Analyses every routine of a program, by increasing address; `Err` holds the first
/// failure.
#[verifier::spinoff_prover]
fn analyze_routines(
    addresses: &Vec<u64>,
    names: &Vec<Option<String>>,
    symbols: &Vec<FunctionSymbol>,
    segments: &Vec<CodeSegment>,
    stack_pointer: u32,
) -> (r: Result<Vec<Routine>, AnalysisError>)
    requires
        forall|k: int| 0 <= k < segments.len() ==> segment_ok(#[trigger] segments@[k]),
        strictly_increasing(addresses@),
        names.len() == addresses.len(),
        forall|i: int|
            0 <= i < addresses.len() ==> name_view(#[trigger] names@[i]) == routine_name_at(
                symbols@,
                addresses@[i],
            ),
    ensures
        match r {
            Ok(routines) => {
                &&& routines.len() == addresses.len()
                &&& forall|i: int|
                    0 <= i < addresses.len() ==> {
                        &&& #[trigger] routines@[i].address == addresses@[i]
                        &&& routine_result(
                            segments@,
                            addresses@,
                            i,
                            symbols@,
                            stack_pointer,
                            Ok(routines@[i]),
                        )
                    }
            },
            Err(e) => exists|i: int|
                0 <= i < addresses.len() && #[trigger] routine_result(
                    segments@,
                    addresses@,
                    i,
                    symbols@,
                    stack_pointer,
                    Err(e),
                ) && forall|j: int|
                    0 <= j < i ==> routine_succeeds(segments@, addresses@, j, symbols@, stack_pointer),
        },
{
    let mut routines: Vec<Routine> = Vec::new();
    let mut i: usize = 0;
    while i < addresses.len()
        invariant
            forall|k: int| 0 <= k < segments.len() ==> segment_ok(#[trigger] segments@[k]),
            strictly_increasing(addresses@),
            names.len() == addresses.len(),
            forall|j: int|
                0 <= j < addresses.len() ==> name_view(#[trigger] names@[j]) == routine_name_at(
                    symbols@,
                    addresses@[j],
                ),
            i <= addresses.len(),
            routines.len() == i,
            forall|j: int|
                0 <= j < i ==> {
                    &&& #[trigger] routines@[j].address == addresses@[j]
                    &&& routine_result(
                        segments@,
                        addresses@,
                        j,
                        symbols@,
                        stack_pointer,
                        Ok(routines@[j]),
                    )
                },
        decreases addresses.len() - i,
    {
        let address = addresses[i];
        proof {
            assert forall|j: int| 0 <= j < i implies routine_succeeds(
                segments@,
                addresses@,
                j,
                symbols@,
                stack_pointer,
            ) by {
                assert(routines@[j].address == addresses@[j]);
                assert(routine_result(
                    segments@,
                    addresses@,
                    j,
                    symbols@,
                    stack_pointer,
                    Ok(routines@[j]),
                ));
            }
            lemma_segment_index_in_range(segments@, address, 0);
        }
        let k = match find_segment(segments, address) {
            Some(k) => k,
            None => {
                proof {
                    assert(routine_result(
                        segments@,
                        addresses@,
                        i as int,
                        symbols@,
                        stack_pointer,
                        Err(AnalysisError::RoutineOutsideSegments { routine_address: address }),
                    ));
                }
                return Err(AnalysisError::RoutineOutsideSegments { routine_address: address });
            },
        };
        let segment = &segments[k];
        assert(segment_ok(segments@[k as int]));
        let segment_end = segment.address + segment.size;
        let next = if i + 1 < addresses.len() {
            addresses[i + 1]
        } else {
            u64::MAX
        };
        let end = if next < segment_end {
            next
        } else {
            segment_end
        };
        if i + 1 < addresses.len() {
            assert(addresses@[i as int] < addresses@[i + 1]);
        }
        let name = match &names[i] {
            Some(n) => Some(clone_name(n)),
            None => None,
        };
        assert(name_view(name) == name_view(names@[i as int]));
        let result = analyze_routine(segment, address, end, addresses.as_slice(), name, stack_pointer);
        assert(routine_result(segments@, addresses@, i as int, symbols@, stack_pointer, result));
        let ghost before = routines@;
        match result {
            Ok(routine) => {
                routines.push(routine);
                proof {
                    assert forall|j: int| 0 <= j < i + 1 implies {
                        &&& #[trigger] routines@[j].address == addresses@[j]
                        &&& routine_result(
                            segments@,
                            addresses@,
                            j,
                            symbols@,
                            stack_pointer,
                            Ok(routines@[j]),
                        )
                    } by {
                        if j < i {
                            assert(routines@[j] == before[j]);
                            assert(before[j].address == addresses@[j]);
                        }
                    }
                }
            },
            Err(e) => {
                return Err(e);
            },
        }
        i = i + 1;
    }
    Ok(routines)
}

/// Orders analysed routines by decreasing signed address.
#[verifier::spinoff_prover]
fn order_routines(
    routines: Vec<Routine>,
    addresses: &Vec<u64>,
    symbols: &Vec<FunctionSymbol>,
    segments: &Vec<CodeSegment>,
    stack_pointer: u32,
) -> (r: Vec<Routine>)
    requires
        strictly_increasing(addresses@),
        routines.len() == addresses.len(),
        forall|i: int| 0 <= i < addresses.len() ==> addresses@[i] != 0x8000_0000_0000_0000u64,
        forall|i: int|
            0 <= i < addresses.len() ==> {
                &&& #[trigger] routines@[i].address == addresses@[i]
                &&& routine_result(
                    segments@,
                    addresses@,
                    i,
                    symbols@,
                    stack_pointer,
                    Ok(routines@[i]),
                )
            },
    ensures
        r.len() == addresses.len(),
        forall|p: int|
            0 <= p < r.len() ==> is_analysed_routine(
                segments@,
                addresses@,
                symbols@,
                stack_pointer,
                #[trigger] r@[p],
            ),
        forall|p: int, q: int|
            0 <= p < q < r.len() ==> signed_address(r@[p].address) > signed_address(
                r@[q].address,
            ),
{
    let mut ascending = routines;
    let mut low: Vec<Routine> = Vec::new();
    let mut high: Vec<Routine> = Vec::new();
    while ascending.len() > 0
        invariant
            strictly_increasing(addresses@),
            forall|i: int| 0 <= i < addresses.len() ==> addresses@[i] != 0x8000_0000_0000_0000u64,
            ascending.len() <= addresses.len(),
            low.len() + high.len() + ascending.len() == addresses.len(),
            forall|i: int|
                0 <= i < ascending.len() ==> {
                    &&& #[trigger] ascending@[i].address == addresses@[i]
                    &&& routine_result(
                        segments@,
                        addresses@,
                        i,
                        symbols@,
                        stack_pointer,
                        Ok(ascending@[i]),
                    )
                },
            forall|x: int|
                0 <= x < low.len() ==> {
                    &&& is_analysed_routine(segments@, addresses@, symbols@, stack_pointer, #[trigger] low@[x])
                    &&& low@[x].address < 0x8000_0000_0000_0000u64
                    &&& forall|j: int| 0 <= j < ascending.len() ==> low@[x].address > addresses@[j]
                },
            forall|x: int|
                0 <= x < high.len() ==> {
                    &&& is_analysed_routine(segments@, addresses@, symbols@, stack_pointer, #[trigger] high@[x])
                    &&& high@[x].address > 0x8000_0000_0000_0000u64
                    &&& forall|j: int| 0 <= j < ascending.len() ==> high@[x].address > addresses@[j]
                },
            forall|x: int, y: int| 0 <= x < y < low.len() ==> low@[x].address > low@[y].address,
            forall|x: int, y: int| 0 <= x < y < high.len() ==> high@[x].address > high@[y].address,
        decreases ascending.len(),
    {
        let ghost last = (ascending.len() - 1) as int;
        let ghost before = ascending@;
        proof {
            assert(ascending@[last].address == addresses@[last]);
        }
        let routine = ascending.pop().unwrap();
        proof {
            assert(routine_result(segments@, addresses@, last, symbols@, stack_pointer, Ok(routine)));
            assert(is_analysed_routine(segments@, addresses@, symbols@, stack_pointer, routine));
            assert forall|j: int| 0 <= j < ascending.len() implies routine.address > addresses@[j] by {
                assert(addresses@[j] < addresses@[last]);
            }
            assert forall|i: int| 0 <= i < ascending.len() implies {
                &&& #[trigger] ascending@[i].address == addresses@[i]
                &&& routine_result(segments@, addresses@, i, symbols@, stack_pointer, Ok(ascending@[i]))
            } by {
                assert(ascending@[i] == before[i]);
                assert(before[i].address == addresses@[i]);
            }
        }
        if routine.address < 0x8000_0000_0000_0000u64 {
            low.push(routine);
        } else {
            high.push(routine);
        }
    }
    let ghost low_part = low@;
    let ghost high_part = high@;
    low.append(&mut high);
    proof {
        assert(low@ =~= low_part + high_part);
        assert forall|p: int| 0 <= p < low.len() implies is_analysed_routine(
            segments@,
            addresses@,
            symbols@,
            stack_pointer,
            #[trigger] low@[p],
        ) by {
            if p >= low_part.len() {
                assert(low@[p] == high_part[p - low_part.len()]);
            }
        }
        assert forall|p: int, q: int| 0 <= p < q < low.len() implies signed_address(
            low@[p].address,
        ) > signed_address(low@[q].address) by {
            if q < low_part.len() {
                assert(low_part[p].address > low_part[q].address);
            } else if p < low_part.len() {
                assert(low@[q] == high_part[q - low_part.len()]);
            } else {
                assert(low@[p] == high_part[p - low_part.len()]);
                assert(low@[q] == high_part[q - low_part.len()]);
            }
        }
    }
    low
}

/// What analysing a program gives: the routines at its routine starts, analysed by
/// increasing address, ordered by decreasing signed address, with the index of the
/// entry routine; or the first failure, by increasing address, or `UnorderableRoutine`
/// where a routine starts at `2^63`.
pub open spec fn program_outcome(
    entry_address: u64,
    symbols: Seq<FunctionSymbol>,
    segments: Seq<CodeSegment>,
    stack_pointer: u32,
    r: Result<Analysis, AnalysisError>,
) -> bool {
    let addresses = sorted_routine_addresses(entry_address, symbols);
    match r {
        Ok(analysis) => {
            &&& analysis.routines.len() == addresses.len()
            &&& forall|p: int|
                0 <= p < analysis.routines.len() ==> is_analysed_routine(
                    segments,
                    addresses,
                    symbols,
                    stack_pointer,
                    #[trigger] analysis.routines@[p],
                )
            &&& forall|p: int, q: int|
                0 <= p < q < analysis.routines.len() ==> signed_address(
                    analysis.routines@[p].address,
                ) > signed_address(analysis.routines@[q].address)
            &&& match analysis.entry_routine_index {
                Some(p) => p < analysis.routines.len() && analysis.routines@[p as int].address
                    == entry_address,
                None => forall|p: int|
                    0 <= p < analysis.routines.len() ==> analysis.routines@[p].address
                        != entry_address,
            }
        },
        Err(AnalysisError::UnorderableRoutine { routine_address }) => {
            &&& routine_address == 0x8000_0000_0000_0000u64
            &&& routine_start_set(entry_address, symbols).contains(routine_address)
            &&& forall|i: int|
                0 <= i < addresses.len() ==> routine_succeeds(
                    segments,
                    addresses,
                    i,
                    symbols,
                    stack_pointer,
                )
        },
        Err(e) => exists|i: int|
            0 <= i < addresses.len() && #[trigger] routine_result(
                segments,
                addresses,
                i,
                symbols,
                stack_pointer,
                Err(e),
            ) && forall|j: int|
                0 <= j < i ==> routine_succeeds(
                    segments,
                    addresses,
                    j,
                    symbols,
                    stack_pointer,
                ),
    }
}

/// Analyses a program: its routines start at its entry point (unless that is zero) and
/// at its function symbols, each ending at the next routine or at the end of its
/// segment; they are analysed by increasing address, and come out by decreasing signed
/// address, with the index of the entry routine.
#[verifier::spinoff_prover]
pub fn analyze_program(
    entry_address: u64,
    symbols: &Vec<FunctionSymbol>,
    segments: &Vec<CodeSegment>,
    stack_pointer: u32,
) -> (r: Result<Analysis, AnalysisError>)
    requires
        forall|k: int| 0 <= k < segments.len() ==> segment_ok(#[trigger] segments@[k]),
    ensures
        program_outcome(entry_address, symbols@, segments@, stack_pointer, r),
{
    let (addresses, names) = routine_table(entry_address, symbols);
    proof {
        let sorted = sorted_routine_addresses(entry_address, symbols@);
        assert(strictly_increasing(addresses@) && addresses@.to_set() == routine_start_set(
            entry_address,
            symbols@,
        ));
        lemma_strictly_increasing_unique(addresses@, sorted);
    }
    let routines = match analyze_routines(&addresses, &names, symbols, segments, stack_pointer) {
        Ok(routines) => routines,
        Err(e) => {
            return Err(e);
        },
    };
    let mut i: usize = 0;
    while i < addresses.len()
        invariant
            i <= addresses.len(),
            forall|j: int| 0 <= j < i ==> addresses@[j] != 0x8000_0000_0000_0000u64,
            addresses@ == sorted_routine_addresses(entry_address, symbols@),
            addresses@.to_set() == routine_start_set(entry_address, symbols@),
            routines.len() == addresses.len(),
            forall|j: int|
                0 <= j < addresses.len() ==> {
                    &&& #[trigger] routines@[j].address == addresses@[j]
                    &&& routine_result(
                        segments@,
                        addresses@,
                        j,
                        symbols@,
                        stack_pointer,
                        Ok(routines@[j]),
                    )
                },
        decreases addresses.len() - i,
    {
        if addresses[i] == 0x8000_0000_0000_0000u64 {
            proof {
                assert(addresses@.to_set().contains(addresses@[i as int]));
                assert forall|k: int| 0 <= k < addresses.len() implies routine_succeeds(
                    segments@,
                    addresses@,
                    k,
                    symbols@,
                    stack_pointer,
                ) by {
                    assert(routines@[k].address == addresses@[k]);
                    assert(routine_result(
                        segments@,
                        addresses@,
                        k,
                        symbols@,
                        stack_pointer,
                        Ok(routines@[k]),
                    ));
                }
            }
            return Err(AnalysisError::UnorderableRoutine { routine_address: addresses[i] });
        }
        i = i + 1;
    }
    let ordered = order_routines(routines, &addresses, symbols, segments, stack_pointer);
    let ghost sorted = sorted_routine_addresses(entry_address, symbols@);
    assert(addresses@ == sorted);
    let mut entry_routine_index: Option<usize> = None;
    let mut p: usize = 0;
    while p < ordered.len()
        invariant_except_break
            entry_routine_index is None,
        invariant
            p <= ordered.len(),
            forall|q: int| 0 <= q < p ==> ordered@[q].address != entry_address,
        ensures
            match entry_routine_index {
                Some(e) => e < ordered.len() && ordered@[e as int].address == entry_address,
                None => forall|q: int| 0 <= q < ordered.len() ==> ordered@[q].address != entry_address,
            },
        decreases ordered.len() - p,
    {
        if ordered[p].address == entry_address {
            entry_routine_index = Some(p);
            break;
        }
        p = p + 1;
    }
    Ok(Analysis { entry_routine_index, routines: ordered })
}

/// A block that ends with a tail call neither falls through nor jumps, and a block never
/// jumps to the block it falls through to.
pub proof fn lemma_block_exits(starts: Seq<u64>, start: u64, end: (u64, BlockEndKind))
    ensures
        layout_of(starts, start, end).tail_call_routine_index is Some ==> {
            &&& layout_of(starts, start, end).fallthrough_block_index is None
            &&& layout_of(starts, start, end).jump_block_index is None
        },
        layout_of(starts, start, end).jump_block_index is Some ==> layout_of(
            starts,
            start,
            end,
        ).jump_block_index != layout_of(starts, start, end).fallthrough_block_index,
{
}

proof fn lemma_index_of_from_found(s: Seq<u64>, x: u64, from: int)
    requires
        0 <= from,
        s.len() <= usize::MAX,
    ensures
        index_of_from(s, x, from) matches Some(i) ==> from <= i < s.len() && s[i as int] == x,
        index_of_from(s, x, from) is None ==> forall|i: int| from <= i < s.len() ==> s[i] != x,
    decreases s.len() - from,
{
    if from < s.len() {
        lemma_index_of_from_found(s, x, from + 1);
    }
}

/// The blocks of a routine are determined by its block starts and block ends: two
/// lay-outs of the same routine are equal.
pub proof fn lemma_layout_unique(
    blocks1: Seq<BlockLayout>,
    blocks2: Seq<BlockLayout>,
    starts: Set<u64>,
    ends: Seq<(u64, BlockEndKind)>,
)
    requires
        blocks_laid_out(blocks1, starts, ends),
        blocks_laid_out(blocks2, starts, ends),
    ensures
        blocks1 == blocks2,
{
    let s1 = block_start_addresses(blocks1);
    let s2 = block_start_addresses(blocks2);
    lemma_strictly_increasing_unique(s1, s2);
    assert(blocks1.len() == s1.len());
    assert(blocks2.len() == s2.len());
    assert forall|i: int| 0 <= i < blocks1.len() implies blocks1[i] == blocks2[i] by {
        assert(s1[i] == s2[i]);
        let j1 = choose|j: int|
            is_block_end(ends, blocks1[i].start_address, j) && #[trigger] blocks1[i] == layout_of(
                s1,
                blocks1[i].start_address,
                ends[j],
            );
        let j2 = choose|j: int|
            is_block_end(ends, blocks2[i].start_address, j) && #[trigger] blocks2[i] == layout_of(
                s2,
                blocks2[i].start_address,
                ends[j],
            );
        if j1 < j2 {
            assert(end_before(ends[j2], ends[j1]));
        } else if j2 < j1 {
            assert(end_before(ends[j1], ends[j2]));
        }
    }
    assert(blocks1 =~= blocks2);
}

/// In the blocks of a scanned routine, the first block starts at the routine's address,
/// and every block a block falls through or jumps to exists.
pub proof fn lemma_layout_well_formed(
    blocks: Seq<BlockLayout>,
    jumps: Seq<Jump>,
    routine_address: u64,
    routine_end_address: u64,
    explicit_return: Option<u64>,
)
    requires
        blocks.len() <= usize::MAX,
        jumps_in_routine(jumps, routine_address, routine_end_address),
        blocks_laid_out(
            blocks,
            block_start_set(jumps, routine_address),
            block_ends(jumps, explicit_return, routine_end_address),
        ),
    ensures
        blocks.len() > 0,
        blocks[0].start_address == routine_address,
        forall|i: int|
            0 <= i < blocks.len() ==> {
                &&& (#[trigger] blocks[i]).fallthrough_block_index matches Some(f) ==> f
                    < blocks.len()
                &&& blocks[i].jump_block_index matches Some(j) ==> j < blocks.len()
            },
{
    let starts = block_start_addresses(blocks);
    assert(block_start_set(jumps, routine_address).contains(routine_address));
    assert(starts.to_set().contains(routine_address));
    let k = choose|k: int| 0 <= k < starts.len() && starts[k] == routine_address;
    assert(blocks.len() > 0);
    assert(starts.to_set().contains(starts[0]));
    assert(is_block_start(jumps, routine_address, starts[0]));
    if starts[0] != routine_address {
        let m = choose|m: int|
            0 <= m < jumps.len() && {
                ||| (#[trigger] jumps[m]).tail_call_routine_index is None
                    && jumps[m].target_address == starts[0]
                ||| jumps[m].conditional && jumps[m].next_address == starts[0]
            };
        assert(jump_in_routine(jumps[m], routine_address, routine_end_address));
        if k > 0 {
            assert(starts[0] < starts[k]);
        }
    }
    assert forall|i: int| 0 <= i < blocks.len() implies {
        &&& (#[trigger] blocks[i]).fallthrough_block_index matches Some(f) ==> f < blocks.len()
        &&& blocks[i].jump_block_index matches Some(j) ==> j < blocks.len()
    } by {
        let ends = block_ends(jumps, explicit_return, routine_end_address);
        let j = choose|j: int|
            is_block_end(ends, blocks[i].start_address, j) && #[trigger] blocks[i] == layout_of(
                starts,
                blocks[i].start_address,
                ends[j],
            );
        lemma_index_of_from_found(starts, ends[j].0, 0);
        match ends[j].1 {
            BlockEndKind::JumpSource(jp) => lemma_index_of_from_found(starts, jp.target_address, 0),
            _ => {},
        }
    }
}

/// Whether some block of `blocks` falls through or jumps to block `i`.
pub open spec fn entered_from(blocks: Seq<Block>, i: int) -> bool {
    exists|k: int|
        0 <= k < blocks.len() && ((#[trigger] blocks[k]).fallthrough_block_index == Some(i as usize)
            || blocks[k].jump_block_index == Some(i as usize))
}

/// The blocks of a routine built from a scan whose jumps stay within the routine: there
/// is at least one, the first starts at the routine's address, their start addresses
/// increase, every block a block falls through or jumps to exists, no block jumps to the
/// block it falls through to, and every block but the first is entered from some block.
pub proof fn lemma_routine_blocks_well_formed(
    routine: Routine,
    segment: CodeSegment,
    routine_address: u64,
    routine_end_address: u64,
    st: ScanState,
)
    requires
        routine_built(routine, segment, routine_address, routine_end_address, st),
        jumps_in_routine(st.jumps, routine_address, routine_end_address),
    ensures
        routine.blocks.len() > 0,
        routine.blocks@[0].start_address == routine_address,
        forall|i: int, j: int|
            0 <= i < j < routine.blocks.len() ==> (#[trigger] routine.blocks@[i]).start_address
                < (#[trigger] routine.blocks@[j]).start_address,
        forall|i: int|
            0 <= i < routine.blocks.len() ==> {
                &&& (#[trigger] routine.blocks@[i]).fallthrough_block_index matches Some(f) ==> f
                    < routine.blocks.len()
                &&& routine.blocks@[i].jump_block_index matches Some(j) ==> j < routine.blocks.len()
                &&& routine.blocks@[i].jump_block_index is Some ==> routine.blocks@[i].jump_block_index
                    != routine.blocks@[i].fallthrough_block_index
                &&& routine.blocks@[i].tail_call_routine_index is Some ==> {
                    &&& routine.blocks@[i].fallthrough_block_index is None
                    &&& routine.blocks@[i].jump_block_index is None
                }
            },
        forall|i: int| 1 <= i < routine.blocks.len() ==> #[trigger] entered_from(routine.blocks@, i),
{
    let layouts = choose|layouts: Seq<BlockLayout>|
        {
            &&& layouts_within(layouts, segment, routine_address, routine_end_address, st)
            &&& layouts.len() == routine.blocks.len()
            &&& forall|i: int|
                0 <= i < layouts.len() ==> block_matches(
                    #[trigger] routine.blocks@[i],
                    layouts[i],
                    segment,
                )
            &&& forall|i: int| 0 <= i < layouts.len() ==> block_entered(layouts, i)
        };
    assert(layouts.len() <= usize::MAX);
    lemma_layout_well_formed(layouts, st.jumps, routine_address, routine_end_address, st.explicit_return);
    assert(block_matches(routine.blocks@[0], layouts[0], segment));
    let starts = block_start_addresses(layouts);
    let ends = block_ends(st.jumps, st.explicit_return, routine_end_address);
    assert forall|i: int, j: int|
        0 <= i < j < routine.blocks.len() implies (#[trigger] routine.blocks@[i]).start_address
            < (#[trigger] routine.blocks@[j]).start_address by {
        assert(block_matches(routine.blocks@[i], layouts[i], segment));
        assert(block_matches(routine.blocks@[j], layouts[j], segment));
        assert(starts[i] < starts[j]);
    }
    assert forall|i: int| 0 <= i < routine.blocks.len() implies {
        &&& (#[trigger] routine.blocks@[i]).fallthrough_block_index matches Some(f) ==> f
            < routine.blocks.len()
        &&& routine.blocks@[i].jump_block_index matches Some(j) ==> j < routine.blocks.len()
        &&& routine.blocks@[i].jump_block_index is Some ==> routine.blocks@[i].jump_block_index
            != routine.blocks@[i].fallthrough_block_index
        &&& routine.blocks@[i].tail_call_routine_index is Some ==> {
            &&& routine.blocks@[i].fallthrough_block_index is None
            &&& routine.blocks@[i].jump_block_index is None
        }
    } by {
        assert(block_matches(routine.blocks@[i], layouts[i], segment));
        let e = choose|e: int|
            is_block_end(ends, layouts[i].start_address, e) && #[trigger] layouts[i] == layout_of(
                starts,
                layouts[i].start_address,
                ends[e],
            );
        lemma_block_exits(starts, layouts[i].start_address, ends[e]);
    }
    assert forall|i: int| 1 <= i < routine.blocks.len() implies #[trigger] entered_from(routine.blocks@, i) by {
        assert(block_entered(layouts, i));
        let k = choose|k: int|
            0 <= k < layouts.len() && ((#[trigger] layouts[k]).fallthrough_block_index == Some(
                i as usize,
            ) || layouts[k].jump_block_index == Some(i as usize));
        assert(block_matches(routine.blocks@[k], layouts[k], segment));
    }
}

/// Whether the blocks of `routine` are well formed: at least one, the first at the
/// routine's address, at increasing addresses, every block a block falls through or
/// jumps to exists, no block jumps to the block it falls through to, a block that ends
/// with a tail call neither falls through nor jumps, and every block but the first is
/// entered from some block.
pub open spec fn blocks_well_formed(routine: Routine) -> bool {
    &&& routine.blocks.len() > 0
    &&& routine.blocks@[0].start_address == routine.address
    &&& forall|i: int, j: int|
        0 <= i < j < routine.blocks.len() ==> (#[trigger] routine.blocks@[i]).start_address
            < (#[trigger] routine.blocks@[j]).start_address
    &&& forall|i: int|
        0 <= i < routine.blocks.len() ==> {
            &&& (#[trigger] routine.blocks@[i]).fallthrough_block_index matches Some(f) ==> f
                < routine.blocks.len()
            &&& routine.blocks@[i].jump_block_index matches Some(j) ==> j < routine.blocks.len()
            &&& routine.blocks@[i].jump_block_index is Some ==> routine.blocks@[i].jump_block_index
                != routine.blocks@[i].fallthrough_block_index
            &&& routine.blocks@[i].tail_call_routine_index is Some ==> {
                &&& routine.blocks@[i].fallthrough_block_index is None
                &&& routine.blocks@[i].jump_block_index is None
            }
        }
    &&& forall|i: int| 1 <= i < routine.blocks.len() ==> #[trigger] entered_from(routine.blocks@, i)
}

/// Every routine of a successful analysis of a program has well-formed blocks.
pub proof fn lemma_analysis_blocks_well_formed(
    entry_address: u64,
    symbols: Seq<FunctionSymbol>,
    segments: Seq<CodeSegment>,
    stack_pointer: u32,
    analysis: Analysis,
)
    requires
        forall|k: int| 0 <= k < segments.len() ==> segment_ok(#[trigger] segments[k]),
        program_outcome(entry_address, symbols, segments, stack_pointer, Ok(analysis)),
    ensures
        forall|p: int|
            0 <= p < analysis.routines.len() ==> blocks_well_formed(#[trigger] analysis.routines@[p]),
{
    let addresses = sorted_routine_addresses(entry_address, symbols);
    assert forall|p: int| 0 <= p < analysis.routines.len() implies blocks_well_formed(
        #[trigger] analysis.routines@[p],
    ) by {
        let routine = analysis.routines@[p];
        assert(is_analysed_routine(segments, addresses, symbols, stack_pointer, routine));
        let i = choose|i: int|
            0 <= i < addresses.len() && addresses[i] == routine.address && #[trigger] routine_result(
                segments,
                addresses,
                i,
                symbols,
                stack_pointer,
                Ok(routine),
            );
        let k = segment_index_from(segments, addresses[i], 0)->0;
        lemma_segment_index_in_range(segments, addresses[i], 0);
        let segment = segments[k];
        let end = routine_end(addresses, i, segment);
        assert(segment_ok(segment));
        let st = routine_scan(segment, addresses[i], end, addresses, stack_pointer)->Ok_0;
        lemma_scan_jumps_in_routine(
            segment.instructions@,
            (addresses[i] - segment.address) / 4,
            addresses[i],
            addresses[i],
            end,
            addresses,
            stack_pointer,
            initial_scan_state(),
        );
        lemma_routine_blocks_well_formed(routine, segment, addresses[i], end, st);
    }
}

/// Every routine of a successful analysis of an ELF file has well-formed blocks.
pub proof fn lemma_elf_analysis_blocks_well_formed(data: Seq<u8>, analysis: Analysis)
    requires
        elf_analysis_outcome(data, Ok(analysis)),
    ensures
        forall|p: int|
            0 <= p < analysis.routines.len() ==> blocks_well_formed(#[trigger] analysis.routines@[p]),
{
    let (symbols, segments) = choose|symbols: Seq<FunctionSymbol>, segments: Seq<CodeSegment>|
        {
            &&& #[trigger] symbols_from(data, symbols)
            &&& #[trigger] segments_from(data, segments)
            &&& forall|k: int| 0 <= k < segments.len() ==> segment_ok(#[trigger] segments[k])
            &&& program_outcome(
                elf_entry(data)->0,
                symbols,
                segments,
                register_id(Register::SP),
                Ok(analysis),
            )
        };
    lemma_analysis_blocks_well_formed(
        elf_entry(data)->0,
        symbols,
        segments,
        register_id(Register::SP),
        analysis,
    );
}

/// Each stack variable is as large as the largest access at its offset: every access
/// fits in the variable at its offset, and every variable has the size of some access.
pub proof fn lemma_variables_largest(accesses: Seq<StackAccessRecord>)
    ensures
        forall|k: int|
            0 <= k < accesses.len() ==> {
                &&& variables_of(accesses).contains_key((#[trigger] accesses[k]).offset)
                &&& variables_of(accesses)[accesses[k].offset] >= accesses[k].size_bytes
            },
        forall|offset: i32|
            #[trigger] variables_of(accesses).contains_key(offset) ==> exists|k: int|
                0 <= k < accesses.len() && accesses[k].offset == offset && variables_of(
                    accesses,
                )[offset] == accesses[k].size_bytes,
    decreases accesses.len(),
{
    if accesses.len() > 0 {
        let rest = accesses.drop_last();
        lemma_variables_largest(rest);
        let last = accesses.last();
        let m = variables_of(rest);
        assert forall|k: int| 0 <= k < accesses.len() implies {
            &&& variables_of(accesses).contains_key((#[trigger] accesses[k]).offset)
            &&& variables_of(accesses)[accesses[k].offset] >= accesses[k].size_bytes
        } by {
            if k < accesses.len() - 1 {
                assert(accesses[k] == rest[k]);
            }
        }
        assert forall|offset: i32| #[trigger]
            variables_of(accesses).contains_key(offset) implies exists|k: int|
            0 <= k < accesses.len() && accesses[k].offset == offset && variables_of(accesses)[offset]
                == accesses[k].size_bytes by {
            if offset == last.offset {
                if m.contains_key(offset) && m[offset] > last.size_bytes {
                    let k = choose|k: int|
                        0 <= k < rest.len() && rest[k].offset == offset && m[offset]
                            == rest[k].size_bytes;
                    assert(accesses[k] == rest[k]);
                } else {
                    assert(accesses[accesses.len() - 1] == last);
                }
            } else {
                let k = choose|k: int|
                    0 <= k < rest.len() && rest[k].offset == offset && m[offset]
                        == rest[k].size_bytes;
                assert(accesses[k] == rest[k]);
            }
        }
    }
}

/// The symbol type of a function (`STT_FUNC`).
pub const STT_FUNC: u8 = 2;

/// The section flag of executable code (`SHF_EXECINSTR`).
pub const SHF_EXECINSTR: u64 = 4;

/// The program header type of a loadable segment (`PT_LOAD`).
pub const PT_LOAD: u32 = 1;

/// The program header flag of an executable segment (`PF_X`).
pub const PF_X: u32 = 1;

/// Why an ELF file could not be analysed.
#[derive(Debug)]
pub enum ElfAnalysisError {
    /// The `elf` crate could not parse a part of the file.
    Parse(ParseError),
    /// The file has no section headers.
    NoSectionHeaders,
    /// The file has no section name string table.
    NoSectionNameTable,
    /// An executable section holds a word the decoder does not accept.
    UndecodableSection { index: usize },
    /// The file has no program headers.
    NoSegments,
    /// An executable segment runs past the end of the file.
    SegmentOutsideFile { segment_address: u64 },
    /// An executable segment holds a word the decoder does not accept.
    UndecodableSegment { segment_address: u64 },
    /// An executable segment ends within four bytes of the top of the address space.
    SegmentTooHigh { segment_address: u64 },
    /// The program could not be analysed.
    Analysis(AnalysisError),
}

/// Whether a symbol entry is a function: its type, the low four bits of `st_info`, is
/// `STT_FUNC`.
pub open spec fn is_function_entry(e: SymbolEntry) -> bool {
    e.st_info % 16 == STT_FUNC
}

/// The function entries of a symbol table, in order.
pub open spec fn function_entries(entries: Seq<SymbolEntry>) -> Seq<SymbolEntry>
    decreases entries.len(),
{
    if entries.len() == 0 {
        Seq::empty()
    } else {
        function_entries(entries.drop_last()) + if is_function_entry(entries.last()) {
            seq![entries.last()]
        } else {
            Seq::empty()
        }
    }
}

/// Whether a program header describes executable code: a loadable segment with the
/// executable flag.
pub open spec fn is_code_entry(e: SegmentEntry) -> bool {
    e.p_type == PT_LOAD && e.p_flags % 2 == 1
}

/// The code segment entries of a program header table, in order.
pub open spec fn code_entries(entries: Seq<SegmentEntry>) -> Seq<SegmentEntry>
    decreases entries.len(),
{
    if entries.len() == 0 {
        Seq::empty()
    } else {
        code_entries(entries.drop_last()) + if is_code_entry(entries.last()) {
            seq![entries.last()]
        } else {
            Seq::empty()
        }
    }
}

/// The function entries of the symbol table of `data`, if it has one.
pub open spec fn elf_function_entries(data: Seq<u8>) -> Seq<SymbolEntry> {
    match elf_symbols(data) {
        Some(Some(entries)) => function_entries(entries),
        _ => Seq::empty(),
    }
}

/// Whether `symbols` are the function symbols of `data`, with their names.
pub open spec fn symbols_from(data: Seq<u8>, symbols: Seq<FunctionSymbol>) -> bool {
    let entries = elf_function_entries(data);
    &&& symbols.len() == entries.len()
    &&& forall|k: int|
        0 <= k < symbols.len() ==> {
            &&& (#[trigger] symbols[k]).address == entries[k].st_value
            &&& elf_symbol_name(data, entries[k].st_name) == Some(symbols[k].name@)
        }
}

/// The bytes of `data` a segment entry covers.
pub open spec fn segment_bytes(data: Seq<u8>, e: SegmentEntry) -> Seq<u8> {
    data.subrange(e.p_offset as int, e.p_offset + e.p_filesz)
}

/// Whether `segment` is the code segment an entry describes: loaded at its address,
/// holding the decoded words of its bytes.
pub open spec fn segment_from(data: Seq<u8>, e: SegmentEntry, segment: CodeSegment) -> bool {
    &&& segment.address == e.p_vaddr
    &&& segment.source_offset == e.p_offset
    &&& segment.size == e.p_filesz
    &&& segment.instructions.len() == e.p_filesz / 4
    &&& forall|j: int|
        0 <= j < segment.instructions.len() ==> #[trigger] segment.instructions@[j].0
            == spec_decode(le_word(segment_bytes(data, e), 4 * j))
}

/// Whether `segments` are the code segments of `data`.
pub open spec fn segments_from(data: Seq<u8>, segments: Seq<CodeSegment>) -> bool {
    let entries = match elf_segments(data) {
        Some(Some(entries)) => code_entries(entries),
        _ => Seq::empty(),
    };
    &&& segments.len() == entries.len()
    &&& forall|k: int| 0 <= k < segments.len() ==> segment_from(data, entries[k], #[trigger] segments[k])
}

/// The function symbols of an ELF file, with their names.
#[verifier::spinoff_prover]
fn function_symbols(data: &[u8]) -> (r: Result<Vec<FunctionSymbol>, ElfAnalysisError>)
    ensures
        match r {
            Ok(symbols) => {
                &&& elf_symbols(data@) is Some
                &&& symbols_from(data@, symbols@)
            },
            Err(ElfAnalysisError::Parse(_)) => elf_symbols(data@) is None || exists|k: int|
                0 <= k < elf_function_entries(data@).len() && elf_symbol_name(
                    data@,
                    (#[trigger] elf_function_entries(data@)[k]).st_name,
                ) is None,
            Err(_) => false,
        },
{
    let entries = match read_symbols(data) {
        Ok(Some(entries)) => entries,
        Ok(None) => {
            let none: Vec<FunctionSymbol> = Vec::new();
            proof {
                assert(none@ =~= Seq::<FunctionSymbol>::empty());
            }
            return Ok(none);
        },
        Err(e) => {
            return Err(ElfAnalysisError::Parse(e));
        },
    };
    let mut symbols: Vec<FunctionSymbol> = Vec::new();
    let mut i: usize = 0;
    while i < entries.len()
        invariant
            elf_symbols(data@) == Some(Some(entries@)),
            i <= entries.len(),
            symbols.len() == function_entries(entries@.take(i as int)).len(),
            forall|k: int|
                0 <= k < symbols.len() ==> {
                    &&& (#[trigger] symbols@[k]).address == function_entries(entries@.take(i as int))[k].st_value
                    &&& elf_symbol_name(data@, function_entries(entries@.take(i as int))[k].st_name)
                        == Some(symbols@[k].name@)
                },
        decreases entries.len() - i,
    {
        let entry = entries[i];
        proof {
            assert(entries@.take(i + 1).drop_last() =~= entries@.take(i as int));
            assert(entries@.take(i + 1).last() == entry);
        }
        let info = entry.st_info;
        assert(info & 0xf == info % 16) by (bit_vector);
        if info & 0xf == STT_FUNC {
            let name = match read_symbol_name(data, entry.st_name) {
                Ok(name) => name,
                Err(e) => {
                    proof {
                        let k = function_entries(entries@.take(i as int)).len() as int;
                        lemma_function_entries_prefix(entries@, i as int + 1);
                        assert(function_entries(entries@.take(i + 1))[k] == entry);
                        assert(elf_function_entries(data@)[k] == entry);
                    }
                    return Err(ElfAnalysisError::Parse(e));
                },
            };
            symbols.push(FunctionSymbol { address: entry.st_value, name });
        }
        proof {
            let before = function_entries(entries@.take(i as int));
            let after = function_entries(entries@.take(i + 1));
            assert forall|k: int| 0 <= k < symbols.len() implies {
                &&& (#[trigger] symbols@[k]).address == after[k].st_value
                &&& elf_symbol_name(data@, after[k].st_name) == Some(symbols@[k].name@)
            } by {
                if k < before.len() {
                    assert(after[k] == before[k]);
                }
            }
        }
        i = i + 1;
    }
    proof {
        assert(entries@.take(entries.len() as int) =~= entries@);
    }
    Ok(symbols)
}

/// The function entries of a prefix of a table are a prefix of its function entries.
proof fn lemma_function_entries_prefix(entries: Seq<SymbolEntry>, n: int)
    requires
        0 <= n <= entries.len(),
    ensures
        function_entries(entries.take(n)).len() <= function_entries(entries).len(),
        forall|k: int|
            0 <= k < function_entries(entries.take(n)).len() ==> #[trigger] function_entries(
                entries.take(n),
            )[k] == function_entries(entries)[k],
    decreases entries.len() - n,
{
    if n < entries.len() {
        lemma_function_entries_prefix(entries, n + 1);
        assert(entries.take(n + 1).drop_last() =~= entries.take(n));
        let shorter = function_entries(entries.take(n));
        let longer = function_entries(entries.take(n + 1));
        assert(longer == shorter + if is_function_entry(entries.take(n + 1).last()) {
            seq![entries.take(n + 1).last()]
        } else {
            Seq::empty()
        });
        assert forall|k: int| 0 <= k < shorter.len() implies #[trigger] shorter[k]
            == function_entries(entries)[k] by {
            assert(shorter[k] == longer[k]);
        }
    } else {
        assert(entries.take(n) =~= entries);
    }
}

/// Whether a section with these flags holds executable code.
pub open spec fn is_code_section(flags: u64) -> bool {
    (flags / 4) % 2 == 1
}

/// Whether the section with header `index` of `data` can be read, and the decoder
/// accepts all its words.
pub open spec fn section_decodes(data: Seq<u8>, index: usize) -> bool {
    match elf_section_data(data, index) {
        Some(bytes) => all_decodable(bytes),
        None => false,
    }
}

/// Whether `e` is a code segment entry of the program header table of `data`.
pub open spec fn is_code_entry_of(data: Seq<u8>, e: SegmentEntry) -> bool {
    &&& is_code_entry(e)
    &&& match elf_segments(data) {
        Some(Some(entries)) => entries.contains(e),
        _ => false,
    }
}

/// Reads every executable section of an ELF file and checks that the decoder accepts
/// its words; `Err` reports the first that cannot be read or decoded.
#[verifier::spinoff_prover]
fn check_code_sections(data: &[u8], flags: &Vec<u64>) -> (r: Result<(), ElfAnalysisError>)
    requires
        elf_section_flags(data@) matches Some((Some(f), _)) && f == flags@,
    ensures
        match r {
            Ok(()) => forall|i: int|
                0 <= i < flags.len() && is_code_section(#[trigger] flags@[i]) ==> section_decodes(
                    data@,
                    i as usize,
                ),
            Err(ElfAnalysisError::Parse(_)) => exists|i: int|
                0 <= i < flags.len() && is_code_section(#[trigger] flags@[i]) && elf_section_data(
                    data@,
                    i as usize,
                ) is None,
            Err(ElfAnalysisError::UndecodableSection { index }) => {
                &&& index < flags.len()
                &&& is_code_section(flags@[index as int])
                &&& elf_section_data(data@, index) is Some
                &&& !section_decodes(data@, index)
            },
            Err(_) => false,
        },
{
    let mut i: usize = 0;
    while i < flags.len()
        invariant
            elf_section_flags(data@) matches Some((Some(f), _)) && f == flags@,
            i <= flags.len(),
            forall|j: int|
                0 <= j < i && is_code_section(#[trigger] flags@[j]) ==> section_decodes(
                    data@,
                    j as usize,
                ),
        decreases flags.len() - i,
    {
        let flag = flags[i];
        assert(flag & 4 != 0 <==> (flag / 4) % 2 == 1) by (bit_vector);
        if flag & SHF_EXECINSTR != 0 {
            let bytes = match read_section_data(data, i) {
                Ok(bytes) => bytes,
                Err(e) => {
                    assert(is_code_section(flags@[i as int]));
                    return Err(ElfAnalysisError::Parse(e));
                },
            };
            if !words_decodable(bytes.as_slice()) {
                return Err(ElfAnalysisError::UndecodableSection { index: i });
            }
        }
        i = i + 1;
    }
    Ok(())
}

/// A copy of `data[start..end]`.
fn copy_range(data: &[u8], start: usize, end: usize) -> (r: Vec<u8>)
    requires
        start <= end <= data.len(),
    ensures
        r@ == data@.subrange(start as int, end as int),
{
    let mut r: Vec<u8> = Vec::new();
    let mut k = start;
    while k < end
        invariant
            start <= k <= end <= data.len(),
            r@ == data@.subrange(start as int, k as int),
        decreases end - k,
    {
        r.push(data[k]);
        proof {
            assert(r@ =~= data@.subrange(start as int, k + 1));
        }
        k = k + 1;
    }
    r
}

/// The code segment an entry of a code segment table describes, read from `data`.
#[verifier::spinoff_prover]
fn code_segment(data: &[u8], entry: SegmentEntry) -> (r: Result<CodeSegment, ElfAnalysisError>)
    ensures
        match r {
            Ok(segment) => {
                &&& entry.p_offset + entry.p_filesz <= data.len()
                &&& all_decodable(segment_bytes(data@, entry))
                &&& segment_from(data@, entry, segment)
                &&& segment_ok(segment)
            },
            Err(ElfAnalysisError::SegmentOutsideFile { segment_address }) => segment_address
                == entry.p_vaddr && entry.p_offset + entry.p_filesz > data.len(),
            Err(ElfAnalysisError::UndecodableSegment { segment_address }) => {
                &&& segment_address == entry.p_vaddr
                &&& entry.p_offset + entry.p_filesz <= data.len()
                &&& !all_decodable(segment_bytes(data@, entry))
            },
            Err(ElfAnalysisError::SegmentTooHigh { segment_address }) => {
                &&& segment_address == entry.p_vaddr
                &&& entry.p_offset + entry.p_filesz <= data.len()
                &&& all_decodable(segment_bytes(data@, entry))
                &&& entry.p_vaddr + entry.p_filesz > u64::MAX - 4
            },
            Err(_) => false,
        },
{
    let end = match entry.p_offset.checked_add(entry.p_filesz) {
        Some(end) => end,
        None => {
            return Err(ElfAnalysisError::SegmentOutsideFile { segment_address: entry.p_vaddr });
        },
    };
    if end > data.len() as u64 {
        return Err(ElfAnalysisError::SegmentOutsideFile { segment_address: entry.p_vaddr });
    }
    let bytes = copy_range(data, entry.p_offset as usize, end as usize);
    if !words_decodable(bytes.as_slice()) {
        return Err(ElfAnalysisError::UndecodableSegment { segment_address: entry.p_vaddr });
    }
    if entry.p_vaddr > u64::MAX - 4 || entry.p_filesz > u64::MAX - 4 - entry.p_vaddr {
        return Err(ElfAnalysisError::SegmentTooHigh { segment_address: entry.p_vaddr });
    }
    let instructions = Arm.decode_instructions(bytes.as_slice());
    Ok(
        CodeSegment {
            address: entry.p_vaddr,
            instructions,
            source_offset: entry.p_offset,
            size: entry.p_filesz,
        },
    )
}

/// The code segments of an ELF file, in the order of its program headers.
#[verifier::spinoff_prover]
fn code_segments(data: &[u8]) -> (r: Result<Vec<CodeSegment>, ElfAnalysisError>)
    ensures
        match r {
            Ok(segments) => {
                &&& elf_segments(data@) matches Some(Some(_))
                &&& segments_from(data@, segments@)
                &&& forall|k: int| 0 <= k < segments.len() ==> segment_ok(#[trigger] segments@[k])
            },
            Err(ElfAnalysisError::Parse(_)) => elf_segments(data@) is None,
            Err(ElfAnalysisError::NoSegments) => elf_segments(data@) == Some(
                None::<Seq<SegmentEntry>>,
            ),
            Err(ElfAnalysisError::SegmentOutsideFile { segment_address }) => exists|e: SegmentEntry|
                #[trigger] is_code_entry_of(data@, e) && e.p_vaddr == segment_address && e.p_offset + e.p_filesz > data.len(),
            Err(ElfAnalysisError::UndecodableSegment { segment_address }) => exists|e: SegmentEntry|
                #[trigger] is_code_entry_of(data@, e) && e.p_vaddr == segment_address && !all_decodable(segment_bytes(data@, e)),
            Err(ElfAnalysisError::SegmentTooHigh { segment_address }) => exists|e: SegmentEntry|
                #[trigger] is_code_entry_of(data@, e) && e.p_vaddr == segment_address && e.p_vaddr + e.p_filesz > u64::MAX - 4,
            Err(_) => false,
        },
{
    let entries = match read_segments(data) {
        Ok(Some(entries)) => entries,
        Ok(None) => {
            return Err(ElfAnalysisError::NoSegments);
        },
        Err(e) => {
            return Err(ElfAnalysisError::Parse(e));
        },
    };
    let mut segments: Vec<CodeSegment> = Vec::new();
    let mut i: usize = 0;
    while i < entries.len()
        invariant
            elf_segments(data@) == Some(Some(entries@)),
            i <= entries.len(),
            segments.len() == code_entries(entries@.take(i as int)).len(),
            forall|k: int| 0 <= k < segments.len() ==> segment_ok(#[trigger] segments@[k]),
            forall|k: int|
                0 <= k < segments.len() ==> segment_from(
                    data@,
                    code_entries(entries@.take(i as int))[k],
                    #[trigger] segments@[k],
                ),
        decreases entries.len() - i,
    {
        let entry = entries[i];
        proof {
            assert(entries@.take(i + 1).drop_last() =~= entries@.take(i as int));
            assert(entries@.take(i + 1).last() == entry);
            assert(entries@.contains(entry));
        }
        let flags = entry.p_flags;
        assert(flags & 1 != 0 <==> flags % 2 == 1) by (bit_vector);
        if entry.p_type == PT_LOAD && flags & PF_X != 0 {
            assert(is_code_entry(entry));
            assert(is_code_entry_of(data@, entry));
            let segment = match code_segment(data, entry) {
                Ok(segment) => segment,
                Err(e) => {
                    return Err(e);
                },
            };
            segments.push(segment);
        }
        proof {
            let before = code_entries(entries@.take(i as int));
            let after = code_entries(entries@.take(i + 1));
            assert forall|k: int| 0 <= k < segments.len() implies segment_from(
                data@,
                after[k],
                #[trigger] segments@[k],
            ) by {
                if k < before.len() {
                    assert(after[k] == before[k]);
                }
            }
        }
        i = i + 1;
    }
    proof {
        assert(entries@.take(entries.len() as int) =~= entries@);
    }
    Ok(segments)
}

/// Whether `data` has section headers and a section name string table.
pub open spec fn has_section_names(data: Seq<u8>) -> bool {
    match elf_section_flags(data) {
        Some((Some(_), has_names)) => has_names,
        _ => false,
    }
}

/// Whether every executable section of `data` can be read and decoded.
pub open spec fn code_sections_decode(data: Seq<u8>) -> bool {
    match elf_section_flags(data) {
        Some((Some(flags), _)) => forall|i: int|
            0 <= i < flags.len() && is_code_section(#[trigger] flags[i]) ==> section_decodes(
                data,
                i as usize,
            ),
        _ => false,
    }
}

/// Whether the parts of `data` that the analysis reads all parse: its header, section
/// headers, symbol table, function names and executable sections.
pub open spec fn elf_readable(data: Seq<u8>) -> bool {
    &&& elf_entry(data) is Some
    &&& has_section_names(data)
    &&& elf_symbols(data) is Some
    &&& forall|k: int|
        0 <= k < elf_function_entries(data).len() ==> elf_symbol_name(
            data,
            (#[trigger] elf_function_entries(data)[k]).st_name,
        ) is Some
    &&& code_sections_decode(data)
}

/// Whether `r` is what analysing the ELF file `data` gives: the analysis of the program
/// whose entry point, function symbols and executable segments the file holds, as
/// `program_outcome` describes, or the reason it could not be read or analysed.
pub open spec fn elf_analysis_outcome(data: Seq<u8>, r: Result<Analysis, ElfAnalysisError>) -> bool {
    match r {
        Ok(analysis) => {
            &&& elf_readable(data)
            &&& exists|symbols: Seq<FunctionSymbol>, segments: Seq<CodeSegment>|
                #![trigger symbols_from(data, symbols), segments_from(data, segments)]
                {
                    &&& symbols_from(data, symbols)
                    &&& segments_from(data, segments)
                    &&& forall|k: int| 0 <= k < segments.len() ==> segment_ok(#[trigger] segments[k])
                    &&& program_outcome(
                        elf_entry(data)->0,
                        symbols,
                        segments,
                        register_id(Register::SP),
                        Ok(analysis),
                    )
                }
        },
        Err(ElfAnalysisError::Analysis(e)) => {
            &&& elf_readable(data)
            &&& exists|symbols: Seq<FunctionSymbol>, segments: Seq<CodeSegment>|
                #![trigger symbols_from(data, symbols), segments_from(data, segments)]
                {
                    &&& symbols_from(data, symbols)
                    &&& segments_from(data, segments)
                    &&& program_outcome(
                        elf_entry(data)->0,
                        symbols,
                        segments,
                        register_id(Register::SP),
                        Err(e),
                    )
                }
        },
        Err(ElfAnalysisError::Parse(_)) => !elf_readable(data) || elf_segments(
            data,
        ) is None,
        Err(ElfAnalysisError::NoSectionHeaders) => elf_section_flags(data) matches Some(
            (None, _),
        ),
        Err(ElfAnalysisError::NoSectionNameTable) => elf_section_flags(data) matches Some(
            (Some(_), false),
        ),
        Err(ElfAnalysisError::UndecodableSection { index }) => !section_decodes(
            data,
            index,
        ) && elf_section_data(data, index) is Some,
        Err(ElfAnalysisError::NoSegments) => elf_readable(data) && elf_segments(
            data,
        ) == Some(None::<Seq<SegmentEntry>>),
        Err(ElfAnalysisError::SegmentOutsideFile { segment_address }) => elf_readable(
            data,
        ) && exists|e: SegmentEntry|
            #[trigger] is_code_entry_of(data, e) && e.p_vaddr == segment_address
                && e.p_offset + e.p_filesz > data.len(),
        Err(ElfAnalysisError::UndecodableSegment { segment_address }) => elf_readable(
            data,
        ) && exists|e: SegmentEntry|
            #[trigger] is_code_entry_of(data, e) && e.p_vaddr == segment_address
                && !all_decodable(segment_bytes(data, e)),
        Err(ElfAnalysisError::SegmentTooHigh { segment_address }) => elf_readable(data)
            && exists|e: SegmentEntry|
            #[trigger] is_code_entry_of(data, e) && e.p_vaddr == segment_address
                && e.p_vaddr + e.p_filesz > u64::MAX - 4,
    }
}

/// Analyses the ELF file `elf_bytes` for `architecture`: the program whose entry point,
/// function symbols and executable segments the file holds, as `program_outcome`
/// describes, after checking that the file parses, that it has section headers and a
/// section name table, and that its executable sections and segments decode.
#[verifier::spinoff_prover]
pub fn analyze(elf_bytes: &[u8], architecture: &Arm) -> (r: Result<Analysis, ElfAnalysisError>)
    ensures
        elf_analysis_outcome(elf_bytes@, r),
{
    let entry_address = match read_entry(elf_bytes) {
        Ok(entry) => entry,
        Err(e) => {
            return Err(ElfAnalysisError::Parse(e));
        },
    };
    let (flags, has_names) = match read_section_flags(elf_bytes) {
        Ok(headers) => headers,
        Err(e) => {
            return Err(ElfAnalysisError::Parse(e));
        },
    };
    let flags = match flags {
        Some(flags) => flags,
        None => {
            return Err(ElfAnalysisError::NoSectionHeaders);
        },
    };
    if !has_names {
        return Err(ElfAnalysisError::NoSectionNameTable);
    }
    let symbols = match function_symbols(elf_bytes) {
        Ok(symbols) => symbols,
        Err(e) => {
            return Err(e);
        },
    };
    match check_code_sections(elf_bytes, &flags) {
        Ok(()) => {},
        Err(e) => {
            proof {
                if e is Parse {
                    let i = choose|i: int|
                        0 <= i < flags.len() && is_code_section(#[trigger] flags@[i])
                            && elf_section_data(elf_bytes@, i as usize) is None;
                    assert(!section_decodes(elf_bytes@, i as usize));
                    let f = (elf_section_flags(elf_bytes@)->0).0->0;
                    assert(f == flags@);
                    assert(is_code_section(f[i]));
                    assert(!code_sections_decode(elf_bytes@));
                }
            }
            return Err(e);
        },
    }
    proof {
        assert(has_section_names(elf_bytes@));
        assert(code_sections_decode(elf_bytes@));
        assert forall|k: int| 0 <= k < elf_function_entries(elf_bytes@).len() implies elf_symbol_name(
            elf_bytes@,
            (#[trigger] elf_function_entries(elf_bytes@)[k]).st_name,
        ) is Some by {
            assert(symbols@[k].address == elf_function_entries(elf_bytes@)[k].st_value);
        }
        assert(elf_readable(elf_bytes@));
    }
    let segments = match code_segments(elf_bytes) {
        Ok(segments) => segments,
        Err(e) => {
            return Err(e);
        },
    };
    let stack_pointer = architecture.stack_pointer_register();
    match analyze_program(entry_address, &symbols, &segments, stack_pointer) {
        Ok(analysis) => {
            proof {
                assert(symbols_from(elf_bytes@, symbols@) && segments_from(elf_bytes@, segments@));
            }
            Ok(analysis)
        },
        Err(e) => {
            proof {
                assert(symbols_from(elf_bytes@, symbols@) && segments_from(elf_bytes@, segments@));
            }
            Err(ElfAnalysisError::Analysis(e))
        },
    }
}

/// `s` with `x` appended, as a set, is `s` with `x` added.
proof fn lemma_push_to_set(s: Seq<u32>, x: u32)
    ensures
        s.push(x).to_set() == s.to_set().insert(x),
{
    assert forall|y: u32| s.push(x).to_set().contains(y) implies s.to_set().insert(x).contains(y) by {
        let k = choose|k: int| 0 <= k < s.push(x).len() && s.push(x)[k] == y;
        if k < s.len() {
            assert(s[k] == y);
        }
    }
    assert forall|y: u32| s.to_set().insert(x).contains(y) implies s.push(x).to_set().contains(y) by {
        if y == x {
            assert(s.push(x)[s.len() as int] == x);
        } else {
            let k = choose|k: int| 0 <= k < s.len() && s[k] == y;
            assert(s.push(x)[k] == y);
        }
    }
    assert(s.push(x).to_set() =~= s.to_set().insert(x));
}

/// Adds the elements of `source` to `target`.
fn insert_all(target: &mut HashSet<u32>, source: &HashSet<u32>)
    ensures
        final(target)@ == old(target)@.union(source@),
{
    broadcast use vstd::std_specs::hash::group_hash_axioms;

    let ghost start = target@;
    proof {
        assert(source.iter().remaining().take(0).unref() =~= Seq::<u32>::empty());
        assert(start.union(Seq::<u32>::empty().to_set()) =~= start);
    }
    for x in it: source.iter()
        invariant
            target@ == start.union(it.seq().take(it.index()).unref().to_set()),
            it.seq().unref().to_set() == source@,
            it.index() == it.seq().len() ==> target@ == start.union(source@),
        ensures
            target@ == start.union(source@),
    {
        let ghost i = it.index();
        assert(it.seq()[i] == x);
        target.insert(*x);
        proof {
            let before = it.seq().take(i).unref();
            assert(it.seq().take(i + 1).unref() =~= before.push(*x));
            lemma_push_to_set(before, *x);
            assert(target@ =~= start.union(it.seq().take(i + 1).unref().to_set()));
            assert(i + 1 == it.seq().len() ==> it.seq().take(i + 1) =~= it.seq());
        }
    }
}

/// The registers a path through a routine reads before it writes them, and the
/// registers it writes.
#[derive(Debug)]
pub struct RegisterReadWalker {
    pub registers_read: HashSet<u32>,
    pub registers_written: HashSet<u32>,
}

/// The registers `walkers` read, together.
pub open spec fn all_reads(walkers: Seq<RegisterReadWalker>) -> Set<u32>
    decreases walkers.len(),
{
    if walkers.len() == 0 {
        Set::empty()
    } else {
        all_reads(walkers.drop_last()).union(walkers.last().registers_read@)
    }
}

/// The registers `walkers` write, together.
pub open spec fn all_writes(walkers: Seq<RegisterReadWalker>) -> Set<u32>
    decreases walkers.len(),
{
    if walkers.len() == 0 {
        Set::empty()
    } else {
        all_writes(walkers.drop_last()).union(walkers.last().registers_written@)
    }
}

impl Default for RegisterReadWalker {
    /// A walker that has seen nothing.
    fn default() -> (r: Self)
        ensures
            r.registers_read@ == Set::<u32>::empty(),
            r.registers_written@ == Set::<u32>::empty(),
    {
        RegisterReadWalker { registers_read: HashSet::new(), registers_written: HashSet::new() }
    }
}

/// The registers `i` reads.
pub open spec fn reads_of(i: ArmInstruction) -> Set<u32> {
    register_ids(registers_read_by(i.0)).to_set()
}

/// The registers `i` writes.
pub open spec fn writes_of(i: ArmInstruction) -> Set<u32> {
    register_ids(registers_written_by(i.0)).to_set()
}

/// What a walker that has read `read` and written `written` has read and written after
/// stepping over `path`, instruction by instruction.
pub open spec fn walk(read: Set<u32>, written: Set<u32>, path: Seq<ArmInstruction>) -> (Set<u32>, Set<u32>)
    decreases path.len(),
{
    if path.len() == 0 {
        (read, written)
    } else {
        let (r, w) = walk(read, written, path.drop_last());
        (r.union(reads_of(path.last()).difference(w)), w.union(writes_of(path.last())))
    }
}

/// A walker whose state is what walking `path` from `read` and `written` gives, after
/// `process` steps over `i`, holds what walking `path` followed by `i` gives: repeated
/// calls of `process` walk the path they are called on.
pub proof fn lemma_process_extends_walk(
    read: Set<u32>,
    written: Set<u32>,
    path: Seq<ArmInstruction>,
    i: ArmInstruction,
    before: RegisterReadWalker,
    after: RegisterReadWalker,
)
    requires
        (before.registers_read@, before.registers_written@) == walk(read, written, path),
        after.registers_read@ == before.registers_read@.union(
            register_ids(registers_read_by(i.0)).to_set().difference(before.registers_written@),
        ),
        after.registers_written@ == before.registers_written@.union(
            register_ids(registers_written_by(i.0)).to_set(),
        ),
    ensures
        (after.registers_read@, after.registers_written@) == walk(read, written, path.push(i)),
{
    assert(path.push(i).drop_last() =~= path);
}

/// Walking a path from a walker that has seen nothing records as read exactly the
/// registers some instruction reads before any instruction of the path writes them, and
/// as written exactly the registers some instruction writes.
pub proof fn lemma_walk_reads_before_writes(path: Seq<ArmInstruction>, x: u32)
    ensures
        walk(Set::empty(), Set::empty(), path).1.contains(x) <==> exists|k: int|
            0 <= k < path.len() && writes_of(#[trigger] path[k]).contains(x),
        walk(Set::empty(), Set::empty(), path).0.contains(x) <==> exists|k: int|
            0 <= k < path.len() && reads_of(#[trigger] path[k]).contains(x) && forall|j: int|
                0 <= j < k ==> !writes_of(#[trigger] path[j]).contains(x),
    decreases path.len(),
{
    if path.len() > 0 {
        let prefix = path.drop_last();
        lemma_walk_reads_before_writes(prefix, x);
        let n = path.len() - 1;
        let (r, w) = walk(Set::empty(), Set::empty(), prefix);
        if walk(Set::empty(), Set::empty(), path).1.contains(x) {
            if w.contains(x) {
                let k = choose|k: int| 0 <= k < prefix.len() && writes_of(#[trigger] prefix[k]).contains(x);
                assert(path[k] == prefix[k]);
            } else {
                assert(writes_of(path[n]).contains(x));
            }
        }
        if exists|k: int| 0 <= k < path.len() && writes_of(#[trigger] path[k]).contains(x) {
            let k = choose|k: int| 0 <= k < path.len() && writes_of(#[trigger] path[k]).contains(x);
            if k < n {
                assert(prefix[k] == path[k]);
            }
        }
        if walk(Set::empty(), Set::empty(), path).0.contains(x) {
            if r.contains(x) {
                let k = choose|k: int|
                    0 <= k < prefix.len() && reads_of(#[trigger] prefix[k]).contains(x) && forall|j: int|
                        0 <= j < k ==> !writes_of(#[trigger] prefix[j]).contains(x);
                assert(path[k] == prefix[k]);
                assert forall|j: int| 0 <= j < k implies !writes_of(#[trigger] path[j]).contains(x) by {
                    assert(path[j] == prefix[j]);
                }
            } else {
                assert(reads_of(path[n]).contains(x) && !w.contains(x));
                assert forall|j: int| 0 <= j < n implies !writes_of(#[trigger] path[j]).contains(x) by {
                    assert(path[j] == prefix[j]);
                }
            }
        }
        if exists|k: int|
            0 <= k < path.len() && reads_of(#[trigger] path[k]).contains(x) && forall|j: int|
                0 <= j < k ==> !writes_of(#[trigger] path[j]).contains(x) {
            let k = choose|k: int|
                0 <= k < path.len() && reads_of(#[trigger] path[k]).contains(x) && forall|j: int|
                    0 <= j < k ==> !writes_of(#[trigger] path[j]).contains(x);
            if k < n {
                assert(prefix[k] == path[k]);
                assert forall|j: int| 0 <= j < k implies !writes_of(#[trigger] prefix[j]).contains(x) by {
                    assert(path[j] == prefix[j]);
                }
            } else {
                assert(!w.contains(x)) by {
                    if w.contains(x) {
                        let q = choose|q: int| 0 <= q < prefix.len() && writes_of(#[trigger] prefix[q]).contains(x);
                        assert(path[q] == prefix[q]);
                    }
                }
            }
        }
    }
}

impl RegisterReadWalker {
    /// The walker of two paths taken together: what either reads and what either writes.
    pub fn merge(&mut self, other: &RegisterReadWalker) -> (r: RegisterReadWalker)
        ensures
            r.registers_read@ == old(self).registers_read@.union(other.registers_read@),
            r.registers_written@ == old(self).registers_written@.union(other.registers_written@),
            final(self).registers_read@ == old(self).registers_read@,
            final(self).registers_written@ == old(self).registers_written@,
    {
        let mut read: HashSet<u32> = HashSet::new();
        insert_all(&mut read, &self.registers_read);
        insert_all(&mut read, &other.registers_read);
        let mut written: HashSet<u32> = HashSet::new();
        insert_all(&mut written, &self.registers_written);
        insert_all(&mut written, &other.registers_written);
        proof {
            assert(read@ =~= self.registers_read@.union(other.registers_read@));
            assert(written@ =~= self.registers_written@.union(other.registers_written@));
        }
        RegisterReadWalker { registers_read: read, registers_written: written }
    }

    /// All walkers taken together.
    pub fn merge_all(walkers: &[RegisterReadWalker]) -> (r: RegisterReadWalker)
        ensures
            r.registers_read@ == all_reads(walkers@),
            r.registers_written@ == all_writes(walkers@),
    {
        let mut acc = RegisterReadWalker::default();
        let mut i: usize = 0;
        while i < walkers.len()
            invariant
                i <= walkers.len(),
                acc.registers_read@ == all_reads(walkers@.take(i as int)),
                acc.registers_written@ == all_writes(walkers@.take(i as int)),
            decreases walkers.len() - i,
        {
            proof {
                assert(walkers@.take(i + 1).drop_last() =~= walkers@.take(i as int));
            }
            acc = acc.merge(&walkers[i]);
            i = i + 1;
        }
        proof {
            assert(walkers@.take(walkers.len() as int) =~= walkers@);
        }
        acc
    }

    /// Steps over an instruction: the registers it reads that the path has not written
    /// yet count as read, and the registers it writes as written.
    pub fn process(&mut self, instruction: &ArmInstruction)
        ensures
            final(self).registers_read@ == old(self).registers_read@.union(
                register_ids(registers_read_by(instruction.0)).to_set().difference(
                    old(self).registers_written@,
                ),
            ),
            final(self).registers_written@ == old(self).registers_written@.union(
                register_ids(registers_written_by(instruction.0)).to_set(),
            ),
    {
        broadcast use vstd::std_specs::hash::group_hash_axioms;

        let reads = instruction.registers_read();
        let ghost start_read = self.registers_read@;
        let ghost start_written = self.registers_written@;
        let mut i: usize = 0;
        while i < reads.len()
            invariant
                i <= reads.len(),
                self.registers_written@ == start_written,
                self.registers_read@ == start_read.union(
                    reads@.take(i as int).to_set().difference(self.registers_written@),
                ),
            decreases reads.len() - i,
        {
            let register = reads[i];
            let written = self.registers_written.contains(&register);
            if !written {
                self.registers_read.insert(register);
            }
            proof {
                assert(reads@.take(i + 1) =~= reads@.take(i as int).push(register));
                lemma_push_to_set(reads@.take(i as int), register);
                assert(self.registers_read@ =~= start_read.union(
                    reads@.take(i + 1).to_set().difference(self.registers_written@),
                ));
            }
            i = i + 1;
        }
        proof {
            assert(reads@.take(reads.len() as int) =~= reads@);
        }
        let writes = instruction.registers_written();
        let ghost after_read = self.registers_read@;
        let mut j: usize = 0;
        while j < writes.len()
            invariant
                j <= writes.len(),
                self.registers_read@ == after_read,
                self.registers_written@ == start_written.union(writes@.take(j as int).to_set()),
            decreases writes.len() - j,
        {
            let register = writes[j];
            self.registers_written.insert(register);
            proof {
                assert(writes@.take(j + 1) =~= writes@.take(j as int).push(register));
                lemma_push_to_set(writes@.take(j as int), register);
                assert(self.registers_written@ =~= start_written.union(
                    writes@.take(j + 1).to_set(),
                ));
            }
            j = j + 1;
        }
        proof {
            assert(writes@.take(writes.len() as int) =~= writes@);
        }
    }

    /// Steps over the instructions of `path`, in order.
    pub fn process_all(&mut self, path: &[ArmInstruction])
        ensures
            (final(self).registers_read@, final(self).registers_written@) == walk(
                old(self).registers_read@,
                old(self).registers_written@,
                path@,
            ),
    {
        let ghost read = self.registers_read@;
        let ghost written = self.registers_written@;
        let mut i: usize = 0;
        while i < path.len()
            invariant
                i <= path.len(),
                (self.registers_read@, self.registers_written@) == walk(read, written, path@.take(i as int)),
            decreases path.len() - i,
        {
            self.process(&path[i]);
            proof {
                assert(path@.take(i + 1).drop_last() =~= path@.take(i as int));
            }
            i = i + 1;
        }
        proof {
            assert(path@.take(path.len() as int) =~= path@);
        }
    }
}

} // verus!
