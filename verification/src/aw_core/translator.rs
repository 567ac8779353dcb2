use vstd::prelude::*;
use elf::ParseError;
use crate::module::expression::Expression;
use crate::module::memory::ValueType;
use crate::aw_core::architecture::{LocalDescriptor, LocalType};
use crate::aw_core::elf_image::{SegmentEntry, elf_segments, entries_view, read_segments};
use crate::aw_core::analysis::{Analysis, ElfAnalysisError, Routine, analyze, elf_analysis_outcome};
use crate::arm::arch::{Arm, ids};
use crate::arm::registers::default_param_registers;
use crate::arm::lowering::{
    FUNC_RETURN_SCRATCH_LOCAL, SVC_RETURN_SCRATCH_LOCAL, RoutineTranslation, arm_routine_context,
    is_routine_lowerable, routine_addresses, routine_lowerable, routine_lowering, translate_routine,
};

verus! {

/// What the translation of one routine's instructions needs to know: the registers
/// its function returns, the locals that hold call results, and where the program's
/// routines start, in the order their functions are numbered.
#[derive(Debug)]
pub struct RoutineContext {
    pub return_registers: Vec<u32>,
    pub func_return_scratch_local_index: u32,
    pub svc_return_scratch_local_index: u32,
    pub routine_addresses: Vec<u64>,
}

impl RoutineContext {
    /// Reads local `local_index`.
    pub fn read_local(&self, local_index: u32) -> (r: Expression)
        ensures
            r == (Expression::LocalGet { index: local_index }),
    {
        Expression::LocalGet { index: local_index }
    }

    /// Writes `value` to local `local_index`.
    pub fn write_local(&self, local_index: u32, value: Expression) -> (r: Expression)
        ensures
            r == (Expression::LocalSet { index: local_index, value: Box::new(value) }),
    {
        Expression::LocalSet { index: local_index, value: Box::new(value) }
    }
}


/// The size of a WebAssembly memory page.
pub const PAGE_SIZE: u64 = 65_536;

/// The number of pages of the stack, placed after the mapped segments.
pub const STACK_PAGE_COUNT: u64 = 2;

/// The program header type of a loadable segment (`PT_LOAD`).
pub const PT_LOAD: u32 = 1;

/// The program header flag of a writable segment (`PF_W`).
pub const PF_W: u32 = 2;

/// A loadable segment as it is placed in memory: at its load address, with the file
/// bytes from `file_offset` on.
#[derive(Debug, Clone, Copy, PartialEq, Eq)]
pub struct MemorySegment {
    pub address: u64,
    pub file_offset: u64,
    pub size: u64,
    pub writable: bool,
}

/// The memory of a translated program: its segments, its size in pages, and where the
/// stack lies.
#[derive(Debug)]
pub struct MemoryInfo {
    pub segments: Vec<MemorySegment>,
    pub page_count: u64,
    pub stack_internal_address: u64,
    pub stack_size: u64,
}

/// Why the memory of a program could not be laid out.
#[derive(Debug)]
pub enum MemoryError {
    /// The `elf` crate could not parse the program headers.
    Parse(ParseError),
    /// The file has no program headers.
    NoSegments,
    /// A loadable segment runs past the end of the file.
    SegmentOutsideFile { address: u64 },
    /// The segments, rounded up to whole pages, with the stack, do not fit in 64 bits.
    TooLarge,
}

/// The loadable segments of `entries`, in order.
pub open spec fn load_entries(entries: Seq<SegmentEntry>) -> Seq<SegmentEntry>
    decreases entries.len(),
{
    if entries.len() == 0 {
        Seq::empty()
    } else {
        load_entries(entries.drop_last()) + if entries.last().p_type == PT_LOAD {
            seq![entries.last()]
        } else {
            Seq::empty()
        }
    }
}

/// The end of the highest of `segments`, or 0 where there is none.
pub open spec fn mapped_end(segments: Seq<SegmentEntry>) -> int
    decreases segments.len(),
{
    if segments.len() == 0 {
        0
    } else {
        let rest = mapped_end(segments.drop_last());
        let end = segments.last().p_vaddr + segments.last().p_filesz;
        if end > rest {
            end
        } else {
            rest
        }
    }
}

/// The pages the mapped segments take: their highest end, rounded up to whole pages.
pub open spec fn mapped_pages(segments: Seq<SegmentEntry>) -> int {
    (mapped_end(segments) + PAGE_SIZE - 1) / PAGE_SIZE as int
}

/// The memory segment of a loadable program header.
pub open spec fn memory_segment_of(e: SegmentEntry) -> MemorySegment {
    MemorySegment {
        address: e.p_vaddr,
        file_offset: e.p_offset,
        size: e.p_filesz,
        writable: e.p_flags & PF_W != 0,
    }
}

/// Whether `info` lays out the memory of a program whose loadable segments are `loads`:
/// the segments in order, the mapped pages followed by the stack's, and the stack right
/// after the mapped pages.
pub open spec fn memory_laid_out(info: MemoryInfo, loads: Seq<SegmentEntry>) -> bool {
    &&& info.segments@ == loads.map_values(|e: SegmentEntry| memory_segment_of(e))
    &&& info.stack_internal_address == mapped_pages(loads) * PAGE_SIZE
    &&& info.stack_size == STACK_PAGE_COUNT * PAGE_SIZE
    &&& info.page_count == mapped_pages(loads) + STACK_PAGE_COUNT
}

/// Whether the loadable segments `loads` of a file of `file_size` bytes all lie within it.
pub open spec fn loads_in_file(loads: Seq<SegmentEntry>, file_size: int) -> bool {
    forall|k: int| 0 <= k < loads.len() ==> #[trigger] loads[k].p_offset + loads[k].p_filesz <= file_size
}

/// Whether the ELF file `data` has a loadable segment at `address` that runs past its end.
pub open spec fn segment_outside_file(data: Seq<u8>, address: u64) -> bool {
    elf_segments(data) matches Some(Some(entries)) && exists|k: int|
        0 <= k < entries.len() && {
            let e = #[trigger] entries[k];
            &&& e.p_type == PT_LOAD
            &&& e.p_vaddr == address
            &&& e.p_offset + e.p_filesz > data.len()
        }
}

/// Whether the memory of `loads` with the stack after it fits in 64 bits.
pub open spec fn memory_fits(loads: Seq<SegmentEntry>) -> bool {
    (mapped_pages(loads) + STACK_PAGE_COUNT) * PAGE_SIZE <= u64::MAX
}

/// Whether `r` is what laying out the memory of the ELF file `data` gives: its loadable
/// segments placed at their addresses with the stack after them, or the reason the
/// program headers could not be read or the memory does not fit.
pub open spec fn memory_outcome(data: Seq<u8>, r: Result<MemoryInfo, MemoryError>) -> bool {
    match r {
        Ok(info) => elf_segments(data) matches Some(Some(entries)) && {
            let loads = load_entries(entries);
            &&& loads_in_file(loads, data.len() as int)
            &&& memory_fits(loads)
            &&& memory_laid_out(info, loads)
        },
        Err(MemoryError::Parse(_)) => elf_segments(data) is None,
        Err(MemoryError::NoSegments) => elf_segments(data) == Some(None::<Seq<SegmentEntry>>),
        Err(MemoryError::SegmentOutsideFile { address }) => segment_outside_file(
            data,
            address,
        ),
        Err(MemoryError::TooLarge) => elf_segments(data) matches Some(Some(entries)) && {
            let loads = load_entries(entries);
            &&& loads_in_file(loads, data.len() as int)
            &&& !memory_fits(loads)
        },
    }
}

/// Lays out the memory of the program in the ELF file `elf_bytes`: its loadable
/// segments placed at their addresses, the mapped pages, and a stack of
/// `STACK_PAGE_COUNT` pages after them.
#[verifier::spinoff_prover]
pub fn set_up_memory(elf_bytes: &[u8]) -> (r: Result<MemoryInfo, MemoryError>)
    ensures
        memory_outcome(elf_bytes@, r),
{
    let entries = match read_segments(elf_bytes) {
        Ok(Some(entries)) => entries,
        Ok(None) => {
            return Err(MemoryError::NoSegments);
        },
        Err(e) => {
            return Err(MemoryError::Parse(e));
        },
    };
    let ghost all = entries@;
    let mut segments: Vec<MemorySegment> = Vec::new();
    let mut end: u64 = 0;
    let mut end_overflows = false;
    let mut i: usize = 0;
    while i < entries.len()
        invariant
            i <= entries.len(),
            all == entries@,
            elf_segments(elf_bytes@) == Some(Some(all)),
            segments@ == load_entries(all.take(i as int)).map_values(
                |e: SegmentEntry| memory_segment_of(e),
            ),
            loads_in_file(load_entries(all.take(i as int)), elf_bytes@.len() as int),
            end_overflows ==> mapped_end(load_entries(all.take(i as int))) > u64::MAX,
            !end_overflows ==> end == mapped_end(load_entries(all.take(i as int))),
        decreases entries.len() - i,
    {
        let e = entries[i];
        proof {
            assert(all.take(i + 1).drop_last() =~= all.take(i as int));
            assert(all.take(i + 1).last() == e);
        }
        if e.p_type == PT_LOAD {
            if e.p_offset > elf_bytes.len() as u64 || e.p_filesz > elf_bytes.len() as u64
                - e.p_offset {
                proof {
                    assert(all[i as int] == e);
                    assert(elf_segments(elf_bytes@)->0->0[i as int] == e);
                    assert(segment_outside_file(elf_bytes@, e.p_vaddr));
                }
                return Err(MemoryError::SegmentOutsideFile { address: e.p_vaddr });
            }
            segments.push(
                MemorySegment {
                    address: e.p_vaddr,
                    file_offset: e.p_offset,
                    size: e.p_filesz,
                    writable: e.p_flags & PF_W != 0,
                },
            );
            if e.p_vaddr > u64::MAX - e.p_filesz {
                end_overflows = true;
            } else if !end_overflows && e.p_vaddr + e.p_filesz > end {
                end = e.p_vaddr + e.p_filesz;
            }
            proof {
                let before = load_entries(all.take(i as int));
                assert(load_entries(all.take(i + 1)) =~= before.push(e));
                assert(segments@ =~= load_entries(all.take(i + 1)).map_values(
                    |e: SegmentEntry| memory_segment_of(e),
                ));
                assert(load_entries(all.take(i + 1)).drop_last() =~= before);
            }
        } else {
            proof {
                assert(load_entries(all.take(i + 1)) =~= load_entries(all.take(i as int)));
            }
        }
        i = i + 1;
    }
    proof {
        assert(all.take(entries.len() as int) =~= all);
    }
    let loads_limit = u64::MAX / PAGE_SIZE - STACK_PAGE_COUNT;
    if end_overflows || end / PAGE_SIZE + (if end % PAGE_SIZE == 0 {
        0
    } else {
        1
    }) > loads_limit {
        proof {
            let loads = load_entries(all);
            if !end_overflows {
                assert(mapped_pages(loads) == (end / PAGE_SIZE) as int + (if end % PAGE_SIZE == 0 {
                    0int
                } else {
                    1int
                }));
            }
            assert(!memory_fits(loads)) by (nonlinear_arith)
                requires
                    mapped_pages(loads) > u64::MAX / PAGE_SIZE - STACK_PAGE_COUNT
                        || mapped_end(loads) > u64::MAX,
                    mapped_pages(loads) == (mapped_end(loads) + PAGE_SIZE - 1) / PAGE_SIZE as int,
            ;
        }
        return Err(MemoryError::TooLarge);
    }
    let pages = end / PAGE_SIZE + (if end % PAGE_SIZE == 0 {
        0
    } else {
        1
    });
    proof {
        assert(mapped_pages(load_entries(all)) == pages);
    }
    let stack_internal_address = pages * PAGE_SIZE;
    Ok(
        MemoryInfo {
            segments,
            page_count: pages + STACK_PAGE_COUNT,
            stack_internal_address,
            stack_size: STACK_PAGE_COUNT * PAGE_SIZE,
        },
    )
}


/// The WebAssembly form of the Arm program in an ELF file: its analysis, its memory, the context its
/// routines were lowered in, and the lowering of each routine, in the order of the
/// analysis.
#[derive(Debug)]
pub struct ProgramTranslation {
    pub analysis: Analysis,
    pub memory: MemoryInfo,
    pub context: RoutineContext,
    pub routines: Vec<RoutineTranslation>,
}

/// Why an ELF file could not be translated.
#[derive(Debug)]
pub enum TranslationError {
    /// The file could not be read or analysed.
    Analysis(ElfAnalysisError),
    /// The memory of the program could not be laid out.
    Memory(MemoryError),
    /// The routine at `routine_index` holds an instruction or a block that cannot be
    /// lowered.
    NotLowerable { routine_index: usize },
}

/// Whether the first `n` routines of `routines` can be lowered.
pub open spec fn lowerable_before(routines: Seq<Routine>, n: int) -> bool {
    forall|k: int| 0 <= k < n ==> routine_lowerable(#[trigger] routines[k])
}

/// Whether `ctx` is the context for lowering the routines of `analysis`: functions
/// return the argument registers, call results go to the scratch locals, and the
/// functions are numbered in the order of the routines.
pub open spec fn program_context(ctx: RoutineContext, analysis: Analysis) -> bool {
    &&& ctx.return_registers@ == ids(default_param_registers())
    &&& ctx.func_return_scratch_local_index == FUNC_RETURN_SCRATCH_LOCAL
    &&& ctx.svc_return_scratch_local_index == SVC_RETURN_SCRATCH_LOCAL
    &&& ctx.routine_addresses@ == Seq::new(
        analysis.routines.len() as nat,
        |k: int| analysis.routines[k].address,
    )
}

/// Translates the Arm program in the ELF file `elf_bytes`: analyses it, lays out its
/// memory, and lowers every routine of the analysis.
pub fn translate_elf(elf_bytes: &[u8]) -> (r: Result<ProgramTranslation, TranslationError>)
    ensures
        match r {
            Ok(t) => {
                &&& elf_analysis_outcome(elf_bytes@, Ok(t.analysis))
                &&& memory_outcome(elf_bytes@, Ok(t.memory))
                &&& program_context(t.context, t.analysis)
                &&& t.routines.len() == t.analysis.routines.len()
                &&& forall|k: int|
                    0 <= k < t.routines.len() ==> routine_lowering(
                        #[trigger] t.routines[k],
                        t.analysis.routines[k],
                        t.context,
                    )
            },
            Err(TranslationError::Analysis(e)) => elf_analysis_outcome(elf_bytes@, Err(e)),
            Err(TranslationError::Memory(e)) => {
                &&& exists|a: Analysis| #[trigger] elf_analysis_outcome(elf_bytes@, Ok(a))
                &&& memory_outcome(elf_bytes@, Err(e))
            },
            Err(TranslationError::NotLowerable { routine_index }) => {
                &&& exists|a: Analysis|
                    {
                        &&& #[trigger] elf_analysis_outcome(elf_bytes@, Ok(a))
                        &&& routine_index < a.routines.len()
                        &&& lowerable_before(a.routines@, routine_index as int)
                        &&& !routine_lowerable(a.routines[routine_index as int])
                    }
                &&& exists|m: MemoryInfo| #[trigger] memory_outcome(elf_bytes@, Ok(m))
            },
        },
{
    let analysis = match analyze(elf_bytes, &Arm) {
        Ok(analysis) => analysis,
        Err(e) => {
            return Err(TranslationError::Analysis(e));
        },
    };
    let memory = match set_up_memory(elf_bytes) {
        Ok(memory) => memory,
        Err(e) => {
            return Err(TranslationError::Memory(e));
        },
    };
    let addresses = routine_addresses(&analysis);
    let context = arm_routine_context(addresses);
    proof {
        assert(context.routine_addresses@ =~= Seq::new(
            analysis.routines.len() as nat,
            |k: int| analysis.routines[k].address,
        ));
    }
    let mut routines: Vec<RoutineTranslation> = Vec::new();
    let mut i: usize = 0;
    while i < analysis.routines.len()
        invariant
            i <= analysis.routines.len(),
            elf_analysis_outcome(elf_bytes@, Ok(analysis)),
            memory_outcome(elf_bytes@, Ok(memory)),
            program_context(context, analysis),
            crate::arm::lowering::context_ok(context),
            routines.len() == i,
            lowerable_before(analysis.routines@, i as int),
            forall|k: int|
                0 <= k < i ==> routine_lowering(
                    #[trigger] routines[k],
                    analysis.routines[k],
                    context,
                ),
        decreases analysis.routines.len() - i,
    {
        if !is_routine_lowerable(&analysis.routines[i]) {
            proof {
                assert(elf_analysis_outcome(elf_bytes@, Ok(analysis)));
                assert(memory_outcome(elf_bytes@, Ok(memory)));
            }
            return Err(TranslationError::NotLowerable { routine_index: i });
        }
        routines.push(translate_routine(&analysis.routines[i], &context));
        i = i + 1;
    }
    Ok(ProgramTranslation { analysis, memory, context, routines })
}


/// The type of a function local: one value, or a tuple of values.
#[derive(Debug, Clone, PartialEq, Eq)]
pub enum LocalSlot {
    Single(ValueType),
    Tuple(Vec<ValueType>),
}

/// The types of a routine's function: its parameters, its results, and its other locals.
#[derive(Debug)]
pub struct FunctionTypes {
    pub params: Vec<ValueType>,
    pub results: Vec<ValueType>,
    pub locals: Vec<LocalSlot>,
}

/// The value type of a local of type `t`.
pub open spec fn value_type_of(t: LocalType) -> ValueType {
    match t {
        LocalType::I32 => ValueType::I32,
        _ => ValueType::I64,
    }
}

/// Whether every local of `descriptors` holds an integer.
pub open spec fn integer_locals(descriptors: Seq<LocalDescriptor>) -> bool {
    forall|k: int|
        0 <= k < descriptors.len() ==> {
            ||| (#[trigger] descriptors[k]).type_ is I32
            ||| descriptors[k].type_ is I64
        }
}

/// The value types, in order, of the first `n` locals of `descriptors` that are
/// arguments (`argument`) or not, or, with `results`, that are returned.
pub open spec fn types_where(descriptors: Seq<LocalDescriptor>, n: int, results: bool, argument: bool) -> Seq<ValueType>
    decreases n,
{
    if n <= 0 {
        Seq::empty()
    } else {
        let d = descriptors[n - 1];
        let chosen = if results {
            d.return_value
        } else {
            d.argument == argument
        };
        types_where(descriptors, n - 1, results, argument) + if chosen {
            seq![value_type_of(d.type_)]
        } else {
            Seq::empty()
        }
    }
}

/// The types of the function of a routine whose locals `descriptors` describe, where a
/// supervisor call returns `svc_return_count` values: the argument locals are the
/// parameters, the returned locals the results, and the other locals come first among
/// the rest, followed by the block selector (`i32`), the call result tuple and the
/// supervisor call result tuple (all `i64`).
pub fn function_types(descriptors: &Vec<LocalDescriptor>, svc_return_count: usize) -> (r: FunctionTypes)
    requires
        integer_locals(descriptors@),
    ensures
        r.params@ == types_where(descriptors@, descriptors.len() as int, false, true),
        r.results@ == types_where(descriptors@, descriptors.len() as int, true, false),
        ({
            let others = types_where(descriptors@, descriptors.len() as int, false, false);
            &&& r.locals.len() == others.len() + 3
            &&& forall|k: int| 0 <= k < others.len() ==> r.locals@[k] == LocalSlot::Single(others[k])
            &&& r.locals@[others.len() as int] == LocalSlot::Single(ValueType::I32)
            &&& r.locals@[others.len() as int + 1] matches LocalSlot::Tuple(t) && t@ == r.results@
            &&& r.locals@[others.len() as int + 2] matches LocalSlot::Tuple(t) && t@ == Seq::new(
                svc_return_count as nat,
                |i: int| ValueType::I64,
            )
        }),
{
    let mut params: Vec<ValueType> = Vec::new();
    let mut results: Vec<ValueType> = Vec::new();
    let mut others: Vec<ValueType> = Vec::new();
    let mut k: usize = 0;
    while k < descriptors.len()
        invariant
            k <= descriptors.len(),
            params@ == types_where(descriptors@, k as int, false, true),
            results@ == types_where(descriptors@, k as int, true, false),
            others@ == types_where(descriptors@, k as int, false, false),
        decreases descriptors.len() - k,
    {
        let d = &descriptors[k];
        let t = match d.type_ {
            LocalType::I32 => ValueType::I32,
            _ => ValueType::I64,
        };
        let ghost (p0, r0, o0) = (params@, results@, others@);
        if d.argument {
            params.push(t);
        } else {
            others.push(t);
        }
        if d.return_value {
            results.push(t);
        }
        proof {
            assert(params@ =~= types_where(descriptors@, k + 1, false, true));
            assert(results@ =~= types_where(descriptors@, k + 1, true, false));
            assert(others@ =~= types_where(descriptors@, k + 1, false, false));
        }
        k = k + 1;
    }
    let mut svc_results: Vec<ValueType> = Vec::new();
    let mut i: usize = 0;
    while i < svc_return_count
        invariant
            i <= svc_return_count,
            svc_results@ == Seq::new(i as nat, |j: int| ValueType::I64),
        decreases svc_return_count - i,
    {
        svc_results.push(ValueType::I64);
        proof {
            assert(svc_results@ =~= Seq::new((i + 1) as nat, |j: int| ValueType::I64));
        }
        i = i + 1;
    }
    let ghost other_view = others@;
    let mut locals: Vec<LocalSlot> = Vec::new();
    let mut j: usize = 0;
    while j < others.len()
        invariant
            j <= others.len(),
            locals.len() == j,
            forall|q: int| 0 <= q < j ==> locals@[q] == LocalSlot::Single(others@[q]),
        decreases others.len() - j,
    {
        locals.push(LocalSlot::Single(others[j]));
        j = j + 1;
    }
    locals.push(LocalSlot::Single(ValueType::I32));
    locals.push(LocalSlot::Tuple(results.clone()));
    locals.push(LocalSlot::Tuple(svc_results));
    FunctionTypes { params, results, locals }
}


/// The loadable entries of `entries` are those whose type is `PT_LOAD` (1), in order.
proof fn lemma_load_entries_loadable(entries: Seq<SegmentEntry>)
    ensures
        forall|k: int| 0 <= k < load_entries(entries).len() ==> (#[trigger] load_entries(entries)[k]).p_type == 1,
        forall|k: int|
            0 <= k < entries.len() && (#[trigger] entries[k]).p_type == 1 ==> load_entries(entries).contains(entries[k]),
    decreases entries.len(),
{
    if entries.len() > 0 {
        let prefix = entries.drop_last();
        lemma_load_entries_loadable(prefix);
        assert forall|k: int| 0 <= k < entries.len() && (#[trigger] entries[k]).p_type == 1 implies load_entries(
            entries,
        ).contains(entries[k]) by {
            if k < entries.len() - 1 {
                assert(prefix[k] == entries[k]);
                let j = choose|j: int| 0 <= j < load_entries(prefix).len() && load_entries(prefix)[j] == entries[k];
                assert(load_entries(entries)[j] == entries[k]);
            } else {
                assert(load_entries(entries)[load_entries(entries).len() - 1] == entries[k]);
            }
        }
    }
}

/// Laying out memory places every loadable program header, in order, as a segment at its
/// load address with its file offset and file size, writable exactly when the header's
/// `PF_W` bit (bit 1 of its flags) is set, whatever its other flag bits.
pub proof fn lemma_laid_out_segments(data: Seq<u8>, info: MemoryInfo)
    requires
        memory_outcome(data, Ok(info)),
    ensures
        elf_segments(data) matches Some(Some(entries)) && {
            let loads = load_entries(entries);
            &&& info.segments.len() == loads.len()
            &&& forall|k: int| 0 <= k < loads.len() ==> (#[trigger] loads[k]).p_type == 1
            &&& forall|k: int|
                0 <= k < entries.len() && (#[trigger] entries[k]).p_type == 1 ==> loads.contains(entries[k])
            &&& forall|k: int|
                0 <= k < loads.len() ==> {
                    let segment = #[trigger] info.segments@[k];
                    &&& segment.address == loads[k].p_vaddr
                    &&& segment.file_offset == loads[k].p_offset
                    &&& segment.size == loads[k].p_filesz
                    &&& segment.writable == ((loads[k].p_flags / 2) % 2 == 1)
                }
        },
{
    let entries = elf_segments(data)->0->0;
    let loads = load_entries(entries);
    lemma_load_entries_loadable(entries);
    assert forall|k: int| 0 <= k < loads.len() implies {
        let segment = #[trigger] info.segments@[k];
        &&& segment.address == loads[k].p_vaddr
        &&& segment.file_offset == loads[k].p_offset
        &&& segment.size == loads[k].p_filesz
        &&& segment.writable == ((loads[k].p_flags / 2) % 2 == 1)
    } by {
        let f = loads[k].p_flags;
        assert((f & 2u32 != 0) == ((f / 2) % 2 == 1)) by (bit_vector);
        assert(info.segments@[k] == memory_segment_of(loads[k]));
    }
}

} // verus!
