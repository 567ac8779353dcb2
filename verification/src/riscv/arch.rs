use vstd::prelude::*;
use crate::aw_core::architecture::{LocalDescriptor, LocalType};

verus! {

/// Stack pointer register (`sp` / `x2`).
pub const SP: u32 = 2;

/// Syscall-number register (`a7` / `x17`).
pub const SYSCALL_NUMBER_REGISTER: u32 = 17;

/// Zero register (`x0`).
pub const ZERO: u32 = 0;

/// Return-address register (`ra` / `x1`).
pub const RA: u32 = 1;

/// The 64-bit RISC-V architecture.
#[derive(Debug)]
pub struct RiscV;

/// Argument and return-value registers (`a0`..`a7` / `x10`..`x17`).
pub open spec fn arg_registers() -> Seq<u32> {
    seq![10u32, 11, 12, 13, 14, 15, 16, 17]
}

/// Whether register `x<n>` is passed into and returned from a routine: `ra`, `sp` and
/// the argument registers.
pub open spec fn is_linkage_register(n: int) -> bool {
    n == 1 || n == 2 || (10 <= n <= 17)
}

/// Whether `d` is the local of register `x<n>`: 64-bit, and passed in and returned
/// exactly when the register is a linkage register.
pub open spec fn is_local_of(d: LocalDescriptor, n: int) -> bool {
    &&& d.argument == is_linkage_register(n)
    &&& d.return_value == is_linkage_register(n)
    &&& d.type_ is I64
}

/// Where an instruction starts in a code buffer, and whether it is a 16-bit compressed
/// instruction.
#[derive(Debug, Clone, Copy, PartialEq, Eq)]
pub struct InstructionSpan {
    pub offset: usize,
    pub compressed: bool,
}

/// The instructions of `bytes` from `offset` on: an instruction whose first halfword
/// has its two low bits set is 32 bits long, any other is a compressed 16-bit one; a
/// trailing single byte is ignored.
pub open spec fn spans_from(bytes: Seq<u8>, offset: nat) -> Seq<InstructionSpan>
    decreases bytes.len() + 4 - offset,
{
    if offset + 2 > bytes.len() {
        Seq::empty()
    } else if bytes[offset as int] % 4 == 3 {
        seq![InstructionSpan { offset: offset as usize, compressed: false }] + spans_from(
            bytes,
            offset + 4,
        )
    } else {
        seq![InstructionSpan { offset: offset as usize, compressed: true }] + spans_from(
            bytes,
            offset + 2,
        )
    }
}

/// Whether every 32-bit instruction of `bytes` from `offset` on is complete.
pub open spec fn spans_fit(bytes: Seq<u8>, offset: nat) -> bool
    decreases bytes.len() + 4 - offset,
{
    if offset + 2 > bytes.len() {
        true
    } else if bytes[offset as int] % 4 == 3 {
        offset + 4 <= bytes.len() && spans_fit(bytes, offset + 4)
    } else {
        spans_fit(bytes, offset + 2)
    }
}

impl RiscV {
    /// The granularity of instruction addresses, in bytes: compressed instructions are
    /// two bytes long.
    pub fn instruction_size(&self) -> (r: u64)
        ensures
            r == 2,
    {
        2
    }

    /// Whether every 32-bit instruction of `bytes` is complete, so that it can be split.
    pub fn spans_complete(&self, bytes: &[u8]) -> (r: bool)
        ensures
            r == spans_fit(bytes@, 0),
    {
        let mut offset: usize = 0;
        while bytes.len() - offset >= 2
            invariant
                offset <= bytes.len(),
                spans_fit(bytes@, 0) == spans_fit(bytes@, offset as nat),
            decreases bytes.len() - offset,
        {
            let first = bytes[offset];
            assert(first & 3 == 3 <==> first % 4 == 3) by (bit_vector);
            if first & 0b11 == 0b11 {
                if bytes.len() - offset < 4 {
                    return false;
                }
                offset = offset + 4;
            } else {
                offset = offset + 2;
            }
        }
        true
    }

    /// Splits `bytes` into instructions, in order.
    pub fn instruction_spans(&self, bytes: &[u8]) -> (r: Vec<InstructionSpan>)
        requires
            spans_fit(bytes@, 0),
        ensures
            r@ == spans_from(bytes@, 0),
    {
        let mut result: Vec<InstructionSpan> = Vec::new();
        let mut offset: usize = 0;
        while offset < bytes.len() && bytes.len() - offset >= 2
            invariant
                offset <= bytes.len() + 2,
                spans_fit(bytes@, offset as nat),
                result@ + spans_from(bytes@, offset as nat) == spans_from(bytes@, 0),
            decreases bytes.len() - offset,
        {
            let first = bytes[offset];
            assert(first & 3 == 3 <==> first % 4 == 3) by (bit_vector);
            if first & 0b11 == 0b11 {
                result.push(InstructionSpan { offset, compressed: false });
                proof {
                    assert(result@ + spans_from(bytes@, (offset + 4) as nat) =~= spans_from(bytes@, 0));
                }
                offset = offset + 4;
            } else {
                result.push(InstructionSpan { offset, compressed: true });
                proof {
                    assert(result@ + spans_from(bytes@, (offset + 2) as nat) =~= spans_from(bytes@, 0));
                }
                offset = offset + 2;
            }
        }
        proof {
            assert(spans_from(bytes@, offset as nat) =~= Seq::empty());
            assert(result@ =~= spans_from(bytes@, 0));
        }
        result
    }

    /// The locals of a routine, one per register `x1`..`x31`: all 64-bit, with `ra`,
    /// `sp` and `a0`..`a7` passed in and returned.
    pub fn locals(&self) -> (r: Vec<LocalDescriptor>)
        ensures
            r.len() == 31,
            forall|i: int| 0 <= i < 31 ==> is_local_of(#[trigger] r[i], i + 1),
    {
        let mut result: Vec<LocalDescriptor> = Vec::new();
        let mut register: u32 = 1;
        while register < 32
            invariant
                1 <= register <= 32,
                result.len() == register - 1,
                forall|i: int| 0 <= i < result.len() ==> is_local_of(#[trigger] result[i], i + 1),
            decreases 32 - register,
        {
            let linkage = register == 1 || register == 2 || (10 <= register && register <= 17);
            let descriptor = LocalDescriptor {
                argument: linkage,
                return_value: linkage,
                type_: LocalType::I64,
            };
            assert(is_local_of(descriptor, register as int));
            result.push(descriptor);
            register = register + 1;
        }
        result
    }

    /// The registers that carry a routine's arguments: `a0`..`a7`, then `sp`.
    pub fn param_registers(&self) -> (r: Vec<u32>)
        ensures
            r@ == arg_registers().push(SP),
    {
        let r = vec![10, 11, 12, 13, 14, 15, 16, 17, SP];
        proof {
            assert(r@ =~= arg_registers().push(SP));
        }
        r
    }

    /// The registers that carry a system call's number (`a7`) and arguments (`a0`..`a5`).
    pub fn svc_param_registers(&self) -> (r: Vec<u32>)
        ensures
            r@ == seq![SYSCALL_NUMBER_REGISTER] + arg_registers().take(6),
    {
        let r = vec![SYSCALL_NUMBER_REGISTER, 10, 11, 12, 13, 14, 15];
        proof {
            assert(r@ =~= seq![SYSCALL_NUMBER_REGISTER] + arg_registers().take(6));
        }
        r
    }

    /// The registers that carry a system call's results: `a0` and `a1`.
    pub fn svc_return_registers(&self) -> (r: Vec<u32>)
        ensures
            r@ == arg_registers().take(2),
    {
        let r = vec![10, 11];
        proof {
            assert(r@ =~= arg_registers().take(2));
        }
        r
    }

    /// The stack pointer register.
    pub fn stack_pointer_register(&self) -> (r: u32)
        ensures
            r == SP,
    {
        SP
    }

    /// Whether `register` is the zero register.
    pub fn is_zero_register(&self, register: u32) -> (r: bool)
        ensures
            r == (register == ZERO),
    {
        register == ZERO
    }
}

/// The instructions of a code buffer follow each other without gaps: the first starts
/// where the split starts, each next one right after the previous, two bytes after a
/// compressed instruction and four after another, and each lies within the buffer.
pub proof fn lemma_spans_contiguous(bytes: Seq<u8>, offset: nat)
    requires
        spans_fit(bytes, offset),
        bytes.len() <= usize::MAX,
    ensures
        spans_from(bytes, offset).len() > 0 ==> spans_from(bytes, offset)[0].offset == offset,
        forall|k: int|
            0 <= k < spans_from(bytes, offset).len() ==> {
                let span = #[trigger] spans_from(bytes, offset)[k];
                span.offset + (if span.compressed {
                    2int
                } else {
                    4int
                }) <= bytes.len()
            },
        forall|k: int|
            0 <= k < spans_from(bytes, offset).len() - 1 ==> {
                let span = #[trigger] spans_from(bytes, offset)[k];
                spans_from(bytes, offset)[k + 1].offset == span.offset + (if span.compressed {
                    2int
                } else {
                    4int
                })
            },
    decreases bytes.len() + 4 - offset,
{
    if offset + 2 <= bytes.len() {
        let next: nat = if bytes[offset as int] % 4 == 3 {
            offset + 4
        } else {
            offset + 2
        };
        lemma_spans_contiguous(bytes, next);
        let rest = spans_from(bytes, next);
        let all = spans_from(bytes, offset);
        assert(all == seq![all[0]] + rest);
        assert forall|k: int| 0 <= k < all.len() - 1 implies {
            let span = #[trigger] all[k];
            all[k + 1].offset == span.offset + (if span.compressed {
                2int
            } else {
                4int
            })
        } by {
            if k > 0 {
                assert(all[k] == rest[k - 1]);
                assert(all[k + 1] == rest[k]);
            } else {
                assert(all[1] == rest[0]);
            }
        }
        assert forall|k: int| 0 <= k < all.len() implies {
            let span = #[trigger] all[k];
            span.offset + (if span.compressed {
                2int
            } else {
                4int
            }) <= bytes.len()
        } by {
            if k > 0 {
                assert(all[k] == rest[k - 1]);
            }
        }
    }
}

} // verus!
