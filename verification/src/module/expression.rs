use vstd::prelude::*;
use crate::module::memory::{LoadVariant, StoreVariant};

verus! {

/// A unary WebAssembly operation.
#[derive(Debug, Clone, Copy, PartialEq, Eq, Hash)]
pub enum UnaryOp {
    WrapInt64,
    ExtendSInt32,
    ExtendUInt32,
    Abs,
    Ceil,
    Floor,
    Trunc,
    Nearest,
    Sqrt,
    EqZInt32,
    ClzInt32,
    CtzInt32,
    PopcntInt32,
    EqZInt64,
    ClzInt64,
    CtzInt64,
    PopcntInt64,
}

/// A binary WebAssembly operation.
#[derive(Debug, Clone, Copy, PartialEq, Eq, Hash)]
pub enum BinaryOp {
    AddInt64,
    MulInt64,
    SubInt64,
    DivSInt64,
    DivUInt64,
    RemSInt64,
    RemUInt64,
    AndInt64,
    OrInt64,
    XorInt64,
    ShlInt64,
    ShrSInt64,
    ShrUInt64,
    RotLInt64,
    RotRInt64,
    EqInt64,
    NeInt64,
    LtSInt64,
    LtUInt64,
    LeSInt64,
    LeUInt64,
    GtSInt64,
    GtUInt64,
    GeSInt64,
    GeUInt64,
    AddInt32,
    MulInt32,
    SubInt32,
    DivSInt32,
    DivUInt32,
    RemSInt32,
    RemUInt32,
    AndInt32,
    OrInt32,
    XorInt32,
    ShlInt32,
    ShrSInt32,
    ShrUInt32,
    RotLInt32,
    RotRInt32,
    EqInt32,
    NeInt32,
    LtSInt32,
    LtUInt32,
    LeSInt32,
    LeUInt32,
    GtSInt32,
    GtUInt32,
    GeSInt32,
    GeUInt32,
}


/// A constant: the bits of a 32-bit or a 64-bit integer.
#[derive(Debug, Clone, Copy, PartialEq, Eq)]
pub enum Literal {
    I32(u32),
    I64(u64),
}

/// The function a call goes to: a translated routine, by its index, or one of the
/// host's handlers of supervisor calls (Arm) and environment calls (RISC-V).
#[derive(Debug, Clone, Copy, PartialEq, Eq)]
pub enum CallTarget {
    Routine(usize),
    SupervisorCall,
    EnvironmentCall,
}

/// A WebAssembly expression tree.
#[derive(Debug, PartialEq, Eq)]
pub enum Expression {
    Const(Literal),
    LocalGet { index: u32 },
    LocalSet { index: u32, value: Box<Expression> },
    Unary { op: UnaryOp, operand: Box<Expression> },
    Binary { op: BinaryOp, left: Box<Expression>, right: Box<Expression> },
    Load { variant: LoadVariant, address: Box<Expression>, offset: u32, align: u32 },
    Store {
        variant: StoreVariant,
        value: Box<Expression>,
        address: Box<Expression>,
        offset: u32,
        align: u32,
    },
    Call { target: CallTarget, arguments: ExpressionList },
    Tuple(ExpressionList),
    TupleExtract { tuple: Box<Expression>, index: u32 },
    Return(Box<Expression>),
    Nop,
    Unreachable,
}

/// A sequence of expressions: the operands of a call or the elements of a tuple.
#[derive(Debug, PartialEq, Eq)]
pub enum ExpressionList {
    Empty,
    Cons(Box<Expression>, Box<ExpressionList>),
}

/// The list holding the expressions of `s`, in order.
pub open spec fn list_of(s: Seq<Expression>) -> ExpressionList
    decreases s.len(),
{
    if s.len() == 0 {
        ExpressionList::Empty
    } else {
        ExpressionList::Cons(Box::new(s[0]), Box::new(list_of(s.drop_first())))
    }
}

proof fn lemma_list_of_suffix(s: Seq<Expression>, k: int)
    requires
        0 <= k < s.len(),
    ensures
        list_of(s.subrange(k, s.len() as int)) == ExpressionList::Cons(
            Box::new(s[k]),
            Box::new(list_of(s.subrange(k + 1, s.len() as int))),
        ),
{
    assert(s.subrange(k, s.len() as int).drop_first() =~= s.subrange(k + 1, s.len() as int));
}

/// The list holding the expressions of `items`, in order.
pub fn expression_list(items: Vec<Expression>) -> (r: ExpressionList)
    ensures
        r == list_of(items@),
{
    let ghost all = items@;
    let mut items = items;
    let mut list = ExpressionList::Empty;
    proof {
        assert(all.subrange(all.len() as int, all.len() as int) =~= Seq::<Expression>::empty());
    }
    while items.len() > 0
        invariant
            items@ == all.take(items.len() as int),
            items.len() <= all.len(),
            list == list_of(all.subrange(items.len() as int, all.len() as int)),
        decreases items.len(),
    {
        let last = items.pop().unwrap();
        proof {
            lemma_list_of_suffix(all, items.len() as int);
            assert(items@ =~= all.take(items.len() as int));
        }
        list = ExpressionList::Cons(Box::new(last), Box::new(list));
    }
    proof {
        assert(all.subrange(0, all.len() as int) =~= all);
    }
    list
}

} // verus!
