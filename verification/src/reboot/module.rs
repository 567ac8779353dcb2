use vstd::prelude::*;
use crate::module::memory::ValueType;

verus! {

/// A memory load: the value type and, for a narrow load, its width and signedness.
#[derive(Debug, Clone, Copy, PartialEq, Eq, Hash)]
pub enum LoadVariant {
    I32,
    I64,
    I32L8 { signed: bool },
    I32L16 { signed: bool },
    I64L8 { signed: bool },
    I64L16 { signed: bool },
    I64L32 { signed: bool },
}

/// The number of bytes a load reads.
pub open spec fn load_byte_count(v: LoadVariant) -> u32 {
    match v {
        LoadVariant::I32 => 4,
        LoadVariant::I64 => 8,
        LoadVariant::I32L8 { .. } => 1,
        LoadVariant::I32L16 { .. } => 2,
        LoadVariant::I64L8 { .. } => 1,
        LoadVariant::I64L16 { .. } => 2,
        LoadVariant::I64L32 { .. } => 4,
    }
}

/// The value type a load produces.
pub open spec fn load_value_type(v: LoadVariant) -> ValueType {
    match v {
        LoadVariant::I32 | LoadVariant::I32L8 { .. } | LoadVariant::I32L16 { .. } => ValueType::I32,
        _ => ValueType::I64,
    }
}

impl LoadVariant {
    /// The number of bytes read from memory.
    pub fn byte_count(&self) -> (r: u32)
        ensures
            r == load_byte_count(*self),
    {
        match self {
            LoadVariant::I32 => 4,
            LoadVariant::I64 => 8,
            LoadVariant::I32L8 { .. } => 1,
            LoadVariant::I32L16 { .. } => 2,
            LoadVariant::I64L8 { .. } => 1,
            LoadVariant::I64L16 { .. } => 2,
            LoadVariant::I64L32 { .. } => 4,
        }
    }

    /// The natural alignment of the load: its byte count.
    pub fn alignment(&self) -> (r: u32)
        ensures
            r == load_byte_count(*self),
    {
        match self {
            LoadVariant::I32 => 4,
            LoadVariant::I64 => 8,
            LoadVariant::I32L8 { .. } => 1,
            LoadVariant::I32L16 { .. } => 2,
            LoadVariant::I64L8 { .. } => 1,
            LoadVariant::I64L16 { .. } => 2,
            LoadVariant::I64L32 { .. } => 4,
        }
    }

    /// Whether a narrow load sign-extends; full-width loads count as signed.
    pub fn signed(&self) -> (r: bool)
        ensures
            r == match *self {
                LoadVariant::I32L8 { signed } => signed,
                LoadVariant::I32L16 { signed } => signed,
                LoadVariant::I64L8 { signed } => signed,
                LoadVariant::I64L16 { signed } => signed,
                LoadVariant::I64L32 { signed } => signed,
                _ => true,
            },
    {
        match self {
            LoadVariant::I32 => true,
            LoadVariant::I64 => true,
            LoadVariant::I32L8 { signed } => *signed,
            LoadVariant::I32L16 { signed } => *signed,
            LoadVariant::I64L8 { signed } => *signed,
            LoadVariant::I64L16 { signed } => *signed,
            LoadVariant::I64L32 { signed } => *signed,
        }
    }

    /// The value type the load produces.
    pub fn type_(&self) -> (r: ValueType)
        ensures
            r == load_value_type(*self),
    {
        match self {
            LoadVariant::I32 => ValueType::I32,
            LoadVariant::I64 => ValueType::I64,
            LoadVariant::I32L8 { .. } => ValueType::I32,
            LoadVariant::I32L16 { .. } => ValueType::I32,
            LoadVariant::I64L8 { .. } => ValueType::I64,
            LoadVariant::I64L16 { .. } => ValueType::I64,
            LoadVariant::I64L32 { .. } => ValueType::I64,
        }
    }
}

/// A memory store: the value type and, for a narrow store, its width.
#[derive(Debug, Clone, Copy, PartialEq, Eq, Hash)]
pub enum StoreVariant {
    I32,
    I64,
    I32L8,
    I32L16,
    I64L8,
    I64L16,
    I64L32,
}

/// The number of bytes a store writes.
pub open spec fn store_byte_count(v: StoreVariant) -> u32 {
    match v {
        StoreVariant::I32 => 4,
        StoreVariant::I64 => 8,
        StoreVariant::I32L8 => 1,
        StoreVariant::I32L16 => 2,
        StoreVariant::I64L8 => 1,
        StoreVariant::I64L16 => 2,
        StoreVariant::I64L32 => 4,
    }
}

/// The value type a store consumes.
pub open spec fn store_value_type(v: StoreVariant) -> ValueType {
    match v {
        StoreVariant::I32 | StoreVariant::I32L8 | StoreVariant::I32L16 => ValueType::I32,
        _ => ValueType::I64,
    }
}

impl StoreVariant {
    /// The number of bytes written to memory.
    pub fn byte_count(&self) -> (r: u32)
        ensures
            r == store_byte_count(*self),
    {
        match self {
            StoreVariant::I32 => 4,
            StoreVariant::I64 => 8,
            StoreVariant::I32L8 => 1,
            StoreVariant::I32L16 => 2,
            StoreVariant::I64L8 => 1,
            StoreVariant::I64L16 => 2,
            StoreVariant::I64L32 => 4,
        }
    }

    /// The natural alignment of the store: its byte count.
    pub fn alignment(&self) -> (r: u32)
        ensures
            r == store_byte_count(*self),
    {
        match self {
            StoreVariant::I32 => 4,
            StoreVariant::I64 => 8,
            StoreVariant::I32L8 => 1,
            StoreVariant::I32L16 => 2,
            StoreVariant::I64L8 => 1,
            StoreVariant::I64L16 => 2,
            StoreVariant::I64L32 => 4,
        }
    }

    /// The value type the store consumes.
    pub fn type_(&self) -> (r: ValueType)
        ensures
            r == store_value_type(*self),
    {
        match self {
            StoreVariant::I32 => ValueType::I32,
            StoreVariant::I64 => ValueType::I64,
            StoreVariant::I32L8 => ValueType::I32,
            StoreVariant::I32L16 => ValueType::I32,
            StoreVariant::I64L8 => ValueType::I64,
            StoreVariant::I64L16 => ValueType::I64,
            StoreVariant::I64L32 => ValueType::I64,
        }
    }
}

/// A unary WebAssembly operation.
#[derive(Debug, Clone, Copy, PartialEq, Eq, Hash)]
pub enum UnaryOp {
    WrapInt64,
    ExtendSInt32,
    ExtendUInt32,
    Abs,
    Ceil,
    Floor,
    Trunc,
    Nearest,
    Sqrt,
    EqZInt32,
    ClzInt32,
    CtzInt32,
    PopcntInt32,
    EqZInt64,
    ClzInt64,
    CtzInt64,
    PopcntInt64,
}

/// A binary WebAssembly operation.
#[derive(Debug, Clone, Copy, PartialEq, Eq, Hash)]
pub enum BinaryOp {
    AddInt64,
    MulInt64,
    SubInt64,
    DivSInt64,
    DivUInt64,
    RemSInt64,
    RemUInt64,
    AndInt64,
    OrInt64,
    XorInt64,
    ShlInt64,
    ShrInt64,
    RotLInt64,
    RotRInt64,
    EqInt64,
    NeInt64,
    LtSInt64,
    LtUInt64,
    LeSInt64,
    LeUInt64,
    GtSInt64,
    GtUInt64,
    GeSInt64,
    GeUInt64,
    AddInt32,
    MulInt32,
    SubInt32,
    DivSInt32,
    DivUInt32,
    RemSInt32,
    RemUInt32,
    AndInt32,
    OrInt32,
    XorInt32,
    ShlInt32,
    ShrInt32,
    RotLInt32,
    RotRInt32,
    EqInt32,
    NeInt32,
    LtSInt32,
    LtUInt32,
    LeSInt32,
    LeUInt32,
    GtSInt32,
    GtUInt32,
    GeSInt32,
    GeUInt32,
}

} // verus!
