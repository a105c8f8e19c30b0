//! WebAssembly: a module in memory and its binary encoding.
use vstd::prelude::*;

pub mod encoder;
pub mod little_endian_base_128;

verus! {

/// A module: its function types, imports, exports and functions, in their
/// order, and the index of the function to start with, if there is one.
#[derive(Debug)]
pub struct WasmModule {
    pub types: Vec<FunctionType>,
    pub imports: Vec<Import>,
    pub exports: Vec<Export>,
    pub functions: Vec<Function>,
    pub start: Option<u32>,
}

/// A number type.
#[derive(Clone, Copy, Debug, PartialEq, Eq, Structural)]
pub enum NumType {
    I32,
    I64,
    F32,
    F64,
}

/// The type of a function: the types of its parameters and of its results.
#[derive(Debug)]
pub struct FunctionType {
    pub args: Vec<NumType>,
    pub ret: Vec<NumType>,
}

/// An import: the module and the name it comes from, and what it is.
#[derive(Debug)]
pub struct Import {
    pub module: String,
    pub name: String,
    pub typ: ImportType,
}

/// What an import is: a function of the type with the given index, or a
/// memory with a minimum and an optional maximum size.
#[derive(Clone, Copy, Debug, PartialEq, Eq)]
pub enum ImportType {
    Func(u32),
    Memory { min: u32, max: Option<u32> },
}

/// An export: its name and what it is.
#[derive(Debug)]
pub struct Export {
    pub name: String,
    pub typ: ExportType,
}

/// What an export is: the function with the given index.
#[derive(Clone, Copy, Debug, PartialEq, Eq)]
pub enum ExportType {
    Func(u32),
}

/// A function: the index of its type, the types of its locals, and its
/// body.
#[derive(Debug)]
pub struct Function {
    pub type_idx: u32,
    pub locals: Vec<NumType>,
    pub body: Expression,
}

/// A sequence of instructions.
#[derive(Debug)]
pub struct Expression {
    pub instructions: Vec<Instruction>,
}

/// An instruction. A float constant is held as the bits of its IEEE-754
/// representation.
#[derive(Clone, Copy, Debug, PartialEq, Eq)]
pub enum Instruction {
    I32Const(i32),
    I64Const(i64),
    F32Const(u32),
    F64Const(u64),
    IntegerOp(IntegerOp),
    FloatOp(FloatOp),
    ConvertOp(ConvertOp),
    VariableOp(VariableOp),
    ControlOp(ControlOp),
}

/// An operation on references.
#[derive(Clone, Copy, Debug, PartialEq, Eq)]
pub enum RefOp {
    Func(u32),
    IsNull,
    Null(u32),
}

/// An operation on a local or a global variable, by its index.
#[derive(Clone, Copy, Debug, PartialEq, Eq)]
pub enum VariableOp {
    LocalGet(u32),
    LocalSet(u32),
    LocalTee(u32),
    GlobalGet(u32),
    GlobalSet(u32),
}

/// A control operation.
#[derive(Clone, Copy, Debug, PartialEq, Eq)]
pub enum ControlOp {
    Call(u32),
    Return,
    Nop,
}

/// An integer type.
#[derive(Clone, Copy, Debug, PartialEq, Eq, Structural)]
pub enum IntegerType {
    I32,
    I64,
}

/// A float type.
#[derive(Clone, Copy, Debug, PartialEq, Eq, Structural)]
pub enum FloatType {
    F32,
    F64,
}

/// An integer operation on operands of one integer type.
#[derive(Clone, Copy, Debug, PartialEq, Eq, Structural)]
pub struct IntegerOp {
    pub op: IntegerOpType,
    pub typ: IntegerType,
}

/// A float operation on operands of one float type.
#[derive(Clone, Copy, Debug, PartialEq, Eq, Structural)]
pub struct FloatOp {
    pub op: FloatOpType,
    pub typ: FloatType,
}

/// The integer operations.
#[derive(Clone, Copy, Debug, PartialEq, Eq, Structural)]
pub enum IntegerOpType {
    Clz,
    Ctz,
    Popcnt,
    Eqz,
    Eq,
    Ne,
    LtS,
    LtU,
    GtS,
    GtU,
    LeS,
    LeU,
    GeS,
    GeU,
    Add,
    Sub,
    Mul,
    DivS,
    DivU,
    RemS,
    RemU,
    And,
    Or,
    Xor,
    Shl,
    ShrU,
    ShrS,
    Rotl,
    Rotr,
}

/// The float operations.
#[derive(Clone, Copy, Debug, PartialEq, Eq, Structural)]
pub enum FloatOpType {
    Abs,
    Neg,
    Sqrt,
    Ceil,
    Floor,
    Trunc,
    Nearest,
    Add,
    Sub,
    Mul,
    Div,
    Min,
    Max,
    Copysign,
    Eq,
    Ne,
    Lt,
    Le,
    Ge,
    Gt,
}

/// The conversions between number types.
#[derive(Clone, Copy, Debug, PartialEq, Eq, Structural)]
pub enum ConvertOp {
    I32Extend8S,
    I32Extend16S,
    I64Extend8S,
    I64Extend16S,
    I64Extend32S,
    I32WrapI64,
    I64ExtendI32S,
    I64ExtendI32U,
    I32TruncF32S,
    I32TruncF32U,
    I32TruncF64S,
    I32TruncF64U,
    I64TruncF32S,
    I64TruncF32U,
    I64TruncF64S,
    I64TruncF64U,
    I32TruncSatF32S,
    I32TruncSatF32U,
    I32TruncSatF64S,
    I32TruncSatF64U,
    I64TruncSatF32S,
    I64TruncSatF32U,
    I64TruncSatF64S,
    I64TruncSatF64U,
    F32DemoteF64,
    F64PromoteF32,
    F32ConvertI32S,
    F32ConvertI32U,
    F32ConvertI64S,
    F32ConvertI64U,
    F64ConvertI32S,
    F64ConvertI32U,
    F64ConvertI64S,
    F64ConvertI64U,
    I32ReinterpretF32,
    I64ReinterpretF64,
    F32ReinterpretI32,
    F64ReinterpretI64,
}

} // verus!
