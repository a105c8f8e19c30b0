//! The binary encoding of a module.
use vstd::prelude::*;
use vstd::utf8::encode_utf8;
use crate::wasm::little_endian_base_128::{
    encode_signed, encode_unsigned, lemma_uleb128_not_empty, sleb128, uleb128,
};
use crate::wasm::{
    ControlOp, ConvertOp, Export, ExportType, Expression, FloatOp, FloatOpType, FloatType,
    Function, FunctionType, Import, ImportType, Instruction, IntegerOp, IntegerOpType,
    IntegerType, NumType, VariableOp, WasmModule,
};

verus! {

/// A value that has a binary encoding.
pub trait EncodesToWasm {
    /// The encoding of the value.
    spec fn wasm_bytes(&self) -> Seq<u8>;

    /// Appends the encoding of the value to `output`.
    fn encode_to_wasm(&self, output: &mut Vec<u8>)
        ensures
            final(output)@ == old(output)@ + self.wasm_bytes(),
    ;
}

/// The encodings of `items`, one after the other.
pub open spec fn encode_all<T: EncodesToWasm>(items: Seq<T>) -> Seq<u8>
    decreases items.len(),
{
    if items.len() == 0 {
        Seq::empty()
    } else {
        encode_all(items.drop_last()) + items.last().wasm_bytes()
    }
}

/// The encoding of a vector: the number of its items, then the items.
pub open spec fn vec_bytes<T: EncodesToWasm>(items: Seq<T>) -> Seq<u8> {
    uleb128(items.len()) + encode_all(items)
}

/// The encoding of a section: its id, the length of its contents in bytes,
/// and its contents.
pub open spec fn framed(id: u8, contents: Seq<u8>) -> Seq<u8> {
    seq![id] + uleb128(contents.len()) + contents
}

/// The encoding of a section that holds a vector.
pub open spec fn section_bytes<T: EncodesToWasm>(id: u8, items: Seq<T>) -> Seq<u8> {
    framed(id, vec_bytes(items))
}

/// The encoding of a name: the length of its UTF-8 form in bytes, then
/// that form.
pub open spec fn name_bytes(name: Seq<char>) -> Seq<u8> {
    uleb128(encode_utf8(name).len()) + encode_utf8(name)
}

/// The encoding of the locals of a function, each as a group of one local
/// of its type.
pub open spec fn local_groups(locals: Seq<NumType>) -> Seq<u8>
    decreases locals.len(),
{
    if locals.len() == 0 {
        Seq::empty()
    } else {
        local_groups(locals.drop_last()) + seq![1u8] + locals.last().wasm_bytes()
    }
}

/// The four bytes of `bits`, the lowest first.
pub open spec fn le_bytes_32(bits: u32) -> Seq<u8> {
    seq![
        (bits & 0xff) as u8,
        ((bits >> 8) & 0xff) as u8,
        ((bits >> 16) & 0xff) as u8,
        ((bits >> 24) & 0xff) as u8,
    ]
}

/// The eight bytes of `bits`, the lowest first.
pub open spec fn le_bytes_64(bits: u64) -> Seq<u8> {
    seq![
        (bits & 0xff) as u8,
        ((bits >> 8) & 0xff) as u8,
        ((bits >> 16) & 0xff) as u8,
        ((bits >> 24) & 0xff) as u8,
        ((bits >> 32) & 0xff) as u8,
        ((bits >> 40) & 0xff) as u8,
        ((bits >> 48) & 0xff) as u8,
        ((bits >> 56) & 0xff) as u8,
    ]
}

/// The magic number and the version that a module starts with.
pub open spec fn module_header() -> Seq<u8> {
    seq![0x00u8, 0x61u8, 0x73u8, 0x6du8, 0x01u8, 0x00u8, 0x00u8, 0x00u8]
}

/// The type indices of functions, in their order.
pub open spec fn type_indices(functions: Seq<Function>) -> Seq<u32> {
    Seq::new(functions.len(), |i: int| functions[i].type_idx)
}

/// The start section: empty if the module has no start function.
pub open spec fn start_section(start: Option<u32>) -> Seq<u8> {
    match start {
        Some(index) => framed(0x08, uleb128(index as nat)),
        None => Seq::empty(),
    }
}

/// The opcode of an integer operation.
pub open spec fn integer_opcode(op: IntegerOp) -> u8 {
    match (op.op, op.typ) {
            (IntegerOpType::Clz, IntegerType::I32) => 0x67,
            (IntegerOpType::Ctz, IntegerType::I32) => 0x68,
            (IntegerOpType::Popcnt, IntegerType::I32) => 0x69,
            (IntegerOpType::Eqz, IntegerType::I32) => 0x45,
            (IntegerOpType::Eq, IntegerType::I32) => 0x46,
            (IntegerOpType::Ne, IntegerType::I32) => 0x47,
            (IntegerOpType::LtS, IntegerType::I32) => 0x48,
            (IntegerOpType::LtU, IntegerType::I32) => 0x49,
            (IntegerOpType::GtS, IntegerType::I32) => 0x4A,
            (IntegerOpType::GtU, IntegerType::I32) => 0x4B,
            (IntegerOpType::LeS, IntegerType::I32) => 0x4C,
            (IntegerOpType::LeU, IntegerType::I32) => 0x4D,
            (IntegerOpType::GeS, IntegerType::I32) => 0x4E,
            (IntegerOpType::GeU, IntegerType::I32) => 0x4F,
            (IntegerOpType::Add, IntegerType::I32) => 0x6A,
            (IntegerOpType::Sub, IntegerType::I32) => 0x6B,
            (IntegerOpType::Mul, IntegerType::I32) => 0x6C,
            (IntegerOpType::DivS, IntegerType::I32) => 0x6D,
            (IntegerOpType::DivU, IntegerType::I32) => 0x6E,
            (IntegerOpType::RemS, IntegerType::I32) => 0x6F,
            (IntegerOpType::RemU, IntegerType::I32) => 0x70,
            (IntegerOpType::And, IntegerType::I32) => 0x71,
            (IntegerOpType::Or, IntegerType::I32) => 0x72,
            (IntegerOpType::Xor, IntegerType::I32) => 0x73,
            (IntegerOpType::Shl, IntegerType::I32) => 0x74,
            (IntegerOpType::ShrS, IntegerType::I32) => 0x75,
            (IntegerOpType::ShrU, IntegerType::I32) => 0x76,
            (IntegerOpType::Rotl, IntegerType::I32) => 0x77,
            (IntegerOpType::Rotr, IntegerType::I32) => 0x78,
            (IntegerOpType::Clz, IntegerType::I64) => 0x79,
            (IntegerOpType::Ctz, IntegerType::I64) => 0x7A,
            (IntegerOpType::Popcnt, IntegerType::I64) => 0x7B,
            (IntegerOpType::Eqz, IntegerType::I64) => 0x50,
            (IntegerOpType::Eq, IntegerType::I64) => 0x51,
            (IntegerOpType::Ne, IntegerType::I64) => 0x52,
            (IntegerOpType::LtS, IntegerType::I64) => 0x53,
            (IntegerOpType::LtU, IntegerType::I64) => 0x54,
            (IntegerOpType::GtS, IntegerType::I64) => 0x55,
            (IntegerOpType::GtU, IntegerType::I64) => 0x56,
            (IntegerOpType::LeS, IntegerType::I64) => 0x57,
            (IntegerOpType::LeU, IntegerType::I64) => 0x58,
            (IntegerOpType::GeS, IntegerType::I64) => 0x59,
            (IntegerOpType::GeU, IntegerType::I64) => 0x5A,
            (IntegerOpType::Add, IntegerType::I64) => 0x7C,
            (IntegerOpType::Sub, IntegerType::I64) => 0x7D,
            (IntegerOpType::Mul, IntegerType::I64) => 0x7E,
            (IntegerOpType::DivS, IntegerType::I64) => 0x7F,
            (IntegerOpType::DivU, IntegerType::I64) => 0x80,
            (IntegerOpType::RemS, IntegerType::I64) => 0x81,
            (IntegerOpType::RemU, IntegerType::I64) => 0x82,
            (IntegerOpType::And, IntegerType::I64) => 0x83,
            (IntegerOpType::Or, IntegerType::I64) => 0x84,
            (IntegerOpType::Xor, IntegerType::I64) => 0x85,
            (IntegerOpType::Shl, IntegerType::I64) => 0x86,
            (IntegerOpType::ShrS, IntegerType::I64) => 0x87,
            (IntegerOpType::ShrU, IntegerType::I64) => 0x88,
            (IntegerOpType::Rotl, IntegerType::I64) => 0x89,
            (IntegerOpType::Rotr, IntegerType::I64) => 0x8A,
    }
}

/// The opcode of a float operation.
pub open spec fn float_opcode(op: FloatOp) -> u8 {
    match (op.op, op.typ) {
            (FloatOpType::Abs, FloatType::F32) => 0x8B,
            (FloatOpType::Neg, FloatType::F32) => 0x8C,
            (FloatOpType::Sqrt, FloatType::F32) => 0x91,
            (FloatOpType::Ceil, FloatType::F32) => 0x8D,
            (FloatOpType::Floor, FloatType::F32) => 0x8E,
            (FloatOpType::Trunc, FloatType::F32) => 0x8F,
            (FloatOpType::Nearest, FloatType::F32) => 0x90,
            (FloatOpType::Add, FloatType::F32) => 0x92,
            (FloatOpType::Sub, FloatType::F32) => 0x93,
            (FloatOpType::Mul, FloatType::F32) => 0x94,
            (FloatOpType::Div, FloatType::F32) => 0x95,
            (FloatOpType::Min, FloatType::F32) => 0x96,
            (FloatOpType::Max, FloatType::F32) => 0x97,
            (FloatOpType::Copysign, FloatType::F32) => 0x98,
            (FloatOpType::Eq, FloatType::F32) => 0x5B,
            (FloatOpType::Ne, FloatType::F32) => 0x5C,
            (FloatOpType::Lt, FloatType::F32) => 0x5D,
            (FloatOpType::Le, FloatType::F32) => 0x5F,
            (FloatOpType::Ge, FloatType::F32) => 0x60,
            (FloatOpType::Gt, FloatType::F32) => 0x5E,
            (FloatOpType::Abs, FloatType::F64) => 0x99,
            (FloatOpType::Neg, FloatType::F64) => 0x9A,
            (FloatOpType::Sqrt, FloatType::F64) => 0x9F,
            (FloatOpType::Ceil, FloatType::F64) => 0x9B,
            (FloatOpType::Floor, FloatType::F64) => 0x9C,
            (FloatOpType::Trunc, FloatType::F64) => 0x9D,
            (FloatOpType::Nearest, FloatType::F64) => 0x9E,
            (FloatOpType::Add, FloatType::F64) => 0xA0,
            (FloatOpType::Sub, FloatType::F64) => 0xA1,
            (FloatOpType::Mul, FloatType::F64) => 0xA2,
            (FloatOpType::Div, FloatType::F64) => 0xA3,
            (FloatOpType::Min, FloatType::F64) => 0xA4,
            (FloatOpType::Max, FloatType::F64) => 0xA5,
            (FloatOpType::Copysign, FloatType::F64) => 0xA6,
            (FloatOpType::Eq, FloatType::F64) => 0x61,
            (FloatOpType::Ne, FloatType::F64) => 0x62,
            (FloatOpType::Lt, FloatType::F64) => 0x63,
            (FloatOpType::Le, FloatType::F64) => 0x65,
            (FloatOpType::Ge, FloatType::F64) => 0x66,
            (FloatOpType::Gt, FloatType::F64) => 0x64,
    }
}

/// The opcode of a conversion. The saturating truncations share the prefix
/// `0xFC`.
pub open spec fn convert_opcode(op: ConvertOp) -> u8 {
    match op {
        ConvertOp::I32Extend8S => 0xC0,
        ConvertOp::I32Extend16S => 0xC1,
        ConvertOp::I64Extend8S => 0xC2,
        ConvertOp::I64Extend16S => 0xC3,
        ConvertOp::I64Extend32S => 0xC4,
        ConvertOp::I32WrapI64 => 0xA7,
        ConvertOp::I64ExtendI32S => 0xAC,
        ConvertOp::I64ExtendI32U => 0xAD,
        ConvertOp::I32TruncF32S => 0xA8,
        ConvertOp::I32TruncF32U => 0xA9,
        ConvertOp::I32TruncF64S => 0xAA,
        ConvertOp::I32TruncF64U => 0xAB,
        ConvertOp::I64TruncF32S => 0xAE,
        ConvertOp::I64TruncF32U => 0xAF,
        ConvertOp::I64TruncF64S => 0xB0,
        ConvertOp::I64TruncF64U => 0xB1,
        ConvertOp::I32TruncSatF32S => 0xFC,
        ConvertOp::I32TruncSatF32U => 0xFC,
        ConvertOp::I32TruncSatF64S => 0xFC,
        ConvertOp::I32TruncSatF64U => 0xFC,
        ConvertOp::I64TruncSatF32S => 0xFC,
        ConvertOp::I64TruncSatF32U => 0xFC,
        ConvertOp::I64TruncSatF64S => 0xFC,
        ConvertOp::I64TruncSatF64U => 0xFC,
        ConvertOp::F32DemoteF64 => 0xB6,
        ConvertOp::F64PromoteF32 => 0xBB,
        ConvertOp::F32ConvertI32S => 0xB2,
        ConvertOp::F32ConvertI32U => 0xB3,
        ConvertOp::F32ConvertI64S => 0xB4,
        ConvertOp::F32ConvertI64U => 0xB5,
        ConvertOp::F64ConvertI32S => 0xB7,
        ConvertOp::F64ConvertI32U => 0xB8,
        ConvertOp::F64ConvertI64S => 0xB9,
        ConvertOp::F64ConvertI64U => 0xBA,
        ConvertOp::I32ReinterpretF32 => 0xBC,
        ConvertOp::I64ReinterpretF64 => 0xBD,
        ConvertOp::F32ReinterpretI32 => 0xBE,
        ConvertOp::F64ReinterpretI64 => 0xBF,
    }
}

/// The number that follows the prefix `0xFC` for a saturating truncation;
/// `None` for any other conversion.
pub open spec fn convert_suffix(op: ConvertOp) -> Option<u32> {
    match op {
        ConvertOp::I32TruncSatF32S => Some(0),
        ConvertOp::I32TruncSatF32U => Some(1),
        ConvertOp::I32TruncSatF64S => Some(2),
        ConvertOp::I32TruncSatF64U => Some(3),
        ConvertOp::I64TruncSatF32S => Some(4),
        ConvertOp::I64TruncSatF32U => Some(5),
        ConvertOp::I64TruncSatF64S => Some(6),
        ConvertOp::I64TruncSatF64U => Some(7),
        _ => None,
    }
}

/// Appends `bytes` to `output`.
pub fn append_bytes(output: &mut Vec<u8>, bytes: &[u8])
    ensures
        final(output)@ == old(output)@ + bytes@,
{
    let mut i: usize = 0;
    while i < bytes.len()
        invariant
            i <= bytes@.len(),
            output@ == old(output)@ + bytes@.subrange(0, i as int),
        decreases bytes@.len() - i,
    {
        output.push(bytes[i]);
        i += 1;
        assert(output@ =~= old(output)@ + bytes@.subrange(0, i as int));
    }
    assert(bytes@.subrange(0, i as int) =~= bytes@);
}

/// Appends the encoding of a name to `output`.
pub fn encode_name(name: &str, output: &mut Vec<u8>)
    ensures
        final(output)@ == old(output)@ + name_bytes(name@),
{
    let bytes = name.as_bytes();
    encode_unsigned(bytes.len() as u64, output);
    append_bytes(output, bytes);
    assert(output@ =~= old(output)@ + name_bytes(name@));
}

/// Appends the encodings of `items` to `output`, after their number.
pub fn encode_vec<T: EncodesToWasm>(output: &mut Vec<u8>, items: &[T])
    ensures
        final(output)@ == old(output)@ + vec_bytes(items@),
{
    encode_unsigned(items.len() as u64, output);
    let mut i: usize = 0;
    while i < items.len()
        invariant
            i <= items@.len(),
            output@ == old(output)@ + uleb128(items@.len()) + encode_all(
                items@.subrange(0, i as int),
            ),
        decreases items@.len() - i,
    {
        let ghost before = items@.subrange(0, i as int);
        items[i].encode_to_wasm(output);
        i += 1;
        assert(items@.subrange(0, i as int).drop_last() =~= before);
        assert(output@ =~= old(output)@ + uleb128(items@.len()) + encode_all(
            items@.subrange(0, i as int),
        ));
    }
    assert(items@.subrange(0, i as int) =~= items@);
    assert(output@ =~= old(output)@ + vec_bytes(items@));
}

/// Appends a section to `output`: its id, the length of `contents`, and
/// `contents`.
pub fn encode_framed(output: &mut Vec<u8>, id: u8, contents: &[u8])
    ensures
        final(output)@ == old(output)@ + framed(id, contents@),
{
    output.push(id);
    encode_unsigned(contents.len() as u64, output);
    append_bytes(output, contents);
    assert(output@ =~= old(output)@ + framed(id, contents@));
}

impl WasmModule {
    /// Appends the section with the given id that holds the given vector to
    /// `output`.
    pub fn encode_section<T: EncodesToWasm>(output: &mut Vec<u8>, code: u8, section: &[T])
        ensures
            final(output)@ == old(output)@ + section_bytes(code, section@),
    {
        let mut contents: Vec<u8> = Vec::new();
        encode_vec(&mut contents, section);
        assert(contents@ =~= vec_bytes(section@));
        encode_framed(output, code, contents.as_slice());
    }

    /// The encoding of the module: the magic number, the version, and the
    /// sections 1 (types), 2 (imports), 3 (the type index of every
    /// function), 7 (exports), 8 (the start function, if there is one) and
    /// 10 (the functions), in this order.
    pub open spec fn module_bytes(&self) -> Seq<u8> {
        module_header() + section_bytes(0x01, self.types@) + section_bytes(0x02, self.imports@)
            + section_bytes(0x03, type_indices(self.functions@)) + section_bytes(
            0x07,
            self.exports@,
        ) + start_section(self.start) + section_bytes(0x0a, self.functions@)
    }
}

impl EncodesToWasm for WasmModule {
    open spec fn wasm_bytes(&self) -> Seq<u8> {
        self.module_bytes()
    }

    fn encode_to_wasm(&self, output: &mut Vec<u8>) {
        output.push(0x00);
        output.push(0x61);
        output.push(0x73);
        output.push(0x6d);
        output.push(0x01);
        output.push(0x00);
        output.push(0x00);
        output.push(0x00);
        assert(output@ =~= old(output)@ + module_header());
        WasmModule::encode_section(output, 0x01, self.types.as_slice());
        WasmModule::encode_section(output, 0x02, self.imports.as_slice());
        let mut indices: Vec<u32> = Vec::new();
        let mut i: usize = 0;
        while i < self.functions.len()
            invariant
                i <= self.functions.len(),
                indices@ == type_indices(self.functions@).subrange(0, i as int),
            decreases self.functions.len() - i,
        {
            indices.push(self.functions[i].type_idx);
            i += 1;
            assert(indices@ =~= type_indices(self.functions@).subrange(0, i as int));
        }
        assert(indices@ =~= type_indices(self.functions@));
        WasmModule::encode_section(output, 0x03, indices.as_slice());
        WasmModule::encode_section(output, 0x07, self.exports.as_slice());
        if let Some(start) = self.start {
            let mut contents: Vec<u8> = Vec::new();
            encode_unsigned(start as u64, &mut contents);
            assert(contents@ =~= uleb128(start as nat));
            encode_framed(output, 0x08, contents.as_slice());
        } else {
            assert(output@ =~= output@ + start_section(self.start));
        }
        WasmModule::encode_section(output, 0x0a, self.functions.as_slice());
    }
}

impl EncodesToWasm for u32 {
    open spec fn wasm_bytes(&self) -> Seq<u8> {
        uleb128(*self as nat)
    }

    fn encode_to_wasm(&self, output: &mut Vec<u8>) {
        encode_unsigned(*self as u64, output);
    }
}

impl EncodesToWasm for NumType {
    open spec fn wasm_bytes(&self) -> Seq<u8> {
        seq![
            match self {
                NumType::I32 => 0x7fu8,
                NumType::I64 => 0x7eu8,
                NumType::F32 => 0x7du8,
                NumType::F64 => 0x7cu8,
            },
        ]
    }

    fn encode_to_wasm(&self, output: &mut Vec<u8>) {
        output.push(
            match self {
                NumType::I32 => 0x7f,
                NumType::I64 => 0x7e,
                NumType::F32 => 0x7d,
                NumType::F64 => 0x7c,
            },
        );
        assert(output@ =~= old(output)@ + self.wasm_bytes());
    }
}

impl EncodesToWasm for FunctionType {
    open spec fn wasm_bytes(&self) -> Seq<u8> {
        seq![0x60u8] + vec_bytes(self.args@) + vec_bytes(self.ret@)
    }

    fn encode_to_wasm(&self, output: &mut Vec<u8>) {
        output.push(0x60);
        encode_vec(output, self.args.as_slice());
        encode_vec(output, self.ret.as_slice());
        assert(output@ =~= old(output)@ + self.wasm_bytes());
    }
}

impl EncodesToWasm for ImportType {
    open spec fn wasm_bytes(&self) -> Seq<u8> {
        match self {
            ImportType::Func(index) => seq![0x00u8] + uleb128(*index as nat),
            ImportType::Memory { min, max } => match max {
                Some(max) => seq![0x02u8, 0x01u8] + uleb128(*min as nat) + uleb128(*max as nat),
                None => seq![0x02u8, 0x00u8] + uleb128(*min as nat),
            },
        }
    }

    fn encode_to_wasm(&self, output: &mut Vec<u8>) {
        match self {
            ImportType::Func(index) => {
                output.push(0x00);
                encode_unsigned(*index as u64, output);
            },
            ImportType::Memory { min, max } => {
                output.push(0x02);
                match max {
                    Some(max) => {
                        output.push(0x01);
                        encode_unsigned(*min as u64, output);
                        encode_unsigned(*max as u64, output);
                    },
                    None => {
                        output.push(0x00);
                        encode_unsigned(*min as u64, output);
                    },
                }
            },
        }
        assert(output@ =~= old(output)@ + self.wasm_bytes());
    }
}

impl EncodesToWasm for Import {
    open spec fn wasm_bytes(&self) -> Seq<u8> {
        name_bytes(self.module@) + name_bytes(self.name@) + self.typ.wasm_bytes()
    }

    fn encode_to_wasm(&self, output: &mut Vec<u8>) {
        encode_name(self.module.as_str(), output);
        encode_name(self.name.as_str(), output);
        self.typ.encode_to_wasm(output);
        assert(output@ =~= old(output)@ + self.wasm_bytes());
    }
}

impl EncodesToWasm for ExportType {
    open spec fn wasm_bytes(&self) -> Seq<u8> {
        match self {
            ExportType::Func(index) => seq![0x00u8] + uleb128(*index as nat),
        }
    }

    fn encode_to_wasm(&self, output: &mut Vec<u8>) {
        match self {
            ExportType::Func(index) => {
                output.push(0x00);
                encode_unsigned(*index as u64, output);
            },
        }
        assert(output@ =~= old(output)@ + self.wasm_bytes());
    }
}

impl EncodesToWasm for Export {
    open spec fn wasm_bytes(&self) -> Seq<u8> {
        name_bytes(self.name@) + self.typ.wasm_bytes()
    }

    fn encode_to_wasm(&self, output: &mut Vec<u8>) {
        encode_name(self.name.as_str(), output);
        self.typ.encode_to_wasm(output);
        assert(output@ =~= old(output)@ + self.wasm_bytes());
    }
}

impl Function {
    /// What the encoding of the function holds after its length: the number
    /// of locals, the locals, and the body.
    pub open spec fn body_bytes(&self) -> Seq<u8> {
        uleb128(self.locals@.len()) + local_groups(self.locals@) + self.body.wasm_bytes()
    }
}

impl EncodesToWasm for Function {
    open spec fn wasm_bytes(&self) -> Seq<u8> {
        uleb128(self.body_bytes().len()) + self.body_bytes()
    }

    fn encode_to_wasm(&self, output: &mut Vec<u8>) {
        let mut body: Vec<u8> = Vec::new();
        encode_unsigned(self.locals.len() as u64, &mut body);
        let mut i: usize = 0;
        while i < self.locals.len()
            invariant
                i <= self.locals.len(),
                body@ == uleb128(self.locals@.len()) + local_groups(
                    self.locals@.subrange(0, i as int),
                ),
            decreases self.locals.len() - i,
        {
            let ghost before = self.locals@.subrange(0, i as int);
            body.push(0x01);
            self.locals[i].encode_to_wasm(&mut body);
            i += 1;
            assert(self.locals@.subrange(0, i as int).drop_last() =~= before);
            assert(body@ =~= uleb128(self.locals@.len()) + local_groups(
                self.locals@.subrange(0, i as int),
            ));
        }
        assert(self.locals@.subrange(0, i as int) =~= self.locals@);
        self.body.encode_to_wasm(&mut body);
        assert(body@ =~= self.body_bytes());
        encode_unsigned(body.len() as u64, output);
        append_bytes(output, body.as_slice());
        assert(output@ =~= old(output)@ + self.wasm_bytes());
    }
}

impl EncodesToWasm for Expression {
    open spec fn wasm_bytes(&self) -> Seq<u8> {
        encode_all(self.instructions@) + seq![0x0bu8]
    }

    fn encode_to_wasm(&self, output: &mut Vec<u8>) {
        let mut i: usize = 0;
        while i < self.instructions.len()
            invariant
                i <= self.instructions.len(),
                output@ == old(output)@ + encode_all(self.instructions@.subrange(0, i as int)),
            decreases self.instructions.len() - i,
        {
            let ghost before = self.instructions@.subrange(0, i as int);
            self.instructions[i].encode_to_wasm(output);
            i += 1;
            assert(self.instructions@.subrange(0, i as int).drop_last() =~= before);
            assert(output@ =~= old(output)@ + encode_all(
                self.instructions@.subrange(0, i as int),
            ));
        }
        assert(self.instructions@.subrange(0, i as int) =~= self.instructions@);
        output.push(0x0b);
        assert(output@ =~= old(output)@ + self.wasm_bytes());
    }
}

impl EncodesToWasm for Instruction {
    open spec fn wasm_bytes(&self) -> Seq<u8> {
        match self {
            Instruction::I32Const(constant) => seq![0x41u8] + sleb128(*constant as int),
            Instruction::I64Const(constant) => seq![0x42u8] + sleb128(*constant as int),
            Instruction::F32Const(bits) => seq![0x43u8] + le_bytes_32(*bits),
            Instruction::F64Const(bits) => seq![0x44u8] + le_bytes_64(*bits),
            Instruction::IntegerOp(op) => op.wasm_bytes(),
            Instruction::FloatOp(op) => op.wasm_bytes(),
            Instruction::ConvertOp(op) => op.wasm_bytes(),
            Instruction::VariableOp(op) => op.wasm_bytes(),
            Instruction::ControlOp(op) => op.wasm_bytes(),
        }
    }

    fn encode_to_wasm(&self, output: &mut Vec<u8>) {
        match self {
            Instruction::I32Const(constant) => {
                output.push(0x41);
                encode_signed(*constant as i64, output);
            },
            Instruction::I64Const(constant) => {
                output.push(0x42);
                encode_signed(*constant, output);
            },
            Instruction::F32Const(bits) => {
                let bits = *bits;
                output.push(0x43);
                output.push((bits & 0xff) as u8);
                output.push(((bits >> 8) & 0xff) as u8);
                output.push(((bits >> 16) & 0xff) as u8);
                output.push(((bits >> 24) & 0xff) as u8);
            },
            Instruction::F64Const(bits) => {
                let bits = *bits;
                output.push(0x44);
                output.push((bits & 0xff) as u8);
                output.push(((bits >> 8) & 0xff) as u8);
                output.push(((bits >> 16) & 0xff) as u8);
                output.push(((bits >> 24) & 0xff) as u8);
                output.push(((bits >> 32) & 0xff) as u8);
                output.push(((bits >> 40) & 0xff) as u8);
                output.push(((bits >> 48) & 0xff) as u8);
                output.push(((bits >> 56) & 0xff) as u8);
            },
            Instruction::IntegerOp(op) => op.encode_to_wasm(output),
            Instruction::FloatOp(op) => op.encode_to_wasm(output),
            Instruction::ConvertOp(op) => op.encode_to_wasm(output),
            Instruction::VariableOp(op) => op.encode_to_wasm(output),
            Instruction::ControlOp(op) => op.encode_to_wasm(output),
        }
        assert(output@ =~= old(output)@ + self.wasm_bytes());
    }
}

impl EncodesToWasm for ControlOp {
    open spec fn wasm_bytes(&self) -> Seq<u8> {
        match self {
            ControlOp::Call(index) => seq![0x10u8] + uleb128(*index as nat),
            ControlOp::Return => seq![0x0Fu8],
            ControlOp::Nop => seq![0x01u8],
        }
    }

    fn encode_to_wasm(&self, output: &mut Vec<u8>) {
        match self {
            ControlOp::Call(index) => {
                output.push(0x10);
                encode_unsigned(*index as u64, output);
            },
            ControlOp::Return => output.push(0x0F),
            ControlOp::Nop => output.push(0x01),
        }
        assert(output@ =~= old(output)@ + self.wasm_bytes());
    }
}

impl VariableOp {
    /// The opcode of the operation.
    pub open spec fn opcode(&self) -> u8 {
        match self {
            VariableOp::LocalGet(_) => 0x20,
            VariableOp::LocalSet(_) => 0x21,
            VariableOp::LocalTee(_) => 0x22,
            VariableOp::GlobalGet(_) => 0x23,
            VariableOp::GlobalSet(_) => 0x24,
        }
    }

    /// The index of the variable.
    pub open spec fn index(&self) -> u32 {
        match self {
            VariableOp::LocalGet(index) => *index,
            VariableOp::LocalSet(index) => *index,
            VariableOp::LocalTee(index) => *index,
            VariableOp::GlobalGet(index) => *index,
            VariableOp::GlobalSet(index) => *index,
        }
    }
}

impl EncodesToWasm for VariableOp {
    open spec fn wasm_bytes(&self) -> Seq<u8> {
        seq![self.opcode()] + uleb128(self.index() as nat)
    }

    fn encode_to_wasm(&self, output: &mut Vec<u8>) {
        let (opcode, index): (u8, u32) = match self {
            VariableOp::LocalGet(index) => (0x20, *index),
            VariableOp::LocalSet(index) => (0x21, *index),
            VariableOp::LocalTee(index) => (0x22, *index),
            VariableOp::GlobalGet(index) => (0x23, *index),
            VariableOp::GlobalSet(index) => (0x24, *index),
        };
        output.push(opcode);
        encode_unsigned(index as u64, output);
        assert(output@ =~= old(output)@ + self.wasm_bytes());
    }
}

impl EncodesToWasm for IntegerOp {
    open spec fn wasm_bytes(&self) -> Seq<u8> {
        seq![integer_opcode(*self)]
    }

    fn encode_to_wasm(&self, output: &mut Vec<u8>) {
        let byte: u8 = match (self.op, self.typ) {
            (IntegerOpType::Clz, IntegerType::I32) => 0x67,
            (IntegerOpType::Ctz, IntegerType::I32) => 0x68,
            (IntegerOpType::Popcnt, IntegerType::I32) => 0x69,
            (IntegerOpType::Eqz, IntegerType::I32) => 0x45,
            (IntegerOpType::Eq, IntegerType::I32) => 0x46,
            (IntegerOpType::Ne, IntegerType::I32) => 0x47,
            (IntegerOpType::LtS, IntegerType::I32) => 0x48,
            (IntegerOpType::LtU, IntegerType::I32) => 0x49,
            (IntegerOpType::GtS, IntegerType::I32) => 0x4A,
            (IntegerOpType::GtU, IntegerType::I32) => 0x4B,
            (IntegerOpType::LeS, IntegerType::I32) => 0x4C,
            (IntegerOpType::LeU, IntegerType::I32) => 0x4D,
            (IntegerOpType::GeS, IntegerType::I32) => 0x4E,
            (IntegerOpType::GeU, IntegerType::I32) => 0x4F,
            (IntegerOpType::Add, IntegerType::I32) => 0x6A,
            (IntegerOpType::Sub, IntegerType::I32) => 0x6B,
            (IntegerOpType::Mul, IntegerType::I32) => 0x6C,
            (IntegerOpType::DivS, IntegerType::I32) => 0x6D,
            (IntegerOpType::DivU, IntegerType::I32) => 0x6E,
            (IntegerOpType::RemS, IntegerType::I32) => 0x6F,
            (IntegerOpType::RemU, IntegerType::I32) => 0x70,
            (IntegerOpType::And, IntegerType::I32) => 0x71,
            (IntegerOpType::Or, IntegerType::I32) => 0x72,
            (IntegerOpType::Xor, IntegerType::I32) => 0x73,
            (IntegerOpType::Shl, IntegerType::I32) => 0x74,
            (IntegerOpType::ShrS, IntegerType::I32) => 0x75,
            (IntegerOpType::ShrU, IntegerType::I32) => 0x76,
            (IntegerOpType::Rotl, IntegerType::I32) => 0x77,
            (IntegerOpType::Rotr, IntegerType::I32) => 0x78,
            (IntegerOpType::Clz, IntegerType::I64) => 0x79,
            (IntegerOpType::Ctz, IntegerType::I64) => 0x7A,
            (IntegerOpType::Popcnt, IntegerType::I64) => 0x7B,
            (IntegerOpType::Eqz, IntegerType::I64) => 0x50,
            (IntegerOpType::Eq, IntegerType::I64) => 0x51,
            (IntegerOpType::Ne, IntegerType::I64) => 0x52,
            (IntegerOpType::LtS, IntegerType::I64) => 0x53,
            (IntegerOpType::LtU, IntegerType::I64) => 0x54,
            (IntegerOpType::GtS, IntegerType::I64) => 0x55,
            (IntegerOpType::GtU, IntegerType::I64) => 0x56,
            (IntegerOpType::LeS, IntegerType::I64) => 0x57,
            (IntegerOpType::LeU, IntegerType::I64) => 0x58,
            (IntegerOpType::GeS, IntegerType::I64) => 0x59,
            (IntegerOpType::GeU, IntegerType::I64) => 0x5A,
            (IntegerOpType::Add, IntegerType::I64) => 0x7C,
            (IntegerOpType::Sub, IntegerType::I64) => 0x7D,
            (IntegerOpType::Mul, IntegerType::I64) => 0x7E,
            (IntegerOpType::DivS, IntegerType::I64) => 0x7F,
            (IntegerOpType::DivU, IntegerType::I64) => 0x80,
            (IntegerOpType::RemS, IntegerType::I64) => 0x81,
            (IntegerOpType::RemU, IntegerType::I64) => 0x82,
            (IntegerOpType::And, IntegerType::I64) => 0x83,
            (IntegerOpType::Or, IntegerType::I64) => 0x84,
            (IntegerOpType::Xor, IntegerType::I64) => 0x85,
            (IntegerOpType::Shl, IntegerType::I64) => 0x86,
            (IntegerOpType::ShrS, IntegerType::I64) => 0x87,
            (IntegerOpType::ShrU, IntegerType::I64) => 0x88,
            (IntegerOpType::Rotl, IntegerType::I64) => 0x89,
            (IntegerOpType::Rotr, IntegerType::I64) => 0x8A,
        };
        output.push(byte);
        assert(output@ =~= old(output)@ + self.wasm_bytes());
    }
}

impl EncodesToWasm for FloatOp {
    open spec fn wasm_bytes(&self) -> Seq<u8> {
        seq![float_opcode(*self)]
    }

    fn encode_to_wasm(&self, output: &mut Vec<u8>) {
        let byte: u8 = match (self.op, self.typ) {
            (FloatOpType::Abs, FloatType::F32) => 0x8B,
            (FloatOpType::Neg, FloatType::F32) => 0x8C,
            (FloatOpType::Sqrt, FloatType::F32) => 0x91,
            (FloatOpType::Ceil, FloatType::F32) => 0x8D,
            (FloatOpType::Floor, FloatType::F32) => 0x8E,
            (FloatOpType::Trunc, FloatType::F32) => 0x8F,
            (FloatOpType::Nearest, FloatType::F32) => 0x90,
            (FloatOpType::Add, FloatType::F32) => 0x92,
            (FloatOpType::Sub, FloatType::F32) => 0x93,
            (FloatOpType::Mul, FloatType::F32) => 0x94,
            (FloatOpType::Div, FloatType::F32) => 0x95,
            (FloatOpType::Min, FloatType::F32) => 0x96,
            (FloatOpType::Max, FloatType::F32) => 0x97,
            (FloatOpType::Copysign, FloatType::F32) => 0x98,
            (FloatOpType::Eq, FloatType::F32) => 0x5B,
            (FloatOpType::Ne, FloatType::F32) => 0x5C,
            (FloatOpType::Lt, FloatType::F32) => 0x5D,
            (FloatOpType::Le, FloatType::F32) => 0x5F,
            (FloatOpType::Ge, FloatType::F32) => 0x60,
            (FloatOpType::Gt, FloatType::F32) => 0x5E,
            (FloatOpType::Abs, FloatType::F64) => 0x99,
            (FloatOpType::Neg, FloatType::F64) => 0x9A,
            (FloatOpType::Sqrt, FloatType::F64) => 0x9F,
            (FloatOpType::Ceil, FloatType::F64) => 0x9B,
            (FloatOpType::Floor, FloatType::F64) => 0x9C,
            (FloatOpType::Trunc, FloatType::F64) => 0x9D,
            (FloatOpType::Nearest, FloatType::F64) => 0x9E,
            (FloatOpType::Add, FloatType::F64) => 0xA0,
            (FloatOpType::Sub, FloatType::F64) => 0xA1,
            (FloatOpType::Mul, FloatType::F64) => 0xA2,
            (FloatOpType::Div, FloatType::F64) => 0xA3,
            (FloatOpType::Min, FloatType::F64) => 0xA4,
            (FloatOpType::Max, FloatType::F64) => 0xA5,
            (FloatOpType::Copysign, FloatType::F64) => 0xA6,
            (FloatOpType::Eq, FloatType::F64) => 0x61,
            (FloatOpType::Ne, FloatType::F64) => 0x62,
            (FloatOpType::Lt, FloatType::F64) => 0x63,
            (FloatOpType::Le, FloatType::F64) => 0x65,
            (FloatOpType::Ge, FloatType::F64) => 0x66,
            (FloatOpType::Gt, FloatType::F64) => 0x64,
        };
        output.push(byte);
        assert(output@ =~= old(output)@ + self.wasm_bytes());
    }
}

impl EncodesToWasm for ConvertOp {
    open spec fn wasm_bytes(&self) -> Seq<u8> {
        match convert_suffix(*self) {
            Some(extra) => seq![convert_opcode(*self)] + uleb128(extra as nat),
            None => seq![convert_opcode(*self)],
        }
    }

    fn encode_to_wasm(&self, output: &mut Vec<u8>) {
        let (byte, extra): (u8, Option<u32>) = match self {
            ConvertOp::I32Extend8S => (0xC0, None),
            ConvertOp::I32Extend16S => (0xC1, None),
            ConvertOp::I64Extend8S => (0xC2, None),
            ConvertOp::I64Extend16S => (0xC3, None),
            ConvertOp::I64Extend32S => (0xC4, None),
            ConvertOp::I32WrapI64 => (0xA7, None),
            ConvertOp::I64ExtendI32S => (0xAC, None),
            ConvertOp::I64ExtendI32U => (0xAD, None),
            ConvertOp::I32TruncF32S => (0xA8, None),
            ConvertOp::I32TruncF32U => (0xA9, None),
            ConvertOp::I32TruncF64S => (0xAA, None),
            ConvertOp::I32TruncF64U => (0xAB, None),
            ConvertOp::I64TruncF32S => (0xAE, None),
            ConvertOp::I64TruncF32U => (0xAF, None),
            ConvertOp::I64TruncF64S => (0xB0, None),
            ConvertOp::I64TruncF64U => (0xB1, None),
            ConvertOp::I32TruncSatF32S => (0xFC, Some(0)),
            ConvertOp::I32TruncSatF32U => (0xFC, Some(1)),
            ConvertOp::I32TruncSatF64S => (0xFC, Some(2)),
            ConvertOp::I32TruncSatF64U => (0xFC, Some(3)),
            ConvertOp::I64TruncSatF32S => (0xFC, Some(4)),
            ConvertOp::I64TruncSatF32U => (0xFC, Some(5)),
            ConvertOp::I64TruncSatF64S => (0xFC, Some(6)),
            ConvertOp::I64TruncSatF64U => (0xFC, Some(7)),
            ConvertOp::F32DemoteF64 => (0xB6, None),
            ConvertOp::F64PromoteF32 => (0xBB, None),
            ConvertOp::F32ConvertI32S => (0xB2, None),
            ConvertOp::F32ConvertI32U => (0xB3, None),
            ConvertOp::F32ConvertI64S => (0xB4, None),
            ConvertOp::F32ConvertI64U => (0xB5, None),
            ConvertOp::F64ConvertI32S => (0xB7, None),
            ConvertOp::F64ConvertI32U => (0xB8, None),
            ConvertOp::F64ConvertI64S => (0xB9, None),
            ConvertOp::F64ConvertI64U => (0xBA, None),
            ConvertOp::I32ReinterpretF32 => (0xBC, None),
            ConvertOp::I64ReinterpretF64 => (0xBD, None),
            ConvertOp::F32ReinterpretI32 => (0xBE, None),
            ConvertOp::F64ReinterpretI64 => (0xBF, None),
        };
        output.push(byte);
        if let Some(extra) = extra {
            encode_unsigned(extra as u64, output);
        }
        assert(output@ =~= old(output)@ + self.wasm_bytes());
    }
}

/// A section starts with its id.
pub proof fn lemma_section_starts_with_id<T: EncodesToWasm>(id: u8, items: Seq<T>)
    ensures
        section_bytes(id, items).len() >= 2,
        section_bytes(id, items)[0] == id,
{
    lemma_uleb128_not_empty(vec_bytes(items).len());
}

/// The encoding of every module starts with the magic number `00 61 73 6d`
/// and the version `01 00 00 00`.
pub proof fn lemma_module_starts_with_header(module: WasmModule)
    ensures
        module.wasm_bytes().len() >= 8,
        module.wasm_bytes().subrange(0, 8) == module_header(),
{
    assert(module.wasm_bytes().subrange(0, 8) =~= module_header());
}

} // verus!
