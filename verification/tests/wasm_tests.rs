use compiler_rs::wasm::encoder::{
    append_bytes, encode_framed, encode_name, encode_vec, EncodesToWasm,
};
use compiler_rs::wasm::little_endian_base_128::{
    decode_signed, decode_unsigned, encode_signed, encode_unsigned, EncodesToLeb128,
    MAX_LEB128_LEN,
};
use compiler_rs::wasm::{
    ControlOp, ConvertOp, Export, ExportType, Expression, FloatOp, FloatOpType, FloatType,
    Function, FunctionType, Import, ImportType, Instruction, IntegerOp, IntegerOpType,
    IntegerType, NumType, VariableOp, WasmModule,
};

fn wasm<T: EncodesToWasm>(value: &T) -> Vec<u8> {
    let mut out = Vec::new();
    value.encode_to_wasm(&mut out);
    out
}

#[test]
fn unsigned_624485() {
    assert_eq!(624485u32.encode_to_leb128_bytes(), vec![0xE5, 0x8E, 0x26]);
}

#[test]
fn signed_minus_123456() {
    assert_eq!((-123456i32).encode_to_leb128_bytes(), vec![0xC0, 0xBB, 0x78]);
}

#[test]
fn unsigned_edges() {
    assert_eq!(0u32.encode_to_leb128_bytes(), vec![0x00]);
    assert_eq!(1u32.encode_to_leb128_bytes(), vec![0x01]);
    assert_eq!(127u32.encode_to_leb128_bytes(), vec![0x7f]);
    assert_eq!(128u32.encode_to_leb128_bytes(), vec![0x80, 0x01]);
    assert_eq!(16383u64.encode_to_leb128_bytes(), vec![0xff, 0x7f]);
    assert_eq!(16384usize.encode_to_leb128_bytes(), vec![0x80, 0x80, 0x01]);
    assert_eq!(u32::MAX.encode_to_leb128_bytes(), vec![0xff, 0xff, 0xff, 0xff, 0x0f]);
    assert_eq!(
        u64::MAX.encode_to_leb128_bytes(),
        vec![0xff, 0xff, 0xff, 0xff, 0xff, 0xff, 0xff, 0xff, 0xff, 0x01]
    );
}

#[test]
fn signed_edges() {
    assert_eq!(0i32.encode_to_leb128_bytes(), vec![0x00]);
    assert_eq!(1i32.encode_to_leb128_bytes(), vec![0x01]);
    assert_eq!((-1i32).encode_to_leb128_bytes(), vec![0x7f]);
    assert_eq!(63i64.encode_to_leb128_bytes(), vec![0x3f]);
    assert_eq!(64i64.encode_to_leb128_bytes(), vec![0xc0, 0x00]);
    assert_eq!((-64i64).encode_to_leb128_bytes(), vec![0x40]);
    assert_eq!((-65i64).encode_to_leb128_bytes(), vec![0xbf, 0x7f]);
    assert_eq!(127i32.encode_to_leb128_bytes(), vec![0xff, 0x00]);
    assert_eq!((-128i32).encode_to_leb128_bytes(), vec![0x80, 0x7f]);
    assert_eq!(i32::MAX.encode_to_leb128_bytes(), vec![0xff, 0xff, 0xff, 0xff, 0x07]);
    assert_eq!(i32::MIN.encode_to_leb128_bytes(), vec![0x80, 0x80, 0x80, 0x80, 0x78]);
    assert_eq!(
        i64::MIN.encode_to_leb128_bytes(),
        vec![0x80, 0x80, 0x80, 0x80, 0x80, 0x80, 0x80, 0x80, 0x80, 0x7f]
    );
    assert_eq!(
        i64::MAX.encode_to_leb128_bytes(),
        vec![0xff, 0xff, 0xff, 0xff, 0xff, 0xff, 0xff, 0xff, 0xff, 0x00]
    );
}

#[test]
fn encoding_appends_and_counts() {
    let mut out = vec![0xaa];
    assert_eq!(624485u32.encode_to_leb128(&mut out), 3);
    assert_eq!(out, vec![0xaa, 0xE5, 0x8E, 0x26]);
    assert_eq!((-123456i64).encode_to_leb128(&mut out), 3);
    assert_eq!(out, vec![0xaa, 0xE5, 0x8E, 0x26, 0xC0, 0xBB, 0x78]);
    assert_eq!(encode_unsigned(300, &mut out), 2);
    assert_eq!(encode_signed(-300, &mut out), 2);
    assert_eq!(out.len(), 11);
}

#[test]
fn decoding_gives_the_number_back() {
    let unsigned = [0u64, 1, 127, 128, 255, 256, 624485, 1 << 32, u64::MAX / 3, u64::MAX];
    for v in unsigned {
        let mut bytes = v.encode_to_leb128_bytes();
        let len = bytes.len();
        bytes.push(0x55);
        assert_eq!(decode_unsigned(&bytes), Some((v, len)));
        if v <= u32::MAX as u64 {
            assert_eq!((v as u32).encode_to_leb128_bytes(), v.encode_to_leb128_bytes());
        }
        assert_eq!((v as usize).encode_to_leb128_bytes(), (v as usize as u64).encode_to_leb128_bytes());
    }
    let signed = [0i64, 1, -1, 63, 64, -64, -65, 127, -128, -123456, i64::MAX, i64::MIN, 1 << 40];
    for v in signed {
        let mut bytes = v.encode_to_leb128_bytes();
        let len = bytes.len();
        bytes.push(0x55);
        assert_eq!(decode_signed(&bytes), Some((v, len)));
        if i32::MIN as i64 <= v && v <= i32::MAX as i64 {
            assert_eq!((v as i32).encode_to_leb128_bytes(), v.encode_to_leb128_bytes());
        }
    }
}

#[test]
fn decoding_reads_what_is_written_by_hand() {
    assert_eq!(decode_unsigned(&[0xE5, 0x8E, 0x26]), Some((624485, 3)));
    assert_eq!(decode_unsigned(&[0x00, 0xff]), Some((0, 1)));
    assert_eq!(decode_unsigned(&[0x80, 0x00]), Some((0, 2)));
    assert_eq!(decode_signed(&[0xC0, 0xBB, 0x78]), Some((-123456, 3)));
    assert_eq!(decode_signed(&[0x7f]), Some((-1, 1)));
    assert_eq!(decode_signed(&[0x40]), Some((-64, 1)));
    assert_eq!(decode_signed(&[0x3f]), Some((63, 1)));
    assert_eq!(decode_signed(&[0xff, 0x7f]), Some((-1, 2)));
}

#[test]
fn decoding_fails_on_what_is_no_encoding() {
    assert_eq!(decode_unsigned(&[]), None);
    assert_eq!(decode_unsigned(&[0x80]), None);
    assert_eq!(decode_unsigned(&[0xff, 0xff]), None);
    assert_eq!(decode_signed(&[]), None);
    assert_eq!(decode_signed(&[0x80, 0x80]), None);
    assert_eq!(MAX_LEB128_LEN, 10);
    let too_long = [0x80u8; 11];
    assert_eq!(decode_unsigned(&too_long), None);
    assert_eq!(decode_signed(&too_long), None);
    let mut padded = vec![0x80u8; 10];
    padded.push(0x00);
    assert_eq!(decode_unsigned(&padded), None);
    assert_eq!(decode_unsigned(&padded[1..]), Some((0, 10)));
}

#[test]
fn decoding_fails_on_numbers_of_more_than_64_bits() {
    let max = [0xffu8, 0xff, 0xff, 0xff, 0xff, 0xff, 0xff, 0xff, 0xff, 0x01];
    assert_eq!(decode_unsigned(&max), Some((u64::MAX, 10)));
    let more = [0xffu8, 0xff, 0xff, 0xff, 0xff, 0xff, 0xff, 0xff, 0xff, 0x02];
    assert_eq!(decode_unsigned(&more), None);
    let most = [0xffu8, 0xff, 0xff, 0xff, 0xff, 0xff, 0xff, 0xff, 0xff, 0x7f];
    assert_eq!(decode_unsigned(&most), None);
    assert_eq!(decode_signed(&most), Some((-1, 10)));
    let min = [0x80u8, 0x80, 0x80, 0x80, 0x80, 0x80, 0x80, 0x80, 0x80, 0x7f];
    assert_eq!(decode_signed(&min), Some((i64::MIN, 10)));
    let below = [0xffu8, 0xff, 0xff, 0xff, 0xff, 0xff, 0xff, 0xff, 0xff, 0x7e];
    assert_eq!(decode_signed(&below), None);
    let above = [0x80u8, 0x80, 0x80, 0x80, 0x80, 0x80, 0x80, 0x80, 0x80, 0x01];
    assert_eq!(decode_signed(&above), None);
}

#[test]
fn encodings_are_as_short_as_can_be() {
    for v in [1u64, 127, 128, 16383, 16384, u64::MAX] {
        let bytes = v.encode_to_leb128_bytes();
        assert!(bytes.len() == 1 || *bytes.last().unwrap() != 0x00);
    }
    for v in [-1i64, -64, -65, 63, 64, i64::MIN, i64::MAX] {
        let bytes = v.encode_to_leb128_bytes();
        let n = bytes.len();
        if n > 1 {
            let last = bytes[n - 1];
            let before = bytes[n - 2];
            assert!(!(last == 0x00 && before & 0x40 == 0));
            assert!(!(last == 0x7f && before & 0x40 != 0));
        }
    }
}

#[test]
fn number_types() {
    assert_eq!(wasm(&NumType::I32), vec![0x7f]);
    assert_eq!(wasm(&NumType::I64), vec![0x7e]);
    assert_eq!(wasm(&NumType::F32), vec![0x7d]);
    assert_eq!(wasm(&NumType::F64), vec![0x7c]);
}

#[test]
fn function_types() {
    let t = FunctionType { args: vec![NumType::I32, NumType::F64], ret: vec![NumType::I64] };
    assert_eq!(wasm(&t), vec![0x60, 0x02, 0x7f, 0x7c, 0x01, 0x7e]);
    let t = FunctionType { args: vec![], ret: vec![] };
    assert_eq!(wasm(&t), vec![0x60, 0x00, 0x00]);
}

#[test]
fn imports() {
    let import = Import {
        module: "env".to_string(),
        name: "print_int".to_string(),
        typ: ImportType::Func(0),
    };
    let mut expected = vec![0x03];
    expected.extend(b"env");
    expected.push(0x09);
    expected.extend(b"print_int");
    expected.extend([0x00, 0x00]);
    assert_eq!(wasm(&import), expected);
    assert_eq!(wasm(&ImportType::Func(300)), vec![0x00, 0xac, 0x02]);
    assert_eq!(wasm(&ImportType::Memory { min: 1, max: None }), vec![0x02, 0x00, 0x01]);
    assert_eq!(wasm(&ImportType::Memory { min: 1, max: Some(200) }), vec![0x02, 0x01, 0x01, 0xc8, 0x01]);
}

#[test]
fn names_are_counted_in_bytes() {
    let mut out = Vec::new();
    encode_name("h\u{e9}", &mut out);
    assert_eq!(out, vec![0x03, b'h', 0xc3, 0xa9]);
    let mut out = Vec::new();
    encode_name("", &mut out);
    assert_eq!(out, vec![0x00]);
}

#[test]
fn exports() {
    let export = Export { name: "add".to_string(), typ: ExportType::Func(1) };
    assert_eq!(wasm(&export), vec![0x03, b'a', b'd', b'd', 0x00, 0x01]);
    assert_eq!(wasm(&ExportType::Func(128)), vec![0x00, 0x80, 0x01]);
}

#[test]
fn constants() {
    assert_eq!(wasm(&Instruction::I32Const(42)), vec![0x41, 0x2a]);
    assert_eq!(wasm(&Instruction::I32Const(-1)), vec![0x41, 0x7f]);
    assert_eq!(wasm(&Instruction::I64Const(-123456)), vec![0x42, 0xC0, 0xBB, 0x78]);
    assert_eq!(
        wasm(&Instruction::F32Const(1.5f32.to_bits())),
        [vec![0x43], 1.5f32.to_le_bytes().to_vec()].concat()
    );
    assert_eq!(wasm(&Instruction::F32Const(0x3fc0_0000)), vec![0x43, 0x00, 0x00, 0xc0, 0x3f]);
    assert_eq!(
        wasm(&Instruction::F64Const((-2.25f64).to_bits())),
        [vec![0x44], (-2.25f64).to_le_bytes().to_vec()].concat()
    );
    assert_eq!(
        wasm(&Instruction::F64Const(0x0102_0304_0506_0708)),
        vec![0x44, 0x08, 0x07, 0x06, 0x05, 0x04, 0x03, 0x02, 0x01]
    );
}

#[test]
fn control_and_variable_operations() {
    assert_eq!(wasm(&ControlOp::Call(5)), vec![0x10, 0x05]);
    assert_eq!(wasm(&ControlOp::Return), vec![0x0f]);
    assert_eq!(wasm(&ControlOp::Nop), vec![0x01]);
    assert_eq!(wasm(&VariableOp::LocalGet(0)), vec![0x20, 0x00]);
    assert_eq!(wasm(&VariableOp::LocalSet(1)), vec![0x21, 0x01]);
    assert_eq!(wasm(&VariableOp::LocalTee(2)), vec![0x22, 0x02]);
    assert_eq!(wasm(&VariableOp::GlobalGet(3)), vec![0x23, 0x03]);
    assert_eq!(wasm(&VariableOp::GlobalSet(200)), vec![0x24, 0xc8, 0x01]);
    assert_eq!(wasm(&Instruction::ControlOp(ControlOp::Call(5))), vec![0x10, 0x05]);
    assert_eq!(wasm(&Instruction::VariableOp(VariableOp::LocalGet(7))), vec![0x20, 0x07]);
}

#[test]
fn integer_opcodes() {
    let i32_table = [
        (IntegerOpType::Clz, 0x67), (IntegerOpType::Ctz, 0x68), (IntegerOpType::Popcnt, 0x69), (IntegerOpType::Eqz, 0x45), (IntegerOpType::Eq, 0x46), (IntegerOpType::Ne, 0x47),
        (IntegerOpType::LtS, 0x48), (IntegerOpType::LtU, 0x49), (IntegerOpType::GtS, 0x4A), (IntegerOpType::GtU, 0x4B), (IntegerOpType::LeS, 0x4C), (IntegerOpType::LeU, 0x4D),
        (IntegerOpType::GeS, 0x4E), (IntegerOpType::GeU, 0x4F), (IntegerOpType::Add, 0x6A), (IntegerOpType::Sub, 0x6B), (IntegerOpType::Mul, 0x6C), (IntegerOpType::DivS, 0x6D),
        (IntegerOpType::DivU, 0x6E), (IntegerOpType::RemS, 0x6F), (IntegerOpType::RemU, 0x70), (IntegerOpType::And, 0x71), (IntegerOpType::Or, 0x72), (IntegerOpType::Xor, 0x73),
        (IntegerOpType::Shl, 0x74), (IntegerOpType::ShrS, 0x75), (IntegerOpType::ShrU, 0x76), (IntegerOpType::Rotl, 0x77), (IntegerOpType::Rotr, 0x78),
    ];
    let i64_table = [
        (IntegerOpType::Clz, 0x79), (IntegerOpType::Ctz, 0x7A), (IntegerOpType::Popcnt, 0x7B), (IntegerOpType::Eqz, 0x50), (IntegerOpType::Eq, 0x51), (IntegerOpType::Ne, 0x52),
        (IntegerOpType::LtS, 0x53), (IntegerOpType::LtU, 0x54), (IntegerOpType::GtS, 0x55), (IntegerOpType::GtU, 0x56), (IntegerOpType::LeS, 0x57), (IntegerOpType::LeU, 0x58),
        (IntegerOpType::GeS, 0x59), (IntegerOpType::GeU, 0x5A), (IntegerOpType::Add, 0x7C), (IntegerOpType::Sub, 0x7D), (IntegerOpType::Mul, 0x7E), (IntegerOpType::DivS, 0x7F),
        (IntegerOpType::DivU, 0x80), (IntegerOpType::RemS, 0x81), (IntegerOpType::RemU, 0x82), (IntegerOpType::And, 0x83), (IntegerOpType::Or, 0x84), (IntegerOpType::Xor, 0x85),
        (IntegerOpType::Shl, 0x86), (IntegerOpType::ShrS, 0x87), (IntegerOpType::ShrU, 0x88), (IntegerOpType::Rotl, 0x89), (IntegerOpType::Rotr, 0x8A),
    ];
    for (op, byte) in i32_table {
        assert_eq!(wasm(&IntegerOp { op, typ: IntegerType::I32 }), vec![byte]);
    }
    for (op, byte) in i64_table {
        assert_eq!(wasm(&IntegerOp { op, typ: IntegerType::I64 }), vec![byte]);
        assert_eq!(wasm(&Instruction::IntegerOp(IntegerOp { op, typ: IntegerType::I64 })), vec![byte]);
    }
}

#[test]
fn float_opcodes() {
    let f32_table = [
        (FloatOpType::Abs, 0x8B), (FloatOpType::Neg, 0x8C), (FloatOpType::Sqrt, 0x91), (FloatOpType::Ceil, 0x8D), (FloatOpType::Floor, 0x8E), (FloatOpType::Trunc, 0x8F),
        (FloatOpType::Nearest, 0x90), (FloatOpType::Add, 0x92), (FloatOpType::Sub, 0x93), (FloatOpType::Mul, 0x94), (FloatOpType::Div, 0x95), (FloatOpType::Min, 0x96),
        (FloatOpType::Max, 0x97), (FloatOpType::Copysign, 0x98), (FloatOpType::Eq, 0x5B), (FloatOpType::Ne, 0x5C), (FloatOpType::Lt, 0x5D), (FloatOpType::Le, 0x5F),
        (FloatOpType::Ge, 0x60), (FloatOpType::Gt, 0x5E),
    ];
    let f64_table = [
        (FloatOpType::Abs, 0x99), (FloatOpType::Neg, 0x9A), (FloatOpType::Sqrt, 0x9F), (FloatOpType::Ceil, 0x9B), (FloatOpType::Floor, 0x9C), (FloatOpType::Trunc, 0x9D),
        (FloatOpType::Nearest, 0x9E), (FloatOpType::Add, 0xA0), (FloatOpType::Sub, 0xA1), (FloatOpType::Mul, 0xA2), (FloatOpType::Div, 0xA3), (FloatOpType::Min, 0xA4),
        (FloatOpType::Max, 0xA5), (FloatOpType::Copysign, 0xA6), (FloatOpType::Eq, 0x61), (FloatOpType::Ne, 0x62), (FloatOpType::Lt, 0x63), (FloatOpType::Le, 0x65),
        (FloatOpType::Ge, 0x66), (FloatOpType::Gt, 0x64),
    ];
    for (op, byte) in f32_table {
        assert_eq!(wasm(&FloatOp { op, typ: FloatType::F32 }), vec![byte]);
    }
    for (op, byte) in f64_table {
        assert_eq!(wasm(&FloatOp { op, typ: FloatType::F64 }), vec![byte]);
        assert_eq!(wasm(&Instruction::FloatOp(FloatOp { op, typ: FloatType::F64 })), vec![byte]);
    }
}

#[test]
fn conversion_opcodes() {
    let plain = [
        (ConvertOp::I32Extend8S, 0xC0), (ConvertOp::I32Extend16S, 0xC1), (ConvertOp::I64Extend8S, 0xC2), (ConvertOp::I64Extend16S, 0xC3),
        (ConvertOp::I64Extend32S, 0xC4), (ConvertOp::I32WrapI64, 0xA7), (ConvertOp::I64ExtendI32S, 0xAC), (ConvertOp::I64ExtendI32U, 0xAD),
        (ConvertOp::I32TruncF32S, 0xA8), (ConvertOp::I32TruncF32U, 0xA9), (ConvertOp::I32TruncF64S, 0xAA), (ConvertOp::I32TruncF64U, 0xAB),
        (ConvertOp::I64TruncF32S, 0xAE), (ConvertOp::I64TruncF32U, 0xAF), (ConvertOp::I64TruncF64S, 0xB0), (ConvertOp::I64TruncF64U, 0xB1),
        (ConvertOp::F32DemoteF64, 0xB6), (ConvertOp::F64PromoteF32, 0xBB), (ConvertOp::F32ConvertI32S, 0xB2),
        (ConvertOp::F32ConvertI32U, 0xB3), (ConvertOp::F32ConvertI64S, 0xB4), (ConvertOp::F32ConvertI64U, 0xB5),
        (ConvertOp::F64ConvertI32S, 0xB7), (ConvertOp::F64ConvertI32U, 0xB8), (ConvertOp::F64ConvertI64S, 0xB9),
        (ConvertOp::F64ConvertI64U, 0xBA), (ConvertOp::I32ReinterpretF32, 0xBC), (ConvertOp::I64ReinterpretF64, 0xBD),
        (ConvertOp::F32ReinterpretI32, 0xBE), (ConvertOp::F64ReinterpretI64, 0xBF),
    ];
    for (op, byte) in plain {
        assert_eq!(wasm(&op), vec![byte]);
        assert_eq!(wasm(&Instruction::ConvertOp(op)), vec![byte]);
    }
    let saturating = [
        (ConvertOp::I32TruncSatF32S, 0), (ConvertOp::I32TruncSatF32U, 1), (ConvertOp::I32TruncSatF64S, 2), (ConvertOp::I32TruncSatF64U, 3),
        (ConvertOp::I64TruncSatF32S, 4), (ConvertOp::I64TruncSatF32U, 5), (ConvertOp::I64TruncSatF64S, 6), (ConvertOp::I64TruncSatF64U, 7),
    ];
    for (op, sub) in saturating {
        assert_eq!(wasm(&op), vec![0xFC, sub]);
    }
}

#[test]
fn expressions_end_with_end() {
    assert_eq!(wasm(&Expression { instructions: vec![] }), vec![0x0b]);
    let body = Expression {
        instructions: vec![
            Instruction::VariableOp(VariableOp::LocalGet(0)),
            Instruction::I32Const(1),
            Instruction::IntegerOp(IntegerOp { op: IntegerOpType::Add, typ: IntegerType::I32 }),
        ],
    };
    assert_eq!(wasm(&body), vec![0x20, 0x00, 0x41, 0x01, 0x6a, 0x0b]);
}

#[test]
fn functions_carry_their_length_and_locals() {
    let function = Function {
        type_idx: 0,
        locals: vec![NumType::I32, NumType::F64],
        body: Expression { instructions: vec![Instruction::ControlOp(ControlOp::Nop)] },
    };
    assert_eq!(wasm(&function), vec![0x07, 0x02, 0x01, 0x7f, 0x01, 0x7c, 0x01, 0x0b]);
    let function = Function { type_idx: 9, locals: vec![], body: Expression { instructions: vec![] } };
    assert_eq!(wasm(&function), vec![0x02, 0x00, 0x0b]);
}

#[test]
fn vectors_and_sections() {
    let mut out = vec![0xee];
    encode_vec(&mut out, &[NumType::I32, NumType::I64]);
    assert_eq!(out, vec![0xee, 0x02, 0x7f, 0x7e]);
    let mut out = Vec::new();
    encode_vec::<u32>(&mut out, &[]);
    assert_eq!(out, vec![0x00]);
    let mut out = Vec::new();
    encode_framed(&mut out, 0x08, &[0x01, 0x02, 0x03]);
    assert_eq!(out, vec![0x08, 0x03, 0x01, 0x02, 0x03]);
    let mut out = Vec::new();
    WasmModule::encode_section(&mut out, 0x03, &[1u32, 300u32]);
    assert_eq!(out, vec![0x03, 0x04, 0x02, 0x01, 0xac, 0x02]);
    let mut out = vec![1];
    append_bytes(&mut out, &[2, 3]);
    assert_eq!(out, vec![1, 2, 3]);
}

#[test]
fn a_section_longer_than_127_bytes_has_a_two_byte_length() {
    let types: Vec<u32> = (0..130).collect();
    let mut out = Vec::new();
    WasmModule::encode_section(&mut out, 0x03, &types);
    assert_eq!(&out[..5], &[0x03, 0x86, 0x01, 0x82, 0x01]);
    assert_eq!(out.len(), 3 + 2 + 128 + 2 * 2);
}

fn small_module(start: Option<u32>) -> WasmModule {
    WasmModule {
        types: vec![FunctionType { args: vec![NumType::I32], ret: vec![] }],
        imports: vec![Import {
            module: "env".to_string(),
            name: "p".to_string(),
            typ: ImportType::Func(0),
        }],
        exports: vec![Export { name: "f".to_string(), typ: ExportType::Func(1) }],
        functions: vec![Function {
            type_idx: 0,
            locals: vec![NumType::I32],
            body: Expression {
                instructions: vec![
                    Instruction::VariableOp(VariableOp::LocalGet(0)),
                    Instruction::I32Const(42),
                    Instruction::ControlOp(ControlOp::Call(0)),
                ],
            },
        }],
        start,
    }
}

#[test]
fn a_small_module_byte_by_byte() {
    let bytes = wasm(&small_module(Some(1)));
    let expected: Vec<u8> = vec![
        0x00, 0x61, 0x73, 0x6d, 0x01, 0x00, 0x00, 0x00,
        0x01, 0x05, 0x01, 0x60, 0x01, 0x7f, 0x00,
        0x02, 0x09, 0x01, 0x03, 0x65, 0x6e, 0x76, 0x01, 0x70, 0x00, 0x00,
        0x03, 0x02, 0x01, 0x00,
        0x07, 0x05, 0x01, 0x01, 0x66, 0x00, 0x01,
        0x08, 0x01, 0x01,
        0x0a, 0x0c, 0x01, 0x0a, 0x01, 0x01, 0x7f, 0x20, 0x00, 0x41, 0x2a, 0x10, 0x00, 0x0b,
    ];
    assert_eq!(bytes, expected);
}

fn section_ids(bytes: &[u8]) -> Vec<u8> {
    let mut ids = Vec::new();
    let mut at = 8;
    while at < bytes.len() {
        ids.push(bytes[at]);
        let (len, used) = decode_unsigned(&bytes[at + 1..]).unwrap();
        at += 1 + used + len as usize;
    }
    assert_eq!(at, bytes.len());
    ids
}

#[test]
fn sections_come_in_their_order() {
    let bytes = wasm(&small_module(Some(1)));
    assert_eq!(&bytes[..8], &[0x00, 0x61, 0x73, 0x6d, 0x01, 0x00, 0x00, 0x00]);
    assert_eq!(section_ids(&bytes), vec![1, 2, 3, 7, 8, 10]);
    let bytes = wasm(&small_module(None));
    assert_eq!(section_ids(&bytes), vec![1, 2, 3, 7, 10]);
}

#[test]
fn a_large_start_index_is_framed_by_its_length() {
    let bytes = wasm(&small_module(Some(300)));
    assert_eq!(section_ids(&bytes), vec![1, 2, 3, 7, 8, 10]);
    let at = bytes.windows(4).position(|w| w == [0x08, 0x02, 0xac, 0x02]);
    assert!(at.is_some());
}

#[test]
fn an_empty_module() {
    let module = WasmModule {
        types: vec![],
        imports: vec![],
        exports: vec![],
        functions: vec![],
        start: None,
    };
    assert_eq!(
        wasm(&module),
        vec![
            0x00, 0x61, 0x73, 0x6d, 0x01, 0x00, 0x00, 0x00, 0x01, 0x01, 0x00, 0x02, 0x01, 0x00,
            0x03, 0x01, 0x00, 0x07, 0x01, 0x00, 0x0a, 0x01, 0x00,
        ]
    );
}

#[test]
fn encoding_appends_to_what_is_there() {
    let mut out = vec![0xde, 0xad];
    small_module(None).encode_to_wasm(&mut out);
    assert_eq!(&out[..2], &[0xde, 0xad]);
    assert_eq!(&out[2..], &wasm(&small_module(None))[..]);
    let mut out = vec![0x99];
    7u32.encode_to_wasm(&mut out);
    assert_eq!(out, vec![0x99, 0x07]);
}
