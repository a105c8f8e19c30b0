//! LEB128: integers in groups of seven bits, the lowest group first, each
//! byte but the last with its high bit set.
use vstd::prelude::*;

verus! {

/// The unsigned LEB128 encoding of `v`.
pub open spec fn uleb128(v: nat) -> Seq<u8>
    decreases v,
{
    if v < 128 {
        seq![v as u8]
    } else {
        seq![(v % 128 + 128) as u8] + uleb128(v / 128)
    }
}

/// Whether the seven bits `low` end the signed encoding of a number whose
/// higher bits are `rest`: the bits that are left say nothing that the sign
/// bit of the group does not say.
pub open spec fn ends_signed(low: int, rest: int) -> bool {
    (rest == 0 && low < 64) || (rest == -1 && low >= 64)
}

/// The signed LEB128 encoding of `v`.
pub open spec fn sleb128(v: int) -> Seq<u8>
    decreases (if v >= 0 { v } else { -v }),
{
    if ends_signed(v % 128, v / 128) {
        seq![(v % 128) as u8]
    } else {
        seq![(v % 128 + 128) as u8] + sleb128(v / 128)
    }
}

/// The number that an unsigned LEB128 encoding at the start of `bytes`
/// stands for, with the number of bytes of the encoding. `None` if `bytes`
/// ends before the encoding does.
pub open spec fn uleb128_decode(bytes: Seq<u8>) -> Option<(nat, nat)>
    decreases bytes.len(),
{
    if bytes.len() == 0 {
        None
    } else if bytes[0] < 128 {
        Some((bytes[0] as nat, 1))
    } else {
        match uleb128_decode(bytes.drop_first()) {
            Some((rest, len)) => Some((((bytes[0] - 128) + 128 * rest) as nat, len + 1)),
            None => None,
        }
    }
}

/// The number that a signed LEB128 encoding at the start of `bytes` stands
/// for, with the number of bytes of the encoding. `None` if `bytes` ends
/// before the encoding does.
pub open spec fn sleb128_decode(bytes: Seq<u8>) -> Option<(int, nat)>
    decreases bytes.len(),
{
    if bytes.len() == 0 {
        None
    } else if bytes[0] < 64 {
        Some((bytes[0] as int, 1))
    } else if bytes[0] < 128 {
        Some((bytes[0] - 128, 1))
    } else {
        match sleb128_decode(bytes.drop_first()) {
            Some((rest, len)) => Some(((bytes[0] - 128) + 128 * rest, len + 1)),
            None => None,
        }
    }
}

/// An unsigned encoding has at least one byte.
pub proof fn lemma_uleb128_not_empty(v: nat)
    ensures
        uleb128(v).len() >= 1,
{
}

/// A signed encoding has at least one byte.
pub proof fn lemma_sleb128_not_empty(v: int)
    ensures
        sleb128(v).len() >= 1,
{
}

/// Every byte of an unsigned encoding but the last has its high bit set,
/// and the last has not; the last byte of an encoding of several bytes is
/// not zero, so that no shorter encoding stands for the same number.
pub proof fn lemma_uleb128_shape(v: nat)
    ensures
        forall|i: int| 0 <= i < uleb128(v).len() - 1 ==> #[trigger] uleb128(v)[i] >= 128,
        uleb128(v).last() < 128,
        uleb128(v).len() > 1 ==> uleb128(v).last() != 0,
    decreases v,
{
    if v >= 128 {
        lemma_uleb128_shape(v / 128);
        let tail = uleb128(v / 128);
        let all = uleb128(v);
        assert(all.last() == tail.last());
        assert forall|i: int| 0 <= i < all.len() - 1 implies #[trigger] all[i] >= 128 by {
            if i > 0 {
                assert(all[i] == tail[i - 1]);
            }
        }
    }
}

/// Every byte of a signed encoding but the last has its high bit set, and
/// the last has not; the last byte of an encoding of several bytes says
/// something that the sign bit of the byte before it does not, so that no
/// shorter encoding stands for the same number.
pub proof fn lemma_sleb128_shape(v: int)
    ensures
        forall|i: int| 0 <= i < sleb128(v).len() - 1 ==> #[trigger] sleb128(v)[i] >= 128,
        sleb128(v).last() < 128,
        sleb128(v).len() > 1 ==> {
            let last = sleb128(v).last();
            let before = sleb128(v)[sleb128(v).len() - 2];
            !(last == 0 && before < 128 + 64) && !(last == 127 && before >= 128 + 64)
        },
    decreases (if v >= 0 { v } else { -v }),
{
    if !ends_signed(v % 128, v / 128) {
        lemma_sleb128_shape(v / 128);
        let tail = sleb128(v / 128);
        let all = sleb128(v);
        assert(all.last() == tail.last());
        assert forall|i: int| 0 <= i < all.len() - 1 implies #[trigger] all[i] >= 128 by {
            if i > 0 {
                assert(all[i] == tail[i - 1]);
            }
        }
        if tail.len() > 1 {
            assert(all[all.len() - 2] == tail[tail.len() - 2]);
        } else {
            assert(all[all.len() - 2] == all[0]);
        }
    }
}

/// Decoding the unsigned encoding of a number gives the number back, and
/// uses up exactly the bytes of the encoding, whatever follows them.
pub proof fn lemma_uleb128_round_trip(v: nat, rest: Seq<u8>)
    ensures
        uleb128_decode(uleb128(v) + rest) == Some((v, uleb128(v).len())),
    decreases v,
{
    let bytes = uleb128(v) + rest;
    if v < 128 {
        assert(bytes[0] == v as u8);
    } else {
        let tail = uleb128(v / 128);
        lemma_uleb128_round_trip(v / 128, rest);
        assert(bytes[0] == (v % 128 + 128) as u8);
        assert(bytes.drop_first() =~= tail + rest);
        assert(uleb128(v).len() == tail.len() + 1);
    }
}

/// Decoding the signed encoding of a number gives the number back, and
/// uses up exactly the bytes of the encoding, whatever follows them.
pub proof fn lemma_sleb128_round_trip(v: int, rest: Seq<u8>)
    ensures
        sleb128_decode(sleb128(v) + rest) == Some((v, sleb128(v).len())),
    decreases (if v >= 0 { v } else { -v }),
{
    let bytes = sleb128(v) + rest;
    if ends_signed(v % 128, v / 128) {
        assert(bytes[0] == (v % 128) as u8);
    } else {
        let tail = sleb128(v / 128);
        lemma_sleb128_round_trip(v / 128, rest);
        assert(bytes[0] == (v % 128 + 128) as u8);
        assert(bytes.drop_first() =~= tail + rest);
        assert(sleb128(v).len() == tail.len() + 1);
    }
}

/// The encoding of a number of 32 unsigned bits decodes to the number.
pub proof fn lemma_u32_round_trip(v: u32, rest: Seq<u8>)
    ensures
        uleb128_decode(v.leb128() + rest) == Some((v as nat, v.leb128().len())),
{
    lemma_uleb128_round_trip(v as nat, rest);
}

/// The encoding of a number of 64 unsigned bits decodes to the number.
pub proof fn lemma_u64_round_trip(v: u64, rest: Seq<u8>)
    ensures
        uleb128_decode(v.leb128() + rest) == Some((v as nat, v.leb128().len())),
{
    lemma_uleb128_round_trip(v as nat, rest);
}

/// The encoding of a number of the width of a word decodes to the number.
pub proof fn lemma_usize_round_trip(v: usize, rest: Seq<u8>)
    ensures
        uleb128_decode(v.leb128() + rest) == Some((v as nat, v.leb128().len())),
{
    lemma_uleb128_round_trip(v as nat, rest);
}

/// The encoding of a number of 32 signed bits decodes to the number.
pub proof fn lemma_i32_round_trip(v: i32, rest: Seq<u8>)
    ensures
        sleb128_decode(v.leb128() + rest) == Some((v as int, v.leb128().len())),
{
    lemma_sleb128_round_trip(v as int, rest);
}

/// The encoding of a number of 64 signed bits decodes to the number.
pub proof fn lemma_i64_round_trip(v: i64, rest: Seq<u8>)
    ensures
        sleb128_decode(v.leb128() + rest) == Some((v as int, v.leb128().len())),
{
    lemma_sleb128_round_trip(v as int, rest);
}

/// Two numbers with the same unsigned encoding are the same number.
pub proof fn lemma_uleb128_injective(a: nat, b: nat)
    requires
        uleb128(a) == uleb128(b),
    ensures
        a == b,
{
    lemma_uleb128_round_trip(a, Seq::empty());
    lemma_uleb128_round_trip(b, Seq::empty());
}

/// Two numbers with the same signed encoding are the same number.
pub proof fn lemma_sleb128_injective(a: int, b: int)
    requires
        sleb128(a) == sleb128(b),
    ensures
        a == b,
{
    lemma_sleb128_round_trip(a, Seq::empty());
    lemma_sleb128_round_trip(b, Seq::empty());
}

/// A value that has a LEB128 encoding.
pub trait EncodesToLeb128 {
    /// The encoding of the value.
    spec fn leb128(&self) -> Seq<u8>;

    /// Appends the encoding of the value to `output` and returns the number
    /// of bytes written.
    fn encode_to_leb128(&self, output: &mut Vec<u8>) -> (written: usize)
        ensures
            final(output)@ == old(output)@ + self.leb128(),
            written == self.leb128().len(),
    ;

    /// The encoding of the value, in a vector of its own.
    fn encode_to_leb128_bytes(&self) -> (bytes: Vec<u8>)
        ensures
            bytes@ == self.leb128(),
    {
        let mut output = Vec::new();
        self.encode_to_leb128(&mut output);
        assert(output@ =~= self.leb128());
        output
    }
}

/// Appends the unsigned encoding of `v` to `output` and returns the number
/// of bytes written.
pub fn encode_unsigned(v: u64, output: &mut Vec<u8>) -> (written: usize)
    ensures
        final(output)@ == old(output)@ + uleb128(v as nat),
        written == uleb128(v as nat).len(),
{
    let mut value = v;
    let start = output.len();
    loop
        invariant
            old(output)@ + uleb128(v as nat) == output@ + uleb128(value as nat),
            start == old(output)@.len(),
        decreases value,
    {
        if value < 0x80 {
            output.push(value as u8);
            assert(output@ =~= old(output)@ + uleb128(v as nat));
            return output.len() - start;
        }
        let low: u64 = value & 0x7F;
        let rest: u64 = value >> 7;
        assert(low == value % 128 && rest == value / 128) by (bit_vector)
            requires
                low == value & 0x7F,
                rest == value >> 7,
        ;
        let byte: u8 = low as u8 | 0x80;
        assert(byte == low + 128) by (bit_vector)
            requires
                low < 128,
                byte == (low as u8) | 0x80u8,
        ;
        let ghost before = output@;
        output.push(byte);
        assert(before + uleb128(value as nat) =~= output@ + uleb128(rest as nat));
        value = rest;
    }
}

/// Appends the signed encoding of `v` to `output` and returns the number of
/// bytes written.
pub fn encode_signed(v: i64, output: &mut Vec<u8>) -> (written: usize)
    ensures
        final(output)@ == old(output)@ + sleb128(v as int),
        written == sleb128(v as int).len(),
{
    let mut value = v;
    let start = output.len();
    loop
        invariant
            old(output)@ + sleb128(v as int) == output@ + sleb128(value as int),
            start == old(output)@.len(),
        decreases (if value >= 0 { value as int } else { -(value as int) }),
    {
        let low: i64 = value & 0x7F;
        let rest: i64 = value >> 7;
        assert(0 <= low < 128 && low == value % 128 && rest == value / 128) by (bit_vector)
            requires
                low == value & 0x7F,
                rest == value >> 7,
        ;
        let mut byte: u8 = low as u8;
        let sign_clear = byte & 0x40 == 0;
        assert(sign_clear == (low < 64)) by (bit_vector)
            requires
                0 <= low < 128,
                byte == low as u8,
                sign_clear == (byte & 0x40 == 0),
        ;
        let ghost before = output@;
        if rest == 0 && sign_clear || rest == -1 && !sign_clear {
            output.push(byte);
            assert(output@ =~= old(output)@ + sleb128(v as int));
            return output.len() - start;
        }
        let ghost plain = byte;
        byte = byte | 0x80;
        assert(byte == plain + 128) by (bit_vector)
            requires
                plain < 128,
                byte == plain | 0x80u8,
        ;
        output.push(byte);
        assert(before + sleb128(value as int) =~= output@ + sleb128(rest as int));
        value = rest;
    }
}

impl EncodesToLeb128 for u32 {
    open spec fn leb128(&self) -> Seq<u8> {
        uleb128(*self as nat)
    }

    fn encode_to_leb128(&self, output: &mut Vec<u8>) -> (written: usize) {
        encode_unsigned(*self as u64, output)
    }
}

impl EncodesToLeb128 for usize {
    open spec fn leb128(&self) -> Seq<u8> {
        uleb128(*self as nat)
    }

    fn encode_to_leb128(&self, output: &mut Vec<u8>) -> (written: usize) {
        encode_unsigned(*self as u64, output)
    }
}

impl EncodesToLeb128 for u64 {
    open spec fn leb128(&self) -> Seq<u8> {
        uleb128(*self as nat)
    }

    fn encode_to_leb128(&self, output: &mut Vec<u8>) -> (written: usize) {
        encode_unsigned(*self, output)
    }
}

impl EncodesToLeb128 for i32 {
    open spec fn leb128(&self) -> Seq<u8> {
        sleb128(*self as int)
    }

    fn encode_to_leb128(&self, output: &mut Vec<u8>) -> (written: usize) {
        encode_signed(*self as i64, output)
    }
}

impl EncodesToLeb128 for i64 {
    open spec fn leb128(&self) -> Seq<u8> {
        sleb128(*self as int)
    }

    fn encode_to_leb128(&self, output: &mut Vec<u8>) -> (written: usize) {
        encode_signed(*self, output)
    }
}

/// The longest encoding of a number of 64 bits, in bytes.
pub const MAX_LEB128_LEN: usize = 10;

/// The number of 64 unsigned bits that an encoding of at most ten bytes at
/// the start of `bytes` stands for, with the length of the encoding.
pub open spec fn decode_u64(bytes: Seq<u8>) -> Option<(u64, usize)> {
    match uleb128_decode(bytes) {
        Some((value, len)) => if len <= 10 && value <= u64::MAX {
            Some((value as u64, len as usize))
        } else {
            None
        },
        None => None,
    }
}

/// The number of 64 signed bits that an encoding of at most ten bytes at
/// the start of `bytes` stands for, with the length of the encoding.
pub open spec fn decode_i64(bytes: Seq<u8>) -> Option<(i64, usize)> {
    match sleb128_decode(bytes) {
        Some((value, len)) => if len <= 10 && i64::MIN <= value <= i64::MAX {
            Some((value as i64, len as usize))
        } else {
            None
        },
        None => None,
    }
}

/// An encoding that starts at position `i` of `bytes` with a byte that has
/// its high bit set goes on at position `i + 1`.
proof fn lemma_uleb128_decode_step(bytes: Seq<u8>, i: int)
    requires
        0 <= i < bytes.len(),
        bytes[i] >= 128,
    ensures
        uleb128_decode(bytes.skip(i)) == (match uleb128_decode(bytes.skip(i + 1)) {
            Some((rest, len)) => Some((((bytes[i] - 128) + 128 * rest) as nat, len + 1)),
            None => None,
        }),
{
    assert(bytes.skip(i).drop_first() =~= bytes.skip(i + 1));
}

/// An encoding that starts at position `i` of `bytes` with a byte that has
/// its high bit set goes on at position `i + 1`.
proof fn lemma_sleb128_decode_step(bytes: Seq<u8>, i: int)
    requires
        0 <= i < bytes.len(),
        bytes[i] >= 128,
    ensures
        sleb128_decode(bytes.skip(i)) == (match sleb128_decode(bytes.skip(i + 1)) {
            Some((rest, len)) => Some(((bytes[i] - 128) + 128 * rest, len + 1)),
            None => None,
        }),
{
    assert(bytes.skip(i).drop_first() =~= bytes.skip(i + 1));
}

/// Reads the unsigned encoding at the start of `bytes`: the number and the
/// length of the encoding. `None` if the encoding does not end within ten
/// bytes or within `bytes`, or if the number does not fit in 64 bits.
pub fn decode_unsigned(bytes: &[u8]) -> (r: Option<(u64, usize)>)
    ensures
        r == decode_u64(bytes@),
{
    let mut value: u128 = 0;
    let mut scale: u128 = 1;
    let mut i: usize = 0;
    assert(bytes@.skip(0) =~= bytes@);
    reveal_with_fuel(groups_capacity, 2);
    while i < bytes.len() && i < MAX_LEB128_LEN
        invariant
            i <= bytes@.len(),
            i <= 10,
            value < scale,
            scale == groups_capacity(i as nat),
            uleb128_decode(bytes@) == (match uleb128_decode(bytes@.skip(i as int)) {
                Some((rest, len)) => Some(((value + scale * rest) as nat, (i + len) as nat)),
                None => None,
            }),
        decreases bytes@.len() - i,
    {
        let byte = bytes[i];
        proof {
            lemma_groups_capacity_bounds(i as nat);
            reveal_with_fuel(groups_capacity, 2);
            assert(scale * (byte as int) <= 0x8000_0000_0000_0000 * 255) by (nonlinear_arith)
                requires
                    0 <= scale <= 0x8000_0000_0000_0000,
                    0 <= byte <= 255,
            ;
        }
        if byte < 128 {
            let total: u128 = value + scale * (byte as u128);
            assert(bytes@.skip(i as int)[0] == byte);
            if total > 0xffff_ffff_ffff_ffff {
                return None;
            }
            return Some((total as u64, i + 1));
        }
        proof {
            lemma_uleb128_decode_step(bytes@, i as int);
            let low = (byte - 128) as int;
            if let Some((rest, _)) = uleb128_decode(bytes@.skip(i + 1)) {
                assert(scale * (low + 128 * rest) == scale * low + (scale * 128) * rest)
                    by (nonlinear_arith);
            }
            assert(scale * low <= scale * 127) by (nonlinear_arith)
                requires
                    0 <= low <= 127,
                    scale >= 0,
            ;
        }
        value = value + scale * ((byte - 128) as u128);
        scale = scale * 128;
        i += 1;
    }
    proof {
        if i < bytes@.len() {
            match uleb128_decode(bytes@.skip(i as int)) {
                Some((rest, len)) => {
                    assert(len >= 1);
                },
                None => {},
            }
        } else {
            assert(bytes@.skip(i as int).len() == 0);
        }
    }
    None
}

/// Reads the signed encoding at the start of `bytes`: the number and the
/// length of the encoding. `None` if the encoding does not end within ten
/// bytes or within `bytes`, or if the number does not fit in 64 bits.
pub fn decode_signed(bytes: &[u8]) -> (r: Option<(i64, usize)>)
    ensures
        r == decode_i64(bytes@),
{
    let mut value: i128 = 0;
    let mut scale: i128 = 1;
    let mut i: usize = 0;
    assert(bytes@.skip(0) =~= bytes@);
    reveal_with_fuel(groups_capacity, 2);
    while i < bytes.len() && i < MAX_LEB128_LEN
        invariant
            i <= bytes@.len(),
            i <= 10,
            0 <= value < scale,
            scale == groups_capacity(i as nat),
            sleb128_decode(bytes@) == (match sleb128_decode(bytes@.skip(i as int)) {
                Some((rest, len)) => Some((value + scale * rest, (i + len) as nat)),
                None => None,
            }),
        decreases bytes@.len() - i,
    {
        let byte = bytes[i];
        proof {
            lemma_groups_capacity_bounds(i as nat);
            reveal_with_fuel(groups_capacity, 2);
        }
        if byte < 128 {
            let last: i128 = if byte < 64 {
                byte as i128
            } else {
                byte as i128 - 128
            };
            assert(-64 * scale <= scale * last <= 63 * scale) by (nonlinear_arith)
                requires
                    -64 <= last <= 63,
                    scale >= 0,
            ;
            let total: i128 = value + scale * last;
            assert(bytes@.skip(i as int)[0] == byte);
            if total > 0x7fff_ffff_ffff_ffff || total < -0x8000_0000_0000_0000 {
                return None;
            }
            return Some((total as i64, i + 1));
        }
        proof {
            lemma_sleb128_decode_step(bytes@, i as int);
            let low = (byte - 128) as int;
            if let Some((rest, _)) = sleb128_decode(bytes@.skip(i + 1)) {
                assert(scale * (low + 128 * rest) == scale * low + (scale * 128) * rest)
                    by (nonlinear_arith);
            }
            assert(0 <= scale * low <= scale * 127) by (nonlinear_arith)
                requires
                    0 <= low <= 127,
                    scale >= 0,
            ;
        }
        value = value + scale * ((byte - 128) as i128);
        scale = scale * 128;
        i += 1;
    }
    proof {
        if i < bytes@.len() {
            match sleb128_decode(bytes@.skip(i as int)) {
                Some((rest, len)) => {
                    assert(len >= 1);
                },
                None => {},
            }
        } else {
            assert(bytes@.skip(i as int).len() == 0);
        }
    }
    None
}

/// What `decode_unsigned` reads from the encoding of a number of 64 bits is
/// the number, whatever follows the encoding.
pub proof fn lemma_decode_u64_of_encoding(v: u64, rest: Seq<u8>)
    ensures
        decode_u64(uleb128(v as nat) + rest) == Some((v, uleb128(v as nat).len() as usize)),
        uleb128(v as nat).len() <= 10,
{
    lemma_uleb128_round_trip(v as nat, rest);
    lemma_groups_capacity_bounds(10);
    lemma_uleb128_len(v as nat, 10);
}

/// What `decode_signed` reads from the encoding of a number of 64 bits is
/// the number, whatever follows the encoding.
pub proof fn lemma_decode_i64_of_encoding(v: i64, rest: Seq<u8>)
    ensures
        decode_i64(sleb128(v as int) + rest) == Some((v, sleb128(v as int).len() as usize)),
        sleb128(v as int).len() <= 10,
{
    lemma_sleb128_round_trip(v as int, rest);
    lemma_groups_capacity_bounds(10);
    lemma_sleb128_len(v as int, 10);
}

/// The number of the values that `groups` groups of seven bits can hold.
pub open spec fn groups_capacity(groups: nat) -> nat
    decreases groups,
{
    if groups == 0 {
        1
    } else {
        128 * groups_capacity((groups - 1) as nat)
    }
}

/// Up to nine groups of seven bits hold no more than 63 bits, and ten hold
/// 70 bits.
pub proof fn lemma_groups_capacity_bounds(groups: nat)
    ensures
        groups_capacity(groups) >= 1,
        groups <= 9 ==> groups_capacity(groups) <= 0x8000_0000_0000_0000,
        groups == 10 ==> groups_capacity(groups) == 0x40_0000_0000_0000_0000,
    decreases groups,
{
    reveal_with_fuel(groups_capacity, 11);
    if groups > 10 {
        lemma_groups_capacity_bounds((groups - 1) as nat);
    }
}

/// A number that fits in `groups` groups of seven bits has an unsigned
/// encoding of at most `groups` bytes.
pub proof fn lemma_uleb128_len(v: nat, groups: nat)
    requires
        groups >= 1,
        v < groups_capacity(groups),
    ensures
        uleb128(v).len() <= groups,
    decreases groups,
{
    reveal_with_fuel(groups_capacity, 2);
    if v >= 128 {
        lemma_uleb128_len(v / 128, (groups - 1) as nat);
    }
}

/// A number that fits in `groups` groups of seven bits, the sign included,
/// has a signed encoding of at most `groups` bytes.
pub proof fn lemma_sleb128_len(v: int, groups: nat)
    requires
        groups >= 1,
        -(groups_capacity(groups) as int) <= 2 * v < groups_capacity(groups),
    ensures
        sleb128(v).len() <= groups,
    decreases groups,
{
    reveal_with_fuel(groups_capacity, 2);
    if !ends_signed(v % 128, v / 128) {
        lemma_sleb128_len(v / 128, (groups - 1) as nat);
    }
}

} // verus!
