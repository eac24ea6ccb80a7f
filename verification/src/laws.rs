//! What holds of resolving and of the record, for all inputs.

use vstd::prelude::*;
use crate::buffer::{
    le_bytes, lemma_le_bytes_of_word64, lemma_word64_of_le_bytes, sign_extended, word16, word32,
    word64,
};
use crate::classify::resolved;
use crate::decimal::{
    int_text, lemma_signed_text_reads_back, lemma_unsigned_text_reads_back, signed_decimal,
    unsigned_decimal,
};
use crate::hex::{decoded, hex_buffer, hex_digit_value, is_hex_digit, pair_byte};
use crate::record::{hex_char, hex_text, record_of, BaseConverter};

verus! {

/// The narrow words of the buffer of `v` are `v` cut down to their width.
pub proof fn lemma_narrow_words(v: u64)
    ensures
        word32(le_bytes(v)) == v & 0xffff_ffff,
        word16(le_bytes(v)) == v & 0xffff,
        le_bytes(v)[0] == v & 0xff,
{
    let b = le_bytes(v);
    assert(b[0] == (v & 0xff) as u8 && b[1] == ((v >> 8) & 0xff) as u8 && b[2] == ((v >> 16)
        & 0xff) as u8 && b[3] == ((v >> 24) & 0xff) as u8);
    assert(((v & 0xff) as u8 as u32) | ((((v >> 8) & 0xff) as u8 as u32) << 8) | ((((v >> 16)
        & 0xff) as u8 as u32) << 16) | ((((v >> 24) & 0xff) as u8 as u32) << 24) == v
        & 0xffff_ffff) by (bit_vector);
    assert(((v & 0xff) as u8 as u16) | ((((v >> 8) & 0xff) as u8 as u16) << 8) == v & 0xffff)
        by (bit_vector);
    assert((v & 0xff) as u8 == v & 0xff) by (bit_vector);
}

/// Every buffer that a token resolves to has eight bytes.
pub proof fn law_resolved_length(
    s: Seq<char>,
    double_bits: Option<u64>,
    single_bits: Option<u32>,
    hex_admitted: bool,
)
    ensures
        resolved(s, double_bits, single_bits, hex_admitted) is Some ==> resolved(
            s,
            double_bits,
            single_bits,
            hex_admitted,
        )->0.len() == 8,
{
}

/// The decimal text of a signed 64-bit integer resolves to the buffer of
/// that integer, whatever else is said of the text, and the record of the
/// buffer shows the integer as its signed 64-bit reading. The buffer is that
/// of the integer itself where it is not negative, and of the integer plus
/// two to the power 64 where it is.
pub proof fn law_signed_round_trip(
    i: i64,
    double_bits: Option<u64>,
    single_bits: Option<u32>,
    hex_admitted: bool,
)
    ensures
        resolved(int_text(i as int), double_bits, single_bits, hex_admitted) == Some(
            le_bytes(i as u64),
        ),
        record_of(le_bytes(i as u64)).int64 == i,
        (i as u64) as int == if i >= 0 {
            i as int
        } else {
            i + 0x1_0000_0000_0000_0000
        },
{
    lemma_signed_text_reads_back(i);
    lemma_word64_of_le_bytes(i as u64);
    assert((i as u64) as i64 == i) by (bit_vector);
    assert(i >= 0 ==> (i as u64) as int == i as int) by (bit_vector);
    assert(i < 0 ==> (i as u64) as int == i as int + 0x1_0000_0000_0000_0000) by (bit_vector);
}

/// The decimal text of an unsigned 64-bit integer above the signed range
/// resolves to the buffer of that integer, and the record of the buffer
/// shows the integer as its unsigned 64-bit reading.
pub proof fn law_unsigned_round_trip(
    u: u64,
    double_bits: Option<u64>,
    single_bits: Option<u32>,
    hex_admitted: bool,
)
    requires
        u > i64::MAX,
    ensures
        resolved(int_text(u as int), double_bits, single_bits, hex_admitted) == Some(le_bytes(u)),
        record_of(le_bytes(u)).uint64 == u,
{
    lemma_unsigned_text_reads_back(u);
    lemma_word64_of_le_bytes(u);
}

/// A text that is no decimal integer and that was read as a double-precision
/// number resolves to the buffer of that number's bit pattern, and the
/// record of the buffer shows the same bit pattern as its double-precision
/// reading.
pub proof fn law_double_bits_kept(
    s: Seq<char>,
    bits: u64,
    single_bits: Option<u32>,
    hex_admitted: bool,
)
    requires
        signed_decimal(s) is None,
        unsigned_decimal(s) is None,
    ensures
        resolved(s, Some(bits), single_bits, hex_admitted) == Some(le_bytes(bits)),
        record_of(le_bytes(bits)).float64_bits == bits,
{
    lemma_word64_of_le_bytes(bits);
}

/// The buffer of a single-precision bit pattern gives that pattern back as
/// the single-precision reading and as the 32-bit integer, and its 64-bit
/// integer is the 32-bit integer with its sign.
pub proof fn law_single_bits_kept(bits: u32)
    ensures
        record_of(le_bytes(sign_extended(bits))).float32_bits == bits,
        record_of(le_bytes(sign_extended(bits))).uint32 == bits,
        record_of(le_bytes(sign_extended(bits))).int32 == bits as i32,
        record_of(le_bytes(sign_extended(bits))).int64 as int == (bits as i32) as int,
{
    let v = sign_extended(bits);
    lemma_narrow_words(v);
    lemma_word64_of_le_bytes(v);
    assert((bits as u64) & 0xffff_ffff == bits) by (bit_vector);
    assert(((bits as u64) | 0xffff_ffff_0000_0000) & 0xffff_ffff == bits) by (bit_vector);
    assert(bits & 0x8000_0000 == 0 ==> ((bits as u64) as i64) as int == (bits as i32) as int)
        by (bit_vector);
    assert(bits & 0x8000_0000 != 0 ==> (((bits as u64) | 0xffff_ffff_0000_0000) as i64) as int == (
    bits as i32) as int) by (bit_vector);
}

/// In the record of any buffer the big-endian bytes are the little-endian
/// bytes in reverse order, and the other way round.
pub proof fn law_byte_orders_mirror(b: Seq<u8>)
    ensures
        record_of(b).little_endian_bytes.reverse() == record_of(b).big_endian_bytes,
        record_of(b).big_endian_bytes.reverse() == record_of(b).little_endian_bytes,
        record_of(b).little_endian_bytes == b,
{
    assert(b.reverse().reverse() =~= b);
}

/// Two records made from the same buffer hold the same in every field.
pub proof fn law_same_buffer_same_record(b: Seq<u8>, first: BaseConverter, second: BaseConverter)
    requires
        first@ == record_of(b),
        second@ == record_of(b),
    ensures
        first@ == second@,
{
}

/// In the record of an eight-byte buffer the narrow unsigned fields are the
/// low-order part of the 64-bit field, and each signed field has the value
/// of the unsigned field of its width, less two to the width where its top
/// bit is set.
pub proof fn law_fields_agree(b: Seq<u8>)
    requires
        b.len() == 8,
    ensures
        record_of(b).uint32 == record_of(b).uint64 % 0x1_0000_0000,
        record_of(b).uint16 == record_of(b).uint64 % 0x1_0000,
        record_of(b).uint8 == record_of(b).uint64 % 0x100,
        record_of(b).int64 == if record_of(b).uint64 < 0x8000_0000_0000_0000 {
            record_of(b).uint64 as int
        } else {
            record_of(b).uint64 - 0x1_0000_0000_0000_0000
        },
        record_of(b).int32 == if record_of(b).uint32 < 0x8000_0000 {
            record_of(b).uint32 as int
        } else {
            record_of(b).uint32 - 0x1_0000_0000
        },
        record_of(b).int16 == if record_of(b).uint16 < 0x8000 {
            record_of(b).uint16 as int
        } else {
            record_of(b).uint16 - 0x1_0000
        },
        record_of(b).int8 == if record_of(b).uint8 < 0x80 {
            record_of(b).uint8 as int
        } else {
            record_of(b).uint8 - 0x100
        },
        record_of(b).float32_bits == record_of(b).uint32,
        record_of(b).float64_bits == record_of(b).uint64,
{
    let v = word64(b);
    lemma_le_bytes_of_word64(b);
    lemma_narrow_words(v);
    assert(v & 0xffff_ffff == v % 0x1_0000_0000) by (bit_vector);
    assert(v & 0xffff == v % 0x1_0000) by (bit_vector);
    assert(v & 0xff == v % 0x100) by (bit_vector);
    let w = word32(b);
    let h = word16(b);
    let c = b[0];
    assert(v < 0x8000_0000_0000_0000 ==> (v as i64) as int == v as int) by (bit_vector);
    assert(v >= 0x8000_0000_0000_0000 ==> (v as i64) as int == v as int - 0x1_0000_0000_0000_0000)
        by (bit_vector);
    assert(w < 0x8000_0000 ==> (w as i32) as int == w as int) by (bit_vector);
    assert(w >= 0x8000_0000 ==> (w as i32) as int == w as int - 0x1_0000_0000) by (bit_vector);
    assert(h < 0x8000 ==> (h as i16) as int == h as int) by (bit_vector);
    assert(h >= 0x8000 ==> (h as i16) as int == h as int - 0x1_0000) by (bit_vector);
    assert(c < 0x80 ==> (c as i8) as int == c as int) by (bit_vector);
    assert(c >= 0x80 ==> (c as i8) as int == c as int - 0x100) by (bit_vector);
}

/// The 64-bit word of an eight-byte buffer is the sum of its bytes, each
/// weighted by 256 to the power of its position: byte 0 counts least.
pub proof fn law_little_endian_value(b: Seq<u8>)
    requires
        b.len() == 8,
    ensures
        record_of(b).uint64 == b[0] + 0x100 * b[1] + 0x1_0000 * b[2] + 0x100_0000 * b[3]
            + 0x1_0000_0000 * b[4] + 0x100_0000_0000 * b[5] + 0x1_0000_0000_0000 * b[6]
            + 0x100_0000_0000_0000 * b[7],
{
    let (b0, b1, b2, b3, b4, b5, b6, b7) = (b[0], b[1], b[2], b[3], b[4], b[5], b[6], b[7]);
    assert((b0 as u64) | ((b1 as u64) << 8) | ((b2 as u64) << 16) | ((b3 as u64) << 24) | ((
    b4 as u64) << 32) | ((b5 as u64) << 40) | ((b6 as u64) << 48) | ((b7 as u64) << 56) == b0
        + 0x100 * b1 + 0x1_0000 * b2 + 0x100_0000 * b3 + 0x1_0000_0000 * b4 + 0x100_0000_0000 * b5
        + 0x1_0000_0000_0000 * b6 + 0x100_0000_0000_0000 * b7) by (bit_vector);
}

/// Byte `k` of the buffer of `v` is `v` divided by 256 to the power `k`,
/// modulo 256.
pub proof fn law_little_endian_bytes(v: u64)
    ensures
        le_bytes(v).len() == 8,
        le_bytes(v)[0] == v % 0x100,
        le_bytes(v)[1] == (v / 0x100) % 0x100,
        le_bytes(v)[2] == (v / 0x1_0000) % 0x100,
        le_bytes(v)[3] == (v / 0x100_0000) % 0x100,
        le_bytes(v)[4] == (v / 0x1_0000_0000) % 0x100,
        le_bytes(v)[5] == (v / 0x100_0000_0000) % 0x100,
        le_bytes(v)[6] == (v / 0x1_0000_0000_0000) % 0x100,
        le_bytes(v)[7] == (v / 0x100_0000_0000_0000) % 0x100,
{
    assert((v & 0xff) as u8 == v % 0x100) by (bit_vector);
    assert(((v >> 8) & 0xff) as u8 == (v / 0x100) % 0x100) by (bit_vector);
    assert(((v >> 16) & 0xff) as u8 == (v / 0x1_0000) % 0x100) by (bit_vector);
    assert(((v >> 24) & 0xff) as u8 == (v / 0x100_0000) % 0x100) by (bit_vector);
    assert(((v >> 32) & 0xff) as u8 == (v / 0x1_0000_0000) % 0x100) by (bit_vector);
    assert(((v >> 40) & 0xff) as u8 == (v / 0x100_0000_0000) % 0x100) by (bit_vector);
    assert(((v >> 48) & 0xff) as u8 == (v / 0x1_0000_0000_0000) % 0x100) by (bit_vector);
    assert(((v >> 56) & 0xff) as u8 == (v / 0x100_0000_0000_0000) % 0x100) by (bit_vector);
}

/// The bytes written by two digit strings one after the other, the first of
/// even length, are those of the first followed by those of the second.
pub proof fn lemma_decoded_concat(a: Seq<char>, b: Seq<char>)
    requires
        a.len() % 2 == 0,
    ensures
        decoded(a + b) == decoded(a) + decoded(b),
    decreases a.len(),
{
    if a.len() == 0 {
        assert(a + b =~= b);
        assert(decoded(a) + decoded(b) =~= decoded(b));
    } else {
        let rest = a.subrange(2, a.len() as int);
        let whole = a + b;
        lemma_decoded_concat(rest, b);
        assert(whole.subrange(2, whole.len() as int) =~= rest + b);
        assert(whole[0] == a[0] && whole[1] == a[1]);
        match pair_byte(a[0], a[1]) {
            Some(x) => {
                assert(seq![x] + (decoded(rest) + decoded(b)) =~= (seq![x] + decoded(rest))
                    + decoded(b));
            },
            None => {},
        }
    }
}

/// An upper-case hexadecimal digit is read back as the number it was written
/// for.
pub proof fn lemma_hex_char_reads_back(n: int)
    requires
        0 <= n < 16,
    ensures
        is_hex_digit(hex_char(n)),
        hex_digit_value(hex_char(n)) == n,
{
    reveal_strlit("0123456789ABCDEF");
}

/// The hexadecimal text of `b` has two digits for each byte and writes `b`.
pub proof fn lemma_hex_text_reads_back(b: Seq<u8>)
    ensures
        hex_text(b).len() == 2 * b.len(),
        decoded(hex_text(b)) == b,
    decreases b.len(),
{
    if b.len() == 0 {
        assert(decoded(hex_text(b)) =~= b);
    } else {
        let front = b.drop_last();
        let hi = b.last() as int / 16;
        let lo = b.last() as int % 16;
        let pair = seq![hex_char(hi), hex_char(lo)];
        lemma_hex_text_reads_back(front);
        lemma_hex_char_reads_back(hi);
        lemma_hex_char_reads_back(lo);
        lemma_decoded_concat(hex_text(front), pair);
        assert(pair.subrange(2, 2) =~= Seq::<char>::empty());
        assert(decoded(pair.subrange(2, 2)) =~= Seq::<u8>::empty());
        assert(decoded(pair) =~= seq![b.last()]);
        assert(front + seq![b.last()] =~= b);
    }
}

/// Each hexadecimal string of a record gives the record's buffer back: the
/// little-endian string read as little endian, the big-endian string read as
/// big endian.
pub proof fn law_hex_strings_read_back(b: Seq<u8>)
    requires
        b.len() == 8,
    ensures
        hex_buffer(record_of(b).little_endian_hex_string, false) == b,
        hex_buffer(record_of(b).big_endian_hex_string, true) == b,
{
    lemma_hex_text_reads_back(b);
    lemma_hex_text_reads_back(b.reverse());
    assert(b.reverse().reverse() =~= b);
    assert(hex_buffer(hex_text(b), false) =~= b);
    assert(hex_buffer(hex_text(b.reverse()), true) =~= b);
}

} // verus!
