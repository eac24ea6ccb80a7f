//! The record of every typed reading of one canonical buffer.

use vstd::prelude::*;
use vstd::string::StrSliceExecFns;
use vstd::string::StringExecFns;
use crate::buffer::{word16, word32, word64};

verus! {

/// The upper-case hexadecimal digit for `n`, which is below 16.
pub open spec fn hex_char(n: int) -> char {
    "0123456789ABCDEF"@[n]
}

/// Two upper-case hexadecimal digits for each byte of `b`, byte 0 first, the
/// high digit of a byte before its low digit.
pub open spec fn hex_text(b: Seq<u8>) -> Seq<char>
    decreases b.len(),
{
    if b.len() == 0 {
        Seq::empty()
    } else {
        hex_text(b.drop_last()) + seq![hex_char(b.last() as int / 16), hex_char(b.last() as int % 16)]
    }
}

/// What a record holds, as mathematical values.
pub struct RecordView {
    pub int64: i64,
    pub int32: i32,
    pub int16: i16,
    pub int8: i8,
    pub uint64: u64,
    pub uint32: u32,
    pub uint16: u16,
    pub uint8: u8,
    pub float32_bits: u32,
    pub float64_bits: u64,
    pub little_endian_bytes: Seq<u8>,
    pub little_endian_hex_string: Seq<char>,
    pub big_endian_bytes: Seq<u8>,
    pub big_endian_hex_string: Seq<char>,
}

/// The record of the eight-byte buffer `b`: every field reads the same
/// bytes. The narrow integers read the low-order bytes, the signed fields
/// have the bit patterns of the unsigned ones, and the two floating-point
/// fields are given as the bit patterns of the low four and of all eight
/// bytes.
pub open spec fn record_of(b: Seq<u8>) -> RecordView {
    RecordView {
        int64: word64(b) as i64,
        int32: word32(b) as i32,
        int16: word16(b) as i16,
        int8: b[0] as i8,
        uint64: word64(b),
        uint32: word32(b),
        uint16: word16(b),
        uint8: b[0],
        float32_bits: word32(b),
        float64_bits: word64(b),
        little_endian_bytes: b,
        little_endian_hex_string: hex_text(b),
        big_endian_bytes: b.reverse(),
        big_endian_hex_string: hex_text(b.reverse()),
    }
}

/// The record with nothing in it yet: zero in every number and byte, and no
/// text.
pub open spec fn blank_record() -> RecordView {
    RecordView {
        int64: 0,
        int32: 0,
        int16: 0,
        int8: 0,
        uint64: 0,
        uint32: 0,
        uint16: 0,
        uint8: 0,
        float32_bits: 0,
        float64_bits: 0,
        little_endian_bytes: Seq::new(8, |i: int| 0u8),
        little_endian_hex_string: Seq::empty(),
        big_endian_bytes: Seq::new(8, |i: int| 0u8),
        big_endian_hex_string: Seq::empty(),
    }
}

/// Every reading of one canonical buffer. The two floating-point readings
/// are held as their bit patterns: `float32_bits` is the single-precision
/// number in the low four bytes, `float64_bits` the double-precision number
/// in all eight.
#[derive(Debug, Clone)]
pub struct BaseConverter {
    pub int64: i64,
    pub int32: i32,
    pub int16: i16,
    pub int8: i8,
    pub uint64: u64,
    pub uint32: u32,
    pub uint16: u16,
    pub uint8: u8,
    pub float32_bits: u32,
    pub float64_bits: u64,
    pub little_endian_bytes: [u8; 8],
    pub little_endian_hex_string: String,
    pub big_endian_bytes: [u8; 8],
    pub big_endian_hex_string: String,
}

impl View for BaseConverter {
    type V = RecordView;

    open spec fn view(&self) -> RecordView {
        RecordView {
            int64: self.int64,
            int32: self.int32,
            int16: self.int16,
            int8: self.int8,
            uint64: self.uint64,
            uint32: self.uint32,
            uint16: self.uint16,
            uint8: self.uint8,
            float32_bits: self.float32_bits,
            float64_bits: self.float64_bits,
            little_endian_bytes: self.little_endian_bytes@,
            little_endian_hex_string: self.little_endian_hex_string@,
            big_endian_bytes: self.big_endian_bytes@,
            big_endian_hex_string: self.big_endian_hex_string@,
        }
    }
}

impl Default for BaseConverter {
    fn default() -> (r: BaseConverter)
        ensures
            r@ == blank_record(),
            r.well_formed(),
    {
        let r = BaseConverter {
            int64: 0,
            int32: 0,
            int16: 0,
            int8: 0,
            uint64: 0,
            uint32: 0,
            uint16: 0,
            uint8: 0,
            float32_bits: 0,
            float64_bits: 0,
            little_endian_bytes: [0u8; 8],
            little_endian_hex_string: String::new(),
            big_endian_bytes: [0u8; 8],
            big_endian_hex_string: String::new(),
        };
        proof {
            assert(r.little_endian_bytes@ =~= blank_record().little_endian_bytes);
            assert(r.big_endian_bytes@ =~= blank_record().big_endian_bytes);
        }
        r
    }
}

/// The upper-case hexadecimal text of `bytes`, two digits for each byte.
pub fn to_hex_string(bytes: &[u8; 8]) -> (r: String)
    ensures
        r@ == hex_text(bytes@),
{
    let digits = "0123456789ABCDEF";
    proof {
        reveal_strlit("0123456789ABCDEF");
    }
    let mut out = String::new();
    let mut i: usize = 0;
    proof {
        assert(bytes@.take(0) =~= Seq::<u8>::empty());
    }
    while i < 8
        invariant
            i <= 8,
            digits@ == "0123456789ABCDEF"@,
            digits@.len() == 16,
            out@ == hex_text(bytes@.take(i as int)),
        decreases 8 - i,
    {
        let b = bytes[i];
        let hi: usize = (b / 16) as usize;
        let lo: usize = (b % 16) as usize;
        let ghost before = out@;
        out.append(digits.substring_char(hi, hi + 1));
        out.append(digits.substring_char(lo, lo + 1));
        proof {
            let t = bytes@.take(i + 1);
            assert(t.drop_last() =~= bytes@.take(i as int));
            assert(t.last() == b);
            assert(out@ =~= before + seq![hex_char(hi as int), hex_char(lo as int)]);
        }
        i = i + 1;
    }
    proof {
        assert(bytes@.take(8) =~= bytes@);
    }
    out
}

impl BaseConverter {
    /// Every field is a reading of the record's own little-endian bytes.
    pub open spec fn is_consistent(&self) -> bool {
        self@ == record_of(self.little_endian_bytes@)
    }

    /// The record is either still blank or filled from one buffer.
    pub open spec fn well_formed(&self) -> bool {
        self@ == blank_record() || self.is_consistent()
    }

    /// Reads `bytes` under every representation at once.
    pub fn derive(bytes: &[u8; 8]) -> (r: BaseConverter)
        ensures
            r@ == record_of(bytes@),
            r.is_consistent(),
    {
        let w16: u16 = (bytes[0] as u16) | ((bytes[1] as u16) << 8);
        let w32: u32 = (bytes[0] as u32) | ((bytes[1] as u32) << 8) | ((bytes[2] as u32) << 16)
            | ((bytes[3] as u32) << 24);
        let w64: u64 = (bytes[0] as u64) | ((bytes[1] as u64) << 8) | ((bytes[2] as u64) << 16)
            | ((bytes[3] as u64) << 24) | ((bytes[4] as u64) << 32) | ((bytes[5] as u64) << 40)
            | ((bytes[6] as u64) << 48) | ((bytes[7] as u64) << 56);
        let big: [u8; 8] = [
            bytes[7],
            bytes[6],
            bytes[5],
            bytes[4],
            bytes[3],
            bytes[2],
            bytes[1],
            bytes[0],
        ];
        proof {
            assert(big@ =~= bytes@.reverse());
        }
        BaseConverter {
            int64: #[verifier::truncate] (w64 as i64),
            int32: #[verifier::truncate] (w32 as i32),
            int16: #[verifier::truncate] (w16 as i16),
            int8: #[verifier::truncate] (bytes[0] as i8),
            uint64: w64,
            uint32: w32,
            uint16: w16,
            uint8: bytes[0],
            float32_bits: w32,
            float64_bits: w64,
            little_endian_bytes: *bytes,
            little_endian_hex_string: to_hex_string(bytes),
            big_endian_bytes: big,
            big_endian_hex_string: to_hex_string(&big),
        }
    }
}

} // verus!
