//! Resolving a token into its canonical buffer: signed decimal, unsigned
//! decimal, double-precision float, suffixed single-precision float and
//! hexadecimal are tried in this order, and the first that fits decides.
//!
//! Floating-point text is read by the caller, who hands in what it found as
//! bit patterns; everything else is decided here.

use vstd::prelude::*;
use vstd::string::StrSliceExecFns;
use crate::buffer::{encode_le, le_bytes, sign_extend, sign_extended};
use crate::decimal::{read_signed, read_unsigned, signed_decimal, unsigned_decimal};
use crate::hex::{parse_hex, token_buffer};
use crate::pattern::{admits_hex, hex_gate};
use crate::record::{record_of, BaseConverter};
use crate::text::chars_of;

verus! {

/// The token fits none of the supported forms.
#[derive(Debug, Clone, Copy, PartialEq, Eq)]
pub struct NoMatch;

impl NoMatch {
    /// The sentence that tells a reader of the failure.
    pub fn message(&self) -> (r: &'static str)
        ensures
            r@ == "Argument didn't match any expected format."@,
    {
        "Argument didn't match any expected format."
    }
}

/// `s` ends in the suffix `f` or `F` of a single-precision number.
pub open spec fn has_float_suffix(s: Seq<char>) -> bool {
    s.len() > 0 && (s.last() == 'f' || s.last() == 'F')
}

/// The buffer that the token `s` resolves to as a number, or `None` where
/// it is none. `double_bits` is the bit pattern of `s` read as a
/// double-precision number, `single_bits` that of `s` without its last
/// character read as a single-precision number, each `None` where the text
/// is no such number. A signed decimal integer comes first, then an unsigned
/// one, then the double-precision number, then the single-precision number
/// of a text that ends in `f` or `F`.
pub open spec fn resolved_number(
    s: Seq<char>,
    double_bits: Option<u64>,
    single_bits: Option<u32>,
) -> Option<Seq<u8>> {
    if signed_decimal(s) is Some {
        Some(le_bytes(signed_decimal(s)->0 as u64))
    } else if unsigned_decimal(s) is Some {
        Some(le_bytes(unsigned_decimal(s)->0))
    } else if double_bits is Some {
        Some(le_bytes(double_bits->0))
    } else if has_float_suffix(s) && single_bits is Some {
        Some(le_bytes(sign_extended(single_bits->0)))
    } else {
        None
    }
}

/// The buffer that the token `s` resolves to, or `None` where it fits no
/// form: its buffer as a number where it is one, else its buffer as a
/// hexadecimal token where `hex_admitted` says that it has the shape of one.
pub open spec fn resolved(
    s: Seq<char>,
    double_bits: Option<u64>,
    single_bits: Option<u32>,
    hex_admitted: bool,
) -> Option<Seq<u8>> {
    if resolved_number(s, double_bits, single_bits) is Some {
        resolved_number(s, double_bits, single_bits)
    } else if hex_admitted {
        Some(token_buffer(s))
    } else {
        None
    }
}

/// The text in front of a single-precision suffix: `arg` without its last
/// character where that is `f` or `F`, and nothing otherwise.
pub fn strip_float_suffix(arg: &str) -> (r: Option<String>)
    ensures
        r is Some <==> has_float_suffix(arg@),
        r is Some ==> r->0@ == arg@.drop_last(),
{
    let n = arg.unicode_len();
    if n == 0 {
        return None;
    }
    let c = arg.get_char(n - 1);
    if c == 'f' || c == 'F' {
        Some(arg.substring_char(0, n - 1).to_owned())
    } else {
        None
    }
}

/// The buffer of a single-precision bit pattern: the pattern is read as a
/// signed 32-bit integer and widened to 64 bits with its sign.
pub fn widen_single(bits: u32) -> (r: [u8; 8])
    ensures
        r@ == le_bytes(sign_extended(bits)),
{
    encode_le(sign_extend(bits))
}

/// Resolves `arg` as a number, given what the floating-point reader said
/// of it.
pub fn resolve_number(arg: &str, double_bits: Option<u64>, single_bits: Option<u32>) -> (r: Option<
    [u8; 8],
>)
    ensures
        r is Some <==> resolved_number(arg@, double_bits, single_bits) is Some,
        r is Some ==> Some(r->0@) == resolved_number(arg@, double_bits, single_bits),
{
    let chars = chars_of(arg);
    if let Some(i) = read_signed(&chars) {
        return Some(encode_le(#[verifier::truncate] (i as u64)));
    }
    if let Some(u) = read_unsigned(&chars) {
        return Some(encode_le(u));
    }
    if let Some(d) = double_bits {
        return Some(encode_le(d));
    }
    if let Some(w) = single_bits {
        let n = chars.len();
        if n > 0 && (chars[n - 1] == 'f' || chars[n - 1] == 'F') {
            return Some(widen_single(w));
        }
    }
    None
}

/// Resolves a token that is no number: it stands for its buffer as a
/// hexadecimal token where `hex_admitted` says that it has the shape of one,
/// and fits no form otherwise.
pub fn resolve_hex(arg: &str, hex_admitted: bool) -> (r: Result<[u8; 8], NoMatch>)
    ensures
        r is Ok <==> hex_admitted,
        r is Ok ==> r->Ok_0@ == token_buffer(arg@),
{
    if hex_admitted {
        Ok(parse_hex(arg))
    } else {
        Err(NoMatch)
    }
}

/// Resolves `arg`, given what the floating-point reader and the hexadecimal
/// pattern said of it.
pub fn resolve(
    arg: &str,
    double_bits: Option<u64>,
    single_bits: Option<u32>,
    hex_admitted: bool,
) -> (r: Result<[u8; 8], NoMatch>)
    ensures
        r is Ok <==> resolved(arg@, double_bits, single_bits, hex_admitted) is Some,
        r is Ok ==> Some(r->Ok_0@) == resolved(arg@, double_bits, single_bits, hex_admitted),
{
    match resolve_number(arg, double_bits, single_bits) {
        Some(buffer) => Ok(buffer),
        None => resolve_hex(arg, hex_admitted),
    }
}

/// Resolves `arg` into its canonical buffer. `double_bits` and `single_bits`
/// are the caller's floating-point readings, as for [`resolved_number`];
/// whether `arg` has the shape of a hexadecimal token is asked of the pattern
/// engine, and only where `arg` is no number.
pub fn parse(arg: &str, double_bits: Option<u64>, single_bits: Option<u32>) -> (r: Result<
    [u8; 8],
    NoMatch,
>)
    ensures
        r is Ok <==> resolved(arg@, double_bits, single_bits, admits_hex(arg@)) is Some,
        r is Ok ==> Some(r->Ok_0@) == resolved(arg@, double_bits, single_bits, admits_hex(arg@)),
{
    match resolve_number(arg, double_bits, single_bits) {
        Some(buffer) => Ok(buffer),
        None => resolve_hex(arg, hex_gate(arg)),
    }
}

impl BaseConverter {
    /// Resolves `arg` and fills the record with every reading of its buffer.
    /// Where `arg` fits no form the record stays as it was.
    pub fn parse_and_convert(
        &mut self,
        arg: &str,
        double_bits: Option<u64>,
        single_bits: Option<u32>,
    ) -> (r: Result<(), NoMatch>)
        ensures
            r is Ok <==> resolved(arg@, double_bits, single_bits, admits_hex(arg@)) is Some,
            r is Ok ==> final(self)@ == record_of(
                resolved(arg@, double_bits, single_bits, admits_hex(arg@))->0,
            ),
            r is Ok ==> final(self).is_consistent(),
            r is Err ==> *final(self) == *old(self),
            old(self).well_formed() ==> final(self).well_formed(),
    {
        match parse(arg, double_bits, single_bits) {
            Ok(buffer) => {
                *self = BaseConverter::derive(&buffer);
                Ok(())
            },
            Err(e) => Err(e),
        }
    }
}

} // verus!
