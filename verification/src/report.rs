//! The lines that show a record to a reader, one labelled line per field.

use vstd::prelude::*;
use vstd::string::StringExecFns;
use crate::decimal::{int_text, write_signed, write_unsigned};
use crate::record::{BaseConverter, RecordView};

verus! {

/// The twelve lines for the record `v`: the two hexadecimal strings, the
/// signed and the unsigned integers from the widest to the narrowest, and the
/// two floating-point readings, whose text the caller supplies. Labels are
/// right-aligned to one width.
pub open spec fn report_lines(v: RecordView, float_text: Seq<char>, double_text: Seq<char>) -> Seq<
    Seq<char>,
> {
    seq![
        "     Hex (le): 0x"@ + v.little_endian_hex_string,
        "     Hex (be): 0x"@ + v.big_endian_hex_string,
        "Integer (i64): "@ + int_text(v.int64 as int),
        "        (i32): "@ + int_text(v.int32 as int),
        "        (i16): "@ + int_text(v.int16 as int),
        "         (i8): "@ + int_text(v.int8 as int),
        "        (u64): "@ + int_text(v.uint64 as int),
        "        (u32): "@ + int_text(v.uint32 as int),
        "        (u16): "@ + int_text(v.uint16 as int),
        "         (u8): "@ + int_text(v.uint8 as int),
        "  Float (f32): "@ + float_text,
        " Double (f64): "@ + double_text,
    ]
}

/// `label` followed by `value`.
pub fn labelled(label: &str, value: &str) -> (r: String)
    ensures
        r@ == label@ + value@,
{
    let mut line = label.to_owned();
    line.append(value);
    line
}

impl BaseConverter {
    /// The lines that show this record, ready to be printed one after the
    /// other. `float_text` and `double_text` are the two floating-point
    /// readings as the caller wants them shown.
    pub fn print_values(&self, float_text: &str, double_text: &str) -> (r: Vec<String>)
        ensures
            r@.len() == 12,
            forall|k: int|
                0 <= k < 12 ==> (#[trigger] r@[k])@ == report_lines(
                    self@,
                    float_text@,
                    double_text@,
                )[k],
    {
        let mut lines: Vec<String> = Vec::new();
        lines.push(labelled("     Hex (le): 0x", self.little_endian_hex_string.as_str()));
        lines.push(labelled("     Hex (be): 0x", self.big_endian_hex_string.as_str()));
        lines.push(labelled("Integer (i64): ", write_signed(self.int64).as_str()));
        lines.push(labelled("        (i32): ", write_signed(self.int32 as i64).as_str()));
        lines.push(labelled("        (i16): ", write_signed(self.int16 as i64).as_str()));
        lines.push(labelled("         (i8): ", write_signed(self.int8 as i64).as_str()));
        lines.push(labelled("        (u64): ", write_unsigned(self.uint64).as_str()));
        lines.push(labelled("        (u32): ", write_unsigned(self.uint32 as u64).as_str()));
        lines.push(labelled("        (u16): ", write_unsigned(self.uint16 as u64).as_str()));
        lines.push(labelled("         (u8): ", write_unsigned(self.uint8 as u64).as_str()));
        lines.push(labelled("  Float (f32): ", float_text));
        lines.push(labelled(" Double (f64): ", double_text));
        lines
    }
}

} // verus!
