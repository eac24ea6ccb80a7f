use base_converter::buffer::{encode_le, sign_extend};
use base_converter::classify::{widen_single, parse, strip_float_suffix, resolve, NoMatch};
use base_converter::decimal::{
    read_magnitude, read_signed, read_unsigned, write_signed, write_unsigned,
};
use base_converter::hex::{decode_pairs, hex_to_byte_array, parse_hex, parse_hex_string, read_pair};
use base_converter::pattern::hex_gate;
use base_converter::record::{to_hex_string, BaseConverter};
use base_converter::report::labelled;
use base_converter::text::chars_of;

/// The bit pattern of `arg` read as a double-precision number.
fn double_bits(arg: &str) -> Option<u64> {
    arg.parse::<f64>().ok().map(f64::to_bits)
}

/// The bit pattern of `arg` without its suffix read as a single-precision number.
fn single_bits(arg: &str) -> Option<u32> {
    strip_float_suffix(arg).and_then(|t| t.parse::<f32>().ok()).map(f32::to_bits)
}

fn convert(arg: &str) -> Result<BaseConverter, NoMatch> {
    let mut converter = BaseConverter::default();
    converter.parse_and_convert(arg, double_bits(arg), single_bits(arg))?;
    Ok(converter)
}

fn buffer_of(arg: &str) -> Result<[u8; 8], NoMatch> {
    parse(arg, double_bits(arg), single_bits(arg))
}

fn chars(s: &str) -> Vec<char> {
    s.chars().collect()
}

#[test]
fn converter_test1() {
    let mut converter = BaseConverter::default();
    let arg = "0x3f9df3b6";
    let done = converter.parse_and_convert(arg, double_bits(arg), single_bits(arg));
    assert_eq!(done, Ok(()));
    assert_eq!(f32::from_bits(converter.float32_bits), 1.234);
}

#[test]
fn hex_token_reads_as_negative_float() {
    let converter = convert("0xc0add2f2").unwrap();
    assert_eq!(f32::from_bits(converter.float32_bits), -5.432);
}

#[test]
fn hex_token_reads_as_large_negative_float() {
    let converter = convert("0xc59c4800").unwrap();
    assert_eq!(f32::from_bits(converter.float32_bits), -5001.0);
}

#[test]
fn suffixed_float_is_sign_extended() {
    let converter = convert("-5001.0f").unwrap();
    let bits = (-5001.0f32).to_bits();
    assert_eq!(bits, 0xc59c4800);
    assert_eq!(converter.int32, bits as i32);
    assert_eq!(converter.int64, (bits as i32) as i64);
    assert_eq!(converter.uint64, 0xffff_ffff_c59c_4800);
    assert_eq!(f32::from_bits(converter.float32_bits), -5001.0);
    assert_eq!(converter.little_endian_bytes, [0x00, 0x48, 0x9c, 0xc5, 0xff, 0xff, 0xff, 0xff]);
}

#[test]
fn suffixed_float_with_capital_suffix() {
    let converter = convert("1.5F").unwrap();
    assert_eq!(converter.uint64, 0x3fc0_0000);
    assert_eq!(f32::from_bits(converter.float32_bits), 1.5);
}

#[test]
fn big_endian_marker_reverses_bytes() {
    let converter = convert(">0x0102030405060708").unwrap();
    assert_eq!(converter.little_endian_bytes, [0x08, 0x07, 0x06, 0x05, 0x04, 0x03, 0x02, 0x01]);
    assert_eq!(converter.big_endian_bytes, [0x01, 0x02, 0x03, 0x04, 0x05, 0x06, 0x07, 0x08]);
    assert_eq!(converter.uint64, 0x0102030405060708);
}

#[test]
fn little_endian_marker_keeps_bytes() {
    let converter = convert("<0x0102030405060708").unwrap();
    assert_eq!(converter.little_endian_bytes, [0x01, 0x02, 0x03, 0x04, 0x05, 0x06, 0x07, 0x08]);
    assert_eq!(converter.uint64, 0x0807060504030201);
}

#[test]
fn no_marker_means_big_endian() {
    assert_eq!(buffer_of("0x0102"), Ok([0x02, 0x01, 0, 0, 0, 0, 0, 0]));
    assert_eq!(buffer_of("0102h"), Ok([0x02, 0x01, 0, 0, 0, 0, 0, 0]));
}

#[test]
fn unknown_text_matches_nothing() {
    assert_eq!(buffer_of("not_a_number"), Err(NoMatch));
    assert_eq!(NoMatch.message(), "Argument didn't match any expected format.");
    let mut converter = BaseConverter::default();
    let arg = "not_a_number";
    assert_eq!(
        converter.parse_and_convert(arg, double_bits(arg), single_bits(arg)),
        Err(NoMatch)
    );
    assert_eq!(converter.uint64, 0);
    assert_eq!(converter.little_endian_hex_string, "");
}

#[test]
fn signed_integers_round_trip() {
    for i in [0i64, 1, -1, 42, -5001, i64::MAX, i64::MIN, 1234567890123456789] {
        let converter = convert(&i.to_string()).unwrap();
        assert_eq!(converter.int64, i);
        assert_eq!(converter.little_endian_bytes, i.to_le_bytes());
    }
}

#[test]
fn unsigned_integers_round_trip() {
    for u in [u64::MAX, i64::MAX as u64 + 1, 12345678901234567890u64] {
        let converter = convert(&u.to_string()).unwrap();
        assert_eq!(converter.uint64, u);
        assert_eq!(converter.little_endian_bytes, u.to_le_bytes());
    }
}

#[test]
fn doubles_round_trip_bit_for_bit() {
    for d in [1.5f64, -2.25, 1e300, 6.02e-23, f64::INFINITY, f64::NEG_INFINITY, f64::NAN] {
        let converter = convert(&d.to_string()).unwrap();
        assert_eq!(converter.float64_bits, d.to_bits());
        assert_eq!(converter.little_endian_bytes, d.to_le_bytes());
    }
}

#[test]
fn integral_double_text_is_an_integer() {
    let converter = convert(&1.0f64.to_string()).unwrap();
    assert_eq!(converter.int64, 1);
    assert_eq!(converter.float64_bits, 1);
}

#[test]
fn exponent_notation_is_a_double() {
    let converter = convert("1e3").unwrap();
    assert_eq!(f64::from_bits(converter.float64_bits), 1000.0);
    assert_eq!(converter.uint64, 1000.0f64.to_bits());
}

#[test]
fn beyond_unsigned_range_is_a_double() {
    let converter = convert("18446744073709551616").unwrap();
    assert_eq!(f64::from_bits(converter.float64_bits), 18446744073709551616.0);
}

#[test]
fn plus_sign_is_read_as_unsigned() {
    assert_eq!(buffer_of("+5"), Ok([5, 0, 0, 0, 0, 0, 0, 0]));
    assert_eq!(buffer_of("+18446744073709551615"), Ok([0xff; 8]));
    assert_eq!(buffer_of("-0"), Ok([0; 8]));
}

#[test]
fn byte_orders_mirror_each_other() {
    for arg in ["-2", "0xdeadbeef", "3.25", "2.5f", "<0102h", "18446744073709551615"] {
        let converter = convert(arg).unwrap();
        let mut reversed = converter.little_endian_bytes;
        reversed.reverse();
        assert_eq!(reversed, converter.big_endian_bytes);
    }
}

#[test]
fn deriving_twice_gives_the_same_record() {
    let buffer = [0x10, 0x32, 0x54, 0x76, 0x98, 0xba, 0xdc, 0xfe];
    let a = BaseConverter::derive(&buffer);
    let b = BaseConverter::derive(&buffer);
    assert_eq!(a.int64, b.int64);
    assert_eq!(a.int32, b.int32);
    assert_eq!(a.int16, b.int16);
    assert_eq!(a.int8, b.int8);
    assert_eq!(a.uint64, b.uint64);
    assert_eq!(a.uint32, b.uint32);
    assert_eq!(a.uint16, b.uint16);
    assert_eq!(a.uint8, b.uint8);
    assert_eq!(a.float32_bits, b.float32_bits);
    assert_eq!(a.float64_bits, b.float64_bits);
    assert_eq!(a.little_endian_bytes, b.little_endian_bytes);
    assert_eq!(a.little_endian_hex_string, b.little_endian_hex_string);
    assert_eq!(a.big_endian_bytes, b.big_endian_bytes);
    assert_eq!(a.big_endian_hex_string, b.big_endian_hex_string);
}

#[test]
fn record_reads_every_width() {
    let buffer = [0x10, 0x32, 0x54, 0x76, 0x98, 0xba, 0xdc, 0xfe];
    let r = BaseConverter::derive(&buffer);
    assert_eq!(r.uint64, 0xfedcba9876543210);
    assert_eq!(r.uint32, 0x76543210);
    assert_eq!(r.uint16, 0x3210);
    assert_eq!(r.uint8, 0x10);
    assert_eq!(r.int64, 0xfedcba9876543210u64 as i64);
    assert_eq!(r.int32, 0x76543210);
    assert_eq!(r.int16, 0x3210);
    assert_eq!(r.int8, 0x10);
    assert_eq!(r.float32_bits, 0x76543210);
    assert_eq!(r.float64_bits, 0xfedcba9876543210);
    assert_eq!(r.little_endian_bytes, buffer);
    assert_eq!(r.big_endian_bytes, [0xfe, 0xdc, 0xba, 0x98, 0x76, 0x54, 0x32, 0x10]);
    assert_eq!(r.little_endian_hex_string, "1032547698BADCFE");
    assert_eq!(r.big_endian_hex_string, "FEDCBA9876543210");
}

#[test]
fn record_reads_negative_narrow_fields() {
    let r = BaseConverter::derive(&[0x80, 0xff, 0xff, 0xff, 0, 0, 0, 0]);
    assert_eq!(r.int8, -128);
    assert_eq!(r.int16, -128);
    assert_eq!(r.int32, -128);
    assert_eq!(r.int64, 0xffff_ff80);
    assert_eq!(r.uint8, 0x80);
    assert_eq!(r.uint16, 0xff80);
    assert_eq!(r.uint32, 0xffff_ff80);
}

#[test]
fn hex_strings_follow_storage_order() {
    let converter = convert("0x3f9df3b6").unwrap();
    assert_eq!(converter.little_endian_hex_string, "B6F39D3F00000000");
    assert_eq!(converter.big_endian_hex_string, "000000003F9DF3B6");
    assert_eq!(to_hex_string(&[0x0a, 0xb0, 0, 1, 2, 3, 0xff, 0x9c]), "0AB000010203FF9C");
}

#[test]
fn fresh_record_is_blank() {
    let r = BaseConverter::default();
    assert_eq!(r.int64, 0);
    assert_eq!(r.int32, 0);
    assert_eq!(r.int16, 0);
    assert_eq!(r.int8, 0);
    assert_eq!(r.uint64, 0);
    assert_eq!(r.uint32, 0);
    assert_eq!(r.uint16, 0);
    assert_eq!(r.uint8, 0);
    assert_eq!(r.float32_bits, 0);
    assert_eq!(r.float64_bits, 0);
    assert_eq!(r.little_endian_bytes, [0; 8]);
    assert_eq!(r.big_endian_bytes, [0; 8]);
    assert_eq!(r.little_endian_hex_string, "");
    assert_eq!(r.big_endian_hex_string, "");
}

#[test]
fn malformed_pairs_are_skipped() {
    assert_eq!(hex_to_byte_array("zz12", false), [0x12, 0, 0, 0, 0, 0, 0, 0]);
    assert_eq!(hex_to_byte_array("12zz34", false), [0x12, 0x34, 0, 0, 0, 0, 0, 0]);
    assert_eq!(hex_to_byte_array("12zz34", true), [0x34, 0x12, 0, 0, 0, 0, 0, 0]);
    assert_eq!(hex_to_byte_array("1g", false), [0; 8]);
    assert_eq!(hex_to_byte_array("", true), [0; 8]);
}

#[test]
fn odd_last_digit_is_dropped() {
    assert_eq!(hex_to_byte_array("123", false), [0x12, 0, 0, 0, 0, 0, 0, 0]);
    assert_eq!(hex_to_byte_array("f", false), [0; 8]);
    assert_eq!(buffer_of("0x123"), Ok([0x12, 0, 0, 0, 0, 0, 0, 0]));
}

#[test]
fn bytes_beyond_the_eighth_are_discarded() {
    assert_eq!(
        hex_to_byte_array("010203040506070809", false),
        [1, 2, 3, 4, 5, 6, 7, 8]
    );
    assert_eq!(
        hex_to_byte_array("010203040506070809", true),
        [9, 8, 7, 6, 5, 4, 3, 2]
    );
}

#[test]
fn pairs_are_read_in_base_sixteen() {
    assert_eq!(read_pair('f', 'F'), Some(0xff));
    assert_eq!(read_pair('0', '0'), Some(0));
    assert_eq!(read_pair('a', '9'), Some(0xa9));
    assert_eq!(read_pair('+', '7'), Some(7));
    assert_eq!(read_pair('-', '7'), None);
    assert_eq!(read_pair('7', '+'), None);
    assert_eq!(read_pair('g', '0'), None);
    assert_eq!(decode_pairs(&chars("00ff1")), vec![0x00, 0xff]);
}

#[test]
fn markers_are_taken_off_in_order() {
    assert_eq!(parse_hex_string("<0x12h"), (false, "12".to_string()));
    assert_eq!(parse_hex_string(">0X12H"), (true, "12".to_string()));
    assert_eq!(parse_hex_string("0x12"), (true, "12".to_string()));
    assert_eq!(parse_hex_string("12"), (true, "12".to_string()));
    assert_eq!(parse_hex_string("<12"), (false, "12".to_string()));
    assert_eq!(parse_hex_string("h"), (true, "".to_string()));
    assert_eq!(parse_hex_string(">"), (true, "".to_string()));
    assert_eq!(parse_hex_string("0x"), (true, "".to_string()));
    assert_eq!(parse_hex_string(""), (true, "".to_string()));
    assert_eq!(parse_hex_string("x0x12hh"), (true, "x0x12h".to_string()));
    assert_eq!(parse_hex(">0x0a0b"), [0x0b, 0x0a, 0, 0, 0, 0, 0, 0]);
    assert_eq!(parse_hex("<0a0bh"), [0x0a, 0x0b, 0, 0, 0, 0, 0, 0]);
}

#[test]
fn pattern_admits_hex_tokens_only() {
    assert!(hex_gate("0x3f9df3b6"));
    assert!(hex_gate(">0X12h"));
    assert!(hex_gate("<"));
    assert!(hex_gate("deadbeefH"));
    assert!(hex_gate(""));
    assert!(!hex_gate("not_a_number"));
    assert!(!hex_gate("0x12 "));
    assert!(!hex_gate("0x0x12"));
    assert!(!hex_gate("12\n"));
}

#[test]
fn hex_digits_ending_in_f_fall_through_to_hex() {
    assert_eq!(buffer_of("deadbeef"), Ok([0xef, 0xbe, 0xad, 0xde, 0, 0, 0, 0]));
}

#[test]
fn empty_token_is_an_empty_hex_token() {
    assert_eq!(buffer_of(""), Ok([0; 8]));
}

#[test]
fn earlier_forms_win() {
    assert_eq!(resolve("12", Some(7), Some(9), true), Ok([12, 0, 0, 0, 0, 0, 0, 0]));
    assert_eq!(resolve("1f", Some(7), Some(9), true), Ok([7, 0, 0, 0, 0, 0, 0, 0]));
    assert_eq!(resolve("1f", None, Some(9), true), Ok([9, 0, 0, 0, 0, 0, 0, 0]));
    assert_eq!(resolve("1f", None, None, true), Ok([0x1f, 0, 0, 0, 0, 0, 0, 0]));
    assert_eq!(resolve("1f", None, None, false), Err(NoMatch));
    assert_eq!(resolve("1a", None, Some(9), true), Ok([0x1a, 0, 0, 0, 0, 0, 0, 0]));
    assert_eq!(resolve("1a", None, Some(9), false), Err(NoMatch));
}

#[test]
fn float_suffix_is_split_off() {
    assert_eq!(strip_float_suffix("1.5f"), Some("1.5".to_string()));
    assert_eq!(strip_float_suffix("-5001.0F"), Some("-5001.0".to_string()));
    assert_eq!(strip_float_suffix("f"), Some("".to_string()));
    assert_eq!(strip_float_suffix("1.5"), None);
    assert_eq!(strip_float_suffix(""), None);
}

#[test]
fn single_precision_pattern_is_widened_with_its_sign() {
    assert_eq!(
        widen_single(0xc59c4800),
        [0x00, 0x48, 0x9c, 0xc5, 0xff, 0xff, 0xff, 0xff]
    );
    assert_eq!(widen_single(0x3f9df3b6), [0xb6, 0xf3, 0x9d, 0x3f, 0, 0, 0, 0]);
    assert_eq!(sign_extend(0x8000_0000), 0xffff_ffff_8000_0000);
    assert_eq!(sign_extend(0x7fff_ffff), 0x7fff_ffff);
    assert_eq!(encode_le(0x0102030405060708), [8, 7, 6, 5, 4, 3, 2, 1]);
}

#[test]
fn decimal_readers_hold_the_range() {
    assert_eq!(read_signed(&chars("-9223372036854775808")), Some(i64::MIN));
    assert_eq!(read_signed(&chars("-9223372036854775809")), None);
    assert_eq!(read_signed(&chars("9223372036854775807")), Some(i64::MAX));
    assert_eq!(read_signed(&chars("9223372036854775808")), None);
    assert_eq!(read_signed(&chars("0000000000000000000000000000012")), Some(12));
    assert_eq!(read_signed(&chars("+12")), None);
    assert_eq!(read_signed(&chars("-")), None);
    assert_eq!(read_signed(&chars("")), None);
    assert_eq!(read_signed(&chars(" 12")), None);
    assert_eq!(read_signed(&chars("1_2")), None);
    assert_eq!(read_unsigned(&chars("18446744073709551615")), Some(u64::MAX));
    assert_eq!(read_unsigned(&chars("18446744073709551616")), None);
    assert_eq!(read_unsigned(&chars("99999999999999999999999")), None);
    assert_eq!(read_unsigned(&chars("+12")), Some(12));
    assert_eq!(read_unsigned(&chars("-12")), None);
    assert_eq!(read_unsigned(&chars("+")), None);
    assert_eq!(read_magnitude(&chars("ab123"), 2), Some(123));
    assert_eq!(read_magnitude(&chars("ab"), 2), None);
    assert_eq!(chars_of("a<é"), vec!['a', '<', 'é']);
}

#[test]
fn decimal_writers_agree_with_the_standard_text() {
    for i in [0i64, 7, 10, -1, -10, 99, 100, 1234567890, i64::MAX, i64::MIN, -9223372036854775807] {
        assert_eq!(write_signed(i), i.to_string());
    }
    for u in [0u64, 9, 10, 18446744073709551615, 9223372036854775808] {
        assert_eq!(write_unsigned(u), u.to_string());
    }
}

#[test]
fn written_integers_read_back() {
    for i in [0i64, -1, 1, i64::MIN, i64::MAX, -4096] {
        assert_eq!(read_signed(&chars(&write_signed(i))), Some(i));
    }
    for u in [0u64, u64::MAX, 9223372036854775808] {
        assert_eq!(read_unsigned(&chars(&write_unsigned(u))), Some(u));
    }
}

#[test]
fn record_is_shown_line_by_line() {
    let converter = convert("0x3f9df3b6").unwrap();
    let float_text = format!("{:.2e}", f32::from_bits(converter.float32_bits));
    let double_text = format!("{:.2e}", f64::from_bits(converter.float64_bits));
    let lines = converter.print_values(&float_text, &double_text);
    assert_eq!(
        lines,
        vec![
            "     Hex (le): 0xB6F39D3F00000000",
            "     Hex (be): 0x000000003F9DF3B6",
            "Integer (i64): 1067316150",
            "        (i32): 1067316150",
            "        (i16): -3146",
            "         (i8): -74",
            "        (u64): 1067316150",
            "        (u32): 1067316150",
            "        (u16): 62390",
            "         (u8): 182",
            "  Float (f32): 1.23e0",
            " Double (f64): 5.27e-315",
        ]
    );
    assert_eq!(labelled("a: ", "b"), "a: b");
}

#[test]
fn shown_hex_strings_read_back() {
    for arg in ["-5001", "0x3f9df3b6", "2.5", "<0102030405060708", "18446744073709551615"] {
        let first = convert(arg).unwrap();
        let big = format!("0x{}", first.big_endian_hex_string);
        let again = convert(&big).unwrap();
        assert_eq!(again.little_endian_bytes, first.little_endian_bytes);
        let little = format!("<0x{}", first.little_endian_hex_string);
        let third = convert(&little).unwrap();
        assert_eq!(third.little_endian_bytes, first.little_endian_bytes);
        assert_eq!(
            hex_to_byte_array(&first.little_endian_hex_string, false),
            first.little_endian_bytes
        );
        assert_eq!(
            hex_to_byte_array(&first.big_endian_hex_string, true),
            first.little_endian_bytes
        );
    }
}
