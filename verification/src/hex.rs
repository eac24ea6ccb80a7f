//! Hexadecimal tokens: the markers around the digits, the bytes that the
//! digits write, and the buffer those bytes fill.

use vstd::prelude::*;
use vstd::string::StrSliceExecFns;
use crate::text::chars_of;

verus! {

/// `c` is a hexadecimal digit, in either case.
pub open spec fn is_hex_digit(c: char) -> bool {
    '0' <= c <= '9' || 'a' <= c <= 'f' || 'A' <= c <= 'F'
}

/// What a hexadecimal digit is worth.
pub open spec fn hex_digit_value(c: char) -> int {
    if '0' <= c <= '9' {
        c as int - '0' as int
    } else if 'a' <= c <= 'f' {
        c as int - 'a' as int + 10
    } else {
        c as int - 'A' as int + 10
    }
}

/// The byte that the pair of characters `hi`, `lo` writes in base 16, if it
/// writes one: two hexadecimal digits, or a plus sign before a single digit.
pub open spec fn pair_byte(hi: char, lo: char) -> Option<u8> {
    if is_hex_digit(hi) && is_hex_digit(lo) {
        Some((hex_digit_value(hi) * 16 + hex_digit_value(lo)) as u8)
    } else if hi == '+' && is_hex_digit(lo) {
        Some(hex_digit_value(lo) as u8)
    } else {
        None
    }
}

/// The bytes that `s` writes, pair by pair from the left. A pair that writes
/// no byte gives none, and a last character without a partner is left out.
pub open spec fn decoded(s: Seq<char>) -> Seq<u8>
    decreases s.len(),
{
    if s.len() < 2 {
        Seq::empty()
    } else {
        let rest = decoded(s.subrange(2, s.len() as int));
        match pair_byte(s[0], s[1]) {
            Some(b) => seq![b] + rest,
            None => rest,
        }
    }
}

/// The eight-byte buffer that starts with `bytes`: what is missing is zero,
/// and what goes beyond the eighth byte is left out.
pub open spec fn placed(bytes: Seq<u8>) -> Seq<u8> {
    Seq::new(
        8,
        |i: int|
            if i < bytes.len() {
                bytes[i]
            } else {
                0u8
            },
    )
}

/// The buffer for the digit string `digits`: its bytes as written for little
/// endian, in reverse order for big endian.
pub open spec fn hex_buffer(digits: Seq<char>, big_endian: bool) -> Seq<u8> {
    let d = decoded(digits);
    placed(
        if big_endian {
            d.reverse()
        } else {
            d
        },
    )
}

/// Whether the token `s` gives its digits in big-endian order: it does unless
/// it starts with `<`.
pub open spec fn marks_big_endian(s: Seq<char>) -> bool {
    !(s.len() > 0 && s[0] == '<')
}

/// Length of the direction marker at the start of `s`: one for `<` or `>`.
pub open spec fn direction_len(s: Seq<char>) -> int {
    if s.len() > 0 && (s[0] == '>' || s[0] == '<') {
        1
    } else {
        0
    }
}

/// Length of the base prefix `0x` or `0X` that starts at position `at`.
pub open spec fn prefix_len(s: Seq<char>, at: int) -> int {
    if at + 2 <= s.len() && s[at] == '0' && (s[at + 1] == 'x' || s[at + 1] == 'X') {
        2
    } else {
        0
    }
}

/// Length of the suffix `h` or `H` of `s`, looked for from position `from` on.
pub open spec fn suffix_len(s: Seq<char>, from: int) -> int {
    if from < s.len() && (s.last() == 'h' || s.last() == 'H') {
        1
    } else {
        0
    }
}

/// The digits of the token `s`: what is left when the direction marker, then
/// the base prefix, then the suffix have been taken off.
pub open spec fn token_digits(s: Seq<char>) -> Seq<char> {
    let from = direction_len(s) + prefix_len(s, direction_len(s));
    s.subrange(from, s.len() - suffix_len(s, from))
}

/// The buffer that the hexadecimal token `s` stands for.
pub open spec fn token_buffer(s: Seq<char>) -> Seq<u8> {
    hex_buffer(token_digits(s), marks_big_endian(s))
}

/// Reads one hexadecimal digit.
pub fn hex_digit(c: char) -> (r: Option<u8>)
    ensures
        r is Some <==> is_hex_digit(c),
        r is Some ==> r->0 as int == hex_digit_value(c),
{
    if '0' <= c && c <= '9' {
        Some((c as u32 - '0' as u32) as u8)
    } else if 'a' <= c && c <= 'f' {
        Some((c as u32 - 'a' as u32 + 10) as u8)
    } else if 'A' <= c && c <= 'F' {
        Some((c as u32 - 'A' as u32 + 10) as u8)
    } else {
        None
    }
}

/// Reads a pair of characters as one byte in base 16.
pub fn read_pair(hi: char, lo: char) -> (r: Option<u8>)
    ensures
        r == pair_byte(hi, lo),
{
    match hex_digit(lo) {
        Some(l) => match hex_digit(hi) {
            Some(h) => Some(h * 16 + l),
            None => if hi == '+' {
                Some(l)
            } else {
                None
            },
        },
        None => None,
    }
}

/// Splits a hexadecimal token into its byte order and its digits.
pub fn parse_hex_string(input: &str) -> (r: (bool, String))
    ensures
        r.0 == marks_big_endian(input@),
        r.1@ == token_digits(input@),
{
    let n = input.unicode_len();
    let mut big_endian = true;
    let mut from: usize = 0;
    if n > 0 {
        let c = input.get_char(0);
        if c == '<' {
            big_endian = false;
        }
        if c == '<' || c == '>' {
            from = 1;
        }
    }
    if n - from >= 2 && input.get_char(from) == '0' {
        let x = input.get_char(from + 1);
        if x == 'x' || x == 'X' {
            from = from + 2;
        }
    }
    let mut to: usize = n;
    if from < n {
        let h = input.get_char(n - 1);
        if h == 'h' || h == 'H' {
            to = n - 1;
        }
    }
    (big_endian, input.substring_char(from, to).to_owned())
}

/// The bytes that the digit string writes, pair by pair from the left.
pub fn decode_pairs(digits: &Vec<char>) -> (r: Vec<u8>)
    ensures
        r@ == decoded(digits@),
{
    let n = digits.len();
    let mut out: Vec<u8> = Vec::new();
    let mut i: usize = 0;
    proof {
        assert(digits@.subrange(0, n as int) =~= digits@);
    }
    while n - i >= 2
        invariant
            i <= n,
            n == digits.len(),
            out@ + decoded(digits@.subrange(i as int, n as int)) == decoded(digits@),
        decreases n - i,
    {
        let ghost tail = digits@.subrange(i as int, n as int);
        proof {
            assert(tail.subrange(2, tail.len() as int) =~= digits@.subrange(i + 2, n as int));
        }
        let ghost before = out@;
        match read_pair(digits[i], digits[i + 1]) {
            Some(b) => {
                out.push(b);
                proof {
                    let rest = decoded(digits@.subrange(i + 2, n as int));
                    assert(out@ + rest =~= before + (seq![b] + rest));
                }
            },
            None => {},
        }
        i = i + 2;
    }
    proof {
        assert(out@ + Seq::<u8>::empty() =~= out@);
    }
    out
}

/// The buffer for a digit string: its bytes from offset 0, in reverse order
/// for big endian, zero where the digits give nothing.
pub fn hex_to_byte_array(hex_str: &str, is_big_endian: bool) -> (r: [u8; 8])
    ensures
        r@ == hex_buffer(hex_str@, is_big_endian),
{
    let digits = chars_of(hex_str);
    let bytes = decode_pairs(&digits);
    let n = bytes.len();
    let mut fixed: [u8; 8] = [0u8; 8];
    let ghost src = if is_big_endian {
        bytes@.reverse()
    } else {
        bytes@
    };
    let mut i: usize = 0;
    while i < 8 && i < n
        invariant
            i <= 8,
            i <= n,
            n == bytes.len(),
            src == (if is_big_endian {
                bytes@.reverse()
            } else {
                bytes@
            }),
            forall|j: int| 0 <= j < i ==> fixed@[j] == src[j],
            forall|j: int| i <= j < 8 ==> fixed@[j] == 0u8,
        decreases 8 - i,
    {
        let b = if is_big_endian {
            bytes[n - 1 - i]
        } else {
            bytes[i]
        };
        fixed[i] = b;
        i = i + 1;
    }
    proof {
        assert(fixed@ =~= placed(src));
    }
    fixed
}

/// The buffer that a hexadecimal token stands for.
pub fn parse_hex(arg: &str) -> (r: [u8; 8])
    ensures
        r@ == token_buffer(arg@),
{
    let (big_endian, digits) = parse_hex_string(arg);
    hex_to_byte_array(digits.as_str(), big_endian)
}

} // verus!
