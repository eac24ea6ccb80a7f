//! Base-10 integer text: what a digit string is worth, reading it, and the
//! text that stands for a given integer.

use vstd::prelude::*;
use vstd::string::StrSliceExecFns;
use vstd::string::StringExecFns;

verus! {

/// `c` is one of the ten decimal digits.
pub open spec fn is_digit(c: char) -> bool {
    '0' <= c <= '9'
}

/// What a decimal digit is worth.
pub open spec fn digit_value(c: char) -> int {
    c as int - '0' as int
}

/// Every character of `s` is a decimal digit.
pub open spec fn all_digits(s: Seq<char>) -> bool {
    forall|i: int| 0 <= i < s.len() ==> is_digit(#[trigger] s[i])
}

/// The number that the digit string `s` writes in base 10.
pub open spec fn digits_value(s: Seq<char>) -> int
    decreases s.len(),
{
    if s.len() == 0 {
        0
    } else {
        digits_value(s.drop_last()) * 10 + digit_value(s.last())
    }
}

/// `s` is one or more decimal digits and nothing else.
pub open spec fn is_number(s: Seq<char>) -> bool {
    s.len() > 0 && all_digits(s)
}

/// The unsigned 64-bit number written by the bare digit string `s`, if it
/// is one and fits.
pub open spec fn magnitude(s: Seq<char>) -> Option<u64> {
    if is_number(s) && digits_value(s) <= u64::MAX {
        Some(digits_value(s) as u64)
    } else {
        None
    }
}

/// `s` without its first character.
pub open spec fn after_first(s: Seq<char>) -> Seq<char> {
    s.subrange(1, s.len() as int)
}

/// The signed 64-bit integer that `s` writes: an optional `-`, then one or
/// more digits, the whole within range.
pub open spec fn signed_decimal(s: Seq<char>) -> Option<i64> {
    if s.len() > 0 && s[0] == '-' {
        let m = after_first(s);
        if is_number(m) && digits_value(m) <= 0x8000_0000_0000_0000 {
            Some((-digits_value(m)) as i64)
        } else {
            None
        }
    } else if is_number(s) && digits_value(s) <= i64::MAX {
        Some(digits_value(s) as i64)
    } else {
        None
    }
}

/// The unsigned 64-bit integer that `s` writes: an optional `+`, then one
/// or more digits, the whole within range.
pub open spec fn unsigned_decimal(s: Seq<char>) -> Option<u64> {
    if s.len() > 0 && s[0] == '+' {
        magnitude(after_first(s))
    } else {
        magnitude(s)
    }
}

/// The character that writes the digit `d`.
pub open spec fn digit_char(d: int) -> char {
    (d + '0' as int) as char
}

/// The shortest digit string that writes `n`.
pub open spec fn nat_text(n: nat) -> Seq<char>
    decreases n,
{
    if n < 10 {
        seq![digit_char(n as int)]
    } else {
        nat_text(n / 10).push(digit_char((n % 10) as int))
    }
}

/// The usual decimal text of `i`: a `-` for a negative number, then the
/// digits of its magnitude.
pub open spec fn int_text(i: int) -> Seq<char> {
    if i < 0 {
        seq!['-'] + nat_text((-i) as nat)
    } else {
        nat_text(i as nat)
    }
}

/// A digit string is worth at least zero.
pub proof fn lemma_digits_value_nonnegative(s: Seq<char>)
    requires
        all_digits(s),
    ensures
        digits_value(s) >= 0,
    decreases s.len(),
{
    if s.len() > 0 {
        lemma_digits_value_nonnegative(s.drop_last());
    }
}

/// A digit string is worth at least as much as any of its prefixes.
pub proof fn lemma_prefix_value(s: Seq<char>, k: int)
    requires
        all_digits(s),
        0 <= k <= s.len(),
    ensures
        digits_value(s.take(k)) <= digits_value(s),
    decreases s.len(),
{
    if k == s.len() {
        assert(s.take(k) =~= s);
    } else {
        let t = s.drop_last();
        lemma_prefix_value(t, k);
        assert(t.take(k) =~= s.take(k));
        lemma_digits_value_nonnegative(t);
        assert(is_digit(s.last()));
    }
}

/// The text of a natural number is a digit string that is worth the number.
pub proof fn lemma_nat_text(n: nat)
    ensures
        is_number(nat_text(n)),
        digits_value(nat_text(n)) == n,
    decreases n,
{
    let t = nat_text(n);
    if n < 10 {
        assert(t.drop_last() =~= Seq::<char>::empty());
        assert(t.last() == digit_char(n as int));
        assert(digits_value(t.drop_last()) == 0);
    } else {
        lemma_nat_text(n / 10);
        let d = digit_char((n % 10) as int);
        assert(t.drop_last() =~= nat_text(n / 10));
        assert(t.last() == d);
        assert(is_digit(d));
        assert forall|i: int| 0 <= i < t.len() implies is_digit(#[trigger] t[i]) by {
            if i < t.len() - 1 {
                assert(t[i] == nat_text(n / 10)[i]);
            }
        }
    }
}

/// Reading the decimal text of a signed 64-bit integer gives that integer.
pub proof fn lemma_signed_text_reads_back(i: i64)
    ensures
        signed_decimal(int_text(i as int)) == Some(i),
{
    if i < 0 {
        let m = nat_text((-i) as nat);
        lemma_nat_text((-i) as nat);
        let s = int_text(i as int);
        assert(s[0] == '-');
        assert(after_first(s) =~= m);
    } else {
        lemma_nat_text(i as nat);
        let s = int_text(i as int);
        assert(is_digit(s[0]));
    }
}

/// The decimal text of an unsigned 64-bit integer above the signed range is
/// no signed 64-bit integer, and read as an unsigned one it gives the integer.
pub proof fn lemma_unsigned_text_reads_back(u: u64)
    requires
        u > i64::MAX,
    ensures
        signed_decimal(int_text(u as int)) is None,
        unsigned_decimal(int_text(u as int)) == Some(u),
{
    lemma_nat_text(u as nat);
    let s = int_text(u as int);
    assert(is_digit(s[0]));
}

/// Reads the bare digit string that `chars` holds from `start` on.
pub fn read_magnitude(chars: &Vec<char>, start: usize) -> (r: Option<u64>)
    requires
        start <= chars.len(),
    ensures
        r == magnitude(chars@.subrange(start as int, chars.len() as int)),
{
    let n = chars.len();
    let ghost m = chars@.subrange(start as int, n as int);
    if start == n {
        return None;
    }
    let mut acc: u64 = 0;
    let mut i: usize = start;
    proof {
        assert(m.take(0) =~= Seq::<char>::empty());
    }
    while i < n
        invariant
            start <= i <= n,
            n == chars.len(),
            m == chars@.subrange(start as int, n as int),
            all_digits(m.take(i - start)),
            acc == digits_value(m.take(i - start)),
        decreases n - i,
    {
        let c = chars[i];
        let ghost k = i - start;
        proof {
            assert(m[k] == c);
            assert(m.take(k + 1).drop_last() =~= m.take(k));
            assert(m.take(k + 1).last() == c);
        }
        if !('0' <= c && c <= '9') {
            return None;
        }
        let d: u64 = (c as u32 - '0' as u32) as u64;
        if acc > (u64::MAX - d) / 10 {
            proof {
                assert forall|j: int| 0 <= j < k + 1 implies is_digit(#[trigger] m.take(k + 1)[j]) by {
                    if j < k {
                        assert(m.take(k + 1)[j] == m.take(k)[j]);
                    }
                }
                if all_digits(m) {
                    lemma_prefix_value(m, k + 1);
                }
            }
            return None;
        }
        acc = acc * 10 + d;
        i = i + 1;
        proof {
            assert forall|j: int| 0 <= j < k + 1 implies is_digit(#[trigger] m.take(k + 1)[j]) by {
                if j < k {
                    assert(m.take(k + 1)[j] == m.take(k)[j]);
                }
            }
        }
    }
    proof {
        assert(m.take(n - start) =~= m);
    }
    Some(acc)
}

/// Reads `chars` as a signed 64-bit decimal integer.
pub fn read_signed(chars: &Vec<char>) -> (r: Option<i64>)
    ensures
        r == signed_decimal(chars@),
{
    if chars.len() > 0 && chars[0] == '-' {
        match read_magnitude(chars, 1) {
            Some(v) => {
                proof {
                    lemma_digits_value_nonnegative(after_first(chars@));
                }
                if v < 0x8000_0000_0000_0000 {
                    Some(-(v as i64))
                } else if v == 0x8000_0000_0000_0000 {
                    Some(i64::MIN)
                } else {
                    None
                }
            },
            None => {
                proof {
                    let m = after_first(chars@);
                    if is_number(m) {
                        assert(digits_value(m) > u64::MAX);
                    }
                }
                None
            },
        }
    } else {
        match read_magnitude(chars, 0) {
            Some(v) => {
                proof {
                    assert(chars@.subrange(0, chars.len() as int) =~= chars@);
                    lemma_digits_value_nonnegative(chars@);
                }
                if v <= 0x7fff_ffff_ffff_ffff {
                    Some(v as i64)
                } else {
                    None
                }
            },
            None => {
                proof {
                    assert(chars@.subrange(0, chars.len() as int) =~= chars@);
                }
                None
            },
        }
    }
}

/// Reads `chars` as an unsigned 64-bit decimal integer.
pub fn read_unsigned(chars: &Vec<char>) -> (r: Option<u64>)
    ensures
        r == unsigned_decimal(chars@),
{
    if chars.len() > 0 && chars[0] == '+' {
        read_magnitude(chars, 1)
    } else {
        proof {
            assert(chars@.subrange(0, chars.len() as int) =~= chars@);
        }
        read_magnitude(chars, 0)
    }
}

/// The digit string of `n`, without leading zeros.
pub fn write_unsigned(n: u64) -> (r: String)
    ensures
        r@ == nat_text(n as nat),
    decreases n,
{
    let digits = "0123456789";
    proof {
        reveal_strlit("0123456789");
    }
    if n < 10 {
        let d: usize = n as usize;
        let one = digits.substring_char(d, d + 1);
        proof {
            assert(one@ =~= seq![digit_char(n as int)]);
        }
        one.to_owned()
    } else {
        let d: usize = (n % 10) as usize;
        let mut text = write_unsigned(n / 10);
        let ghost before = text@;
        text.append(digits.substring_char(d, d + 1));
        proof {
            assert(text@ =~= before.push(digit_char(d as int)));
        }
        text
    }
}

/// The decimal text of `i`: a `-` before the digits of a negative number.
pub fn write_signed(i: i64) -> (r: String)
    ensures
        r@ == int_text(i as int),
{
    if i >= 0 {
        write_unsigned(i as u64)
    } else {
        let m: u64 = if i == i64::MIN {
            0x8000_0000_0000_0000
        } else {
            (-i) as u64
        };
        let mut text = "-".to_owned();
        proof {
            reveal_strlit("-");
            assert("-"@ =~= seq!['-']);
        }
        text.append(write_unsigned(m).as_str());
        text
    }
}

} // verus!
