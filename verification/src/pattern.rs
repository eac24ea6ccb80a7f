//! The pattern that admits a token as hexadecimal, and the regular
//! expression engine that judges it.

use vstd::prelude::*;

verus! {

/// What the regular expression engine answers for a pattern and a text:
/// `None` where it does not accept the pattern, else whether the pattern
/// matches somewhere in the text.
pub uninterp spec fn pattern_match(pattern: Seq<char>, text: Seq<char>) -> Option<bool>;

/// The pattern of a hexadecimal token: an optional leading marker (`0x`,
/// `<0x`, `>0x`, in either case of the `x`, or a bare `<` or `>`), any number
/// of hexadecimal digits, and an optional trailing `h` or `H`.
pub open spec fn hex_pattern() -> Seq<char> {
    "^(0x|<0x|>0x|0X|<0X|>0X|>|<)?[0-9a-fA-F]*[hH]?$"@
}

/// Whether the engine admits `text` as a hexadecimal token.
pub open spec fn admits_hex(text: Seq<char>) -> bool {
    pattern_match(hex_pattern(), text) == Some(true)
}

/// Compiles `pattern` with `regex::Regex::new` and asks `Regex::is_match`
/// about `text`. Trusted: the answer is the one named by [`pattern_match`],
/// which says only that it depends on the two strings and on nothing else;
/// `None` stands for a pattern that the engine refuses to compile.
#[verifier::external_body]
fn is_match(pattern: &str, text: &str) -> (r: Option<bool>)
    ensures
        r == pattern_match(pattern@, text@),
{
    match regex::Regex::new(pattern) {
        Ok(re) => Some(re.is_match(text)),
        Err(_) => None,
    }
}

/// Asks the engine whether `arg` has the shape of a hexadecimal token.
pub fn hex_gate(arg: &str) -> (r: bool)
    ensures
        r == admits_hex(arg@),
{
    match is_match("^(0x|<0x|>0x|0X|<0X|>0X|>|<)?[0-9a-fA-F]*[hH]?$", arg) {
        Some(found) => found,
        None => false,
    }
}

} // verus!
