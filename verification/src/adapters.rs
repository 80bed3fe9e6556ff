//! The outside calls the coordinator core relies on: the content
//! digest of artifacts, hex encoding and decoding, the fixed input
//! patterns of the client prompts, and two pieces of std that carry no
//! specification of their own. Each is a thin wrapper whose contract
//! states exactly what the outside code does.

use vstd::prelude::*;

use blake2::Digest;

verus! {

/// The digest an artifact's bytes hash to. The digest function is a
/// fixed function of the bytes alone; its value is not spelled out
/// here, only named.
pub uninterp spec fn content_hash_of(data: Seq<u8>) -> Seq<u8>;

/// Relies on blake2's `Blake2b512`: the 64-byte digest of the input
/// bytes, a function of the bytes alone.
#[verifier::external_body]
pub(crate) fn compute_hash(data: &[u8]) -> (r: Vec<u8>)
    ensures
        r@ == content_hash_of(data@),
        r@.len() == 64,
{
    let mut hasher = blake2::Blake2b512::new();
    hasher.update(data);
    hasher.finalize().to_vec()
}

/// True for the sixteen hexadecimal digit characters, either case.
pub open spec fn is_hex_digit(c: char) -> bool {
    ||| 0x30 <= (c as u32) <= 0x39
    ||| 0x61 <= (c as u32) <= 0x66
    ||| 0x41 <= (c as u32) <= 0x46
}

/// The value of one hexadecimal digit character.
pub open spec fn hex_digit_value(c: char) -> u8
    recommends
        is_hex_digit(c),
{
    if 0x30 <= (c as u32) <= 0x39 {
        ((c as u32) - 0x30) as u8
    } else if 0x61 <= (c as u32) <= 0x66 {
        ((c as u32) - 0x61 + 10) as u8
    } else {
        ((c as u32) - 0x41 + 10) as u8
    }
}

/// The lower-case hexadecimal digit character of a value below 16.
pub open spec fn hex_char_lower(v: u8) -> char
    recommends
        v < 16,
{
    if v < 10 {
        ((v + 0x30) as char)
    } else {
        ((v + 0x57) as char)
    }
}

/// The lower-case hex encoding of a byte sequence: two digits per
/// byte, high nibble first.
pub open spec fn spec_hex_encode(data: Seq<u8>) -> Seq<char> {
    Seq::new(
        data.len() * 2,
        |i: int|
            if i % 2 == 0 {
                hex_char_lower(data[i / 2] >> 4)
            } else {
                hex_char_lower(data[i / 2] & 0xf)
            },
    )
}

/// True when the characters decode as hex: even length, every
/// character a hex digit of either case.
pub open spec fn valid_hex_string(s: Seq<char>) -> bool {
    &&& s.len() % 2 == 0
    &&& forall|i: int| 0 <= i < s.len() ==> is_hex_digit(#[trigger] s[i])
}

/// The bytes a valid hex string decodes to.
pub open spec fn spec_hex_decode(s: Seq<char>) -> Seq<u8>
    recommends
        valid_hex_string(s),
{
    Seq::new(
        s.len() / 2,
        |i: int| ((hex_digit_value(s[2 * i]) * 16 + hex_digit_value(s[2 * i + 1])) as u8),
    )
}

/// Relies on hex::encode: the lower-case hex string of the bytes, two
/// digits per byte, high nibble first.
#[verifier::external_body]
pub(crate) fn hex_encode(data: &[u8]) -> (r: String)
    ensures
        r@ == spec_hex_encode(data@),
{
    hex::encode(data)
}

/// Relies on hex::decode: succeeds exactly on an even number of hex
/// digits of either case, and pairs them into bytes, high nibble
/// first.
#[verifier::external_body]
pub(crate) fn hex_decode(s: &str) -> (r: Option<Vec<u8>>)
    ensures
        match r {
            Some(v) => valid_hex_string(s@) && v@ == spec_hex_decode(s@),
            None => !valid_hex_string(s@),
        },
{
    match hex::decode(s) {
        Ok(v) => Some(v),
        Err(_) => None,
    }
}

/// True for the four one-character answers the yes/no prompt accepts.
pub open spec fn is_yes_no_answer(s: Seq<char>) -> bool {
    ||| s == seq!['y']
    ||| s == seq!['Y']
    ||| s == seq!['n']
    ||| s == seq!['N']
}

/// Relies on regex: whether the whole input matches `^(?i)[yn]$`,
/// that is, whether it is exactly one of `y`, `Y`, `n`, `N`.
#[verifier::external_body]
pub(crate) fn matches_yes_no(s: &str) -> (r: bool)
    ensures
        r == is_yes_no_answer(s@),
{
    match regex::Regex::new("^(?i)[yn]$") {
        Ok(re) => re.is_match(s),
        Err(_) => false,
    }
}

/// True when the input holds, somewhere, a non-newline character, an
/// `@`, then at least one non-newline character, a `.`, and a final
/// non-newline character: the shape the email prompt accepts.
pub open spec fn email_shaped(s: Seq<char>) -> bool {
    exists|i: int, j: int|
        {
            &&& 1 <= i
            &&& i + 2 <= j
            &&& j + 1 < s.len()
            &&& #[trigger] s[i] == '@'
            &&& #[trigger] s[j] == '.'
            &&& s[i - 1] != '\n'
            &&& s[j + 1] != '\n'
            &&& forall|k: int| i < k < j ==> s[k] != '\n'
        }
}

/// Relies on regex: whether the input contains a match of
/// `.+[@].+[.].+`, where `.` matches any character but a newline.
#[verifier::external_body]
pub(crate) fn matches_email(s: &str) -> (r: bool)
    ensures
        r == email_shaped(s@),
{
    match regex::Regex::new(".+[@].+[.].+") {
        Ok(re) => re.is_match(s),
        Err(_) => false,
    }
}

/// Relies on String::push_str: appends the characters of the slice.
#[verifier::external_body]
pub(crate) fn push_str(s: &mut String, t: &str)
    ensures
        final(s)@ == old(s)@ + t@,
{
    s.push_str(t)
}

/// Relies on char::from_u32: `Some` exactly on Unicode scalar values,
/// returning the character with that value.
#[verifier::external_body]
pub(crate) fn char_from_u32(v: u32) -> (r: Option<char>)
    ensures
        vstd::utf8::is_scalar(v) ==> r == Some(v as char),
        !vstd::utf8::is_scalar(v) ==> r is None,
{
    char::from_u32(v)
}

} // verus!
