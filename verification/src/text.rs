//! Character classes, ASCII helpers and decimal rendering shared by the
//! rest of the crate.
use vstd::prelude::*;
use vstd::string::StringExecFns;

verus! {

/// `a`..=`z` as a byte.
pub open spec fn is_lower_byte(b: u8) -> bool {
    97 <= b <= 122
}

/// `A`..=`Z` as a byte.
pub open spec fn is_upper_byte(b: u8) -> bool {
    65 <= b <= 90
}

/// `0`..=`9` as a byte.
pub open spec fn is_digit_byte(b: u8) -> bool {
    48 <= b <= 57
}

/// ASCII letters and digits as bytes.
pub open spec fn is_alphanumeric_byte(b: u8) -> bool {
    is_lower_byte(b) || is_upper_byte(b) || is_digit_byte(b)
}

/// `a`..=`z` as a character.
pub open spec fn is_lower_char(c: char) -> bool {
    'a' <= c <= 'z'
}

/// `A`..=`Z` as a character.
pub open spec fn is_upper_char(c: char) -> bool {
    'A' <= c <= 'Z'
}

/// ASCII capitals mapped to lower case, every other character kept.
pub open spec fn lower_char(c: char) -> char {
    if is_upper_char(c) {
        ((c as u32) + 32) as char
    } else {
        c
    }
}

/// ASCII letters and digits as characters.
pub open spec fn is_alphanumeric_char(c: char) -> bool {
    ||| 'a' <= c <= 'z'
    ||| 'A' <= c <= 'Z'
    ||| '0' <= c <= '9'
}

/// The character whose code is the byte `b`.
pub open spec fn byte_char(b: u8) -> char {
    b as char
}

/// The characters whose codes are the given bytes, in order.
pub open spec fn byte_chars(s: Seq<u8>) -> Seq<char> {
    s.map_values(|b: u8| byte_char(b))
}

/// ASCII upper-case letters mapped to lower case, every other byte kept.
pub open spec fn ascii_lower(b: u8) -> u8 {
    if is_upper_byte(b) {
        (b + 32) as u8
    } else {
        b
    }
}

/// The decimal digit character for `d < 10`.
pub open spec fn digit_char(d: nat) -> char {
    (48 + d) as char
}

/// The decimal representation of `n`, most significant digit first,
/// with no leading zeros (`0` is written as a single `0`).
pub open spec fn decimal(n: nat) -> Seq<char>
    decreases n,
{
    if n < 10 {
        seq![digit_char(n)]
    } else {
        decimal(n / 10).push(digit_char(n % 10))
    }
}

pub fn is_lower_byte_exec(b: u8) -> (r: bool)
    ensures
        r == is_lower_byte(b),
{
    97 <= b && b <= 122
}

pub fn is_alphanumeric_byte_exec(b: u8) -> (r: bool)
    ensures
        r == is_alphanumeric_byte(b),
{
    (97 <= b && b <= 122) || (65 <= b && b <= 90) || (48 <= b && b <= 57)
}

pub fn ascii_lower_exec(b: u8) -> (r: u8)
    ensures
        r == ascii_lower(b),
{
    if 65 <= b && b <= 90 {
        b + 32
    } else {
        b
    }
}

/// Appends one character to a string.
/// Trusted: `String::push` of std; the contract says the string grows by
/// exactly that character at its end, as std's documentation states.
#[verifier::external_body]
pub(crate) fn push_char(s: &mut String, c: char)
    ensures
        final(s)@ == old(s)@.push(c),
{
    s.push(c);
}

/// A new string with the characters of `t`.
pub fn owned(t: &str) -> (s: String)
    ensures
        s@ == t@,
{
    let mut s = String::new();
    s.append(t);
    s
}

/// Appends the decimal representation of `n` to `s`.
pub fn push_decimal(s: &mut String, n: u64)
    ensures
        final(s)@ == old(s)@ + decimal(n as nat),
    decreases n,
{
    if n >= 10 {
        push_decimal(s, n / 10);
    }
    let d = n % 10;
    let c = ((48 + d) as u8) as char;
    push_char(s, c);
    assert(decimal(n as nat) =~= if n < 10 {
        seq![digit_char(n as nat)]
    } else {
        decimal((n / 10) as nat).push(digit_char((n % 10) as nat))
    });
}

/// The string made of the characters whose codes are `bytes`, each byte
/// below 128.
pub fn ascii_string(bytes: &Vec<u8>) -> (s: String)
    requires
        forall|i: int| 0 <= i < bytes.len() ==> bytes[i] < 128,
    ensures
        s@ == byte_chars(bytes@),
{
    let mut s = String::new();
    let mut i: usize = 0;
    while i < bytes.len()
        invariant
            i <= bytes.len(),
            forall|k: int| 0 <= k < bytes.len() ==> bytes[k] < 128,
            s@ == byte_chars(bytes@.take(i as int)),
        decreases bytes.len() - i,
    {
        let b = bytes[i];
        push_char(&mut s, b as char);
        assert(bytes@.take(i + 1) =~= bytes@.take(i as int).push(b));
        assert(byte_chars(bytes@.take(i + 1)) =~= byte_chars(bytes@.take(i as int)).push(
            byte_char(b),
        ));
        i = i + 1;
    }
    assert(bytes@.take(bytes.len() as int) =~= bytes@);
    s
}

} // verus!
