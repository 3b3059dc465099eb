//! Verified text building blocks: decimal and hexadecimal rendering of
//! integers, and conversion of ASCII byte strings into `String`s.
use vstd::prelude::*;
use vstd::string::StringExecFns;

verus! {

/// The decimal digit character for a value below ten.
pub open spec fn dec_digit(d: int) -> char {
    if d == 0 {
        '0'
    } else if d == 1 {
        '1'
    } else if d == 2 {
        '2'
    } else if d == 3 {
        '3'
    } else if d == 4 {
        '4'
    } else if d == 5 {
        '5'
    } else if d == 6 {
        '6'
    } else if d == 7 {
        '7'
    } else if d == 8 {
        '8'
    } else {
        '9'
    }
}

/// The hexadecimal digit character for a value below sixteen, lower case.
pub open spec fn hex_digit(d: int) -> char {
    if d < 10 {
        dec_digit(d)
    } else if d == 10 {
        'a'
    } else if d == 11 {
        'b'
    } else if d == 12 {
        'c'
    } else if d == 13 {
        'd'
    } else if d == 14 {
        'e'
    } else {
        'f'
    }
}

/// Decimal rendering of a non-negative integer, most significant digit first,
/// without leading zeros (a single zero for zero itself).
pub open spec fn spec_dec(n: int) -> Seq<char>
    recommends
        n >= 0,
    decreases n,
{
    if n < 10 {
        seq![dec_digit(n)]
    } else {
        spec_dec(n / 10).push(dec_digit(n % 10))
    }
}

/// Hexadecimal rendering of a non-negative integer, lower case, most
/// significant digit first, without leading zeros.
pub open spec fn spec_hex(n: int) -> Seq<char>
    recommends
        n >= 0,
    decreases n,
{
    if n < 16 {
        seq![hex_digit(n)]
    } else {
        spec_hex(n / 16).push(hex_digit(n % 16))
    }
}

fn dec_digit_str(d: u64) -> (r: String)
    requires
        d < 10,
    ensures
        r@ =~= seq![dec_digit(d as int)],
{
    proof {
        reveal_strlit("0");
        reveal_strlit("1");
        reveal_strlit("2");
        reveal_strlit("3");
        reveal_strlit("4");
        reveal_strlit("5");
        reveal_strlit("6");
        reveal_strlit("7");
        reveal_strlit("8");
        reveal_strlit("9");
    }
    match d {
        0 => String::from_str("0"),
        1 => String::from_str("1"),
        2 => String::from_str("2"),
        3 => String::from_str("3"),
        4 => String::from_str("4"),
        5 => String::from_str("5"),
        6 => String::from_str("6"),
        7 => String::from_str("7"),
        8 => String::from_str("8"),
        _ => String::from_str("9"),
    }
}

fn hex_digit_str(d: u64) -> (r: String)
    requires
        d < 16,
    ensures
        r@ =~= seq![hex_digit(d as int)],
{
    proof {
        reveal_strlit("a");
        reveal_strlit("b");
        reveal_strlit("c");
        reveal_strlit("d");
        reveal_strlit("e");
        reveal_strlit("f");
    }
    if d < 10 {
        dec_digit_str(d)
    } else {
        match d {
            10 => String::from_str("a"),
            11 => String::from_str("b"),
            12 => String::from_str("c"),
            13 => String::from_str("d"),
            14 => String::from_str("e"),
            _ => String::from_str("f"),
        }
    }
}

/// Decimal text of an unsigned integer.
pub fn u64_to_dec(n: u64) -> (r: String)
    ensures
        r@ =~= spec_dec(n as int),
    decreases n,
{
    if n < 10 {
        dec_digit_str(n)
    } else {
        let mut s = u64_to_dec(n / 10);
        let d = dec_digit_str(n % 10);
        s.append(d.as_str());
        s
    }
}

/// Hexadecimal text of an unsigned integer, lower case.
pub fn u64_to_hex(n: u64) -> (r: String)
    ensures
        r@ =~= spec_hex(n as int),
    decreases n,
{
    if n < 16 {
        hex_digit_str(n)
    } else {
        let mut s = u64_to_hex(n / 16);
        let d = hex_digit_str(n % 16);
        s.append(d.as_str());
        s
    }
}

/// The characters of a byte sequence made only of ASCII bytes.
pub open spec fn ascii_chars(b: Seq<u8>) -> Seq<char> {
    b.map(|_i: int, x: u8| x as char)
}

/// Relies on `String::from_utf8`: ASCII bytes decode to exactly one character
/// per byte, each the character with that code.
#[verifier::external_body]
fn string_from_ascii_bytes(b: &[u8]) -> (r: String)
    requires
        forall|i: int| 0 <= i < b@.len() ==> b@[i] < 0x80,
    ensures
        r@ =~= ascii_chars(b@),
{
    String::from_utf8(b.to_vec()).expect("ascii bytes are valid utf-8")
}

/// Relies on `String::from_utf8`: it succeeds exactly on valid UTF-8 and
/// then holds the decoded characters.
#[verifier::external_body]
pub fn utf8_to_string(b: &[u8]) -> (r: Option<String>)
    ensures
        (r is Some) == vstd::utf8::valid_utf8(b@),
        r matches Some(s) ==> s@ =~= vstd::utf8::decode_utf8(b@),
{
    match String::from_utf8(b.to_vec()) {
        Ok(s) => Some(s),
        Err(_) => None,
    }
}

/// Builds a `String` from a byte slice when every byte is ASCII.
pub fn ascii_to_string(b: &[u8]) -> (r: Option<String>)
    ensures
        (forall|i: int| 0 <= i < b@.len() ==> b@[i] < 0x80) <==> r is Some,
        r matches Some(s) ==> s@ =~= ascii_chars(b@),
{
    let n = b.len();
    let mut i: usize = 0;
    while i < n
        invariant
            n == b@.len(),
            i <= n,
            forall|j: int| 0 <= j < i ==> b@[j] < 0x80,
        decreases n - i,
    {
        if *vstd::slice::slice_index_get(b, i) >= 0x80 {
            return None;
        }
        i += 1;
    }
    Some(string_from_ascii_bytes(b))
}

} // verus!
