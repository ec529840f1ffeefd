//! Digests, and bytes in hexadecimal.

use vstd::prelude::*;
use vstd::string::*;

verus! {

/// The SHA-256 digest of `data`.
pub uninterp spec fn sha256(data: Seq<u8>) -> Seq<u8>;

/// Calls `sha2::Sha256::digest`.
///
/// Taken on trust: the 32 bytes that come back depend on `data` alone, and `sha256` names them.
#[verifier::external_body]
pub(crate) fn sha256_digest(data: &[u8]) -> (digest: [u8; 32])
    ensures
        digest@ == sha256(data@),
{
    <sha2::Sha256 as sha2::Digest>::digest(data).into()
}

/// The hexadecimal digit, in lower case, that stands for `digit`.
pub open spec fn hex_char(digit: nat) -> char {
    if digit < 10 {
        ('0' as nat + digit) as char
    } else {
        ('a' as nat + digit - 10) as char
    }
}

/// The bytes in hexadecimal, two digits for each, the high one first.
pub open spec fn hex(bytes: Seq<u8>) -> Seq<char> {
    Seq::new(
        2 * bytes.len(),
        |i: int|
            hex_char(
                if i % 2 == 0 {
                    bytes[i / 2] as nat / 16
                } else {
                    bytes[i / 2] as nat % 16
                },
            ),
    )
}

fn hex_digit(digit: u8) -> (text: &'static str)
    requires
        digit < 16,
    ensures
        text@ == seq![hex_char(digit as nat)],
{
    proof {
        reveal_strlit("0");
        reveal_strlit("1");
        reveal_strlit("2");
        reveal_strlit("3");
        reveal_strlit("4");
        reveal_strlit("5");
        reveal_strlit("6");
        reveal_strlit("7");
        reveal_strlit("8");
        reveal_strlit("9");
        reveal_strlit("a");
        reveal_strlit("b");
        reveal_strlit("c");
        reveal_strlit("d");
        reveal_strlit("e");
        reveal_strlit("f");
    }
    match digit {
        0 => "0",
        1 => "1",
        2 => "2",
        3 => "3",
        4 => "4",
        5 => "5",
        6 => "6",
        7 => "7",
        8 => "8",
        9 => "9",
        10 => "a",
        11 => "b",
        12 => "c",
        13 => "d",
        14 => "e",
        _ => "f",
    }
}

/// Writes the first `count` bytes in hexadecimal.
pub fn hex_text(bytes: &[u8], count: usize) -> (text: String)
    requires
        count <= bytes@.len(),
    ensures
        text@ == hex(bytes@.take(count as int)),
        text@ == hex(bytes@).take(2 * count),
{
    let mut text: String = String::new();
    let mut i: usize = 0;
    while i < count
        invariant
            i <= count <= bytes@.len(),
            text@ =~= hex(bytes@.take(i as int)),
        decreases count - i,
    {
        text.append(hex_digit(bytes[i] / 16));
        text.append(hex_digit(bytes[i] % 16));
        i = i + 1;
    }
    assert(text@ =~= hex(bytes@).take(2 * count));
    text
}

/// The number that a hexadecimal digit in lower case stands for; 16 for any other character.
pub open spec fn hex_value(c: char) -> int {
    if '0' <= c && c <= '9' {
        c as int - 48
    } else if 'a' <= c && c <= 'f' {
        c as int - 87
    } else {
        16
    }
}

/// Two digits in lower case stand for each byte, the high one first.
pub proof fn law_hex_digits(bytes: Seq<u8>, i: int)
    requires
        0 <= i < bytes.len(),
    ensures
        hex(bytes).len() == 2 * bytes.len(),
        0 <= hex_value(hex(bytes)[2 * i]) < 16,
        0 <= hex_value(hex(bytes)[2 * i + 1]) < 16,
        16 * hex_value(hex(bytes)[2 * i]) + hex_value(hex(bytes)[2 * i + 1]) == bytes[i],
{
    let high = bytes[i] as nat / 16;
    let low = bytes[i] as nat % 16;
    assert(hex(bytes)[2 * i] == hex_char(high));
    assert(hex(bytes)[2 * i + 1] == hex_char(low));
}

/// No two rows of bytes look alike in hexadecimal.
pub proof fn law_hex_tells_bytes_apart(a: Seq<u8>, b: Seq<u8>)
    requires
        hex(a) == hex(b),
    ensures
        a == b,
{
    assert(hex(a).len() == 2 * a.len() && hex(b).len() == 2 * b.len());
    assert forall|i: int| 0 <= i < a.len() implies a[i] == b[i] by {
        law_hex_digits(a, i);
        law_hex_digits(b, i);
    }
    assert(a =~= b);
}

} // verus!
