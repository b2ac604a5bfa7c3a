//! What the answer to a key stands for, told by decoding it.

use vstd::prelude::*;
use vstd::utf8::{encode_utf8, is_ascii_chars_encode_utf8};

use crate::accept::{accept_value, base64_group, base64_symbol, base64_text, sha1_digest};
use crate::accept::{challenge, digest_value, lemma_base64_ascii, sign};
use crate::header::FieldValue;

verus! {

/// The six bits that a character of the base64 alphabet stands for.
pub open spec fn base64_value(b: u8) -> int {
    if 65 <= b <= 90 {
        b - 65
    } else if 97 <= b <= 122 {
        b - 71
    } else if 48 <= b <= 57 {
        b + 4
    } else if b == 43 {
        62
    } else {
        63
    }
}

/// The character that stands for six bits is read as these six bits.
proof fn lemma_symbol_value(bits: int)
    requires
        0 <= bits < 64,
    ensures
        base64_value(base64_symbol(bits) as u8) == bits,
        base64_symbol(bits) != '=',
        base64_symbol(bits) as u32 <= 127,
{
}

/// Three bytes are known by the parts of six bits of the number that they make.
proof fn lemma_bytes_of_parts(first: u8, second: u8, third: u8)
    ensures
        ({
            let x = first * 0x10000 + second * 0x100 + third;
            &&& first == x / 0x40000 * 4 + x / 0x1000 % 64 / 16
            &&& second == x / 0x1000 % 64 % 16 * 16 + x / 0x40 % 64 / 4
            &&& third == x / 0x40 % 64 % 4 * 64 + x % 64
        }),
{
    let x = first * 0x10000 + second * 0x100 + third;
    assert(x / 0x40000 == first / 4);
    assert(x / 0x1000 == first * 16 + second / 16);
    assert(x / 0x40 == first * 1024 + second * 4 + third / 64);
    assert(x / 0x1000 % 64 == first % 4 * 16 + second / 16);
    assert(x / 0x40 % 64 == second % 16 * 4 + third / 64);
    assert(x % 64 == third % 64);
}

/// The characters of base64 text, read four at a time, give the bytes that it stands for: `text`
/// is the base64 text of `data` in bytes, and `g` counts groups of three bytes.
pub proof fn law_base64_decodes(data: Seq<u8>, text: Seq<u8>, g: int)
    requires
        text == encode_utf8(base64_text(data)),
        0 <= g,
        3 * g < data.len(),
    ensures
        text.len() == (data.len() + 2) / 3 * 4,
        data[3 * g] == base64_value(text[4 * g]) * 4 + base64_value(text[4 * g + 1]) / 16,
        3 * g + 1 < data.len() ==> data[3 * g + 1] == base64_value(text[4 * g + 1]) % 16 * 16
            + base64_value(text[4 * g + 2]) / 4,
        3 * g + 2 < data.len() ==> data[3 * g + 2] == base64_value(text[4 * g + 2]) % 4 * 64
            + base64_value(text[4 * g + 3]),
        text[4 * g] != 61,
        text[4 * g + 1] != 61,
        3 * g + 1 < data.len() <==> text[4 * g + 2] != 61,
        3 * g + 2 < data.len() <==> text[4 * g + 3] != 61,
{
    let chars = base64_text(data);
    let x = base64_group(data, 3 * g);
    lemma_base64_ascii(data);
    is_ascii_chars_encode_utf8(chars);
    super::lemma_base64_characters(data, g);
    assert(chars.len() == (data.len() + 2) / 3 * 4);
    assert(4 * g + 3 < chars.len());
    assert(text[4 * g] == chars[4 * g] as u8);
    assert(text[4 * g + 1] == chars[4 * g + 1] as u8);
    assert(text[4 * g + 2] == chars[4 * g + 2] as u8);
    assert(text[4 * g + 3] == chars[4 * g + 3] as u8);
    lemma_symbol_value(x / 0x40000);
    lemma_symbol_value(x / 0x1000 % 64);
    lemma_symbol_value(x / 0x40 % 64);
    lemma_symbol_value(x % 64);
    let second: u8 = if 3 * g + 1 < data.len() {
        data[3 * g + 1]
    } else {
        0
    };
    let third: u8 = if 3 * g + 2 < data.len() {
        data[3 * g + 2]
    } else {
        0
    };
    assert(x == data[3 * g] * 0x10000 + second * 0x100 + third);
    lemma_bytes_of_parts(data[3 * g], second, third);
}

/// What the digest is taken of is the key, as it is, with the fixed identifier behind it.
pub proof fn law_challenge(key: &[u8], r: Vec<u8>)
    requires
        call_ensures(challenge, (key,), r),
    ensures
        r@ == key@ + encode_utf8("258EAFA5-E914-47DA-95CA-C5AB0DC85B11"@),
        r@.take(key@.len() as int) == key@,
{
    assert(r@.take(key@.len() as int) =~= key@);
}

/// The value that `digest_value` makes of a digest decodes to the digest, byte by byte, and no
/// shorter or longer digest has it.
pub proof fn law_digest_value(digest: &[u8], r: FieldValue, g: int)
    requires
        call_ensures(digest_value, (digest,), r),
        0 <= g,
        3 * g < digest@.len(),
    ensures
        r@.len() == (digest@.len() + 2) / 3 * 4,
        digest@[3 * g] == base64_value(r@[4 * g]) * 4 + base64_value(r@[4 * g + 1]) / 16,
        3 * g + 1 < digest@.len() ==> digest@[3 * g + 1] == base64_value(r@[4 * g + 1]) % 16 * 16
            + base64_value(r@[4 * g + 2]) / 4,
        3 * g + 2 < digest@.len() ==> digest@[3 * g + 2] == base64_value(r@[4 * g + 2]) % 4 * 64
            + base64_value(r@[4 * g + 3]),
        3 * g + 1 < digest@.len() <==> r@[4 * g + 2] != 61,
        3 * g + 2 < digest@.len() <==> r@[4 * g + 3] != 61,
{
    law_base64_decodes(digest@, r@, g);
}

/// The answer to a key is the base64 text of the SHA-1 digest of the key followed by the fixed
/// identifier.
pub proof fn law_sign(key: &[u8], r: FieldValue)
    requires
        call_ensures(sign, (key,), r),
    ensures
        r@ == encode_utf8(
            base64_text(
                sha1_digest(key@ + encode_utf8("258EAFA5-E914-47DA-95CA-C5AB0DC85B11"@)),
            ),
        ),
        accept_value(key@) == r@,
{
}

/// Decoding the answer to a key gives, byte by byte, the twenty bytes of the SHA-1 digest of the
/// key followed by the fixed identifier.
pub proof fn law_sign_decodes_to_digest(key: &[u8], r: FieldValue, g: int)
    requires
        call_ensures(sign, (key,), r),
        0 <= g < 7,
    ensures
        ({
            let digest = sha1_digest(
                key@ + encode_utf8("258EAFA5-E914-47DA-95CA-C5AB0DC85B11"@),
            );
            &&& digest.len() == 20
            &&& r@.len() == 28
            &&& digest[3 * g] == base64_value(r@[4 * g]) * 4 + base64_value(r@[4 * g + 1]) / 16
            &&& digest[3 * g + 1] == base64_value(r@[4 * g + 1]) % 16 * 16 + base64_value(
                r@[4 * g + 2],
            ) / 4
            &&& g < 6 ==> digest[3 * g + 2] == base64_value(r@[4 * g + 2]) % 4 * 64
                + base64_value(r@[4 * g + 3])
            &&& g == 6 ==> r@[4 * g + 3] == 61
        }),
{
    let digest = sha1_digest(key@ + encode_utf8("258EAFA5-E914-47DA-95CA-C5AB0DC85B11"@));
    law_sign(key, r);
    law_base64_decodes(digest, r@, g);
}

} // verus!
