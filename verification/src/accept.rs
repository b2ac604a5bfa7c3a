//! The answer to the key that a client sends in its opening handshake.

use vstd::prelude::*;
use vstd::utf8::encode_utf8;

use crate::header::FieldValue;
use crate::header::{value_byte, value_bytes};

verus! {

/// What the server appends to the key of the client before it takes the digest.
pub const ACCEPT_GUID: &'static str = "258EAFA5-E914-47DA-95CA-C5AB0DC85B11";

/// The longest key that can be answered: SHA-1 counts the bits of its input in 64 bits.
pub const MAX_KEY_LEN: u64 = 0x1fff_ffff_ffff_ffdb;

/// The SHA-1 digest of `data`.
pub uninterp spec fn sha1_digest(data: Seq<u8>) -> Seq<u8>;

/// The character that stands for six bits in base64 text.
pub open spec fn base64_symbol(bits: int) -> char {
    if bits < 26 {
        ('A' as int + bits) as char
    } else if bits < 52 {
        ('a' as int + bits - 26) as char
    } else if bits < 62 {
        ('0' as int + bits - 52) as char
    } else if bits == 62 {
        '+'
    } else {
        '/'
    }
}

/// The three bytes of `data` from position `at` on as one number, with zeros past the end.
pub open spec fn base64_group(data: Seq<u8>, at: int) -> int {
    let second = if at + 1 < data.len() { data[at + 1] as int } else { 0 };
    let third = if at + 2 < data.len() { data[at + 2] as int } else { 0 };
    data[at] * 0x10000 + second * 0x100 + third
}

/// A character of the standard base64 alphabet, as a byte.
pub open spec fn base64_byte(b: u8) -> bool {
    65 <= b <= 90 || 97 <= b <= 122 || 48 <= b <= 57 || b == 43 || b == 47
}

/// The base64 text of `data`, with the standard alphabet and padding: every three bytes are four
/// characters of six bits each, and the last four end in `=` where bytes are missing.
pub open spec fn base64_text(data: Seq<u8>) -> Seq<char> {
    Seq::new(
        ((data.len() + 2) / 3 * 4) as nat,
        |i: int|
            {
                let group = base64_group(data, i / 4 * 3);
                if i % 4 == 0 {
                    base64_symbol(group / 0x40000)
                } else if i % 4 == 1 {
                    base64_symbol(group / 0x1000 % 64)
                } else if i / 4 * 3 + i % 4 > data.len() {
                    '='
                } else if i % 4 == 2 {
                    base64_symbol(group / 0x40 % 64)
                } else {
                    base64_symbol(group % 64)
                }
            },
    )
}

/// The answer to `key`: the base64 text of the SHA-1 digest of the key followed by the fixed
/// identifier.
pub open spec fn accept_value(key: Seq<u8>) -> Seq<u8> {
    encode_utf8(base64_text(sha1_digest(key + encode_utf8(ACCEPT_GUID@))))
}

/// Calls `sha1::Sha1::digest`: the twenty bytes of the digest, which depend on `data` alone. The
/// bit count of longer inputs overflows.
#[verifier::external_body]
fn sha1(data: &[u8]) -> (r: Vec<u8>)
    requires
        data@.len() < 0x2000_0000_0000_0000,
    ensures
        r@ == sha1_digest(data@),
        r@.len() == 20,
{
    <sha1::Sha1 as sha1::Digest>::digest(data).to_vec()
}

/// Calls `encode` of `base64::engine::general_purpose::STANDARD`: the text is the base64 text of
/// `data` in the standard alphabet with padding. The call panics where the text is longer than a
/// vector can be.
#[verifier::external_body]
fn base64(data: &[u8]) -> (r: String)
    requires
        (data@.len() + 2) / 3 * 4 <= isize::MAX,
    ensures
        r@ == base64_text(data@),
{
    base64::engine::Engine::encode(&base64::engine::general_purpose::STANDARD, data)
}

/// Base64 text is ASCII.
pub(crate) proof fn lemma_base64_ascii(data: Seq<u8>)
    ensures
        forall|i: int|
            0 <= i < base64_text(data).len() ==> '+' <= #[trigger] base64_text(data)[i] <= 'z',
{
    let text = base64_text(data);
    assert forall|i: int| 0 <= i < text.len() implies '+' <= #[trigger] text[i] <= 'z' by {
        let at = i / 4 * 3;
        assert(0 <= at < data.len());
        let group = base64_group(data, at);
        assert(0 <= group < 0x1000000);
    }
}

/// Base64 text is made of bytes that a header value may hold.
proof fn lemma_base64_value(data: Seq<u8>)
    ensures
        value_bytes(encode_utf8(base64_text(data))),
        encode_utf8(base64_text(data)).len() == base64_text(data).len(),
{
    let text = base64_text(data);
    lemma_base64_ascii(data);
    vstd::utf8::is_ascii_chars_encode_utf8(text);
    assert forall|i: int| 0 <= i < encode_utf8(text).len() implies value_byte(
        #[trigger] encode_utf8(text)[i],
    ) by {
        assert('+' <= text[i] <= 'z');
    }
}

/// The base64 text of twenty bytes: twenty-seven characters of the alphabet and one padding sign.
proof fn lemma_twenty_bytes(data: Seq<u8>)
    requires
        data.len() == 20,
    ensures
        encode_utf8(base64_text(data)).len() == 28,
        forall|i: int|
            0 <= i < 27 ==> base64_byte(#[trigger] encode_utf8(base64_text(data))[i]),
        encode_utf8(base64_text(data))[27] == 61,
{
    let text = base64_text(data);
    lemma_base64_ascii(data);
    vstd::utf8::is_ascii_chars_encode_utf8(text);
    assert forall|i: int| 0 <= i < 27 implies base64_byte(
        #[trigger] encode_utf8(text)[i],
    ) by {
        let group = base64_group(data, i / 4 * 3);
        assert(0 <= group < 0x1000000);
        assert(encode_utf8(text)[i] == text[i] as u8);
    }
    assert(text[27] == '=');
}

/// What the digest is taken of: the key followed by the fixed identifier.
pub fn challenge(key: &[u8]) -> (r: Vec<u8>)
    ensures
        r@ == key@ + encode_utf8(ACCEPT_GUID@),
        r@.len() == key@.len() + 36,
{
    let mut data: Vec<u8> = vstd::slice::slice_to_vec(key);
    data.extend_from_slice(ACCEPT_GUID.as_bytes());
    proof {
        reveal_strlit("258EAFA5-E914-47DA-95CA-C5AB0DC85B11");
        vstd::utf8::is_ascii_chars_encode_utf8(ACCEPT_GUID@);
        assert(data@ =~= key@ + encode_utf8(ACCEPT_GUID@));
    }
    data
}

/// A digest as the value of a header: its base64 text.
pub fn digest_value(digest: &[u8]) -> (r: FieldValue)
    requires
        (digest@.len() + 2) / 3 * 4 <= isize::MAX,
    ensures
        r@ == encode_utf8(base64_text(digest@)),
        r@.len() == (digest@.len() + 2) / 3 * 4,
{
    let text = base64(digest);
    proof {
        lemma_base64_value(digest@);
    }
    FieldValue::from_maybe_shared(text).unwrap()
}

/// The value of the `Sec-WebSocket-Accept` header for a key: twenty-seven characters of the base64
/// alphabet and one padding sign, which stand for the twenty bytes of the digest.
pub fn sign(key: &[u8]) -> (r: FieldValue)
    requires
        key@.len() <= MAX_KEY_LEN,
    ensures
        r@ == accept_value(key@),
        r@ == encode_utf8(
            base64_text(
                sha1_digest(key@ + encode_utf8("258EAFA5-E914-47DA-95CA-C5AB0DC85B11"@)),
            ),
        ),
        sha1_digest(key@ + encode_utf8(ACCEPT_GUID@)).len() == 20,
        r@.len() == 28,
        forall|i: int| 0 <= i < 27 ==> base64_byte(#[trigger] r@[i]),
        r@[27] == 61,
{
    let digest = sha1(challenge(key).as_slice());
    proof {
        lemma_twenty_bytes(digest@);
    }
    digest_value(digest.as_slice())
}

} // verus!
