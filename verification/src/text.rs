//! ASCII case folding and searching in header text.

use vstd::prelude::*;
use vstd::utf8::{decode_first_scalar, decode_utf8, pop_first_scalar, valid_first_scalar, valid_utf8};

verus! {

/// `b` with the letters `A` to `Z` moved to `a` to `z`.
pub open spec fn lower_byte(b: u8) -> u8 {
    if 65 <= b <= 90 {
        (b + 32) as u8
    } else {
        b
    }
}

/// `bytes` with every ASCII letter in lower case.
pub open spec fn lower_bytes(bytes: Seq<u8>) -> Seq<u8> {
    bytes.map_values(|b: u8| lower_byte(b))
}

/// `c` with the letters `A` to `Z` moved to `a` to `z`; no other character changes.
pub open spec fn lower_char(c: char) -> char {
    if 'A' <= c <= 'Z' {
        (c as u32 + 32) as char
    } else {
        c
    }
}

/// `text` with every ASCII letter in lower case.
pub open spec fn lower_text(text: Seq<char>) -> Seq<char> {
    text.map_values(|c: char| lower_char(c))
}

/// `needle` stands in `text` from position `at` on.
pub open spec fn occurs_at(needle: Seq<char>, text: Seq<char>, at: int) -> bool {
    0 <= at <= text.len() - needle.len() && text.subrange(at, at + needle.len()) == needle
}

/// `needle` stands somewhere in `text`.
pub open spec fn occurs_in(needle: Seq<char>, text: Seq<char>) -> bool {
    exists|at: int| occurs_at(needle, text, at)
}

/// What the first scalar of UTF-8 text can be.
proof fn lemma_first_scalar(bytes: Seq<u8>)
    requires
        valid_first_scalar(bytes),
    ensures
        bytes[0] <= 0x7f ==> decode_first_scalar(bytes) == bytes[0],
        bytes[0] > 0x7f ==> 0x80 <= decode_first_scalar(bytes) <= 0x10ffff,
        !(0xd800 <= decode_first_scalar(bytes) <= 0xdfff),
{
    let b1: u8 = bytes[0];
    let b2: u8 = bytes[1];
    let b3: u8 = bytes[2];
    assert(b1 <= 0x7f ==> (b1 & 0x7f) == b1) by (bit_vector);
    assert(((b1 & 0x1f) as u32) << 6 | ((b2 & 0x3f) as u32) <= 0x7ff) by (bit_vector);
    assert(((b1 & 0x0f) as u32) << 12 | ((b2 & 0x3f) as u32) << 6 | ((b3 & 0x3f) as u32) <= 0xffff)
        by (bit_vector);
}

/// Lower case text is the text of the lower case bytes.
pub proof fn lemma_lower_utf8(bytes: Seq<u8>)
    ensures
        valid_utf8(lower_bytes(bytes)) <==> valid_utf8(bytes),
        valid_utf8(bytes) ==> decode_utf8(lower_bytes(bytes)) == lower_text(decode_utf8(bytes)),
    decreases bytes.len(),
{
    let lower = lower_bytes(bytes);
    if bytes.len() == 0 {
        assert(lower =~= bytes);
        assert(lower_text(decode_utf8(bytes)) =~= decode_utf8(lower));
    } else {
        let b: u8 = bytes[0];
        let l: u8 = lower[0];
        assert(b <= 0x7f ==> (b & 0x7f) == b) by (bit_vector);
        assert(l <= 0x7f ==> (l & 0x7f) == l) by (bit_vector);
        assert(forall|i: int| 0 <= i < bytes.len() && bytes[i] >= 0x80 ==> lower[i] == bytes[i]);
        assert(forall|i: int| 0 <= i < bytes.len() && lower[i] >= 0x80 ==> lower[i] == bytes[i]);
        assert(valid_first_scalar(lower) == valid_first_scalar(bytes));
        if valid_first_scalar(bytes) {
            let rest = pop_first_scalar(bytes);
            assert(pop_first_scalar(lower) =~= lower_bytes(rest));
            lemma_lower_utf8(rest);
            if valid_utf8(bytes) {
                let c: u32 = decode_first_scalar(bytes);
                lemma_first_scalar(bytes);
                assert(decode_utf8(bytes) == seq![c as char] + decode_utf8(rest));
                assert(decode_first_scalar(lower) as char == lower_char(c as char));
                assert(decode_utf8(lower) == seq![decode_first_scalar(lower) as char]
                    + decode_utf8(pop_first_scalar(lower)));
                assert(decode_utf8(lower) =~= lower_text(decode_utf8(bytes)));
            }
        }
    }
}

/// Whether two byte strings are the same.
pub fn bytes_eq(a: &[u8], b: &[u8]) -> (r: bool)
    ensures
        r == (a@ == b@),
{
    if a.len() != b.len() {
        return false;
    }
    let mut i: usize = 0;
    while i < a.len()
        invariant
            i <= a.len(),
            a@.len() == b@.len(),
            a@.take(i as int) == b@.take(i as int),
        decreases a.len() - i,
    {
        if a[i] != b[i] {
            assert(a@[i as int] != b@[i as int]);
            return false;
        }
        assert(a@.take(i + 1) =~= a@.take(i as int).push(a@[i as int]));
        assert(b@.take(i + 1) =~= b@.take(i as int).push(b@[i as int]));
        i += 1;
    }
    assert(a@.take(a@.len() as int) =~= a@);
    assert(b@.take(b@.len() as int) =~= b@);
    true
}

fn to_lower_byte(b: u8) -> (r: u8)
    ensures
        r == lower_byte(b),
{
    if 65 <= b && b <= 90 {
        b + 32
    } else {
        b
    }
}

/// Whether two byte strings are the same up to the case of ASCII letters.
pub fn eq_ignore_ascii_case(a: &[u8], b: &[u8]) -> (r: bool)
    ensures
        r == (lower_bytes(a@) == lower_bytes(b@)),
{
    if a.len() != b.len() {
        assert(lower_bytes(a@).len() != lower_bytes(b@).len());
        return false;
    }
    let mut i: usize = 0;
    while i < a.len()
        invariant
            i <= a.len(),
            a@.len() == b@.len(),
            forall|j: int| 0 <= j < i ==> lower_byte(#[trigger] a@[j]) == lower_byte(b@[j]),
        decreases a.len() - i,
    {
        if to_lower_byte(a[i]) != to_lower_byte(b[i]) {
            assert(lower_bytes(a@)[i as int] != lower_bytes(b@)[i as int]);
            return false;
        }
        i += 1;
    }
    assert(lower_bytes(a@) =~= lower_bytes(b@));
    true
}

fn to_lower_char(c: char) -> (r: char)
    ensures
        r == lower_char(c),
{
    if 'A' <= c && c <= 'Z' {
        (c as u8 + 32) as char
    } else {
        c
    }
}

/// The characters of `text` with every ASCII letter in lower case.
pub fn lower_chars(text: &str) -> (r: Vec<char>)
    ensures
        r@ == lower_text(text@),
{
    let mut r: Vec<char> = Vec::new();
    for c in it: text.chars()
        invariant
            it.seq() == text@,
            r@ =~= lower_text(text@.take(it.index() as int)),
    {
        r.push(to_lower_char(c));
    }
    assert(text@.take(text@.len() as int) =~= text@);
    r
}

/// The characters of `text`.
pub fn chars_of(text: &str) -> (r: Vec<char>)
    ensures
        r@ == text@,
{
    let mut r: Vec<char> = Vec::new();
    for c in it: text.chars()
        invariant
            it.seq() == text@,
            r@ =~= text@.take(it.index() as int),
    {
        r.push(c);
    }
    assert(text@.take(text@.len() as int) =~= text@);
    r
}

fn matches_at(needle: &Vec<char>, text: &Vec<char>, at: usize) -> (r: bool)
    requires
        at + needle@.len() <= text@.len(),
    ensures
        r == occurs_at(needle@, text@, at as int),
{
    let mut i: usize = 0;
    while i < needle.len()
        invariant
            i <= needle.len(),
            at + needle.len() <= text.len(),
            forall|j: int| 0 <= j < i ==> text@[at + j] == #[trigger] needle@[j],
        decreases needle.len() - i,
    {
        if text[at + i] != needle[i] {
            assert(text@.subrange(at as int, at + needle@.len())[i as int] != needle@[i as int]);
            return false;
        }
        i += 1;
    }
    assert(text@.subrange(at as int, at + needle@.len()) =~= needle@);
    true
}

/// Whether `needle` stands somewhere in `text`.
pub fn contains_text(needle: &Vec<char>, text: &Vec<char>) -> (r: bool)
    ensures
        r == occurs_in(needle@, text@),
{
    if needle.len() > text.len() {
        return false;
    }
    let last: usize = text.len() - needle.len();
    let mut at: usize = 0;
    loop
        invariant
            last == text@.len() - needle@.len(),
            at <= last,
            forall|k: int| 0 <= k < at ==> !occurs_at(needle@, text@, k),
        decreases last - at,
    {
        if matches_at(needle, text, at) {
            return true;
        }
        if at == last {
            assert(forall|k: int| !occurs_at(needle@, text@, k));
            return false;
        }
        at += 1;
    }
}

/// Calls `std::str::from_utf8`: bytes that are valid UTF-8 are the text that they encode, and
/// all others are no text.
#[verifier::external_body]
pub(crate) fn utf8_text(bytes: &[u8]) -> (r: Option<&str>)
    ensures
        r is Some <==> valid_utf8(bytes@),
        r matches Some(text) ==> text@ == decode_utf8(bytes@),
{
    std::str::from_utf8(bytes).ok()
}

} // verus!
