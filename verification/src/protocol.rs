//! Choice of a subprotocol from those that the client offers.

use vstd::prelude::*;
use vstd::slice::slice_subrange;
use vstd::utf8::encode_utf8;

use crate::header::{visible_byte, visible_bytes};
use crate::text::bytes_eq;

verus! {

/// White space within ASCII.
pub open spec fn is_space(b: u8) -> bool {
    b == 32 || 9 <= b <= 13
}

/// `text` without the white space at its start.
pub open spec fn trim_start(text: Seq<u8>) -> Seq<u8>
    decreases text.len(),
{
    if text.len() > 0 && is_space(text[0]) {
        trim_start(text.drop_first())
    } else {
        text
    }
}

/// `text` without the white space at its end.
pub open spec fn trim_end(text: Seq<u8>) -> Seq<u8>
    decreases text.len(),
{
    if text.len() > 0 && is_space(text.last()) {
        trim_end(text.drop_last())
    } else {
        text
    }
}

/// `text` without the white space around it.
pub open spec fn trim(text: Seq<u8>) -> Seq<u8> {
    trim_end(trim_start(text))
}

/// The parts of `text` between its commas.
pub open spec fn split_commas(text: Seq<u8>) -> Seq<Seq<u8>>
    decreases text.len(),
{
    match text.index_of_first(44u8) {
        Some(i) => {
            proof {
                text.index_of_first_ensures(44u8);
            }
            seq![text.take(i)] + split_commas(text.skip(i + 1))
        },
        None => seq![text],
    }
}

/// A `Sec-WebSocket-Protocol` header names `protocol` in one of its comma separated parts, up to
/// white space around the part.
pub open spec fn offers(header: Seq<u8>, protocol: Seq<u8>) -> bool {
    exists|k: int|
        0 <= k < split_commas(header).len() && trim(#[trigger] split_commas(header)[k]) == protocol
}

/// The first of `protocols` that `header` offers.
pub open spec fn first_offered(header: Seq<u8>, protocols: Seq<Seq<u8>>) -> Option<Seq<u8>>
    decreases protocols.len(),
{
    if protocols.len() == 0 {
        None
    } else if offers(header, protocols[0]) {
        Some(protocols[0])
    } else {
        first_offered(header, protocols.drop_first())
    }
}

/// A protocol name that can stand in a list: it has no comma, and no white space around it.
pub open spec fn list_item(protocol: Seq<u8>) -> bool {
    !protocol.contains(44u8) && trim(protocol) == protocol
}

/// The list of `protocols` with a comma and a space between them.
pub open spec fn written_list(protocols: Seq<Seq<u8>>) -> Seq<u8>
    decreases protocols.len(),
{
    if protocols.len() == 0 {
        Seq::empty()
    } else if protocols.len() == 1 {
        protocols[0]
    } else {
        protocols[0] + seq![44u8, 32u8] + written_list(protocols.drop_first())
    }
}

/// The names of protocols as bytes.
pub open spec fn names(protocols: Seq<String>) -> Seq<Seq<u8>> {
    protocols.map_values(|p: String| encode_utf8(p@))
}

/// What the first part of a header and the rest offer is what the header offers.
pub(crate) proof fn lemma_offers_unfold(header: Seq<u8>, end: int, protocol: Seq<u8>)
    requires
        0 <= end <= header.len(),
        forall|i: int| 0 <= i < end ==> header[i] != 44u8,
        end < header.len() ==> header[end] == 44u8,
    ensures
        offers(header, protocol) <==> (trim(header.take(end)) == protocol || (end < header.len()
            && offers(header.skip(end + 1), protocol))),
{
    header.index_of_first_ensures(44u8);
    let parts = split_commas(header);
    if end < header.len() {
        assert(header.contains(44u8)) by {
            assert(header[end] == 44u8);
        }
        let rest = split_commas(header.skip(end + 1));
        assert(parts == seq![header.take(end)] + rest);
        if offers(header, protocol) {
            let k = choose|k: int| 0 <= k < parts.len() && trim(#[trigger] parts[k]) == protocol;
            if k > 0 {
                assert(rest[k - 1] == parts[k]);
            }
        }
        if trim(header.take(end)) == protocol {
            assert(parts[0] == header.take(end));
        }
        if offers(header.skip(end + 1), protocol) {
            let k = choose|k: int| 0 <= k < rest.len() && trim(#[trigger] rest[k]) == protocol;
            assert(parts[k + 1] == rest[k]);
        }
    } else {
        assert(!header.contains(44u8));
        assert(header.take(end) =~= header);
        assert(parts == seq![header]);
        assert(parts[0] == header);
    }
}

/// `text` without the white space around it.
fn trimmed(text: &[u8]) -> (r: &[u8])
    ensures
        r@ == trim(text@),
{
    let mut start: usize = 0;
    assert(text@.skip(0) =~= text@);
    while start < text.len() && (text[start] == 32 || (9 <= text[start] && text[start] <= 13))
        invariant
            start <= text.len(),
            trim_start(text@) == trim_start(text@.skip(start as int)),
        decreases text.len() - start,
    {
        assert(text@.skip(start as int).drop_first() =~= text@.skip(start + 1));
        start += 1;
    }
    let ghost rest = text@.skip(start as int);
    assert(trim_start(text@) == rest);
    let mut end: usize = text.len();
    assert(text@.subrange(start as int, end as int) =~= rest);
    while start < end && (text[end - 1] == 32 || (9 <= text[end - 1] && text[end - 1] <= 13))
        invariant
            start <= end <= text.len(),
            trim_end(rest) == trim_end(text@.subrange(start as int, end as int)),
        decreases end,
    {
        assert(text@.subrange(start as int, end as int).drop_last() =~= text@.subrange(
            start as int,
            end - 1,
        ));
        end -= 1;
    }
    slice_subrange(text, start, end)
}

/// Where the part of `text` that begins at `start` ends: at the next comma, or where the text
/// does.
fn part_end(text: &[u8], start: usize) -> (r: usize)
    requires
        start <= text@.len(),
    ensures
        start <= r <= text@.len(),
        forall|i: int| start <= i < r ==> text@[i] != 44u8,
        r < text@.len() ==> text@[r as int] == 44u8,
{
    let mut end: usize = start;
    while end < text.len() && text[end] != 44
        invariant
            start <= end <= text.len(),
            forall|i: int| start <= i < end ==> text@[i] != 44u8,
        decreases text.len() - end,
    {
        end += 1;
    }
    end
}

/// Whether a `Sec-WebSocket-Protocol` header offers a protocol.
pub fn offers_protocol(header: &[u8], protocol: &[u8]) -> (r: bool)
    ensures
        r == offers(header@, protocol@),
{
    let mut start: usize = 0;
    assert(header@.skip(0) =~= header@);
    loop
        invariant
            start <= header.len(),
            offers(header@, protocol@) == offers(header@.skip(start as int), protocol@),
        decreases header.len() - start,
    {
        let end = part_end(header, start);
        let part = trimmed(slice_subrange(header, start, end));
        proof {
            let rest = header@.skip(start as int);
            assert forall|i: int| 0 <= i < end - start implies rest[i] != 44u8 by {
                assert(rest[i] == header@[start + i]);
            }
            lemma_offers_unfold(rest, end - start, protocol@);
            assert(rest.take(end - start) =~= header@.subrange(start as int, end as int));
            assert(end < header@.len() ==> rest.skip(end - start + 1) =~= header@.skip(end + 1));
        }
        if bytes_eq(part, protocol) {
            return true;
        }
        if end == header.len() {
            return false;
        }
        start = end + 1;
    }
}

/// The position of the first of `protocols` that a `Sec-WebSocket-Protocol` header offers.
pub fn select_protocol(header: &[u8], protocols: &Vec<String>) -> (r: Option<usize>)
    ensures
        match r {
            Some(i) => {
                &&& i < protocols@.len()
                &&& offers(header@, names(protocols@)[i as int])
                &&& forall|j: int| 0 <= j < i ==> !offers(header@, #[trigger] names(protocols@)[j])
            },
            None => forall|j: int|
                0 <= j < protocols@.len() ==> !offers(header@, #[trigger] names(protocols@)[j]),
        },
        first_offered(header@, names(protocols@)) == match r {
            Some(i) => Some(names(protocols@)[i as int]),
            None => None,
        },
{
    let mut i: usize = 0;
    while i < protocols.len()
        invariant
            i <= protocols.len(),
            forall|j: int| 0 <= j < i ==> !offers(header@, #[trigger] names(protocols@)[j]),
        decreases protocols.len() - i,
    {
        if offers_protocol(header, protocols[i].as_str().as_bytes()) {
            proof {
                lemma_first_offered(header@, names(protocols@), i as int);
            }
            return Some(i);
        }
        i += 1;
    }
    proof {
        lemma_first_offered(header@, names(protocols@), i as int);
    }
    None
}

/// The first protocol on offer is the one that comes before all others on offer.
pub(crate) proof fn lemma_first_offered(header: Seq<u8>, protocols: Seq<Seq<u8>>, i: int)
    requires
        0 <= i <= protocols.len(),
        forall|j: int| 0 <= j < i ==> !offers(header, #[trigger] protocols[j]),
    ensures
        i < protocols.len() && offers(header, protocols[i]) ==> first_offered(header, protocols)
            == Some(protocols[i]),
        i == protocols.len() ==> first_offered(header, protocols) is None,
    decreases protocols.len(),
{
    if i > 0 {
        let rest = protocols.drop_first();
        assert forall|j: int| 0 <= j < i - 1 implies !offers(header, #[trigger] rest[j]) by {
            assert(rest[j] == protocols[j + 1]);
        }
        assert(!offers(header, protocols[0]));
        lemma_first_offered(header, rest, i - 1);
        if i < protocols.len() {
            assert(rest[i - 1] == protocols[i]);
        }
    }
}

/// What `trim` leaves of text is text.
proof fn lemma_trim_visible(text: Seq<u8>)
    requires
        visible_bytes(text),
    ensures
        visible_bytes(trim(text)),
{
    lemma_trim_start_visible(text);
    lemma_trim_end_visible(trim_start(text));
}

proof fn lemma_trim_start_visible(text: Seq<u8>)
    requires
        visible_bytes(text),
    ensures
        visible_bytes(trim_start(text)),
    decreases text.len(),
{
    if text.len() > 0 && is_space(text[0]) {
        assert(visible_bytes(text.drop_first()));
        lemma_trim_start_visible(text.drop_first());
    }
}

proof fn lemma_trim_end_visible(text: Seq<u8>)
    requires
        visible_bytes(text),
    ensures
        visible_bytes(trim_end(text)),
    decreases text.len(),
{
    if text.len() > 0 && is_space(text.last()) {
        assert(visible_bytes(text.drop_last()));
        lemma_trim_end_visible(text.drop_last());
    }
}

proof fn lemma_parts_visible(text: Seq<u8>, k: int)
    requires
        visible_bytes(text),
        0 <= k < split_commas(text).len(),
    ensures
        visible_bytes(split_commas(text)[k]),
    decreases text.len(),
{
    text.index_of_first_ensures(44u8);
    if let Some(i) = text.index_of_first(44u8) {
        if k == 0 {
            assert(visible_bytes(text.take(i)));
        } else {
            assert(visible_bytes(text.skip(i + 1)));
            lemma_parts_visible(text.skip(i + 1), k - 1);
        }
    }
}

/// A protocol that a header of text offers is text itself.
pub(crate) proof fn lemma_offered_visible(header: Seq<u8>, protocol: Seq<u8>)
    requires
        visible_bytes(header),
        offers(header, protocol),
    ensures
        visible_bytes(protocol),
{
    let parts = split_commas(header);
    let k = choose|k: int| 0 <= k < parts.len() && trim(#[trigger] parts[k]) == protocol;
    lemma_parts_visible(header, k);
    lemma_trim_visible(parts[k]);
}

} // verus!
