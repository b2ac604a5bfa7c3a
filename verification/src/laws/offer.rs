//! What a list of protocols offers, and which protocol is chosen from it.

use vstd::prelude::*;
use vstd::utf8::encode_utf8;

use crate::protocol::{
    is_space, lemma_offers_unfold, names, offers, offers_protocol, select_protocol, split_commas,
    trim, trim_end, trim_start,
};
use crate::upgrade::WebSocketUpgrade;

verus! {

/// What `trim_start` leaves is the text after some white space, and begins with none.
proof fn lemma_trim_start(text: Seq<u8>) -> (n: int)
    ensures
        0 <= n <= text.len(),
        trim_start(text) == text.skip(n),
        forall|i: int| 0 <= i < n ==> is_space(#[trigger] text[i]),
        n < text.len() ==> !is_space(text[n]),
    decreases text.len(),
{
    if text.len() > 0 && is_space(text[0]) {
        let rest = text.drop_first();
        let n = lemma_trim_start(rest);
        assert(rest.skip(n) =~= text.skip(n + 1));
        assert forall|i: int| 0 <= i < n + 1 implies is_space(#[trigger] text[i]) by {
            if i > 0 {
                assert(rest[i - 1] == text[i]);
            }
        }
        if n < rest.len() {
            assert(rest[n] == text[n + 1]);
        }
        n + 1
    } else {
        assert(text.skip(0) =~= text);
        0
    }
}

/// What `trim_end` leaves is the text before some white space, and ends with none.
proof fn lemma_trim_end(text: Seq<u8>) -> (n: int)
    ensures
        0 <= n <= text.len(),
        trim_end(text) == text.take(n),
        forall|i: int| n <= i < text.len() ==> is_space(#[trigger] text[i]),
        n > 0 ==> !is_space(text[n - 1]),
    decreases text.len(),
{
    if text.len() > 0 && is_space(text.last()) {
        let rest = text.drop_last();
        let n = lemma_trim_end(rest);
        assert(rest.take(n) =~= text.take(n));
        assert forall|i: int| n <= i < text.len() implies is_space(#[trigger] text[i]) by {
            if i < rest.len() {
                assert(rest[i] == text[i]);
            }
        }
        n
    } else {
        assert(text.take(text.len() as int) =~= text);
        text.len() as int
    }
}

/// Trimming takes away the white space on both sides and nothing else: text is what trimming
/// leaves of it with white space around, and what is left neither begins nor ends with any.
pub proof fn law_trim(text: Seq<u8>, word: Seq<u8>)
    ensures
        trim(text) == word <==> {
            &&& exists|left: Seq<u8>, right: Seq<u8>|
                {
                    &&& text == #[trigger] (left + word + right)
                    &&& forall|i: int|
                        0 <= i < left.len() ==> (#[trigger] left[i] == 32 || 9 <= left[i] <= 13)
                    &&& forall|i: int|
                        0 <= i < right.len() ==> (#[trigger] right[i] == 32 || 9 <= right[i] <= 13)
                }
            &&& word.len() > 0 ==> !(word[0] == 32 || 9 <= word[0] <= 13) && !(word.last() == 32
                || 9 <= word.last() <= 13)
        },
{
    let a = lemma_trim_start(text);
    let rest = text.skip(a);
    let b = lemma_trim_end(rest);
    let left = text.take(a);
    let right = rest.skip(b);
    let inner = rest.take(b);
    assert(trim(text) == inner);
    assert(text =~= left + inner + right);
    assert forall|i: int| 0 <= i < left.len() implies (#[trigger] left[i] == 32 || 9 <= left[i]
        <= 13) by {
        assert(is_space(text[i]));
    }
    assert forall|i: int| 0 <= i < right.len() implies (#[trigger] right[i] == 32 || 9 <= right[i]
        <= 13) by {
        assert(is_space(rest[b + i]));
    }
    if inner.len() > 0 {
        assert(inner[0] == text[a]);
        assert(inner.last() == rest[b - 1]);
    }
    if (exists|left: Seq<u8>, right: Seq<u8>|
        {
            &&& text == #[trigger] (left + word + right)
            &&& forall|i: int|
                0 <= i < left.len() ==> (#[trigger] left[i] == 32 || 9 <= left[i] <= 13)
            &&& forall|i: int|
                0 <= i < right.len() ==> (#[trigger] right[i] == 32 || 9 <= right[i] <= 13)
        }) && (word.len() > 0 ==> !(word[0] == 32 || 9 <= word[0] <= 13) && !(word.last() == 32
        || 9 <= word.last() <= 13)) {
        let (l, r) = choose|left: Seq<u8>, right: Seq<u8>|
            {
                &&& text == #[trigger] (left + word + right)
                &&& forall|i: int|
                    0 <= i < left.len() ==> (#[trigger] left[i] == 32 || 9 <= left[i] <= 13)
                &&& forall|i: int|
                    0 <= i < right.len() ==> (#[trigger] right[i] == 32 || 9 <= right[i] <= 13)
            };
        assert forall|i: int| 0 <= i < l.len() implies is_space(#[trigger] text[i]) by {
            assert(text[i] == l[i]);
        }
        assert forall|i: int| l.len() + word.len() <= i < text.len() implies is_space(
            #[trigger] text[i],
        ) by {
            assert(text[i] == r[i - l.len() - word.len()]);
        }
        if word.len() > 0 {
            assert(text[l.len() as int] == word[0]);
            assert(text[l.len() + word.len() - 1] == word.last());
            assert(a == l.len()) by {
                if a < l.len() {
                    assert(is_space(text[a]));
                }
                if l.len() < a {
                    assert(is_space(text[l.len() as int]));
                }
            }
            assert(b == word.len()) by {
                if b < word.len() {
                    assert(rest[word.len() - 1] == text[a + word.len() - 1]);
                    assert(is_space(rest[word.len() - 1]));
                }
                if b > word.len() {
                    assert(rest[b - 1] == text[a + b - 1]);
                    assert(is_space(text[a + b - 1]));
                }
            }
            assert(inner =~= word);
        } else {
            assert(forall|i: int| 0 <= i < text.len() ==> is_space(#[trigger] text[i]));
            assert(a == text.len());
            assert(inner =~= word);
        }
    }
}

/// Each part between commas stands in the text, with a comma or an end of the text on either side.
proof fn lemma_part_stands(text: Seq<u8>, k: int) -> (r: (Seq<u8>, Seq<u8>))
    requires
        0 <= k < split_commas(text).len(),
    ensures
        text == r.0 + split_commas(text)[k] + r.1,
        !split_commas(text)[k].contains(44u8),
        r.0.len() == 0 || r.0.last() == 44,
        r.1.len() == 0 || r.1[0] == 44,
    decreases text.len(),
{
    text.index_of_first_ensures(44u8);
    let empty = Seq::<u8>::empty();
    match text.index_of_first(44u8) {
        Some(i) => {
            let head = text.take(i);
            let tail = text.skip(i + 1);
            assert(split_commas(text) == seq![head] + split_commas(tail));
            if k == 0 {
                assert(text =~= empty + head + text.skip(i));
                assert(!head.contains(44u8));
                (empty, text.skip(i))
            } else {
                assert(split_commas(text)[k] == split_commas(tail)[k - 1]);
                let (before, after) = lemma_part_stands(tail, k - 1);
                let whole = text.take(i + 1) + before;
                let part = split_commas(text)[k];
                assert(tail == before + part + after);
                assert(text =~= text.take(i + 1) + tail);
                assert(text.take(i + 1) + (before + part + after) =~= whole + part + after);
                if before.len() == 0 {
                    assert(whole.last() == text[i]);
                }
                (whole, after)
            }
        },
        None => {
            assert(text =~= empty + text + empty);
            (empty, empty)
        },
    }
}

/// A text without a comma that stands between commas or ends is offered.
proof fn lemma_standing_part(before: Seq<u8>, part: Seq<u8>, after: Seq<u8>)
    requires
        !part.contains(44u8),
        before.len() == 0 || before.last() == 44,
        after.len() == 0 || after[0] == 44,
    ensures
        offers(before + part + after, trim(part)),
    decreases before.len(),
{
    let text = before + part + after;
    if before.len() == 0 {
        let end = part.len() as int;
        assert forall|i: int| 0 <= i < end implies text[i] != 44u8 by {
            assert(text[i] == part[i]);
            assert(part.contains(part[i]));
        }
        if end < text.len() {
            assert(text[end] == after[0]);
        }
        assert(text.take(end) =~= part);
        lemma_offers_unfold(text, end, trim(part));
    } else {
        before.index_of_first_ensures(44u8);
        assert(before.contains(44u8)) by {
            assert(before[before.len() - 1] == 44u8);
        }
        let end = before.index_of_first(44u8)->0;
        assert forall|i: int| 0 <= i < end implies text[i] != 44u8 by {
            assert(text[i] == before[i]);
        }
        assert(text[end] == before[end]);
        let rest = before.skip(end + 1);
        if rest.len() > 0 {
            assert(rest.last() == before.last());
        }
        lemma_standing_part(rest, part, after);
        assert(text.skip(end + 1) =~= rest + part + after);
        lemma_offers_unfold(text, end, trim(part));
    }
}

/// A header offers a protocol where the name stands in it as a whole list item: between commas or
/// the ends of the header, with nothing but white space around it. A name holds no comma, and
/// neither begins nor ends with white space.
pub proof fn law_offers(header: Seq<u8>, protocol: Seq<u8>)
    ensures
        offers(header, protocol) <==> {
            &&& exists|before: Seq<u8>, left: Seq<u8>, right: Seq<u8>, after: Seq<u8>|
                {
                    &&& header == #[trigger] (before + (left + protocol + right) + after)
                    &&& before.len() == 0 || before.last() == 44
                    &&& after.len() == 0 || after[0] == 44
                    &&& forall|i: int|
                        0 <= i < left.len() ==> (#[trigger] left[i] == 32 || 9 <= left[i] <= 13)
                    &&& forall|i: int|
                        0 <= i < right.len() ==> (#[trigger] right[i] == 32 || 9 <= right[i] <= 13)
                }
            &&& forall|i: int| 0 <= i < protocol.len() ==> #[trigger] protocol[i] != 44
            &&& protocol.len() > 0 ==> !(protocol[0] == 32 || 9 <= protocol[0] <= 13) && !(
            protocol.last() == 32 || 9 <= protocol.last() <= 13)
        },
{
    if offers(header, protocol) {
        let parts = split_commas(header);
        let k = choose|k: int| 0 <= k < parts.len() && trim(#[trigger] parts[k]) == protocol;
        let (before, after) = lemma_part_stands(header, k);
        law_trim(parts[k], protocol);
        let (left, right) = choose|left: Seq<u8>, right: Seq<u8>|
            {
                &&& parts[k] == #[trigger] (left + protocol + right)
                &&& forall|i: int|
                    0 <= i < left.len() ==> (#[trigger] left[i] == 32 || 9 <= left[i] <= 13)
                &&& forall|i: int|
                    0 <= i < right.len() ==> (#[trigger] right[i] == 32 || 9 <= right[i] <= 13)
            };
        assert(header == before + (left + protocol + right) + after);
        assert forall|i: int| 0 <= i < protocol.len() implies #[trigger] protocol[i] != 44 by {
            assert(parts[k][left.len() + i] == protocol[i]);
            assert(parts[k].contains(parts[k][left.len() + i]));
        }
    }
    if (exists|before: Seq<u8>, left: Seq<u8>, right: Seq<u8>, after: Seq<u8>|
        {
            &&& header == #[trigger] (before + (left + protocol + right) + after)
            &&& before.len() == 0 || before.last() == 44
            &&& after.len() == 0 || after[0] == 44
            &&& forall|i: int|
                0 <= i < left.len() ==> (#[trigger] left[i] == 32 || 9 <= left[i] <= 13)
            &&& forall|i: int|
                0 <= i < right.len() ==> (#[trigger] right[i] == 32 || 9 <= right[i] <= 13)
        }) && (forall|i: int| 0 <= i < protocol.len() ==> #[trigger] protocol[i] != 44) && (
    protocol.len() > 0 ==> !(protocol[0] == 32 || 9 <= protocol[0] <= 13) && !(protocol.last() == 32
        || 9 <= protocol.last() <= 13)) {
        let (before, left, right, after) = choose|
            before: Seq<u8>,
            left: Seq<u8>,
            right: Seq<u8>,
            after: Seq<u8>,
        |
            {
                &&& header == #[trigger] (before + (left + protocol + right) + after)
                &&& before.len() == 0 || before.last() == 44
                &&& after.len() == 0 || after[0] == 44
                &&& forall|i: int|
                    0 <= i < left.len() ==> (#[trigger] left[i] == 32 || 9 <= left[i] <= 13)
                &&& forall|i: int|
                    0 <= i < right.len() ==> (#[trigger] right[i] == 32 || 9 <= right[i] <= 13)
            };
        let part = left + protocol + right;
        law_trim(part, protocol);
        assert(part == left + protocol + right);
        assert forall|i: int| 0 <= i < part.len() implies part[i] != 44u8 by {
            if i < left.len() {
                assert(part[i] == left[i]);
            } else if i < left.len() + protocol.len() {
                assert(part[i] == protocol[i - left.len()]);
            } else {
                assert(part[i] == right[i - left.len() - protocol.len()]);
            }
        }
        lemma_standing_part(before, part, after);
    }
}

/// `offers_protocol` finds a name that stands in the header as a whole list item, and no other.
pub proof fn law_offers_protocol(header: &[u8], protocol: &[u8], r: bool)
    requires
        call_ensures(offers_protocol, (header, protocol), r),
    ensures
        r <==> {
            &&& exists|before: Seq<u8>, left: Seq<u8>, right: Seq<u8>, after: Seq<u8>|
                {
                    &&& header@ == #[trigger] (before + (left + protocol@ + right) + after)
                    &&& before.len() == 0 || before.last() == 44
                    &&& after.len() == 0 || after[0] == 44
                    &&& forall|i: int|
                        0 <= i < left.len() ==> (#[trigger] left[i] == 32 || 9 <= left[i] <= 13)
                    &&& forall|i: int|
                        0 <= i < right.len() ==> (#[trigger] right[i] == 32 || 9 <= right[i] <= 13)
                }
            &&& forall|i: int| 0 <= i < protocol@.len() ==> #[trigger] protocol@[i] != 44
            &&& protocol@.len() > 0 ==> !(protocol@[0] == 32 || 9 <= protocol@[0] <= 13) && !(
            protocol@.last() == 32 || 9 <= protocol@.last() <= 13)
        },
{
    law_offers(header@, protocol@);
}

/// `select_protocol` gives the position of the first name on the list that the header offers, and
/// none only where it offers none of them.
pub proof fn law_select_protocol(header: &[u8], protocols: Vec<String>, r: Option<usize>)
    requires
        call_ensures(select_protocol, (header, &protocols), r),
    ensures
        match r {
            Some(i) => {
                &&& i < protocols@.len()
                &&& offers(header@, encode_utf8(protocols@[i as int]@))
                &&& forall|j: int|
                    0 <= j < i ==> !offers(header@, encode_utf8((#[trigger] protocols@[j])@))
            },
            None => forall|j: int|
                0 <= j < protocols@.len() ==> !offers(
                    header@,
                    encode_utf8((#[trigger] protocols@[j])@),
                ),
        },
{
    assert forall|j: int| 0 <= j < protocols@.len() implies encode_utf8((#[trigger] protocols@[j])@)
        == names(protocols@)[j] by {}
    super::law_server_preference(header@, names(protocols@));
    match r {
        Some(i) => {
            assert(encode_utf8(protocols@[i as int]@) == names(protocols@)[i as int]);
            assert forall|j: int| 0 <= j < i implies !offers(
                header@,
                encode_utf8((#[trigger] protocols@[j])@),
            ) by {
                assert(!offers(header@, names(protocols@)[j]));
            }
        },
        None => {
            assert forall|j: int| 0 <= j < protocols@.len() implies !offers(
                header@,
                encode_utf8((#[trigger] protocols@[j])@),
            ) by {
                assert(!offers(header@, names(protocols@)[j]));
            }
        },
    }
}

/// After `protocols`, the protocol of an upgrade is the first on the list that the client offers,
/// so that the order of the list and not that of the header decides; it is none where the client
/// offers none of them. Without an offer, or with one that is not text, the protocol stays as it
/// was. Nothing else of the upgrade changes.
pub proof fn law_protocols<C>(
    upgrade: WebSocketUpgrade<C>,
    protocols: Vec<String>,
    r: WebSocketUpgrade<C>,
)
    requires
        call_ensures(WebSocketUpgrade::<C>::protocols, (upgrade, protocols), r),
    ensures
        ({
            let header = upgrade@.offered_protocols->0;
            let readable = upgrade@.offered_protocols is Some && forall|i: int|
                0 <= i < header.len() ==> (#[trigger] header[i] == 9 || 32 <= header[i] <= 126);
            &&& !readable ==> r@.protocol == upgrade@.protocol
            &&& readable ==> match r@.protocol {
                Some(protocol) => exists|i: int|
                    {
                        &&& 0 <= i < protocols@.len()
                        &&& encode_utf8((#[trigger] protocols@[i])@) == protocol
                        &&& offers(header, protocol)
                        &&& forall|j: int|
                            0 <= j < i ==> !offers(
                                header,
                                encode_utf8((#[trigger] protocols@[j])@),
                            )
                    },
                None => forall|j: int|
                    0 <= j < protocols@.len() ==> !offers(
                        header,
                        encode_utf8((#[trigger] protocols@[j])@),
                    ),
            }
        }),
        r@.config == upgrade@.config,
        r@.key == upgrade@.key,
        r@.on_upgrade == upgrade@.on_upgrade,
        r@.on_failed_upgrade == upgrade@.on_failed_upgrade,
        r@.offered_protocols == upgrade@.offered_protocols,
        r@.offered_extensions == upgrade@.offered_extensions,
{
    let header = upgrade@.offered_protocols->0;
    let known = names(protocols@);
    assert forall|j: int| 0 <= j < protocols@.len() implies encode_utf8((#[trigger] protocols@[j])@)
        == known[j] by {}
    let readable = upgrade@.offered_protocols is Some && forall|i: int|
        0 <= i < header.len() ==> (#[trigger] header[i] == 9 || 32 <= header[i] <= 126);
    if upgrade@.offered_protocols is Some {
        assert(readable == crate::header::visible_bytes(header)) by {
            if crate::header::visible_bytes(header) {
                assert forall|i: int| 0 <= i < header.len() implies (#[trigger] header[i] == 9 || 32
                    <= header[i] <= 126) by {
                    assert(crate::header::visible_byte(header[i]));
                }
            }
        }
    }
    if readable {
        super::law_server_preference(header, known);
        if let Some(protocol) = r@.protocol {
            let i = choose|i: int|
                0 <= i < known.len() && #[trigger] known[i] == protocol && offers(
                    header,
                    protocol,
                ) && forall|j: int| 0 <= j < i ==> !offers(header, #[trigger] known[j]);
            assert(encode_utf8(protocols@[i]@) == known[i]);
        }
    }
}

/// The client's list is handed out as it was sent, where every byte of it is a tab or printable.
pub proof fn law_offered_protocols<C>(upgrade: WebSocketUpgrade<C>, r: Option<&[u8]>)
    requires
        call_ensures(WebSocketUpgrade::<C>::offered_protocols, (&upgrade,), r),
    ensures
        match (r, upgrade@.offered_protocols) {
            (Some(text), Some(header)) => text@ == header && forall|i: int|
                0 <= i < header.len() ==> (#[trigger] header[i] == 9 || 32 <= header[i] <= 126),
            (None, Some(header)) => exists|i: int|
                0 <= i < header.len() && !(#[trigger] header[i] == 9 || 32 <= header[i] <= 126),
            (r, None) => r is None,
        },
{
    if let Some(header) = upgrade@.offered_protocols {
        if crate::header::visible_bytes(header) {
            assert forall|i: int| 0 <= i < header.len() implies (#[trigger] header[i] == 9 || 32
                <= header[i] <= 126) by {
                assert(crate::header::visible_byte(header[i]));
            }
        } else {
            let i = choose|i: int|
                0 <= i < header.len() && !crate::header::visible_byte(#[trigger] header[i]);
            assert(!(header[i] == 9 || 32 <= header[i] <= 126));
        }
    }
}

} // verus!
