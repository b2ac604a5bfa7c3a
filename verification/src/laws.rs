//! What holds of upgrades as a whole.

pub mod answer;
pub mod handshake;
pub mod offer;
pub mod request;
pub mod value;

use vstd::prelude::*;
use vstd::utf8::{encode_utf8, encode_utf8_decode_utf8, encode_utf8_valid_utf8};

use crate::accept::{accept_value, base64_group, base64_symbol, base64_text, sha1_digest};
use crate::accept::ACCEPT_GUID;
use crate::header::visible_bytes;
use crate::header::FieldName;
use crate::protocol::{
    first_offered, lemma_offers_unfold, list_item, offers, trim, written_list,
};
use crate::rejection::{WebSocketKeyHeaderMissing, WebSocketUpgradeRejection};
use crate::request::{header_includes, header_is};
use crate::request::RequestParts;
use crate::text::{lower_bytes, lower_text, occurs_at};
use crate::upgrade::{chosen_protocol, effective, extension_values, extracted, response_headers};
use crate::upgrade::{Accepted, UpgradeView};

verus! {

proof fn lemma_names_distinct()
    ensures
        forall|a: FieldName, b: FieldName| #![trigger a@, b@] a@ == b@ ==> a == b,
{
    assert forall|a: FieldName, b: FieldName| #![trigger a@, b@] a@ == b@ implies a == b by {
        FieldName::lemma_distinct(a, b);
    }
}

/// A request is accepted exactly where its method is GET, its `Connection` header includes
/// `upgrade`, its `Upgrade` header is `websocket`, its `Sec-WebSocket-Version` header is `13`, and
/// it has a `Sec-WebSocket-Key` header.
pub proof fn law_accepted_requests(parts: RequestParts)
    ensures
        parts.rejection() is None <==> {
            &&& parts.method@ == "GET"@
            &&& header_includes(parts.contents(), FieldName::Connection@, "upgrade"@)
            &&& header_is(parts.contents(), FieldName::Upgrade@, "websocket"@)
            &&& header_is(parts.contents(), FieldName::SecWebSocketVersion@, "13"@)
            &&& parts.contents().contains_key(FieldName::SecWebSocketKey@)
        },
{
}

/// A request with another method than GET is answered with the status 405, and every other
/// request that is rejected with the status 400.
pub proof fn law_rejection_status(parts: RequestParts)
    ensures
        parts.rejection() matches Some(rejection) ==> rejection.spec_status() == (if parts.method@
            != "GET"@ {
            405u16
        } else {
            400u16
        }),
{
}

/// The letter case of the `Connection`, `Upgrade` and `Sec-WebSocket-Version` headers does not
/// matter: requests that differ in nothing else that counts are accepted or rejected alike.
pub proof fn law_letter_case(a: RequestParts, b: RequestParts)
    requires
        a.method@ == b.method@,
        a.contents().contains_key(FieldName::SecWebSocketKey@) == b.contents().contains_key(
            FieldName::SecWebSocketKey@,
        ),
        forall|name: FieldName|
            #![trigger name@]
            name == FieldName::Connection || name == FieldName::Upgrade || name
                == FieldName::SecWebSocketVersion ==> {
                &&& a.contents().contains_key(name@) == b.contents().contains_key(name@)
                &&& a.contents().contains_key(name@) ==> lower_bytes(a.contents()[name@][0])
                    == lower_bytes(b.contents()[name@][0])
            },
    ensures
        a.rejection() == b.rejection(),
{
    let connection = FieldName::Connection@;
    let upgrade = FieldName::Upgrade@;
    let version = FieldName::SecWebSocketVersion@;
    crate::text::lemma_lower_utf8(a.contents()[connection][0]);
    crate::text::lemma_lower_utf8(b.contents()[connection][0]);
}

/// The key of a request serves one upgrade: once it has been extracted, the request is rejected
/// for want of a key.
pub proof fn law_key_serves_once(before: RequestParts, after: RequestParts)
    requires
        before.rejection() is None,
        after.method == before.method,
        after.contents() == before.contents().remove(FieldName::SecWebSocketKey@),
    ensures
        after.rejection() == Some(
            WebSocketUpgradeRejection::WebSocketKeyHeaderMissing(WebSocketKeyHeaderMissing),
        ),
{
    lemma_names_distinct();
}

/// Whatever was negotiated, the response confirms the upgrade and answers the key of the client.
pub proof fn law_response_confirms(
    key: Seq<u8>,
    protocol: Option<Seq<u8>>,
    extensions: Seq<Seq<u8>>,
    npay_bootstrap: bool,
)
    ensures
        ({
            let headers = response_headers(key, protocol, extensions, npay_bootstrap);
            &&& headers.contains_pair(FieldName::Connection@, seq![encode_utf8("upgrade"@)])
            &&& headers.contains_pair(FieldName::Upgrade@, seq![encode_utf8("websocket"@)])
            &&& headers.contains_pair(FieldName::SecWebSocketAccept@, seq![accept_value(key)])
        }),
{
    lemma_names_distinct();
}

/// The response names a protocol, extensions or the bootstrap flag exactly where there is one to
/// name, and has no further headers.
pub proof fn law_response_says_no_more(
    key: Seq<u8>,
    protocol: Option<Seq<u8>>,
    extensions: Seq<Seq<u8>>,
    npay_bootstrap: bool,
    name: Seq<char>,
)
    ensures
        ({
            let headers = response_headers(key, protocol, extensions, npay_bootstrap);
            headers.contains_key(name) <==> {
                ||| name == FieldName::Connection@
                ||| name == FieldName::Upgrade@
                ||| name == FieldName::SecWebSocketAccept@
                ||| name == FieldName::SecWebSocketProtocol@ && protocol is Some
                ||| name == FieldName::SecWebSocketExtensions@ && extensions.len() > 0
                ||| name == FieldName::XNpayBootstrap@ && npay_bootstrap
            }
        }),
{
    lemma_names_distinct();
}

/// The protocol of the connection is the one that the response names.
pub proof fn law_response_names_protocol(
    key: Seq<u8>,
    protocol: Option<Seq<u8>>,
    extensions: Seq<Seq<u8>>,
    npay_bootstrap: bool,
)
    ensures
        ({
            let headers = response_headers(key, protocol, extensions, npay_bootstrap);
            match protocol {
                Some(protocol) => headers.contains_pair(
                    FieldName::SecWebSocketProtocol@,
                    seq![protocol],
                ),
                None => !headers.contains_key(FieldName::SecWebSocketProtocol@),
            }
        }),
{
    lemma_names_distinct();
}

/// The response names the extensions that were accepted, and none where the client offered none or
/// nothing was accepted.
pub proof fn law_response_names_extensions<F, X>(
    upgrade: UpgradeView<F>,
    accepted: Option<Accepted<X>>,
    npay_bootstrap: bool,
)
    ensures
        ({
            let values = extension_values(effective(upgrade, accepted));
            let headers = response_headers(upgrade.key, upgrade.protocol, values, npay_bootstrap);
            &&& upgrade.offered_extensions is None ==> !headers.contains_key(
                FieldName::SecWebSocketExtensions@,
            )
            &&& accepted is None ==> !headers.contains_key(FieldName::SecWebSocketExtensions@)
            &&& values.len() > 0 ==> headers.contains_pair(
                FieldName::SecWebSocketExtensions@,
                values,
            )
        }),
{
    lemma_names_distinct();
}

/// The response has an extensions header exactly where extensions are in use: the client is never
/// told of one that the connection does not apply, nor left unaware of one that it does.
pub proof fn law_extensions_in_use_are_announced<F, X>(
    upgrade: UpgradeView<F>,
    accepted: Option<Accepted<X>>,
    npay_bootstrap: bool,
)
    requires
        accepted matches Some(a) ==> a.header@.len() > 0,
    ensures
        response_headers(
            upgrade.key,
            upgrade.protocol,
            extension_values(effective(upgrade, accepted)),
            npay_bootstrap,
        ).contains_key(FieldName::SecWebSocketExtensions@) <==> effective(
            upgrade,
            accepted,
        ) is Some,
{
    lemma_names_distinct();
}

/// While compression is not enabled, no extension is used and the response names none, whatever
/// the client offers and whatever was negotiated.
pub proof fn law_no_extensions_without_compression<F, X>(
    upgrade: UpgradeView<F>,
    accepted: Option<Accepted<X>>,
    npay_bootstrap: bool,
)
    requires
        !upgrade.config.compression,
    ensures
        effective(upgrade, accepted) is None,
        !response_headers(
            upgrade.key,
            upgrade.protocol,
            extension_values(effective(upgrade, accepted)),
            npay_bootstrap,
        ).contains_key(FieldName::SecWebSocketExtensions@),
{
    lemma_names_distinct();
}

/// Six bits are told from one another, and from padding, by the character that stands for them.
proof fn lemma_base64_symbol(a: int, a_missing: bool, b: int, b_missing: bool)
    requires
        0 <= a < 64,
        0 <= b < 64,
        (if a_missing { '=' } else { base64_symbol(a) }) == (if b_missing {
            '='
        } else {
            base64_symbol(b)
        }),
    ensures
        a_missing == b_missing,
        !a_missing ==> a == b,
{
}

/// The four characters that stand for the bytes of `data` from position `3 * g` on.
proof fn lemma_base64_characters(data: Seq<u8>, g: int)
    requires
        0 <= g,
        3 * g < data.len(),
    ensures
        0 <= base64_group(data, 3 * g) < 0x1000000,
        base64_text(data)[4 * g] == base64_symbol(base64_group(data, 3 * g) / 0x40000),
        base64_text(data)[4 * g + 1] == base64_symbol(base64_group(data, 3 * g) / 0x1000 % 64),
        base64_text(data)[4 * g + 2] == if 3 * g + 2 > data.len() {
            '='
        } else {
            base64_symbol(base64_group(data, 3 * g) / 0x40 % 64)
        },
        base64_text(data)[4 * g + 3] == if 3 * g + 3 > data.len() {
            '='
        } else {
            base64_symbol(base64_group(data, 3 * g) % 64)
        },
{
    assert(4 * g + 3 < base64_text(data).len());
    assert(4 * g / 4 * 3 == 3 * g && 4 * g % 4 == 0);
    assert((4 * g + 1) / 4 * 3 == 3 * g && (4 * g + 1) % 4 == 1);
    assert((4 * g + 2) / 4 * 3 == 3 * g && (4 * g + 2) % 4 == 2);
    assert((4 * g + 3) / 4 * 3 == 3 * g && (4 * g + 3) % 4 == 3);
}

/// Twenty-four bits are known by their four parts of six bits each.
proof fn lemma_six_bit_parts(x: int, y: int)
    requires
        0 <= x < 0x1000000,
        0 <= y < 0x1000000,
        x / 0x40000 == y / 0x40000,
        x / 0x1000 % 64 == y / 0x1000 % 64,
        x / 0x40 % 64 == y / 0x40 % 64,
        x % 64 == y % 64,
    ensures
        x == y,
{
    assert(x / 0x1000 == y / 0x1000) by {
        assert(x / 0x1000 / 64 == x / 0x40000);
        assert(y / 0x1000 / 64 == y / 0x40000);
    }
    assert(x / 0x40 == y / 0x40) by {
        assert(x / 0x40 / 64 == x / 0x1000);
        assert(y / 0x40 / 64 == y / 0x1000);
    }
}

/// Equal texts stand for the same parts of six bits, and end alike.
proof fn lemma_base64_parts(a: Seq<u8>, b: Seq<u8>, g: int)
    requires
        base64_text(a) == base64_text(b),
        0 <= g,
        3 * g < a.len(),
        3 * g < b.len(),
    ensures
        ({
            let x = base64_group(a, 3 * g);
            let y = base64_group(b, 3 * g);
            &&& 0 <= x < 0x1000000
            &&& 0 <= y < 0x1000000
            &&& x / 0x40000 == y / 0x40000
            &&& x / 0x1000 % 64 == y / 0x1000 % 64
            &&& 3 * g + 2 > a.len() <==> 3 * g + 2 > b.len()
            &&& 3 * g + 2 <= a.len() ==> x / 0x40 % 64 == y / 0x40 % 64
            &&& 3 * g + 3 > a.len() <==> 3 * g + 3 > b.len()
            &&& 3 * g + 3 <= a.len() ==> x % 64 == y % 64
        }),
{
    let x = base64_group(a, 3 * g);
    let y = base64_group(b, 3 * g);
    lemma_base64_characters(a, g);
    lemma_base64_characters(b, g);
    lemma_base64_symbol(x / 0x40000, false, y / 0x40000, false);
    lemma_base64_symbol(x / 0x1000 % 64, false, y / 0x1000 % 64, false);
    lemma_base64_symbol(
        x / 0x40 % 64,
        3 * g + 2 > a.len(),
        y / 0x40 % 64,
        3 * g + 2 > b.len(),
    );
    lemma_base64_symbol(x % 64, 3 * g + 3 > a.len(), y % 64, 3 * g + 3 > b.len());
}

/// The parts of six bits in which no byte has a bit are zero.
proof fn lemma_missing_parts(x: int)
    ensures
        x % 0x10000 == 0 ==> x / 0x40 % 64 == 0 && x % 64 == 0,
        x % 0x100 == 0 ==> x % 64 == 0,
{
}

/// Equal texts stand for equal bytes, three at a time.
proof fn lemma_base64_group(a: Seq<u8>, b: Seq<u8>, g: int)
    requires
        base64_text(a) == base64_text(b),
        0 <= g,
        3 * g < a.len(),
        3 * g < b.len(),
    ensures
        a[3 * g] == b[3 * g],
        3 * g + 1 < a.len() <==> 3 * g + 1 < b.len(),
        3 * g + 2 < a.len() <==> 3 * g + 2 < b.len(),
        3 * g + 1 < a.len() ==> a[3 * g + 1] == b[3 * g + 1],
        3 * g + 2 < a.len() ==> a[3 * g + 2] == b[3 * g + 2],
{
    let x = base64_group(a, 3 * g);
    let y = base64_group(b, 3 * g);
    lemma_base64_parts(a, b, g);
    if 3 * g + 2 > a.len() {
        assert(x == a[3 * g] * 0x10000);
        assert(y == b[3 * g] * 0x10000);
    } else if 3 * g + 3 > a.len() {
        assert(x == a[3 * g] * 0x10000 + a[3 * g + 1] * 0x100);
        assert(y == b[3 * g] * 0x10000 + b[3 * g + 1] * 0x100);
    }
    lemma_missing_parts(x);
    lemma_missing_parts(y);
    lemma_six_bit_parts(x, y);
}

/// Base64 text stands for one byte string: different bytes have different texts.
pub proof fn law_base64_is_unambiguous(a: Seq<u8>, b: Seq<u8>)
    requires
        base64_text(a) == base64_text(b),
    ensures
        a == b,
{
    assert(base64_text(a).len() == (a.len() + 2) / 3 * 4);
    assert(base64_text(b).len() == (b.len() + 2) / 3 * 4);
    if a.len() > 0 {
        lemma_base64_group(a, b, (a.len() - 1) / 3);
    }
    assert(a.len() == b.len());
    assert forall|i: int| 0 <= i < a.len() implies a[i] == b[i] by {
        lemma_base64_group(a, b, i / 3);
    }
    assert(a =~= b);
}

/// The answer to a key stands for one digest: keys that are answered alike have the same digest.
pub proof fn law_answer_stands_for_digest(a: Seq<u8>, b: Seq<u8>)
    requires
        accept_value(a) == accept_value(b),
    ensures
        sha1_digest(a + encode_utf8(ACCEPT_GUID@)) == sha1_digest(b + encode_utf8(ACCEPT_GUID@)),
{
    let da = sha1_digest(a + encode_utf8(ACCEPT_GUID@));
    let db = sha1_digest(b + encode_utf8(ACCEPT_GUID@));
    encode_utf8_decode_utf8(base64_text(da));
    encode_utf8_decode_utf8(base64_text(db));
    law_base64_is_unambiguous(da, db);
}

/// The protocol chosen is the first on the list of the server that the client offers; none is
/// chosen exactly where the client offers none of them.
pub proof fn law_server_preference(header: Seq<u8>, protocols: Seq<Seq<u8>>)
    ensures
        match first_offered(header, protocols) {
            Some(protocol) => exists|i: int|
                0 <= i < protocols.len() && #[trigger] protocols[i] == protocol && offers(
                    header,
                    protocol,
                ) && forall|j: int| 0 <= j < i ==> !offers(header, #[trigger] protocols[j]),
            None => forall|j: int|
                0 <= j < protocols.len() ==> !offers(header, #[trigger] protocols[j]),
        },
    decreases protocols.len(),
{
    if protocols.len() > 0 {
        if offers(header, protocols[0]) {
            assert(protocols[0] == first_offered(header, protocols)->0);
        } else {
            let rest = protocols.drop_first();
            law_server_preference(header, rest);
            assert forall|j: int|
                0 < j < protocols.len() implies #[trigger] protocols[j] == rest[j - 1] by {}
            if let Some(protocol) = first_offered(header, rest) {
                let i = choose|i: int|
                    0 <= i < rest.len() && #[trigger] rest[i] == protocol && offers(
                        header,
                        protocol,
                    ) && forall|j: int| 0 <= j < i ==> !offers(header, #[trigger] rest[j]);
                assert(protocols[i + 1] == protocol);
                assert forall|j: int| 0 <= j < i + 1 implies !offers(
                    header,
                    #[trigger] protocols[j],
                ) by {
                    if j > 0 {
                        assert(protocols[j] == rest[j - 1]);
                    }
                }
            } else {
                assert forall|j: int| 0 <= j < protocols.len() implies !offers(
                    header,
                    #[trigger] protocols[j],
                ) by {
                    if j > 0 {
                        assert(protocols[j] == rest[j - 1]);
                    }
                }
            }
        }
    }
}

/// The order in which the client lists its protocols does not matter: headers that offer the same
/// of the known protocols lead to the same choice.
pub proof fn law_client_order_is_ignored(a: Seq<u8>, b: Seq<u8>, protocols: Seq<Seq<u8>>)
    requires
        forall|i: int|
            0 <= i < protocols.len() ==> offers(a, #[trigger] protocols[i]) == offers(
                b,
                protocols[i],
            ),
    ensures
        first_offered(a, protocols) == first_offered(b, protocols),
    decreases protocols.len(),
{
    if protocols.len() > 0 {
        let rest = protocols.drop_first();
        assert forall|i: int| 0 <= i < rest.len() implies offers(a, #[trigger] rest[i]) == offers(
            b,
            rest[i],
        ) by {
            assert(rest[i] == protocols[i + 1]);
        }
        assert(offers(a, protocols[0]) == offers(b, protocols[0]));
        law_client_order_is_ignored(a, b, rest);
    }
}

/// Spaces before a list item are trimmed away.
proof fn lemma_trim_spaces(spaces: Seq<u8>, item: Seq<u8>)
    requires
        forall|i: int| 0 <= i < spaces.len() ==> #[trigger] spaces[i] == 32u8,
    ensures
        trim(spaces + item) == trim(item),
    decreases spaces.len(),
{
    if spaces.len() == 0 {
        assert(spaces + item =~= item);
    } else {
        assert((spaces + item).drop_first() =~= spaces.drop_first() + item);
        lemma_trim_spaces(spaces.drop_first(), item);
    }
}

proof fn lemma_list_is_offered(spaces: Seq<u8>, protocols: Seq<Seq<u8>>, protocol: Seq<u8>)
    requires
        protocols.len() > 0,
        forall|i: int| 0 <= i < protocols.len() ==> list_item(#[trigger] protocols[i]),
        forall|i: int| 0 <= i < spaces.len() ==> #[trigger] spaces[i] == 32u8,
    ensures
        offers(spaces + written_list(protocols), protocol) <==> protocols.contains(protocol),
    decreases protocols.len(),
{
    let item = protocols[0];
    let header = spaces + written_list(protocols);
    let end = (spaces.len() + item.len()) as int;
    assert(list_item(item));
    assert(header.take(end) =~= spaces + item);
    assert forall|i: int| 0 <= i < end implies header[i] != 44u8 by {
        if i >= spaces.len() {
            assert(header[i] == item[i - spaces.len()]);
            assert(item.contains(item[i - spaces.len()]));
        } else {
            assert(header[i] == spaces[i]);
        }
    }
    lemma_trim_spaces(spaces, item);
    if protocols.len() == 1 {
        lemma_offers_unfold(header, end, protocol);
        assert(protocols.contains(protocol) <==> protocol == item) by {
            assert(protocols[0] == item);
        }
    } else {
        let rest = protocols.drop_first();
        assert forall|i: int| 0 <= i < rest.len() implies list_item(#[trigger] rest[i]) by {
            assert(rest[i] == protocols[i + 1]);
        }
        assert(header[end] == 44u8);
        lemma_offers_unfold(header, end, protocol);
        assert(header.skip(end + 1) =~= seq![32u8] + written_list(rest));
        lemma_list_is_offered(seq![32u8], rest, protocol);
        assert(protocols.contains(protocol) <==> protocol == item || rest.contains(protocol)) by {
            assert(protocols =~= seq![item] + rest);
            if rest.contains(protocol) {
                let k = choose|k: int| 0 <= k < rest.len() && rest[k] == protocol;
                assert(protocols[k + 1] == protocol);
            }
            if protocols.contains(protocol) && protocol != item {
                let k = choose|k: int| 0 <= k < protocols.len() && protocols[k] == protocol;
                assert(rest[k - 1] == protocol);
            }
        }
    }
}

/// A header that lists protocols offers these, and no others.
pub proof fn law_listed_protocols_are_offered(protocols: Seq<Seq<u8>>, protocol: Seq<u8>)
    requires
        protocols.len() > 0,
        forall|i: int| 0 <= i < protocols.len() ==> list_item(#[trigger] protocols[i]),
    ensures
        offers(written_list(protocols), protocol) <==> protocols.contains(protocol),
{
    lemma_list_is_offered(Seq::empty(), protocols, protocol);
    assert(Seq::<u8>::empty() + written_list(protocols) =~= written_list(protocols));
}

/// A `Connection` header that lists `upgrade` among other options, in whatever letter case, asks
/// for an upgrade.
pub proof fn law_connection_options(
    parts: RequestParts,
    before: Seq<char>,
    option: Seq<char>,
    after: Seq<char>,
)
    requires
        parts.contents().contains_key(FieldName::Connection@),
        parts.contents()[FieldName::Connection@][0] == encode_utf8(before + option + after),
        lower_text(option) == "upgrade"@,
    ensures
        header_includes(parts.contents(), FieldName::Connection@, "upgrade"@),
{
    let text = before + option + after;
    encode_utf8_valid_utf8(text);
    encode_utf8_decode_utf8(text);
    let at = before.len() as int;
    assert(option.len() == lower_text(option).len());
    assert(lower_text(text).subrange(at, at + option.len()) =~= lower_text(option));
    assert(occurs_at("upgrade"@, lower_text(text), at));
}

/// If the client offers a known protocol, the response names one that both sides know.
pub proof fn law_known_protocol_is_returned<F>(
    upgrade: UpgradeView<F>,
    protocols: Seq<Seq<u8>>,
    known: int,
    extensions: Seq<Seq<u8>>,
    npay_bootstrap: bool,
)
    requires
        upgrade.offered_protocols is Some,
        visible_bytes(upgrade.offered_protocols->0),
        0 <= known < protocols.len(),
        offers(upgrade.offered_protocols->0, protocols[known]),
    ensures
        ({
            let protocol = chosen_protocol(upgrade, protocols);
            let headers = response_headers(upgrade.key, protocol, extensions, npay_bootstrap);
            &&& protocol is Some
            &&& headers.contains_pair(FieldName::SecWebSocketProtocol@, seq![protocol->0])
            &&& protocols.contains(protocol->0)
            &&& offers(upgrade.offered_protocols->0, protocol->0)
        }),
{
    lemma_names_distinct();
    law_server_preference(upgrade.offered_protocols->0, protocols);
}

/// The protocols of a request are chosen by the last list that was set; without a readable offer
/// no list has an effect.
pub proof fn law_last_list_decides<F>(
    upgrade: UpgradeView<F>,
    first: Seq<Seq<u8>>,
    last: Seq<Seq<u8>>,
)
    ensures
        ({
            let once = UpgradeView { protocol: chosen_protocol(upgrade, first), ..upgrade };
            chosen_protocol(once, last) == chosen_protocol(upgrade, last)
        }),
{
}

/// A client that offers no protocols gets none, whatever protocols the server knows.
pub proof fn law_no_protocol_unasked(parts: RequestParts, protocols: Seq<Seq<u8>>)
    requires
        !parts.contents().contains_key(FieldName::SecWebSocketProtocol@),
    ensures
        chosen_protocol(extracted(parts), protocols) is None,
{
}

} // verus!
