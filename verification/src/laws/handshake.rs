//! What an upgrade is made of, how it is configured, and what comes out of it.

use vstd::prelude::*;
use vstd::utf8::{encode_utf8, is_ascii_chars_encode_utf8};

use crate::accept::{base64_text, sha1_digest};
use crate::config::WebSocketConfig;
use crate::failure::{DefaultOnFailedUpdgrade, OnFailedUpdgrade};
use crate::header::{header_contents, views, FieldName, FieldValue};
use crate::protocol::offers;
use crate::rejection::WebSocketUpgradeRejection;
use crate::request::RequestParts;
use crate::upgrade::{Accepted, UpgradeAction, UpgradeResponse, UpgradeTask, WebSocketUpgrade};

verus! {

/// An upgrade is extracted exactly from a request that passes `check`; any other request is
/// rejected as `check` says, and stays as it is.
pub proof fn law_extraction_follows_check(
    before: RequestParts,
    checked: Result<(), WebSocketUpgradeRejection>,
    parts: &mut RequestParts,
    r: Result<WebSocketUpgrade, WebSocketUpgradeRejection>,
)
    requires
        before == *old(parts),
        call_ensures(RequestParts::check, (&before,), checked),
        call_ensures(WebSocketUpgrade::from_request_parts, (parts,), r),
    ensures
        r is Ok <==> checked is Ok,
        r matches Err(rejection) ==> rejection == checked->Err_0 && *final(parts) == before,
{
}

/// Extraction takes the key and the connection out of the request and nothing else: the method
/// and every other header stay as they are.
pub proof fn law_extraction_takes_key_and_connection(
    parts: &mut RequestParts,
    r: Result<WebSocketUpgrade, WebSocketUpgradeRejection>,
    name: Seq<char>,
)
    requires
        call_ensures(WebSocketUpgrade::from_request_parts, (parts,), r),
        r is Ok,
    ensures
        ({
            let before = header_contents(old(parts).headers);
            let after = header_contents(final(parts).headers);
            &&& !after.contains_key("sec-websocket-key"@)
            &&& name != "sec-websocket-key"@ ==> {
                &&& after.contains_key(name) == before.contains_key(name)
                &&& before.contains_key(name) ==> after[name] == before[name]
            }
        }),
        final(parts).method == old(parts).method,
        final(parts).on_upgrade is None,
{
}

/// An extracted upgrade has the key and the connection of the request, the first value of what the
/// client lists as its protocols, and every value of what it lists as its extensions. No protocol
/// is chosen yet, whatever the client offers, and the settings are the default ones.
pub proof fn law_extracted_upgrade(
    parts: &mut RequestParts,
    r: Result<WebSocketUpgrade, WebSocketUpgradeRejection>,
)
    requires
        call_ensures(WebSocketUpgrade::from_request_parts, (parts,), r),
        r is Ok,
    ensures
        ({
            let headers = header_contents(old(parts).headers);
            let upgrade = r->Ok_0@;
            &&& upgrade.protocol is None
            &&& upgrade.key == headers["sec-websocket-key"@][0]
            &&& upgrade.on_upgrade == old(parts).on_upgrade->0
            &&& upgrade.on_failed_upgrade == DefaultOnFailedUpdgrade
            &&& match upgrade.offered_protocols {
                Some(offer) => headers.contains_key("sec-websocket-protocol"@) && offer
                    == headers["sec-websocket-protocol"@][0],
                None => !headers.contains_key("sec-websocket-protocol"@),
            }
            &&& match upgrade.offered_extensions {
                Some(offer) => headers.contains_key("sec-websocket-extensions"@) && offer
                    == headers["sec-websocket-extensions"@],
                None => !headers.contains_key("sec-websocket-extensions"@),
            }
            &&& upgrade.config.write_buffer_size == 128 * 1024
            &&& upgrade.config.max_write_buffer_size == usize::MAX
            &&& upgrade.config.max_message_size == Some(67108864usize)
            &&& upgrade.config.max_frame_size == Some(16777216usize)
            &&& !upgrade.config.accept_unmasked_frames
            &&& !upgrade.config.compression
        }),
{
}

/// Setting the size of the write buffer changes that and nothing else.
pub proof fn law_write_buffer_size<C>(
    upgrade: WebSocketUpgrade<C>,
    size: usize,
    r: WebSocketUpgrade<C>,
)
    requires
        call_ensures(WebSocketUpgrade::<C>::write_buffer_size, (upgrade, size), r),
    ensures
        r@.config.write_buffer_size == size,
        r@.config.max_write_buffer_size == upgrade@.config.max_write_buffer_size,
        r@.config.max_message_size == upgrade@.config.max_message_size,
        r@.config.max_frame_size == upgrade@.config.max_frame_size,
        r@.config.accept_unmasked_frames == upgrade@.config.accept_unmasked_frames,
        r@.config.compression == upgrade@.config.compression,
        r@.protocol == upgrade@.protocol,
        r@.key == upgrade@.key,
        r@.on_upgrade == upgrade@.on_upgrade,
        r@.on_failed_upgrade == upgrade@.on_failed_upgrade,
        r@.offered_protocols == upgrade@.offered_protocols,
        r@.offered_extensions == upgrade@.offered_extensions,
{
}

/// Setting the limit of the write buffer changes that and nothing else.
pub proof fn law_max_write_buffer_size<C>(
    upgrade: WebSocketUpgrade<C>,
    max: usize,
    r: WebSocketUpgrade<C>,
)
    requires
        call_ensures(WebSocketUpgrade::<C>::max_write_buffer_size, (upgrade, max), r),
    ensures
        r@.config.write_buffer_size == upgrade@.config.write_buffer_size,
        r@.config.max_write_buffer_size == max,
        r@.config.max_message_size == upgrade@.config.max_message_size,
        r@.config.max_frame_size == upgrade@.config.max_frame_size,
        r@.config.accept_unmasked_frames == upgrade@.config.accept_unmasked_frames,
        r@.config.compression == upgrade@.config.compression,
        r@.protocol == upgrade@.protocol,
        r@.key == upgrade@.key,
        r@.on_upgrade == upgrade@.on_upgrade,
        r@.on_failed_upgrade == upgrade@.on_failed_upgrade,
        r@.offered_protocols == upgrade@.offered_protocols,
        r@.offered_extensions == upgrade@.offered_extensions,
{
}

/// Setting the limit of messages changes that and nothing else.
pub proof fn law_max_message_size<C>(
    upgrade: WebSocketUpgrade<C>,
    max: usize,
    r: WebSocketUpgrade<C>,
)
    requires
        call_ensures(WebSocketUpgrade::<C>::max_message_size, (upgrade, max), r),
    ensures
        r@.config.write_buffer_size == upgrade@.config.write_buffer_size,
        r@.config.max_write_buffer_size == upgrade@.config.max_write_buffer_size,
        r@.config.max_message_size == Some(max),
        r@.config.max_frame_size == upgrade@.config.max_frame_size,
        r@.config.accept_unmasked_frames == upgrade@.config.accept_unmasked_frames,
        r@.config.compression == upgrade@.config.compression,
        r@.protocol == upgrade@.protocol,
        r@.key == upgrade@.key,
        r@.on_upgrade == upgrade@.on_upgrade,
        r@.on_failed_upgrade == upgrade@.on_failed_upgrade,
        r@.offered_protocols == upgrade@.offered_protocols,
        r@.offered_extensions == upgrade@.offered_extensions,
{
}

/// Setting the limit of frames changes that and nothing else.
pub proof fn law_max_frame_size<C>(upgrade: WebSocketUpgrade<C>, max: usize, r: WebSocketUpgrade<C>)
    requires
        call_ensures(WebSocketUpgrade::<C>::max_frame_size, (upgrade, max), r),
    ensures
        r@.config.write_buffer_size == upgrade@.config.write_buffer_size,
        r@.config.max_write_buffer_size == upgrade@.config.max_write_buffer_size,
        r@.config.max_message_size == upgrade@.config.max_message_size,
        r@.config.max_frame_size == Some(max),
        r@.config.accept_unmasked_frames == upgrade@.config.accept_unmasked_frames,
        r@.config.compression == upgrade@.config.compression,
        r@.protocol == upgrade@.protocol,
        r@.key == upgrade@.key,
        r@.on_upgrade == upgrade@.on_upgrade,
        r@.on_failed_upgrade == upgrade@.on_failed_upgrade,
        r@.offered_protocols == upgrade@.offered_protocols,
        r@.offered_extensions == upgrade@.offered_extensions,
{
}

/// Accepting or refusing unmasked frames changes that and nothing else.
pub proof fn law_accept_unmasked_frames<C>(
    upgrade: WebSocketUpgrade<C>,
    accept: bool,
    r: WebSocketUpgrade<C>,
)
    requires
        call_ensures(WebSocketUpgrade::<C>::accept_unmasked_frames, (upgrade, accept), r),
    ensures
        r@.config.write_buffer_size == upgrade@.config.write_buffer_size,
        r@.config.max_write_buffer_size == upgrade@.config.max_write_buffer_size,
        r@.config.max_message_size == upgrade@.config.max_message_size,
        r@.config.max_frame_size == upgrade@.config.max_frame_size,
        r@.config.accept_unmasked_frames == accept,
        r@.config.compression == upgrade@.config.compression,
        r@.protocol == upgrade@.protocol,
        r@.key == upgrade@.key,
        r@.on_upgrade == upgrade@.on_upgrade,
        r@.on_failed_upgrade == upgrade@.on_failed_upgrade,
        r@.offered_protocols == upgrade@.offered_protocols,
        r@.offered_extensions == upgrade@.offered_extensions,
{
}

/// Turning compression on or off changes that and nothing else.
pub proof fn law_accept_compression<C>(
    upgrade: WebSocketUpgrade<C>,
    enable: bool,
    r: WebSocketUpgrade<C>,
)
    requires
        call_ensures(WebSocketUpgrade::<C>::accept_compression, (upgrade, enable), r),
    ensures
        r@.config.write_buffer_size == upgrade@.config.write_buffer_size,
        r@.config.max_write_buffer_size == upgrade@.config.max_write_buffer_size,
        r@.config.max_message_size == upgrade@.config.max_message_size,
        r@.config.max_frame_size == upgrade@.config.max_frame_size,
        r@.config.accept_unmasked_frames == upgrade@.config.accept_unmasked_frames,
        r@.config.compression == enable,
        r@.protocol == upgrade@.protocol,
        r@.key == upgrade@.key,
        r@.on_upgrade == upgrade@.on_upgrade,
        r@.on_failed_upgrade == upgrade@.on_failed_upgrade,
        r@.offered_protocols == upgrade@.offered_protocols,
        r@.offered_extensions == upgrade@.offered_extensions,
{
}

/// Setting what to do on failure changes that and nothing else.
pub proof fn law_on_failed_upgrade<C, C2: OnFailedUpdgrade>(
    upgrade: WebSocketUpgrade<C>,
    callback: C2,
    r: WebSocketUpgrade<C2>,
)
    requires
        call_ensures(WebSocketUpgrade::<C>::on_failed_upgrade::<C2>, (upgrade, callback), r),
    ensures
        r@.on_failed_upgrade == callback,
        r@.config == upgrade@.config,
        r@.protocol == upgrade@.protocol,
        r@.key == upgrade@.key,
        r@.on_upgrade == upgrade@.on_upgrade,
        r@.offered_protocols == upgrade@.offered_protocols,
        r@.offered_extensions == upgrade@.offered_extensions,
{
}

/// What is read of an upgrade is what it consists of: its settings, and the extensions that the
/// client offers, one value after the other.
pub proof fn law_upgrade_is_read<C>(
    upgrade: WebSocketUpgrade<C>,
    config: WebSocketConfig,
    offers: Option<&Vec<FieldValue>>,
)
    requires
        call_ensures(WebSocketUpgrade::<C>::config, (&upgrade,), config),
        call_ensures(WebSocketUpgrade::<C>::offered_extensions, (&upgrade,), offers),
    ensures
        config == upgrade@.config,
        offers is Some <==> upgrade@.offered_extensions is Some,
        offers matches Some(values) ==> {
            let expected = upgrade@.offered_extensions->0;
            values@.len() == expected.len() && forall|i: int|
                0 <= i < values@.len() ==> (#[trigger] values@[i])@ == expected[i]
        },
{
    if let Some(values) = offers {
        assert forall|i: int| 0 <= i < values@.len() implies (#[trigger] values@[i])@
            == upgrade@.offered_extensions->0[i] by {
            assert(views(values@)[i] == values@[i]@);
        }
    }
}

/// The response switches protocols: its status is 101, it confirms the upgrade to a WebSocket
/// connection, and it answers the key of the client with the base64 text of the SHA-1 digest of
/// the key followed by the fixed identifier.
pub proof fn law_on_upgrade_confirms<C: OnFailedUpdgrade, X>(
    upgrade: WebSocketUpgrade<C>,
    accepted: Option<Accepted<X>>,
    npay_bootstrap: bool,
    r: (UpgradeResponse, hyper::upgrade::OnUpgrade, UpgradeTask<C, X>),
)
    requires
        call_ensures(
            WebSocketUpgrade::<C>::on_upgrade::<X>,
            (upgrade, accepted, npay_bootstrap),
            r,
        ),
    ensures
        r.0.status == 101,
        ({
            let headers = header_contents(r.0.headers);
            let digest = sha1_digest(
                upgrade@.key + encode_utf8("258EAFA5-E914-47DA-95CA-C5AB0DC85B11"@),
            );
            &&& headers.contains_pair("connection"@, seq![encode_utf8("upgrade"@)])
            &&& headers.contains_pair("upgrade"@, seq![encode_utf8("websocket"@)])
            &&& headers.contains_pair(
                "sec-websocket-accept"@,
                seq![encode_utf8(base64_text(digest))],
            )
        }),
{
    super::lemma_names_distinct();
    super::law_response_confirms(
        upgrade@.key,
        upgrade@.protocol,
        crate::upgrade::extension_values(crate::upgrade::effective(upgrade@, accepted)),
        npay_bootstrap,
    );
}

/// The response names the protocol that was chosen, as its one value, and has no protocol header
/// where none was. The connection speaks the protocol that the response names.
pub proof fn law_on_upgrade_names_protocol<C: OnFailedUpdgrade, X>(
    upgrade: WebSocketUpgrade<C>,
    accepted: Option<Accepted<X>>,
    npay_bootstrap: bool,
    r: (UpgradeResponse, hyper::upgrade::OnUpgrade, UpgradeTask<C, X>),
)
    requires
        call_ensures(
            WebSocketUpgrade::<C>::on_upgrade::<X>,
            (upgrade, accepted, npay_bootstrap),
            r,
        ),
    ensures
        r.2.protocol is Some <==> upgrade@.protocol is Some,
        header_contents(r.0.headers).contains_key("sec-websocket-protocol"@)
            <==> upgrade@.protocol is Some,
        upgrade@.protocol matches Some(protocol) ==> r.2.protocol->0@ == protocol
            && header_contents(r.0.headers)["sec-websocket-protocol"@] == seq![protocol],
{
    super::lemma_names_distinct();
    super::law_response_names_protocol(
        upgrade@.key,
        upgrade@.protocol,
        crate::upgrade::extension_values(crate::upgrade::effective(upgrade@, accepted)),
        npay_bootstrap,
    );
}

/// Negotiated extensions are in use exactly where the client offers some and compression is
/// enabled. The response then names them, in their order, and otherwise has no extensions header.
pub proof fn law_on_upgrade_names_extensions<C: OnFailedUpdgrade, X>(
    upgrade: WebSocketUpgrade<C>,
    accepted: Option<Accepted<X>>,
    npay_bootstrap: bool,
    r: (UpgradeResponse, hyper::upgrade::OnUpgrade, UpgradeTask<C, X>),
)
    requires
        call_ensures(
            WebSocketUpgrade::<C>::on_upgrade::<X>,
            (upgrade, accepted, npay_bootstrap),
            r,
        ),
    ensures
        ({
            let headers = header_contents(r.0.headers);
            let wanted = upgrade@.offered_extensions is Some && upgrade@.config.compression;
            match (accepted, r.2.extensions) {
                (Some(accepted), Some(extensions)) => {
                    &&& wanted
                    &&& extensions == accepted.extensions
                    &&& headers.contains_key("sec-websocket-extensions"@) <==>
                        accepted.header@.len() > 0
                    &&& accepted.header@.len() > 0 ==> {
                        let values = headers["sec-websocket-extensions"@];
                        values.len() == accepted.header@.len() && forall|i: int|
                            0 <= i < values.len() ==> #[trigger] values[i] == accepted.header@[i]@
                    }
                },
                (Some(_), None) => !wanted && !headers.contains_key("sec-websocket-extensions"@),
                (None, extensions) => extensions is None && !headers.contains_key(
                    "sec-websocket-extensions"@,
                ),
            }
        }),
{
    super::lemma_names_distinct();
    if let Some(accepted) = accepted {
        assert(views(accepted.header@).len() == accepted.header@.len());
        assert forall|i: int| 0 <= i < accepted.header@.len() implies #[trigger] views(
            accepted.header@,
        )[i] == accepted.header@[i]@ by {}
    }
    super::law_response_says_no_more(
        upgrade@.key,
        upgrade@.protocol,
        crate::upgrade::extension_values(crate::upgrade::effective(upgrade@, accepted)),
        npay_bootstrap,
        FieldName::SecWebSocketExtensions@,
    );
    super::law_response_names_extensions(upgrade@, accepted, npay_bootstrap);
}

/// With `npay_bootstrap` the response has the header `x-npay-bootstrap` with the one value `1`,
/// and without it no such header, whatever else was negotiated.
pub proof fn law_on_upgrade_bootstrap<C: OnFailedUpdgrade, X>(
    upgrade: WebSocketUpgrade<C>,
    accepted: Option<Accepted<X>>,
    npay_bootstrap: bool,
    r: (UpgradeResponse, hyper::upgrade::OnUpgrade, UpgradeTask<C, X>),
)
    requires
        call_ensures(
            WebSocketUpgrade::<C>::on_upgrade::<X>,
            (upgrade, accepted, npay_bootstrap),
            r,
        ),
    ensures
        npay_bootstrap ==> header_contents(r.0.headers).contains_pair(
            "x-npay-bootstrap"@,
            seq![seq![49u8]],
        ),
        !npay_bootstrap ==> !header_contents(r.0.headers).contains_key("x-npay-bootstrap"@),
{
    super::lemma_names_distinct();
    reveal_strlit("1");
    is_ascii_chars_encode_utf8("1"@);
    assert(encode_utf8("1"@) =~= seq![49u8]);
    assert(FieldName::XNpayBootstrap@ == "x-npay-bootstrap"@);
}

/// The response has no headers but those that confirm the upgrade, answer the key, and name a
/// protocol, extensions and the bootstrap flag.
pub proof fn law_on_upgrade_says_no_more<C: OnFailedUpdgrade, X>(
    upgrade: WebSocketUpgrade<C>,
    accepted: Option<Accepted<X>>,
    npay_bootstrap: bool,
    r: (UpgradeResponse, hyper::upgrade::OnUpgrade, UpgradeTask<C, X>),
    name: Seq<char>,
)
    requires
        call_ensures(
            WebSocketUpgrade::<C>::on_upgrade::<X>,
            (upgrade, accepted, npay_bootstrap),
            r,
        ),
        header_contents(r.0.headers).contains_key(name),
    ensures
        name == "connection"@ || name == "upgrade"@ || name == "sec-websocket-accept"@ || name
            == "sec-websocket-protocol"@ || name == "sec-websocket-extensions"@ || name
            == "x-npay-bootstrap"@,
{
    super::law_response_says_no_more(
        upgrade@.key,
        upgrade@.protocol,
        crate::upgrade::extension_values(crate::upgrade::effective(upgrade@, accepted)),
        npay_bootstrap,
        name,
    );
}

/// What is left to do has the connection of the request, the settings of the upgrade, and what to
/// do on failure.
pub proof fn law_on_upgrade_hands_on<C: OnFailedUpdgrade, X>(
    upgrade: WebSocketUpgrade<C>,
    accepted: Option<Accepted<X>>,
    npay_bootstrap: bool,
    r: (UpgradeResponse, hyper::upgrade::OnUpgrade, UpgradeTask<C, X>),
)
    requires
        call_ensures(
            WebSocketUpgrade::<C>::on_upgrade::<X>,
            (upgrade, accepted, npay_bootstrap),
            r,
        ),
    ensures
        r.1 == upgrade@.on_upgrade,
        r.2.config == upgrade@.config,
        r.2.on_failed_upgrade == upgrade@.on_failed_upgrade,
{
}

/// Once the connection has been handed over, it is opened with the settings, the extensions and
/// the protocol of the upgrade; where it cannot be, the callback is to be called with the error.
pub proof fn law_settle<C, X, U, E>(
    task: UpgradeTask<C, X>,
    outcome: Result<U, E>,
    r: UpgradeAction<U, E, C, X>,
)
    requires
        call_ensures(UpgradeTask::<C, X>::settle::<U, E>, (task, outcome), r),
    ensures
        r is Open <==> outcome is Ok,
        match r {
            UpgradeAction::Open { upgraded, config, extensions, protocol } => {
                &&& upgraded == outcome->Ok_0
                &&& config == task.config
                &&& extensions == task.extensions
                &&& protocol == task.protocol
            },
            UpgradeAction::Fail { on_failed_upgrade, error } => {
                &&& on_failed_upgrade == task.on_failed_upgrade
                &&& error == outcome->Err_0
            },
        },
{
}

/// A server that sets nothing answers the key of the request, names no protocol and no extension,
/// whatever the client offers, and opens the connection of the request with the default settings.
pub proof fn law_plain_handshake<X, U, E>(
    parts: &mut RequestParts,
    upgrade: WebSocketUpgrade,
    accepted: Option<Accepted<X>>,
    npay_bootstrap: bool,
    r: (UpgradeResponse, hyper::upgrade::OnUpgrade, UpgradeTask<DefaultOnFailedUpdgrade, X>),
    connection: U,
    action: UpgradeAction<U, E, DefaultOnFailedUpdgrade, X>,
)
    requires
        call_ensures(
            WebSocketUpgrade::from_request_parts,
            (parts,),
            Ok::<WebSocketUpgrade, WebSocketUpgradeRejection>(upgrade),
        ),
        call_ensures(
            WebSocketUpgrade::<DefaultOnFailedUpdgrade>::on_upgrade::<X>,
            (upgrade, accepted, npay_bootstrap),
            r,
        ),
        call_ensures(
            UpgradeTask::<DefaultOnFailedUpdgrade, X>::settle::<U, E>,
            (r.2, Ok::<U, E>(connection)),
            action,
        ),
    ensures
        ({
            let request = header_contents(old(parts).headers);
            let response = header_contents(r.0.headers);
            let digest = sha1_digest(
                request["sec-websocket-key"@][0] + encode_utf8(
                    "258EAFA5-E914-47DA-95CA-C5AB0DC85B11"@,
                ),
            );
            &&& r.0.status == 101
            &&& response.contains_pair(
                "sec-websocket-accept"@,
                seq![encode_utf8(base64_text(digest))],
            )
            &&& !response.contains_key("sec-websocket-protocol"@)
            &&& !response.contains_key("sec-websocket-extensions"@)
            &&& r.1 == old(parts).on_upgrade->0
        }),
        action is Open,
        action->upgraded == connection,
        action->config == (WebSocketConfig {
            write_buffer_size: 131072,
            max_write_buffer_size: usize::MAX,
            max_message_size: Some(67108864),
            max_frame_size: Some(16777216),
            accept_unmasked_frames: false,
            compression: false,
        }),
        action->extensions is None,
        action->protocol is None,
{
    let extracted: Result<WebSocketUpgrade, WebSocketUpgradeRejection> = Ok(upgrade);
    law_extracted_upgrade(parts, extracted);
    law_on_upgrade_confirms(upgrade, accepted, npay_bootstrap, r);
    law_on_upgrade_names_protocol(upgrade, accepted, npay_bootstrap, r);
    law_on_upgrade_names_extensions(upgrade, accepted, npay_bootstrap, r);
    law_settle(r.2, Ok::<U, E>(connection), action);
}

/// A server that knows some protocols names the first of them that the client offers in the first
/// `Sec-WebSocket-Protocol` header of the request, and the connection speaks it. It names none
/// where the client offers none of them, or nothing that is text.
pub proof fn law_handshake_with_protocols<X>(
    parts: &mut RequestParts,
    upgrade: WebSocketUpgrade,
    protocols: Vec<String>,
    chosen: WebSocketUpgrade,
    accepted: Option<Accepted<X>>,
    npay_bootstrap: bool,
    r: (UpgradeResponse, hyper::upgrade::OnUpgrade, UpgradeTask<DefaultOnFailedUpdgrade, X>),
)
    requires
        call_ensures(
            WebSocketUpgrade::from_request_parts,
            (parts,),
            Ok::<WebSocketUpgrade, WebSocketUpgradeRejection>(upgrade),
        ),
        call_ensures(
            WebSocketUpgrade::<DefaultOnFailedUpdgrade>::protocols,
            (upgrade, protocols),
            chosen,
        ),
        call_ensures(
            WebSocketUpgrade::<DefaultOnFailedUpdgrade>::on_upgrade::<X>,
            (chosen, accepted, npay_bootstrap),
            r,
        ),
    ensures
        ({
            let request = header_contents(old(parts).headers);
            let response = header_contents(r.0.headers);
            let offer = request["sec-websocket-protocol"@][0];
            let readable = request.contains_key("sec-websocket-protocol"@) && forall|i: int|
                0 <= i < offer.len() ==> (#[trigger] offer[i] == 9 || 32 <= offer[i] <= 126);
            match r.2.protocol {
                Some(protocol) => {
                    &&& readable
                    &&& response.contains_pair("sec-websocket-protocol"@, seq![protocol@])
                    &&& exists|i: int|
                        {
                            &&& 0 <= i < protocols@.len()
                            &&& encode_utf8((#[trigger] protocols@[i])@) == protocol@
                            &&& offers(offer, protocol@)
                            &&& forall|j: int|
                                0 <= j < i ==> !offers(
                                    offer,
                                    encode_utf8((#[trigger] protocols@[j])@),
                                )
                        }
                },
                None => {
                    &&& !response.contains_key("sec-websocket-protocol"@)
                    &&& readable ==> forall|j: int|
                        0 <= j < protocols@.len() ==> !offers(
                            offer,
                            encode_utf8((#[trigger] protocols@[j])@),
                        )
                },
            }
        }),
{
    let extracted: Result<WebSocketUpgrade, WebSocketUpgradeRejection> = Ok(upgrade);
    law_extracted_upgrade(parts, extracted);
    super::offer::law_protocols(upgrade, protocols, chosen);
    law_on_upgrade_names_protocol(chosen, accepted, npay_bootstrap, r);
}

/// A server that enables compression uses the extensions that were negotiated where the request
/// lists some, and the response then names them; a client that lists none gets none.
pub proof fn law_handshake_with_compression<X>(
    parts: &mut RequestParts,
    upgrade: WebSocketUpgrade,
    enabled: WebSocketUpgrade,
    accepted: Accepted<X>,
    npay_bootstrap: bool,
    r: (UpgradeResponse, hyper::upgrade::OnUpgrade, UpgradeTask<DefaultOnFailedUpdgrade, X>),
)
    requires
        accepted.header@.len() > 0,
        call_ensures(
            WebSocketUpgrade::from_request_parts,
            (parts,),
            Ok::<WebSocketUpgrade, WebSocketUpgradeRejection>(upgrade),
        ),
        call_ensures(
            WebSocketUpgrade::<DefaultOnFailedUpdgrade>::accept_compression,
            (upgrade, true),
            enabled,
        ),
        call_ensures(
            WebSocketUpgrade::<DefaultOnFailedUpdgrade>::on_upgrade::<X>,
            (enabled, Some(accepted), npay_bootstrap),
            r,
        ),
    ensures
        ({
            let request = header_contents(old(parts).headers);
            let response = header_contents(r.0.headers);
            let asked = request.contains_key("sec-websocket-extensions"@);
            &&& response.contains_key("sec-websocket-extensions"@) <==> asked
            &&& r.2.extensions == if asked {
                Some(accepted.extensions)
            } else {
                None
            }
        }),
        r.2.config.compression,
{
    let extracted: Result<WebSocketUpgrade, WebSocketUpgradeRejection> = Ok(upgrade);
    law_extracted_upgrade(parts, extracted);
    law_accept_compression(upgrade, true, enabled);
    law_on_upgrade_names_extensions(enabled, Some(accepted), npay_bootstrap, r);
}

} // verus!
