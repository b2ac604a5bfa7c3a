//! The upgrade of a request to a WebSocket connection.

use vstd::prelude::*;
use vstd::utf8::encode_utf8;

use crate::accept::{accept_value, sign, MAX_KEY_LEN};
use crate::config::WebSocketConfig;
use crate::failure::{DefaultOnFailedUpdgrade, OnFailedUpdgrade};
use crate::header::{
    header_append, header_contents, header_get, header_get_all, header_insert, header_map,
    header_remove,
};
use crate::header::{optional_view, value_byte, value_bytes, views, visible_byte, visible_bytes};
use crate::header::{Contents, FieldName, FieldValue};
use crate::protocol::{
    first_offered, lemma_first_offered, lemma_offered_visible, names, select_protocol,
};
use crate::rejection::WebSocketUpgradeRejection;
use crate::request::RequestParts;

verus! {

/// Extractor for establishing WebSocket connections.
#[derive(Debug)]
pub struct WebSocketUpgrade<F = DefaultOnFailedUpdgrade> {
    config: WebSocketConfig,
    /// The chosen protocol sent in the `Sec-WebSocket-Protocol` header of the response.
    protocol: Option<FieldValue>,
    sec_websocket_key: FieldValue,
    on_upgrade: hyper::upgrade::OnUpgrade,
    on_failed_upgrade: F,
    sec_websocket_protocol: Option<FieldValue>,
    sec_websocket_extensions: Option<Vec<FieldValue>>,
}

/// What an upgrade consists of.
pub struct UpgradeView<F> {
    /// The settings of the connection.
    pub config: WebSocketConfig,
    /// The protocol that was chosen.
    pub protocol: Option<Seq<u8>>,
    /// The key of the client.
    pub key: Seq<u8>,
    /// The connection of the request.
    pub on_upgrade: hyper::upgrade::OnUpgrade,
    /// What to do if the connection cannot be taken over.
    pub on_failed_upgrade: F,
    /// The protocols that the client offers.
    pub offered_protocols: Option<Seq<u8>>,
    /// The extensions that the client offers.
    pub offered_extensions: Option<Seq<Seq<u8>>>,
}

impl<F> View for WebSocketUpgrade<F> {
    type V = UpgradeView<F>;

    closed spec fn view(&self) -> UpgradeView<F> {
        UpgradeView {
            config: self.config,
            protocol: optional_view(self.protocol),
            key: self.sec_websocket_key@,
            on_upgrade: self.on_upgrade,
            on_failed_upgrade: self.on_failed_upgrade,
            offered_protocols: optional_view(self.sec_websocket_protocol),
            offered_extensions: match self.sec_websocket_extensions {
                Some(values) => Some(views(values@)),
                None => None,
            },
        }
    }
}

/// The response that completes the opening handshake.
pub struct UpgradeResponse {
    /// The status code.
    pub status: u16,
    /// The response headers.
    pub headers: http::HeaderMap,
}

/// The outcome of a negotiation of extensions.
pub struct Accepted<X> {
    /// The values of the `Sec-WebSocket-Extensions` header of the response. A negotiation that
    /// accepts extensions names them, so this is not empty.
    pub header: Vec<FieldValue>,
    /// The extensions as the connection applies them.
    pub extensions: X,
}

/// What is left to do once the connection of the request has been handed over.
pub struct UpgradeTask<C, X> {
    /// The settings of the connection.
    pub config: WebSocketConfig,
    /// The protocol that was chosen.
    pub protocol: Option<FieldValue>,
    /// The extensions that were accepted.
    pub extensions: Option<X>,
    /// What to do if the connection cannot be taken over.
    pub on_failed_upgrade: C,
}

/// The next step of an upgrade.
pub enum UpgradeAction<U, E, C, X> {
    /// Speak the WebSocket protocol on a connection.
    Open {
        /// The connection.
        upgraded: U,
        /// The settings of the connection.
        config: WebSocketConfig,
        /// The extensions that were accepted.
        extensions: Option<X>,
        /// The protocol that was chosen.
        protocol: Option<FieldValue>,
    },
    /// Report that the connection could not be taken over.
    Fail {
        /// What to call.
        on_failed_upgrade: C,
        /// The error to call it with.
        error: E,
    },
}

/// The headers of the response that completes the opening handshake.
pub open spec fn response_headers(
    key: Seq<u8>,
    protocol: Option<Seq<u8>>,
    extensions: Seq<Seq<u8>>,
    npay_bootstrap: bool,
) -> Contents {
    let headers = Contents::empty()
        .insert(FieldName::Connection@, seq![encode_utf8("upgrade"@)])
        .insert(FieldName::Upgrade@, seq![encode_utf8("websocket"@)])
        .insert(FieldName::SecWebSocketAccept@, seq![accept_value(key)]);
    let headers = match protocol {
        Some(protocol) => headers.insert(FieldName::SecWebSocketProtocol@, seq![protocol]),
        None => headers,
    };
    let headers = if extensions.len() > 0 {
        headers.insert(FieldName::SecWebSocketExtensions@, extensions)
    } else {
        headers
    };
    if npay_bootstrap {
        headers.insert(FieldName::XNpayBootstrap@, seq![encode_utf8("1"@)])
    } else {
        headers
    }
}

/// The negotiated extensions that count: none, unless the client offers some and compression is
/// enabled, which no extension is accepted without.
pub open spec fn effective<F, X>(upgrade: UpgradeView<F>, accepted: Option<Accepted<X>>) -> Option<
    Accepted<X>,
> {
    if upgrade.offered_extensions is Some && upgrade.config.compression {
        accepted
    } else {
        None
    }
}

/// The values of the `Sec-WebSocket-Extensions` header that stand for negotiated extensions.
pub open spec fn extension_values<X>(accepted: Option<Accepted<X>>) -> Seq<Seq<u8>> {
    match accepted {
        Some(accepted) => views(accepted.header@),
        None => Seq::empty(),
    }
}

/// The protocol that is chosen from `protocols`: the first that the client offers. Where the
/// client offers none in readable form, the choice made before stays.
pub open spec fn chosen_protocol<F>(upgrade: UpgradeView<F>, protocols: Seq<Seq<u8>>) -> Option<
    Seq<u8>,
> {
    match upgrade.offered_protocols {
        Some(header) => if visible_bytes(header) {
            first_offered(header, protocols)
        } else {
            upgrade.protocol
        },
        None => upgrade.protocol,
    }
}

/// Gives a header the values that it has in `values`, if there are any.
fn insert_all(map: &mut http::HeaderMap, name: &'static str, values: &Vec<FieldValue>)
    requires
        crate::header::canonical_name(name@),
        header_contents(*old(map)).dom().finite(),
        header_contents(*old(map)).dom().len() < 2048,
    ensures
        header_contents(*final(map)) == if values@.len() > 0 {
            header_contents(*old(map)).insert(name@, views(values@))
        } else {
            header_contents(*old(map))
        },
{
    if values.len() == 0 {
        return;
    }
    header_insert(map, name, values[0].duplicate());
    let mut i: usize = 1;
    assert(views(values@.take(1)) =~= seq![values@[0]@]);
    while i < values.len()
        invariant
            1 <= i <= values.len(),
            crate::header::canonical_name(name@),
            header_contents(*old(map)).dom().finite(),
            header_contents(*old(map)).dom().len() < 2048,
            header_contents(*map) =~= header_contents(*old(map)).insert(
                name@,
                views(values@.take(i as int)),
            ),
        decreases values.len() - i,
    {
        header_append(map, name, values[i].duplicate());
        assert(views(values@.take(i + 1)) =~= views(values@.take(i as int)).push(
            values@[i as int]@,
        ));
        i += 1;
    }
    assert(values@.take(i as int) =~= values@);
}

/// The same optional value once more.
fn duplicate(value: &Option<FieldValue>) -> (r: Option<FieldValue>)
    ensures
        optional_view(r) == optional_view(*value),
{
    match value {
        Some(value) => Some(value.duplicate()),
        None => None,
    }
}

proof fn lemma_visible_is_value(bytes: Seq<u8>)
    requires
        visible_bytes(bytes),
    ensures
        value_bytes(bytes),
{
    assert forall|i: int| 0 <= i < bytes.len() implies value_byte(#[trigger] bytes[i]) by {
        assert(visible_byte(bytes[i]));
    }
}

proof fn lemma_literals_visible()
    ensures
        visible_bytes(encode_utf8("upgrade"@)),
        visible_bytes(encode_utf8("websocket"@)),
        visible_bytes(encode_utf8("1"@)),
{
    reveal_strlit("upgrade");
    reveal_strlit("websocket");
    reveal_strlit("1");
    vstd::utf8::is_ascii_chars_encode_utf8("upgrade"@);
    vstd::utf8::is_ascii_chars_encode_utf8("websocket"@);
    vstd::utf8::is_ascii_chars_encode_utf8("1"@);
}

impl<C> WebSocketUpgrade<C> {
    #[verifier::type_invariant]
    spec fn well_formed(self) -> bool {
        self.sec_websocket_key@.len() <= MAX_KEY_LEN
    }

    /// The target minimum size of the write buffer to reach before writing the data
    /// to the underlying stream.
    ///
    /// The default value is 128 KiB.
    ///
    /// If set to `0` each message will be eagerly written to the underlying stream.
    /// It is often more optimal to allow them to buffer a little, hence the default value.
    pub fn write_buffer_size(self, size: usize) -> (r: Self)
        ensures
            r@ == (UpgradeView {
                config: WebSocketConfig { write_buffer_size: size, ..self@.config },
                ..self@
            }),
    {
        proof {
            use_type_invariant(&self);
        }
        let mut upgrade = self;
        upgrade.config.write_buffer_size = size;
        upgrade
    }

    /// The max size of the write buffer in bytes. Setting this can provide backpressure
    /// in the case the write buffer is filling up due to write errors.
    ///
    /// The default value is unlimited.
    ///
    /// Note: Should always be at least [`write_buffer_size + 1 message`](Self::write_buffer_size)
    /// and probably a little more depending on error handling strategy.
    pub fn max_write_buffer_size(self, max: usize) -> (r: Self)
        ensures
            r@ == (UpgradeView {
                config: WebSocketConfig { max_write_buffer_size: max, ..self@.config },
                ..self@
            }),
    {
        proof {
            use_type_invariant(&self);
        }
        let mut upgrade = self;
        upgrade.config.max_write_buffer_size = max;
        upgrade
    }

    /// Set the maximum message size (defaults to 64 megabytes)
    pub fn max_message_size(self, max: usize) -> (r: Self)
        ensures
            r@ == (UpgradeView {
                config: WebSocketConfig { max_message_size: Some(max), ..self@.config },
                ..self@
            }),
    {
        proof {
            use_type_invariant(&self);
        }
        let mut upgrade = self;
        upgrade.config.max_message_size = Some(max);
        upgrade
    }

    /// Set the maximum frame size (defaults to 16 megabytes)
    pub fn max_frame_size(self, max: usize) -> (r: Self)
        ensures
            r@ == (UpgradeView {
                config: WebSocketConfig { max_frame_size: Some(max), ..self@.config },
                ..self@
            }),
    {
        proof {
            use_type_invariant(&self);
        }
        let mut upgrade = self;
        upgrade.config.max_frame_size = Some(max);
        upgrade
    }

    /// Allow server to accept unmasked frames (defaults to false)
    pub fn accept_unmasked_frames(self, accept: bool) -> (r: Self)
        ensures
            r@ == (UpgradeView {
                config: WebSocketConfig { accept_unmasked_frames: accept, ..self@.config },
                ..self@
            }),
    {
        proof {
            use_type_invariant(&self);
        }
        let mut upgrade = self;
        upgrade.config.accept_unmasked_frames = accept;
        upgrade
    }

    /// Enable compression
    ///
    /// While compression is not enabled, no extension is accepted.
    pub fn accept_compression(self, enable: bool) -> (r: Self)
        ensures
            r@ == (UpgradeView {
                config: WebSocketConfig { compression: enable, ..self@.config },
                ..self@
            }),
    {
        proof {
            use_type_invariant(&self);
        }
        let mut upgrade = self;
        upgrade.config.compression = enable;
        upgrade
    }

    /// Set the known protocols.
    ///
    /// If the protocol name specified by `Sec-WebSocket-Protocol` header
    /// to match any of them, the upgrade response will include `Sec-WebSocket-Protocol` header and
    /// return the protocol name.
    ///
    /// The protocols should be listed in decreasing order of preference: if the client offers
    /// multiple protocols that the server could support, the server will pick the first one in
    /// this list.
    pub fn protocols(self, protocols: Vec<String>) -> (r: Self)
        ensures
            r@ == (UpgradeView { protocol: chosen_protocol(self@, names(protocols@)), ..self@ }),
    {
        proof {
            use_type_invariant(&self);
        }
        let mut protocol: Option<FieldValue> = None;
        if let Some(header) = &self.sec_websocket_protocol {
            if let Some(req_protocols) = header.to_str() {
                match select_protocol(req_protocols, &protocols) {
                    Some(i) => {
                        proof {
                            lemma_first_offered(req_protocols@, names(protocols@), i as int);
                            lemma_offered_visible(req_protocols@, names(protocols@)[i as int]);
                            lemma_visible_is_value(names(protocols@)[i as int]);
                        }
                        protocol = Some(FieldValue::from_str(protocols[i].as_str()).unwrap());
                    },
                    None => {
                        proof {
                            lemma_first_offered(
                                req_protocols@,
                                names(protocols@),
                                protocols@.len() as int,
                            );
                        }
                    },
                }
            } else {
                return self;
            }
        } else {
            return self;
        }
        let mut upgrade = self;
        upgrade.protocol = protocol;
        upgrade
    }

    /// The protocols that the client offers, where the header that lists them is text.
    pub fn offered_protocols(&self) -> (r: Option<&[u8]>)
        ensures
            r is Some <==> (self@.offered_protocols matches Some(header) && visible_bytes(header)),
            r matches Some(text) ==> self@.offered_protocols == Some(text@),
    {
        match &self.sec_websocket_protocol {
            Some(header) => header.to_str(),
            None => None,
        }
    }

    /// The settings of the connection.
    pub fn config(&self) -> (r: WebSocketConfig)
        ensures
            r == self@.config,
    {
        self.config
    }

    /// The values of the `Sec-WebSocket-Extensions` header of the request.
    pub fn offered_extensions(&self) -> (r: Option<&Vec<FieldValue>>)
        ensures
            r is Some <==> self@.offered_extensions is Some,
            r matches Some(values) ==> views(values@) == self@.offered_extensions->0,
    {
        self.sec_websocket_extensions.as_ref()
    }

    /// Finalize upgrading the connection.
    ///
    /// The response should be returned from the handler. Once the connection has been handed
    /// over, [`UpgradeTask::settle`] says what to do with it.
    ///
    /// `accepted` is what a negotiation of the [extensions on offer](Self::offered_extensions)
    /// came to. It counts only while [compression](Self::accept_compression) is enabled.
    pub fn on_upgrade<X>(self, accepted: Option<Accepted<X>>, npay_bootstrap: bool) -> (r: (
        UpgradeResponse,
        hyper::upgrade::OnUpgrade,
        UpgradeTask<C, X>,
    )) where C: OnFailedUpdgrade
        ensures
            r.0.status == 101,
            header_contents(r.0.headers) == response_headers(
                self@.key,
                self@.protocol,
                extension_values(effective(self@, accepted)),
                npay_bootstrap,
            ),
            r.1 == self@.on_upgrade,
            r.2.config == self@.config,
            optional_view(r.2.protocol) == self@.protocol,
            r.2.extensions == match effective(self@, accepted) {
                Some(accepted) => Some(accepted.extensions),
                None => None,
            },
            r.2.on_failed_upgrade == self@.on_failed_upgrade,
    {
        proof {
            use_type_invariant(&self);
            lemma_literals_visible();
        }
        let protocol = duplicate(&self.protocol);
        let accepted = if self.sec_websocket_extensions.is_some() && self.config.compression {
            accepted
        } else {
            None
        };

        let mut headers = header_map();
        header_insert(
            &mut headers,
            FieldName::Connection.as_str(),
            FieldValue::from_static("upgrade"),
        );
        header_insert(
            &mut headers,
            FieldName::Upgrade.as_str(),
            FieldValue::from_static("websocket"),
        );
        header_insert(
            &mut headers,
            FieldName::SecWebSocketAccept.as_str(),
            sign(self.sec_websocket_key.as_bytes()),
        );
        if let Some(protocol) = self.protocol {
            header_insert(&mut headers, FieldName::SecWebSocketProtocol.as_str(), protocol);
        }
        let extensions = match accepted {
            Some(accepted) => {
                insert_all(
                    &mut headers,
                    FieldName::SecWebSocketExtensions.as_str(),
                    &accepted.header,
                );
                Some(accepted.extensions)
            },
            None => None,
        };
        if npay_bootstrap {
            header_insert(
                &mut headers,
                FieldName::XNpayBootstrap.as_str(),
                FieldValue::from_static("1"),
            );
        }
        let task = UpgradeTask {
            config: self.config,
            protocol,
            extensions,
            on_failed_upgrade: self.on_failed_upgrade,
        };
        (UpgradeResponse { status: 101, headers }, self.on_upgrade, task)
    }

    /// Provide a callback to call if upgrading the connection fails.
    ///
    /// The connection upgrade is performed in a background task. If that fails this callback
    /// will be called.
    ///
    /// By default any errors will be silently ignored.
    pub fn on_failed_upgrade<C2>(self, callback: C2) -> (r: WebSocketUpgrade<C2>) where
        C2: OnFailedUpdgrade,

        ensures
            r@ == (UpgradeView {
                config: self@.config,
                protocol: self@.protocol,
                key: self@.key,
                on_upgrade: self@.on_upgrade,
                on_failed_upgrade: callback,
                offered_protocols: self@.offered_protocols,
                offered_extensions: self@.offered_extensions,
            }),
    {
        proof {
            use_type_invariant(&self);
        }
        WebSocketUpgrade {
            config: self.config,
            protocol: self.protocol,
            sec_websocket_key: self.sec_websocket_key,
            on_upgrade: self.on_upgrade,
            on_failed_upgrade: callback,
            sec_websocket_protocol: self.sec_websocket_protocol,
            sec_websocket_extensions: self.sec_websocket_extensions,
        }
    }
}

/// The upgrade that a request asks for.
pub open spec fn extracted(parts: RequestParts) -> UpgradeView<DefaultOnFailedUpdgrade> {
    UpgradeView {
        config: WebSocketConfig::spec_default(),
        protocol: None,
        key: parts.key(),
        on_upgrade: parts.on_upgrade->0,
        on_failed_upgrade: DefaultOnFailedUpdgrade,
        offered_protocols: if parts.contents().contains_key(FieldName::SecWebSocketProtocol@) {
            Some(parts.contents()[FieldName::SecWebSocketProtocol@][0])
        } else {
            None
        },
        offered_extensions: if parts.contents().contains_key(FieldName::SecWebSocketExtensions@) {
            Some(parts.contents()[FieldName::SecWebSocketExtensions@])
        } else {
            None
        },
    }
}

impl WebSocketUpgrade {
    /// Take the upgrade out of a request that asks for one, with the key and the connection of
    /// the request. A request that does not is left as it is.
    pub fn from_request_parts(parts: &mut RequestParts) -> (r: Result<
        Self,
        WebSocketUpgradeRejection,
    >)
        requires
            old(parts).extractable(),
        ensures
            r is Ok <==> old(parts).rejection() is None,
            r matches Err(rejection) ==> Some(rejection) == old(parts).rejection() && *final(parts)
                == *old(parts),
            r matches Ok(upgrade) ==> upgrade@ == extracted(*old(parts)),
            r is Ok ==> final(parts).method == old(parts).method && final(parts).contents()
                == old(parts).contents().remove(FieldName::SecWebSocketKey@)
                && final(parts).on_upgrade is None,
    {
        match parts.check() {
            Err(rejection) => {
                return Err(rejection);
            },
            Ok(_) => {},
        }
        let sec_websocket_key = header_remove(
            &mut parts.headers,
            FieldName::SecWebSocketKey.as_str(),
        ).unwrap();
        let on_upgrade = parts.on_upgrade.take().unwrap();
        proof {
            FieldName::lemma_distinct(
                FieldName::SecWebSocketKey,
                FieldName::SecWebSocketProtocol,
            );
            FieldName::lemma_distinct(
                FieldName::SecWebSocketKey,
                FieldName::SecWebSocketExtensions,
            );
        }
        let sec_websocket_protocol = header_get(
            &parts.headers,
            FieldName::SecWebSocketProtocol.as_str(),
        );
        let extensions = header_get_all(
            &parts.headers,
            FieldName::SecWebSocketExtensions.as_str(),
        );
        let sec_websocket_extensions = if extensions.len() > 0 {
            Some(extensions)
        } else {
            None
        };
        Ok(
            WebSocketUpgrade {
                config: WebSocketConfig::default(),
                protocol: None,
                sec_websocket_key,
                on_upgrade,
                on_failed_upgrade: DefaultOnFailedUpdgrade,
                sec_websocket_protocol,
                sec_websocket_extensions,
            },
        )
    }
}

impl<C, X> UpgradeTask<C, X> {
    /// What to do once it is known whether the connection has been handed over.
    pub fn settle<U, E>(self, outcome: Result<U, E>) -> (r: UpgradeAction<U, E, C, X>)
        ensures
            r == (match outcome {
                Ok(upgraded) => UpgradeAction::Open {
                    upgraded,
                    config: self.config,
                    extensions: self.extensions,
                    protocol: self.protocol,
                },
                Err(error) => UpgradeAction::Fail {
                    on_failed_upgrade: self.on_failed_upgrade,
                    error,
                },
            }),
    {
        match outcome {
            Ok(upgraded) => UpgradeAction::Open {
                upgraded,
                config: self.config,
                extensions: self.extensions,
                protocol: self.protocol,
            },
            Err(error) => UpgradeAction::Fail { on_failed_upgrade: self.on_failed_upgrade, error },
        }
    }
}

} // verus!
