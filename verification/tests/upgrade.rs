use axum_tungstenite::accept::{challenge, digest_value, sign};
use axum_tungstenite::protocol::{offers_protocol, select_protocol};
use axum_tungstenite::{
    Accepted, FieldName, FieldValue, OnFailedUpdgrade, RequestParts, UpgradeAction,
    UpgradeResponse, UpgradeTask, WebSocket, WebSocketConfig, WebSocketUpgrade,
};
use base64::Engine;
use http::{HeaderMap, HeaderName, HeaderValue};
use sha1::Digest;

fn extract(extra: &[(&'static str, &[u8])]) -> WebSocketUpgrade {
    let mut headers = HeaderMap::new();
    headers.insert("connection", HeaderValue::from_static("upgrade"));
    headers.insert("upgrade", HeaderValue::from_static("websocket"));
    headers.insert("sec-websocket-version", HeaderValue::from_static("13"));
    headers.insert(
        "sec-websocket-key",
        HeaderValue::from_static("dGhlIHNhbXBsZSBub25jZQ=="),
    );
    for (name, value) in extra {
        headers.append(
            HeaderName::from_static(name),
            HeaderValue::from_bytes(value).unwrap(),
        );
    }
    let mut parts = RequestParts {
        method: "GET".to_string(),
        headers,
        on_upgrade: Some(hyper::upgrade::on(http::Request::new(()))),
    };
    assert!(parts.is_extractable());
    WebSocketUpgrade::from_request_parts(&mut parts).unwrap()
}

fn list(names: &[&str]) -> Vec<String> {
    names.iter().map(|name| name.to_string()).collect()
}

fn finish<C: OnFailedUpdgrade>(
    upgrade: WebSocketUpgrade<C>,
    npay_bootstrap: bool,
) -> (UpgradeResponse, UpgradeTask<C, u8>) {
    let (response, _, task) = upgrade.on_upgrade::<u8>(None, npay_bootstrap);
    (response, task)
}

fn chosen(header: &[u8], protocols: &[&str]) -> Option<String> {
    let upgrade = extract(&[("sec-websocket-protocol", header)]).protocols(list(protocols));
    let (response, task) = finish(upgrade, false);
    let named = response
        .headers
        .get("sec-websocket-protocol")
        .map(|value| value.to_str().unwrap().to_string());
    let kept = task
        .protocol
        .as_ref()
        .map(|value| String::from_utf8(value.as_bytes().to_vec()).unwrap());
    assert_eq!(named, kept);
    named
}

#[test]
fn signs_the_sample_nonce() {
    let value = sign(b"dGhlIHNhbXBsZSBub25jZQ==");
    assert_eq!(value.as_bytes(), b"s3pPLMBiTxaQ9kYGzzhZRbK+xOo=");
    assert_eq!(sign(b"").as_bytes().len(), 28);
    assert_eq!(
        challenge(b"key"),
        b"key258EAFA5-E914-47DA-95CA-C5AB0DC85B11".to_vec()
    );
}

#[test]
fn an_answer_stands_for_the_twenty_bytes_of_one_digest() {
    let keys: [&[u8]; 4] = [b"", b"key", b"\xff\x00", b"dGhlIHNhbXBsZSBub25jZQ=="];
    for key in keys {
        let value = sign(key);
        let bytes = value.as_bytes();
        assert_eq!(bytes.len(), 28);
        assert!(bytes[..27]
            .iter()
            .all(|b| b.is_ascii_alphanumeric() || *b == b'+' || *b == b'/'));
        assert_eq!(bytes[27], b'=');
        let digest = base64::engine::general_purpose::STANDARD.decode(bytes).unwrap();
        assert_eq!(digest, sha1::Sha1::digest(challenge(key)).to_vec());
        assert_eq!(digest.len(), 20);
    }
    assert_ne!(sign(b"a").as_bytes(), sign(b"b").as_bytes());
    assert_ne!(digest_value(b"a").as_bytes(), digest_value(b"a\0").as_bytes());
}

#[test]
fn the_response_confirms_the_upgrade() {
    let (response, _) = finish(extract(&[]), false);
    assert_eq!(response.status, 101);
    assert_eq!(response.headers.len(), 3);
    assert_eq!(response.headers.get("connection").unwrap(), "upgrade");
    assert_eq!(response.headers.get("upgrade").unwrap(), "websocket");
    assert_eq!(
        response.headers.get("sec-websocket-accept").unwrap(),
        "s3pPLMBiTxaQ9kYGzzhZRbK+xOo="
    );
}

#[test]
fn the_bootstrap_flag_is_sent_on_demand() {
    let (response, _) = finish(extract(&[]), true);
    assert_eq!(response.headers.get("x-npay-bootstrap").unwrap(), "1");
    assert_eq!(response.headers.len(), 4);
    let (response, _) = finish(extract(&[]), false);
    assert!(response.headers.get("x-npay-bootstrap").is_none());
}

#[test]
fn the_server_prefers_its_own_order() {
    assert_eq!(
        chosen(b"chat, superchat", &["superchat", "chat"]),
        Some("superchat".to_string())
    );
    assert_eq!(
        chosen(b"superchat, chat", &["superchat", "chat"]),
        Some("superchat".to_string())
    );
    assert_eq!(
        chosen(b"chat, superchat", &["mqtt", "chat"]),
        Some("chat".to_string())
    );
    assert_eq!(chosen(b"chat, superchat", &["mqtt"]), None);
    assert_eq!(chosen(b"chat, superchat", &[]), None);
}

#[test]
fn offers_are_trimmed_and_compared_whole() {
    assert_eq!(chosen(b"  \tchat\t ,b", &["chat"]), Some("chat".to_string()));
    assert_eq!(chosen(b"a b,c", &["a b"]), Some("a b".to_string()));
    assert_eq!(chosen(b"a,chat", &[" chat"]), None);
    assert_eq!(chosen(b"superchat", &["chat"]), None);
    assert_eq!(chosen(b"Chat", &["chat"]), None);
    assert_eq!(chosen(b"a,,b", &[""]), Some("".to_string()));
    assert_eq!(chosen(b"", &[""]), Some("".to_string()));
    assert_eq!(chosen(b"a,b", &[""]), None);
    assert_eq!(chosen(b"a,b,", &[""]), Some("".to_string()));
}

#[test]
fn only_the_first_protocol_header_counts() {
    let upgrade = extract(&[
        ("sec-websocket-protocol", b"a"),
        ("sec-websocket-protocol", b"b"),
    ]);
    assert!(finish(upgrade.protocols(list(&["b"])), false).1.protocol.is_none());
}

#[test]
fn unreadable_or_missing_offers_leave_the_choice_alone() {
    assert_eq!(chosen(b"chat\xe9", &["chat"]), None);
    assert_eq!(chosen("caf\u{e9}".as_bytes(), &["caf\u{e9}"]), None);
    let (response, task) = finish(extract(&[]).protocols(list(&["chat"])), false);
    assert!(task.protocol.is_none());
    assert!(response.headers.get("sec-websocket-protocol").is_none());
}

#[test]
fn the_last_list_of_protocols_decides() {
    let upgrade = extract(&[("sec-websocket-protocol", b"a, b")]);
    let upgrade = upgrade.protocols(list(&["a"])).protocols(list(&["b"]));
    let (response, _) = finish(upgrade, false);
    assert_eq!(response.headers.get("sec-websocket-protocol").unwrap(), "b");
    let upgrade = extract(&[("sec-websocket-protocol", b"a, b")]);
    let upgrade = upgrade.protocols(list(&["a"])).protocols(list(&["c"]));
    assert!(finish(upgrade, false).1.protocol.is_none());
}

#[test]
fn protocol_selection_finds_the_position() {
    assert!(offers_protocol(b"x , y", b"x"));
    assert!(offers_protocol(b"x , y", b"y"));
    assert!(!offers_protocol(b"x , y", b"x , y"));
    assert_eq!(select_protocol(b"x , y", &list(&["z", "y", "x"])), Some(1));
    assert_eq!(select_protocol(b"x , y", &list(&["z"])), None);
}

#[test]
fn defaults_are_those_of_tungstenite() {
    let config = extract(&[]).config();
    assert_eq!(config.write_buffer_size, 128 * 1024);
    assert_eq!(config.max_write_buffer_size, usize::MAX);
    assert_eq!(config.max_message_size, Some(64 << 20));
    assert_eq!(config.max_frame_size, Some(16 << 20));
    assert!(!config.accept_unmasked_frames);
    assert!(!config.compression);
    assert_eq!(WebSocketConfig::default().max_frame_size, Some(16 << 20));
}

#[test]
fn settings_reach_the_connection() {
    let upgrade = extract(&[])
        .write_buffer_size(1)
        .max_write_buffer_size(2)
        .max_message_size(3)
        .max_frame_size(4)
        .accept_unmasked_frames(true)
        .accept_compression(true)
        .on_failed_upgrade(|_: hyper::Error| {})
        .max_frame_size(5);
    let (_, task) = finish(upgrade, false);
    match task.settle::<&str, ()>(Ok("connection")) {
        UpgradeAction::Open {
            upgraded,
            config,
            extensions,
            protocol,
        } => {
            assert_eq!(upgraded, "connection");
            assert_eq!(config.write_buffer_size, 1);
            assert_eq!(config.max_write_buffer_size, 2);
            assert_eq!(config.max_message_size, Some(3));
            assert_eq!(config.max_frame_size, Some(5));
            assert!(config.accept_unmasked_frames);
            assert!(config.compression);
            assert!(extensions.is_none());
            assert!(protocol.is_none());
        }
        UpgradeAction::Fail { .. } => panic!("failed"),
    }
    assert!(!extract(&[]).accept_compression(true).accept_compression(false).config().compression);
}

#[test]
fn a_failed_upgrade_is_reported() {
    let (_, task) = finish(extract(&[]), false);
    match task.settle::<(), &str>(Err("gone")) {
        UpgradeAction::Open { .. } => panic!("opened"),
        UpgradeAction::Fail { error, .. } => assert_eq!(error, "gone"),
    }
}

#[test]
fn extensions_are_named_when_offered_and_accepted() {
    let offer: &[(&'static str, &[u8])] = &[
        ("sec-websocket-extensions", b"permessage-deflate"),
        ("sec-websocket-extensions", b"x-other"),
    ];
    let accepted = || {
        Some(Accepted {
            header: vec![
                FieldValue::from_bytes(b"permessage-deflate".to_vec()).unwrap(),
                FieldValue::from_bytes(b"x-more".to_vec()).unwrap(),
            ],
            extensions: 7u8,
        })
    };
    let upgrade = extract(offer).accept_compression(true);
    let offers = upgrade.offered_extensions().unwrap();
    assert_eq!(offers.len(), 2);
    assert_eq!(offers[0].as_bytes(), b"permessage-deflate");
    assert_eq!(offers[1].as_bytes(), b"x-other");
    let (response, _, task) = upgrade.on_upgrade(accepted(), false);
    let values: Vec<&HeaderValue> = response
        .headers
        .get_all("sec-websocket-extensions")
        .iter()
        .collect();
    assert_eq!(values, ["permessage-deflate", "x-more"]);
    assert_eq!(task.extensions, Some(7));

    let (response, _, task) = extract(offer)
        .accept_compression(true)
        .on_upgrade::<u8>(None, false);
    assert!(response.headers.get("sec-websocket-extensions").is_none());
    assert_eq!(task.extensions, None);

    let (response, _, task) = extract(&[])
        .accept_compression(true)
        .on_upgrade(accepted(), false);
    assert!(response.headers.get("sec-websocket-extensions").is_none());
    assert_eq!(task.extensions, None);
}

#[test]
fn without_compression_no_extension_is_accepted() {
    let offer: &[(&'static str, &[u8])] = &[("sec-websocket-extensions", b"permessage-deflate")];
    let accepted = || {
        Some(Accepted {
            header: vec![FieldValue::from_bytes(b"permessage-deflate".to_vec()).unwrap()],
            extensions: 7u8,
        })
    };
    for upgrade in [
        extract(offer),
        extract(offer).accept_compression(true).accept_compression(false),
        extract(offer).accept_compression(false).max_frame_size(1),
    ] {
        let (response, _, task) = upgrade.on_upgrade(accepted(), false);
        assert!(response.headers.get("sec-websocket-extensions").is_none());
        assert_eq!(task.extensions, None);
    }
    let (response, _, task) = extract(offer)
        .accept_compression(false)
        .accept_compression(true)
        .on_upgrade(accepted(), false);
    assert_eq!(response.headers["sec-websocket-extensions"], "permessage-deflate");
    assert_eq!(task.extensions, Some(7));
}

#[test]
fn offered_protocols_are_read_where_they_are_text() {
    let upgrade = extract(&[("sec-websocket-protocol", b"chat, mqtt")]);
    assert_eq!(upgrade.offered_protocols(), Some(&b"chat, mqtt"[..]));
    let upgrade = extract(&[("sec-websocket-protocol", b"")]);
    assert_eq!(upgrade.offered_protocols(), Some(&b""[..]));
    let upgrade = extract(&[("sec-websocket-protocol", b"ch\xffat")]);
    assert_eq!(upgrade.offered_protocols(), None);
    assert_eq!(extract(&[]).offered_protocols(), None);
}

#[test]
fn header_values_are_checked() {
    assert!(FieldValue::from_bytes(b"a\tb \xff".to_vec()).is_some());
    assert!(FieldValue::from_bytes(b"a\nb".to_vec()).is_none());
    assert!(FieldValue::from_bytes(vec![127]).is_none());
    let value = FieldValue::from_bytes(b"text".to_vec()).unwrap();
    assert_eq!(value.to_str(), Some(&b"text"[..]));
    assert_eq!(value.duplicate().as_bytes(), b"text");
    assert_eq!(FieldValue::from_bytes(vec![200]).unwrap().to_str(), None);
    assert_eq!(FieldName::SecWebSocketKey.as_str(), "sec-websocket-key");
}

#[test]
fn a_socket_keeps_its_stream_and_protocol() {
    let protocol = FieldValue::from_bytes(b"chat".to_vec());
    let mut socket = WebSocket::new(1u8, protocol);
    assert_eq!(socket.protocol().unwrap().as_bytes(), b"chat");
    *socket.get_mut() = 2;
    assert_eq!(socket.protocol().unwrap().as_bytes(), b"chat");
    assert_eq!(socket.into_inner(), 2);
    assert!(WebSocket::new((), None).protocol().is_none());
}

#[test]
fn digests_are_written_in_base64() {
    assert_eq!(digest_value(b"").as_bytes(), b"");
    assert_eq!(digest_value(b"f").as_bytes(), b"Zg==");
    assert_eq!(digest_value(b"fo").as_bytes(), b"Zm8=");
    assert_eq!(digest_value(b"foo").as_bytes(), b"Zm9v");
    assert_eq!(digest_value(b"foob").as_bytes(), b"Zm9vYg==");
    assert_eq!(digest_value(&[0xfb, 0xff, 0x00]).as_bytes(), b"+/8A");
}

#[test]
fn every_byte_is_judged_as_http_does() {
    for b in 0..=255u8 {
        let value = FieldValue::from_bytes(vec![b]);
        let http = HeaderValue::from_bytes(&[b]);
        assert_eq!(value.is_some(), http.is_ok());
        if let (Some(value), Ok(http)) = (value, http) {
            assert_eq!(value.to_str().is_some(), http.to_str().is_ok());
        }
    }
}

#[test]
fn listed_protocols_are_offered_and_no_others() {
    let header = b"graphql-ws, mqtt, v1.chat";
    assert!(offers_protocol(header, b"graphql-ws"));
    assert!(offers_protocol(header, b"mqtt"));
    assert!(offers_protocol(header, b"v1.chat"));
    assert!(!offers_protocol(header, b"chat"));
    assert!(!offers_protocol(header, b"mqtt, v1.chat"));
    assert!(!offers_protocol(header, b""));
}
