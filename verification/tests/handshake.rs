use axum_tungstenite::rejection::WebSocketUpgradeRejection;
use axum_tungstenite::request::{header_contains, header_eq};
use axum_tungstenite::{FieldName, RequestParts, WebSocketUpgrade};
use http::{HeaderMap, HeaderName, HeaderValue};

fn parts(method: &str, headers: &[(&'static str, &[u8])]) -> RequestParts {
    let mut map = HeaderMap::new();
    for (name, value) in headers {
        map.append(
            HeaderName::from_static(name),
            HeaderValue::from_bytes(value).unwrap(),
        );
    }
    RequestParts {
        method: method.to_string(),
        headers: map,
        on_upgrade: Some(hyper::upgrade::on(http::Request::new(()))),
    }
}

const KEY: &[u8] = b"dGhlIHNhbXBsZSBub25jZQ==";

fn good() -> RequestParts {
    parts(
        "GET",
        &[
            ("connection", b"Upgrade"),
            ("upgrade", b"websocket"),
            ("sec-websocket-version", b"13"),
            ("sec-websocket-key", KEY),
        ],
    )
}

fn rejection(mut parts: RequestParts) -> (u16, String) {
    assert!(parts.is_extractable());
    let headers = parts.headers.clone();
    let rejection = match WebSocketUpgrade::from_request_parts(&mut parts) {
        Ok(_) => panic!("accepted"),
        Err(rejection) => rejection,
    };
    assert_eq!(parts.headers, headers);
    assert!(parts.on_upgrade.is_some());
    let message = rejection.message().to_string();
    let response = rejection.into_response();
    assert_eq!(response.body, message);
    (response.status, message)
}

#[test]
fn accepts_a_complete_request() {
    let mut parts = good();
    assert!(parts.check().is_ok());
    assert!(parts.is_extractable());
    let upgrade = WebSocketUpgrade::from_request_parts(&mut parts).unwrap();
    assert!(upgrade.offered_extensions().is_none());
    assert_eq!(parts.method, "GET");
    assert_eq!(parts.headers.get("sec-websocket-key"), None);
    assert_eq!(parts.headers.get("upgrade").unwrap(), "websocket");
    assert_eq!(parts.headers.len(), 3);
    assert!(parts.on_upgrade.is_none());
}

#[test]
fn rejects_other_methods() {
    let mut parts = good();
    parts.method = "POST".to_string();
    assert_eq!(
        rejection(parts),
        (405, "Request method must be `GET`".to_string())
    );
    let mut parts = good();
    parts.method = "get".to_string();
    assert_eq!(rejection(parts).0, 405);
}

#[test]
fn rejects_a_connection_header_without_upgrade() {
    let mut parts = good();
    parts
        .headers
        .insert("connection", HeaderValue::from_static("keep-alive"));
    assert_eq!(
        rejection(parts),
        (400, "Connection header did not include 'upgrade'".to_string())
    );
    let mut parts = good();
    parts.headers.remove("connection");
    assert!(matches!(
        parts.check(),
        Err(WebSocketUpgradeRejection::InvalidConnectionHeader(_))
    ));
}

#[test]
fn rejects_another_upgrade() {
    let mut parts = good();
    parts
        .headers
        .insert("upgrade", HeaderValue::from_static("websocket2"));
    assert_eq!(
        rejection(parts),
        (400, "`Upgrade` header did not include 'websocket'".to_string())
    );
}

#[test]
fn rejects_another_version() {
    let mut parts = good();
    parts
        .headers
        .insert("sec-websocket-version", HeaderValue::from_static("8"));
    assert_eq!(
        rejection(parts),
        (
            400,
            "`Sec-WebSocket-Version` header did not include '13'".to_string()
        )
    );
}

#[test]
fn rejects_a_missing_key() {
    let mut parts = good();
    parts.headers.remove("sec-websocket-key");
    assert_eq!(
        rejection(parts),
        (400, "`Sec-WebSocket-Key` header missing".to_string())
    );
}

#[test]
fn reports_the_first_requirement_that_fails() {
    assert_eq!(rejection(parts("POST", &[])).0, 405);
    assert!(matches!(
        parts("GET", &[]).check(),
        Err(WebSocketUpgradeRejection::InvalidConnectionHeader(_))
    ));
    assert!(matches!(
        parts("GET", &[("connection", b"upgrade")]).check(),
        Err(WebSocketUpgradeRejection::InvalidUpgradeHeader(_))
    ));
    assert!(matches!(
        parts("GET", &[("connection", b"upgrade"), ("upgrade", b"websocket")]).check(),
        Err(WebSocketUpgradeRejection::InvalidWebSocketVersionHeader(_))
    ));
    assert!(matches!(
        parts(
            "GET",
            &[
                ("connection", b"upgrade"),
                ("upgrade", b"websocket"),
                ("sec-websocket-version", b"13")
            ]
        )
        .check(),
        Err(WebSocketUpgradeRejection::WebSocketKeyHeaderMissing(_))
    ));
}

#[test]
fn the_letter_case_of_headers_does_not_matter() {
    let mut parts = good();
    parts
        .headers
        .insert("connection", HeaderValue::from_static("keep-alive, UPGRADE"));
    parts
        .headers
        .insert("upgrade", HeaderValue::from_static("WebSocket"));
    assert!(parts.check().is_ok());
}

#[test]
fn requests_that_lack_a_header_are_rejected_alike_in_any_letter_case() {
    let lower = parts("GET", &[("upgrade", b"websocket"), ("sec-websocket-version", b"13")]);
    let upper = parts("GET", &[("upgrade", b"WEBSOCKET"), ("sec-websocket-version", b"13")]);
    for parts in [lower, upper] {
        assert!(matches!(
            parts.check(),
            Err(WebSocketUpgradeRejection::InvalidConnectionHeader(_))
        ));
    }
}

#[test]
fn the_key_serves_one_upgrade() {
    let mut parts = good();
    assert!(WebSocketUpgrade::from_request_parts(&mut parts).is_ok());
    assert!(parts.is_extractable());
    assert!(matches!(
        WebSocketUpgrade::from_request_parts(&mut parts),
        Err(WebSocketUpgradeRejection::WebSocketKeyHeaderMissing(_))
    ));
}

#[test]
fn a_request_without_connection_is_extractable_only_if_rejected() {
    let mut parts = good();
    parts.on_upgrade = None;
    assert!(!parts.is_extractable());
    parts.method = "PUT".to_string();
    assert!(parts.is_extractable());
}

#[test]
fn header_eq_looks_at_the_whole_first_value() {
    let p = parts("GET", &[("upgrade", b"WebSocket"), ("upgrade", b"h2c")]);
    assert!(header_eq(&p, FieldName::Upgrade, "websocket"));
    assert!(header_eq(&p, FieldName::Upgrade, "WEBSOCKET"));
    assert!(!header_eq(&p, FieldName::Upgrade, "h2c"));
    assert!(!header_eq(&p, FieldName::Upgrade, "web"));
    assert!(!header_eq(&p, FieldName::Upgrade, "websockets"));
    assert!(!header_eq(&p, FieldName::Connection, ""));
    let p = parts("GET", &[("upgrade", b"a@[")]);
    assert!(!header_eq(&p, FieldName::Upgrade, "a`{"));
    let p = parts("GET", &[("upgrade", b"")]);
    assert!(header_eq(&p, FieldName::Upgrade, ""));
}

#[test]
fn header_contains_looks_anywhere_in_the_first_value() {
    let p = parts(
        "GET",
        &[("connection", b"keep-alive, notUPGRADEd"), ("connection", b"close")],
    );
    assert!(header_contains(&p, FieldName::Connection, "upgrade"));
    assert!(header_contains(&p, FieldName::Connection, "keep-alive"));
    assert!(header_contains(&p, FieldName::Connection, ""));
    assert!(!header_contains(&p, FieldName::Connection, "UPGRADE"));
    assert!(!header_contains(&p, FieldName::Connection, "close"));
    assert!(!header_contains(&p, FieldName::Upgrade, ""));
    let p = parts("GET", &[("connection", b"up")]);
    assert!(!header_contains(&p, FieldName::Connection, "upgrade"));
}

#[test]
fn header_contains_asks_for_utf8() {
    let p = parts("GET", &[("connection", b"upgrade \xff")]);
    assert!(!header_contains(&p, FieldName::Connection, "upgrade"));
    let p = parts("GET", &[("connection", "\u{c9}t\u{e9} Upgrade".as_bytes())]);
    assert!(header_contains(&p, FieldName::Connection, "upgrade"));
    assert!(header_contains(&p, FieldName::Connection, "\u{c9}t\u{e9} up"));
    assert!(!header_contains(&p, FieldName::Connection, "\u{e9}t\u{e9}"));
}

#[test]
fn upgrade_may_stand_among_other_connection_options() {
    for value in ["Upgrade, keep-alive", "keep-alive, uPGRADE", "close,upgrade,te"] {
        let mut parts = good();
        parts
            .headers
            .insert("connection", HeaderValue::from_static(value));
        assert!(parts.check().is_ok());
    }
}
