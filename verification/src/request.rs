//! The request that asks for an upgrade.

use vstd::prelude::*;
use vstd::utf8::{decode_utf8, encode_utf8, valid_utf8};

use crate::accept::MAX_KEY_LEN;
use crate::header::{header_contents, header_get};
use crate::header::{Contents, FieldName};
use crate::rejection::{
    InvalidConnectionHeader, InvalidUpgradeHeader, InvalidWebSocketVersionHeader, MethodNotGet,
    WebSocketKeyHeaderMissing, WebSocketUpgradeRejection,
};
use crate::text::{bytes_eq, chars_of, contains_text, eq_ignore_ascii_case, lower_chars, utf8_text};
use crate::text::{lower_bytes, lower_text, occurs_in};

verus! {

/// The connection of a request, once hyper hands it over.
#[verifier::external_type_specification]
#[verifier::external_body]
pub struct ExOnUpgrade(hyper::upgrade::OnUpgrade);

/// The connection that an [`OnUpgrade`](hyper::upgrade::OnUpgrade) resolves to, the output of its
/// `Future` impl.
#[verifier::external_type_specification]
#[verifier::external_body]
pub struct ExUpgraded(hyper::upgrade::Upgraded);

/// The parts of a request that decide about an upgrade.
pub struct RequestParts {
    /// The request method.
    pub method: String,
    /// The request headers.
    pub headers: http::HeaderMap,
    /// The connection of the request, where the server can hand it over.
    pub on_upgrade: Option<hyper::upgrade::OnUpgrade>,
}

/// The first value of the header `name` is `value`, up to the case of ASCII letters.
pub open spec fn header_is(headers: Contents, name: Seq<char>, value: Seq<char>) -> bool {
    headers.contains_key(name) && lower_bytes(headers[name][0]) == lower_bytes(encode_utf8(value))
}

/// The first value of the header `name` is UTF-8, and `value` stands in its lower case form.
pub open spec fn header_includes(headers: Contents, name: Seq<char>, value: Seq<char>) -> bool {
    headers.contains_key(name) && valid_utf8(headers[name][0]) && occurs_in(
        value,
        lower_text(decode_utf8(headers[name][0])),
    )
}

impl RequestParts {
    /// What the request headers hold.
    pub open spec fn contents(self) -> Contents {
        header_contents(self.headers)
    }

    /// Why the request cannot be upgraded: the first requirement that it does not meet.
    pub open spec fn rejection(self) -> Option<WebSocketUpgradeRejection> {
        if self.method@ != "GET"@ {
            Some(WebSocketUpgradeRejection::MethodNotGet(MethodNotGet))
        } else if !header_includes(self.contents(), FieldName::Connection@, "upgrade"@) {
            Some(WebSocketUpgradeRejection::InvalidConnectionHeader(InvalidConnectionHeader))
        } else if !header_is(self.contents(), FieldName::Upgrade@, "websocket"@) {
            Some(WebSocketUpgradeRejection::InvalidUpgradeHeader(InvalidUpgradeHeader))
        } else if !header_is(self.contents(), FieldName::SecWebSocketVersion@, "13"@) {
            Some(
                WebSocketUpgradeRejection::InvalidWebSocketVersionHeader(
                    InvalidWebSocketVersionHeader,
                ),
            )
        } else if !self.contents().contains_key(FieldName::SecWebSocketKey@) {
            Some(WebSocketUpgradeRejection::WebSocketKeyHeaderMissing(WebSocketKeyHeaderMissing))
        } else {
            None
        }
    }

    /// The key of the client.
    pub open spec fn key(self) -> Seq<u8> {
        self.contents()[FieldName::SecWebSocketKey@][0]
    }

    /// A request that is not rejected comes with a connection that can be handed over, and with a
    /// key that can be answered.
    pub open spec fn extractable(self) -> bool {
        self.rejection() is None ==> self.on_upgrade is Some && self.key().len() <= MAX_KEY_LEN
    }

    /// Whether the request meets every requirement of an upgrade; if not, the first that it does
    /// not meet.
    pub fn check(&self) -> (r: Result<(), WebSocketUpgradeRejection>)
        ensures
            r == match self.rejection() {
                Some(rejection) => Err::<(), WebSocketUpgradeRejection>(rejection),
                None => Ok(()),
            },
    {
        if !method_is_get(&self.method) {
            return Err(WebSocketUpgradeRejection::from(MethodNotGet));
        }
        if !header_contains(self, FieldName::Connection, "upgrade") {
            return Err(WebSocketUpgradeRejection::from(InvalidConnectionHeader));
        }
        if !header_eq(self, FieldName::Upgrade, "websocket") {
            return Err(WebSocketUpgradeRejection::from(InvalidUpgradeHeader));
        }
        if !header_eq(self, FieldName::SecWebSocketVersion, "13") {
            return Err(WebSocketUpgradeRejection::from(InvalidWebSocketVersionHeader));
        }
        if header_get(&self.headers, FieldName::SecWebSocketKey.as_str()).is_none() {
            return Err(WebSocketUpgradeRejection::from(WebSocketKeyHeaderMissing));
        }
        Ok(())
    }

    /// Whether an upgrade can be extracted from the request or the request is rejected.
    pub fn is_extractable(&self) -> (r: bool)
        ensures
            r == self.extractable(),
    {
        match self.check() {
            Err(_) => true,
            Ok(_) => {
                let key = header_get(&self.headers, FieldName::SecWebSocketKey.as_str()).unwrap();
                self.on_upgrade.is_some() && key.as_bytes().len() as u64 <= MAX_KEY_LEN
            },
        }
    }
}

fn method_is_get(method: &String) -> (r: bool)
    ensures
        r == (method@ == "GET"@),
{
    let r = bytes_eq(method.as_str().as_bytes(), "GET".as_bytes());
    proof {
        vstd::utf8::encode_utf8_decode_utf8(method@);
        vstd::utf8::encode_utf8_decode_utf8("GET"@);
    }
    r
}

/// Whether the first value of a header is `value`, up to the case of ASCII letters.
pub fn header_eq(req: &RequestParts, key: FieldName, value: &str) -> (r: bool)
    ensures
        r == header_is(req.contents(), key@, value@),
{
    if let Some(header) = header_get(&req.headers, key.as_str()) {
        eq_ignore_ascii_case(header.as_bytes(), value.as_bytes())
    } else {
        false
    }
}

/// Whether the first value of a header is UTF-8 and `value` stands in its lower case form.
pub fn header_contains(req: &RequestParts, key: FieldName, value: &str) -> (r: bool)
    ensures
        r == header_includes(req.contents(), key@, value@),
{
    let header = if let Some(header) = header_get(&req.headers, key.as_str()) {
        header
    } else {
        return false;
    };
    if let Some(text) = utf8_text(header.as_bytes()) {
        contains_text(&chars_of(value), &lower_chars(text))
    } else {
        false
    }
}

} // verus!
