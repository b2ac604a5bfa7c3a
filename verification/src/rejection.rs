//! Why a request cannot be upgraded, and how it is answered.

use vstd::prelude::*;

verus! {

/// The answer to a request that is rejected.
#[derive(Debug)]
pub struct RejectionResponse {
    /// The status code.
    pub status: u16,
    /// The text of the body.
    pub body: &'static str,
}

/// Rejection type for [`WebSocketUpgrade`](crate::WebSocketUpgrade).
#[derive(Debug)]
#[non_exhaustive]
pub struct MethodNotGet;

impl MethodNotGet {
    /// The answer to the request.
    pub fn into_response(self) -> (r: RejectionResponse)
        ensures
            r.status == 405,
            r.body@ == "Request method must be `GET`"@,
    {
        RejectionResponse { status: 405, body: self.message() }
    }

    /// The rejection in words.
    pub fn message(&self) -> (r: &'static str)
        ensures
            r@ == "Request method must be `GET`"@,
    {
        "Request method must be `GET`"
    }
}

/// Rejection type for [`WebSocketUpgrade`](crate::WebSocketUpgrade).
#[derive(Debug)]
#[non_exhaustive]
pub struct InvalidConnectionHeader;

impl InvalidConnectionHeader {
    /// The answer to the request.
    pub fn into_response(self) -> (r: RejectionResponse)
        ensures
            r.status == 400,
            r.body@ == "Connection header did not include 'upgrade'"@,
    {
        RejectionResponse { status: 400, body: self.message() }
    }

    /// The rejection in words.
    pub fn message(&self) -> (r: &'static str)
        ensures
            r@ == "Connection header did not include 'upgrade'"@,
    {
        "Connection header did not include 'upgrade'"
    }
}

/// Rejection type for [`WebSocketUpgrade`](crate::WebSocketUpgrade).
#[derive(Debug)]
#[non_exhaustive]
pub struct InvalidUpgradeHeader;

impl InvalidUpgradeHeader {
    /// The answer to the request.
    pub fn into_response(self) -> (r: RejectionResponse)
        ensures
            r.status == 400,
            r.body@ == "`Upgrade` header did not include 'websocket'"@,
    {
        RejectionResponse { status: 400, body: self.message() }
    }

    /// The rejection in words.
    pub fn message(&self) -> (r: &'static str)
        ensures
            r@ == "`Upgrade` header did not include 'websocket'"@,
    {
        "`Upgrade` header did not include 'websocket'"
    }
}

/// Rejection type for [`WebSocketUpgrade`](crate::WebSocketUpgrade).
#[derive(Debug)]
#[non_exhaustive]
pub struct InvalidWebSocketVersionHeader;

impl InvalidWebSocketVersionHeader {
    /// The answer to the request.
    pub fn into_response(self) -> (r: RejectionResponse)
        ensures
            r.status == 400,
            r.body@ == "`Sec-WebSocket-Version` header did not include '13'"@,
    {
        RejectionResponse { status: 400, body: self.message() }
    }

    /// The rejection in words.
    pub fn message(&self) -> (r: &'static str)
        ensures
            r@ == "`Sec-WebSocket-Version` header did not include '13'"@,
    {
        "`Sec-WebSocket-Version` header did not include '13'"
    }
}

/// Rejection type for [`WebSocketUpgrade`](crate::WebSocketUpgrade).
#[derive(Debug)]
#[non_exhaustive]
pub struct WebSocketKeyHeaderMissing;

impl WebSocketKeyHeaderMissing {
    /// The answer to the request.
    pub fn into_response(self) -> (r: RejectionResponse)
        ensures
            r.status == 400,
            r.body@ == "`Sec-WebSocket-Key` header missing"@,
    {
        RejectionResponse { status: 400, body: self.message() }
    }

    /// The rejection in words.
    pub fn message(&self) -> (r: &'static str)
        ensures
            r@ == "`Sec-WebSocket-Key` header missing"@,
    {
        "`Sec-WebSocket-Key` header missing"
    }
}

/// Rejection used for [`WebSocketUpgrade`](crate::WebSocketUpgrade).
///
/// Contains one variant for each way in which a request can fail to be one for an upgrade.
#[derive(Debug)]
#[non_exhaustive]
pub enum WebSocketUpgradeRejection {
    MethodNotGet(MethodNotGet),
    InvalidConnectionHeader(InvalidConnectionHeader),
    InvalidUpgradeHeader(InvalidUpgradeHeader),
    InvalidWebSocketVersionHeader(InvalidWebSocketVersionHeader),
    WebSocketKeyHeaderMissing(WebSocketKeyHeaderMissing),
}

impl WebSocketUpgradeRejection {
    /// The status code of the answer.
    pub open spec fn spec_status(self) -> u16 {
        match self {
            WebSocketUpgradeRejection::MethodNotGet(_) => 405,
            WebSocketUpgradeRejection::InvalidConnectionHeader(_) => 400,
            WebSocketUpgradeRejection::InvalidUpgradeHeader(_) => 400,
            WebSocketUpgradeRejection::InvalidWebSocketVersionHeader(_) => 400,
            WebSocketUpgradeRejection::WebSocketKeyHeaderMissing(_) => 400,
        }
    }

    /// The rejection in words.
    pub open spec fn spec_message(self) -> Seq<char> {
        match self {
            WebSocketUpgradeRejection::MethodNotGet(_) => "Request method must be `GET`"@,
            WebSocketUpgradeRejection::InvalidConnectionHeader(_) => "Connection header did not include 'upgrade'"@,
            WebSocketUpgradeRejection::InvalidUpgradeHeader(_) => "`Upgrade` header did not include 'websocket'"@,
            WebSocketUpgradeRejection::InvalidWebSocketVersionHeader(_) => "`Sec-WebSocket-Version` header did not include '13'"@,
            WebSocketUpgradeRejection::WebSocketKeyHeaderMissing(_) => "`Sec-WebSocket-Key` header missing"@,
        }
    }

    /// The answer to the request.
    pub fn into_response(self) -> (r: RejectionResponse)
        ensures
            r.status == self.spec_status(),
            r.body@ == self.spec_message(),
    {
        match self {
            WebSocketUpgradeRejection::MethodNotGet(inner) => inner.into_response(),
            WebSocketUpgradeRejection::InvalidConnectionHeader(inner) => inner.into_response(),
            WebSocketUpgradeRejection::InvalidUpgradeHeader(inner) => inner.into_response(),
            WebSocketUpgradeRejection::InvalidWebSocketVersionHeader(inner) => inner.into_response(),
            WebSocketUpgradeRejection::WebSocketKeyHeaderMissing(inner) => inner.into_response(),
        }
    }

    /// The rejection in words.
    pub fn message(&self) -> (r: &'static str)
        ensures
            r@ == self.spec_message(),
    {
        match self {
            WebSocketUpgradeRejection::MethodNotGet(inner) => inner.message(),
            WebSocketUpgradeRejection::InvalidConnectionHeader(inner) => inner.message(),
            WebSocketUpgradeRejection::InvalidUpgradeHeader(inner) => inner.message(),
            WebSocketUpgradeRejection::InvalidWebSocketVersionHeader(inner) => inner.message(),
            WebSocketUpgradeRejection::WebSocketKeyHeaderMissing(inner) => inner.message(),
        }
    }
}

impl vstd::std_specs::convert::FromSpecImpl<MethodNotGet> for WebSocketUpgradeRejection {
    open spec fn obeys_from_spec() -> bool {
        true
    }

    open spec fn from_spec(inner: MethodNotGet) -> Self {
        WebSocketUpgradeRejection::MethodNotGet(inner)
    }
}

impl From<MethodNotGet> for WebSocketUpgradeRejection {
    fn from(inner: MethodNotGet) -> (r: Self) {
        WebSocketUpgradeRejection::MethodNotGet(inner)
    }
}

impl vstd::std_specs::convert::FromSpecImpl<InvalidConnectionHeader> for WebSocketUpgradeRejection {
    open spec fn obeys_from_spec() -> bool {
        true
    }

    open spec fn from_spec(inner: InvalidConnectionHeader) -> Self {
        WebSocketUpgradeRejection::InvalidConnectionHeader(inner)
    }
}

impl From<InvalidConnectionHeader> for WebSocketUpgradeRejection {
    fn from(inner: InvalidConnectionHeader) -> (r: Self) {
        WebSocketUpgradeRejection::InvalidConnectionHeader(inner)
    }
}

impl vstd::std_specs::convert::FromSpecImpl<InvalidUpgradeHeader> for WebSocketUpgradeRejection {
    open spec fn obeys_from_spec() -> bool {
        true
    }

    open spec fn from_spec(inner: InvalidUpgradeHeader) -> Self {
        WebSocketUpgradeRejection::InvalidUpgradeHeader(inner)
    }
}

impl From<InvalidUpgradeHeader> for WebSocketUpgradeRejection {
    fn from(inner: InvalidUpgradeHeader) -> (r: Self) {
        WebSocketUpgradeRejection::InvalidUpgradeHeader(inner)
    }
}

impl vstd::std_specs::convert::FromSpecImpl<InvalidWebSocketVersionHeader> for WebSocketUpgradeRejection {
    open spec fn obeys_from_spec() -> bool {
        true
    }

    open spec fn from_spec(inner: InvalidWebSocketVersionHeader) -> Self {
        WebSocketUpgradeRejection::InvalidWebSocketVersionHeader(inner)
    }
}

impl From<InvalidWebSocketVersionHeader> for WebSocketUpgradeRejection {
    fn from(inner: InvalidWebSocketVersionHeader) -> (r: Self) {
        WebSocketUpgradeRejection::InvalidWebSocketVersionHeader(inner)
    }
}

impl vstd::std_specs::convert::FromSpecImpl<WebSocketKeyHeaderMissing> for WebSocketUpgradeRejection {
    open spec fn obeys_from_spec() -> bool {
        true
    }

    open spec fn from_spec(inner: WebSocketKeyHeaderMissing) -> Self {
        WebSocketUpgradeRejection::WebSocketKeyHeaderMissing(inner)
    }
}

impl From<WebSocketKeyHeaderMissing> for WebSocketUpgradeRejection {
    fn from(inner: WebSocketKeyHeaderMissing) -> (r: Self) {
        WebSocketUpgradeRejection::WebSocketKeyHeaderMissing(inner)
    }
}

} // verus!
