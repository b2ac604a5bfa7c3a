//! The server side of the WebSocket opening handshake for services built on hyper.
//!
//! [`WebSocketUpgrade::from_request_parts`] decides whether a request asks for a WebSocket
//! connection and takes the upgrade out of it. The upgrade is then configured, and
//! [`WebSocketUpgrade::on_upgrade`] gives the response, the connection to wait for, and an
//! [`UpgradeTask`] that says what to do once the connection has been handed over.

pub mod accept;
pub mod config;
pub mod failure;
pub mod header;
pub mod laws;
pub mod protocol;
pub mod rejection;
pub mod request;
pub mod socket;
pub mod text;
pub mod upgrade;

pub use config::WebSocketConfig;
pub use failure::{DefaultOnFailedUpdgrade, OnFailedUpdgrade};
pub use header::{FieldName, FieldValue};
pub use request::RequestParts;
pub use socket::WebSocket;
pub use upgrade::{Accepted, UpgradeAction, UpgradeResponse, UpgradeTask, WebSocketUpgrade};
