//! Settings of a WebSocket connection.

use vstd::prelude::*;

verus! {

/// The configuration of a WebSocket connection.
#[derive(Clone, Copy, Debug)]
pub struct WebSocketConfig {
    /// The target minimum size of the write buffer to reach before writing the data to the
    /// underlying stream.
    pub write_buffer_size: usize,
    /// The max size of the write buffer in bytes.
    pub max_write_buffer_size: usize,
    /// The maximum size of an incoming message; `None` means no limit.
    pub max_message_size: Option<usize>,
    /// The maximum size of the payload of an incoming frame; `None` means no limit.
    pub max_frame_size: Option<usize>,
    /// Whether unmasked frames from the client are accepted.
    pub accept_unmasked_frames: bool,
    /// Whether offers to compress messages may be accepted, with the default parameters. No other
    /// extension can be.
    pub compression: bool,
}

impl WebSocketConfig {
    /// The settings before any of them is changed: writes gather up to 128 KiB, in a buffer
    /// without limit; messages are limited to 64 MiB and frames to 16 MiB; unmasked frames are
    /// refused, and messages are not compressed.
    pub open spec fn spec_default() -> WebSocketConfig {
        WebSocketConfig {
            write_buffer_size: 131072,
            max_write_buffer_size: usize::MAX,
            max_message_size: Some(67108864),
            max_frame_size: Some(16777216),
            accept_unmasked_frames: false,
            compression: false,
        }
    }
}

/// Reads the fields of `tungstenite::protocol::WebSocketConfig::default`: in this order the write
/// buffer size, its maximum, the maximum message size, the maximum frame size, and whether
/// unmasked frames are accepted.
#[verifier::external_body]
fn tungstenite_defaults() -> (r: (usize, usize, Option<usize>, Option<usize>, bool))
    ensures
        r.0 == 131072,
        r.1 == usize::MAX,
        r.2 == Some(67108864usize),
        r.3 == Some(16777216usize),
        r.4 == false,
{
    let c = tokio_tungstenite::tungstenite::protocol::WebSocketConfig::default();
    (
        c.write_buffer_size,
        c.max_write_buffer_size,
        c.max_message_size,
        c.max_frame_size,
        c.accept_unmasked_frames,
    )
}

impl Default for WebSocketConfig {
    fn default() -> (r: Self)
        ensures
            r == WebSocketConfig::spec_default(),
    {
        let (write, max_write, max_message, max_frame, accept_unmasked_frames) =
            tungstenite_defaults();
        WebSocketConfig {
            write_buffer_size: write,
            max_write_buffer_size: max_write,
            max_message_size: max_message,
            max_frame_size: max_frame,
            accept_unmasked_frames,
            compression: false,
        }
    }
}

} // verus!
