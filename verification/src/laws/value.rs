//! What the parts are that upgrades are built from: text, header names and values, settings,
//! callbacks and connections.

use vstd::prelude::*;

use crate::config::WebSocketConfig;
use crate::failure::{DefaultOnFailedUpdgrade, OnFailedUpdgrade};
use crate::header::{value_byte, value_bytes, visible_byte, visible_bytes, FieldName, FieldValue};
use crate::socket::WebSocket;
use crate::text::{
    bytes_eq, chars_of, contains_text, eq_ignore_ascii_case, lower_char, lower_chars, lower_text,
    occurs_at,
};

verus! {

/// Byte strings are equal where they have the same length and the same byte at each position.
pub proof fn law_bytes_eq(a: &[u8], b: &[u8], r: bool)
    requires
        call_ensures(bytes_eq, (a, b), r),
    ensures
        r <==> a@.len() == b@.len() && forall|i: int|
            0 <= i < a@.len() ==> #[trigger] a@[i] == b@[i],
{
    if a@.len() == b@.len() && forall|i: int| 0 <= i < a@.len() ==> #[trigger] a@[i] == b@[i] {
        assert(a@ =~= b@);
    }
}

/// Byte strings are equal up to case where they have the same length and at each position the same
/// byte, or the two forms of one ASCII letter.
pub proof fn law_eq_ignore_ascii_case(a: &[u8], b: &[u8], r: bool)
    requires
        call_ensures(eq_ignore_ascii_case, (a, b), r),
    ensures
        r <==> {
            &&& a@.len() == b@.len()
            &&& forall|i: int|
                0 <= i < a@.len() ==> {
                    ||| #[trigger] a@[i] == b@[i]
                    ||| 65 <= a@[i] <= 90 && b@[i] == a@[i] + 32
                    ||| 97 <= a@[i] <= 122 && b@[i] == a@[i] - 32
                }
        },
{
    super::request::law_equal_up_to_case(a@, b@);
}

/// The characters of a text, as they are and in lower case: the letters `A` to `Z` become `a` to
/// `z`, and no other character changes.
pub proof fn law_characters(text: &str, same: Vec<char>, lower: Vec<char>)
    requires
        call_ensures(chars_of, (text,), same),
        call_ensures(lower_chars, (text,), lower),
    ensures
        same@ == text@,
        lower@.len() == text@.len(),
        forall|i: int|
            0 <= i < text@.len() ==> #[trigger] lower@[i] == if 'A' <= text@[i] <= 'Z' {
                (text@[i] as u32 + 32) as char
            } else {
                text@[i]
            },
{
    assert forall|i: int| 0 <= i < text@.len() implies #[trigger] lower@[i] == if 'A' <= text@[i]
        <= 'Z' {
        (text@[i] as u32 + 32) as char
    } else {
        text@[i]
    } by {
        assert(lower_text(text@)[i] == lower_char(text@[i]));
    }
}

/// A text is found in another where the other can be cut into three pieces of which it is the
/// middle one.
pub proof fn law_contains_text(needle: Vec<char>, text: Vec<char>, r: bool)
    requires
        call_ensures(contains_text, (&needle, &text), r),
    ensures
        r <==> exists|before: Seq<char>, after: Seq<char>|
            text@ == #[trigger] (before + needle@ + after),
{
    if r {
        let at = choose|at: int| occurs_at(needle@, text@, at);
        assert(text@ =~= text@.take(at) + needle@ + text@.skip(at + needle@.len()));
    }
    if exists|before: Seq<char>, after: Seq<char>| text@ == #[trigger] (before + needle@ + after) {
        let (before, after) = choose|before: Seq<char>, after: Seq<char>|
            text@ == #[trigger] (before + needle@ + after);
        let at = before.len() as int;
        assert(text@.subrange(at, at + needle@.len()) =~= needle@);
        assert(occurs_at(needle@, text@, at));
    }
}

/// The names of the header fields.
pub proof fn law_field_names(name: FieldName, r: &'static str)
    requires
        call_ensures(FieldName::as_str, (&name,), r),
    ensures
        r@ == name@,
        r@ == match name {
            FieldName::Connection => "connection"@,
            FieldName::Upgrade => "upgrade"@,
            FieldName::SecWebSocketAccept => "sec-websocket-accept"@,
            FieldName::SecWebSocketExtensions => "sec-websocket-extensions"@,
            FieldName::SecWebSocketKey => "sec-websocket-key"@,
            FieldName::SecWebSocketProtocol => "sec-websocket-protocol"@,
            FieldName::SecWebSocketVersion => "sec-websocket-version"@,
            FieldName::XNpayBootstrap => "x-npay-bootstrap"@,
        },
{
}

/// A header value is made of any bytes without control characters, a tab excepted, and gives back
/// the bytes that it was made of. So does a copy of it.
pub proof fn law_header_values(
    bytes: Vec<u8>,
    made: Option<FieldValue>,
    value: FieldValue,
    read: &[u8],
    copy: FieldValue,
    read_copy: &[u8],
)
    requires
        call_ensures(FieldValue::from_bytes, (bytes,), made),
        call_ensures(FieldValue::as_bytes, (&value,), read),
        call_ensures(FieldValue::duplicate, (&value,), copy),
        call_ensures(FieldValue::as_bytes, (&copy,), read_copy),
    ensures
        made is Some <==> forall|i: int|
            0 <= i < bytes@.len() ==> (#[trigger] bytes@[i] == 9 || 32 <= bytes@[i] <= 126
                || 128 <= bytes@[i]),
        made == Some(value) ==> read@ == bytes@,
        read_copy@ == read@,
{
    if value_bytes(bytes@) {
        assert forall|i: int| 0 <= i < bytes@.len() implies (#[trigger] bytes@[i] == 9 || 32
            <= bytes@[i] <= 126 || 128 <= bytes@[i]) by {
            assert(value_byte(bytes@[i]));
        }
    }
    if forall|i: int|
        0 <= i < bytes@.len() ==> (#[trigger] bytes@[i] == 9 || 32 <= bytes@[i] <= 126 || 128
            <= bytes@[i]) {
        assert(value_bytes(bytes@));
    }
}

/// A header value is text where each of its bytes is a tab or printable ASCII, and the text is
/// what the value holds.
pub proof fn law_header_text(value: FieldValue, read: &[u8], r: Option<&[u8]>)
    requires
        call_ensures(FieldValue::as_bytes, (&value,), read),
        call_ensures(FieldValue::to_str, (&value,), r),
    ensures
        r is Some <==> forall|i: int|
            0 <= i < read@.len() ==> (#[trigger] read@[i] == 9 || 32 <= read@[i] <= 126),
        r matches Some(text) ==> text@ == read@,
{
    if visible_bytes(read@) {
        assert forall|i: int| 0 <= i < read@.len() implies (#[trigger] read@[i] == 9 || 32
            <= read@[i] <= 126) by {
            assert(visible_byte(read@[i]));
        }
    }
    if forall|i: int|
        0 <= i < read@.len() ==> (#[trigger] read@[i] == 9 || 32 <= read@[i] <= 126) {
        assert(visible_bytes(read@));
    }
}

/// The default settings: writes gather up to 128 KiB in a buffer without limit, messages are
/// limited to 64 MiB and frames to 16 MiB, unmasked frames are refused, and messages are not
/// compressed.
pub proof fn law_default_settings(r: WebSocketConfig)
    requires
        call_ensures(<WebSocketConfig as Default>::default, (), r),
    ensures
        r.write_buffer_size == 128 * 1024,
        r.max_write_buffer_size == usize::MAX,
        r.max_message_size matches Some(max) && max == 64 * 1024 * 1024,
        r.max_frame_size matches Some(max) && max == 16 * 1024 * 1024,
        !r.accept_unmasked_frames,
        !r.compression,
{
}

/// A closure that is a callback for failures is called with the error, and may be called with
/// every error that it accepts; the default callback takes every error.
pub proof fn law_callbacks<F: FnOnce(hyper::Error) + Send + 'static>(
    callback: F,
    error: hyper::Error,
    r: (),
)
    requires
        call_ensures(<F as OnFailedUpdgrade>::call, (callback, error), r),
    ensures
        call_ensures(callback, (error,), ()),
        callback.accepts(error) <==> call_requires(callback, (error,)),
        DefaultOnFailedUpdgrade.accepts(error),
{
}

/// A connection gives back the stream and the protocol that it was made of.
pub proof fn law_connection<S>(
    inner: S,
    protocol: Option<FieldValue>,
    socket: WebSocket<S>,
    stream: S,
    spoken: Option<&FieldValue>,
)
    requires
        call_ensures(WebSocket::<S>::new, (inner, protocol), socket),
        call_ensures(WebSocket::<S>::into_inner, (socket,), stream),
        call_ensures(WebSocket::<S>::protocol, (&socket,), spoken),
    ensures
        stream == inner,
        spoken is Some <==> protocol is Some,
        spoken matches Some(value) ==> value@ == protocol->0@,
{
}

/// Using the stream of a connection leaves its protocol as it is, and what was done to the stream
/// is done to that of the connection.
pub proof fn law_connection_in_use<S>(
    before: WebSocket<S>,
    socket: &mut WebSocket<S>,
    r: &mut S,
    stream_before: S,
    after: WebSocket<S>,
    stream_after: S,
    spoken_before: Option<&FieldValue>,
    spoken_after: Option<&FieldValue>,
)
    requires
        before == *old(socket),
        after == *final(socket),
        call_ensures(WebSocket::<S>::get_mut, (socket,), r),
        call_ensures(WebSocket::<S>::into_inner, (before,), stream_before),
        call_ensures(WebSocket::<S>::into_inner, (after,), stream_after),
        call_ensures(WebSocket::<S>::protocol, (&before,), spoken_before),
        call_ensures(WebSocket::<S>::protocol, (&after,), spoken_after),
    ensures
        *old(r) == stream_before,
        stream_after == *final(r),
        spoken_after is Some <==> spoken_before is Some,
        spoken_after matches Some(value) ==> value@ == spoken_before->0@,
{
}

} // verus!
