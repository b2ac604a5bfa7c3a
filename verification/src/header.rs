//! Header names, header values and the header map.

use vstd::prelude::*;
use vstd::utf8::encode_utf8;

verus! {

/// The header fields of the opening handshake.
#[derive(Clone, Copy, Debug, PartialEq, Eq, Structural)]
pub enum FieldName {
    Connection,
    Upgrade,
    SecWebSocketAccept,
    SecWebSocketExtensions,
    SecWebSocketKey,
    SecWebSocketProtocol,
    SecWebSocketVersion,
    XNpayBootstrap,
}

impl View for FieldName {
    type V = Seq<char>;

    open spec fn view(&self) -> Seq<char> {
        match self {
            FieldName::Connection => "connection"@,
            FieldName::Upgrade => "upgrade"@,
            FieldName::SecWebSocketAccept => "sec-websocket-accept"@,
            FieldName::SecWebSocketExtensions => "sec-websocket-extensions"@,
            FieldName::SecWebSocketKey => "sec-websocket-key"@,
            FieldName::SecWebSocketProtocol => "sec-websocket-protocol"@,
            FieldName::SecWebSocketVersion => "sec-websocket-version"@,
            FieldName::XNpayBootstrap => "x-npay-bootstrap"@,
        }
    }
}

/// A header name in the form in which a header map keeps it: one to sixty-four characters, each
/// a lower case letter, a digit or a hyphen.
pub open spec fn canonical_name(name: Seq<char>) -> bool {
    &&& 1 <= name.len() <= 64
    &&& forall|i: int|
        0 <= i < name.len() ==> {
            let c = #[trigger] name[i];
            'a' <= c <= 'z' || '0' <= c <= '9' || c == '-'
        }
}

impl FieldName {
    /// The name as it is written in a header map.
    pub fn as_str(&self) -> (r: &'static str)
        ensures
            r@ == self@,
            canonical_name(r@),
    {
        proof {
            self.lemma_canonical();
        }
        match self {
            FieldName::Connection => "connection",
            FieldName::Upgrade => "upgrade",
            FieldName::SecWebSocketAccept => "sec-websocket-accept",
            FieldName::SecWebSocketExtensions => "sec-websocket-extensions",
            FieldName::SecWebSocketKey => "sec-websocket-key",
            FieldName::SecWebSocketProtocol => "sec-websocket-protocol",
            FieldName::SecWebSocketVersion => "sec-websocket-version",
            FieldName::XNpayBootstrap => "x-npay-bootstrap",
        }
    }

    proof fn lemma_canonical(&self)
        ensures
            canonical_name(self@),
    {
        reveal_strlit("connection");
        reveal_strlit("upgrade");
        reveal_strlit("sec-websocket-accept");
        reveal_strlit("sec-websocket-extensions");
        reveal_strlit("sec-websocket-key");
        reveal_strlit("sec-websocket-protocol");
        reveal_strlit("sec-websocket-version");
        reveal_strlit("x-npay-bootstrap");
    }

    /// Different header fields have different names.
    pub proof fn lemma_distinct(a: FieldName, b: FieldName)
        ensures
            a@ == b@ <==> a == b,
    {
        reveal_strlit("connection");
        reveal_strlit("upgrade");
        reveal_strlit("sec-websocket-accept");
        reveal_strlit("sec-websocket-extensions");
        reveal_strlit("sec-websocket-key");
        reveal_strlit("sec-websocket-protocol");
        reveal_strlit("sec-websocket-version");
        reveal_strlit("x-npay-bootstrap");
        if a@ == b@ {
            assert(a@.len() == b@.len());
            assert(a@[0] == b@[0]);
            assert(a@[14] == b@[14]);
        }
    }
}

/// A byte that a header value may hold: a tab, or anything from space on except DEL.
pub open spec fn value_byte(b: u8) -> bool {
    b == 9 || (b >= 32 && b != 127)
}

/// A byte that a header value may hold as text: a tab, or printable ASCII.
pub open spec fn visible_byte(b: u8) -> bool {
    b == 9 || 32 <= b < 127
}

/// Bytes that a header value may hold.
pub open spec fn value_bytes(bytes: Seq<u8>) -> bool {
    forall|i: int| 0 <= i < bytes.len() ==> value_byte(#[trigger] bytes[i])
}

/// Bytes that a header value may hold as text.
pub open spec fn visible_bytes(bytes: Seq<u8>) -> bool {
    forall|i: int| 0 <= i < bytes.len() ==> visible_byte(#[trigger] bytes[i])
}

/// The value of a header field.
#[derive(Debug)]
pub struct FieldValue {
    pub(crate) bytes: Vec<u8>,
}

impl View for FieldValue {
    type V = Seq<u8>;

    closed spec fn view(&self) -> Seq<u8> {
        self.bytes@
    }
}

/// The bytes of each of `values`.
pub open spec fn views(values: Seq<FieldValue>) -> Seq<Seq<u8>> {
    values.map_values(|value: FieldValue| value@)
}

/// The bytes of an optional value.
pub open spec fn optional_view(value: Option<FieldValue>) -> Option<Seq<u8>> {
    match value {
        Some(value) => Some(value@),
        None => None,
    }
}

impl FieldValue {
    #[verifier::type_invariant]
    spec fn well_formed(self) -> bool {
        value_bytes(self.bytes@)
    }

    /// The bytes of the value.
    pub fn as_bytes(&self) -> (r: &[u8])
        ensures
            r@ == self@,
            value_bytes(r@),
    {
        proof {
            use_type_invariant(self);
        }
        self.bytes.as_slice()
    }

    /// The bytes of the value, if all of them are text.
    pub fn to_str(&self) -> (r: Option<&[u8]>)
        ensures
            r is Some <==> visible_bytes(self@),
            r matches Some(text) ==> text@ == self@,
    {
        let bytes = self.bytes.as_slice();
        let mut i: usize = 0;
        while i < bytes.len()
            invariant
                i <= bytes.len(),
                bytes@ == self@,
                visible_bytes(bytes@.take(i as int)),
            decreases bytes.len() - i,
        {
            let b: u8 = bytes[i];
            if !(b == 9 || (b >= 32 && b < 127)) {
                assert(!visible_byte(self@[i as int]));
                return None;
            }
            assert(bytes@.take(i + 1) =~= bytes@.take(i as int).push(b));
            i += 1;
        }
        assert(bytes@.take(i as int) =~= bytes@);
        Some(bytes)
    }

    /// The same value once more.
    pub fn duplicate(&self) -> (r: FieldValue)
        ensures
            r@ == self@,
    {
        proof {
            use_type_invariant(self);
        }
        FieldValue { bytes: vstd::slice::slice_to_vec(self.bytes.as_slice()) }
    }

    /// A value made of `bytes`, if a header value may hold them.
    pub fn from_bytes(bytes: Vec<u8>) -> (r: Option<FieldValue>)
        ensures
            r is Some <==> value_bytes(bytes@),
            r matches Some(value) ==> value@ == bytes@,
    {
        let mut i: usize = 0;
        while i < bytes.len()
            invariant
                i <= bytes.len(),
                value_bytes(bytes@.take(i as int)),
            decreases bytes.len() - i,
        {
            let b: u8 = bytes[i];
            if !(b == 9 || (b >= 32 && b != 127)) {
                assert(!value_byte(bytes@[i as int]));
                return None;
            }
            assert(bytes@.take(i + 1) =~= bytes@.take(i as int).push(b));
            i += 1;
        }
        assert(bytes@.take(i as int) =~= bytes@);
        Some(FieldValue { bytes })
    }

    /// Calls `http::HeaderValue::from_str`: a string whose bytes a header value may hold is kept
    /// as it is, and every other string is refused.
    #[verifier::external_body]
    pub(crate) fn from_str(src: &str) -> (r: Option<FieldValue>)
        ensures
            r is Some <==> value_bytes(encode_utf8(src@)),
            r matches Some(value) ==> value@ == encode_utf8(src@),
    {
        http::HeaderValue::from_str(src).ok().map(|v| FieldValue { bytes: v.as_bytes().to_vec() })
    }

    /// Calls `http::HeaderValue::from_static`, which keeps printable ASCII as it is and panics on
    /// anything else.
    #[verifier::external_body]
    pub(crate) fn from_static(src: &'static str) -> (r: FieldValue)
        requires
            visible_bytes(encode_utf8(src@)),
        ensures
            r@ == encode_utf8(src@),
    {
        FieldValue { bytes: http::HeaderValue::from_static(src).as_bytes().to_vec() }
    }

    /// Calls `http::HeaderValue::from_maybe_shared` on a `bytes::Bytes` made of `src`: bytes that
    /// a header value may hold are kept as they are, and all others are refused.
    #[verifier::external_body]
    pub(crate) fn from_maybe_shared(src: String) -> (r: Option<FieldValue>)
        ensures
            r is Some <==> value_bytes(encode_utf8(src@)),
            r matches Some(value) ==> value@ == encode_utf8(src@),
    {
        http::HeaderValue::from_maybe_shared(bytes::Bytes::from(src)).ok().map(
            |v| FieldValue { bytes: v.as_bytes().to_vec() },
        )
    }
}

/// The header map of the `http` crate.
#[verifier::external_type_specification]
#[verifier::external_body]
#[verifier::reject_recursive_types(T)]
pub struct ExHeaderMap<T>(http::HeaderMap<T>);

/// What the header map of the `http` crate holds.
#[verifier::external_type_specification]
#[verifier::external_body]
pub struct ExHeaderValue(http::HeaderValue);

/// For each header name, in lower case, its values in the order in which they were added.
pub type Contents = Map<Seq<char>, Seq<Seq<u8>>>;

/// What a header map holds.
pub uninterp spec fn header_contents(map: http::HeaderMap) -> Map<Seq<char>, Seq<Seq<u8>>>;

/// Calls `http::HeaderMap::new`: the map is empty.
#[verifier::external_body]
pub(crate) fn header_map() -> (r: http::HeaderMap)
    ensures
        header_contents(r) == Contents::empty(),
{
    http::HeaderMap::new()
}

/// Calls `http::HeaderMap::get`: the first value of a header, made of bytes that a header value
/// may hold, or nothing where the map does not hold the header.
#[verifier::external_body]
pub(crate) fn header_get(map: &http::HeaderMap, name: &str) -> (r: Option<FieldValue>)
    requires
        canonical_name(name@),
    ensures
        r is Some <==> header_contents(*map).contains_key(name@),
        r matches Some(value) ==> header_contents(*map)[name@].len() > 0 && value@
            == header_contents(*map)[name@][0] && value_bytes(value@),
{
    map.get(name).map(|v| FieldValue { bytes: v.as_bytes().to_vec() })
}

/// Calls `http::HeaderMap::get_all`: every value of a header, in order, each made of bytes that a
/// header value may hold, or none where the map does not hold the header.
#[verifier::external_body]
pub(crate) fn header_get_all(map: &http::HeaderMap, name: &str) -> (r: Vec<FieldValue>)
    requires
        canonical_name(name@),
    ensures
        r@.len() > 0 <==> header_contents(*map).contains_key(name@),
        r@.len() > 0 ==> views(r@) == header_contents(*map)[name@],
        forall|i: int| 0 <= i < r@.len() ==> value_bytes(#[trigger] r@[i]@),
{
    map.get_all(name).iter().map(|v| FieldValue { bytes: v.as_bytes().to_vec() }).collect()
}

/// Calls `http::HeaderMap::remove`: the header leaves the map with all its values, the first of
/// which, made of bytes that a header value may hold, is returned.
#[verifier::external_body]
pub(crate) fn header_remove(map: &mut http::HeaderMap, name: &str) -> (r: Option<FieldValue>)
    requires
        canonical_name(name@),
    ensures
        header_contents(*final(map)) == header_contents(*old(map)).remove(name@),
        r is Some <==> header_contents(*old(map)).contains_key(name@),
        r matches Some(value) ==> header_contents(*old(map))[name@].len() > 0 && value@
            == header_contents(*old(map))[name@][0] && value_bytes(value@),
{
    map.remove(name).map(|v| FieldValue { bytes: v.as_bytes().to_vec() })
}

/// Calls `http::HeaderMap::insert`: afterwards `value` is the one value of the header, and the
/// other headers are as before. The call panics where the map would outgrow its size limit, which
/// a map of fewer than 4096 header names does not.
#[verifier::external_body]
pub(crate) fn header_insert(map: &mut http::HeaderMap, name: &'static str, value: FieldValue)
    requires
        canonical_name(name@),
        header_contents(*old(map)).dom().finite(),
        header_contents(*old(map)).dom().len() < 4096,
    ensures
        header_contents(*final(map)) == header_contents(*old(map)).insert(name@, seq![value@]),
{
    map.insert(name, http::HeaderValue::from_bytes(&value.bytes).unwrap());
}

/// Calls `http::HeaderMap::append`: `value` becomes the last value of the header, and the other
/// headers are as before. The call panics where the map would outgrow its size limit, which a map
/// of fewer than 4096 header names does not.
#[verifier::external_body]
pub(crate) fn header_append(map: &mut http::HeaderMap, name: &'static str, value: FieldValue)
    requires
        canonical_name(name@),
        header_contents(*old(map)).dom().finite(),
        header_contents(*old(map)).dom().len() < 4096,
    ensures
        header_contents(*final(map)) == header_contents(*old(map)).insert(
            name@,
            if header_contents(*old(map)).contains_key(name@) {
                header_contents(*old(map))[name@].push(value@)
            } else {
                seq![value@]
            },
        ),
{
    map.append(name, http::HeaderValue::from_bytes(&value.bytes).unwrap());
}

} // verus!
