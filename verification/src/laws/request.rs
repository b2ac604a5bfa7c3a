//! What the checks of a request answer, told by the bytes of its headers.

use vstd::prelude::*;
use vstd::utf8::{decode_utf8, encode_utf8, is_ascii_chars_encode_utf8, valid_utf8};

use crate::header::{header_contents, Contents, FieldName};
use crate::rejection::{
    InvalidConnectionHeader, InvalidUpgradeHeader, InvalidWebSocketVersionHeader, MethodNotGet,
    RejectionResponse, WebSocketKeyHeaderMissing, WebSocketUpgradeRejection,
};
use crate::request::{header_contains, header_eq, header_includes, header_is, RequestParts};
use crate::text::{lower_byte, lower_bytes, lower_char, lower_text, occurs_at, occurs_in};

verus! {

/// Bytes are the same up to letter case where they are equally many and each is the other, or the
/// other form of the same ASCII letter.
pub proof fn law_equal_up_to_case(a: Seq<u8>, b: Seq<u8>)
    ensures
        lower_bytes(a) == lower_bytes(b) <==> {
            &&& a.len() == b.len()
            &&& forall|i: int|
                0 <= i < a.len() ==> {
                    ||| #[trigger] a[i] == b[i]
                    ||| 65 <= a[i] <= 90 && b[i] == a[i] + 32
                    ||| 97 <= a[i] <= 122 && b[i] == a[i] - 32
                }
        },
{
    if lower_bytes(a) == lower_bytes(b) {
        assert(a.len() == lower_bytes(a).len() && b.len() == lower_bytes(b).len());
        assert forall|i: int| 0 <= i < a.len() implies {
            ||| #[trigger] a[i] == b[i]
            ||| 65 <= a[i] <= 90 && b[i] == a[i] + 32
            ||| 97 <= a[i] <= 122 && b[i] == a[i] - 32
        } by {
            assert(lower_bytes(a)[i] == lower_byte(a[i]));
            assert(lower_bytes(b)[i] == lower_byte(b[i]));
        }
    }
    if a.len() == b.len() && forall|i: int|
        0 <= i < a.len() ==> {
            ||| #[trigger] a[i] == b[i]
            ||| 65 <= a[i] <= 90 && b[i] == a[i] + 32
            ||| 97 <= a[i] <= 122 && b[i] == a[i] - 32
        } {
        assert forall|i: int| 0 <= i < a.len() implies lower_bytes(a)[i] == lower_bytes(b)[i] by {
            assert(a[i] == b[i] || 65 <= a[i] <= 90 && b[i] == a[i] + 32 || 97 <= a[i] <= 122
                && b[i] == a[i] - 32);
        }
        assert(lower_bytes(a) =~= lower_bytes(b));
    }
}

/// A text in lower case holds another text where the text can be cut into three pieces of which
/// the middle one is the other text, but for ASCII letters that it has in upper case.
pub proof fn law_found_in_lower_case(value: Seq<char>, text: Seq<char>)
    ensures
        occurs_in(value, lower_text(text)) <==> exists|
            before: Seq<char>,
            found: Seq<char>,
            after: Seq<char>,
        |
            {
                &&& text == #[trigger] (before + found + after)
                &&& found.len() == value.len()
                &&& forall|i: int|
                    0 <= i < value.len() ==> #[trigger] value[i] == if 'A' <= found[i] <= 'Z' {
                        (found[i] as u32 + 32) as char
                    } else {
                        found[i]
                    }
            },
{
    let lower = lower_text(text);
    if occurs_in(value, lower) {
        let at = choose|at: int| occurs_at(value, lower, at);
        let before = text.take(at);
        let found = text.subrange(at, at + value.len());
        let after = text.skip(at + value.len());
        assert(text =~= before + found + after);
        assert forall|i: int| 0 <= i < value.len() implies #[trigger] value[i] == if 'A'
            <= found[i] <= 'Z' {
            (found[i] as u32 + 32) as char
        } else {
            found[i]
        } by {
            assert(lower.subrange(at, at + value.len())[i] == lower[at + i]);
            assert(lower[at + i] == lower_char(text[at + i]));
        }
    }
    if exists|before: Seq<char>, found: Seq<char>, after: Seq<char>|
        {
            &&& text == #[trigger] (before + found + after)
            &&& found.len() == value.len()
            &&& forall|i: int|
                0 <= i < value.len() ==> #[trigger] value[i] == if 'A' <= found[i] <= 'Z' {
                    (found[i] as u32 + 32) as char
                } else {
                    found[i]
                }
        } {
        let (before, found, after) = choose|
            before: Seq<char>,
            found: Seq<char>,
            after: Seq<char>,
        |
            {
                &&& text == #[trigger] (before + found + after)
                &&& found.len() == value.len()
                &&& forall|i: int|
                    0 <= i < value.len() ==> #[trigger] value[i] == if 'A' <= found[i] <= 'Z' {
                        (found[i] as u32 + 32) as char
                    } else {
                        found[i]
                    }
            };
        let at = before.len() as int;
        assert forall|i: int| 0 <= i < value.len() implies lower.subrange(
            at,
            at + value.len(),
        )[i] == value[i] by {
            assert(text[at + i] == found[i]);
            assert(lower[at + i] == lower_char(text[at + i]));
        }
        assert(lower.subrange(at, at + value.len()) =~= value);
        assert(occurs_at(value, lower, at));
    }
}

/// `header_eq` compares the whole first value of the header with the bytes of `value`: equally
/// many bytes, each the same or the other form of the same ASCII letter. A header that the request
/// does not have equals nothing.
pub proof fn law_header_eq(req: RequestParts, key: FieldName, value: &str, r: bool)
    requires
        call_ensures(header_eq, (&req, key, value), r),
    ensures
        ({
            let headers = header_contents(req.headers);
            let first = headers[key@][0];
            let wanted = encode_utf8(value@);
            r <==> {
                &&& headers.contains_key(key@)
                &&& first.len() == wanted.len()
                &&& forall|i: int|
                    0 <= i < first.len() ==> {
                        ||| #[trigger] first[i] == wanted[i]
                        ||| 65 <= first[i] <= 90 && wanted[i] == first[i] + 32
                        ||| 97 <= first[i] <= 122 && wanted[i] == first[i] - 32
                    }
            }
        }),
{
    law_equal_up_to_case(header_contents(req.headers)[key@][0], encode_utf8(value@));
}

/// `header_contains` looks for `value` anywhere in the first value of the header, which must be
/// UTF-8, and takes an ASCII letter of the header for its lower case form.
pub proof fn law_header_contains(req: RequestParts, key: FieldName, value: &str, r: bool)
    requires
        call_ensures(header_contains, (&req, key, value), r),
    ensures
        ({
            let headers = header_contents(req.headers);
            let first = headers[key@][0];
            r <==> {
                &&& headers.contains_key(key@)
                &&& valid_utf8(first)
                &&& exists|before: Seq<char>, found: Seq<char>, after: Seq<char>|
                    {
                        &&& decode_utf8(first) == #[trigger] (before + found + after)
                        &&& found.len() == value@.len()
                        &&& forall|i: int|
                            0 <= i < value@.len() ==> #[trigger] value@[i] == if 'A' <= found[i]
                                <= 'Z' {
                                (found[i] as u32 + 32) as char
                            } else {
                                found[i]
                            }
                    }
            }
        }),
{
    law_found_in_lower_case(value@, decode_utf8(header_contents(req.headers)[key@][0]));
}

/// The `Sec-WebSocket-Version` header is `13` where its first value is these two bytes.
proof fn lemma_version(headers: Contents)
    ensures
        header_is(headers, FieldName::SecWebSocketVersion@, "13"@) <==> headers.contains_key(
            "sec-websocket-version"@,
        ) && headers["sec-websocket-version"@][0] == seq![49u8, 51u8],
{
    reveal_strlit("13");
    is_ascii_chars_encode_utf8("13"@);
    let first = headers["sec-websocket-version"@][0];
    assert(encode_utf8("13"@) =~= seq![49u8, 51u8]);
    law_equal_up_to_case(first, seq![49u8, 51u8]);
    if lower_bytes(first) == lower_bytes(seq![49u8, 51u8]) {
        assert(first[0] == 49u8 && first[1] == 51u8);
        assert(first =~= seq![49u8, 51u8]);
    }
}

/// The `Upgrade` header is `websocket` where its first value has these nine letters, each in
/// upper or lower case.
proof fn lemma_upgrade(headers: Contents)
    ensures
        header_is(headers, FieldName::Upgrade@, "websocket"@) <==> {
            &&& headers.contains_key("upgrade"@)
            &&& headers["upgrade"@][0].len() == 9
            &&& forall|i: int|
                0 <= i < 9 ==> {
                    ||| #[trigger] headers["upgrade"@][0][i] == "websocket"@[i] as u8
                    ||| headers["upgrade"@][0][i] + 32 == "websocket"@[i] as u8
                }
        },
{
    reveal_strlit("websocket");
    is_ascii_chars_encode_utf8("websocket"@);
    let first = headers["upgrade"@][0];
    let wanted = encode_utf8("websocket"@);
    law_equal_up_to_case(first, wanted);
    assert(wanted.len() == 9);
    assert(forall|i: int| 0 <= i < 9 ==> #[trigger] wanted[i] == "websocket"@[i] as u8);
    assert(forall|i: int| 0 <= i < 9 ==> 97 <= #[trigger] wanted[i] <= 122);
    if header_is(headers, FieldName::Upgrade@, "websocket"@) {
        assert forall|i: int| 0 <= i < 9 implies {
            ||| #[trigger] first[i] == "websocket"@[i] as u8
            ||| first[i] + 32 == "websocket"@[i] as u8
        } by {
            assert(wanted[i] == "websocket"@[i] as u8);
        }
    }
    if headers.contains_key("upgrade"@) && first.len() == 9 && forall|i: int|
        0 <= i < 9 ==> {
            ||| #[trigger] first[i] == "websocket"@[i] as u8
            ||| first[i] + 32 == "websocket"@[i] as u8
        } {
        assert forall|i: int| 0 <= i < first.len() implies {
            ||| #[trigger] first[i] == wanted[i]
            ||| 65 <= first[i] <= 90 && wanted[i] == first[i] + 32
            ||| 97 <= first[i] <= 122 && wanted[i] == first[i] - 32
        } by {
            assert(wanted[i] == "websocket"@[i] as u8);
            assert(97 <= wanted[i] <= 122);
        }
    }
}

/// A letter is taken for the lower case letter `wanted` where it is that letter in either case.
proof fn lemma_letter(c: char, wanted: char)
    requires
        'a' <= wanted <= 'z',
    ensures
        (wanted == if 'A' <= c <= 'Z' {
            (c as u32 + 32) as char
        } else {
            c
        }) <==> (c == wanted || c as u32 + 32 == wanted as u32),
{
    if c as u32 + 32 == wanted as u32 {
        assert('A' <= c <= 'Z');
        assert((c as u32 + 32) as char == wanted);
    }
}

/// The `Connection` header includes `upgrade` where its first value is UTF-8 and has these seven
/// letters in a row, each in upper or lower case.
proof fn lemma_connection(headers: Contents)
    ensures
        header_includes(headers, FieldName::Connection@, "upgrade"@) <==> {
            &&& headers.contains_key("connection"@)
            &&& valid_utf8(headers["connection"@][0])
            &&& exists|before: Seq<char>, found: Seq<char>, after: Seq<char>|
                {
                    &&& decode_utf8(headers["connection"@][0]) == #[trigger] (before + found
                        + after)
                    &&& found.len() == 7
                    &&& forall|i: int|
                        0 <= i < 7 ==> {
                            ||| #[trigger] found[i] == "upgrade"@[i]
                            ||| found[i] as u32 + 32 == "upgrade"@[i] as u32
                        }
                }
        },
{
    reveal_strlit("upgrade");
    let value = "upgrade"@;
    let text = decode_utf8(headers["connection"@][0]);
    law_found_in_lower_case(value, text);
    assert(value.len() == 7);
    assert(forall|i: int| 0 <= i < 7 ==> 'a' <= #[trigger] value[i] <= 'z');
    if header_includes(headers, FieldName::Connection@, "upgrade"@) {
        let (before, found, after) = choose|
            before: Seq<char>,
            found: Seq<char>,
            after: Seq<char>,
        |
            {
                &&& text == #[trigger] (before + found + after)
                &&& found.len() == value.len()
                &&& forall|i: int|
                    0 <= i < value.len() ==> #[trigger] value[i] == if 'A' <= found[i] <= 'Z' {
                        (found[i] as u32 + 32) as char
                    } else {
                        found[i]
                    }
            };
        assert forall|i: int| 0 <= i < 7 implies {
            ||| #[trigger] found[i] == "upgrade"@[i]
            ||| found[i] as u32 + 32 == "upgrade"@[i] as u32
        } by {
            assert('a' <= value[i] <= 'z');
        }
        assert(text == before + found + after);
    }
    if exists|before: Seq<char>, found: Seq<char>, after: Seq<char>|
        {
            &&& text == #[trigger] (before + found + after)
            &&& found.len() == 7
            &&& forall|i: int|
                0 <= i < 7 ==> {
                    ||| #[trigger] found[i] == "upgrade"@[i]
                    ||| found[i] as u32 + 32 == "upgrade"@[i] as u32
                }
        } {
        let (before, found, after) = choose|
            before: Seq<char>,
            found: Seq<char>,
            after: Seq<char>,
        |
            {
                &&& text == #[trigger] (before + found + after)
                &&& found.len() == 7
                &&& forall|i: int|
                    0 <= i < 7 ==> {
                        ||| #[trigger] found[i] == "upgrade"@[i]
                        ||| found[i] as u32 + 32 == "upgrade"@[i] as u32
                    }
            };
        assert forall|i: int| 0 <= i < value.len() implies #[trigger] value[i] == if 'A'
            <= found[i] <= 'Z' {
            (found[i] as u32 + 32) as char
        } else {
            found[i]
        } by {
            assert('a' <= value[i] <= 'z');
            lemma_letter(found[i], value[i]);
        }
        assert(text == before + found + after);
    }
}

/// A request passes `check` exactly where it is a GET request whose `Connection` header has the
/// letters of `upgrade` in a row, whose `Upgrade` header consists of the letters of `websocket`,
/// whose `Sec-WebSocket-Version` header is the two bytes `13`, and which has a `Sec-WebSocket-Key`
/// header. Of several that are missing, the first in this order is reported.
pub proof fn law_check(parts: RequestParts, r: Result<(), WebSocketUpgradeRejection>)
    requires
        call_ensures(RequestParts::check, (&parts,), r),
    ensures
        ({
            let headers = header_contents(parts.headers);
            let get = parts.method@ == seq!['G', 'E', 'T'];
            let connection = {
                &&& headers.contains_key("connection"@)
                &&& valid_utf8(headers["connection"@][0])
                &&& exists|before: Seq<char>, found: Seq<char>, after: Seq<char>|
                    {
                        &&& decode_utf8(headers["connection"@][0]) == #[trigger] (before + found
                            + after)
                        &&& found.len() == 7
                        &&& forall|i: int|
                            0 <= i < 7 ==> {
                                ||| #[trigger] found[i] == "upgrade"@[i]
                                ||| found[i] as u32 + 32 == "upgrade"@[i] as u32
                            }
                    }
            };
            let upgrade = {
                &&& headers.contains_key("upgrade"@)
                &&& headers["upgrade"@][0].len() == 9
                &&& forall|i: int|
                    0 <= i < 9 ==> {
                        ||| #[trigger] headers["upgrade"@][0][i] == "websocket"@[i] as u8
                        ||| headers["upgrade"@][0][i] + 32 == "websocket"@[i] as u8
                    }
            };
            let version = headers.contains_key("sec-websocket-version"@)
                && headers["sec-websocket-version"@][0] == seq![49u8, 51u8];
            let key = headers.contains_key("sec-websocket-key"@);
            match r {
                Ok(_) => get && connection && upgrade && version && key,
                Err(WebSocketUpgradeRejection::MethodNotGet(_)) => !get,
                Err(WebSocketUpgradeRejection::InvalidConnectionHeader(_)) => get && !connection,
                Err(WebSocketUpgradeRejection::InvalidUpgradeHeader(_)) => get && connection
                    && !upgrade,
                Err(WebSocketUpgradeRejection::InvalidWebSocketVersionHeader(_)) => get
                    && connection && upgrade && !version,
                Err(WebSocketUpgradeRejection::WebSocketKeyHeaderMissing(_)) => get && connection
                    && upgrade && version && !key,
            }
        }),
{
    reveal_strlit("GET");
    assert("GET"@ =~= seq!['G', 'E', 'T']);
    lemma_connection(header_contents(parts.headers));
    lemma_upgrade(header_contents(parts.headers));
    lemma_version(header_contents(parts.headers));
}

/// An upgrade can be extracted from a request that passes `check` where the server can hand its
/// connection over and the bits of its key, with what is appended to it, can be counted. A request
/// that does not pass is extractable in that it is rejected.
pub proof fn law_is_extractable(
    parts: RequestParts,
    checked: Result<(), WebSocketUpgradeRejection>,
    r: bool,
)
    requires
        call_ensures(RequestParts::check, (&parts,), checked),
        call_ensures(RequestParts::is_extractable, (&parts,), r),
    ensures
        r <==> (checked is Ok ==> {
            &&& parts.on_upgrade is Some
            &&& (header_contents(parts.headers)["sec-websocket-key"@][0].len() + 36) * 8
                < 0x1_0000_0000_0000_0000
        }),
{
}

/// The answer to a rejected request: its status and its text tell what was wrong.
pub proof fn law_rejection_answers(
    rejection: WebSocketUpgradeRejection,
    response: RejectionResponse,
    message: &'static str,
)
    requires
        call_ensures(WebSocketUpgradeRejection::into_response, (rejection,), response),
        call_ensures(WebSocketUpgradeRejection::message, (&rejection,), message),
    ensures
        response.body@ == message@,
        match rejection {
            WebSocketUpgradeRejection::MethodNotGet(_) => response.status == 405 && message@
                == "Request method must be `GET`"@,
            WebSocketUpgradeRejection::InvalidConnectionHeader(_) => response.status == 400
                && message@ == "Connection header did not include 'upgrade'"@,
            WebSocketUpgradeRejection::InvalidUpgradeHeader(_) => response.status == 400
                && message@ == "`Upgrade` header did not include 'websocket'"@,
            WebSocketUpgradeRejection::InvalidWebSocketVersionHeader(_) => response.status == 400
                && message@ == "`Sec-WebSocket-Version` header did not include '13'"@,
            WebSocketUpgradeRejection::WebSocketKeyHeaderMissing(_) => response.status == 400
                && message@ == "`Sec-WebSocket-Key` header missing"@,
        },
{
}

/// A rejection is answered in the same way by itself and as one of the rejections of an upgrade:
/// another method than GET.
pub proof fn law_method_not_get(
    inner: MethodNotGet,
    own: RejectionResponse,
    words: &'static str,
    rejection: WebSocketUpgradeRejection,
    response: RejectionResponse,
)
    requires
        call_ensures(MethodNotGet::into_response, (inner,), own),
        call_ensures(MethodNotGet::message, (&inner,), words),
        call_ensures(<WebSocketUpgradeRejection as From<MethodNotGet>>::from, (inner,), rejection),
        call_ensures(WebSocketUpgradeRejection::into_response, (rejection,), response),
    ensures
        rejection is MethodNotGet,
        own.status == response.status == 405,
        own.body@ == words@,
        response.body@ == words@,
{
}

/// A rejection is answered in the same way by itself and as one of the rejections of an upgrade:
/// a `Connection` header without `upgrade`.
pub proof fn law_invalid_connection_header(
    inner: InvalidConnectionHeader,
    own: RejectionResponse,
    words: &'static str,
    rejection: WebSocketUpgradeRejection,
    response: RejectionResponse,
)
    requires
        call_ensures(InvalidConnectionHeader::into_response, (inner,), own),
        call_ensures(InvalidConnectionHeader::message, (&inner,), words),
        call_ensures(
            <WebSocketUpgradeRejection as From<InvalidConnectionHeader>>::from,
            (inner,),
            rejection,
        ),
        call_ensures(WebSocketUpgradeRejection::into_response, (rejection,), response),
    ensures
        rejection is InvalidConnectionHeader,
        own.status == response.status == 400,
        own.body@ == words@,
        response.body@ == words@,
{
}

/// A rejection is answered in the same way by itself and as one of the rejections of an upgrade:
/// an `Upgrade` header other than `websocket`.
pub proof fn law_invalid_upgrade_header(
    inner: InvalidUpgradeHeader,
    own: RejectionResponse,
    words: &'static str,
    rejection: WebSocketUpgradeRejection,
    response: RejectionResponse,
)
    requires
        call_ensures(InvalidUpgradeHeader::into_response, (inner,), own),
        call_ensures(InvalidUpgradeHeader::message, (&inner,), words),
        call_ensures(
            <WebSocketUpgradeRejection as From<InvalidUpgradeHeader>>::from,
            (inner,),
            rejection,
        ),
        call_ensures(WebSocketUpgradeRejection::into_response, (rejection,), response),
    ensures
        rejection is InvalidUpgradeHeader,
        own.status == response.status == 400,
        own.body@ == words@,
        response.body@ == words@,
{
}

/// A rejection is answered in the same way by itself and as one of the rejections of an upgrade:
/// another version than `13`.
pub proof fn law_invalid_version_header(
    inner: InvalidWebSocketVersionHeader,
    own: RejectionResponse,
    words: &'static str,
    rejection: WebSocketUpgradeRejection,
    response: RejectionResponse,
)
    requires
        call_ensures(InvalidWebSocketVersionHeader::into_response, (inner,), own),
        call_ensures(InvalidWebSocketVersionHeader::message, (&inner,), words),
        call_ensures(
            <WebSocketUpgradeRejection as From<InvalidWebSocketVersionHeader>>::from,
            (inner,),
            rejection,
        ),
        call_ensures(WebSocketUpgradeRejection::into_response, (rejection,), response),
    ensures
        rejection is InvalidWebSocketVersionHeader,
        own.status == response.status == 400,
        own.body@ == words@,
        response.body@ == words@,
{
}

/// A rejection is answered in the same way by itself and as one of the rejections of an upgrade:
/// no key.
pub proof fn law_key_header_missing(
    inner: WebSocketKeyHeaderMissing,
    own: RejectionResponse,
    words: &'static str,
    rejection: WebSocketUpgradeRejection,
    response: RejectionResponse,
)
    requires
        call_ensures(WebSocketKeyHeaderMissing::into_response, (inner,), own),
        call_ensures(WebSocketKeyHeaderMissing::message, (&inner,), words),
        call_ensures(
            <WebSocketUpgradeRejection as From<WebSocketKeyHeaderMissing>>::from,
            (inner,),
            rejection,
        ),
        call_ensures(WebSocketUpgradeRejection::into_response, (rejection,), response),
    ensures
        rejection is WebSocketKeyHeaderMissing,
        own.status == response.status == 400,
        own.body@ == words@,
        response.body@ == words@,
{
}

} // verus!
