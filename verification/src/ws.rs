//! The WebSocket opening handshake (RFC 6455, section 4.2): recognising a
//! handshake request and building the `101 Switching Protocols` answer.

use vstd::prelude::*;
use vstd::utf8::encode_utf8;
use base64::Engine;
use sha1::{Digest, Sha1};
use crate::headers::Headers;
use crate::request::Request;
use crate::response::Response;
use crate::text::{ascii_fold, eq_ignore_ascii_case, str_eq_ignore_ascii_case, str_starts_with};

verus! {

/// The SHA-1 digest of `data` (20 bytes).
pub uninterp spec fn sha1_digest(data: Seq<u8>) -> Seq<u8>;

/// The standard base64 text of `data` (RFC 4648 alphabet, `=` padding).
pub uninterp spec fn base64_standard(data: Seq<u8>) -> Seq<char>;

/// Calls `<sha1::Sha1 as Digest>::digest` on `data`. Trusted: the result is the
/// digest of exactly these bytes and, as its type `GenericArray<u8, U20>` fixes,
/// 20 bytes long.
#[verifier::external_body]
fn sha1(data: &[u8]) -> (digest: Vec<u8>)
    ensures
        digest@ == sha1_digest(data@),
        digest@.len() == 20,
{
    Sha1::digest(data).to_vec()
}

/// A character of the standard base64 alphabet: `A`-`Z`, `a`-`z`, `0`-`9`, `+`, `/`.
pub open spec fn is_base64_char(c: char) -> bool {
    ||| 65 <= (c as u32) <= 90
    ||| 97 <= (c as u32) <= 122
    ||| 48 <= (c as u32) <= 57
    ||| c == '+'
    ||| c == '/'
}

/// How many `=` end the padded base64 text of `n` bytes.
pub open spec fn base64_padding(n: nat) -> nat {
    if n % 3 == 1 {
        2
    } else if n % 3 == 2 {
        1
    } else {
        0
    }
}

/// Calls `base64::Engine::encode` of the `STANDARD` engine on `data`. Trusted:
/// the result is the standard padded base64 text of exactly these bytes; as
/// `encoded_len` and `add_padding` in the crate show, it is `4 * ceil(n / 3)`
/// characters long, made of alphabet characters followed by the `=` padding
/// (two for `n % 3 == 1`, one for `n % 3 == 2`, none otherwise). The call
/// panics when the length of that text overflows `usize`, which the
/// precondition rules out.
#[verifier::external_body]
fn base64_encode(data: &[u8]) -> (text: String)
    requires
        4 * ((data@.len() + 2) / 3) <= usize::MAX,
    ensures
        text@ == base64_standard(data@),
        text@.len() == 4 * ((data@.len() + 2) / 3),
        forall|i: int|
            0 <= i < text@.len() - base64_padding(data@.len()) ==> #[trigger] is_base64_char(
                text@[i],
            ),
        forall|i: int|
            text@.len() - base64_padding(data@.len()) <= i < text@.len() ==> #[trigger] text@[i]
                == '=',
{
    base64::engine::general_purpose::STANDARD.encode(data)
}

/// The key that RFC 6455 appends to the client's `Sec-WebSocket-Key`.
pub open spec fn websocket_guid() -> Seq<char> {
    "258EAFA5-E914-47DA-95CA-C5AB0DC85B11"@
}

/// `Sec-WebSocket-Accept` for a client key: base64 of the SHA-1 digest of the
/// UTF-8 bytes of the key followed by those of the GUID.
pub open spec fn accept_value(key: Seq<char>) -> Seq<char> {
    base64_standard(sha1_digest(encode_utf8(key) + encode_utf8(websocket_guid())))
}

/// The shape of an accept value: 28 characters, 27 of the base64 alphabet and
/// one `=` of padding (the base64 text of a 20-byte digest).
pub open spec fn accept_value_well_formed(v: Seq<char>) -> bool {
    &&& v.len() == 28
    &&& forall|i: int| 0 <= i < 27 ==> #[trigger] is_base64_char(v[i])
    &&& v[27] == '='
}

/// The fields of the handshake answer for a client key.
pub open spec fn handshake_fields(key: Seq<char>) -> Map<Seq<char>, Seq<char>> {
    Map::<Seq<char>, Seq<char>>::empty().insert("Upgrade"@, "websocket"@).insert(
        "Connection"@,
        "Upgrade"@,
    ).insert("Sec-WebSocket-Accept"@, accept_value(key))
}

/// A request is a usable WebSocket handshake when its `Upgrade` field reads
/// `websocket` (ignoring ASCII case) and it carries a `Sec-WebSocket-Key` field.
pub open spec fn is_websocket_request(h: Map<Seq<char>, Seq<char>>) -> bool {
    &&& h.contains_key("Upgrade"@)
    &&& eq_ignore_ascii_case(h["Upgrade"@], "websocket"@)
    &&& h.contains_key("Sec-WebSocket-Key"@)
}

/// Builds the header fields that accept a WebSocket handshake with key `sec_key`.
pub fn build_handshake(sec_key: &String) -> (h: Headers)
    ensures
        h@ == handshake_fields(sec_key@),
        accept_value_well_formed(accept_value(sec_key@)),
{
    let key_bytes = sec_key.as_str().as_bytes();
    let guid = "258EAFA5-E914-47DA-95CA-C5AB0DC85B11";
    let guid_bytes = guid.as_bytes();
    let mut input: Vec<u8> = Vec::new();
    let mut i: usize = 0;
    while i < key_bytes.len()
        invariant
            i <= key_bytes@.len(),
            input@ == key_bytes@.subrange(0, i as int),
        decreases key_bytes@.len() - i,
    {
        input.push(key_bytes[i]);
        i = i + 1;
    }
    let mut j: usize = 0;
    while j < guid_bytes.len()
        invariant
            j <= guid_bytes@.len(),
            input@ == key_bytes@ + guid_bytes@.subrange(0, j as int),
        decreases guid_bytes@.len() - j,
    {
        input.push(guid_bytes[j]);
        j = j + 1;
    }
    assert(key_bytes@.subrange(0, key_bytes@.len() as int) =~= key_bytes@);
    assert(guid_bytes@.subrange(0, guid_bytes@.len() as int) =~= guid_bytes@);
    let digest = sha1(input.as_slice());
    let accept = base64_encode(digest.as_slice());
    let mut h = Headers::new();
    h.insert("Upgrade", String::from_str("websocket"));
    h.insert("Connection", String::from_str("Upgrade"));
    h.insert("Sec-WebSocket-Accept", accept);
    h
}

impl Request {
    /// Checks whether the request is a (usable) WebSocket handshake. Of the
    /// fields that the protocol asks for, only `Upgrade` and `Sec-WebSocket-Key`
    /// are checked.
    pub fn is_websocket(&self) -> (r: bool)
        ensures
            r == is_websocket_request(self.headers@),
    {
        let upgrade_ok = match self.headers.get("Upgrade") {
            Some(value) => str_eq_ignore_ascii_case(value.as_str(), "websocket"),
            None => false,
        };
        upgrade_ok && self.headers.contains_key("Sec-WebSocket-Key")
    }

    /// The answer that accepts the request as a WebSocket handshake, or `None`
    /// when it is not one (and the connection stays plain HTTP).
    pub fn handshake_response(&self) -> (r: Option<Response>)
        ensures
            r is Some <==> is_websocket_request(self.headers@),
            r matches Some(resp) ==> {
                &&& resp.status == 101
                &&& resp.headers@ == handshake_fields(self.headers@["Sec-WebSocket-Key"@])
                &&& accept_value_well_formed(accept_value(self.headers@["Sec-WebSocket-Key"@]))
                &&& resp.body@ == Seq::<u8>::empty()
            },
    {
        if !self.is_websocket() {
            return None;
        }
        let key = match self.headers.get("Sec-WebSocket-Key") {
            Some(key) => key,
            None => return None,
        };
        Some(Response::switching_protocols(build_handshake(key)))
    }
}

/// Whether a request for `url` goes to the WebSocket handler mounted at
/// `ws_path`: there is one, and the URL starts with its path.
pub open spec fn routes_to_websocket(ws_path: Option<Seq<char>>, url: Seq<char>) -> bool {
    ws_path matches Some(p) && p.is_prefix_of(url)
}

/// Decides whether a request becomes a WebSocket connection: when a handler is
/// mounted at a prefix of its URL and it is a handshake request, the answer to
/// send before switching protocols; otherwise `None`, and the request is
/// served as plain HTTP.
pub fn websocket_upgrade(ws_path: Option<&str>, req: &Request) -> (r: Option<Response>)
    ensures
        r is Some <==> (routes_to_websocket(
            match ws_path {
                Some(p) => Some(p@),
                None => None,
            },
            req.url@,
        ) && is_websocket_request(req.headers@)),
        r matches Some(resp) ==> {
            &&& resp.status == 101
            &&& resp.headers@ == handshake_fields(req.headers@["Sec-WebSocket-Key"@])
            &&& resp.body@ == Seq::<u8>::empty()
        },
{
    match ws_path {
        Some(path) => {
            if str_starts_with(req.url.as_str(), path) {
                req.handshake_response()
            } else {
                None
            }
        },
        None => None,
    }
}

/// The accept value hashes the client's key exactly as its UTF-8 bytes,
/// unchanged, followed by the UTF-8 bytes of the GUID: for any byte string
/// whose first part is the key's bytes and whose rest is the GUID's bytes, the
/// accept value is the base64 text of its SHA-1 digest.
pub proof fn law_accept_hashes_key_then_guid(key: Seq<char>, input: Seq<u8>)
    requires
        input.len() == encode_utf8(key).len() + encode_utf8(
            "258EAFA5-E914-47DA-95CA-C5AB0DC85B11"@,
        ).len(),
        forall|k: int| 0 <= k < encode_utf8(key).len() ==> #[trigger] input[k] == encode_utf8(key)[k],
        forall|k: int|
            0 <= k < encode_utf8("258EAFA5-E914-47DA-95CA-C5AB0DC85B11"@).len() ==> #[trigger] input[encode_utf8(
                key,
            ).len() + k] == encode_utf8("258EAFA5-E914-47DA-95CA-C5AB0DC85B11"@)[k],
    ensures
        accept_value(key) == base64_standard(sha1_digest(input)),
{
    let kb = encode_utf8(key);
    let gb = encode_utf8("258EAFA5-E914-47DA-95CA-C5AB0DC85B11"@);
    assert forall|k: int| 0 <= k < input.len() implies #[trigger] input[k] == (kb + gb)[k] by {
        if k >= kb.len() {
            assert(input[kb.len() + (k - kb.len())] == gb[k - kb.len()]);
        }
    }
    assert(input =~= kb + gb);
}

/// A request is routed to the WebSocket handler mounted at `p` exactly when
/// its URL starts with `p`, whatever follows; with no handler mounted nothing
/// is routed there.
pub proof fn law_route_is_prefix_match(p: Seq<char>, url: Seq<char>)
    ensures
        routes_to_websocket(Some(p), url) <==> (p.len() <= url.len() && forall|k: int|
            0 <= k < p.len() ==> #[trigger] p[k] == url[k]),
        !routes_to_websocket(None, url),
{
    if p.len() <= url.len() && forall|k: int| 0 <= k < p.len() ==> #[trigger] p[k] == url[k] {
        assert(p =~= url.subrange(0, p.len() as int));
    }
    if routes_to_websocket(Some(p), url) {
        assert forall|k: int| 0 <= k < p.len() implies #[trigger] p[k] == url[k] by {
            assert(p[k] == url.subrange(0, p.len() as int)[k]);
        }
    }
}

/// Whether a request is a WebSocket handshake is decided by its `Upgrade` and
/// `Sec-WebSocket-Key` fields alone: a request qualifies exactly when
/// `Upgrade` reads `websocket` (any ASCII case) and a key is present, and two
/// requests that agree on those two fields are judged alike, whatever other
/// fields (`Origin`, `Host`, ...) they carry.
pub proof fn law_handshake_decided_by_two_fields(
    h1: Map<Seq<char>, Seq<char>>,
    h2: Map<Seq<char>, Seq<char>>,
)
    ensures
        is_websocket_request(h1) <==> (h1.contains_key("Upgrade"@) && h1["Upgrade"@].len() == 9
            && (forall|k: int|
            0 <= k < 9 ==> #[trigger] ascii_fold(h1["Upgrade"@][k]) == ascii_fold(
                "websocket"@[k],
            )) && h1.contains_key("Sec-WebSocket-Key"@)),
        (h1.contains_key("Upgrade"@) == h2.contains_key("Upgrade"@) && (h1.contains_key(
            "Upgrade"@,
        ) ==> h1["Upgrade"@] == h2["Upgrade"@]) && h1.contains_key("Sec-WebSocket-Key"@)
            == h2.contains_key("Sec-WebSocket-Key"@)) ==> is_websocket_request(h1)
            == is_websocket_request(h2),
{
    reveal_strlit("websocket");
}

} // verus!
