//! The settings of a server and the decisions its connection loop takes:
//! what to do when a request cannot be read or a connection cannot be
//! accepted, whether a connection speaks TLS, and how a plain-HTTP request to
//! a TLS server is redirected.

use vstd::prelude::*;
use vstd::utf8::{decode_utf8, valid_utf8};
use crate::headers::Headers;
use crate::request::Request;
use crate::response::Response;
use crate::ws::{handshake_fields, is_websocket_request, routes_to_websocket, websocket_upgrade};

verus! {

/// The size of the buffer used to read incoming requests: 8KiB by default.
pub const DEFAULT_BUFFER_SIZE: usize = 1024 * 8;

/// The settings of a server that its connection loop reads.
#[derive(Clone)]
pub struct Server {
    /// Size of the buffer that incoming requests are read into.
    pub buffer_size: usize,
    /// Whether default headers are added to every response.
    pub insert_default_headers: bool,
    /// Path prefix at which a WebSocket handler is mounted, if any.
    pub ws_path: Option<String>,
}

/// The WebSocket path of a server, as a sequence of characters.
pub open spec fn ws_path_view(p: Option<String>) -> Option<Seq<char>> {
    match p {
        Some(s) => Some(s@),
        None => None,
    }
}

impl Server {
    /// A server with the default buffer size, no default headers and no
    /// WebSocket handler.
    pub fn new() -> (s: Server)
        ensures
            s.buffer_size == DEFAULT_BUFFER_SIZE,
            !s.insert_default_headers,
            s.ws_path is None,
    {
        Server { buffer_size: DEFAULT_BUFFER_SIZE, insert_default_headers: false, ws_path: None }
    }

    /// Records that default headers are wanted in responses; the flag is
    /// handed to whatever writes the responses.
    pub fn with_default_headers(self) -> (s: Server)
        ensures
            s.insert_default_headers,
            s.buffer_size == self.buffer_size,
            ws_path_view(s.ws_path) == ws_path_view(self.ws_path),
    {
        let mut s = self;
        s.insert_default_headers = true;
        s
    }

    /// Sets the buffer size that incoming requests are read into; the size is
    /// handed to whatever reads the requests.
    pub fn set_buffer_size(&mut self, size: usize)
        ensures
            final(self).buffer_size == size,
            final(self).insert_default_headers == old(self).insert_default_headers,
            ws_path_view(final(self).ws_path) == ws_path_view(old(self).ws_path),
    {
        self.buffer_size = size;
    }

    /// Sets the buffer size and returns the server (see [`Server::set_buffer_size`]).
    pub fn with_buffer_size(self, size: usize) -> (s: Server)
        ensures
            s.buffer_size == size,
            s.insert_default_headers == self.insert_default_headers,
            ws_path_view(s.ws_path) == ws_path_view(self.ws_path),
    {
        let mut s = self;
        s.set_buffer_size(size);
        s
    }

    /// Mounts the WebSocket handler at `path`: requests whose URL starts with
    /// it may become WebSocket connections.
    pub fn on_websocket(self, path: &str) -> (s: Server)
        ensures
            ws_path_view(s.ws_path) == Some(path@),
            s.buffer_size == self.buffer_size,
            s.insert_default_headers == self.insert_default_headers,
    {
        let mut s = self;
        s.ws_path = Some(String::from_str(path));
        s
    }

    /// Decides whether `req` becomes a WebSocket connection on this server (see
    /// [`websocket_upgrade`]).
    pub fn websocket_upgrade(&self, req: &Request) -> (r: Option<Response>)
        ensures
            r is Some <==> (routes_to_websocket(ws_path_view(self.ws_path), req.url@)
                && is_websocket_request(req.headers@)),
            r matches Some(resp) ==> {
                &&& resp.status == 101
                &&& resp.headers@ == handshake_fields(req.headers@["Sec-WebSocket-Key"@])
                &&& resp.body@ == Seq::<u8>::empty()
            },
    {
        match &self.ws_path {
            Some(p) => websocket_upgrade(Some(p.as_str()), req),
            None => websocket_upgrade(None, req),
        }
    }
}

/// The kinds of I/O failure that the connection loop tells apart.
#[derive(Clone, Copy, Debug, PartialEq, Eq)]
pub enum IoErrorKind {
    InvalidInput,
    BrokenPipe,
    ConnectionReset,
    ConnectionAborted,
    UnexpectedEof,
    Other,
}

/// What the connection loop does when reading a request failed.
pub enum AfterReadError {
    /// Send the response, then wait for the next request on the connection.
    ReplyAndContinue(Response),
    /// Close the connection without an answer: the peer has gone.
    Close,
    /// Report the error, send the response, then close the connection.
    ReportReplyAndClose(Response),
}

/// The peer has gone away: the pipe broke, the connection was reset, or the
/// stream ended early.
pub open spec fn peer_gone(kind: IoErrorKind) -> bool {
    kind == IoErrorKind::BrokenPipe || kind == IoErrorKind::ConnectionReset || kind
        == IoErrorKind::UnexpectedEof
}

/// Decides how to go on after a request could not be read: a malformed
/// request gets `400 Bad Request` and the connection stays open; a vanished
/// peer closes the connection silently; any other failure is reported and
/// answered with `500 Internal Server Error` before the connection closes.
pub fn after_read_error(kind: IoErrorKind) -> (a: AfterReadError)
    ensures
        kind == IoErrorKind::InvalidInput ==> (a matches AfterReadError::ReplyAndContinue(r) && r.status
            == 400 && r.headers@ == Map::<Seq<char>, Seq<char>>::empty() && r.body@ == Seq::<
            u8,
        >::empty()),
        peer_gone(kind) ==> a is Close,
        kind != IoErrorKind::InvalidInput && !peer_gone(kind) ==> (a matches AfterReadError::ReportReplyAndClose(
            r,
        ) && r.status == 500 && r.headers@ == Map::<Seq<char>, Seq<char>>::empty() && r.body@
            == Seq::<u8>::empty()),
{
    match kind {
        IoErrorKind::InvalidInput => AfterReadError::ReplyAndContinue(Response::bad_request()),
        IoErrorKind::BrokenPipe | IoErrorKind::ConnectionReset | IoErrorKind::UnexpectedEof => {
            AfterReadError::Close
        },
        _ => AfterReadError::ReportReplyAndClose(Response::internal_server_error()),
    }
}

/// What the accept loop does when a connection could not be accepted.
#[derive(Clone, Copy, Debug, PartialEq, Eq)]
pub enum AfterAcceptError {
    /// Wait for the next connection.
    Retry,
    /// Report the error, then wait for the next connection.
    ReportAndRetry,
}

/// Decides how to go on after accepting a connection failed: aborted or reset
/// connections and invalid input are expected and skipped quietly; any other
/// failure is reported. The loop goes on in every case.
pub fn after_accept_error(kind: IoErrorKind) -> (a: AfterAcceptError)
    ensures
        a == (if kind == IoErrorKind::ConnectionAborted || kind == IoErrorKind::ConnectionReset
            || kind == IoErrorKind::InvalidInput {
            AfterAcceptError::Retry
        } else {
            AfterAcceptError::ReportAndRetry
        }),
{
    match kind {
        IoErrorKind::ConnectionAborted | IoErrorKind::ConnectionReset
        | IoErrorKind::InvalidInput => AfterAcceptError::Retry,
        _ => AfterAcceptError::ReportAndRetry,
    }
}

/// Whether the first two bytes of a connection look like the start of a TLS
/// handshake record (content type 0x16, major version 3).
pub fn looks_like_tls_handshake(peeked: [u8; 2]) -> (r: bool)
    ensures
        r == (peeked@[0] == 0x16 && peeked@[1] == 0x03),
{
    peeked[0] == 0x16 && peeked[1] == 0x03
}

/// The bytes of `s` before its first space (all of `s` when it has none).
pub open spec fn until_space(s: Seq<u8>) -> Seq<u8>
    decreases s.len(),
{
    if s.len() == 0 || s[0] == 0x20 {
        Seq::<u8>::empty()
    } else {
        seq![s[0]] + until_space(s.drop_first())
    }
}

/// The bytes of `s` after its first space, or `None` when it has none.
pub open spec fn after_first_space(s: Seq<u8>) -> Option<Seq<u8>>
    decreases s.len(),
{
    if s.len() == 0 {
        None
    } else if s[0] == 0x20 {
        Some(s.drop_first())
    } else {
        after_first_space(s.drop_first())
    }
}

/// The target of a request line: the bytes between its first and its second
/// space (up to the end when there is no second space), empty when the line
/// has no space at all.
pub open spec fn request_target(s: Seq<u8>) -> Seq<u8> {
    match after_first_space(s) {
        Some(rest) => until_space(rest),
        None => Seq::<u8>::empty(),
    }
}

/// The part of `buffer` that a read of `length` bytes filled.
pub open spec fn filled(buffer: Seq<u8>, length: int) -> Seq<u8> {
    if length < buffer.len() {
        buffer.take(length)
    } else {
        buffer
    }
}

/// Extracts the request target from the first `length` bytes of `buffer`.
pub fn request_path(buffer: &[u8], length: usize) -> (path: Vec<u8>)
    ensures
        path@ == request_target(filled(buffer@, length as int)),
{
    let n = if length < buffer.len() {
        length
    } else {
        buffer.len()
    };
    let ghost data = filled(buffer@, length as int);
    let mut path: Vec<u8> = Vec::new();
    let mut in_path = false;
    let mut i: usize = 0;
    assert(data.skip(0) =~= data);
    while i < n
        invariant
            data == filled(buffer@, length as int),
            n == data.len(),
            n <= buffer@.len(),
            forall|k: int| 0 <= k < n ==> #[trigger] data[k] == buffer@[k],
            i <= n,
            !in_path ==> path@ == Seq::<u8>::empty() && after_first_space(data) == after_first_space(
                data.skip(i as int),
            ),
            in_path ==> request_target(data) == path@ + until_space(data.skip(i as int)),
        decreases n - i,
    {
        let byte = buffer[i];
        assert(data.skip(i as int).drop_first() =~= data.skip(i as int + 1));
        assert(data.skip(i as int)[0] == byte);
        if byte == 0x20 {
            if in_path {
                assert(until_space(data.skip(i as int)) == Seq::<u8>::empty());
                assert(path@ + Seq::<u8>::empty() =~= path@);
                return path;
            } else {
                in_path = true;
                assert(Seq::<u8>::empty() + until_space(data.skip(i as int + 1)) =~= until_space(data.skip(i as int + 1)));
                i = i + 1;
                continue;
            }
        }
        if in_path {
            let ghost old_path = path@;
            path.push(byte);
            assert(old_path + until_space(data.skip(i as int)) =~= path@ + until_space(data.skip(i as int + 1)));
        }
        i = i + 1;
    }
    assert(data.skip(n as int).len() == 0);
    assert(path@ + Seq::<u8>::empty() =~= path@);
    path
}

/// What `String::from_utf8_lossy` makes of `bytes`.
pub uninterp spec fn utf8_lossy(bytes: Seq<u8>) -> Seq<char>;

/// Calls `String::from_utf8_lossy` on `bytes`. Trusted: the result is fixed by
/// the bytes, and valid UTF-8 is decoded as it stands. How invalid sequences
/// are replaced by U+FFFD is left unsaid.
#[verifier::external_body]
fn from_utf8_lossy(bytes: &[u8]) -> (s: String)
    ensures
        s@ == utf8_lossy(bytes@),
        valid_utf8(bytes@) ==> s@ == decode_utf8(bytes@),
{
    String::from_utf8_lossy(bytes).into_owned()
}

/// The `Location` that sends a plain-HTTP request to the same target over HTTPS.
pub open spec fn https_location(host: Seq<char>, buffer: Seq<u8>, length: int) -> Seq<char> {
    "https://"@ + host + utf8_lossy(request_target(filled(buffer, length)))
}

/// Answers a plain-HTTP request that reached a TLS server: `301 Moved
/// Permanently` to `https://{host}{target}`, where the target is read from the
/// first `length` bytes of the request in `buffer`, keeping the connection.
pub fn https_redirect(host: &str, buffer: &[u8], length: usize) -> (r: Response)
    ensures
        r.status == 301,
        r.headers@ == Map::<Seq<char>, Seq<char>>::empty().insert(
            "Location"@,
            https_location(host@, buffer@, length as int),
        ).insert("Connection"@, "keep-alive"@),
        valid_utf8(request_target(filled(buffer@, length as int))) ==> r.headers@["Location"@]
            == "https://"@ + host@ + decode_utf8(request_target(filled(buffer@, length as int))),
        r.body@ == Seq::<u8>::empty(),
{
    let path = request_path(buffer, length);
    let target = from_utf8_lossy(path.as_slice());
    let mut location = String::from_str("https://");
    location.append(host);
    location.append(target.as_str());
    let mut headers = Headers::new();
    headers.insert("Location", location);
    headers.insert("Connection", String::from_str("keep-alive"));
    proof {
        reveal_strlit("Location");
        reveal_strlit("Connection");
        assert("Location"@[0] != "Connection"@[0]);
    }
    Response::moved_permanently(headers)
}

/// The target read from a request line never holds a space.
pub proof fn law_request_target_has_no_space(s: Seq<u8>)
    ensures
        !request_target(s).contains(0x20),
{
    match after_first_space(s) {
        Some(rest) => lemma_until_space_has_no_space(rest),
        None => {},
    }
}

proof fn lemma_until_space_has_no_space(s: Seq<u8>)
    ensures
        !until_space(s).contains(0x20),
    decreases s.len(),
{
    if s.len() != 0 && s[0] != 0x20 {
        lemma_until_space_has_no_space(s.drop_first());
        let t = until_space(s);
        assert forall|i: int| 0 <= i < t.len() implies t[i] != 0x20 by {
            if i > 0 {
                assert(t[i] == until_space(s.drop_first())[i - 1]);
            }
        }
    }
}

/// The target is copied out of the request line unchanged: when the line has a
/// first space at `i`, the target is the run of bytes that starts right after
/// it, byte for byte, and ends at the next space or at the end of the line;
/// when the line has no space, the target is empty.
pub proof fn law_request_target_is_a_slice(s: Seq<u8>, i: int)
    ensures
        (forall|k: int| 0 <= k < s.len() ==> s[k] != 0x20) ==> request_target(s) == Seq::<
            u8,
        >::empty(),
        (0 <= i < s.len() && s[i] == 0x20 && forall|k: int| 0 <= k < i ==> s[k] != 0x20) ==> {
            let t = request_target(s);
            &&& i + 1 + t.len() <= s.len()
            &&& forall|k: int| 0 <= k < t.len() ==> #[trigger] t[k] == s[i + 1 + k]
            &&& (i + 1 + t.len() == s.len() || s[i + 1 + t.len()] == 0x20)
        },
{
    lemma_after_first_space(s);
    if 0 <= i < s.len() && s[i] == 0x20 && forall|k: int| 0 <= k < i ==> s[k] != 0x20 {
        lemma_first_space_unique(s, i);
        lemma_until_space_is_prefix(s.skip(i + 1));
    }
}

/// The first space of `s`, when there is one, is unique.
proof fn lemma_first_space_unique(s: Seq<u8>, i: int)
    requires
        0 <= i < s.len(),
        s[i] == 0x20,
        forall|k: int| 0 <= k < i ==> s[k] != 0x20,
    ensures
        after_first_space(s) == Some(s.skip(i + 1)),
    decreases s.len(),
{
    if i > 0 {
        let t = s.drop_first();
        assert forall|k: int| 0 <= k < i - 1 implies t[k] != 0x20 by {
            assert(t[k] == s[k + 1]);
        }
        lemma_first_space_unique(t, i - 1);
        assert(t.skip(i) =~= s.skip(i + 1));
    } else {
        assert(s.drop_first() =~= s.skip(1));
    }
}

/// Without a space, `s` has no part after a first space.
proof fn lemma_after_first_space(s: Seq<u8>)
    ensures
        (forall|k: int| 0 <= k < s.len() ==> s[k] != 0x20) ==> after_first_space(s) is None,
    decreases s.len(),
{
    if s.len() > 0 {
        let t = s.drop_first();
        if forall|k: int| 0 <= k < s.len() ==> s[k] != 0x20 {
            assert forall|k: int| 0 <= k < t.len() implies t[k] != 0x20 by {
                assert(t[k] == s[k + 1]);
            }
        }
        lemma_after_first_space(t);
    }
}

/// The bytes before the first space are a prefix of `s`, ended by a space or
/// by the end of `s`.
proof fn lemma_until_space_is_prefix(s: Seq<u8>)
    ensures
        until_space(s).len() <= s.len(),
        forall|k: int| 0 <= k < until_space(s).len() ==> #[trigger] until_space(s)[k] == s[k],
        until_space(s).len() == s.len() || s[until_space(s).len() as int] == 0x20,
    decreases s.len(),
{
    if s.len() != 0 && s[0] != 0x20 {
        let t = s.drop_first();
        lemma_until_space_is_prefix(t);
        let u = until_space(s);
        assert forall|k: int| 0 <= k < u.len() implies #[trigger] u[k] == s[k] by {
            if k > 0 {
                assert(u[k] == until_space(t)[k - 1]);
            }
        }
        if until_space(t).len() != t.len() {
            assert(s[u.len() as int] == t[until_space(t).len() as int]);
        }
    }
}

} // verus!
