//! HTTP responses as the server loop handles them, and the rule that fixes the
//! `connection` header of every response before it is sent.

use vstd::prelude::*;
use crate::headers::Headers;
use crate::text::{ascii_fold, eq_ignore_ascii_case, str_eq_ignore_ascii_case};

verus! {

/// A response: status code, header fields and body bytes.
pub struct Response {
    pub status: u16,
    pub headers: Headers,
    pub body: Vec<u8>,
}

/// The response asks for the connection to be closed: its `connection` field
/// reads `close`, ignoring ASCII case.
pub open spec fn asks_to_close(h: Map<Seq<char>, Seq<char>>) -> bool {
    h.contains_key("connection"@) && eq_ignore_ascii_case(h["connection"@], "close"@)
}

/// The value the `connection` field gets before a response is sent: `keep-alive`
/// when the request allows it and the response did not ask to close, else `close`.
pub open spec fn connection_value(h: Map<Seq<char>, Seq<char>>, keep_alive: bool) -> Seq<char> {
    if keep_alive && !asks_to_close(h) {
        "keep-alive"@
    } else {
        "close"@
    }
}

/// The header fields of a response once its `connection` field is fixed.
pub open spec fn with_connection_fixed(h: Map<Seq<char>, Seq<char>>, keep_alive: bool) -> Map<
    Seq<char>,
    Seq<char>,
> {
    h.insert("connection"@, connection_value(h, keep_alive))
}

impl Response {
    /// A response with the given parts.
    pub fn new(status: u16, headers: Headers, body: Vec<u8>) -> (r: Response)
        ensures
            r.status == status,
            r.headers@ == headers@,
            r.body@ == body@,
    {
        Response { status, headers, body }
    }

    /// `400 Bad Request`, no fields, empty body.
    pub fn bad_request() -> (r: Response)
        ensures
            r.status == 400,
            r.headers@ == Map::<Seq<char>, Seq<char>>::empty(),
            r.body@ == Seq::<u8>::empty(),
    {
        Response { status: 400, headers: Headers::new(), body: Vec::new() }
    }

    /// `500 Internal Server Error`, no fields, empty body.
    pub fn internal_server_error() -> (r: Response)
        ensures
            r.status == 500,
            r.headers@ == Map::<Seq<char>, Seq<char>>::empty(),
            r.body@ == Seq::<u8>::empty(),
    {
        Response { status: 500, headers: Headers::new(), body: Vec::new() }
    }

    /// `101 Switching Protocols` with the given fields and an empty body.
    pub fn switching_protocols(headers: Headers) -> (r: Response)
        ensures
            r.status == 101,
            r.headers@ == headers@,
            r.body@ == Seq::<u8>::empty(),
    {
        Response { status: 101, headers, body: Vec::new() }
    }

    /// `301 Moved Permanently` with the given fields and an empty body.
    pub fn moved_permanently(headers: Headers) -> (r: Response)
        ensures
            r.status == 301,
            r.headers@ == headers@,
            r.body@ == Seq::<u8>::empty(),
    {
        Response { status: 301, headers, body: Vec::new() }
    }

    /// Sets one header field, replacing an earlier value of it.
    pub fn set_header(&mut self, name: &str, value: String)
        ensures
            final(self).headers@ == old(self).headers@.insert(name@, value@),
            final(self).status == old(self).status,
            final(self).body@ == old(self).body@,
    {
        self.headers.insert(name, value);
    }

    /// Whether the response itself asks for the connection to be closed.
    pub fn asks_to_close(&self) -> (r: bool)
        ensures
            r == asks_to_close(self.headers@),
    {
        match self.headers.get("connection") {
            Some(v) => str_eq_ignore_ascii_case(v.as_str(), "close"),
            None => false,
        }
    }

    /// Fixes the `connection` field before the response is sent: `keep-alive`
    /// when the request allows keeping the connection and the response does not
    /// ask to close it, `close` otherwise.
    pub fn finish_connection(&mut self, keep_alive: bool)
        ensures
            final(self).headers@ == with_connection_fixed(old(self).headers@, keep_alive),
            final(self).status == old(self).status,
            final(self).body@ == old(self).body@,
    {
        let force_close = self.asks_to_close();
        if keep_alive && !force_close {
            self.set_header("connection", String::from_str("keep-alive"));
        } else {
            self.set_header("connection", String::from_str("close"));
        }
    }
}

/// After its `connection` field is fixed, a response reads `keep-alive` or
/// `close` there, and `close` whenever the request did not allow keeping the
/// connection.
pub proof fn law_connection_field_is_decided(h: Map<Seq<char>, Seq<char>>, keep_alive: bool)
    ensures
        with_connection_fixed(h, keep_alive).contains_key("connection"@),
        with_connection_fixed(h, keep_alive)["connection"@] == "keep-alive"@
            || with_connection_fixed(h, keep_alive)["connection"@] == "close"@,
        !keep_alive ==> with_connection_fixed(h, keep_alive)["connection"@] == "close"@,
        asks_to_close(h) ==> with_connection_fixed(h, keep_alive)["connection"@] == "close"@,
{
}

/// Fixing the `connection` field twice with the same request gives the same
/// fields as fixing it once.
pub proof fn law_connection_fix_idempotent(h: Map<Seq<char>, Seq<char>>, keep_alive: bool)
    ensures
        with_connection_fixed(with_connection_fixed(h, keep_alive), keep_alive)
            == with_connection_fixed(h, keep_alive),
{
    reveal_strlit("keep-alive");
    reveal_strlit("close");
    let h1 = with_connection_fixed(h, keep_alive);
    if connection_value(h, keep_alive) == "keep-alive"@ {
        assert(!eq_ignore_ascii_case("keep-alive"@, "close"@));
        assert(!asks_to_close(h1));
    } else {
        assert(asks_to_close(h1));
    }
    assert(h1.insert("connection"@, connection_value(h1, keep_alive)) =~= h1);
}

/// The `connection` field is decided by the request's keep-alive flag and the
/// response's own `connection` field alone: `keep-alive` when the request
/// allows it and that field does not read `close` (any ASCII case), `close`
/// otherwise; every other field is left as it was.
pub proof fn law_connection_decided_by_flag_and_own_field(
    h: Map<Seq<char>, Seq<char>>,
    keep_alive: bool,
    other: Seq<char>,
)
    ensures
        (keep_alive && !(h.contains_key("connection"@) && h["connection"@].len() == 5 && forall|
            k: int,
        | 0 <= k < 5 ==> #[trigger] ascii_fold(h["connection"@][k]) == ascii_fold("close"@[k])))
            ==> with_connection_fixed(h, keep_alive)["connection"@] == "keep-alive"@,
        (!keep_alive || (h.contains_key("connection"@) && h["connection"@].len() == 5 && forall|
            k: int,
        | 0 <= k < 5 ==> #[trigger] ascii_fold(h["connection"@][k]) == ascii_fold("close"@[k])))
            ==> with_connection_fixed(h, keep_alive)["connection"@] == "close"@,
        other != "connection"@ ==> (with_connection_fixed(h, keep_alive).contains_key(other)
            == h.contains_key(other) && (h.contains_key(other) ==> with_connection_fixed(
            h,
            keep_alive,
        )[other] == h[other])),
{
    reveal_strlit("close");
}

} // verus!
