# snowboard

An HTTP server toolkit whose decisions are proved with Verus.

- `src/` — the verified library:
  - `headers.rs`: header maps (`Headers`) with a map view and no duplicate names;
  - `text.rs`: ASCII case-insensitive comparison and prefix tests on strings;
  - `request.rs`, `response.rs`: requests and responses, and the rule that
    fixes the `connection` field of every response;
  - `ws.rs`: the WebSocket opening handshake (SHA-1 and base64 are called
    through the `sha1` and `base64` crates);
  - `server.rs`: server settings, the handling of read and accept failures,
    TLS detection and the HTTPS redirect of plain-HTTP requests.
- `app/` — the asynchronous networking around it (smol, async-tungstenite,
  async-native-tls). The HTTP wire format is supplied through the `Exchange`
  trait.
- `tests/` — tests of the library on concrete values.
