# axum_tungstenite

WebSocket connections for axum, directly on tungstenite.

`src/` is a Verus library: which requests are accepted and how the others are rejected, the choice
of a subprotocol, the settings of a connection, and the response that completes the opening
handshake. `app/` is the axum extractor and the socket around it: it waits for the connection,
runs the callbacks and moves messages.

| module | contents |
| --- | --- |
| `request` | the parts of a request, and what it has to meet |
| `rejection` | why a request is rejected, and the answer |
| `upgrade` | the extractor, its settings, the response, and what follows it |
| `protocol` | comma separated offers and the choice among them |
| `accept` | the answer to the key of the client |
| `header`, `text` | header names, values and maps; ASCII case and searching |
| `config`, `failure`, `socket` | settings, failed upgrades, the established connection |
| `laws` | what holds of upgrades as a whole |

Extensions are not negotiated: `app/` declines every offer, also where compression is enabled,
because the published tungstenite has no extension layer. The library takes the outcome of a
negotiation as an argument.

The header map of `http`, the digest of `sha1`, the encoding of `base64` and the defaults of
`tungstenite` are called, not verified: each call stands in a function marked
`#[verifier::external_body]` whose comment says what is believed of it.
