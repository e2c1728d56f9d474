# hybrid_net

The decisions of a hybrid peer-to-peer network service: how bus addresses are
resolved to nodes, where a call goes, what becomes of the messages of other
nodes, how response streams end, how the relay server is found, and what the
agreement endpoints of the market answer.

- `src/` is the library. What its functions return is stated in contracts that
  Verus proves. Functions named `law_..` state what holds of several of them
  together, or of a whole run of calls.
- `tests/` runs the library on concrete values.
- `app/` connects it to the service bus, the relay client and the web server.

Outside crates are called in `src/` only behind functions marked
`#[verifier::external_body]`; the comment above each says what is taken on
trust.
