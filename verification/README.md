# scanning_backend

Server side of a supermarket self-scanning service. Each client talks to the server
over a websocket; every message carries the client's nonce and the digit of the screen
the client is on, and the server walks the client through the token handshake (0),
login (1), sign-up (2), store locator (3), scanning (4) and payment (5).

- `src/` is the verified library (Verus): the connection table, the per-connection
  session and its connection loop decisions, and the handlers of each screen. Every
  public function states in its contract what it returns and how it changes the
  session and the table; the calls into argon2, chrono, regex, creditcard,
  serde_json, serde-email and rand stand behind small trusted wrappers whose contracts
  name or bound their results.
- `tests/` exercises the library on concrete values.
- `app/` is the program: the websocket server (tokio, tungstenite), the SQLite
  queries, the JSON shapes of items, checkout lists and cards, the floating-point
  checkout checks, and certificate generation with OpenSSL.
