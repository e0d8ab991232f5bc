# call_proxy

The call module of a SIP proxy, written in Rust and verified with Verus.

The module passes INVITE and BYE requests on to the place at which the callee has registered, relays
responses and acknowledgements, and keeps a session for each call that has been accepted. A session
that is silent for five minutes is dropped; an OPTIONS in its dialog keeps it alive.

- `src/` is the verified library. It does no input or output: each step of a transaction ends in an
  action to carry out, and takes what came of the last one as an event.
  - `call` is the module itself, `protocol` its actions and events, `sessions` the table of sessions.
  - `sip` and `dialog` are the messages and the dialogs they belong to.
  - `steps` states what every step leads to; `properties` proves what holds of whole transactions and
    of the sessions.
  - `outside` holds the calls into `rsip`, `rsipstack` and the standard library whose contracts are
    trusted.
- `app/` runs the module on `rsipstack` and `tokio`.
- `tests/` runs the library with the real SIP crates.
