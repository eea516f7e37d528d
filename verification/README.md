# fingest_client

The decision logic of the Fingest web and mobile clients, written in Verus and proved
against its contracts.

- `src/` is the library: how a failure is categorised and worded (`error`, `response`),
  which module a session may reach (`modules`, `web`, `mobile`), how free text goes into a
  URL (`url`, `transport`), how money and dates are read and shown (`money`, `date`,
  `forecast`, `view`, `forms`), what each use case checks before the network and announces
  after it (`catalog`, `identity`, `planning`, `wallets`, `events`), where a session is
  kept (`session`, `storage`), and the dependency rule for the client crates (`manifest`).
  Calls into `chrono`, `bigdecimal` and `serde_json` stand behind small trusted wrappers
  whose contracts name what those crates compute.
- `tests/` exercises the library from outside.
- `app/` is the ordinary Rust around it: the JSON wire shapes, the `reqwest` transport, the
  shared event bus, the session stores behind `&self`, the Android Keystore reached through
  JNI, and the async use cases.
