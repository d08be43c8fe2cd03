# murm

The verified core of murm, a relay-based messaging client in which every
message is an event signed with an Ed25519 key.

- `src/` is the library, checked with Verus:
  - `event/event.rs`: events, their canonical payload, id, signature and
    validation; the canonical payload is proved to determine the event, and a
    signed event is proved to pass validation.
  - `event/kinds.rs`, `event/tags.rs`, `event/filters.rs`, `event/profile.rs`:
    kinds, tag helpers, relay filters and kind-0 profiles.
  - `identity.rs`: keypairs, hex secrets.
  - `relay.rs`: relay URLs, request and response bodies, HTTP status handling.
  - `encoding.rs`, `text.rs`, `display.rs`: hex, decimal and JSON text, trimming,
    and the short form of keys.
  - `crypto.rs`: SHA-256 and Ed25519 from the `sha2` and `ed25519-dalek` crates.
  - `clock.rs`: the system clock as seconds since the Unix epoch.
- `app/` is the program around it: files and browser storage, the HTTP relay
  client, JSON (de)serialization and the Yew web pages.
- `tests/` exercises the library.
