# Hush

A messenger whose relay never sees what is said. This crate is its logic, verified
with Verus; `app/` is the program around it.

- `src/server`: the relay. Accounts, sessions, contacts, keys, messages, the
  archive, client updates. Every request is a method on `Relay` that takes plain
  values and the time, and says what it stores and whom it tells. `take_writes`
  hands out what has to be kept, and `Relay::restore` builds the relay from it.
- `src/client`: the client. `Actor::begin` and `Actor::finish` run a command,
  `start_errand` and `advance` send a message, `start_reception` and
  `advance_reception` take one in. Each step says what to do next; whoever runs it
  does that and hands back what came of it.
- `src/db`: the client's database, sealed with the device key.
- `src/engine`, `src/api`, `src/transfer`, `src/archive`: envelopes and key bundles,
  what the relay answers, the export file, the archive.
- `src/sealing`, `src/codec`, `src/json`, `src/password`, `src/random`, `src/mail`,
  `src/text`: the calls into other crates, each with the contract that the proofs
  rest on.

The laws, such as that nothing is encrypted for a key that changed, are public proof
functions beside what they speak of; those of the relay are in `src/server/laws.rs`.

`app/` holds HTTP, SQLite, SMTP, the clock, the logs, libsignal and the desktop
shell. Run it without arguments for the relay, with `desktop` for the client.
