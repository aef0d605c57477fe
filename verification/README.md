# siphon-smpp

An SMPP 3.4 addon for the siphon scripting host, with its decisions verified in
Verus. Scripts authorise binds, handle PDUs and send messages; the addon owns
the wire and the clock.

## Layout

- `src/` — the verified library. Everything that decides something about a
  configuration, a message or a session is a function here, with a contract:
  - configuration: `config`, `sections` (defaults), `env` (variables), `readout`
    (what scripts see of it), `plan` (what is started from it)
  - messages: `pdu`, `tlv`, `receipt`, `reply`, `status`, `sends`, `submit`
  - sessions: `auth`, `sessions`, `dispatch`, `limiter`, `supervisor`
  - operation: `metrics`, `load`
  - groundwork: `text`, `numbers`, `order`, `script`
- `app/` — ordinary Rust around it: files and environment, the `smpp34`
  sessions, the Python classes, the host's metrics store, the load driver.
- `tests/` — the library's tests, with the codec and the metrics store linked.

## What is trusted

Four calls into `smpp34` (its table of optional parameters, the reading of a
C-octet string, the wire images of a TLV and of a `data_sm`) and a handful of
`std` string functions have contracts that are not proved. Each carries a doc
comment that says what is claimed of it.

## Limits of the wire

The server of `smpp34` has no TLS, and its client trusts the system's CAs alone.
A listener with `server.tls`, and a bind with `tls.ca_path`, are therefore
refused at the start with an error in the log, never started with less.

## Conventions

- Text is `Seq<char>`, the view of `String`; bytes are `Seq<u8>`.
- Time is nanoseconds of a monotonic clock, handed in by the caller. The token
  buckets and the percentiles are exact integers.
- What the script interpreter or a peer returns comes in as a plain enum, and
  the functions that take it are total over it.
- Properties that span functions are public proof functions at the end of each
  module.
