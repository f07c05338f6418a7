# Zigzag

A relay that retains authenticated completion events and runs allowlisted
commands, and a poller that holds a long poll open and writes the delivered
events as JSON Lines. The decisions of both programs are a library that Verus
proves against its contracts; sockets, files, threads and child processes are
ordinary Rust around it.

## Layout

- `src/text.rs`, `src/bytes.rs`, `src/scan.rs`: text as sequences of characters.
- `src/json.rs`: JSON values.
- `src/query.rs`, `src/url.rs`: percent encoding, queries and URLs.
- `src/http.rs`: reading a request line by line, writing a response.
- `src/relay.rs`: authorization, routing and the answers of the relay.
- `src/jules.rs`: the `jules` bridge: allowlist, supervision, captured output.
- `src/exec.rs`: execution under the owner's policy, and who may change it.
- `src/tailnet.rs`, `src/config.rs`: bind addresses and command lines.
- `src/poller.rs`: polls, responses, the cursor and what an answer comes to.
- `src/delivery.rs`, `src/keeping.rs`, `src/rounds.rs`: the order in which an
  answer is delivered and a cursor is kept, and the cursor of each poll.
- `src/laws.rs`, `src/exchange.rs`: what one side writes the other reads.
- `app/`: both programs. They take JSON text and the event store from the
  workspace crate `relay_core`, and the execution policy from a host that
  implements `ExecHost`.
- `tests/`: the library on concrete values.

What is trusted rather than proved: `String::push` in `src/text.rs`, and
`String::from_utf8` and `String::from_utf8_lossy` in `src/bytes.rs`.
