# foxglove

A verified core of the Foxglove SDK, written in Verus. Every function in `src/` carries a
contract that Verus proves; calls into other crates go through a few small wrappers whose
contracts state what those crates document.

- `src/time.rs`: timestamps and durations, their normalization and protobuf encoding.
- `src/ids.rs`, `src/channel.rs`, `src/error.rs`, `src/text.rs`: identifiers, raw channels and
  the sinks they log to, errors, and the text of status messages.
- `src/websocket/`: the Foxglove WebSocket server's state and decisions: the messages
  exchanged (`protocol`), each client's subscriptions and channels (`session`), parameter
  subscriptions, services, the server itself (`server`), the handshake, the binary frames of
  the protocol (`frames`), and the bounded queues that carry messages to clients.
- `src/capi.rs`: the error codes, capability flags and argument checks of the C interface.
- `src/testutil.rs`: sinks for exercising channels.
- `app/`: the runtime around the library: the websocket connections, the JSON messages of the
  protocol, the C functions, and logging.
- `tests/`: tests of the library.

The laws that the library keeps are stated as public proof functions next to the functions
they speak of.
