# hotaru_mqtt

MQTT 3.1.1 broker and client, with MQTT 5 framing and properties chosen per
connection by the CONNECT handshake. The logic is verified with Verus.

- `src/` is the library: the wire codec, topic matching, sessions, the broker and
  both sides of the protocol. It does no I/O.
- `app/` is the runtime around it: sockets and tasks on Tokio, the `Authenticator`
  and `DefaultInboundHandler` hooks, and the glue to `hotaru_core`.
- `tests/` runs the library on concrete packets and conversations.

| Module       | Responsibility                                                  |
| ------------ | --------------------------------------------------------------- |
| `wire`       | Integers, lengths, length-prefixed text and bytes.              |
| `topic`      | Topic names and filters: levels, validation, matching.          |
| `properties` | MQTT 5 property blocks.                                         |
| `packet`     | Packet types, their views, their numbers on the wire.           |
| `request`    | QoS, requests and responses, filters, will, credentials.        |
| `codec`      | Packets to bytes and back, from buffers and from streams.       |
| `session`    | Packet identifiers, the binding, what is in flight.             |
| `channel`    | One connection: its session, its outbox, what a writer does.    |
| `broker`     | Sessions, subscriptions, publishing.                            |
| `fanout`     | What the broker promises.                                       |
| `client`     | `MqttClientConfig` and the CONNECT that it asks for.            |
| `protocol`   | Server and client side, operations, and what they promise.      |
| `buffers`    | What is used of the `bytes` crate.                              |
| `tables`     | What is used of the `dashmap` crate.                            |
| `error`      | `MqttError`, `CodecError`, `Violation`, `TimeoutKind`.          |

Functions state in `ensures` what they return and change, over views: a packet is
its fields over characters and bytes, a channel is its session and outbox, a
broker is three maps. Public proof functions state what holds across functions:
that decoding gives back what was encoded, that a publish reaches every matching
subscriber and nobody else, that a QoS 2 publish is taken once.

What the verifier is told without proof are the calls into `bytes`, `dashmap` and
a few functions of the standard library; each stands in a function of its own
whose comment names the call.
