# nat_traversal

Verified decisions behind a set of UDP NAT traversal experiments: observing
the translation of a UDP source, discovering the external endpoint with
STUN, punching a hole towards a peer, and introducing two peers through a
rendezvous server so that they punch towards each other's candidates.

- `src/` is the library, verified with Verus:
  - `endpoint`: transport addresses as plain integers; picking the first IPv4
    address that a name resolved to.
  - `candidates`: the endpoints a peer offers (loopback, routed interface,
    STUN-reflexive address, the last only once).
  - `punch`: the numbered `hello N` probe schedule with its `ack` reply and
    its bounded number of attempts.
  - `session`: the peer-to-peer session after the introduction: punching,
    the first answer fixing the endpoint, messages, `BYE` and `/quit`.
  - `rooms`: the rendezvous table, one waiting peer per room.
  - `cli`: what each program takes from its command line.
- `app/` runs the programs (`server`, `client`, `stun`, `hole-punch`, `peer`,
  `rendezvous`): sockets, standard input, STUN queries, JSON and the async
  event loops, each carrying out what the library decides.
- `tests/` exercises the library on concrete values.
