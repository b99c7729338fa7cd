# p2x

A server of the p2x network keeps private services reachable: it registers them
with an exchange, reserves a place on the exchange's relay, and opens a tunnel to
a service for every client that brings a ticket of the exchange.

`src/` is the library. It holds everything that the server, the exchange and
their configuration decide, written in Verus, with contracts that are proved:

- the messages and their wire forms: `auth`, `auth_codec`, `registry`,
  `registry_codec`, `resolve`, `resolve_codec`, `proxy`, `proxy_codec`, `ticket`,
  `selector`, `frame`, `error`, `ids`, `credential`;
- configuration: `service_config`, `credential_file`, `ticket_key`,
  `secret_file`, `identity`, `trust`, `yaml`, `builder`;
- connections: `auth_state`, `exchange_link`, `reservation`, `connection_book`,
  `path_selector`, `relay_admission`, `streams`, `stream_handler`,
  `probe_stream`, `proxy_stream`, `probe`, `address`, `peer`;
- the server: `availability`, `registry_operation`, `stream_admission`,
  `ticket_admission`, `proxy_open`, `proxy_owner`, `worker_finish`, `upstream`,
  `tunnel`, `lifecycle`;
- what the others stand on: `bytes`, `text`, `hex`, `clock`, `table`, `workers`,
  `crypto`.

Proof functions whose names begin with `law_` state what holds across several
functions.

Times are numbers: nanoseconds since some fixed moment where only differences
matter, seconds or milliseconds since 1970 elsewhere. Hashes, signatures, peer
identities, addresses, YAML and random numbers come from outside crates; each
call stands behind a function marked `external_body`, whose comment says what is
taken on trust.

`app/` is the program around the library: arguments, files, sockets, libp2p's
swarm and the event loop. `tests/` runs the library.
