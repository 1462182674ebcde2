# input_only_proxy

A TLS proxy that only takes input. A client that holds one expected Ed25519 key
may connect and send; what it sends is passed on to a container's Unix socket,
through a queue without bound, so that the pace of the container does not show on
the side of the connection.

- `src/` is the verified library.
  - `text`: white space, trimming and prefixes.
  - `openssh`: the OpenSSH line of an Ed25519 key.
  - `pubkey`: the expected public key, read from an SSH key file.
  - `client_auth`: the rules for client certificates and handshake signatures.
  - `socket`: the way to the container's socket, as a state machine.
  - `server_cert`: the server's certificate and key, read or made, as a state machine.
  - `relay`: the byte counts of the two sides, and the model of the relay.
  - `foreign`: the calls into outside crates, and what is believed of them.
- `app/` is the program around it: arguments, files, sockets, tasks and logging.
- `tests/` runs the library with the outside crates linked.
