# clustat

Shows the GPUs of a cluster, node by node, with who is using them.

Every node runs a server that reads its devices and answers queries over TCP,
UDP or KCP. On a user's machine a backend finds the nodes by multicast, keeps a
table of their last answers and serves it over a Unix socket; a command-line
client asks the backend and prints a table or JSON.

`src/` is the library, written in Verus: the wire formats, the caches, the
state machines of both sides and the rendering, each with its contract and its
proof.

- `common`: frames, payloads, UDP chunks and their reassembly, messages,
  configuration, error codes
- `server`: readings and what they must satisfy, the cache that collects once
  for many askers, the answers to requests, sessions, startup checks
- `client`: discovery, node filters, the table of connections, what is sent to
  a node and what is made of its replies, the local interface
- `cli`: arguments, rendering, the refresh loop
- `bytes`, `text`, `textmap`, `sorted`: big- and little-endian numbers, strings,
  a map keyed by strings, ordered output

Functions named `law_*` state what holds of several functions together: that a
message reads back as what was written, that chunks may arrive in any order,
that askers of a running collection all get its outcome.

What the proofs rest on besides Verus is marked `external_body` or
`assume_specification` and says in its comment which function it stands for:
`rkyv` archives, `crc32fast` checksums, `serde_json` lookups and a few string
functions of the standard library.

`app/` is the program around the library: sockets, files, signals, NVML and
serialisation. It starts the server, the backend or the command line, by the
name it is called by. `tests/` runs the library on concrete values.
