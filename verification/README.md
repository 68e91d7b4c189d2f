# edgetunnel

Request handling for a tunnel at the edge of a network, with contracts that Verus proves.

A client opens a web socket and says in a header who it is and where it wants to go; the worker
checks the key, connects to the far end (directly, through NAT64, or through a proxy) and carries
the traffic. A worker also hands out the documents with which clients are set up, and passes
requests on as a reverse proxy.

- `src/gateway`: keys are made from an MD5 digest of the secret path.
- `src/relay`: keys can be read off the secret path.
- `src/bridge`: tunnels only, for one key.
- `src/text.rs`, `address.rs`, `codec.rs`, `identity.rs`, `preferred.rs`: text, IP addresses,
  encodings, keys and lists of nodes, which the three share. The functions marked
  `external_body` there call `base64`, `urlencoding`, `md5`, `uuid` and std, and each says what is
  taken on trust.
- `app`: the sockets, fetches and environment of a worker around the library.
- `tests`: the library on concrete values.

Functions named `law_..` are what holds of the library as a whole: that the right key opens a
tunnel and no other does, that headers, nodes and addresses are read as they are written, in which
order connections are tried, and what the reverse proxy fetches.
