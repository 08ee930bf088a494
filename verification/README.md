# postcard_rpc middleware

A verified library of wire middleware for an RPC protocol.

- `src/le.rs`: little-endian integers of one to eight bytes, with the laws that
  writing and reading them undo each other.
- `src/header.rs`: frame headers (key, sequence number, optional route of
  source and destination addresses), their byte encoding, and the laws that the
  encoding reads back and that every accepted header has one encoding.
- `src/host_client/middleware.rs`: the host's buffered transmit half, which
  stamps this node as the source of every frame, and the buffered receive half,
  which checks frames and hands them on unchanged.
- `src/server/middleware.rs`: the server's buffered halves, which hold the
  wrapped half.
- `src/test_utils.rs`: what the halves of the in-process test wire return for
  each event, and the frames that its fake server builds and reads.
- `app/`: the asynchronous plumbing: wire traits, their impls for the wrappers,
  and the channel-backed test wire.
