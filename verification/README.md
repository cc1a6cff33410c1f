# bimap

A bidirectional network mapper: a client and a server agree over a TLS
control channel on a list of probes (TCP/UDP echo, 1 KiB echo with SHA-256,
TLS, DNS, ICMP), run each probe from one end or both, and report what passed.

- `src/` is the library, verified with Verus: the header codecs and
  checksums, DNS messages (encoded and decoded by hickory-proto), the
  control protocol's messages and framing, the server's session as a state
  machine, the client's plan of probes, the verdicts on what each probe sees,
  when a probe tries again, and the command line's values. Contracts state what each function returns;
  proof functions state the laws that relate them (codec round trips,
  checksums that verify, lines of the control channel that read back as
  sent, a plan that stays within the requested ranges, a
  server that runs each planned probe from the other end).
- `app/` is the program around it: command-line parsing, sockets, TLS
  streams, timers and the JSON form of the messages.
- `tests/` exercises the library on concrete values.
