# betacraft

The core of a Minecraft beta 1.7.3 server, written in Verus.

`src/` is the verified library:

- `codec` — the wire model: big-endian two's-complement integers and
  UTF-16 strings with an `i16` length prefix, and the laws that decoding
  undoes encoding.
- `writer`, `reader` — `PacketWriter` appends wire values to an outgoing
  buffer; `PacketReader` reads them from received bytes. A read that fails
  because the bytes end early consumes nothing, so it can be tried again
  when more bytes arrive.
- `serverbound`, `handlers` — the packets a client sends: how each is
  read, and what handling it asks of the connection.
- `packet_registry` — the id-to-kind table and the dispatch of a packet.
- `clientbound` — the packets the server sends and their exact bytes.
- `entity` — entity ids and the registry of entries by id.
- `world` — chunks, generators and the world that generates each chunk
  once; chunks are compressed with `flate2`.
- `connection` — what a player is sent on login, the spawn chunks in order.
- `position`, `config` — positions (floating-point parts as bit patterns)
  and server settings.

`app/` is the program around it: sockets, threads, locks, the console and
the floating-point conversions.
