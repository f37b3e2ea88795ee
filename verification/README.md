# mc_networking

Wire types and packets of the Minecraft network protocol, with encoders and
decoders whose behaviour is stated in contracts and proved with Verus.

Layout of `src/`:

- `wire` — the VarInt, VarLong and big-endian encodings as sequences of bytes, with their round-trip lemmas.
- `types`, `traits` — the protocol's data types and the `McEncodable` / `Packet` traits.
- `packets` — the handshaking, status and login packets, and decoding a frame body by state, direction, id and version.
- `packet`, `buffer` — a packet being built or read over a `bytes::BytesMut`.
- `proxy` — the decisions of a proxy that answers status pings.
- `codegen`, `mapping` — generating packet structs from recorded write instructions and a deobfuscation mapping.
- `datagen`, `derive` — generating type definitions from the protocol data, and numbering enum variants.
- `laws` — properties that relate the writers to the readers.

`app/` holds the programs around the library: the proxy's network loop, the
two generators' file handling, and the derive macros' syntax work.
