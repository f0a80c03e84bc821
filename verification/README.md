# shared

A small binary data format and its verified encoder and parser.

A package is a run of values, each written as a one-byte type tag
(`DataIDs`) followed by its payload, and closed by the `ENDPKG` tag.
The tag bytes follow the format's type table: `U32` = 0, `U64` = 1, `I32` = 2,
`I64` = 3, `STRING` = 4, `VECTOR` (array) = 5, `BEGINARGS` = 6. `CHAR` = 8,
`F32` = 9, `F64` = 10 and the end tag `ENDPKG` = 13 keep their established
bytes; `U8` = 7, `U16` = 11, `I8` = 12 and `I16` = 14 take the free ones.
Integers, `char`s (by scalar value) and floats (by bit pattern) are written
big-endian in their fixed width; a string is written as its byte length in
4 big-endian bytes followed by its UTF-8 bytes.

Layout:

- `src/data/ids.rs` – the type tags and their bytes.
- `src/data/bytes.rs` – big-endian integers as byte sequences.
- `src/data/encode.rs` – the encoders and the specification of an encoding.
- `src/data/parse.rs` – the parser and the specification of what it gives.
- `src/data/laws.rs` – what encoders and parser promise together: a package of
  encoded values parses back to those values, bytes after the end tag are
  never read, and a fixed-width value re-encodes to the bytes it came from.
- `src/helper.rs` – the parsed tree.
- `src/signature.rs` – what the function-wrapping attributes read from tokens,
  and how a wrapper hands each value to its argument.
- `src/session.rs` – the server's reply step and reply, and the client's handler arguments.
- `src/text.rs` – string comparison.
- `app/` – the server and client over TCP, float conversions, and the token
  plumbing of the attributes on `proc_macro2` streams.
