# serde_zap

A compact binary serialization format: tagged-prefix varints, zigzag for
signed integers, little-endian fixed-width floats, length-prefixed strings,
byte strings and sequences.

- `src/` is the library, verified with Verus: the wire format as spec
  functions (`format`, `varint`), the sinks (`write`), the serializer
  (`ser`), the input cursor and deserializer (`read`, `de`), the staging
  stream writer (`stream`), and the entry points for the scalar types
  (`lib`, `codec`).
- `app/` is the serde layer around it: the `Serializer` and `Deserializer`
  impls, `to_writer` and `from_reader` over `std::io`, and the vector
  adapters.
- `tests/` exercises both.
