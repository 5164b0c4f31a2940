# winreg (serde over the Windows registry)

A structure is stored as a registry key: each primitive field becomes a
value of the key, each nested structure a subkey. Reading enumerates a
key's subkeys, then its values, and converts each stored value back.

- `src/` — the verified library (Verus):
  - `value.rs`: registry value types, the bytes stored for `u32`, `u64` and
    text, and the conversions back;
  - `utf16.rs`: UTF-16 encoding, lossy decoding, little-endian byte layout;
  - `text.rs`: decimal text of signed integers and parsing it back;
  - `encoder.rs`: the serializer's state (open keys, pending field name)
    and what each serde call stores or refuses;
  - `decoder.rs`: the deserializer's state (enumeration position, current
    field) and what each serde call reads or refuses;
  - `roundtrip.rs`: what is read back of what was written;
  - `structure.rs`: a model of a key's contents, and a whole structure
    written into an empty key and read back.
- `app/` — serde's `Serializer`/`Deserializer` impls, which call the library
  and perform the registry operations through the `EncodeKey`/`DecodeKey`
  traits of a key handle.
- `tests/` — tests of the library.
