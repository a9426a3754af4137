# lxoxide

Parsing of the Luxology file formats used by Modo: scene files (`.lxo`, `LXOB`), preset
assemblies (`.lxp`, `LXPR`), preset environments (`.lxe`, `LXPE`) and preset items (`.lxl`,
`LXPM`). The format is an IFF-style chunk format: big-endian values, data padded to even byte
boundaries.

The library is written in Verus. Every parser reads from an in-memory byte buffer at an
absolute position and is specified by a grammar function over `Seq<u8>` beside it; every
writer is specified by the bytes it appends; a writer whose data is longer than its length
field can state refuses it with `LengthOverflow` and writes nothing.
`LuxologyFile::from_bytes` parses a whole file and is specified by `scene::spec_file`.

Layout:

- `src/primitives.rs`: integers, chunk identifiers (`ID4`), variable length indices (`VX`),
  chunk headers, points, null terminated strings, channel values.
- `src/utils.rs`: even aligned strings, chunk framing.
- `src/meta.rs`, `src/media.rs`, `src/animation.rs`, `src/item.rs`: scene meta data, audio,
  envelopes and actions, items.
- `src/geometry/layer.rs`, `src/geometry/trisurf.rs`: layers with their points, polygons,
  vertex maps and polygon tags; trisurface groups.
- `src/scene.rs`: the file header and the chunk loop of a whole file, with what one chunk of
  each kind does to the scene.
- `src/properties.rs`: read/write round trips (headers, strings, indices, polygon lists,
  polygon tags, audio, items without lists) and the map behaviour of polygon tags.
- `app/lib.rs`: reading a file from disk, error messages, text forms of some values.

Float values are held as their IEEE-754 bit patterns (`u32`); `f32::from_bits` gives the float.
