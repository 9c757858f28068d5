# geoarrow (verified builders)

Builders for GeoArrow-style nested geometry arrays, verified with Verus.

A `MultiLineStringBuilder<D>` holds nullable multi line strings in the GeoArrow layout:
geometry offsets into line strings, line-string offsets into coordinates, the coordinates
(interleaved or one buffer per axis, each value the bit pattern of an `f64`), and one
validity bit per geometry. Its view is the sequence of geometries those parts stand for.
Every push appends exactly its geometry to that view; `finish` freezes the builder into an
array whose `value(i)` reads the geometries back.

- `src/layout.rs`: the decoding of the parts and the proofs that appending keeps them consistent.
- `src/offsets.rs`, `src/coord.rs`: offset sequences and coordinate buffers.
- `src/builder.rs`, `src/polygon.rs`, `src/array.rs`: builders and finished arrays.
- `src/capacity.rs`: counting the room that geometries take.
- `src/buffers.rs`: the Arrow buffers used, and what is assumed of them.
- `src/laws.rs`: properties relating several operations.
- `app/`: geometries through `geo-traits`, conversion to Arrow arrays, the Python class.
