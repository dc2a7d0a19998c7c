# mini_mesh_parser

Reads surface meshes from OBJ, OFF, PLY (text or binary, either byte order) and binary STL
files. The parsers are written in Verus: each reader is a function on the bytes of the file
whose result is stated exactly by a specification, and Verus proves that the code meets it.

## Layout

- `src/` — the verified library.
  - `scan.rs`, `kw.rs`: byte scanners, number readers and the keywords of the formats.
  - `surface.rs`: how faces are collected (triangles, quads, or polygons with strides) and
    turned into `SurfaceIndices`; `surface_laws.rs`: what that representation means, and the
    proofs that it describes exactly the faces read.
  - `obj.rs`, `off.rs`, `stl.rs`: the readers of those formats.
  - `ply_types.rs`, `ply_header.rs`, `ply_body.rs`, `ply_ascii.rs`, `ply_binary.rs`, `ply.rs`:
    the PLY reader, from the property types to the header and the two body encodings.
  - `word_uint.rs`: the word-at-a-time readers of counts and index lists.
  - `mesh.rs`: picking the reader from a file extension or the first bytes.
- `tests/` — tests on meshes written out in the test files.
- `app/` — file reading, and turning the coordinates the library hands back (number text or
  number bits) into `f32`.

Vertex coordinates are returned as `Coord` values — the span of the number's text, or its
bits — since floating point is left to the caller.
