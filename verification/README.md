# truck_brep

Truck-based solid modeling helpers that build demo shapes (torus, cylinder,
bottle, sphere, an organic tube) and export them as OBJ, STEP and glTF, plus a
Bevy viewer for the exported models.

- `src/` is the verified library (Verus): merging OBJ meshes into one indexed
  mesh, the little-endian binary buffer, the glTF document (buffer views and
  accessors), GLB container framing, the choice of output files, and the
  viewer's input decisions (camera motion keys, picking, spawn queue).
- `app/` holds what stays outside: the floating-point modeling with truck,
  triangulation, file I/O, OBJ loading with `tobj`, JSON serialization with
  `serde_json`, and the Bevy viewer plumbing.
- `tests/` exercises the library on concrete values.
