# gladius_slicer

A layer slicer for FDM 3D printing, with its core written in Verus and
proved against its specifications.

- `src/` is the verified library. It covers the triangle tower and its ring
  algorithm, the printer command model and its optimizer, the ordering of
  move chains, the layer batching of the slow-down pass, the plan of the
  G-code output, and instruction templates. It also loads models: it parses
  STL files with `nom_stl`, reads 3MF archives with `zip` and assembles their
  meshes. Settings files are merged and checked for completeness here, along
  with the index arithmetic of the layer passes and the error codes.
  Floating-point numbers are carried by their bit patterns and compared as
  numbers. Floating-point decisions (distances, collinearity, speed limits)
  are handed in as functions.
- `app/` is the command-line program around it: argument handling, file I/O,
  serde parsing of settings and XML, the geometry on floating-point
  coordinates (polygon offsets, infill, support, lightning infill) and the
  formatting of G-code.
- `tests/` runs the library on concrete inputs.
