# wowedit

Readers for World of Warcraft (WotLK) client data — ADT map tiles, M2 models with
their SKIN files, BLP textures, MPQ archive paths — and the CPU side of a terrain and
model renderer, written in Verus.

- `src/` — the verified library. Every parser is a function on bytes whose contract is
  a spec function describing the file format (`adt`, `m2`, `chunks`, `io`); the archive
  search order and path rules are in `storage`, `mpq` and `loader`; the renderer's data
  preparation (index buffers, vertex grid, alpha maps, mipmap passes, texture slots,
  batch ranges) is in `renderer`. Floats are carried as their IEEE-754 bit patterns.
  Laws (`law_*` proof functions) state what holds across calls.
- `tests/` — tests on concrete files built in memory.
- `app/` — a command-line program: opens the MPQ archives of a client's `Data`
  directory, loads a map tile (and optionally a model) and reports what a renderer
  would upload. File and archive access and all floating-point geometry live here.
