# nwebp

A lightweight web server for browsing comic/image albums: every directory
(up to three levels below the root) that holds images is an album; the index
page lists the albums, the reader page shows an album's images in flip or
scroll mode.

The logic is a Verus-verified library (`src/`):

- `natord` — natural order of file names (digit runs by value), with its
  laws: reflexive, antisymmetric, transitive, numeric for digit strings,
  and after equal numbers the rest of the names decides.
- `text` — code-point order, HTML escaping (lossless and free of `<>"'`),
  decimal numbers, slash trimming.
- `sorting` — stable insertion sort by string keys; a stable sort order is
  unique.
- `paths` — `std::path` operations, paths that climb out of their base
  with `..`, image recognition, content types.
- `scanner` — albums and album images from directory listings; album
  paths whose directory is not lexically under the root name no album.
- `cache` — five-second caches of scan results, with read-after-write laws.
- `state` — the server state: caches and resolution of requested files
  (answers always lexically under the root).
- `handler` — request queries and the raw-image reply.
- `template`, `pages` — the HTML pages.

`app/` is the binary: command line, file-system reads, HTTP (axum/tokio).

Usage: `nwebp [DIR] [PORT] [--host HOST]`, then open `http://localhost:8080`.
Endpoints: `/`, `/viewer?path=`, `/api/albums`, `/api/album?path=`, `/raw?path=`.
