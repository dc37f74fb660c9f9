# obscura

Session state and rendering decisions of a headless browser, verified with
[Verus](https://github.com/verus-lang/verus).

The library, `src/`:

- `text`, `items`, `json`, `scale`: strings and their order, one Web Storage
  area, JSON values, device pixel ratios.
- `origin`: page URLs and the origins that key their storage.
- `storage`: `localStorage` and `sessionStorage` by origin, with quota and what
  the storage file holds.
- `cookies`, `context`, `state`: a context's cookies, its configuration, and its
  session as a portable JSON value.
- `cdp`, `domains`: a protocol connection and what the `DOMStorage`, `Storage`,
  `Emulation` and `Memory` domains answer and change.
- `render`, `raster`: what a render refuses, clamps and reports; cropping and
  encoding.
- `laws`: what holds of the whole, proved over the models that the contracts
  speak of.

`tests/` runs the library; `app/` is the browser around it: layout and paint,
files, the wire.

Three outside calls are taken on trust, each behind one function whose doc
comment says what is claimed: the URL parser in `origin`, the PNG and the JPEG
encoder in `raster`. That a PNG is read back as it was written is part of what
is claimed of the PNG encoder. In `context` the clone of a path is taken to be that path.
