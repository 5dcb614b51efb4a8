# rx

The filesystem layer of a game engine, as a verified library.

- `src/` is verified with Verus: open options, the splitting and sanitizing of
  virtual paths (`path`), the checks and target paths of a filesystem rooted
  in a directory (`physical`), the layer-by-layer search of an overlay of
  filesystems (`overlay`), the directory listing and the read-only checks of a
  zip-backed filesystem (`zipfs`), and the error type (`error`).
- `app/` holds the `VFS` trait and the input and output around the library:
  opening and removing real files, the loop that runs an overlay's search, and
  the zip archive itself.
- `tests/` exercises the library on concrete values.

Virtual paths are Unix paths given as raw bytes; an accepted path is absolute
and made of names only, so it can never reach outside the root it is joined to.
