# mimick_library

The logic of a photo library that shows a photo server's assets beside the photos in local folders,
written in Verus.

- `src/` is the library. Every function in it carries a contract, and the laws that relate several
  functions are public proof functions beside them.
- `tests/` runs the library on concrete values.
- `app/` is ordinary Rust: files, the server, floating-point geometry and the GTK windows. It
  reads and shows; what to do is asked of the library.

## Modules

| Subject | Modules |
| --- | --- |
| Text, paths, times, numbers, ordering | `text`, `path`, `path_order`, `seqs`, `order`, `clock`, `decimals`, `checksum` |
| What the server and the folders hold | `api`, `sync_index`, `local_source`, `local_exif`, `merge`, `sources`, `filters` |
| Albums and folders | `albums`, `album_sync`, `album_actions`, `watch`, `backup` |
| The grid | `layout`, `quality`, `grid`, `asset_model`, `bulk`, `context_menu` |
| The other pages | `viewer`, `details`, `explore`, `map`, `download`, `status` |

## What is trusted

Calls into chrono, base64 and blake3, and two functions of the standard library on strings, stand
behind small functions marked `external_body` or an `assume_specification`; the doc comment above
each says what its contract claims. Everything else is proved.
