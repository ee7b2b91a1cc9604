# zencodec

Shared types and rules for image codecs, verified with Verus: EXIF trees
(parsing, pruning, editing, serialization), metadata retention, color signaling,
format detection, error categories, resource estimates, policies and codec sets.

- `src/` is the library. Each function states what it returns in its contract;
  properties that span several functions are `law_*` proof functions.
- `app/` is ordinary Rust around it: floating-point conversions, `std::error`
  plumbing, and the running of codecs.
- `tests/` runs the library on concrete inputs.

What is trusted: the wrappers around `zenpixels` in `src/icc.rs`, and the std
functions behind `src/bytes.rs`, `src/exif/edit.rs` and the `Hash` implementation
in `src/format/definition.rs`. Two outside types are declared: `ErrorKind` of std in
`src/error/category.rs` and `MasteringDisplay` of `zenpixels` in `src/info.rs`.
