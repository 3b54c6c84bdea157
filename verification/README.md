# riv

The logic of a Windows image viewer, written in Verus: what is decoded and in which order, what is
cached and evicted, how frames are composed, how shortcuts are spelled, parsed and captured, and how the
settings dialog keeps, applies and discards changes.

- `src/` is the verified library. Contracts are stated over the models beside each type; laws that span
  several functions are the public proof functions named `lemma_*`. The session of open folders and
  decodes is split into its model (`session_model`), its parts (`session_parts`), its operations
  (`session`) and its laws (`session_laws`).
- `tests/` runs the library on concrete values, with the PNG, SVG and JSON crates linked.
- `app/` is ordinary Rust around the library: files, threads, floating-point color, the C codecs and the
  Windows dialogs, codecs and displays. The Windows parts build on Windows alone.

What the proofs rest on besides Verus and vstd is stated where it stands: `apng` (the `png` crate),
`overrides` (`serde_json`), and single standard library functions in `strings`, `search` and `location`.
