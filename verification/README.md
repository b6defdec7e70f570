# code_block_extractor

Verified logic for macros that pass the fenced code blocks of a README to the
Rust compiler: which blocks a selection takes (all of them, the n-th one, or
those with a tag), how each block is wrapped in the configured prefixes and
suffixes, and which pieces of the generated text must split into Rust tokens.

- `src/` is the library, verified with Verus. Its contracts state the
  generated text and the errors over the mathematical model in `model.rs`,
  `select.rs` and `expand.rs`.
- `app/` is the macro front end: it reads the macro input, loads the
  configuration and the README through `readme_code_extractor_lib`, and calls
  the library.
- `tests/` runs the library on concrete READMEs.
