# ecd

`ecd` detects the character encoding of text files and converts files between
encodings. The library in `src/` is written in Verus: every function states its
behaviour in `requires` / `ensures` clauses, and Verus proves it.

## Layout

- `src/text.rs` — ASCII case mapping, equality, prefix and substring tests,
  lexicographic order and decimal rendering on character sequences.
- `src/encodings.rs` — the supported and planned encoding names, their
  documentation groups, name lookup through `encoding_rs`, and the sorted list of
  all valid names.
- `src/detect.rs` — detection on a sample of bytes: empty samples, byte order
  marks, binary content, and the statistical guess of `charset-normalizer-rs`.
- `src/convert.rs` — conversion between supported encodings (UTF-16 is encoded
  here, everything else through `encoding_rs`), and the path checks of a file
  conversion.
- `src/output.rs` — the lines and statistics printed for a `check` run.
- `src/cli.rs` — the command line as plain data and what the `check` options
  mean.
- `src/walk.rs` — glob patterns (expanded here, compiled and matched by `globset`
  against a path and its file name), scan roots and the decision taken for each root,
  excluded directories.
- `src/pathorder.rs` — the order of collected paths, component by component, each
  distinct path once.
- `src/color.rs` — colouring of batch labels.
- `src/error.rs` — errors of the `check` command.
- `app/` — the `ecd` program: argument parsing with clap, file and directory
  access, parallel detection, printing and shell completions.

Calls into `encoding_rs`, `charset-normalizer-rs`, `globset` and a few standard-library
functions go through small trusted wrappers whose contracts are documented where
they are declared.
