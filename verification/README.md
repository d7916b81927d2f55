# ansible_stat

The Ansible `stat` module: it reports on a path (type, permissions, owner,
times, checksum, ext attributes, MIME type) as JSON.

- `src/` is the verified library: the result record and the rules
  that fill it in — permission flags from the mode, the `mode` text,
  parsing of `lsattr -vd` and `file --mime-type --mime-encoding` output,
  attribute names, warnings kept as a set, time stamps, debug lines, the
  choice of checksum algorithm.
  - `text.rs` splitting, trimming and number rendering over `Seq<char>`
  - `mode.rs` octal mode text and its digits
  - `attributes.rs` the attribute flag table
  - `result.rs` `StatResult` and its updates, with the laws on them
  - `args.rs` `ModuleArgs` and the decisions it drives
  - `checksum.rs`, `clock.rs`, `render.rs` the calls into checksums,
    chrono and std's `Debug`, behind contracts
- `app/main.rs` is the program: reading the arguments file, stat/lstat,
  access checks, user/group lookups, running `lsattr` and `file`, hashing
  the file, and printing JSON.
- `tests/` runs the library on concrete values.
