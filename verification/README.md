# fapt

Reading Debian package metadata, with every function's behaviour stated in
its contract and proved by Verus.

- `src/deps.rs` — dependency relations (`foo (>= 1.0) [linux-any] | bar, baz`):
  the grammar as specification functions over characters, the parsers that
  follow it, and the laws that leading blanks change nothing, that a successful read
  gives only well-formed dependencies, and that the character classes nest.
- `src/rfc822.rs` — a stanza (field name to lines) and field values
  (one line, required line, comma lists).
- `src/source.rs` — source package stanzas: format, binary packages,
  files with checksums, version control, dependencies, uploaders; and the
  laws that reading a stanza takes exactly the fields it reads and that
  its parts are what the field readers give on the whole stanza.
- `src/release.rs`, `src/checksum.rs`, `src/pkg.rs`, `src/vcs.rs`,
  `src/ident.rs`, `src/number.rs`, `src/text.rs` — the field formats those
  build on.
- `src/fields.rs` — copying the remaining fields of a stanza into a record,
  and the law that no field the source reader handles itself is copied.
- `src/ninja.rs` — the build statements written for each package of an index.
- `src/lists.rs` — the releases a sources list asks for, their `dists/` and
  `InRelease` URLs, and their file-system names (URLs themselves are parsed by the `url` crate).
- `app/` — the part that talks to the outside world: the lists directory,
  the HTTP client, and printing.
