# dolang_ext

The extensions of the Do language for terminals, shells, SQLite databases and
tar archives, as a library whose behaviour is stated in contracts and proved
with Verus.

- `src/term`: styles, escape sequences, tables and other boxes on a terminal
- `src/console`: where what programs write goes
- `src/shell`: running programs, words, times and the syntax that is shown
- `src/security`: owners, access control lists and security descriptors
- `src/sqlite`: statements, rows, transactions, and under `vfs` the locks and
  the shared memory of database files
- `src/tar`: headers, entries and compression of archives
- `src/value.rs`, `src/error.rs`, `src/text.rs`: what all of them share

The files named `*_laws.rs` hold proofs of what the operations keep and undo.
`app` holds what reads, writes, waits and calls the operating system.
