# oveo

A JavaScript optimizer for bundler plugins: it hoists and deduplicates
repeated expressions, hoists reads of predefined globals, shares singleton
constructions, renames properties through a shared property map, and turns
`new URL("./asset", import.meta.url).href` into absolute URLs.

Layout:

- `src/` — the library, verified with Verus: annotation flags, comment
  markers, the hoisting scope analysis and the module pass's state, the
  chunk pass's decisions (globals, singletons, deduplication, URLs),
  expression hashing, statement edits, the table of globals, extern module
  descriptions and import resolution, and the property map with its text
  form.
- `tests/` — tests of the library.
- `app/` — the optimizer around the library: parsing, semantic analysis and
  code generation with oxc, the AST traversals that feed the library, and
  the JSON form of extern descriptions.

Tables keyed by strings (the global table, the hoisted constants of a
chunk, the property map's taken names) are `StrMap`s, verified lists of
key-value pairs with distinct keys, and the deduplication scopes are lists
of (hash, address) entries. vstd specifies `HashMap` only for keys whose
hashing and equality it models; for `String` and `[u8; 20]` keys no
contract over the map's contents could be proved, so these tables are kept
as lists whose contents the contracts state exactly. Tables keyed by
integers use std's `HashMap`.
