# ridal_server

The decision logic of a server for processed ground-penetrating radar files,
verified with Verus, and the server around it.

`src/` is the library. It decides which files make up a catalog and which one
stands for an id that several claim, what a project says over its files, who
may see or change what, what an upload or a removal does step by step, and what
derived results are computed over. Nothing in it touches the network, the disk
or a clock: it takes plain values and gives plain values back.

- Catalog: `discovery`, `selection`, `resolution`, `catalog`, `catalog_laws`,
  `overrides`, `roots`, `listing`, `merge_scope`
- Server: `app_state`, `routing`, `launch`, `auth`, `api_error`
- Changing what there is: `upload`, `removal`, `lifecycle`, `ledger`, `sizes`,
  `audit`
- Editing: `properties`, `elevation`
- Derived items: `derived`, `derived_routes`, `derived_values`
- Groundwork: `identity`, `paths`, `text`, `text_map`, `sorting`, `rows`

A long-running operation such as an upload is a state machine. Each step tells
what the step before it came to and is told what to do next, so the order of
the steps, and what a failure at each of them means, is proved once.

Two things are taken on trust: that `String::push` adds a character, and that
`blake3::hash` is a fixed function of its input with a hexadecimal form of 64
characters.

`app/` is the server: HTTP handlers, walking directories, streaming uploads,
the clock and the browser. Reading radargrams and keeping a project's documents
is left to an implementation of `backend::Backend`.

`tests/` runs the library on concrete values.
