# av — attribute macros for API documentation, verified

The logic of five attribute macros (`ver`, `verlog`, `safety`, `panics`,
`author`) that render structured rustdoc sections, written in Verus with
contracts and proofs.

- `src/` — the verified library. Token streams are modelled by
  `tokens::TokenTree` (groups, identifiers, punctuation, literals), with
  spans as numbers. Each macro is a function from the attribute's tokens and
  the item's tokens to the expanded item (or a `compile_error!`), specified
  exactly by a grammar written as spec functions.
  - `fields/` — an ordered collection of named fields whose names stay
    unique, with field validation errors; `fields/laws.rs` states what a
    lookup gives back after each kind of write.
  - `helper/` — token parsing (literals, groups, arrays, `name = value`
    lists, outer attributes) and the placement of generated docs; the law
    that stacked attributes render in source order is in `helper/doc.rs`.
  - `versioning/` — version entries, their rendering and the `#[deprecated]`
    attribute.
  - `versions.rs`, `loglist.rs`, `deprecation.rs` — the `;`-separated
    multi-entry form of version lists.
- `app/` — the bridge to the compiler: conversion between
  `proc_macro::TokenStream` and the library's token model, and the five entry
  points.
- `tests/` — tests of the library on concrete token streams.
