# version_projection

Primitives for projecting values across adjacent component versions and for
describing what runtime components do while two contract versions are live.

Layout:

- `src/version.rs`: `ComponentName`, `ContractVersion` and its `#hex` text
  literal (printing, parsing, and the proofs that parsing undoes printing and
  that a lowercase literal prints back unchanged).
- `src/index.rs`: `RecordKind` and the runtime migration lookup, a table of
  historical decoders searched by component name and contract version.
- `src/policy.rs`: operation kinds and their record heads, and the write,
  read and subscribe policy records.
- `src/projection.rs`: the `VersionProjection` and `Projected` traits, the
  `Identity` projection and `ProjectionError`.
- `src/text.rs`: verified hexadecimal and decimal digit output.
- `app/lib.rs`: twins of the library's types with rkyv archive derives and
  thiserror `Error` derives, with conversions in both directions.
