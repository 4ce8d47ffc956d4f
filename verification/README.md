# csharp_engine_services

Verified bookkeeping behind the Engine services that trusted C# products
call: which renderer resources a product selected, which appearances,
materials, atlases, sprite playbacks, animation graphs and controllers are
live and who holds them, which audio clips and voices are admitted and
when a clip may be released, how cameras compose onto views, and how
authored content catalogs and realization feedback are kept.

Every operation states in its contract what it returns and how it changes
the service state, including that a refused operation leaves the state as
it was. Properties spanning several operations (links always name live
owners, handles are never reused, retried feedback is harmless, a release
undoes an admission, ...) are proof functions next to the types they are
about.

Layout:

- `src/` — the verified library, one module per service area; `table.rs`
  holds the ordered handle and text tables the services share.
- `tests/` — executable tests of the library.
- `app/` — host-side glue the verifier does not see: floating-point
  clocks, descriptors and readouts, kept over the verified registries.

SHA-256 comes from the `sha2` crate, behind one trusted wrapper in
`src/digest.rs`.
