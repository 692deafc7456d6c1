# artisan_core

The canonical content model for tabletop rules data and the engine that
reconciles records imported from different formats (PCGen, HeroLab, ...)
against one canonical store.

Layout:

- `src/` — the library, with its contracts and proofs.
  - `id`, `domain`, `provenance`, `projection`, `diagnostics`, `format`:
    the data model.
  - `reconcile/matching.rs`: case folding, normalization, loose matching,
    name similarity and external-id index keys.
  - `reconcile/scoring.rs`: stable ranking of candidates by confidence.
  - `reconcile/model.rs`, `reconcile/search.rs`, `reconcile/memory_store.rs`:
    the in-memory store, its mathematical view, its external-id index and its
    candidate searches.
  - `reconcile/reconciler.rs`: resolution of import candidates (exact
    external-id match, then for citations the merge by subject and source
    with additive locator sets, then search, then review by policy or
    creation; creation never overwrites a record and links the import's
    external ids).
  - `reconcile/laws.rs`, `reconcile/index_laws.rs`,
    `reconcile/reconcile_laws.rs`: proved properties.
  - `external.rs`: the outside items the library relies on, with the
    contracts assumed of them.
- `tests/` — executable tests.
- `app/` — serde forms of the data model and JSON helpers.

Confidences are integers in hundredths (100 is certainty).
