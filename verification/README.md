# vic3_analyzer

Verified core of a local Victoria 3 market advisor. The library is written in
Verus: the functions in `src/` carry `requires` / `ensures` contracts that
Verus proves, and the properties that span several functions are stated as
public proof functions (`law_*`).

## Layout

- `src/text.rs`: character-level string helpers (equality, code-point order,
  decimal text, joining, sorted insertion).
- `src/sim.rs`: the planning simulator's transition rules. `apply_action`
  follows `spec_apply`; `successors_for_atoms` emits exactly
  `successor_actions`; `building_candidates` picks the building types worth
  expanding for price and GDP goals.
- `src/prices/`: price-report helpers, which goods and states get alerts,
  shortage / staffing / qualification advice, the production-method search
  (`pm_search`, a state machine whose trial scoring is done by the caller),
  what-if deltas (`world`), labels and solver progress markers.
- `src/sql/`: exact filter pushdown decoding, CSV formatting and
  batch-to-row checks, projection checks and save-binding host rules.
- `app/`: the unverified edge: serde copies of the library's types, JSON
  output, and the drivers that run the floating-point scoring around the
  verified state machines.
- `tests/`: tests of the library on concrete values.

Floating-point price equilibria, save loading and game-definition parsing are
outside the library: the library takes their results as plain values.
