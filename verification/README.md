# oxide-canary

Progressive GPU kernel rollout with ternary health verdicts and automatic rollback, verified
with Verus.

A `CanaryRelease` moves a candidate kernel through 5%, 25%, 50% and 100% of the traffic. A
`CanaryManager` keeps rolling windows of metrics for the baseline and the candidate, compares
their averages and answers `Healthy` (+1), `Monitoring` (0) or `Rollback` (-1). `tick()` acts on
the answer: it advances the rollout, holds it, or takes all traffic from the candidate.

## Layout

- `src/number.rs`: the arithmetic asked of a measurement. Every operation has a specification
  function that names its result, and the contracts are stated over those.
- `src/decimal.rs`: a fixed-point number with eighteen decimal places that implements it.
- `src/metrics.rs`, `src/release.rs`, `src/thresholds.rs`, `src/verdict.rs`, `src/manager.rs`:
  the library.
- `src/order.rs`: what it takes for a number's arithmetic to respect its order.
- `src/laws.rs`: what holds of every rollout, in any number type.
- `src/order_laws.rs`: what holds of verdicts and averages in every ordered number.
- `src/decimal_laws.rs`: what holds exactly in decimals.
- `app/`: the number type for double-precision measurements, outside the verifier. That doubles
  compute and compare as the two number traits say rests on the processor, not on a proof.
