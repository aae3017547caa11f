# postflop_solver: the verified iteration schedule

The Discounted CFR solver discounts regrets and the cumulative strategy at every iteration.
This crate holds, verified with Verus, the integer part of that discounting:

- `src/restart.rs`: `RestartSchedule` and the iteration from which the cumulative-strategy
  discount counts (largest power of four, none, or the largest listed point at or below the
  current iteration), including the bit-level power-of-four computation.
- `src/discount.rs`: `AveragingParams` (gamma and the restart schedule), `DiscountBases` (the
  integer bases of one iteration's discount factors), `solve_step` and the exploitability-check
  cadence of the solving loop.
- `src/laws.rs`: properties of the schedule proved for all inputs.

`app/` holds the real-valued side: `SolveParams` with its presets, the floating-point discount
factors computed from `DiscountBases`, and the solving drivers over a `Game`.
