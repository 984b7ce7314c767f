# dlv_sim

A simulator of a leveraged liquidity vault. The vault holds up to three ranges of
liquidity in a pool with concentrated liquidity, owes a debt in the pool's stable token,
and keeps the ratio of its value to that debt near a target. A simulation either replays
recorded events of the pool or moves the pool along an outside price by arbitrage.

- `src/` is the library, verified with Verus. `src/lib.rs` says how the modules build on
  each other.
- `tests/` follows the library on concrete values.
- `app/` is the program around it: the environment, the files, everything in floating
  point, and what is printed.

The program takes its settings from environment variables: `BF_POOL`, `BF_POOL_FEE`,
`LOOKUP_PERIOD`, `BF_START_DATE`, `BF_END_DATE`, `ARB_STRATEGY`, `TARGET_CR_PCT` and the
others named in `app/settings.rs`. A text that should be JSON and is not counts as not set.
With `CONFIG_ONLY` set it prints the settings and stops.
