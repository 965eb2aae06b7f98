# sovereign

The verified core of the Sovereign trading engine, written in Verus.

- `src/` is the library. Its functions carry `requires`/`ensures` contracts
  that Verus proves, and the laws of the library (key rotation never hands out
  a banned key, the kill switch keeps the first trip's reason, the breaker's
  cooldown never exceeds two hours, the waterfall accepts the first provider
  with sane bars, tickers re-parse to the same instrument,
  ...) stand there as public proof functions. The exceptions are the
  functions that only create, read or write the shared atomics of the kill
  switch and the fault boundary (`GlobalKillSwitch::new`, `trip`,
  `is_tripped`, `reason`, `reset`; `FaultBoundary::fault_count`, `is_storm`,
  `reset`): the values an atomic holds are not modelled, so those have no
  `ensures`. What they decide is verified separately (`code_to_store`,
  `spec_trip`, `storm_reached`).
  - `domain`: instruments parsed from tickers, regimes, sessions.
  - `text`: the string operations the parsers are specified with.
  - `pool`: the rotating API-key pool.
  - `circuit`: per-source circuit breakers with exponential backoff.
  - `fallback`: the provider waterfall, as a state machine the caller drives.
  - `contract`: the futures calendar and the contract router.
  - `killswitch`, `fault`: the global halt flag and fault boundaries.
  - `llm`, `broker`, `config`: configuration resolved from plain values.
  - `automaton`, `spectral`, `turbulence`, `sec_edgar`, `selfheal`,
    `affinity`, `provider`, `error`: smaller pieces of the engine.
- `tests/` runs the library on concrete values.
- `app/` is the program around it: the command line, I/O, async clients,
  floating-point analytics, and the types that need serde or clap derives.
