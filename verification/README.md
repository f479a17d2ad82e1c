# superinstance_agent_trait

A two-method agent trait (`receive`, `inspect`) whose lifecycle emerges from
the bottles an agent receives, a runner that enforces that lifecycle and the
conservation of trit sums, and the Forgemaster agent, all verified with Verus.

- `src/lifecycle.rs`: states, system actions, the transition table.
- `src/bottle.rs`: the bottle as plain values, trit sums, construction through
  `superinstance_protocol`.
- `src/runner.rs`: the `Agent` trait, `AgentRunner`, its lifecycle and
  conservation steps.
- `src/forgemaster.rs`: the Forgemaster agent and its quality signals.
- `src/text.rs`: string comparison and decimal rendering.
- `app/`: serde copies of the public types, `Display`/`Error` impls, conversion
  to and from wire bottles, and the floating-point quality average.
