# lobbytally

The verified core of LobbyTally, a tool that helps a group of friends find,
rank and vote on their next multiplayer Steam game. The library holds the
rules of the service — request limits, feed paging and cursors, preference
checks, the AI routing walk and its circuit breakers, the grounding checks on
model answers, the scheduler's plans, the database tool's command line and
data gates — each stated as a Verus contract and proved.

## Layout

- `src/` — the library, verified by Verus. Every public function states what
  it returns (and, for `&mut self`, how the value changes) over spec
  functions; laws that relate several functions are public proof functions
  named `lemma_*`.
- `tests/` — tests on concrete values, run against the compiled library.
- `app/` — the runtime edge: environment settings, JSON and wire types with
  serde derives, the shared account limiter and its drop guard, the parsing of
  the rate limiter's client addresses, the provider
  loops around the router and gateway, and the float arithmetic: embedding
  vectors, audit percentages, and the scores that rank games.

Calls into outside crates (`sha2`, `url`, the date parser of `time`, the
header-value check that `axum` re-exports) and into a few std functions
that vstd does not specify (clock readings, `String::push`,
`str::to_uppercase`) go through small trusted wrappers whose contracts say
what the documentation promises; each wrapper's doc comment names the
function it calls.
