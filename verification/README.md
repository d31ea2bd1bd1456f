# adaptite

Fine-grained reactivity: signals, computed values, effects, events and ownership on one thread,
with every decision of the graph verified by [Verus](https://github.com/verus-lang/verus).

- `src/` is the verified library. It holds the graph, the propagation of marks, the verification
  of dependencies, the queue and its flushes, the ownership tree, diagnostics and their counts, and
  the value types on top of them. It runs no closure: where a computation, an effect body or a
  cleanup is due, a step says so, and the caller reports back.
- `app/` is ordinary Rust around it: handles that can be cloned and dropped, closures, the thread's
  default reactor, panics, logging, and the microtask queue and tasks of runite.
- `tests/` drives the library the way a host does.

`model.rs` says what each operation does to a reactor, and the contracts of `Reactor` are stated
over it. The promises that span operations stand as proof functions: `coherence.rs` (what counts as
up to date is up to date), `freshness.rs` (a refresh never takes for current what is not),
`settled.rs` (a flush leaves effects that saw everything as it is now), `observers.rs` (what a write
marks), `refresh.rs` (what is recomputed, and that a refresh ends), `wakeups.rs` (no effect is
forgotten), `hooks.rs` (what the consumers of observed nodes hear), `regions.rs` (what untracked
regions keep from an observer), `history.rs` (what holds over a reactor's whole life: how nodes are
numbered, and what consumers hear in which order), `lifecycle.rs` (nodes and runs), `teardowns.rs`
(a teardown ends and leaves nothing out) and `unheard.rs` (listening to diagnostics changes nothing
else).

`collections.rs` is the boundary to hashbrown: each method of its maps and sets that the library
calls has a wrapper there, with the contract that is taken on trust.
