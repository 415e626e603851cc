# anamnesis

The core of a memory service for agents, written in Verus. Every function in
`src/` states in its contract what it returns or changes, and Verus proves it.

- `scope`, `time`, `origin`, `schema`, `edge`, `id`: the vocabulary of stored
  memories.
- `capture`, `delivery`: captured turns, and how they are delivered for
  extraction at least once and at most twice.
- `memory`, `notes`, `proto`, `extract`, `store`: the state that requests share,
  the requests and replies, and what the rules read of the stored graph.
- `dispatch`: answering requests in phases, so that the shared state is never
  held while the store works. `dispatch::laws` states what holds of the service
  as a whole, `dispatch::account` when its account speaks of past recalls.
- `daemon`, `dashboard`, `cli`, `config`: the rules around the running service.
- `outside`: the few outside functions the library rests on, with the contracts
  that are taken on trust.

Numbers with a fraction are carried as the bits of their double-precision form,
or as the text they are shown as.

`app/` is ordinary Rust around the library: sockets, files, HTTP, the command
line, and what is computed in floating point. It reaches the graph store and the
extraction worker through the traits in `app/engine.rs`.

`tests/` runs the library, from single functions up to whole requests over a
small store in memory.
