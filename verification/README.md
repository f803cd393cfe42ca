# appendlog

An append-only indexed log and the machinery around it, verified with Verus.

`src/` is the verified library:

- `index` — `Index`, the position of an entry, with its conversions.
- `index_order` — the order of indices, which is the order of their positions.
- `record` — `Record`, an entry together with its position.
- `traits` — the synchronous `Appender` and `Lookup` interfaces.
- `mem` — `LogInner`, the state of an in-memory log (entries and whether
  the log is closed), with the proofs that what is appended is read back at
  the returned position and that appends never change earlier entries.
- `actor` — the `Actor` interface: `(event, state) -> (outputs, state)`.
- `run` — `Runner`, the decisions of an actor run as a state machine: load
  the saved state, skip records it already reflects, hand each new record to
  the actor, append its outputs, save the state, and only then acknowledge.
- `bridge` — `Bridge`, the decisions of a bridge between two logs.
- `handler` — `ActorHandler` and the resume point of a composition of
  handlers.
- `consumer` — `ConsumerState`, what a message-queue consumer holds between
  calls, so that a record is delivered again until it is acknowledged.

`app/` holds what performs the work: the async traits, the async `run`,
`bridge` and `bridge_map` drivers, the thread-shared in-memory `Log`, and the
NATS JetStream backend.
