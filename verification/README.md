# herdr_queue

The durable agent queue of a terminal multiplexer, and the agent API on top of it, with their
behaviour stated in contracts and proved by Verus.

Clients enqueue texts for agent instances. A text is delivered once it is its turn, one delivery
at a time per instance, in the order of enqueueing, under an idempotency key that stands for the
same row forever. Rows that may have reached a terminal cannot be canceled any more, a restart
turns deliveries that were under way into ambiguous ones, and rows of instances that are gone are
orphaned.

## Layout

- `src/queue/` - the queue. `model.rs` says what every operation does to the rows and the event
  log, `store.rs` does it, `row.rs` holds the stored rows, `changes.rs` says what has to be written
  after an operation, `opening.rs` is the procedure for
  opening the database, `error.rs` sorts database errors. `laws.rs`, `delivery_laws.rs` and
  `scope_laws.rs` prove what holds of whole histories: order, uniqueness, idempotency, and that an
  operation needs no more than the rows it is about.
- `src/api/` - the requests. `app.rs` answers the queue requests; `agents.rs` answers those that
  need the terminal host, stopping at each call to it (`host.rs`). `queue_laws.rs` and `laws.rs`
  prove that subscribers hear of every change, that nothing is written to a terminal before the
  agent is known to be there, and that every request is answered.
- `src/pty/` - whether an agent's composer holds text that somebody typed and did not send.
- `src/ident.rs`, `src/clock.rs`, `src/text.rs`, `src/detect.rs` - UUIDs, time, text, agents.
- `app/` - SQLite, JSON and the terminal host around the library.
- `tests/` - the library at work on concrete values.

## What is trusted

Calls into `uuid`, `time` and `bytes` stand behind small functions marked
`#[verifier::external_body]`, or have an `assume_specification`. The comment above each says what
is believed of the call. `serde_json::Value` is carried through unopened.
