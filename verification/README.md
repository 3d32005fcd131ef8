# mbus

A message bus. Messages published onto the bus travel along a chain of
worker nodes; the first enabled node whose worker accepts a message keeps it,
and a message that no node keeps is counted as unhandled and given to the
bus's unhandled-message handler.

- `src/` is the verified library: the bus's shared state (`MessageBusSeq`),
  the decision each node takes for a message (`workers::msg_node`), the
  delivery of a message along the whole chain (`MessageBusSeq::deliver`), the
  `Worker` trait, the wake-up `Signal`, the laws of the chain (`chain`) and
  the laws over whole runs of a bus (`runs`).
- `app/` runs the bus: the node threads, the collector thread of unhandled
  messages, the channels between them, and an example program.
- `tests/` exercises the library.
