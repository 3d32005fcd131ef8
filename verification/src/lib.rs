//! A message bus: messages published onto the bus travel along a chain of
//! workers; the first enabled worker that accepts a message handles it, and a
//! message that no worker takes is counted as unhandled and passed to the
//! bus's unhandled-message handler.
pub mod bus_laws;
pub mod chain;
pub mod sequential_bus;
pub mod runs;
pub mod signal;
pub mod workers;

pub use sequential_bus::MessageBusSeq;
pub use signal::Signal;
pub use workers::worker::Worker;
