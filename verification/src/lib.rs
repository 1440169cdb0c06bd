//! Per-connection state machine for a single inbound notification substream.
//!
//! Each instance corresponds to a single protocol. The handler negotiates at
//! most one inbound substream with the remote, surfaces an explicit
//! open/accept/refuse handshake to the engine above, collapses rapid-fire
//! open/close events into a consistent view, and reports inbound messages as
//! a lazily-polled sequence until the remote closes the substream.

pub mod events;
pub mod notif_in;
pub mod queue;
pub mod rolling_window;
pub mod substream;
