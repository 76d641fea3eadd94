//! A point-to-point byte-message transport over a fixed-capacity circular
//! buffer, as used between processes attached to one shared memory region.
//!
//! The crate verifies the transport's core: cursor arithmetic over the ring,
//! length-prefixed message framing, the blocking-gate decision rules, and the
//! shutdown semantics. The operating-system half — mapping the region and the
//! process-shared mutex and condition variable — lives with the callers, which
//! drive it by the decision functions exported here.

pub mod channel;
pub mod fanout;
pub mod frame;
pub mod gate;
pub mod ring;

pub use channel::Channel;
pub use channel::ChannelError;
pub use ring::RingBuffer;
