//! A point-to-point byte channel between two cooperating processes that uses
//! Unix signals as its only transport.
//!
//! Three reserved signal kinds form the whole wire alphabet: one for a zero
//! bit, one for a one bit, and one terminator that marks the end of a
//! transmission.  A sender turns a byte sequence into a timed stream of
//! signal deliveries, most-significant bit of each byte first; a receiver
//! accumulates arriving bits into a fixed-capacity buffer and stops when the
//! buffer is full or the terminator arrives.
//!
//! The codec, the sender's signal plan, and the receiver state machine are
//! verified.  Actual signal delivery (and the inter-bit pause that keeps the
//! kernel from coalescing identical signals) must be performed by the caller,
//! since it needs raw `kill` and timed sleeps.

pub mod channel;
pub mod codec;
pub mod protocol;
pub mod receiver;

pub use channel::ChannelError;
pub use channel::SignalStream;
