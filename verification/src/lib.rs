//! Core of a per-guild voice-playback controller.
//!
//! The library owns the shared mutable state that a chat bot's voice
//! commands coordinate over: a registry of at most one playback session per
//! guild, a FIFO track queue that reacts to playback-finished events, a
//! time-boxed collective vote used by the skip and stop commands, and the
//! dispatch table from command names to commands.  Everything that talks to
//! the chat platform or to the audio pipeline stays outside; the library is
//! handed plain values and returns plain values.

pub mod queue;
pub mod registry;
pub mod router;
pub mod track;
pub mod vote;
