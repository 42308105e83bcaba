//! Playback coordination core: a play queue with a visitation cursor, a
//! command registry with keybindings, an event channel from producer threads,
//! and the single-threaded loop step that ties them together.

pub mod backend;
pub mod queue;
pub mod command;
pub mod event;
pub mod keys;
pub mod session;
pub mod media_keys;
