use vstd::prelude::*;

verus! {

/// A fire-and-forget request that the coordination layer issues to the
/// playback backend. Results are observed only through later events.
#[derive(Clone, Copy, Debug, PartialEq, Eq, Structural)]
pub enum BackendRequest {
    /// Start playing the track with this id.
    Play(u64),
    /// Pause the current track.
    Pause,
    /// Resume the paused track.
    Resume,
    /// Stop playback.
    Stop,
    /// Seek within the current track to this many seconds.
    Seek(u64),
}

} // verus!
