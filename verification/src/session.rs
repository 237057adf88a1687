use vstd::prelude::*;

verus! {

/// Ticks per second of a match.
pub const LOBBY_FPS: usize = 60;

/// Frames that a remote input may stay unconfirmed.
pub const PREDICTION_WINDOW: u32 = 12;

/// Frames by which a local input is held back before it counts.
pub const INPUT_DELAY: u32 = 2;

/// Why a match has ended, or could not begin.
#[derive(Clone, Copy, Debug, PartialEq, Eq, Structural)]
pub enum SessionError {
    /// The peers did not come together in time.
    MatchmakingTimeout,
    /// The input of the remote player for some frame stayed unconfirmed
    /// until the frame left the prediction window.
    PredictionWindowExceeded,
    /// The channel to the remote player was closed during the match.
    ChannelClosed,
    /// The session is not running: it has not begun, or it has ended.
    NotSynchronized,
}

/// A match between two peers: who plays under which handle, and the
/// parameters that both peers fixed when the match began.
#[derive(Clone, Copy, Debug, PartialEq, Eq, Structural)]
pub struct Session {
    pub local_handle: u8,
    pub remote_handle: u8,
    pub prediction_window: u32,
    pub input_delay: u32,
    pub tick_rate: u32,
}

impl Session {
    /// The handles are 0 and 1, one for each peer, the window leaves room
    /// for a frame, and time passes.
    pub open spec fn wf(self) -> bool {
        &&& self.local_handle < 2
        &&& self.remote_handle == 1 - self.local_handle
        &&& self.prediction_window >= 1
        &&& self.tick_rate >= 1
    }

    /// Whether the session is one that a synchronizer accepts.
    pub fn is_valid(&self) -> (valid: bool)
        ensures
            valid == self.wf(),
    {
        self.local_handle < 2 && self.remote_handle == 1 - self.local_handle
            && self.prediction_window >= 1 && self.tick_rate >= 1
    }
}

} // verus!
