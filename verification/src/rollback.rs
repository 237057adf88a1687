use vstd::prelude::*;
use crate::input::{InputFrame, PlayerInputs};
use crate::log::{
    InputLog, confirmed_at, effective, extends, first_unconfirmed, with_confirmed,
    lemma_confirm_as_predicted, lemma_confirm_counts, lemma_confirm_keeps_earlier,
    lemma_first_unconfirmed, lemma_first_unconfirmed_grows,
};
use crate::session::{Session, SessionError};
use crate::snapshots::{SnapshotRing, consecutive, with_pushed};
use crate::systems::{played, step, lemma_stepped_wf};
use crate::world::{SavedState, SavedStateView, World, WorldView};

verus! {

/// Where a session stands.
#[derive(Clone, Copy, Debug, PartialEq, Eq, Structural)]
pub enum SyncState {
    /// The session exists and waits for the peers to be ready.
    WaitingForPeers,
    /// The world is the one that the known inputs give.
    Synchronized,
    /// A prediction has proved wrong; an earlier state is being restored.
    Rewinding,
    /// The frames since the restored state are being run again.
    Replaying,
    /// The session has ended for good.
    Desynced,
}

/// What can happen to a session.
#[derive(Clone, Copy, Debug, PartialEq, Eq, Structural)]
pub enum SyncEvent {
    /// Both peers are ready to play.
    PeersReady,
    /// A remote input arrived that differs from the one predicted for its frame.
    Mispredicted,
    /// The state from before the wrong prediction has been restored.
    Restored,
    /// Every frame since the restored state has been run again.
    Replayed,
    /// A remote input stayed unconfirmed until its frame left the window.
    WindowExceeded,
    /// The channel to the remote player was closed.
    ChannelClosed,
}

/// The state that follows `state` on `event`. An event that has no meaning
/// in a state leaves it, and nothing leads out of `Desynced`.
pub open spec fn next_state(state: SyncState, event: SyncEvent) -> SyncState {
    match (state, event) {
        (SyncState::Desynced, _) => SyncState::Desynced,
        (_, SyncEvent::ChannelClosed) => SyncState::Desynced,
        (SyncState::WaitingForPeers, SyncEvent::PeersReady) => SyncState::Synchronized,
        (SyncState::Synchronized, SyncEvent::Mispredicted) => SyncState::Rewinding,
        (SyncState::Synchronized, SyncEvent::WindowExceeded) => SyncState::Desynced,
        (SyncState::Rewinding, SyncEvent::Restored) => SyncState::Replaying,
        (SyncState::Replaying, SyncEvent::Replayed) => SyncState::Synchronized,
        (_, _) => state,
    }
}

/// The state that follows `state` on `event`.
pub fn transition(state: SyncState, event: SyncEvent) -> (next: SyncState)
    ensures
        next == next_state(state, event),
{
    match (state, event) {
        (SyncState::Desynced, _) => SyncState::Desynced,
        (_, SyncEvent::ChannelClosed) => SyncState::Desynced,
        (SyncState::WaitingForPeers, SyncEvent::PeersReady) => SyncState::Synchronized,
        (SyncState::Synchronized, SyncEvent::Mispredicted) => SyncState::Rewinding,
        (SyncState::Synchronized, SyncEvent::WindowExceeded) => SyncState::Desynced,
        (SyncState::Rewinding, SyncEvent::Restored) => SyncState::Replaying,
        (SyncState::Replaying, SyncEvent::Replayed) => SyncState::Synchronized,
        (_, _) => state,
    }
}

/// The masks of both players that count for `frame`, each from the log of
/// its player.
pub open spec fn inputs_for(
    session: Session,
    local: Seq<Option<u8>>,
    remote: Seq<Option<u8>>,
    frame: int,
) -> PlayerInputs {
    if session.local_handle == 0 {
        PlayerInputs { first: effective(local, frame), second: effective(remote, frame) }
    } else {
        PlayerInputs { first: effective(remote, frame), second: effective(local, frame) }
    }
}

/// The inputs that count for the first `frames` frames, as the logs have them.
pub open spec fn script(
    session: Session,
    local: Seq<Option<u8>>,
    remote: Seq<Option<u8>>,
    frames: nat,
) -> Seq<PlayerInputs> {
    Seq::new(frames, |f: int| inputs_for(session, local, remote, f))
}

/// The remote log after the messages have been taken in, in the order in
/// which they arrived. Messages of another player than `handle` are passed
/// over, and so are a message for a frame past `horizon` and a message for
/// a frame that is confirmed already.
pub open spec fn ingested(
    log: Seq<Option<u8>>,
    received: Seq<InputFrame>,
    handle: u8,
    horizon: int,
) -> Seq<Option<u8>>
    decreases received.len(),
{
    if received.len() == 0 {
        log
    } else if received.last().player_handle == handle && received.last().frame <= horizon {
        with_confirmed(
            ingested(log, received.drop_last(), handle, horizon),
            received.last().frame as int,
            received.last().input_mask,
        )
    } else {
        ingested(log, received.drop_last(), handle, horizon)
    }
}

/// Taking messages in changes no mask that was confirmed before; after it
/// every frame up to the horizon for which the player `handle` has sent a
/// mask is confirmed; and the log reaches no further than it did or than
/// the horizon.
pub proof fn lemma_ingested_confirms(
    log: Seq<Option<u8>>,
    received: Seq<InputFrame>,
    handle: u8,
    horizon: int,
)
    ensures
        extends(log, ingested(log, received, handle, horizon)),
        forall|i: int|
            0 <= i < received.len() && (#[trigger] received[i]).player_handle == handle
                && received[i].frame <= horizon ==> confirmed_at(
                ingested(log, received, handle, horizon),
                received[i].frame as int,
            ),
        ingested(log, received, handle, horizon).len() <= log.len() || ingested(
            log,
            received,
            handle,
            horizon,
        ).len() <= horizon + 1,
    decreases received.len(),
{
    if received.len() > 0 {
        let front = received.drop_last();
        let before = ingested(log, front, handle, horizon);
        lemma_ingested_confirms(log, front, handle, horizon);
        let after = ingested(log, received, handle, horizon);
        assert forall|i: int|
            0 <= i < received.len() && (#[trigger] received[i]).player_handle == handle
                && received[i].frame <= horizon implies confirmed_at(
            after,
            received[i].frame as int,
        ) by {
            if i < front.len() {
                assert(front[i] == received[i]);
            }
        }
    }
}

/// Whether `target` is the frame to rewind to after the log has changed
/// from `before` to `after`: the earliest frame below `frame` for which
/// another mask counts now, or none where there is no such frame.
pub open spec fn is_rewind_target(
    before: Seq<Option<u8>>,
    after: Seq<Option<u8>>,
    frame: int,
    target: Option<u32>,
) -> bool {
    match target {
        Some(t) => {
            &&& t < frame
            &&& effective(after, t as int) != effective(before, t as int)
            &&& forall|g: int| 0 <= g < t ==> effective(after, g) == effective(before, g)
        },
        None => forall|g: int| 0 <= g < frame ==> effective(after, g) == effective(before, g),
    }
}

/// Takes the messages of the player `handle` for frames up to `horizon`
/// into the log, and says to which frame the simulation, which stands at
/// `frame`, has to rewind.
pub fn ingest(
    log: &mut InputLog,
    received: &Vec<InputFrame>,
    handle: u8,
    frame: u32,
    horizon: u32,
) -> (target: Option<u32>)
    requires
        old(log).wf(),
    ensures
        final(log).wf(),
        final(log)@ == ingested(old(log)@, received@, handle, horizon as int),
        extends(old(log)@, final(log)@),
        is_rewind_target(old(log)@, final(log)@, frame as int, target),
{
    let mut target: Option<u32> = None;
    let mut i: usize = 0;
    while i < received.len()
        invariant
            i <= received@.len(),
            log.wf(),
            log@ == ingested(old(log)@, received@.take(i as int), handle, horizon as int),
            extends(old(log)@, log@),
            is_rewind_target(old(log)@, log@, frame as int, target),
        decreases received@.len() - i,
    {
        let message: InputFrame = received[i];
        let ghost before = log@;
        proof {
            let upto = received@.take(i + 1);
            assert(upto.drop_last() =~= received@.take(i as int));
        }
        if message.player_handle == handle && message.frame <= horizon {
            let predicted: u8 = log.effective(message.frame);
            let fresh: bool = log.confirm(message.frame, message.input_mask);
            if fresh {
                proof {
                    lemma_ingest_step(old(log)@, before, message.frame as int, message.input_mask, frame as int, target);
                }
                if message.frame < frame && message.input_mask != predicted {
                    target = match target {
                        Some(t) => if message.frame < t { Some(message.frame) } else { Some(t) },
                        None => Some(message.frame),
                    };
                }
            }
        }
        i = i + 1;
    }
    assert(received@.take(i as int) =~= received@);
    target
}

spec fn target_after(
    log: Seq<Option<u8>>,
    at: int,
    mask: u8,
    frame: int,
    target: Option<u32>,
) -> Option<u32> {
    if at < frame && mask != effective(log, at) {
        match target {
            Some(t) => if at < t { Some(at as u32) } else { Some(t) },
            None => Some(at as u32),
        }
    } else {
        target
    }
}

proof fn lemma_ingest_step(
    first: Seq<Option<u8>>,
    log: Seq<Option<u8>>,
    at: int,
    mask: u8,
    frame: int,
    target: Option<u32>,
)
    requires
        0 <= at <= u32::MAX,
        !confirmed_at(log, at),
        extends(first, log),
        is_rewind_target(first, log, frame, target),
    ensures
        extends(first, with_confirmed(log, at, mask)),
        is_rewind_target(first, with_confirmed(log, at, mask), frame, target_after(log, at, mask, frame, target)),
{
    let after = with_confirmed(log, at, mask);
    assert forall|f: int| #[trigger] confirmed_at(first, f) implies confirmed_at(after, f) && after[f]
        == first[f] by {}
    assert forall|g: int| g < at implies effective(after, g) == effective(log, g) by {
        lemma_confirm_keeps_earlier(log, at, mask, g);
    }
    if mask == effective(log, at) {
        assert forall|g: int| effective(after, g) == effective(log, g) by {
            lemma_confirm_as_predicted(log, at, mask, g);
        }
    } else if at < frame && target == Some(at as u32) && at > 0 {
        // no frame is both unconfirmed and the first to have changed
        assert(effective(log, at - 1) == effective(first, at - 1));
    }
}

/// The world at the start of frame `frames`: the world that `origin` becomes
/// when each frame before is played with the masks that count for it.
pub open spec fn simulated(
    origin: WorldView,
    session: Session,
    local: Seq<Option<u8>>,
    remote: Seq<Option<u8>>,
    frames: nat,
) -> WorldView
    decreases frames,
{
    if frames == 0 {
        origin
    } else {
        simulated(origin, session, local, remote, (frames - 1) as nat).stepped(
            inputs_for(session, local, remote, frames - 1),
        )
    }
}

/// What a tick reports back.
#[derive(Clone, Copy, Debug, PartialEq, Eq)]
pub struct TickReport {
    /// The local input of this tick, tagged with the frame for which it
    /// counts, to be sent to the remote player.
    pub sent: InputFrame,
    /// The frame to which the simulation went back, if a prediction had
    /// proved wrong.
    pub rewound_to: Option<u32>,
    /// Number of frames that were run again.
    pub resimulated: u32,
}

/// What a synchronizer is.
pub ghost struct SynchronizerView {
    pub state: SyncState,
    pub session: Session,
    /// The frame that is simulated next.
    pub frame: u32,
    /// The confirmed inputs of the local player, by frame.
    pub local: Seq<Option<u8>>,
    /// The confirmed inputs of the remote player, by frame.
    pub remote: Seq<Option<u8>>,
    /// The world at the start of `frame`.
    pub world: WorldView,
    /// The saved states, oldest first.
    pub snapshots: Seq<SavedStateView>,
    /// The world at the start of frame 0.
    pub origin: WorldView,
}

impl SynchronizerView {
    /// The world at the start of frame `frames`, had every input that the
    /// logs hold now been known from the beginning.
    pub open spec fn world_at(self, frames: nat) -> WorldView {
        simulated(self.origin, self.session, self.local, self.remote, frames)
    }

    /// Number of saved states: one for each of the latest frames, the one
    /// that is simulated next included, as far as the window reaches.
    pub open spec fn held(self) -> int {
        if self.frame + 1 <= self.session.prediction_window {
            self.frame + 1
        } else {
            self.session.prediction_window as int
        }
    }

    /// The parts fit together: the local player has an input on record for
    /// every frame up to the input delay ahead and for no other, and the
    /// saved states are those of the latest frames.
    pub open spec fn framed(self) -> bool {
        &&& self.session.wf()
        &&& self.origin.wf()
        &&& self.frame + self.session.input_delay <= u32::MAX
        &&& self.local.len() == self.frame + self.session.input_delay
        &&& forall|f: int| 0 <= f < self.local.len() ==> confirmed_at(self.local, f)
        &&& self.world.walls == self.origin.walls
        &&& self.snapshots.len() == self.held()
        &&& consecutive(self.snapshots)
        &&& self.snapshots.last().frame == self.frame
    }

    /// Every saved state of a frame up to `frame` is the world that the
    /// inputs on record give for its frame.
    pub open spec fn true_upto(self, frame: int) -> bool {
        forall|i: int|
            0 <= i < self.snapshots.len() && (#[trigger] self.snapshots[i]).frame <= frame
                ==> self.snapshots[i] == self.world_at(self.snapshots[i].frame as nat).saved(
                self.snapshots[i].frame,
            )
    }

    /// Between ticks a synchronizer holds the world that the inputs on
    /// record give, and so does each of its saved states; and no frame
    /// whose remote input is unconfirmed is a whole window behind.
    pub open spec fn wf(self) -> bool {
        &&& self.framed()
        &&& self.state != SyncState::Rewinding
        &&& self.state != SyncState::Replaying
        &&& self.state == SyncState::WaitingForPeers ==> self.frame == 0
        &&& self.frame < first_unconfirmed(self.remote) + self.session.prediction_window
        &&& self.world == self.world_at(self.frame as nat)
        &&& self.true_upto(self.frame as int)
    }

    /// The message that carries the local input on record for `frame`.
    pub open spec fn local_message(self, frame: int) -> InputFrame {
        InputFrame {
            frame: frame as u32,
            player_handle: self.session.local_handle,
            input_mask: self.local[frame]->0,
        }
    }

    /// The first of the latest local inputs: a prediction window before
    /// the end of the record, or its beginning.
    pub open spec fn first_latest(self) -> int {
        if self.local.len() > self.session.prediction_window {
            self.local.len() - self.session.prediction_window
        } else {
            0
        }
    }

    /// The messages that carry the latest local inputs, oldest first.
    pub open spec fn latest_local(self) -> Seq<InputFrame> {
        Seq::new(
            (self.local.len() - self.first_latest()) as nat,
            |i: int| self.local_message(self.first_latest() + i),
        )
    }

    /// The last frame for which a message of the remote player is taken
    /// in. A remote player that keeps to its own prediction window and
    /// input delay has sent nothing for a later frame, so the record of its
    /// inputs grows with the match and not with what a message claims.
    pub open spec fn horizon(self) -> int {
        let reach = self.frame + self.session.prediction_window + 2 * self.session.input_delay;
        if reach > u32::MAX {
            u32::MAX as int
        } else {
            reach
        }
    }

    /// The record of the remote player's inputs once the messages have
    /// been taken in.
    pub open spec fn heard(self, received: Seq<InputFrame>) -> Seq<Option<u8>> {
        ingested(self.remote, received, self.session.remote_handle, self.horizon())
    }

    /// Whether too little is known of the remote player to simulate the
    /// next frame, once the messages have been taken in: the first frame
    /// without a confirmed remote input would then be a whole window behind.
    pub open spec fn starved(self, received: Seq<InputFrame>) -> bool {
        first_unconfirmed(self.heard(received)) + self.session.prediction_window <= self.frame + 1
    }

    /// Whether a tick with the given local mask and messages leads from
    /// this synchronizer to `after` with the given outcome.
    pub open spec fn ticked(
        self,
        after: SynchronizerView,
        local_mask: u8,
        received: Seq<InputFrame>,
        outcome: Result<TickReport, SessionError>,
    ) -> bool {
        let heard = self.heard(received);
        &&& after.session == self.session
        &&& after.origin == self.origin
        &&& if self.state != SyncState::Synchronized {
            &&& after == self
            &&& outcome == Err::<TickReport, SessionError>(SessionError::NotSynchronized)
        } else if self.starved(received) {
            &&& outcome == Err::<TickReport, SessionError>(SessionError::PredictionWindowExceeded)
            &&& after.state == SyncState::Desynced
            &&& after.frame == self.frame
            &&& after.local == self.local
            &&& after.remote == heard
        } else {
            &&& after.state == SyncState::Synchronized
            &&& after.frame == self.frame + 1
            &&& after.local == with_confirmed(
                self.local,
                self.frame + self.session.input_delay,
                local_mask,
            )
            &&& after.remote == heard
            &&& outcome matches Ok(report) && {
                &&& report.sent == (InputFrame {
                    frame: (self.frame + self.session.input_delay) as u32,
                    player_handle: self.session.local_handle,
                    input_mask: local_mask,
                })
                &&& is_rewind_target(self.remote, heard, self.frame as int, report.rewound_to)
                &&& report.resimulated == match report.rewound_to {
                    Some(t) => self.frame - t,
                    None => 0,
                }
            }
        }
    }
}

/// The simulated world is well-formed and has the walls of the world at the
/// start.
pub proof fn lemma_simulated_wf(
    origin: WorldView,
    session: Session,
    local: Seq<Option<u8>>,
    remote: Seq<Option<u8>>,
    frames: nat,
)
    requires
        origin.wf(),
    ensures
        simulated(origin, session, local, remote, frames).wf(),
        simulated(origin, session, local, remote, frames).walls == origin.walls,
    decreases frames,
{
    if frames > 0 {
        lemma_simulated_wf(origin, session, local, remote, (frames - 1) as nat);
        lemma_stepped_wf(
            simulated(origin, session, local, remote, (frames - 1) as nat),
            inputs_for(session, local, remote, frames - 1),
        );
    }
}

/// Logs that let the same masks count for every frame below `frames` give
/// the same world at `frames`.
pub proof fn lemma_simulated_agrees(
    origin: WorldView,
    session: Session,
    local: Seq<Option<u8>>,
    remote: Seq<Option<u8>>,
    other_local: Seq<Option<u8>>,
    other_remote: Seq<Option<u8>>,
    frames: nat,
)
    requires
        forall|f: int|
            0 <= f < frames ==> effective(local, f) == effective(other_local, f) && effective(
                remote,
                f,
            ) == effective(other_remote, f),
    ensures
        simulated(origin, session, local, remote, frames) == simulated(
            origin,
            session,
            other_local,
            other_remote,
            frames,
        ),
    decreases frames,
{
    if frames > 0 {
        lemma_simulated_agrees(
            origin,
            session,
            local,
            remote,
            other_local,
            other_remote,
            (frames - 1) as nat,
        );
    }
}

/// Two peers that start from the same world and let the same masks count
/// for both players in every frame below `frames` hold the same world at
/// `frames`, whichever of the two handles each of them plays.
pub proof fn lemma_simulated_same_inputs(
    origin: WorldView,
    session: Session,
    local: Seq<Option<u8>>,
    remote: Seq<Option<u8>>,
    other_session: Session,
    other_local: Seq<Option<u8>>,
    other_remote: Seq<Option<u8>>,
    frames: nat,
)
    requires
        forall|f: int|
            0 <= f < frames ==> #[trigger] inputs_for(session, local, remote, f) == inputs_for(
                other_session,
                other_local,
                other_remote,
                f,
            ),
    ensures
        simulated(origin, session, local, remote, frames) == simulated(
            origin,
            other_session,
            other_local,
            other_remote,
            frames,
        ),
    decreases frames,
{
    if frames > 0 {
        lemma_simulated_same_inputs(
            origin,
            session,
            local,
            remote,
            other_session,
            other_local,
            other_remote,
            (frames - 1) as nat,
        );
    }
}

/// The simulated world is the one that playing the script of the logs
/// straight through gives.
pub proof fn lemma_simulated_is_played(
    origin: WorldView,
    session: Session,
    local: Seq<Option<u8>>,
    remote: Seq<Option<u8>>,
    frames: nat,
)
    ensures
        simulated(origin, session, local, remote, frames) == played(
            origin,
            script(session, local, remote, frames),
        ),
    decreases frames,
{
    if frames > 0 {
        lemma_simulated_is_played(origin, session, local, remote, (frames - 1) as nat);
        assert(script(session, local, remote, frames).drop_last() =~= script(
            session,
            local,
            remote,
            (frames - 1) as nat,
        ));
    }
}

/// Two peers between ticks that started from the same world, stand at the
/// same frame and have on record the same masks for both players in every
/// frame before it hold the same world.
pub proof fn lemma_peers_agree(peer: SynchronizerView, other: SynchronizerView)
    requires
        peer.wf(),
        other.wf(),
        peer.origin == other.origin,
        peer.frame == other.frame,
        forall|f: int|
            0 <= f < peer.frame ==> #[trigger] inputs_for(peer.session, peer.local, peer.remote, f)
                == inputs_for(other.session, other.local, other.remote, f),
    ensures
        peer.world == other.world,
{
    lemma_simulated_same_inputs(
        peer.origin,
        peer.session,
        peer.local,
        peer.remote,
        other.session,
        other.local,
        other.remote,
        peer.frame as nat,
    );
}

/// A synchronizer between ticks that has the true inputs of both players
/// on record for every frame before the current one holds the world that
/// playing the true inputs straight through gives, however many frames it
/// had simulated on predictions and run again on the way.
pub proof fn lemma_rewind_equivalence(sync: SynchronizerView, truth: Seq<PlayerInputs>)
    requires
        sync.wf(),
        truth.len() == sync.frame,
        forall|f: int|
            #![trigger truth[f]]
            #![trigger confirmed_at(sync.local, f)]
            #![trigger confirmed_at(sync.remote, f)]
            #![trigger sync.local[f]]
            #![trigger sync.remote[f]]
            0 <= f < sync.frame ==> {
                &&& confirmed_at(sync.local, f)
                &&& confirmed_at(sync.remote, f)
                &&& sync.local[f] == Some(truth[f].of(sync.session.local_handle as int))
                &&& sync.remote[f] == Some(truth[f].of(sync.session.remote_handle as int))
            },
    ensures
        sync.world == played(sync.origin, truth),
{
    lemma_simulated_is_played(sync.origin, sync.session, sync.local, sync.remote, sync.frame as nat);
    let script = script(sync.session, sync.local, sync.remote, sync.frame as nat);
    assert(script =~= truth);
}

/// Between ticks no frame is simulated, or about to be, whose remote input
/// has been unconfirmed for a whole prediction window: the frame counter
/// of a session stays below every such frame plus the window.
pub proof fn lemma_window_bound(sync: SynchronizerView, frame: int)
    requires
        sync.wf(),
        0 <= frame,
        !confirmed_at(sync.remote, frame),
    ensures
        sync.frame < frame + sync.session.prediction_window,
{
    lemma_first_unconfirmed(sync.remote);
}

/// A tick that would take the frame counter to a frame that lies a whole
/// prediction window past a frame whose remote input is still unconfirmed,
/// once the messages of the tick are taken in, ends the session instead:
/// it fails with `PredictionWindowExceeded` and leaves the session
/// `Desynced` with its frame counter where it was.
pub proof fn lemma_starved_tick_desyncs(
    before: SynchronizerView,
    after: SynchronizerView,
    local_mask: u8,
    received: Seq<InputFrame>,
    outcome: Result<TickReport, SessionError>,
    frame: int,
)
    requires
        before.wf(),
        before.state == SyncState::Synchronized,
        before.ticked(after, local_mask, received, outcome),
        0 <= frame,
        !confirmed_at(before.heard(received), frame),
        frame + before.session.prediction_window <= before.frame + 1,
    ensures
        outcome == Err::<TickReport, SessionError>(SessionError::PredictionWindowExceeded),
        after.state == SyncState::Desynced,
        after.frame == before.frame,
{
    let heard = before.heard(received);
    lemma_first_unconfirmed(heard);
}

/// Between ticks the saved states are no more than the prediction window
/// has frames, the newest is that of the current frame, and the oldest is
/// less than a window older.
pub proof fn lemma_saved_states_bound(sync: SynchronizerView)
    requires
        sync.wf(),
    ensures
        0 < sync.snapshots.len() <= sync.session.prediction_window,
        sync.snapshots.last().frame == sync.frame,
        sync.snapshots[0].frame > sync.frame - sync.session.prediction_window,
        forall|i: int|
            0 <= i < sync.snapshots.len() ==> (#[trigger] sync.snapshots[i]).frame
                == sync.snapshots[0].frame + i,
{
}

/// Between ticks the world of a session has its two players, each under
/// the handle it had at the start, its entities within range, and the walls
/// of the world at the start.
pub proof fn lemma_players_are_stable(sync: SynchronizerView)
    requires
        sync.wf(),
    ensures
        sync.world.wf(),
        sync.world.players.len() == 2,
        sync.world.players[0].handle == 0,
        sync.world.players[1].handle == 1,
        sync.world.walls == sync.origin.walls,
{
    lemma_simulated_wf(sync.origin, sync.session, sync.local, sync.remote, sync.frame as nat);
}

/// Nothing leads out of `Desynced`.
pub proof fn lemma_desynced_is_final(event: SyncEvent)
    ensures
        next_state(SyncState::Desynced, event) == SyncState::Desynced,
{
}

/// Saved states that are true stay true when the logs change without
/// changing a mask that counts for a frame below `limit`.
proof fn lemma_true_upto_carries(before: SynchronizerView, after: SynchronizerView, limit: int)
    requires
        before.true_upto(limit),
        after.snapshots == before.snapshots,
        after.origin == before.origin,
        after.session == before.session,
        forall|f: int|
            0 <= f < limit ==> effective(after.local, f) == effective(before.local, f)
                && effective(after.remote, f) == effective(before.remote, f),
    ensures
        after.true_upto(limit),
        forall|n: nat| n <= limit ==> #[trigger] after.world_at(n) == before.world_at(n),
{
    assert forall|n: nat| n <= limit implies #[trigger] after.world_at(n) == before.world_at(n) by {
        lemma_simulated_agrees(
            after.origin,
            after.session,
            after.local,
            after.remote,
            before.local,
            before.remote,
            n,
        );
    }
    assert forall|i: int|
        0 <= i < after.snapshots.len() && (#[trigger] after.snapshots[i]).frame
            <= limit implies after.snapshots[i] == after.world_at(
        after.snapshots[i].frame as nat,
    ).saved(after.snapshots[i].frame) by {
        assert(after.world_at(after.snapshots[i].frame as nat) == before.world_at(
            after.snapshots[i].frame as nat,
        ));
    }
}

/// The rollback synchronizer of one peer. It owns the frame counter, the
/// inputs of both players, the world, and the saved states of the latest
/// frames.
pub struct Synchronizer {
    state: SyncState,
    session: Session,
    frame: u32,
    local: InputLog,
    remote: InputLog,
    world: World,
    ring: SnapshotRing,
    origin: Ghost<WorldView>,
}

impl View for Synchronizer {
    type V = SynchronizerView;

    closed spec fn view(&self) -> SynchronizerView {
        SynchronizerView {
            state: self.state,
            session: self.session,
            frame: self.frame,
            local: self.local@,
            remote: self.remote@,
            world: self.world@,
            snapshots: self.ring@,
            origin: self.origin@,
        }
    }
}

impl Synchronizer {
    /// The bookkeeping of the parts is sound. It is of every synchronizer
    /// made and changed through the functions of this type.
    pub closed spec fn sound(&self) -> bool {
        &&& self.local.wf()
        &&& self.remote.wf()
        &&& self.ring.wf()
        &&& self.ring.capacity() == self.session.prediction_window
    }

    /// Whether the synchronizer is one between ticks.
    pub open spec fn wf(&self) -> bool {
        &&& self.sound()
        &&& self@.wf()
    }

    /// A synchronizer for the session that starts from the given world at
    /// frame 0 and waits for the peers. Neither player has an input for the
    /// frames that the input delay covers.
    pub fn new(session: Session, world: World) -> (sync: Synchronizer)
        requires
            session.wf(),
            world.wf(),
        ensures
            sync.wf(),
            sync@.state == SyncState::WaitingForPeers,
            sync@.session == session,
            sync@.frame == 0,
            sync@.local == Seq::new(session.input_delay as nat, |i: int| Some(0u8)),
            sync@.remote == Seq::new(session.input_delay as nat, |i: int| Some(0u8)),
            sync@.world == world@,
            sync@.origin == world@,
    {
        let local: InputLog = InputLog::new(session.input_delay);
        let remote: InputLog = InputLog::new(session.input_delay);
        let mut ring: SnapshotRing = SnapshotRing::new(session.prediction_window as usize);
        ring.push(world.save(0));
        let ghost origin = world@;
        let sync = Synchronizer {
            state: SyncState::WaitingForPeers,
            session,
            frame: 0,
            local,
            remote,
            world,
            ring,
            origin: Ghost(origin),
        };
        proof {
            lemma_first_unconfirmed(sync@.remote);
        }
        sync
    }

    /// Where the session stands.
    pub fn state(&self) -> (state: SyncState)
        ensures
            state == self@.state,
    {
        self.state
    }

    /// The session that is synchronized.
    pub fn session(&self) -> (session: Session)
        ensures
            session == self@.session,
    {
        self.session
    }

    /// The frame that is simulated next.
    pub fn frame(&self) -> (frame: u32)
        ensures
            frame == self@.frame,
    {
        self.frame
    }

    /// The world at the start of the frame that is simulated next.
    pub fn world(&self) -> (world: &World)
        ensures
            world@ == self@.world,
    {
        &self.world
    }

    /// The confirmed input of the remote player for `frame`, if there is one.
    pub fn remote_input(&self, frame: u32) -> (mask: Option<u8>)
        ensures
            mask is Some <==> confirmed_at(self@.remote, frame as int),
            mask is Some ==> mask == self@.remote[frame as int],
    {
        self.remote.confirmed(frame)
    }

    /// The confirmed input of the local player for `frame`, if there is one.
    pub fn local_input(&self, frame: u32) -> (mask: Option<u8>)
        ensures
            mask is Some <==> confirmed_at(self@.local, frame as int),
            mask is Some ==> mask == self@.local[frame as int],
    {
        self.local.confirmed(frame)
    }

    /// The latest local inputs, oldest first, as many as the prediction
    /// window has frames or as there are: what the remote player may still
    /// be waiting for. Sent again with every tick, they make up for messages
    /// that were lost on the way.
    pub fn unacknowledged(&self) -> (messages: Vec<InputFrame>)
        requires
            self.wf(),
        ensures
            messages@ == self@.latest_local(),
    {
        let held: usize = self.local.len();
        let window: usize = self.session.prediction_window as usize;
        let first: usize = if held > window { held - window } else { 0 };
        let mut messages: Vec<InputFrame> = Vec::new();
        let mut at: usize = first;
        while at < held
            invariant
                self.wf(),
                held == self@.local.len(),
                first == self@.first_latest(),
                first <= at <= held,
                messages@.len() == at - first,
                forall|i: int|
                    0 <= i < at - first ==> #[trigger] messages@[i] == self@.local_message(
                        first + i,
                    ),
            decreases held - at,
        {
            let frame: u32 = at as u32;
            assert(confirmed_at(self@.local, at as int));
            let mask: u8 = self.local.effective(frame);
            messages.push(
                InputFrame { frame, player_handle: self.session.local_handle, input_mask: mask },
            );
            at = at + 1;
        }
        assert(messages@ =~= self@.latest_local());
        messages
    }

    /// Number of saved states held.
    pub fn saved_states(&self) -> (n: usize)
        ensures
            n == self@.snapshots.len(),
    {
        self.ring.len()
    }

    /// Lets the session begin once both peers are ready.
    pub fn start(&mut self)
        requires
            old(self).wf(),
        ensures
            final(self).wf(),
            final(self)@ == (SynchronizerView {
                state: next_state(old(self)@.state, SyncEvent::PeersReady),
                ..old(self)@
            }),
    {
        self.state = transition(self.state, SyncEvent::PeersReady);
        proof {
            Self::lemma_only_state_changed(old(self)@, self@);
        }
    }

    /// Ends the session because the channel to the remote player was
    /// closed, and gives the failure to report.
    pub fn close(&mut self) -> (failure: SessionError)
        requires
            old(self).wf(),
        ensures
            final(self).wf(),
            failure == SessionError::ChannelClosed,
            final(self)@ == (SynchronizerView { state: SyncState::Desynced, ..old(self)@ }),
    {
        self.state = transition(self.state, SyncEvent::ChannelClosed);
        proof {
            Self::lemma_only_state_changed(old(self)@, self@);
        }
        SessionError::ChannelClosed
    }

    proof fn lemma_only_state_changed(before: SynchronizerView, after: SynchronizerView)
        requires
            before.wf(),
            after == (SynchronizerView { state: after.state, ..before }),
            after.state != SyncState::Rewinding,
            after.state != SyncState::Replaying,
            after.state == SyncState::WaitingForPeers ==> before.state
                == SyncState::WaitingForPeers,
        ensures
            after.wf(),
    {
    }

    fn inputs_at(&self, frame: u32) -> (inputs: PlayerInputs)
        ensures
            inputs == inputs_for(self@.session, self@.local, self@.remote, frame as int),
    {
        let local: u8 = self.local.effective(frame);
        let remote: u8 = self.remote.effective(frame);
        if self.session.local_handle == 0 {
            PlayerInputs { first: local, second: remote }
        } else {
            PlayerInputs { first: remote, second: local }
        }
    }

    /// Goes back to the saved state of the frame `target` and runs every
    /// frame from there to the current one again.
    fn resimulate(&mut self, target: u32)
        requires
            old(self).sound(),
            old(self)@.framed(),
            old(self)@.state == SyncState::Synchronized,
            old(self)@.true_upto(target as int),
            target < old(self)@.frame,
            old(self)@.snapshots[0].frame <= target,
        ensures
            final(self).sound(),
            final(self)@.framed(),
            final(self)@.true_upto(final(self)@.frame as int),
            final(self)@.world == final(self)@.world_at(final(self)@.frame as nat),
            final(self)@.state == SyncState::Synchronized,
            final(self)@.session == old(self)@.session,
            final(self)@.frame == old(self)@.frame,
            final(self)@.local == old(self)@.local,
            final(self)@.remote == old(self)@.remote,
            final(self)@.origin == old(self)@.origin,
    {
        let ghost start = self@;
        self.state = transition(self.state, SyncEvent::Mispredicted);
        match self.ring.at_or_before(target) {
            Some(saved) => {
                self.world.restore(saved);
            },
            None => {},
        }
        self.state = transition(self.state, SyncEvent::Restored);
        proof {
            lemma_simulated_wf(start.origin, start.session, start.local, start.remote, target as nat);
        }
        let mut g: u32 = target;
        while g < self.frame
            invariant
                self.sound(),
                self@.framed(),
                self@.state == SyncState::Replaying,
                self@.session == start.session,
                self@.frame == start.frame,
                self@.local == start.local,
                self@.remote == start.remote,
                self@.origin == start.origin,
                target <= g <= self@.frame,
                self@.snapshots[0].frame <= target,
                self@.world == self@.world_at(g as nat),
                self@.true_upto(g as int),
            decreases self@.frame - g,
        {
            let ghost before = self@;
            let inputs: PlayerInputs = self.inputs_at(g);
            proof {
                lemma_simulated_wf(before.origin, before.session, before.local, before.remote, g as nat);
            }
            step(&mut self.world, inputs);
            g = g + 1;
            let saved: SavedState = self.world.save(g);
            self.ring.overwrite(saved);
            assert(self@.snapshots[0].frame == before.snapshots[0].frame);
            assert(self@.snapshots.last().frame == before.frame);
        }
        self.state = transition(self.state, SyncEvent::Replayed);
    }

    /// Runs one tick. The local input counts for the frame that lies the
    /// input delay ahead. The messages that arrived from the remote player
    /// are taken in first, but for those for frames past the horizon, which
    /// are passed over; if one of them differs from what was predicted
    /// for a frame that has been simulated, the world goes back to that
    /// frame and every frame since is run again. Then the current frame is
    /// simulated, with the last confirmed mask of the remote player where
    /// its input is not here yet, and the new state is saved.
    ///
    /// If too little is known of the remote player to go on, the session
    /// ends instead and the tick fails with `PredictionWindowExceeded`: no
    /// frame is simulated while a frame without a confirmed remote input
    /// would then be a whole prediction window behind. A session that is
    /// not running refuses the tick and stays as it is.
    pub fn tick(&mut self, local_mask: u8, received: &Vec<InputFrame>) -> (outcome: Result<
        TickReport,
        SessionError,
    >)
        requires
            old(self).wf(),
            old(self)@.frame + old(self)@.session.input_delay < u32::MAX,
        ensures
            final(self).wf(),
            old(self)@.ticked(final(self)@, local_mask, received@, outcome),
    {
        match self.state {
            SyncState::Synchronized => {},
            _ => {
                return Err(SessionError::NotSynchronized);
            },
        }
        let ghost v0 = self@;
        let frame: u32 = self.frame;
        let window: u32 = self.session.prediction_window;
        let reach: u64 = frame as u64 + window as u64 + 2 * (self.session.input_delay as u64);
        let horizon: u32 = if reach > u32::MAX as u64 { u32::MAX } else { reach as u32 };
        let target: Option<u32> = ingest(
            &mut self.remote,
            received,
            self.session.remote_handle,
            frame,
            horizon,
        );
        let ghost v1 = self@;
        let ghost limit: int = match target {
            Some(t) => t as int,
            None => frame as int,
        };
        proof {
            lemma_true_upto_carries(v0, v1, limit);
            lemma_first_unconfirmed(v0.remote);
            lemma_first_unconfirmed_grows(v0.remote, v1.remote);
        }
        let mut resimulated: u32 = 0;
        match target {
            Some(t) => {
                // the frame was predicted, so its saved state is still held
                assert(v1.snapshots.last().frame == v1.snapshots[0].frame + (v1.snapshots.len()
                    - 1));
                self.resimulate(t);
                resimulated = frame - t;
            },
            None => {},
        }
        let ghost v2 = self@;
        let unconfirmed: usize = self.remote.first_unconfirmed();
        if unconfirmed <= frame as usize && unconfirmed as u64 + window as u64 <= frame as u64 + 1 {
            self.state = transition(self.state, SyncEvent::WindowExceeded);
            proof {
                lemma_true_upto_carries(v2, self@, frame as int);
            }
            return Err(SessionError::PredictionWindowExceeded);
        }
        let sent = InputFrame {
            frame: frame + self.session.input_delay,
            player_handle: self.session.local_handle,
            input_mask: local_mask,
        };
        let _ = self.local.confirm(sent.frame, local_mask);
        let ghost v3 = self@;
        proof {
            lemma_true_upto_carries(v2, v3, frame as int);
            lemma_simulated_wf(v3.origin, v3.session, v3.local, v3.remote, frame as nat);
            assert(v3.world == v3.world_at(frame as nat));
        }
        let inputs: PlayerInputs = self.inputs_at(frame);
        step(&mut self.world, inputs);
        self.frame = frame + 1;
        let saved: SavedState = self.world.save(self.frame);
        self.ring.push(saved);
        proof {
            let v4 = self@;
            assert(v4.world == v4.world_at((frame + 1) as nat));
            assert(v4.snapshots == with_pushed(v3.snapshots, saved@, window as nat));
            assert(v3.snapshots.last().frame == v3.snapshots[0].frame + v3.snapshots.len() - 1);
            assert forall|i: int|
                0 <= i < v4.snapshots.len() && (#[trigger] v4.snapshots[i]).frame <= frame
                    + 1 implies v4.snapshots[i] == v4.world_at(v4.snapshots[i].frame as nat).saved(
                v4.snapshots[i].frame,
            ) by {
                if i < v4.snapshots.len() - 1 {
                    if v3.snapshots.len() >= window {
                        assert(v4.snapshots[i] == v3.snapshots[i + 1]);
                        assert(v3.snapshots[i + 1].frame == v3.snapshots[0].frame + i + 1);
                    } else {
                        assert(v4.snapshots[i] == v3.snapshots[i]);
                        assert(v3.snapshots[i].frame == v3.snapshots[0].frame + i);
                    }
                    assert(v4.world_at(v4.snapshots[i].frame as nat) == v3.world_at(
                        v4.snapshots[i].frame as nat,
                    ));
                }
            }
            assert forall|f: int| 0 <= f < v4.local.len() implies confirmed_at(v4.local, f) by {
                if f < v2.local.len() {
                    assert(confirmed_at(v2.local, f));
                }
            }
        }
        Ok(TickReport { sent, rewound_to: target, resimulated })
    }
}

} // verus!
