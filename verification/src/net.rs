use vstd::prelude::*;
use vstd::string::StringExecFns;
use crate::session::{Session, SessionError, INPUT_DELAY, LOBBY_FPS, PREDICTION_WINDOW};
use crate::world::LOBBY_PLAYER_COUNT;

verus! {

/// Where the rendezvous service listens.
pub const MATCHBOX_SERVER_URL: &'static str = "ws://127.0.0.1:3536";

/// Polls without a new peer after which matchmaking gives up: half a
/// minute at one poll per tick.
pub const MATCHMAKING_PATIENCE: u32 = 1800;

/// The stages of the game.
#[derive(Clone, Copy, Debug, PartialEq, Eq, Hash, Structural)]
pub enum GameStates {
    /// The peers are being brought together.
    Matchmaking,
    /// The match is being played.
    Lobby,
}

impl Default for GameStates {
    fn default() -> (state: GameStates)
        ensures
            state == GameStates::Matchmaking,
    {
        GameStates::Matchmaking
    }
}

/// The number of peers that are connected, this one included, for display.
#[derive(Clone, Copy, Debug, PartialEq, Eq, Structural)]
pub struct PlayerCount(pub u8);

impl Default for PlayerCount {
    fn default() -> (count: PlayerCount)
        ensures
            count.0 == 0,
    {
        PlayerCount(0)
    }
}

/// Whose a slot of a match is.
#[derive(Clone, Copy, Debug, PartialEq, Eq, Structural)]
pub enum Peer {
    /// The peer that runs this program.
    Local,
    /// The peer at the other end of the channel.
    Remote,
}

/// The character for a digit.
pub open spec fn digit(d: int) -> char {
    if d == 0 {
        '0'
    } else if d == 1 {
        '1'
    } else if d == 2 {
        '2'
    } else if d == 3 {
        '3'
    } else if d == 4 {
        '4'
    } else if d == 5 {
        '5'
    } else if d == 6 {
        '6'
    } else if d == 7 {
        '7'
    } else if d == 8 {
        '8'
    } else {
        '9'
    }
}

/// The number in decimal, without leading zeros.
pub open spec fn decimal(n: nat) -> Seq<char>
    decreases n,
{
    if n < 10 {
        seq![digit(n as int)]
    } else {
        decimal(n / 10).push(digit((n % 10) as int))
    }
}

/// The address under which the peers of a session meet: the server, the
/// session code, and the number of players that the session waits for.
pub open spec fn room_url_of(server: Seq<char>, code: Seq<char>, players: nat) -> Seq<char> {
    server + "/"@ + code + "?next="@ + decimal(players)
}

fn digit_text(d: usize) -> (text: &'static str)
    requires
        d < 10,
    ensures
        text@ == seq![digit(d as int)],
{
    proof {
        reveal_strlit("0");
        reveal_strlit("1");
        reveal_strlit("2");
        reveal_strlit("3");
        reveal_strlit("4");
        reveal_strlit("5");
        reveal_strlit("6");
        reveal_strlit("7");
        reveal_strlit("8");
        reveal_strlit("9");
    }
    let text: &'static str = if d == 0 {
        "0"
    } else if d == 1 {
        "1"
    } else if d == 2 {
        "2"
    } else if d == 3 {
        "3"
    } else if d == 4 {
        "4"
    } else if d == 5 {
        "5"
    } else if d == 6 {
        "6"
    } else if d == 7 {
        "7"
    } else if d == 8 {
        "8"
    } else {
        "9"
    };
    text
}

fn append_decimal(text: &mut String, n: usize)
    ensures
        final(text)@ == old(text)@ + decimal(n as nat),
    decreases n,
{
    if n >= 10 {
        append_decimal(text, n / 10);
    }
    text.append(digit_text(n % 10));
}

/// The address under which the peers of a session meet.
pub fn room_url(server: &str, session_code: &str, required_player_count: usize) -> (url: String)
    ensures
        url@ == room_url_of(server@, session_code@, required_player_count as nat),
{
    let mut url: String = String::from_str(server);
    url.append("/");
    url.append(session_code);
    url.append("?next=");
    append_decimal(&mut url, required_player_count);
    url
}

/// What a pending session is.
pub ghost struct PendingView {
    pub session_code: Seq<char>,
    /// Number of peers, this one included, that the session waits for.
    pub required: nat,
    /// Number of peers, this one included, that the latest poll found.
    pub connected: nat,
    /// The most peers, this one included, that any poll found.
    pub seen: nat,
    /// Number of polls since a poll last found more peers than any before.
    pub idle: nat,
}

impl PendingView {
    /// The pending session after a poll that found `connected` peers, this
    /// one included: a poll that finds more peers than any before it is
    /// progress, any other adds to the time spent idle.
    pub open spec fn polled(self, connected: nat) -> PendingView {
        if connected > self.seen {
            PendingView { connected, seen: connected, idle: 0, ..self }
        } else if self.idle < MATCHMAKING_PATIENCE {
            PendingView { connected, idle: self.idle + 1, ..self }
        } else {
            PendingView { connected, ..self }
        }
    }

    /// Whether the peers are all here: the latest poll found as many as the
    /// session waits for.
    pub open spec fn ready(self) -> bool {
        self.connected >= self.required
    }

    /// Whether matchmaking has given up.
    pub open spec fn timed_out(self) -> bool {
        !self.ready() && self.idle >= MATCHMAKING_PATIENCE
    }

    /// What there is to do after a poll that found `connected` peers: play
    /// if they are all here, give up if the patience is spent, and wait
    /// otherwise.
    pub open spec fn verdict(self, connected: nat) -> Result<GameStates, SessionError> {
        if connected >= self.required {
            Ok(GameStates::Lobby)
        } else if self.polled(connected).idle >= MATCHMAKING_PATIENCE {
            Err(SessionError::MatchmakingTimeout)
        } else {
            Ok(GameStates::Matchmaking)
        }
    }
}

/// A session that waits for its peers.
#[derive(Debug)]
pub struct PendingSession {
    session_code: String,
    required: usize,
    connected: usize,
    seen: usize,
    idle: u32,
}

impl View for PendingSession {
    type V = PendingView;

    closed spec fn view(&self) -> PendingView {
        PendingView {
            session_code: self.session_code@,
            required: self.required as nat,
            connected: self.connected as nat,
            seen: self.seen as nat,
            idle: self.idle as nat,
        }
    }
}

impl PendingSession {
    /// The code under which the peers meet.
    pub fn session_code(&self) -> (code: &str)
        ensures
            code@ == self@.session_code,
    {
        self.session_code.as_str()
    }

    /// Number of peers, this one included, that the session waits for.
    pub fn required_player_count(&self) -> (n: usize)
        ensures
            n == self@.required,
    {
        self.required
    }

    /// Whether the latest poll found all the peers.
    pub fn is_ready(&self) -> (ready: bool)
        ensures
            ready == self@.ready(),
    {
        self.connected >= self.required
    }

    /// The address under which the peers of this session meet.
    pub fn room_url(&self) -> (url: String)
        ensures
            url@ == room_url_of(MATCHBOX_SERVER_URL@, self@.session_code, self@.required),
    {
        room_url(MATCHBOX_SERVER_URL, self.session_code.as_str(), self.required)
    }
}

/// Begins to look for the peers of a session: so far only this peer is known.
pub fn begin_matchmaking(session_code: &str, required_player_count: usize) -> (pending:
    PendingSession)
    ensures
        pending@ == (PendingView {
            session_code: session_code@,
            required: required_player_count as nat,
            connected: 1,
            seen: 1,
            idle: 0,
        }),
{
    PendingSession {
        session_code: String::from_str(session_code),
        required: required_player_count,
        connected: 1,
        seen: 1,
        idle: 0,
    }
}

/// Takes note of one poll of the rendezvous channel, which found
/// `remote_peers` peers besides this one. The count on display follows the
/// poll, and the result says what to do: go on to the match if this poll
/// found all the peers, whatever earlier polls found; else give up if no
/// peer was gained for too long; else stay in matchmaking.
pub fn update_matchmaking(
    pending: &mut PendingSession,
    player_count: &mut PlayerCount,
    remote_peers: usize,
) -> (next: Result<GameStates, SessionError>)
    requires
        remote_peers < usize::MAX,
    ensures
        final(player_count).0 == (remote_peers + 1) % 256,
        final(pending)@ == old(pending)@.polled((remote_peers + 1) as nat),
        next == old(pending)@.verdict((remote_peers + 1) as nat),
        next == Ok::<GameStates, SessionError>(GameStates::Lobby) <==> remote_peers + 1 >= old(
            pending,
        )@.required,
{
    let connected_peers: usize = remote_peers + 1;
    player_count.0 = (connected_peers % 256) as u8;
    pending.connected = connected_peers;
    if connected_peers > pending.seen {
        pending.seen = connected_peers;
        pending.idle = 0;
    } else if pending.idle < MATCHMAKING_PATIENCE {
        pending.idle = pending.idle + 1;
    }
    if connected_peers >= pending.required {
        Ok(GameStates::Lobby)
    } else if pending.idle >= MATCHMAKING_PATIENCE {
        Err(SessionError::MatchmakingTimeout)
    } else {
        Ok(GameStates::Matchmaking)
    }
}

/// The session that a roster of two peers gives: the peer that was seen
/// first plays under handle 0, the other under handle 1.
pub open spec fn session_of(roster: Seq<Peer>) -> Session {
    Session {
        local_handle: if roster[0] == Peer::Local { 0u8 } else { 1u8 },
        remote_handle: if roster[0] == Peer::Local { 1u8 } else { 0u8 },
        prediction_window: PREDICTION_WINDOW,
        input_delay: INPUT_DELAY,
        tick_rate: LOBBY_FPS as u32,
    }
}

/// Whether a pending session and the roster of its peers, in the order in
/// which they were seen, make a match: the latest poll found all the peers,
/// and they are two, this one and one other.
pub open spec fn can_finalize(pending: PendingView, roster: Seq<Peer>) -> bool {
    &&& pending.ready()
    &&& pending.required == LOBBY_PLAYER_COUNT
    &&& roster.len() == LOBBY_PLAYER_COUNT
    &&& roster[0] != roster[1]
}

/// Turns a pending session into the session of a match, with the handles
/// given out in the order in which the peers were seen; none unless the
/// peers are all here and are this one and one other.
pub fn finalize(pending: &PendingSession, roster: &Vec<Peer>) -> (session: Option<Session>)
    ensures
        session is Some <==> can_finalize(pending@, roster@),
        session is Some ==> session->0 == session_of(roster@) && session->0.wf(),
{
    if pending.connected < pending.required || pending.required != LOBBY_PLAYER_COUNT
        || roster.len() != LOBBY_PLAYER_COUNT {
        return None;
    }
    let local_handle: u8 = match (roster[0], roster[1]) {
        (Peer::Local, Peer::Remote) => 0,
        (Peer::Remote, Peer::Local) => 1,
        _ => {
            return None;
        },
    };
    Some(
        Session {
            local_handle,
            remote_handle: 1 - local_handle,
            prediction_window: PREDICTION_WINDOW,
            input_delay: INPUT_DELAY,
            tick_rate: LOBBY_FPS as u32,
        },
    )
}

} // verus!
