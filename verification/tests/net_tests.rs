use daedalus::net::{
    begin_matchmaking, finalize, room_url, update_matchmaking, GameStates, Peer, PlayerCount,
    MATCHBOX_SERVER_URL, MATCHMAKING_PATIENCE,
};
use daedalus::session::{Session, SessionError, INPUT_DELAY, LOBBY_FPS, PREDICTION_WINDOW};

#[test]
fn session_parameters() {
    assert_eq!(PREDICTION_WINDOW, 12);
    assert_eq!(INPUT_DELAY, 2);
    assert_eq!(LOBBY_FPS, 60);
    assert_eq!(MATCHBOX_SERVER_URL, "ws://127.0.0.1:3536");
}

#[test]
fn game_starts_in_matchmaking() {
    assert_eq!(GameStates::default(), GameStates::Matchmaking);
    assert_eq!(PlayerCount::default(), PlayerCount(0));
}

#[test]
fn room_url_names_server_code_and_players() {
    assert_eq!(room_url(MATCHBOX_SERVER_URL, "code", 2), "ws://127.0.0.1:3536/code?next=2");
    assert_eq!(room_url("wss://example.org", "abc", 12), "wss://example.org/abc?next=12");
    assert_eq!(room_url("s", "", 0), "s/?next=0");
    assert_eq!(room_url("s", "c", 1905), "s/c?next=1905");
    assert_eq!(room_url("s", "c", 10), "s/c?next=10");
}

#[test]
fn room_url_of_the_largest_count() {
    assert_eq!(room_url("s", "c", usize::MAX), format!("s/c?next={}", usize::MAX));
}

#[test]
fn pending_session_knows_its_room() {
    let pending = begin_matchmaking("code", 2);
    assert_eq!(pending.session_code(), "code");
    assert_eq!(pending.required_player_count(), 2);
    assert_eq!(pending.room_url(), "ws://127.0.0.1:3536/code?next=2");
    assert!(!pending.is_ready());
}

#[test]
fn a_session_for_one_is_ready_at_once() {
    assert!(begin_matchmaking("solo", 1).is_ready());
    assert!(begin_matchmaking("none", 0).is_ready());
}

#[test]
fn update_matchmaking_waits_for_the_second_peer() {
    let mut pending = begin_matchmaking("code", 2);
    let mut count = PlayerCount(0);
    assert_eq!(update_matchmaking(&mut pending, &mut count, 0), Ok(GameStates::Matchmaking));
    assert_eq!(count, PlayerCount(1));
    assert!(!pending.is_ready());
    assert_eq!(update_matchmaking(&mut pending, &mut count, 1), Ok(GameStates::Lobby));
    assert_eq!(count, PlayerCount(2));
    assert!(pending.is_ready());
}

#[test]
fn update_matchmaking_shows_the_count_of_the_poll() {
    let mut pending = begin_matchmaking("code", 4);
    let mut count = PlayerCount(0);
    assert_eq!(update_matchmaking(&mut pending, &mut count, 2), Ok(GameStates::Matchmaking));
    assert_eq!(count, PlayerCount(3));
    assert_eq!(update_matchmaking(&mut pending, &mut count, 1), Ok(GameStates::Matchmaking));
    assert_eq!(count, PlayerCount(2));
    assert_eq!(update_matchmaking(&mut pending, &mut count, 255), Ok(GameStates::Lobby));
    assert_eq!(count, PlayerCount(0));
}

#[test]
fn update_matchmaking_times_out_without_progress() {
    let mut pending = begin_matchmaking("code", 2);
    let mut count = PlayerCount(0);
    for _ in 1..MATCHMAKING_PATIENCE {
        assert_eq!(update_matchmaking(&mut pending, &mut count, 0), Ok(GameStates::Matchmaking));
    }
    assert_eq!(
        update_matchmaking(&mut pending, &mut count, 0),
        Err(SessionError::MatchmakingTimeout)
    );
    assert_eq!(
        update_matchmaking(&mut pending, &mut count, 0),
        Err(SessionError::MatchmakingTimeout)
    );
}

#[test]
fn update_matchmaking_counts_idle_time_from_the_last_gain() {
    let mut pending = begin_matchmaking("code", 3);
    let mut count = PlayerCount(0);
    for _ in 1..MATCHMAKING_PATIENCE {
        assert_eq!(update_matchmaking(&mut pending, &mut count, 0), Ok(GameStates::Matchmaking));
    }
    // a second peer at the last moment: the patience starts anew
    assert_eq!(update_matchmaking(&mut pending, &mut count, 1), Ok(GameStates::Matchmaking));
    for _ in 1..MATCHMAKING_PATIENCE {
        assert_eq!(update_matchmaking(&mut pending, &mut count, 1), Ok(GameStates::Matchmaking));
    }
    assert_eq!(
        update_matchmaking(&mut pending, &mut count, 1),
        Err(SessionError::MatchmakingTimeout)
    );
    // the third peer still makes the match
    assert_eq!(update_matchmaking(&mut pending, &mut count, 2), Ok(GameStates::Lobby));
}

#[test]
fn update_matchmaking_goes_by_the_peers_of_this_poll() {
    let mut pending = begin_matchmaking("code", 2);
    let mut count = PlayerCount(0);
    assert_eq!(update_matchmaking(&mut pending, &mut count, 1), Ok(GameStates::Lobby));
    assert!(pending.is_ready());
    // the remote peer is gone again: no match, whatever was seen before
    assert_eq!(update_matchmaking(&mut pending, &mut count, 0), Ok(GameStates::Matchmaking));
    assert_eq!(count, PlayerCount(1));
    assert!(!pending.is_ready());
    assert_eq!(finalize(&pending, &vec![Peer::Local, Peer::Remote]), None);
    assert_eq!(update_matchmaking(&mut pending, &mut count, 1), Ok(GameStates::Lobby));
    assert!(finalize(&pending, &vec![Peer::Local, Peer::Remote]).is_some());
}

#[test]
fn update_matchmaking_times_out_after_a_peer_was_lost() {
    let mut pending = begin_matchmaking("code", 2);
    let mut count = PlayerCount(0);
    assert_eq!(update_matchmaking(&mut pending, &mut count, 1), Ok(GameStates::Lobby));
    for _ in 1..MATCHMAKING_PATIENCE {
        assert_eq!(update_matchmaking(&mut pending, &mut count, 0), Ok(GameStates::Matchmaking));
    }
    assert_eq!(
        update_matchmaking(&mut pending, &mut count, 0),
        Err(SessionError::MatchmakingTimeout)
    );
    assert_eq!(update_matchmaking(&mut pending, &mut count, 1), Ok(GameStates::Lobby));
}

#[test]
fn finalize_gives_handles_in_the_order_of_connection() {
    let mut pending = begin_matchmaking("code", 2);
    let mut count = PlayerCount(0);
    assert_eq!(update_matchmaking(&mut pending, &mut count, 1), Ok(GameStates::Lobby));
    let first = finalize(&pending, &vec![Peer::Local, Peer::Remote]).unwrap();
    assert_eq!(
        first,
        Session { local_handle: 0, remote_handle: 1, prediction_window: 12, input_delay: 2, tick_rate: 60 }
    );
    assert!(first.is_valid());
    let second = finalize(&pending, &vec![Peer::Remote, Peer::Local]).unwrap();
    assert_eq!(
        second,
        Session { local_handle: 1, remote_handle: 0, prediction_window: 12, input_delay: 2, tick_rate: 60 }
    );
    assert!(second.is_valid());
}

#[test]
fn finalize_needs_all_peers() {
    let pending = begin_matchmaking("code", 2);
    assert_eq!(finalize(&pending, &vec![Peer::Local, Peer::Remote]), None);
}

#[test]
fn finalize_needs_this_peer_and_one_other() {
    let mut pending = begin_matchmaking("code", 2);
    let mut count = PlayerCount(0);
    assert_eq!(update_matchmaking(&mut pending, &mut count, 1), Ok(GameStates::Lobby));
    assert_eq!(finalize(&pending, &vec![Peer::Local, Peer::Local]), None);
    assert_eq!(finalize(&pending, &vec![Peer::Remote, Peer::Remote]), None);
    assert_eq!(finalize(&pending, &vec![Peer::Local]), None);
    assert_eq!(finalize(&pending, &vec![Peer::Local, Peer::Remote, Peer::Remote]), None);
    assert_eq!(finalize(&pending, &vec![]), None);
}

#[test]
fn finalize_makes_matches_of_two_only() {
    let mut pending = begin_matchmaking("code", 3);
    let mut count = PlayerCount(0);
    assert_eq!(update_matchmaking(&mut pending, &mut count, 2), Ok(GameStates::Lobby));
    assert_eq!(finalize(&pending, &vec![Peer::Local, Peer::Remote]), None);
    let solo = begin_matchmaking("code", 1);
    assert_eq!(finalize(&solo, &vec![Peer::Local, Peer::Remote]), None);
}

#[test]
fn session_validity() {
    let good = Session { local_handle: 1, remote_handle: 0, prediction_window: 1, input_delay: 0, tick_rate: 1 };
    assert!(good.is_valid());
    assert!(!Session { local_handle: 2, ..good }.is_valid());
    assert!(!Session { remote_handle: 1, ..good }.is_valid());
    assert!(!Session { prediction_window: 0, ..good }.is_valid());
    assert!(!Session { tick_rate: 0, ..good }.is_valid());
}
