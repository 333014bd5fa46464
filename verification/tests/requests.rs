//! The request dispatcher: alias, fps, trace, routing, and replies.

use session_core::auth::AuthResolution;
use session_core::client::{ClientRepo, Delegation};
use session_core::ids::{ArenaId, ChannelId, PlayerId, ServerId};
use session_core::player::PlayerRepo;
use session_core::protocol::{
    ClientError, ClientRequest, ClientUpdate, ObserverMessage, ObserverUpdate, Outbound, Request,
    Update,
};
use session_core::rate_limiter::RateLimiterProps;
use session_core::register::RegisterSetup;

fn core_with_player(now: u64) -> (ClientRepo, PlayerRepo, PlayerId) {
    let core = ClientRepo::new(None, RateLimiterProps { interval_ms: 1_000, burst: 2 });
    let mut players = PlayerRepo::new();
    let pid =
        ClientRepo::finish_authenticate(&mut players, None, None, None, AuthResolution::Fresh, now);
    (core, players, pid)
}

fn bare_setup() -> RegisterSetup {
    RegisterSetup {
        arena_id: ArenaId(1),
        server_id: Some(ServerId(0)),
        leaderboard_initializers: Vec::new(),
        liveboard_initializer: 0,
        chat_initializer: 0,
        roster_initializer: 0,
        team_initializer: None,
        system_initializer: None,
    }
}

fn alias_of(players: &PlayerRepo, pid: PlayerId) -> Vec<u8> {
    let i = players.find(pid).unwrap();
    players.players[i].client.as_ref().unwrap().alias.bytes.clone()
}

#[test]
fn set_alias_stores_the_sanitized_name() {
    let (_, mut players, pid) = core_with_player(0);
    let r = ClientRepo::set_alias(&mut players, pid, b"Neo".to_vec(), 0);
    match r {
        Ok(ClientUpdate::AliasSet(a)) => assert_eq!(a.bytes, b"Neo".to_vec()),
        other => panic!("unexpected result: {:?}", other),
    }
    assert_eq!(alias_of(&players, pid), b"Neo".to_vec());
}

#[test]
fn set_alias_while_alive_is_refused_and_alias_unchanged() {
    let (_, mut players, pid) = core_with_player(0);
    let i = players.find(pid).unwrap();
    players.players[i].alive_since = Some(0);
    let before = alias_of(&players, pid);
    let r = ClientRepo::set_alias(&mut players, pid, b"Neo".to_vec(), 2_000);
    assert_eq!(r, Err(ClientError::CannotChangeAliasWhileAlive));
    assert_eq!(alias_of(&players, pid), before);
}

#[test]
fn set_alias_within_the_grace_period_succeeds() {
    let (_, mut players, pid) = core_with_player(0);
    let i = players.find(pid).unwrap();
    players.players[i].alive_since = Some(0);
    let r = ClientRepo::set_alias(&mut players, pid, b"Neo".to_vec(), 1_000);
    assert!(r.is_ok(), "one second alive still allows an alias change");
}

#[test]
fn set_alias_sanitizes_and_caps_the_name() {
    let (_, mut players, pid) = core_with_player(0);
    let raw = b"\x01Morpheus\x7fOfZion\nExtra".to_vec();
    let r = ClientRepo::set_alias(&mut players, pid, raw, 0);
    match r {
        Ok(ClientUpdate::AliasSet(a)) => assert_eq!(a.bytes, b"MorpheusOfZi".to_vec()),
        other => panic!("unexpected result: {:?}", other),
    }
}

#[test]
fn set_alias_of_nothing_printable_falls_back_to_the_default() {
    let (_, mut players, pid) = core_with_player(0);
    let r = ClientRepo::set_alias(&mut players, pid, vec![0x01, 0x02, 0x0a], 0);
    match r {
        Ok(ClientUpdate::AliasSet(a)) => assert_eq!(a.bytes, b"Guest".to_vec()),
        other => panic!("unexpected result: {:?}", other),
    }
}

#[test]
fn set_alias_for_unknown_player_fails() {
    let (_, mut players, _) = core_with_player(0);
    let r = ClientRepo::set_alias(&mut players, PlayerId(404), b"Neo".to_vec(), 0);
    assert_eq!(r, Err(ClientError::PlayerDoesntExist));
}

#[test]
fn tally_fps_rejects_a_non_finite_measurement() {
    let (_, mut players, pid) = core_with_player(0);
    let non_finite = f32::NAN;
    let report = non_finite.is_finite().then(|| (non_finite * 100.0) as i64);
    let r = ClientRepo::tally_fps(&mut players, pid, report);
    assert_eq!(r, Err(ClientError::InvalidFps));
    let i = players.find(pid).unwrap();
    assert_eq!(players.players[i].client.as_ref().unwrap().metrics.fps, None);
}

#[test]
fn tally_fps_clamps_a_wild_measurement() {
    let (_, mut players, pid) = core_with_player(0);
    let measured = 500.0f32;
    let report = measured.is_finite().then(|| (measured * 100.0) as i64);
    let r = ClientRepo::tally_fps(&mut players, pid, report);
    assert_eq!(r, Ok(ClientUpdate::FpsTallied));
    let i = players.find(pid).unwrap();
    // 144 frames per second, in hundredths.
    assert_eq!(players.players[i].client.as_ref().unwrap().metrics.fps, Some(14_400));
}

#[test]
fn tally_fps_clamps_a_negative_measurement_to_zero() {
    let (_, mut players, pid) = core_with_player(0);
    let r = ClientRepo::tally_fps(&mut players, pid, Some(-250));
    assert_eq!(r, Ok(ClientUpdate::FpsTallied));
    let i = players.find(pid).unwrap();
    assert_eq!(players.players[i].client.as_ref().unwrap().metrics.fps, Some(0));
}

#[test]
fn trace_cap_refuses_the_twenty_sixth_report() {
    let (_, mut players, pid) = core_with_player(0);
    for k in 0..25 {
        let r = ClientRepo::trace(&mut players, pid, vec![b'x'; k + 1]);
        assert!(r.is_ok(), "report {} should be accepted", k + 1);
    }
    let r = ClientRepo::trace(&mut players, pid, b"one more".to_vec());
    assert_eq!(r, Err(ClientError::TooManyTraces), "no line is produced either");
    let i = players.find(pid).unwrap();
    assert_eq!(players.players[i].client.as_ref().unwrap().traces, 25);
}

#[test]
fn trace_refuses_an_overlong_report() {
    let (_, mut players, pid) = core_with_player(0);
    let r = ClientRepo::trace(&mut players, pid, vec![b'x'; 2_049]);
    assert_eq!(r, Err(ClientError::TraceTooLong));
    let ok = ClientRepo::trace(&mut players, pid, vec![b'x'; 2_048]);
    assert!(ok.is_ok());
}

#[test]
fn trace_line_carries_the_client_metrics_and_message() {
    let (_, mut players, pid) = core_with_player(0);
    let i = players.find(pid).unwrap();
    players.players[i].client.as_mut().unwrap().metrics.referrer =
        Some(session_core::ids::Referrer(9));
    let r = ClientRepo::trace(&mut players, pid, b"boom".to_vec()).unwrap();
    assert_eq!(r.0, ClientUpdate::Traced);
    assert_eq!(r.1.message, b"boom".to_vec());
    assert_eq!(r.1.referrer, Some(session_core::ids::Referrer(9)));
}

#[test]
fn game_commands_are_delegated_for_known_players_only() {
    let (core, mut players, pid) = core_with_player(0);
    let r = core.handle_observer_request(&mut players, pid, Request::Game(77), 0);
    assert_eq!(
        r.map(|o| o.delegation),
        Ok(Some(Delegation::Game { command: 77 }))
    );
    let r2 = core.handle_observer_request(&mut players, PlayerId(404), Request::Game(77), 0);
    assert_eq!(r2, Err(ClientError::NonexistentObserver));
}

#[test]
fn subsystem_requests_are_delegated_unchanged() {
    let (core, mut players, pid) = core_with_player(0);
    let r = core.handle_observer_request(&mut players, pid, Request::Chat(1), 0).unwrap();
    assert_eq!(r.delegation, Some(Delegation::Chat { request: 1 }));
    let r = core.handle_observer_request(&mut players, pid, Request::Team(2), 0).unwrap();
    assert_eq!(r.delegation, Some(Delegation::Team { request: 2 }));
    let r = core.handle_observer_request(&mut players, pid, Request::Invitation(3), 0).unwrap();
    assert_eq!(r.delegation, Some(Delegation::Invitation { request: 3 }));
    let r = core.handle_observer_request(&mut players, pid, Request::Player(4), 0).unwrap();
    assert_eq!(r.delegation, Some(Delegation::Player { request: 4 }));
}

#[test]
fn round_trip_time_is_recorded() {
    let (mut core, mut players, pid) = core_with_player(0);
    core.handle_observer_rtt(&mut players, pid, 42);
    let i = players.find(pid).unwrap();
    assert_eq!(players.players[i].client.as_ref().unwrap().metrics.rtt, Some(42));
}

#[test]
fn handled_reply_goes_only_to_the_originating_channel() {
    let (mut core, mut players, pid) = core_with_player(0);
    let ch = ChannelId(5);
    core.register(&mut players, pid, ch, &bare_setup());
    let effects = core.handle(
        &mut players,
        ObserverMessage::Request {
            player_id: pid,
            request: Request::Client(ClientRequest::SetAlias(b"Neo".to_vec())),
        },
        None,
        5_000,
        0,
    );
    assert_eq!(effects.warning, None);
    assert_eq!(effects.outbound.len(), 1);
    match &effects.outbound[0] {
        Outbound { channel, update: ObserverUpdate::Send { message: Update::Client(ClientUpdate::AliasSet(a)) } } => {
            assert_eq!(*channel, ch);
            assert_eq!(a.bytes, b"Neo".to_vec());
        },
        other => panic!("unexpected outbound: {:?}", other),
    }
}

#[test]
fn refused_requests_surface_as_warnings_and_change_nothing() {
    let (mut core, mut players, _) = core_with_player(0);
    let effects = core.handle(
        &mut players,
        ObserverMessage::Request {
            player_id: PlayerId(404),
            request: Request::Client(ClientRequest::TallyFps(Some(6_000))),
        },
        None,
        5_000,
        0,
    );
    assert_eq!(effects.warning, Some(ClientError::PlayerDoesntExist));
    assert!(effects.outbound.is_empty());
    assert_eq!(players.players.len(), 1);
}

#[test]
fn error_strings_match_the_wire_protocol() {
    assert_eq!(ClientError::RateLimited.as_str(), "rate limit exceeded");
    assert_eq!(ClientError::PlayerDoesntExist.as_str(), "player doesn't exist");
    assert_eq!(
        ClientError::CannotChangeAliasWhileAlive.as_str(),
        "cannot change alias while alive"
    );
    assert_eq!(ClientError::InvalidFps.as_str(), "invalid fps");
    assert_eq!(ClientError::TraceTooLong.as_str(), "trace too long");
    assert_eq!(ClientError::TooManyTraces.as_str(), "too many traces");
    assert_eq!(ClientError::NonexistentObserver.as_str(), "nonexistent observer");
    assert_eq!(ClientError::OnlyClientsCanSetAlias.as_str(), "only clients can set alias");
}

#[test]
fn handled_trace_returns_the_line_and_replies_traced() {
    let (mut core, mut players, pid) = core_with_player(0);
    let ch = ChannelId(8);
    core.register(&mut players, pid, ch, &bare_setup());
    let effects = core.handle(
        &mut players,
        ObserverMessage::Request {
            player_id: pid,
            request: Request::Client(ClientRequest::Trace { message: b"oops".to_vec() }),
        },
        None,
        5_000,
        0,
    );
    assert_eq!(effects.warning, None);
    let line = effects.trace_line.expect("an accepted report yields a line");
    assert_eq!(line.message, b"oops".to_vec());
    assert_eq!(effects.outbound.len(), 1);
    match &effects.outbound[0].update {
        ObserverUpdate::Send { message } => {
            assert_eq!(*message, Update::Client(ClientUpdate::Traced));
        },
        other => panic!("unexpected outbound: {:?}", other),
    }
}
