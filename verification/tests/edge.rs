//! Edges: saturation, bot rows, degenerate store data, mailbox routing.

use session_core::auth::{AuthResolution, Authenticate, AuthStep};
use session_core::client::ClientRepo;
use session_core::ids::{
    ArenaId, ChannelId, GameId, IpAddress, PlayerId, ServerId, SessionId, BOT_ID_MIN,
};
use session_core::player::{Player, PlayerRepo};
use session_core::protocol::ObserverMessage;
use session_core::rate_limiter::{IpRateLimiter, RateLimiterProps};
use session_core::register::RegisterSetup;
use session_core::session::{Alias, SessionItem};
use session_core::status::ClientStatus;

fn admit_fresh(players: &mut PlayerRepo, now: u64) -> PlayerId {
    ClientRepo::finish_authenticate(players, None, None, None, AuthResolution::Fresh, now)
}

fn bare_register_setup() -> RegisterSetup {
    RegisterSetup {
        arena_id: ArenaId(1),
        server_id: None,
        leaderboard_initializers: Vec::new(),
        liveboard_initializer: 0,
        chat_initializer: 0,
        roster_initializer: 0,
        team_initializer: None,
        system_initializer: None,
    }
}

#[test]
fn limbo_expiry_saturates_instead_of_wrapping() {
    let mut core = ClientRepo::new(None, RateLimiterProps { interval_ms: 1, burst: 1 });
    let mut players = PlayerRepo::new();
    let pid = admit_fresh(&mut players, 0);
    let ch = ChannelId(1);
    core.register(&mut players, pid, ch, &bare_register_setup());
    core.unregister(&mut players, pid, ch, u64::MAX, 100);
    let i = players.find(pid).unwrap();
    assert_eq!(
        players.players[i].client.as_ref().unwrap().status,
        ClientStatus::Limbo { expiry: u64::MAX }
    );
}

#[test]
fn admission_without_an_address_is_never_rate_limited() {
    let mut core = ClientRepo::new(None, RateLimiterProps { interval_ms: 1_000, burst: 0 });
    let players = PlayerRepo::new();
    let msg = Authenticate {
        ip_address: None,
        user_agent_id: None,
        referrer: None,
        arena_id_session_id: None,
        invitation_id: None,
    };
    for t in 0..4 {
        assert_eq!(core.begin_authenticate(&players, &msg, ArenaId(1), t), Ok(AuthStep::Fresh));
    }
}

#[test]
fn a_zero_burst_limiter_admits_nobody() {
    let mut limiter = IpRateLimiter::new(RateLimiterProps { interval_ms: 1_000, burst: 0 });
    assert!(limiter.should_limit_rate(IpAddress(1), 0));
    assert!(limiter.should_limit_rate(IpAddress(1), 5_000));
}

#[test]
fn an_unknown_session_in_the_right_arena_still_asks_the_store() {
    let mut core = ClientRepo::new(None, RateLimiterProps { interval_ms: 1_000, burst: 4 });
    let players = PlayerRepo::new();
    let msg = Authenticate {
        ip_address: None,
        user_agent_id: None,
        referrer: None,
        arena_id_session_id: Some((ArenaId(1), SessionId(777))),
        invitation_id: None,
    };
    assert_eq!(
        core.begin_authenticate(&players, &msg, ArenaId(1), 0),
        Ok(AuthStep::NeedStore { arena_id: ArenaId(1), session_id: SessionId(777) })
    );
}

fn degenerate_item(player_id: PlayerId, session_id: SessionId) -> SessionItem {
    SessionItem {
        alias: Alias::default_alias(),
        arena_id: ArenaId(1),
        date_created: 0,
        date_previous: None,
        date_renewed: 0,
        date_terminated: None,
        game_id: GameId(1),
        player_id,
        plays: 0,
        previous_id: None,
        referrer: None,
        user_agent_id: None,
        server_id: ServerId(1),
        session_id,
    }
}

#[test]
fn a_stored_bot_id_is_never_adopted() {
    let mut players = PlayerRepo::new();
    let item = degenerate_item(PlayerId(BOT_ID_MIN), SessionId(4));
    let pid = ClientRepo::finish_authenticate(
        &mut players,
        None,
        None,
        None,
        AuthResolution::Stored(item),
        0,
    );
    assert!(!pid.is_bot(), "the admission never issues bot ids");
    assert_eq!(players.players.len(), 1);
}

#[test]
fn a_stored_session_already_in_use_is_not_adopted() {
    let mut players = PlayerRepo::new();
    let first = admit_fresh(&mut players, 0);
    let i = players.find(first).unwrap();
    let used = players.players[i].client.as_ref().unwrap().session_id;
    let item = degenerate_item(PlayerId(12345), used);
    let pid = ClientRepo::finish_authenticate(
        &mut players,
        None,
        None,
        None,
        AuthResolution::Stored(item),
        0,
    );
    let j = players.find(pid).unwrap();
    let sid = players.players[j].client.as_ref().unwrap().session_id;
    assert_ne!(sid, used, "no two coexisting clients share a session id");
}

#[test]
fn admission_gives_the_default_alias() {
    let mut players = PlayerRepo::new();
    let pid = admit_fresh(&mut players, 0);
    let i = players.find(pid).unwrap();
    assert_eq!(players.players[i].client.as_ref().unwrap().alias.bytes, b"Guest".to_vec());
}

#[test]
fn bot_rows_pass_through_the_sweep_untouched() {
    let mut core = ClientRepo::new(None, RateLimiterProps { interval_ms: 1, burst: 1 });
    let mut players = PlayerRepo::new();
    players.players.push(Player {
        player_id: PlayerId(BOT_ID_MIN + 1),
        client: None,
        alive_since: None,
    });
    let outcome = core.prune(&mut players, u64::MAX - 1, 1);
    assert!(outcome.left.is_empty() && outcome.removed.is_empty());
    assert_eq!(players.players.len(), 1);
}

#[test]
fn mailbox_register_and_unregister_round_trip() {
    let mut core = ClientRepo::new(None, RateLimiterProps { interval_ms: 1, burst: 1 });
    let mut players = PlayerRepo::new();
    let pid = admit_fresh(&mut players, 0);
    let ch = ChannelId(3);
    let setup = bare_register_setup();
    let effects = core.handle(
        &mut players,
        ObserverMessage::Register { player_id: pid, channel: ch },
        Some(&setup),
        6_000,
        0,
    );
    assert_eq!(effects.joined, Some(pid));
    assert!(!effects.outbound.is_empty());
    let effects = core.handle(
        &mut players,
        ObserverMessage::Unregister { player_id: pid, channel: ch },
        None,
        6_000,
        10,
    );
    assert!(effects.outbound.is_empty());
    let i = players.find(pid).unwrap();
    assert_eq!(
        players.players[i].client.as_ref().unwrap().status,
        ClientStatus::Limbo { expiry: 6_010 }
    );
}

#[test]
fn mailbox_rtt_is_recorded_silently() {
    let mut core = ClientRepo::new(None, RateLimiterProps { interval_ms: 1, burst: 1 });
    let mut players = PlayerRepo::new();
    let pid = admit_fresh(&mut players, 0);
    let effects = core.handle(
        &mut players,
        ObserverMessage::RoundTripTime { player_id: pid, rtt: 33 },
        None,
        6_000,
        0,
    );
    assert!(effects.outbound.is_empty() && effects.warning.is_none());
    let i = players.find(pid).unwrap();
    assert_eq!(players.players[i].client.as_ref().unwrap().metrics.rtt, Some(33));
}

#[test]
fn an_alias_is_capped_at_twelve_bytes() {
    let a = Alias::new_sanitized(b"TwelveIsFine!ButThirteenNot");
    assert_eq!(a.bytes.len(), 12);
    assert_eq!(a.bytes, b"TwelveIsFine".to_vec());
}
