//! Rate limiting and the diff-writing session persister.

use session_core::auth::{AuthResolution, Authenticate, AuthStep};
use session_core::client::ClientRepo;
use session_core::ids::{ArenaId, GameId, IpAddress, PlayerId, ServerId, SessionId};
use session_core::player::PlayerRepo;
use session_core::protocol::ClientError;
use session_core::rate_limiter::{IpRateLimiter, RateLimiter, RateLimiterProps};

fn creds(pair: Option<(ArenaId, SessionId)>, ip: Option<IpAddress>) -> Authenticate {
    Authenticate {
        ip_address: ip,
        user_agent_id: None,
        referrer: None,
        arena_id_session_id: pair,
        invitation_id: None,
    }
}

#[test]
fn one_window_admits_at_most_burst_attempts() {
    let mut limiter = IpRateLimiter::new(RateLimiterProps { interval_ms: 1_000, burst: 2 });
    let ip = IpAddress(0x0102_0304);
    let mut admitted = 0;
    for t in 0..5u64 {
        if !limiter.should_limit_rate(ip, t) {
            admitted += 1;
        }
    }
    assert_eq!(admitted, 2);
}

#[test]
fn a_fresh_window_admits_again() {
    let mut limiter = IpRateLimiter::new(RateLimiterProps { interval_ms: 1_000, burst: 1 });
    let ip = IpAddress(1);
    assert!(!limiter.should_limit_rate(ip, 0));
    assert!(limiter.should_limit_rate(ip, 500));
    assert!(!limiter.should_limit_rate(ip, 1_000));
}

#[test]
fn addresses_are_limited_independently() {
    let mut limiter = IpRateLimiter::new(RateLimiterProps { interval_ms: 1_000, burst: 1 });
    assert!(!limiter.should_limit_rate(IpAddress(1), 0));
    assert!(!limiter.should_limit_rate(IpAddress(2), 1));
    assert!(limiter.should_limit_rate(IpAddress(1), 2));
}

#[test]
fn pruning_the_limiter_evicts_only_finished_windows() {
    let mut limiter = IpRateLimiter::new(RateLimiterProps { interval_ms: 1_000, burst: 1 });
    limiter.should_limit_rate(IpAddress(1), 0);
    limiter.should_limit_rate(IpAddress(2), 900);
    limiter.prune(1_500);
    assert_eq!(limiter.entries.len(), 1);
    assert_eq!(limiter.entries[0].ip, IpAddress(2));
}

#[test]
fn the_database_token_recharges_after_its_interval() {
    let mut limiter = RateLimiter::new(30_000);
    assert!(!limiter.should_limit_rate(0));
    assert!(limiter.should_limit_rate(29_999));
    assert!(!limiter.should_limit_rate(30_000));
}

#[test]
fn rate_limited_admission_is_refused_before_any_lookup() {
    let mut core = ClientRepo::new(None, RateLimiterProps { interval_ms: 1_000, burst: 1 });
    let players = PlayerRepo::new();
    let ip = Some(IpAddress(7));
    let first = core.begin_authenticate(&players, &creds(None, ip), ArenaId(1), 0);
    assert_eq!(first, Ok(AuthStep::Fresh));
    let second = core.begin_authenticate(&players, &creds(None, ip), ArenaId(1), 1);
    assert_eq!(second, Err(ClientError::RateLimited));
}

#[test]
fn admission_with_cached_session_skips_the_store() {
    let mut core = ClientRepo::new(None, RateLimiterProps { interval_ms: 1_000, burst: 5 });
    let mut players = PlayerRepo::new();
    let pid =
        ClientRepo::finish_authenticate(&mut players, None, None, None, AuthResolution::Fresh, 0);
    let sid = players.players[0].client.as_ref().unwrap().session_id;
    let step = core
        .begin_authenticate(&players, &creds(Some((ArenaId(1), sid)), None), ArenaId(1), 0)
        .unwrap();
    assert_eq!(step, AuthStep::Cached { session_id: sid, player_id: pid });
}

#[test]
fn admission_with_foreign_arena_asks_the_store() {
    let mut core = ClientRepo::new(None, RateLimiterProps { interval_ms: 1_000, burst: 5 });
    let players = PlayerRepo::new();
    let step = core
        .begin_authenticate(
            &players,
            &creds(Some((ArenaId(2), SessionId(9))), None),
            ArenaId(1),
            0,
        )
        .unwrap();
    assert_eq!(step, AuthStep::NeedStore { arena_id: ArenaId(2), session_id: SessionId(9) });
}

#[test]
fn first_persist_writes_every_client_and_the_second_writes_none() {
    let mut core = ClientRepo::new(None, RateLimiterProps { interval_ms: 1_000, burst: 5 });
    let mut players = PlayerRepo::new();
    let a = ClientRepo::finish_authenticate(&mut players, None, None, None, AuthResolution::Fresh, 0);
    let b = ClientRepo::finish_authenticate(&mut players, None, None, None, AuthResolution::Fresh, 1);
    let first = core.update_to_database(
        &mut players,
        Some(ServerId(1)),
        ArenaId(1),
        GameId(1),
        false,
        0,
    );
    let mut written: Vec<PlayerId> = first.iter().map(|it| it.player_id).collect();
    written.sort_by_key(|p| p.0);
    let mut expected = vec![a, b];
    expected.sort_by_key(|p| p.0);
    assert_eq!(written, expected, "one write per client on the first run");
    let second = core.update_to_database(
        &mut players,
        Some(ServerId(1)),
        ArenaId(1),
        GameId(1),
        false,
        40_000,
    );
    assert!(second.is_empty(), "no state change, so no write");
}

#[test]
fn persist_runs_are_rate_limited() {
    let mut core = ClientRepo::new(None, RateLimiterProps { interval_ms: 1_000, burst: 5 });
    let mut players = PlayerRepo::new();
    ClientRepo::finish_authenticate(&mut players, None, None, None, AuthResolution::Fresh, 0);
    let first =
        core.update_to_database(&mut players, Some(ServerId(1)), ArenaId(1), GameId(1), false, 0);
    assert_eq!(first.len(), 1);
    // A change right after is held back by the database token.
    players.players[0].client.as_mut().unwrap().metrics.plays = 3;
    let held = core.update_to_database(
        &mut players,
        Some(ServerId(1)),
        ArenaId(1),
        GameId(1),
        false,
        10_000,
    );
    assert!(held.is_empty());
    let later = core.update_to_database(
        &mut players,
        Some(ServerId(1)),
        ArenaId(1),
        GameId(1),
        false,
        40_000,
    );
    assert_eq!(later.len(), 1);
    assert_eq!(later[0].plays, 3);
}

#[test]
fn a_changed_client_is_written_again() {
    let mut core = ClientRepo::new(None, RateLimiterProps { interval_ms: 1_000, burst: 5 });
    let mut players = PlayerRepo::new();
    let pid =
        ClientRepo::finish_authenticate(&mut players, None, None, None, AuthResolution::Fresh, 0);
    core.update_to_database(&mut players, Some(ServerId(1)), ArenaId(1), GameId(1), false, 0);
    let i = players.find(pid).unwrap();
    players.players[i].client.as_mut().unwrap().alias =
        session_core::session::Alias::new_sanitized(b"Trinity");
    let second = core.update_to_database(
        &mut players,
        Some(ServerId(1)),
        ArenaId(1),
        GameId(1),
        false,
        40_000,
    );
    assert_eq!(second.len(), 1);
    assert_eq!(second[0].alias.bytes, b"Trinity".to_vec());
}

#[test]
fn read_only_mode_diffs_but_writes_nothing() {
    let mut core = ClientRepo::new(None, RateLimiterProps { interval_ms: 1_000, burst: 5 });
    let mut players = PlayerRepo::new();
    ClientRepo::finish_authenticate(&mut players, None, None, None, AuthResolution::Fresh, 0);
    let writes = core.update_to_database(&mut players, None, ArenaId(1), GameId(1), true, 0);
    assert!(writes.is_empty());
    // The stored copy was still refreshed, so the item is remembered.
    assert!(players.players[0].client.as_ref().unwrap().session_item.is_some());
}

#[test]
fn unknown_server_id_skips_the_run_when_writable() {
    let mut core = ClientRepo::new(None, RateLimiterProps { interval_ms: 1_000, burst: 5 });
    let mut players = PlayerRepo::new();
    ClientRepo::finish_authenticate(&mut players, None, None, None, AuthResolution::Fresh, 0);
    let writes = core.update_to_database(&mut players, None, ArenaId(1), GameId(1), false, 0);
    assert!(writes.is_empty());
    assert!(players.players[0].client.as_ref().unwrap().session_item.is_none());
}

#[test]
fn plays_accumulate_prior_sessions_in_the_written_item() {
    let mut core = ClientRepo::new(None, RateLimiterProps { interval_ms: 1_000, burst: 5 });
    let mut players = PlayerRepo::new();
    let pid =
        ClientRepo::finish_authenticate(&mut players, None, None, None, AuthResolution::Fresh, 0);
    let i = players.find(pid).unwrap();
    players.players[i].client.as_mut().unwrap().metrics.plays = 2;
    players.players[i].client.as_mut().unwrap().metrics.previous_plays = 7;
    let writes =
        core.update_to_database(&mut players, Some(ServerId(1)), ArenaId(1), GameId(1), false, 0);
    assert_eq!(writes[0].plays, 9);
}
