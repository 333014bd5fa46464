//! Connection lifecycle: admission, register, unregister, sweep.

use session_core::auth::AuthResolution;
use session_core::client::ClientRepo;
use session_core::ids::{ArenaId, ChannelId, GameId, PlayerId, ServerId, SessionId};
use session_core::player::PlayerRepo;
use session_core::protocol::{
    ClientUpdate, LeaderboardUpdate, ObserverUpdate, Outbound, PlayerUpdate, TeamUpdate, Update,
};
use session_core::rate_limiter::RateLimiterProps;
use session_core::register::RegisterSetup;
use session_core::session::SessionItem;
use session_core::status::ClientStatus;

fn new_core() -> (ClientRepo, PlayerRepo) {
    (
        ClientRepo::new(None, RateLimiterProps { interval_ms: 1_000, burst: 2 }),
        PlayerRepo::new(),
    )
}

fn admit_player(players: &mut PlayerRepo, now: u64) -> PlayerId {
    ClientRepo::finish_authenticate(players, None, None, None, AuthResolution::Fresh, now)
}

fn setup() -> RegisterSetup {
    RegisterSetup {
        arena_id: ArenaId(7),
        server_id: Some(ServerId(3)),
        leaderboard_initializers: vec![
            LeaderboardUpdate { period: 0, board: 100 },
            LeaderboardUpdate { period: 1, board: 101 },
        ],
        liveboard_initializer: 200,
        chat_initializer: 300,
        roster_initializer: 400,
        team_initializer: Some(500),
        system_initializer: None,
    }
}

fn status_of(players: &PlayerRepo, pid: PlayerId) -> ClientStatus {
    let i = players.find(pid).expect("player exists");
    players.players[i].client.as_ref().expect("client exists").status
}

#[test]
fn cold_join_sends_welcome_then_initializers_in_order() {
    let (mut core, mut players) = new_core();
    let pid = admit_player(&mut players, 0);
    let ch = ChannelId(10);
    let s = setup();
    let outcome = core.register(&mut players, pid, ch, &s);
    assert!(outcome.registered);
    assert!(outcome.joined);
    let i = players.find(pid).unwrap();
    let sid = players.players[i].client.as_ref().unwrap().session_id;
    let expected: Vec<Outbound> = vec![
        Outbound {
            channel: ch,
            update: ObserverUpdate::Send {
                message: Update::Client(ClientUpdate::SessionCreated {
                    arena_id: ArenaId(7),
                    server_id: Some(ServerId(3)),
                    session_id: sid,
                    player_id: pid,
                }),
            },
        },
        Outbound {
            channel: ch,
            update: ObserverUpdate::Send {
                message: Update::Leaderboard(LeaderboardUpdate { period: 0, board: 100 }),
            },
        },
        Outbound {
            channel: ch,
            update: ObserverUpdate::Send {
                message: Update::Leaderboard(LeaderboardUpdate { period: 1, board: 101 }),
            },
        },
        Outbound {
            channel: ch,
            update: ObserverUpdate::Send { message: Update::Liveboard(200) },
        },
        Outbound { channel: ch, update: ObserverUpdate::Send { message: Update::Chat(300) } },
        Outbound {
            channel: ch,
            update: ObserverUpdate::Send { message: Update::Player(PlayerUpdate::Initializer(400)) },
        },
        Outbound {
            channel: ch,
            update: ObserverUpdate::Send { message: Update::Team(TeamUpdate::Initializer(500)) },
        },
    ];
    assert_eq!(outcome.outbound, expected);
    assert_eq!(status_of(&players, pid), ClientStatus::Connected { channel: ch });
}

#[test]
fn double_connect_closes_the_old_channel_exactly_once() {
    let (mut core, mut players) = new_core();
    let pid = admit_player(&mut players, 0);
    let cha = ChannelId(1);
    let chb = ChannelId(2);
    let s = setup();
    let first = core.register(&mut players, pid, cha, &s);
    assert!(first.joined);
    let second = core.register(&mut players, pid, chb, &s);
    assert!(!second.joined, "re-register of a connected player is no join");
    let closes: Vec<&Outbound> = second
        .outbound
        .iter()
        .filter(|o| matches!(o.update, ObserverUpdate::Close))
        .collect();
    assert_eq!(closes.len(), 1);
    assert_eq!(closes[0].channel, cha);
    // The fresh channel still observes the welcome first.
    assert!(matches!(
        &second.outbound[0],
        Outbound { channel, update: ObserverUpdate::Send { message: Update::Client(ClientUpdate::SessionCreated { .. }) } }
        if *channel == chb
    ));
    assert_eq!(status_of(&players, pid), ClientStatus::Connected { channel: chb });
}

#[test]
fn unregister_with_bound_channel_enters_limbo() {
    let (mut core, mut players) = new_core();
    let pid = admit_player(&mut players, 0);
    let ch = ChannelId(1);
    let s = setup();
    core.register(&mut players, pid, ch, &s);
    core.unregister(&mut players, pid, ch, 5_000, 100);
    assert_eq!(status_of(&players, pid), ClientStatus::Limbo { expiry: 5_100 });
}

#[test]
fn unregister_with_stray_channel_is_a_no_op() {
    let (mut core, mut players) = new_core();
    let pid = admit_player(&mut players, 0);
    let ch = ChannelId(1);
    let s = setup();
    core.register(&mut players, pid, ch, &s);
    core.unregister(&mut players, pid, ChannelId(99), 5_000, 100);
    assert_eq!(status_of(&players, pid), ClientStatus::Connected { channel: ch });
}

#[test]
fn reconnect_from_limbo_restores_without_join() {
    let (mut core, mut players) = new_core();
    let pid = admit_player(&mut players, 0);
    let s = setup();
    core.register(&mut players, pid, ChannelId(1), &s);
    core.unregister(&mut players, pid, ChannelId(1), 5_000, 0);
    let outcome = core.register(&mut players, pid, ChannelId(2), &s);
    assert!(outcome.registered);
    assert!(!outcome.joined, "restore from limbo is no join");
    // Full initializer sequence again: welcome plus 2 leaderboards,
    // liveboard, chat, roster, team.
    assert_eq!(outcome.outbound.len(), 7);
    assert_eq!(status_of(&players, pid), ClientStatus::Connected { channel: ChannelId(2) });
}

#[test]
fn register_on_unknown_player_does_nothing() {
    let (mut core, mut players) = new_core();
    let s = setup();
    let outcome = core.register(&mut players, PlayerId(42), ChannelId(1), &s);
    assert!(!outcome.registered);
    assert!(!outcome.joined);
    assert!(outcome.outbound.is_empty());
}

#[test]
fn pending_client_is_removed_only_after_its_expiry() {
    let (mut core, mut players) = new_core();
    let pid = admit_player(&mut players, 0);
    // Admission leaves the record pending for ten seconds.
    assert_eq!(status_of(&players, pid), ClientStatus::Pending { expiry: 10_000 });
    let at_expiry = core.prune(&mut players, 10_000, 75_000);
    assert!(at_expiry.removed.is_empty());
    let past_expiry = core.prune(&mut players, 10_001, 75_000);
    assert_eq!(past_expiry.removed, vec![pid]);
    assert!(players.find(pid).is_none());
}

#[test]
fn limbo_expires_to_stale_then_removal() {
    let (mut core, mut players) = new_core();
    let pid = admit_player(&mut players, 0);
    let s = setup();
    core.register(&mut players, pid, ChannelId(1), &s);
    core.unregister(&mut players, pid, ChannelId(1), 5_000, 0);
    // Before the limbo expiry nothing happens.
    let early = core.prune(&mut players, 4_999, 75_000);
    assert!(early.left.is_empty() && early.removed.is_empty());
    // At the expiry the player leaves the game and goes stale.
    let at = core.prune(&mut players, 5_000, 75_000);
    assert_eq!(at.left, vec![pid]);
    assert!(at.removed.is_empty());
    assert_eq!(status_of(&players, pid), ClientStatus::Stale { expiry: 80_000 });
    // Past the stale expiry the record is forgotten.
    let late = core.prune(&mut players, 80_001, 75_000);
    assert_eq!(late.removed, vec![pid]);
    assert!(players.find(pid).is_none());
}

#[test]
fn connected_clients_survive_the_sweep() {
    let (mut core, mut players) = new_core();
    let pid = admit_player(&mut players, 0);
    let s = setup();
    core.register(&mut players, pid, ChannelId(1), &s);
    let outcome = core.prune(&mut players, u64::MAX - 1, 75_000);
    assert!(outcome.left.is_empty() && outcome.removed.is_empty());
    assert_eq!(status_of(&players, pid), ClientStatus::Connected { channel: ChannelId(1) });
}

#[test]
fn coexisting_clients_never_share_a_session_id() {
    let (_, mut players) = new_core();
    let mut ids = Vec::new();
    for k in 0..16 {
        let pid = admit_player(&mut players, k);
        let i = players.find(pid).unwrap();
        ids.push(players.players[i].client.as_ref().unwrap().session_id);
    }
    for a in 0..ids.len() {
        for b in 0..ids.len() {
            if a != b {
                assert_ne!(ids[a], ids[b]);
            }
        }
    }
}

#[test]
fn session_restore_from_store_reuses_ids_and_plays() {
    let (_, mut players) = new_core();
    let stored = SessionItem {
        alias: session_core::session::Alias::default_alias(),
        arena_id: ArenaId(7),
        date_created: 11,
        date_previous: None,
        date_renewed: 22,
        date_terminated: None,
        game_id: GameId(1),
        player_id: PlayerId(555),
        plays: 7,
        previous_id: None,
        referrer: None,
        user_agent_id: None,
        server_id: ServerId(3),
        session_id: SessionId(999),
    };
    let pid =
        ClientRepo::finish_authenticate(&mut players, None, None, None, AuthResolution::Stored(stored), 50);
    assert_eq!(pid, PlayerId(555));
    let i = players.find(pid).unwrap();
    let client = players.players[i].client.as_ref().unwrap();
    assert_eq!(client.session_id, SessionId(999));
    assert_eq!(client.metrics.previous_plays, 7);
    assert_eq!(client.metrics.date_created, 11);
    assert_eq!(client.metrics.date_previous, Some(22));
    assert_eq!(client.metrics.session_id_previous, Some(SessionId(999)));
}

#[test]
fn renewing_an_existing_player_bumps_date_renewed_only() {
    let (_, mut players) = new_core();
    let pid = admit_player(&mut players, 0);
    let i = players.find(pid).unwrap();
    let sid = players.players[i].client.as_ref().unwrap().session_id;
    let again = ClientRepo::finish_authenticate(
        &mut players,
        None,
        None,
        None,
        AuthResolution::Cached { session_id: sid, player_id: pid },
        777,
    );
    assert_eq!(again, pid);
    assert_eq!(players.players.len(), 1);
    let client = players.players[0].client.as_ref().unwrap();
    assert_eq!(client.metrics.date_renewed, 777);
    assert_eq!(client.metrics.date_created, 0);
}
