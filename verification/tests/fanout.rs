//! The per-tick broadcast and the statistics reducer.

use session_core::auth::AuthResolution;
use session_core::broadcast::{
    GameUpdateFor, PerPlayerDelta, PlayerDelta, ServerDelta, TeamDelta, TickDeltas,
};
use session_core::client::ClientRepo;
use session_core::ids::{ArenaId, ChannelId, PlayerId, ServerId};
use session_core::player::PlayerRepo;
use session_core::protocol::{
    LeaderboardUpdate, ObserverUpdate, Outbound, PlayerUpdate, SystemUpdate, TeamUpdate, Update,
};
use session_core::rate_limiter::RateLimiterProps;
use session_core::register::RegisterSetup;

fn connected_player(core: &mut ClientRepo, players: &mut PlayerRepo, ch: ChannelId) -> PlayerId {
    let pid =
        ClientRepo::finish_authenticate(players, None, None, None, AuthResolution::Fresh, 0);
    let setup = RegisterSetup {
        arena_id: ArenaId(1),
        server_id: Some(ServerId(0)),
        leaderboard_initializers: Vec::new(),
        liveboard_initializer: 0,
        chat_initializer: 0,
        roster_initializer: 0,
        team_initializer: None,
        system_initializer: None,
    };
    core.register(players, pid, ch, &setup);
    pid
}

fn send(ch: ChannelId, message: Update) -> Outbound {
    Outbound { channel: ch, update: ObserverUpdate::Send { message } }
}

#[test]
fn a_connected_client_receives_its_bundle_in_order() {
    let mut core = ClientRepo::new(None, RateLimiterProps { interval_ms: 1_000, burst: 5 });
    let mut players = PlayerRepo::new();
    let ch = ChannelId(9);
    let pid = connected_player(&mut core, &mut players, ch);
    let deltas = TickDeltas {
        player_update: Some(PlayerDelta { added: 1, removed: 2, real_players: 3 }),
        team_update: Some(TeamDelta { added: Some(4), removed: None }),
        per_player: vec![PerPlayerDelta {
            player_id: pid,
            chat: Some(5),
            members: None,
            joiners: Some(6),
            joins: None,
        }],
        leaderboard_updates: vec![LeaderboardUpdate { period: 1, board: 7 }],
        liveboard_update: Some(8),
        server_delta: Some(ServerDelta { added: None, removed: Some(9) }),
        game_updates: vec![GameUpdateFor { player_id: pid, payload: 10 }],
    };
    let out = core.update(&players, &deltas);
    let expected = vec![
        send(ch, Update::Game(10)),
        send(ch, Update::Player(PlayerUpdate::Updated { added: 1, removed: 2, real_players: 3 })),
        send(ch, Update::Team(TeamUpdate::AddedOrUpdated(4))),
        send(ch, Update::Chat(5)),
        send(ch, Update::Team(TeamUpdate::Joiners(6))),
        send(ch, Update::Leaderboard(LeaderboardUpdate { period: 1, board: 7 })),
        send(ch, Update::Liveboard(8)),
        send(ch, Update::System(SystemUpdate::Removed(9))),
    ];
    assert_eq!(out, expected);
}

#[test]
fn a_quiet_tick_sends_nothing() {
    let mut core = ClientRepo::new(None, RateLimiterProps { interval_ms: 1_000, burst: 5 });
    let mut players = PlayerRepo::new();
    connected_player(&mut core, &mut players, ChannelId(1));
    let deltas = TickDeltas {
        player_update: None,
        team_update: None,
        per_player: Vec::new(),
        leaderboard_updates: Vec::new(),
        liveboard_update: None,
        server_delta: None,
        game_updates: Vec::new(),
    };
    assert!(core.update(&players, &deltas).is_empty());
}

#[test]
fn disconnected_clients_are_skipped_by_the_broadcast() {
    let mut core = ClientRepo::new(None, RateLimiterProps { interval_ms: 1_000, burst: 5 });
    let mut players = PlayerRepo::new();
    let ch = ChannelId(1);
    let pid = connected_player(&mut core, &mut players, ch);
    let other = ClientRepo::finish_authenticate(
        &mut players,
        None,
        None,
        None,
        AuthResolution::Fresh,
        0,
    );
    let deltas = TickDeltas {
        player_update: Some(PlayerDelta { added: 1, removed: 2, real_players: 3 }),
        team_update: None,
        per_player: Vec::new(),
        leaderboard_updates: Vec::new(),
        liveboard_update: None,
        server_delta: None,
        game_updates: vec![GameUpdateFor { player_id: other, payload: 10 }],
    };
    let out = core.update(&players, &deltas);
    // Only the connected player's roster update; the pending player gets
    // nothing, and its game update is not delivered anywhere.
    let expected = vec![send(
        ch,
        Update::Player(PlayerUpdate::Updated { added: 1, removed: 2, real_players: 3 }),
    )];
    assert_eq!(out, expected);
    let _ = pid;
}

#[test]
fn game_updates_are_addressed_per_player() {
    let mut core = ClientRepo::new(None, RateLimiterProps { interval_ms: 1_000, burst: 5 });
    let mut players = PlayerRepo::new();
    let cha = ChannelId(1);
    let chb = ChannelId(2);
    let a = connected_player(&mut core, &mut players, cha);
    let b = connected_player(&mut core, &mut players, chb);
    let deltas = TickDeltas {
        player_update: None,
        team_update: None,
        per_player: Vec::new(),
        leaderboard_updates: Vec::new(),
        liveboard_update: None,
        server_delta: None,
        game_updates: vec![
            GameUpdateFor { player_id: b, payload: 22 },
            GameUpdateFor { player_id: a, payload: 11 },
        ],
    };
    let out = core.update(&players, &deltas);
    let expected = vec![send(cha, Update::Game(11)), send(chb, Update::Game(22))];
    assert_eq!(out, expected);
}

#[test]
fn filter_map_reduce_counts_and_sorts_descending() {
    let mut core = ClientRepo::new(None, RateLimiterProps { interval_ms: 1_000, burst: 5 });
    let mut players = PlayerRepo::new();
    for _ in 0..3 {
        connected_player(&mut core, &mut players, ChannelId(1));
    }
    // Tag the per-game scratch so the reducer has something to group.
    players.players[0].client.as_mut().unwrap().data = 7;
    players.players[1].client.as_mut().unwrap().data = 5;
    players.players[2].client.as_mut().unwrap().data = 7;
    let (pairs, total) = ClientRepo::filter_map_reduce(&players, |c| Some(c.data));
    assert_eq!(total, 3);
    assert_eq!(pairs, vec![(7, 2), (5, 1)]);
}

#[test]
fn filter_map_reduce_skips_clients_that_produce_nothing() {
    let mut core = ClientRepo::new(None, RateLimiterProps { interval_ms: 1_000, burst: 5 });
    let mut players = PlayerRepo::new();
    for _ in 0..4 {
        connected_player(&mut core, &mut players, ChannelId(1));
    }
    players.players[3].client.as_mut().unwrap().data = 1;
    let (pairs, total) =
        ClientRepo::filter_map_reduce(&players, |c| if c.data == 0 { None } else { Some(c.data) });
    assert_eq!(total, 4);
    assert_eq!(pairs, vec![(1, 1)]);
}
