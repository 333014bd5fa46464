//! The tick broadcaster: once per server tick the shared deltas are computed
//! by their subsystems, and every connected client receives its bundle — the
//! game update addressed to it, roster and team changes, its own chat and
//! team view deltas, every leaderboard change, the liveboard change, and
//! server topology changes — in that order.

use vstd::prelude::*;

use crate::client::ClientRepo;
use crate::ids::{ChannelId, PlayerId};
use crate::player::{Player, PlayerRepo};
use crate::protocol::{
    send_to, LeaderboardUpdate, ObserverUpdate, Outbound, PlayerUpdate, SystemUpdate, TeamUpdate,
    Update,
};
use crate::status::ClientStatus;

verus! {

/// Roster change of one tick; payload tokens are owned by the player
/// subsystem.
#[derive(Clone, Copy, Debug, PartialEq, Eq, Structural)]
pub struct PlayerDelta {
    pub added: u64,
    pub removed: u64,
    pub real_players: u32,
}

/// Team roster change of one tick; `None` stands for an empty part, which is
/// not sent.
#[derive(Clone, Copy, Debug, PartialEq, Eq, Structural)]
pub struct TeamDelta {
    pub added: Option<u64>,
    pub removed: Option<u64>,
}

/// The per-player chat and team view deltas of one tick.
#[derive(Clone, Copy, Debug, PartialEq, Eq, Structural)]
pub struct PerPlayerDelta {
    pub player_id: PlayerId,
    pub chat: Option<u64>,
    pub members: Option<u64>,
    pub joiners: Option<u64>,
    pub joins: Option<u64>,
}

/// Server topology change of one tick.
#[derive(Clone, Copy, Debug, PartialEq, Eq, Structural)]
pub struct ServerDelta {
    pub added: Option<u64>,
    pub removed: Option<u64>,
}

/// The game update addressed to one player.
#[derive(Clone, Copy, Debug, PartialEq, Eq, Structural)]
pub struct GameUpdateFor {
    pub player_id: PlayerId,
    pub payload: u64,
}

/// Everything one tick fans out, computed once and read for every client.
#[derive(Clone, Debug, PartialEq, Eq)]
pub struct TickDeltas {
    pub player_update: Option<PlayerDelta>,
    pub team_update: Option<TeamDelta>,
    pub per_player: Vec<PerPlayerDelta>,
    pub leaderboard_updates: Vec<LeaderboardUpdate>,
    pub liveboard_update: Option<u64>,
    pub server_delta: Option<ServerDelta>,
    pub game_updates: Vec<GameUpdateFor>,
}

/// The game update addressed to `pid`, if any (first match).
pub open spec fn game_update_for(updates: Seq<GameUpdateFor>, pid: PlayerId) -> Option<u64>
    decreases updates.len(),
{
    if updates.len() == 0 {
        None
    } else if updates[0].player_id == pid {
        Some(updates[0].payload)
    } else {
        game_update_for(updates.drop_first(), pid)
    }
}

/// The chat and team view deltas of `pid`, if any (first match).
pub open spec fn per_player_for(deltas: Seq<PerPlayerDelta>, pid: PlayerId) -> Option<
    PerPlayerDelta,
>
    decreases deltas.len(),
{
    if deltas.len() == 0 {
        None
    } else if deltas[0].player_id == pid {
        Some(deltas[0])
    } else {
        per_player_for(deltas.drop_first(), pid)
    }
}

/// A sequence holding `m` when it is present and nothing otherwise.
pub open spec fn opt_send(channel: ChannelId, m: Option<Update>) -> Seq<Outbound> {
    match m {
        Some(u) => seq![send_to(channel, u)],
        None => Seq::<Outbound>::empty(),
    }
}

/// The game-update part of one client's bundle.
pub open spec fn seg_game(channel: ChannelId, pid: PlayerId, deltas: TickDeltas) -> Seq<Outbound> {
    opt_send(
        channel,
        match game_update_for(deltas.game_updates@, pid) {
            Some(u) => Some(Update::Game(u)),
            None => None,
        },
    )
}

/// The roster part of one client's bundle.
pub open spec fn seg_player(channel: ChannelId, deltas: TickDeltas) -> Seq<Outbound> {
    opt_send(
        channel,
        match deltas.player_update {
            Some(pd) => Some(
                Update::Player(
                    PlayerUpdate::Updated {
                        added: pd.added,
                        removed: pd.removed,
                        real_players: pd.real_players,
                    },
                ),
            ),
            None => None,
        },
    )
}

/// The team roster part of one client's bundle.
pub open spec fn seg_team(channel: ChannelId, deltas: TickDeltas) -> Seq<Outbound> {
    match deltas.team_update {
        Some(td) => opt_send(
            channel,
            match td.added {
                Some(a) => Some(Update::Team(TeamUpdate::AddedOrUpdated(a))),
                None => None,
            },
        ) + opt_send(
            channel,
            match td.removed {
                Some(x) => Some(Update::Team(TeamUpdate::Removed(x))),
                None => None,
            },
        ),
        None => Seq::<Outbound>::empty(),
    }
}

/// The chat and per-player team view part of one client's bundle.
pub open spec fn seg_per_player(channel: ChannelId, pid: PlayerId, deltas: TickDeltas) -> Seq<
    Outbound,
> {
    match per_player_for(deltas.per_player@, pid) {
        Some(pp) => opt_send(
            channel,
            match pp.chat {
                Some(c) => Some(Update::Chat(c)),
                None => None,
            },
        ) + opt_send(
            channel,
            match pp.members {
                Some(m) => Some(Update::Team(TeamUpdate::Members(m))),
                None => None,
            },
        ) + opt_send(
            channel,
            match pp.joiners {
                Some(m) => Some(Update::Team(TeamUpdate::Joiners(m))),
                None => None,
            },
        ) + opt_send(
            channel,
            match pp.joins {
                Some(m) => Some(Update::Team(TeamUpdate::Joins(m))),
                None => None,
            },
        ),
        None => Seq::<Outbound>::empty(),
    }
}

/// The leaderboard part of one client's bundle, one message per period.
pub open spec fn seg_leaderboards(channel: ChannelId, deltas: TickDeltas) -> Seq<Outbound> {
    Seq::new(
        deltas.leaderboard_updates@.len(),
        |k: int| send_to(channel, Update::Leaderboard(deltas.leaderboard_updates@[k])),
    )
}

/// The liveboard part of one client's bundle.
pub open spec fn seg_liveboard(channel: ChannelId, deltas: TickDeltas) -> Seq<Outbound> {
    opt_send(
        channel,
        match deltas.liveboard_update {
            Some(lv) => Some(Update::Liveboard(lv)),
            None => None,
        },
    )
}

/// The server topology part of one client's bundle.
pub open spec fn seg_system(channel: ChannelId, deltas: TickDeltas) -> Seq<Outbound> {
    match deltas.server_delta {
        Some(sd) => opt_send(
            channel,
            match sd.added {
                Some(a) => Some(Update::System(SystemUpdate::Added(a))),
                None => None,
            },
        ) + opt_send(
            channel,
            match sd.removed {
                Some(x) => Some(Update::System(SystemUpdate::Removed(x))),
                None => None,
            },
        ),
        None => Seq::<Outbound>::empty(),
    }
}

/// Everything one connected client receives in one tick, in order.
pub open spec fn client_tick_messages(
    channel: ChannelId,
    pid: PlayerId,
    deltas: TickDeltas,
) -> Seq<Outbound> {
    seg_game(channel, pid, deltas) + seg_player(channel, deltas) + seg_team(channel, deltas)
        + seg_per_player(channel, pid, deltas) + seg_leaderboards(channel, deltas) + seg_liveboard(
        channel,
        deltas,
    ) + seg_system(channel, deltas)
}

/// What one row receives: connected clients their bundle, everyone else
/// nothing.
pub open spec fn row_tick_messages(p: Player, deltas: TickDeltas) -> Seq<Outbound> {
    match p.client {
        Some(c) => match c.status {
            ClientStatus::Connected { channel } => client_tick_messages(
                channel,
                p.player_id,
                deltas,
            ),
            _ => Seq::<Outbound>::empty(),
        },
        None => Seq::<Outbound>::empty(),
    }
}

/// The whole fan-out of one tick, in table order.
pub open spec fn tick_messages(s: Seq<Player>, deltas: TickDeltas) -> Seq<Outbound>
    decreases s.len(),
{
    if s.len() == 0 {
        Seq::empty()
    } else {
        row_tick_messages(s[0], deltas) + tick_messages(s.drop_first(), deltas)
    }
}

/// The game update addressed to `pid`, if any.
fn find_game_update(updates: &Vec<GameUpdateFor>, pid: PlayerId) -> (r: Option<u64>)
    ensures
        r == game_update_for(updates@, pid),
{
    let mut i: usize = 0;
    proof {
        assert(updates@.skip(0) =~= updates@);
    }
    while i < updates.len()
        invariant
            i <= updates@.len(),
            game_update_for(updates@, pid) == game_update_for(updates@.skip(i as int), pid),
        decreases updates@.len() - i,
    {
        proof {
            assert(updates@.skip(i as int).drop_first() =~= updates@.skip(i as int + 1));
            assert(updates@.skip(i as int)[0] == updates@[i as int]);
        }
        if updates[i].player_id.0 == pid.0 {
            return Some(updates[i].payload);
        }
        i = i + 1;
    }
    None
}

/// The per-player deltas addressed to `pid`, if any.
fn find_per_player(deltas: &Vec<PerPlayerDelta>, pid: PlayerId) -> (r: Option<PerPlayerDelta>)
    ensures
        r == per_player_for(deltas@, pid),
{
    let mut i: usize = 0;
    proof {
        assert(deltas@.skip(0) =~= deltas@);
    }
    while i < deltas.len()
        invariant
            i <= deltas@.len(),
            per_player_for(deltas@, pid) == per_player_for(deltas@.skip(i as int), pid),
        decreases deltas@.len() - i,
    {
        proof {
            assert(deltas@.skip(i as int).drop_first() =~= deltas@.skip(i as int + 1));
            assert(deltas@.skip(i as int)[0] == deltas@[i as int]);
        }
        if deltas[i].player_id.0 == pid.0 {
            return Some(deltas[i]);
        }
        i = i + 1;
    }
    None
}

/// Builds the bundle of one connected client.
fn push_seg_game(out: &mut Vec<Outbound>, channel: ChannelId, pid: PlayerId, deltas: &TickDeltas)
    ensures
        final(out)@ == old(out)@ + seg_game(channel, pid, *deltas),
{
    match find_game_update(&deltas.game_updates, pid) {
        Some(u) => {
            out.push(Outbound { channel, update: ObserverUpdate::Send { message: Update::Game(u) } });
        },
        None => {},
    }
    proof {
        assert(final(out)@ =~= old(out)@ + seg_game(channel, pid, *deltas));
    }
}

fn push_seg_player(out: &mut Vec<Outbound>, channel: ChannelId, deltas: &TickDeltas)
    ensures
        final(out)@ == old(out)@ + seg_player(channel, *deltas),
{
    match &deltas.player_update {
        Some(pd) => {
            out.push(
                Outbound {
                    channel,
                    update: ObserverUpdate::Send {
                        message: Update::Player(
                            PlayerUpdate::Updated {
                                added: pd.added,
                                removed: pd.removed,
                                real_players: pd.real_players,
                            },
                        ),
                    },
                },
            );
        },
        None => {},
    }
    proof {
        assert(final(out)@ =~= old(out)@ + seg_player(channel, *deltas));
    }
}

fn push_seg_team(out: &mut Vec<Outbound>, channel: ChannelId, deltas: &TickDeltas)
    ensures
        final(out)@ == old(out)@ + seg_team(channel, *deltas),
{
    match &deltas.team_update {
        Some(td) => {
            match td.added {
                Some(a) => {
                    out.push(
                        Outbound {
                            channel,
                            update: ObserverUpdate::Send {
                                message: Update::Team(TeamUpdate::AddedOrUpdated(a)),
                            },
                        },
                    );
                },
                None => {},
            }
            match td.removed {
                Some(x) => {
                    out.push(
                        Outbound {
                            channel,
                            update: ObserverUpdate::Send {
                                message: Update::Team(TeamUpdate::Removed(x)),
                            },
                        },
                    );
                },
                None => {},
            }
        },
        None => {},
    }
    proof {
        assert(final(out)@ =~= old(out)@ + seg_team(channel, *deltas));
    }
}

fn push_seg_per_player(out: &mut Vec<Outbound>, channel: ChannelId, pid: PlayerId, deltas: &TickDeltas)
    ensures
        final(out)@ == old(out)@ + seg_per_player(channel, pid, *deltas),
{
    match find_per_player(&deltas.per_player, pid) {
        Some(pp) => {
            match pp.chat {
                Some(c) => {
                    out.push(
                        Outbound {
                            channel,
                            update: ObserverUpdate::Send { message: Update::Chat(c) },
                        },
                    );
                },
                None => {},
            }
            match pp.members {
                Some(m) => {
                    out.push(
                        Outbound {
                            channel,
                            update: ObserverUpdate::Send {
                                message: Update::Team(TeamUpdate::Members(m)),
                            },
                        },
                    );
                },
                None => {},
            }
            match pp.joiners {
                Some(m) => {
                    out.push(
                        Outbound {
                            channel,
                            update: ObserverUpdate::Send {
                                message: Update::Team(TeamUpdate::Joiners(m)),
                            },
                        },
                    );
                },
                None => {},
            }
            match pp.joins {
                Some(m) => {
                    out.push(
                        Outbound {
                            channel,
                            update: ObserverUpdate::Send {
                                message: Update::Team(TeamUpdate::Joins(m)),
                            },
                        },
                    );
                },
                None => {},
            }
        },
        None => {},
    }
    proof {
        assert(final(out)@ =~= old(out)@ + seg_per_player(channel, pid, *deltas));
    }
}

fn push_seg_leaderboards(out: &mut Vec<Outbound>, channel: ChannelId, deltas: &TickDeltas)
    ensures
        final(out)@ == old(out)@ + seg_leaderboards(channel, *deltas),
{
    let ghost head = out@;
    let ghost lb_out = seg_leaderboards(channel, *deltas);
    let mut k: usize = 0;
    while k < deltas.leaderboard_updates.len()
        invariant
            k <= deltas.leaderboard_updates@.len(),
            lb_out == seg_leaderboards(channel, *deltas),
            lb_out == Seq::new(
                deltas.leaderboard_updates@.len(),
                |k: int| send_to(channel, Update::Leaderboard(deltas.leaderboard_updates@[k])),
            ),
            out@ == head + lb_out.take(k as int),
        decreases deltas.leaderboard_updates@.len() - k,
    {
        let lb = deltas.leaderboard_updates[k];
        out.push(
            Outbound { channel, update: ObserverUpdate::Send { message: Update::Leaderboard(lb) } },
        );
        proof {
            assert(out@ =~= head + lb_out.take(k as int + 1));
        }
        k = k + 1;
    }
    proof {
        assert(lb_out.take(lb_out.len() as int) =~= lb_out);
    }
}

fn push_seg_liveboard(out: &mut Vec<Outbound>, channel: ChannelId, deltas: &TickDeltas)
    ensures
        final(out)@ == old(out)@ + seg_liveboard(channel, *deltas),
{
    match deltas.liveboard_update {
        Some(lv) => {
            out.push(
                Outbound { channel, update: ObserverUpdate::Send { message: Update::Liveboard(lv) } },
            );
        },
        None => {},
    }
    proof {
        assert(final(out)@ =~= old(out)@ + seg_liveboard(channel, *deltas));
    }
}

fn push_seg_system(out: &mut Vec<Outbound>, channel: ChannelId, deltas: &TickDeltas)
    ensures
        final(out)@ == old(out)@ + seg_system(channel, *deltas),
{
    match &deltas.server_delta {
        Some(sd) => {
            match sd.added {
                Some(a) => {
                    out.push(
                        Outbound {
                            channel,
                            update: ObserverUpdate::Send {
                                message: Update::System(SystemUpdate::Added(a)),
                            },
                        },
                    );
                },
                None => {},
            }
            match sd.removed {
                Some(x) => {
                    out.push(
                        Outbound {
                            channel,
                            update: ObserverUpdate::Send {
                                message: Update::System(SystemUpdate::Removed(x)),
                            },
                        },
                    );
                },
                None => {},
            }
        },
        None => {},
    }
    proof {
        assert(final(out)@ =~= old(out)@ + seg_system(channel, *deltas));
    }
}

/// Builds the bundle of one connected client.
fn messages_for_client(channel: ChannelId, pid: PlayerId, deltas: &TickDeltas) -> (out: Vec<
    Outbound,
>)
    ensures
        out@ == client_tick_messages(channel, pid, *deltas),
{
    let mut out: Vec<Outbound> = Vec::new();
    push_seg_game(&mut out, channel, pid, deltas);
    push_seg_player(&mut out, channel, deltas);
    push_seg_team(&mut out, channel, deltas);
    push_seg_per_player(&mut out, channel, pid, deltas);
    push_seg_leaderboards(&mut out, channel, deltas);
    push_seg_liveboard(&mut out, channel, deltas);
    push_seg_system(&mut out, channel, deltas);
    proof {
        assert(out@ =~= client_tick_messages(channel, pid, *deltas));
    }
    out
}


impl ClientRepo {
    /// One tick's fan-out: every connected client's bundle, in table order.
    /// The transport delivers each send best-effort; a closed channel is
    /// recovered later through unregister and the sweep.
    pub fn update(&self, players: &PlayerRepo, deltas: &TickDeltas) -> (out: Vec<Outbound>)
        ensures
            out@ == tick_messages(players.players@, *deltas),
    {
        let ghost s = players.players@;
        let mut out: Vec<Outbound> = Vec::new();
        let mut i: usize = 0;
        proof {
            assert(s.skip(0) =~= s);
            assert(out@ + tick_messages(s.skip(0), *deltas) =~= tick_messages(s, *deltas));
        }
        while i < players.players.len()
            invariant
                players.players@ == s,
                i <= s.len(),
                tick_messages(s, *deltas) == out@ + tick_messages(s.skip(i as int), *deltas),
            decreases s.len() - i,
        {
            proof {
                assert(s.skip(i as int).drop_first() =~= s.skip(i as int + 1));
                assert(s.skip(i as int)[0] == s[i as int]);
            }
            let ghost out0 = out@;
            let row = &players.players[i];
            match &row.client {
                Some(client) => {
                    match &client.status {
                        ClientStatus::Connected { channel } => {
                            let mut bundle = messages_for_client(*channel, row.player_id, deltas);
                            out.append(&mut bundle);
                        },
                        _ => {},
                    }
                },
                None => {},
            }
            proof {
                assert(out@ =~= out0 + row_tick_messages(s[i as int], *deltas));
                assert(out0 + (row_tick_messages(s[i as int], *deltas) + tick_messages(
                    s.skip(i as int + 1),
                    *deltas,
                )) =~= out@ + tick_messages(s.skip(i as int + 1), *deltas));
            }
            i = i + 1;
        }
        proof {
            assert(s.skip(s.len() as int) =~= Seq::<Player>::empty());
            assert(out@ + tick_messages(s.skip(s.len() as int), *deltas) =~= out@);
        }
        out
    }
}

} // verus!
