//! The session persister: on each trigger, and no more often than the
//! database limiter allows, it rebuilds every client's session item and
//! hands back the ones that differ from what was last written, updating the
//! in-memory copy so an unchanged client is never written twice.

use vstd::prelude::*;

use crate::client::ClientRepo;
use crate::ids::{ArenaId, GameId, PlayerId, ServerId};
use crate::player::{contains_player, index_of_player, Player, PlayerClientData, PlayerRepo};
use crate::session::{item_eq, SessionItem};

verus! {

/// The server id the persister substitutes when the store is read only and
/// the real id is unknown, so that diffing can still proceed.
pub const READ_ONLY_FAKE_SERVER_ID: u8 = 200;

/// `a + b`, saturating, so play counts never wrap.
pub open spec fn sat_add_u32(a: u32, b: u32) -> u32 {
    if a + b > u32::MAX {
        u32::MAX
    } else {
        (a + b) as u32
    }
}

/// Whether `it` is exactly the item the persister would build for a client
/// `c` of player `pid` right now.
pub open spec fn is_candidate_for(
    it: SessionItem,
    pid: PlayerId,
    c: PlayerClientData,
    arena_id: ArenaId,
    game_id: GameId,
    server_id: ServerId,
) -> bool {
    &&& it.alias.bytes@ == c.alias.bytes@
    &&& it.arena_id == arena_id
    &&& it.date_created == c.metrics.date_created
    &&& it.date_previous == c.metrics.date_previous
    &&& it.date_renewed == c.metrics.date_renewed
    &&& it.date_terminated is None
    &&& it.game_id == game_id
    &&& it.player_id == pid
    &&& it.plays == sat_add_u32(c.metrics.plays, c.metrics.previous_plays)
    &&& it.previous_id == c.metrics.session_id_previous
    &&& it.referrer == c.metrics.referrer
    &&& it.user_agent_id == c.metrics.user_agent_id
    &&& it.server_id == server_id
    &&& it.session_id == c.session_id
}

/// Whether this row's last written item already equals its candidate, so the
/// write is suppressed.
pub open spec fn stored_matches(
    p: Player,
    arena_id: ArenaId,
    game_id: GameId,
    server_id: ServerId,
) -> bool {
    p.client->Some_0.session_item matches Some(prev) && is_candidate_for(
        prev,
        p.player_id,
        p.client->Some_0,
        arena_id,
        game_id,
        server_id,
    )
}

/// Whether the persister must write this row now.
pub open spec fn needs_write(
    p: Player,
    arena_id: ArenaId,
    game_id: GameId,
    server_id: ServerId,
) -> bool {
    p.client is Some && !stored_matches(p, arena_id, game_id, server_id)
}

/// The players whose items the persister writes this run, in table order.
pub open spec fn write_ids(
    s: Seq<Player>,
    arena_id: ArenaId,
    game_id: GameId,
    server_id: ServerId,
) -> Seq<PlayerId>
    decreases s.len(),
{
    if s.len() == 0 {
        Seq::empty()
    } else {
        (if needs_write(s[0], arena_id, game_id, server_id) {
            seq![s[0].player_id]
        } else {
            Seq::<PlayerId>::empty()
        }) + write_ids(s.drop_first(), arena_id, game_id, server_id)
    }
}

/// The row after the persister refreshed its stored item; `it` names the
/// fresh item value actually stored.
pub open spec fn persisted_row(p: Player, it: SessionItem) -> Player {
    Player { client: Some(PlayerClientData { session_item: Some(it), ..p.client->Some_0 }), ..p }
}

/// Law (first half): against a table in which no client's stored item
/// matches its candidate — freshly admitted clients in particular, which
/// store nothing — the persister writes every client exactly once.
pub proof fn lemma_all_clients_written(
    s: Seq<Player>,
    arena_id: ArenaId,
    game_id: GameId,
    server_id: ServerId,
)
    requires
        forall|j: int|
            0 <= j < s.len() && s[j].client is Some ==> !stored_matches(
                #[trigger] s[j],
                arena_id,
                game_id,
                server_id,
            ),
    ensures
        write_ids(s, arena_id, game_id, server_id) == client_ids(s),
    decreases s.len(),
{
    if s.len() > 0 {
        assert(s[0] == s[0]);
        lemma_all_clients_written(s.drop_first(), arena_id, game_id, server_id);
    }
}

/// The players that hold a client record, in table order.
pub open spec fn client_ids(s: Seq<Player>) -> Seq<PlayerId>
    decreases s.len(),
{
    if s.len() == 0 {
        Seq::empty()
    } else {
        (if s[0].client is Some {
            seq![s[0].player_id]
        } else {
            Seq::<PlayerId>::empty()
        }) + client_ids(s.drop_first())
    }
}

/// Law (second half): against a table in which every client's stored item
/// already matches its candidate — which holds right after any persister
/// run with the same arena, game and server — the persister writes nothing.
pub proof fn lemma_second_run_writes_nothing(
    s: Seq<Player>,
    arena_id: ArenaId,
    game_id: GameId,
    server_id: ServerId,
)
    requires
        forall|j: int|
            0 <= j < s.len() && s[j].client is Some ==> stored_matches(
                #[trigger] s[j],
                arena_id,
                game_id,
                server_id,
            ),
    ensures
        write_ids(s, arena_id, game_id, server_id) == Seq::<PlayerId>::empty(),
    decreases s.len(),
{
    if s.len() > 0 {
        assert(s[0] == s[0]);
        lemma_second_run_writes_nothing(s.drop_first(), arena_id, game_id, server_id);
        assert(write_ids(s, arena_id, game_id, server_id) =~= Seq::<PlayerId>::empty());
    } else {
        assert(write_ids(s, arena_id, game_id, server_id) =~= Seq::<PlayerId>::empty());
    }
}

/// Builds the candidate item for one client.
fn build_candidate(
    player_id: PlayerId,
    client: &PlayerClientData,
    arena_id: ArenaId,
    game_id: GameId,
    server_id: ServerId,
) -> (r: SessionItem)
    ensures
        is_candidate_for(r, player_id, *client, arena_id, game_id, server_id),
{
    let plays = if client.metrics.previous_plays <= u32::MAX - client.metrics.plays {
        client.metrics.plays + client.metrics.previous_plays
    } else {
        u32::MAX
    };
    SessionItem {
        alias: client.alias.duplicate(),
        arena_id,
        date_created: client.metrics.date_created,
        date_previous: client.metrics.date_previous,
        date_renewed: client.metrics.date_renewed,
        date_terminated: None,
        game_id,
        player_id,
        plays,
        previous_id: client.metrics.session_id_previous,
        referrer: client.metrics.referrer,
        user_agent_id: client.metrics.user_agent_id,
        server_id,
        session_id: client.session_id,
    }
}

impl ClientRepo {
    /// One persister run at `now`: no more than one run per limiter interval
    /// does any work; a run without a known server id writes nothing (unless
    /// the store is read only, when a fixed substitute id lets the diffing
    /// proceed); otherwise every client whose candidate item differs from
    /// the last written one has the fresh item stored, and — unless the
    /// store is read only — returned for the process to write.
    pub fn update_to_database(
        &mut self,
        players: &mut PlayerRepo,
        server_id: Option<ServerId>,
        arena_id: ArenaId,
        game_id: GameId,
        database_read_only: bool,
        now: u64,
    ) -> (writes: Vec<SessionItem>)
        requires
            old(players).wf(),
        ensures
            final(players).wf(),
            final(self).authenticate_rate_limiter == old(self).authenticate_rate_limiter,
            final(self).trace_log == old(self).trace_log,
            final(self).database_rate_limiter.interval_ms
                == old(self).database_rate_limiter.interval_ms,
            old(self).database_rate_limiter.spec_limited(now) ==> {
                &&& *final(self) == *old(self)
                &&& final(players).players@ == old(players).players@
                &&& writes@.len() == 0
            },
            !old(self).database_rate_limiter.spec_limited(now)
                ==> final(self).database_rate_limiter.last_allowed == Some(now),
            !old(self).database_rate_limiter.spec_limited(now) && server_id is None
                && !database_read_only ==> {
                &&& final(players).players@ == old(players).players@
                &&& writes@.len() == 0
            },
            ({
                let effective = if server_id is Some {
                    server_id->Some_0
                } else {
                    ServerId(READ_ONLY_FAKE_SERVER_ID)
                };
                let s = old(players).players@;
                !old(self).database_rate_limiter.spec_limited(now) && (server_id is Some
                    || database_read_only) ==> {
                    &&& final(players).players@.len() == s.len()
                    &&& forall|j: int|
                        0 <= j < s.len() && !needs_write(
                            #[trigger] s[j],
                            arena_id,
                            game_id,
                            effective,
                        ) ==> final(players).players@[j] == s[j]
                    &&& forall|j: int|
                        0 <= j < s.len() && needs_write(
                            #[trigger] s[j],
                            arena_id,
                            game_id,
                            effective,
                        ) ==> final(players).players@[j] == persisted_row(
                            s[j],
                            final(players).players@[j].client->Some_0.session_item->Some_0,
                        ) && is_candidate_for(
                            final(players).players@[j].client->Some_0.session_item->Some_0,
                            s[j].player_id,
                            s[j].client->Some_0,
                            arena_id,
                            game_id,
                            effective,
                        )
                    &&& forall|j: int|
                        0 <= j < final(players).players@.len()
                            && final(players).players@[j].client is Some ==> stored_matches(
                            #[trigger] final(players).players@[j],
                            arena_id,
                            game_id,
                            effective,
                        )
                    &&& if database_read_only {
                        writes@.len() == 0
                    } else {
                        &&& writes@.map_values(|it: SessionItem| it.player_id) == write_ids(
                            s,
                            arena_id,
                            game_id,
                            effective,
                        )
                        &&& forall|k: int|
                            0 <= k < writes@.len() ==> {
                                let j = index_of_player(s, (#[trigger] writes@[k]).player_id);
                                &&& contains_player(s, writes@[k].player_id)
                                &&& is_candidate_for(
                                    writes@[k],
                                    s[j].player_id,
                                    s[j].client->Some_0,
                                    arena_id,
                                    game_id,
                                    effective,
                                )
                            }
                    }
                }
            }),
    {
        if self.database_rate_limiter.should_limit_rate(now) {
            return Vec::new();
        }
        let effective = match server_id {
            Some(id) => id,
            None => {
                if database_read_only {
                    ServerId(READ_ONLY_FAKE_SERVER_ID)
                } else {
                    return Vec::new();
                }
            },
        };
        let ghost s = players.players@;
        let mut writes: Vec<SessionItem> = Vec::new();
        let mut i: usize = 0;
        proof {
            assert(s.skip(0) =~= s);
            assert(writes@.map_values(|it: SessionItem| it.player_id) + write_ids(
                s.skip(0),
                arena_id,
                game_id,
                effective,
            ) =~= write_ids(s, arena_id, game_id, effective));
        }
        while i < players.players.len()
            invariant
                players.wf(),
                players.players@.len() == s.len(),
                i <= s.len(),
                crate::player::unique_player_ids(s),
                forall|j: int| i <= j < s.len() ==> players.players@[j] == s[j],
                forall|j: int|
                    0 <= j < i && !needs_write(#[trigger] s[j], arena_id, game_id, effective)
                        ==> players.players@[j] == s[j],
                forall|j: int|
                    0 <= j < i && needs_write(#[trigger] s[j], arena_id, game_id, effective)
                        ==> players.players@[j] == persisted_row(
                        s[j],
                        players.players@[j].client->Some_0.session_item->Some_0,
                    ) && is_candidate_for(
                        players.players@[j].client->Some_0.session_item->Some_0,
                        s[j].player_id,
                        s[j].client->Some_0,
                        arena_id,
                        game_id,
                        effective,
                    ),
                forall|j: int|
                    0 <= j < i && players.players@[j].client is Some ==> stored_matches(
                        #[trigger] players.players@[j],
                        arena_id,
                        game_id,
                        effective,
                    ),
                database_read_only ==> writes@.len() == 0,
                !database_read_only ==> writes@.map_values(|it: SessionItem| it.player_id)
                    + write_ids(s.skip(i as int), arena_id, game_id, effective) == write_ids(
                    s,
                    arena_id,
                    game_id,
                    effective,
                ),
                forall|k: int|
                    0 <= k < writes@.len() ==> {
                        let j = index_of_player(s, (#[trigger] writes@[k]).player_id);
                        &&& contains_player(s, writes@[k].player_id)
                        &&& is_candidate_for(
                            writes@[k],
                            s[j].player_id,
                            s[j].client->Some_0,
                            arena_id,
                            game_id,
                            effective,
                        )
                    },
            decreases s.len() - i,
        {
            proof {
                assert(s.skip(i as int).drop_first() =~= s.skip(i as int + 1));
                assert(s.skip(i as int)[0] == s[i as int]);
            }
            let ghost p0 = players.players@;
            let row = &players.players[i];
            let player_id = row.player_id;
            let mut write_needed = false;
            match &row.client {
                None => {},
                Some(client) => {
                    let candidate = build_candidate(player_id, client, arena_id, game_id, effective);
                    let already = match &client.session_item {
                        Some(prev) => prev.same_as(&candidate),
                        None => false,
                    };
                    proof {
                        assert(already == stored_matches(s[i as int], arena_id, game_id, effective));
                    }
                    if !already {
                        write_needed = true;
                        if !database_read_only {
                            let ghost writes0 = writes@;
                            writes.push(candidate);
                            proof {
                                crate::player::lemma_index_of(s, player_id, i as int);
                                assert(writes@.map_values(|it: SessionItem| it.player_id)
                                    =~= writes0.map_values(|it: SessionItem| it.player_id)
                                    + seq![player_id]);
                                assert(writes0.map_values(|it: SessionItem| it.player_id) + (
                                seq![player_id] + write_ids(
                                    s.skip(i as int + 1),
                                    arena_id,
                                    game_id,
                                    effective,
                                )) =~= writes@.map_values(|it: SessionItem| it.player_id)
                                    + write_ids(s.skip(i as int + 1), arena_id, game_id, effective));
                            }
                        }
                    }
                },
            }
            if write_needed {
                let mut row = players.players.remove(i);
                match row.client {
                    Some(mut client) => {
                        let stored = build_candidate(
                            player_id,
                            &client,
                            arena_id,
                            game_id,
                            effective,
                        );
                        client.session_item = Some(stored);
                        row.client = Some(client);
                        let ghost row1 = row;
                        players.players.insert(i, row);
                        proof {
                            assert(players.players@ =~= p0.update(i as int, row1));
                            crate::player::lemma_wf_update(p0, i as int, row1);
                        }
                    },
                    None => {
                        proof {
                            assert(false);
                        }
                        unreached()
                    },
                }
            } else {
                proof {
                    if !database_read_only {
                        assert(write_ids(s.skip(i as int), arena_id, game_id, effective)
                            == write_ids(s.skip(i as int + 1), arena_id, game_id, effective));
                    }
                }
            }
            i = i + 1;
        }
        proof {
            assert(s.skip(s.len() as int) =~= Seq::<Player>::empty());
            if !database_read_only {
                assert(writes@.map_values(|it: SessionItem| it.player_id) + write_ids(
                    s.skip(s.len() as int),
                    arena_id,
                    game_id,
                    effective,
                ) =~= writes@.map_values(|it: SessionItem| it.player_id));
            }
        }
        writes
    }
}

} // verus!
