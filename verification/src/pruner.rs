//! The expiry sweep: limbo clients whose grace ran out drop out of the game
//! and become stale; pending and stale records past their expiry are
//! forgotten. Connected clients are never touched — they leave through an
//! explicit unregister.

use vstd::prelude::*;

use crate::client::ClientRepo;
use crate::ids::PlayerId;
use crate::player::{Player, PlayerClientData, PlayerRepo};
use crate::status::{sat_add, sweep_status, ClientStatus};

verus! {

/// One row after the sweep at `now`, or `None` when it is forgotten. Rows
/// without a client (bots) are never touched.
pub open spec fn prune_one(p: Player, now: u64, stale_expiry_ms: u64) -> Option<Player> {
    match p.client {
        None => Some(p),
        Some(c) => match sweep_status(c.status, now, stale_expiry_ms) {
            None => None,
            Some(st) => Some(Player { client: Some(PlayerClientData { status: st, ..c }), ..p }),
        },
    }
}

/// The whole table after the sweep, in order.
pub open spec fn prune_players(s: Seq<Player>, now: u64, stale_expiry_ms: u64) -> Seq<Player>
    decreases s.len(),
{
    if s.len() == 0 {
        Seq::empty()
    } else {
        (match prune_one(s[0], now, stale_expiry_ms) {
            Some(p) => seq![p],
            None => Seq::<Player>::empty(),
        }) + prune_players(s.drop_first(), now, stale_expiry_ms)
    }
}

/// Whether the sweep at `now` makes this row's player leave the game.
pub open spec fn sweep_leaves(p: Player, now: u64) -> bool {
    match p.client {
        Some(c) => c.status matches ClientStatus::Limbo { expiry } && now >= expiry,
        None => false,
    }
}

/// The players the sweep at `now` reports as having left, in table order.
pub open spec fn pruned_left(s: Seq<Player>, now: u64) -> Seq<PlayerId>
    decreases s.len(),
{
    if s.len() == 0 {
        Seq::empty()
    } else {
        (if sweep_leaves(s[0], now) {
            seq![s[0].player_id]
        } else {
            Seq::<PlayerId>::empty()
        }) + pruned_left(s.drop_first(), now)
    }
}

/// The players the sweep at `now` forgets, in table order.
pub open spec fn pruned_removed(s: Seq<Player>, now: u64, stale_expiry_ms: u64) -> Seq<PlayerId>
    decreases s.len(),
{
    if s.len() == 0 {
        Seq::empty()
    } else {
        (if prune_one(s[0], now, stale_expiry_ms) is None {
            seq![s[0].player_id]
        } else {
            Seq::<PlayerId>::empty()
        }) + pruned_removed(s.drop_first(), now, stale_expiry_ms)
    }
}

/// What one sweep accomplished; the process reports each left player to the
/// game and cascades cleanup of each removed one.
#[derive(Clone, Debug, PartialEq, Eq)]
pub struct PruneOutcome {
    pub left: Vec<PlayerId>,
    pub removed: Vec<PlayerId>,
}

impl ClientRepo {
    /// Sweeps the whole table once at `now`.
    pub fn prune(&mut self, players: &mut PlayerRepo, now: u64, stale_expiry_ms: u64) -> (r:
        PruneOutcome)
        requires
            old(players).wf(),
        ensures
            final(players).wf(),
            *final(self) == *old(self),
            final(players).players@ == prune_players(old(players).players@, now, stale_expiry_ms),
            r.left@ == pruned_left(old(players).players@, now),
            r.removed@ == pruned_removed(old(players).players@, now, stale_expiry_ms),
    {
        let ghost s = players.players@;
        let mut left: Vec<PlayerId> = Vec::new();
        let mut removed: Vec<PlayerId> = Vec::new();
        let mut i: usize = 0;
        proof {
            assert(s.skip(0) =~= s);
            assert(players.players@.take(0) =~= Seq::<Player>::empty());
            assert(players.players@.take(0) + prune_players(s.skip(0), now, stale_expiry_ms)
                =~= prune_players(s, now, stale_expiry_ms));
            assert(left@ + pruned_left(s.skip(0), now) =~= pruned_left(s, now));
            assert(removed@ + pruned_removed(s.skip(0), now, stale_expiry_ms) =~= pruned_removed(
                s,
                now,
                stale_expiry_ms,
            ));
        }
        while i < players.players.len()
            invariant
                players.wf(),
                i + removed@.len() <= s.len(),
                i <= players.players@.len(),
                players.players@.skip(i as int) =~= s.skip(i + removed@.len()),
                prune_players(s, now, stale_expiry_ms) == players.players@.take(i as int)
                    + prune_players(s.skip(i + removed@.len()), now, stale_expiry_ms),
                pruned_left(s, now) == left@ + pruned_left(s.skip(i + removed@.len()), now),
                pruned_removed(s, now, stale_expiry_ms) == removed@ + pruned_removed(
                    s.skip(i + removed@.len()),
                    now,
                    stale_expiry_ms,
                ),
            decreases players.players@.len() - i,
        {
            let ghost j = i + removed@.len();
            proof {
                assert(s.skip(j as int).drop_first() =~= s.skip(j + 1));
                assert(s.skip(j as int)[0] == s[j as int]);
                assert(players.players@[i as int] == s[j as int]);
            }
            let ghost p0 = players.players@;
            let has_client = players.players[i].client.is_some();
            if !has_client {
                proof {
                    assert(prune_one(s[j as int], now, stale_expiry_ms) == Some(s[j as int]));
                    assert(p0.take(i as int + 1) =~= p0.take(i as int) + seq![s[j as int]]);
                    assert(p0.take(i as int) + (seq![s[j as int]] + prune_players(
                        s.skip(j + 1),
                        now,
                        stale_expiry_ms,
                    )) =~= p0.take(i as int + 1) + prune_players(s.skip(j + 1), now, stale_expiry_ms));
                    assert(p0.skip(i as int + 1) =~= s.skip(j + 1));
                }
                i = i + 1;
            } else {
                let mut row = players.players.remove(i);
                let mut client = match row.client {
                    Some(c) => c,
                    None => {
                        proof {
                            assert(false);
                        }
                        unreached()
                    },
                };
                let (swept, leaves): (Option<ClientStatus>, bool) = match client.status {
                    ClientStatus::Pending { expiry } => {
                        if now > expiry {
                            (None, false)
                        } else {
                            (Some(client.status), false)
                        }
                    },
                    ClientStatus::Connected { .. } => (Some(client.status), false),
                    ClientStatus::Limbo { expiry } => {
                        if now >= expiry {
                            (
                                Some(
                                    ClientStatus::Stale {
                                        expiry: crate::status::sat_add_exec(now, stale_expiry_ms),
                                    },
                                ),
                                true,
                            )
                        } else {
                            (Some(client.status), false)
                        }
                    },
                    ClientStatus::Stale { expiry } => {
                        if now > expiry {
                            (None, false)
                        } else {
                            (Some(client.status), false)
                        }
                    },
                };
                proof {
                    assert(swept == sweep_status(client.status, now, stale_expiry_ms));
                    assert(leaves == sweep_leaves(s[j as int], now));
                }
                if leaves {
                    let ghost left0 = left@;
                    left.push(row.player_id);
                    proof {
                        assert(left0 + (seq![s[j as int].player_id] + pruned_left(
                            s.skip(j + 1),
                            now,
                        )) =~= left@ + pruned_left(s.skip(j + 1), now));
                    }
                } else {
                    proof {
                        assert(pruned_left(s.skip(j as int), now) == pruned_left(s.skip(j + 1), now));
                    }
                }
                match swept {
                    None => {
                        let ghost removed0 = removed@;
                        removed.push(row.player_id);
                        proof {
                            crate::player::lemma_wf_remove(p0, i as int);
                            assert(prune_one(s[j as int], now, stale_expiry_ms) is None);
                            assert(players.players@ =~= p0.remove(i as int));
                            assert(players.players@.take(i as int) =~= p0.take(i as int));
                            assert(players.players@.skip(i as int) =~= p0.skip(i as int + 1));
                            assert(p0.skip(i as int + 1) =~= s.skip(j + 1));
                            assert(removed0 + (seq![s[j as int].player_id] + pruned_removed(
                                s.skip(j + 1),
                                now,
                                stale_expiry_ms,
                            )) =~= removed@ + pruned_removed(s.skip(j + 1), now, stale_expiry_ms));
                        }
                    },
                    Some(new_status) => {
                        client.status = new_status;
                        row.client = Some(client);
                        let ghost row1 = row;
                        players.players.insert(i, row);
                        proof {
                            assert(players.players@ =~= p0.update(i as int, row1));
                            crate::player::lemma_wf_update(p0, i as int, row1);
                            assert(row1 == prune_one(s[j as int], now, stale_expiry_ms)->Some_0);
                            assert(players.players@.take(i as int + 1) =~= p0.take(i as int)
                                + seq![row1]);
                            assert(p0.take(i as int) + (seq![row1] + prune_players(
                                s.skip(j + 1),
                                now,
                                stale_expiry_ms,
                            )) =~= players.players@.take(i as int + 1) + prune_players(
                                s.skip(j + 1),
                                now,
                                stale_expiry_ms,
                            ));
                            assert(players.players@.skip(i as int + 1) =~= s.skip(j + 1));
                            assert(pruned_removed(s.skip(j as int), now, stale_expiry_ms)
                                == pruned_removed(s.skip(j + 1), now, stale_expiry_ms));
                        }
                        i = i + 1;
                    },
                }
            }
        }
        proof {
            let j = i + removed@.len();
            assert(players.players@.skip(i as int).len() == 0);
            assert(s.skip(j as int).len() == 0);
            assert(prune_players(s.skip(j as int), now, stale_expiry_ms)
                =~= Seq::<Player>::empty());
            assert(pruned_left(s.skip(j as int), now) =~= Seq::<PlayerId>::empty());
            assert(pruned_removed(s.skip(j as int), now, stale_expiry_ms)
                =~= Seq::<PlayerId>::empty());
            assert(players.players@.take(i as int) =~= players.players@);
            assert(players.players@ + Seq::<Player>::empty() =~= players.players@);
            assert(left@ + Seq::<PlayerId>::empty() =~= left@);
            assert(removed@ + Seq::<PlayerId>::empty() =~= removed@);
        }
        PruneOutcome { left, removed }
    }
}

/// Law: a client that fell into limbo is stale after any sweep at or past
/// its limbo expiry, and is forgotten by any later sweep past the stale
/// expiry granted then; a pending client is forgotten by any sweep past its
/// own expiry.
pub proof fn lemma_pruning_liveness(
    limbo_expiry: u64,
    pending_expiry: u64,
    stale_expiry_ms: u64,
    t1: u64,
    t2: u64,
)
    requires
        t1 >= limbo_expiry,
        t2 > sat_add(t1, stale_expiry_ms),
    ensures
        sweep_status(ClientStatus::Limbo { expiry: limbo_expiry }, t1, stale_expiry_ms) == Some(
            ClientStatus::Stale { expiry: sat_add(t1, stale_expiry_ms) },
        ),
        sweep_status(
            ClientStatus::Stale { expiry: sat_add(t1, stale_expiry_ms) },
            t2,
            stale_expiry_ms,
        ) is None,
        t1 > pending_expiry ==> sweep_status(
            ClientStatus::Pending { expiry: pending_expiry },
            t1,
            stale_expiry_ms,
        ) is None,
{
}

} // verus!
