//! The registrar: binds a live outbound channel to a player, welcomes it,
//! evicts any previously bound channel, and queues the initializers every
//! fresh channel must observe, in a fixed order.

use vstd::prelude::*;

use crate::client::ClientRepo;
use crate::ids::{ArenaId, ChannelId, PlayerId, ServerId, SessionId};
use crate::player::{Player, PlayerClientData, PlayerRepo};
use crate::protocol::{
    close_count, close_of, lemma_close_count_concat, lemma_sends_on_concat, lemma_sends_on_new,
    send_to, sends_on, ClientUpdate, LeaderboardUpdate, ObserverUpdate, Outbound, PlayerUpdate,
    SystemUpdate, TeamUpdate, Update,
};
use crate::status::ClientStatus;

verus! {

/// Everything the registrar needs from the collaborating subsystems at the
/// moment a channel attaches: the current initializer payloads.
#[derive(Clone, Debug, PartialEq, Eq)]
pub struct RegisterSetup {
    pub arena_id: ArenaId,
    pub server_id: Option<ServerId>,
    /// One initializer per leaderboard period, in period order.
    pub leaderboard_initializers: Vec<LeaderboardUpdate>,
    pub liveboard_initializer: u64,
    /// Chat history computed against the current players.
    pub chat_initializer: u64,
    /// The player roster.
    pub roster_initializer: u64,
    pub team_initializer: Option<u64>,
    pub system_initializer: Option<u64>,
}

/// What one register accomplished.
#[derive(Clone, Debug, PartialEq, Eq)]
pub struct RegisterOutcome {
    /// Sends for the transport, in order.
    pub outbound: Vec<Outbound>,
    /// Whether the game must be told the player joined.
    pub joined: bool,
    /// False when the player id was unknown or named a bot; nothing happened.
    pub registered: bool,
}

/// The messages a register emits: the welcome on the fresh channel, the
/// eviction of a previously bound channel, then every initializer in the
/// fixed order leaderboards, liveboard, chat, roster, team, system.
pub open spec fn register_messages(
    channel: ChannelId,
    session_id: SessionId,
    player_id: PlayerId,
    setup: RegisterSetup,
    old_status: ClientStatus,
) -> Seq<Outbound> {
    seq![
        send_to(
            channel,
            Update::Client(
                ClientUpdate::SessionCreated {
                    arena_id: setup.arena_id,
                    server_id: setup.server_id,
                    session_id,
                    player_id,
                },
            ),
        ),
    ] + (match old_status {
        ClientStatus::Connected { channel: old_channel } => seq![close_of(old_channel)],
        _ => Seq::<Outbound>::empty(),
    }) + Seq::new(
        setup.leaderboard_initializers@.len(),
        |k: int| send_to(channel, Update::Leaderboard(setup.leaderboard_initializers@[k])),
    ) + seq![
        send_to(channel, Update::Liveboard(setup.liveboard_initializer)),
        send_to(channel, Update::Chat(setup.chat_initializer)),
        send_to(channel, Update::Player(PlayerUpdate::Initializer(setup.roster_initializer))),
    ] + (match setup.team_initializer {
        Some(t) => seq![send_to(channel, Update::Team(TeamUpdate::Initializer(t)))],
        None => Seq::<Outbound>::empty(),
    }) + (match setup.system_initializer {
        Some(t) => seq![send_to(channel, Update::System(SystemUpdate::Initializer(t)))],
        None => Seq::<Outbound>::empty(),
    })
}

/// The updates the fresh channel observes, in order: the welcome first, then
/// the initializers.
pub open spec fn initializer_updates(
    channel: ChannelId,
    session_id: SessionId,
    player_id: PlayerId,
    setup: RegisterSetup,
) -> Seq<Update> {
    seq![
        Update::Client(
            ClientUpdate::SessionCreated {
                arena_id: setup.arena_id,
                server_id: setup.server_id,
                session_id,
                player_id,
            },
        ),
    ] + Seq::new(
        setup.leaderboard_initializers@.len(),
        |k: int| Update::Leaderboard(setup.leaderboard_initializers@[k]),
    ) + seq![
        Update::Liveboard(setup.liveboard_initializer),
        Update::Chat(setup.chat_initializer),
        Update::Player(PlayerUpdate::Initializer(setup.roster_initializer)),
    ] + (match setup.team_initializer {
        Some(t) => seq![Update::Team(TeamUpdate::Initializer(t))],
        None => Seq::<Update>::empty(),
    }) + (match setup.system_initializer {
        Some(t) => seq![Update::System(SystemUpdate::Initializer(t))],
        None => Seq::<Update>::empty(),
    })
}

/// Law: when a channel different from the evicted one attaches, it observes
/// exactly the welcome followed by the initializers in their fixed order,
/// and a previously bound channel observes exactly one close.
pub proof fn lemma_register_order(
    channel: ChannelId,
    session_id: SessionId,
    player_id: PlayerId,
    setup: RegisterSetup,
    old_status: ClientStatus,
)
    requires
        old_status matches ClientStatus::Connected { channel: c } ==> c != channel,
    ensures
        sends_on(register_messages(channel, session_id, player_id, setup, old_status), channel)
            == initializer_updates(channel, session_id, player_id, setup),
        old_status matches ClientStatus::Connected { channel: c } ==> close_count(
            register_messages(channel, session_id, player_id, setup, old_status),
            c,
        ) == 1,
        close_count(register_messages(channel, session_id, player_id, setup, old_status), channel)
            == 0,
{
    let welcome = seq![
        send_to(
            channel,
            Update::Client(
                ClientUpdate::SessionCreated {
                    arena_id: setup.arena_id,
                    server_id: setup.server_id,
                    session_id,
                    player_id,
                },
            ),
        ),
    ];
    let evict = match old_status {
        ClientStatus::Connected { channel: old_channel } => seq![close_of(old_channel)],
        _ => Seq::<Outbound>::empty(),
    };
    let lb_out = Seq::new(
        setup.leaderboard_initializers@.len(),
        |k: int| send_to(channel, Update::Leaderboard(setup.leaderboard_initializers@[k])),
    );
    let lb_msg = Seq::new(
        setup.leaderboard_initializers@.len(),
        |k: int| Update::Leaderboard(setup.leaderboard_initializers@[k]),
    );
    let mids = seq![
        send_to(channel, Update::Liveboard(setup.liveboard_initializer)),
        send_to(channel, Update::Chat(setup.chat_initializer)),
        send_to(channel, Update::Player(PlayerUpdate::Initializer(setup.roster_initializer))),
    ];
    let team = match setup.team_initializer {
        Some(t) => seq![send_to(channel, Update::Team(TeamUpdate::Initializer(t)))],
        None => Seq::<Outbound>::empty(),
    };
    let system = match setup.system_initializer {
        Some(t) => seq![send_to(channel, Update::System(SystemUpdate::Initializer(t)))],
        None => Seq::<Outbound>::empty(),
    };
    let all = register_messages(channel, session_id, player_id, setup, old_status);
    assert(all == welcome + evict + lb_out + mids + team + system);
    reveal_with_fuel(sends_on, 5);
    reveal_with_fuel(close_count, 5);

    let lbf = |k: int| Update::Leaderboard(setup.leaderboard_initializers@[k]);
    assert(lb_out =~= Seq::new(
        setup.leaderboard_initializers@.len(),
        |k: int| send_to(channel, lbf(k)),
    ));
    lemma_sends_on_new(lb_out, setup.leaderboard_initializers@.len(), lbf, channel);
    assert(lb_msg =~= Seq::new(setup.leaderboard_initializers@.len(), lbf));

    assert forall|ch: ChannelId| true implies #[trigger] sends_on(welcome + evict, ch) == sends_on(
        welcome,
        ch,
    ) + sends_on(evict, ch) by {
        lemma_sends_on_concat(welcome, evict, ch);
    }
    lemma_sends_on_concat(welcome, evict, channel);
    lemma_sends_on_concat(welcome + evict, lb_out, channel);
    lemma_sends_on_concat(welcome + evict + lb_out, mids, channel);
    lemma_sends_on_concat(welcome + evict + lb_out + mids, team, channel);
    lemma_sends_on_concat(welcome + evict + lb_out + mids + team, system, channel);

    assert(welcome.drop_first() =~= Seq::<Outbound>::empty());
    assert(sends_on(welcome, channel) =~= seq![welcome[0].update->Send_message]);
    match old_status {
        ClientStatus::Connected { channel: c } => {
            assert(evict.drop_first() =~= Seq::<Outbound>::empty());
        },
        _ => {},
    }
    assert(sends_on(evict, channel) =~= Seq::<Update>::empty());
    assert(mids.drop_first().drop_first().drop_first() =~= Seq::<Outbound>::empty());
    assert(sends_on(mids, channel) =~= seq![
        Update::Liveboard(setup.liveboard_initializer),
        Update::Chat(setup.chat_initializer),
        Update::Player(PlayerUpdate::Initializer(setup.roster_initializer)),
    ]);
    match setup.team_initializer {
        Some(t) => {
            assert(sends_on(team, channel) =~= seq![Update::Team(TeamUpdate::Initializer(t))]);
        },
        None => {
            assert(sends_on(team, channel) =~= Seq::<Update>::empty());
        },
    }
    match setup.system_initializer {
        Some(t) => {
            assert(sends_on(system, channel) =~= seq![Update::System(SystemUpdate::Initializer(t))]);
        },
        None => {
            assert(sends_on(system, channel) =~= Seq::<Update>::empty());
        },
    }
    assert(sends_on(all, channel) =~= initializer_updates(channel, session_id, player_id, setup));

    // Close accounting, on any channel of interest.
    assert forall|c: ChannelId| true implies #[trigger] close_count(all, c) == close_count(
        welcome,
        c,
    ) + close_count(evict, c) + close_count(lb_out, c) + close_count(mids, c) + close_count(
        team,
        c,
    ) + close_count(system, c) by {
        lemma_close_count_concat(welcome, evict, c);
        lemma_close_count_concat(welcome + evict, lb_out, c);
        lemma_close_count_concat(welcome + evict + lb_out, mids, c);
        lemma_close_count_concat(welcome + evict + lb_out + mids, team, c);
        lemma_close_count_concat(welcome + evict + lb_out + mids + team, system, c);
    }
    assert forall|c: ChannelId| true implies #[trigger] close_count(welcome, c) == 0 && close_count(
        mids,
        c,
    ) == 0 && close_count(team, c) == 0 && close_count(system, c) == 0 by {
        assert(close_count(welcome, c) == close_count(welcome.drop_first(), c));
        assert(close_count(mids, c) == close_count(mids.drop_first(), c));
        assert(close_count(mids.drop_first(), c) == close_count(mids.drop_first().drop_first(), c));
        match setup.team_initializer {
            Some(_) => {
                assert(close_count(team, c) == close_count(team.drop_first(), c));
            },
            None => {},
        }
        match setup.system_initializer {
            Some(_) => {
                assert(close_count(system, c) == close_count(system.drop_first(), c));
            },
            None => {},
        }
    }
    match old_status {
        ClientStatus::Connected { channel: c } => {
            assert(close_count(evict, c) == 1 + close_count(evict.drop_first(), c));
            assert(close_count(evict, channel) == 0 + close_count(evict.drop_first(), channel));
        },
        _ => {},
    }
}

impl ClientRepo {
    /// Client websocket (re)connected: welcome it, rebind the record to the
    /// fresh channel, evict the old channel if one was bound, reset the
    /// per-game scratch and the chat and team view state, and queue every
    /// initializer. The caller must tell the game about a join exactly when
    /// `joined` says so.
    pub fn register(
        &mut self,
        players: &mut PlayerRepo,
        player_id: PlayerId,
        channel: ChannelId,
        setup: &RegisterSetup,
    ) -> (r: RegisterOutcome)
        requires
            old(players).wf(),
        ensures
            final(players).wf(),
            *final(self) == *old(self),
            ({
                let s = old(players).players@;
                let i = crate::player::index_of_player(s, player_id);
                if !crate::player::contains_player(s, player_id) || s[i].client is None {
                    &&& !r.registered
                    &&& !r.joined
                    &&& r.outbound@ == Seq::<Outbound>::empty()
                    &&& final(players).players@ == s
                } else {
                    let c0 = s[i].client->Some_0;
                    &&& r.registered
                    &&& r.joined == (c0.status is Pending || c0.status is Stale)
                    &&& r.outbound@ == register_messages(
                        channel,
                        c0.session_id,
                        player_id,
                        *setup,
                        c0.status,
                    )
                    &&& final(players).players@.len() == s.len()
                    &&& forall|j: int|
                        0 <= j < s.len() && j != i ==> final(players).players@[j] == s[j]
                    &&& {
                        let p1 = final(players).players@[i];
                        &&& p1 == Player { client: p1.client, ..s[i] }
                        &&& p1.client is Some
                        &&& p1.client->Some_0 == PlayerClientData {
                            status: ClientStatus::Connected { channel },
                            chat_state: 0,
                            team_state: 0,
                            data: 0,
                            ..c0
                        }
                    }
                }
            }),
    {
        let ghost s0 = players.players@;
        let i = match players.find(player_id) {
            Some(i) => i,
            None => {
                return RegisterOutcome { outbound: Vec::new(), joined: false, registered: false };
            },
        };
        proof {
            crate::player::lemma_index_of(s0, player_id, i as int);
        }
        let mut row = players.players.remove(i);
        match row.client {
            None => {
                players.players.insert(i, row);
                proof {
                    assert(final(players).players@ =~= s0);
                }
                RegisterOutcome { outbound: Vec::new(), joined: false, registered: false }
            },
            Some(mut client) => {
                let session_id = client.session_id;
                let old_status = client.status;
                client.status = ClientStatus::Connected { channel };
                client.chat_state = 0;
                client.team_state = 0;
                client.data = 0;
                row.client = Some(client);
                let ghost row1 = row;
                players.players.insert(i, row);
                proof {
                    assert(players.players@ =~= s0.update(i as int, row1));
                    crate::player::lemma_wf_update(s0, i as int, row1);
                }

                let mut out: Vec<Outbound> = Vec::new();
                out.push(
                    Outbound {
                        channel,
                        update: ObserverUpdate::Send {
                            message: Update::Client(
                                ClientUpdate::SessionCreated {
                                    arena_id: setup.arena_id,
                                    server_id: setup.server_id,
                                    session_id,
                                    player_id,
                                },
                            ),
                        },
                    },
                );
                let joined = match old_status {
                    ClientStatus::Connected { channel: old_channel } => {
                        out.push(Outbound { channel: old_channel, update: ObserverUpdate::Close });
                        false
                    },
                    ClientStatus::Limbo { .. } => false,
                    ClientStatus::Pending { .. } | ClientStatus::Stale { .. } => true,
                };
                let ghost head = out@;
                let ghost lb_out = Seq::new(
                    setup.leaderboard_initializers@.len(),
                    |k: int| send_to(channel, Update::Leaderboard(setup.leaderboard_initializers@[k])),
                );
                let mut k: usize = 0;
                while k < setup.leaderboard_initializers.len()
                    invariant
                        k <= setup.leaderboard_initializers@.len(),
                        lb_out == Seq::new(
                            setup.leaderboard_initializers@.len(),
                            |k: int| send_to(
                                channel,
                                Update::Leaderboard(setup.leaderboard_initializers@[k]),
                            ),
                        ),
                        out@ == head + lb_out.take(k as int),
                    decreases setup.leaderboard_initializers@.len() - k,
                {
                    let lb = setup.leaderboard_initializers[k];
                    out.push(
                        Outbound {
                            channel,
                            update: ObserverUpdate::Send { message: Update::Leaderboard(lb) },
                        },
                    );
                    proof {
                        assert(out@ =~= head + lb_out.take(k as int + 1));
                    }
                    k = k + 1;
                }
                proof {
                    assert(lb_out.take(lb_out.len() as int) =~= lb_out);
                }
                out.push(
                    Outbound {
                        channel,
                        update: ObserverUpdate::Send {
                            message: Update::Liveboard(setup.liveboard_initializer),
                        },
                    },
                );
                out.push(
                    Outbound {
                        channel,
                        update: ObserverUpdate::Send {
                            message: Update::Chat(setup.chat_initializer),
                        },
                    },
                );
                out.push(
                    Outbound {
                        channel,
                        update: ObserverUpdate::Send {
                            message: Update::Player(
                                PlayerUpdate::Initializer(setup.roster_initializer),
                            ),
                        },
                    },
                );
                match setup.team_initializer {
                    Some(t) => {
                        out.push(
                            Outbound {
                                channel,
                                update: ObserverUpdate::Send {
                                    message: Update::Team(TeamUpdate::Initializer(t)),
                                },
                            },
                        );
                    },
                    None => {},
                }
                match setup.system_initializer {
                    Some(t) => {
                        out.push(
                            Outbound {
                                channel,
                                update: ObserverUpdate::Send {
                                    message: Update::System(SystemUpdate::Initializer(t)),
                                },
                            },
                        );
                    },
                    None => {},
                }
                proof {
                    assert(out@ =~= register_messages(
                        channel,
                        session_id,
                        player_id,
                        *setup,
                        old_status,
                    ));
                }
                RegisterOutcome { outbound: out, joined, registered: true }
            },
        }
    }
}

} // verus!
