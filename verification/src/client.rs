//! The client repository: request dispatch and the connection lifecycle
//! operations that act on single rows of the player table.

use vstd::prelude::*;

use crate::ids::{ChannelId, PlayerId};
use crate::player::{
    contains_player, index_of_player, Player, PlayerClientData, PlayerRepo,
};
use crate::protocol::{
    ClientError, ClientRequest, ClientUpdate, Outbound, ObserverUpdate, Request, TraceLine, Update,
};
use crate::rate_limiter::{IpRateLimiter, RateLimiter, RateLimiterProps};
use crate::session::{sanitized, Alias};
use crate::status::{unregister_status, ClientStatus};

verus! {

/// Milliseconds between writes allowed toward the durable store.
pub const DATABASE_RATE_LIMIT_MS: u64 = 30_000;

/// Longest accepted client error report, in bytes.
pub const TRACE_MAX_LEN: usize = 2048;

/// Error reports accepted per client, to limit abuse.
pub const TRACE_CAP: u8 = 25;

/// Largest stored frames-per-second report, hundredths of a frame per second.
pub const FPS_MAX_CENTI: i64 = 14_400;

/// Milliseconds a player may have been alive and still change alias.
pub const ALIAS_ALIVE_GRACE_MS: u64 = 1_000;

/// Keeps track of clients, their admission limiter, and the trace log
/// destination. The client rows themselves live in the player table.
pub struct ClientRepo {
    pub authenticate_rate_limiter: IpRateLimiter,
    pub database_rate_limiter: RateLimiter,
    /// Where the process should append accepted trace lines, if anywhere.
    pub trace_log: Option<String>,
}

/// Whether `p` has been alive long enough that alias changes are blocked.
pub open spec fn alias_blocked(p: Player, now: u64) -> bool {
    match p.alive_since {
        Some(t) => now >= t && now - t > ALIAS_ALIVE_GRACE_MS,
        None => false,
    }
}

/// The stored report for a measurement of `fps` hundredths of a frame per
/// second: clamped into `[0, FPS_MAX_CENTI]`, or nothing when the
/// measurement was not finite.
pub open spec fn sanitize_fps(fps: Option<i64>) -> Option<u32> {
    match fps {
        None => None,
        Some(v) => Some(
            if v < 0 {
                0u32
            } else if v > FPS_MAX_CENTI {
                FPS_MAX_CENTI as u32
            } else {
                v as u32
            },
        ),
    }
}

/// Exactly what an alias request does: against table `s0` it yields table
/// `s1` and result `r`, where a success stores and echoes the sanitized
/// name, and each refusal names its reason and changes nothing.
pub open spec fn set_alias_post(
    s0: Seq<Player>,
    s1: Seq<Player>,
    player_id: PlayerId,
    alias: Seq<u8>,
    now: u64,
    r: Result<ClientUpdate, ClientError>,
) -> bool {
    let i = index_of_player(s0, player_id);
    match r {
        Ok(u) => {
            &&& contains_player(s0, player_id)
            &&& !alias_blocked(s0[i], now)
            &&& s0[i].client is Some
            &&& u matches ClientUpdate::AliasSet(a) && a.bytes@ == sanitized(alias)
            &&& s1.len() == s0.len()
            &&& forall|j: int| 0 <= j < s0.len() && j != i ==> s1[j] == s0[j]
            &&& {
                let c0 = s0[i].client->Some_0;
                let p1 = s1[i];
                &&& p1 == Player { client: p1.client, ..s0[i] }
                &&& p1.client is Some
                &&& p1.client->Some_0 == PlayerClientData { alias: p1.client->Some_0.alias, ..c0 }
                &&& p1.client->Some_0.alias.bytes@ == sanitized(alias)
            }
        },
        Err(e) => {
            &&& s1 == s0
            &&& (e == ClientError::PlayerDoesntExist <==> !contains_player(s0, player_id))
            &&& (e == ClientError::CannotChangeAliasWhileAlive <==> contains_player(s0, player_id)
                && alias_blocked(s0[i], now))
            &&& (e == ClientError::OnlyClientsCanSetAlias <==> contains_player(s0, player_id)
                && !alias_blocked(s0[i], now) && s0[i].client is None)
            &&& (e == ClientError::PlayerDoesntExist || e
                == ClientError::CannotChangeAliasWhileAlive || e
                == ClientError::OnlyClientsCanSetAlias)
        },
    }
}

/// Exactly what a frames-per-second report does: a finite report is clamped
/// and stored, a non-finite one is refused, and each refusal names its
/// reason and changes nothing.
pub open spec fn tally_fps_post(
    s0: Seq<Player>,
    s1: Seq<Player>,
    player_id: PlayerId,
    fps: Option<i64>,
    r: Result<ClientUpdate, ClientError>,
) -> bool {
    let i = index_of_player(s0, player_id);
    match r {
        Ok(u) => {
            &&& contains_player(s0, player_id)
            &&& s0[i].client is Some
            &&& fps is Some
            &&& u == ClientUpdate::FpsTallied
            &&& s1.len() == s0.len()
            &&& forall|j: int| 0 <= j < s0.len() && j != i ==> s1[j] == s0[j]
            &&& {
                let c0 = s0[i].client->Some_0;
                let p1 = s1[i];
                &&& p1 == Player { client: p1.client, ..s0[i] }
                &&& p1.client is Some
                &&& p1.client->Some_0 == PlayerClientData {
                    metrics: crate::session::ClientMetricData {
                        fps: sanitize_fps(fps),
                        ..c0.metrics
                    },
                    ..c0
                }
            }
        },
        Err(e) => {
            &&& s1 == s0
            &&& (e == ClientError::PlayerDoesntExist <==> !contains_player(s0, player_id))
            &&& (e == ClientError::OnlyClientsCanTallyFps <==> contains_player(s0, player_id)
                && s0[i].client is None)
            &&& (e == ClientError::InvalidFps <==> contains_player(s0, player_id) && s0[i].client
                is Some && fps is None)
            &&& (e == ClientError::PlayerDoesntExist || e == ClientError::OnlyClientsCanTallyFps
                || e == ClientError::InvalidFps)
        },
    }
}

/// Exactly what an error report does: an accepted report bumps the counter
/// and yields the line to append, a refusal names its reason, appends
/// nothing and changes nothing.
pub open spec fn trace_post(
    s0: Seq<Player>,
    s1: Seq<Player>,
    player_id: PlayerId,
    message: Seq<u8>,
    r: Result<(ClientUpdate, TraceLine), ClientError>,
) -> bool {
    let i = index_of_player(s0, player_id);
    match r {
        Ok((u, line)) => {
            &&& contains_player(s0, player_id)
            &&& s0[i].client is Some
            &&& message.len() <= TRACE_MAX_LEN
            &&& s0[i].client->Some_0.traces < TRACE_CAP
            &&& u == ClientUpdate::Traced
            &&& line.message@ == message
            &&& line.referrer == s0[i].client->Some_0.metrics.referrer
            &&& line.region_id == s0[i].client->Some_0.metrics.region_id
            &&& line.user_agent_id == s0[i].client->Some_0.metrics.user_agent_id
            &&& s1.len() == s0.len()
            &&& forall|j: int| 0 <= j < s0.len() && j != i ==> s1[j] == s0[j]
            &&& {
                let c0 = s0[i].client->Some_0;
                let p1 = s1[i];
                &&& p1 == Player { client: p1.client, ..s0[i] }
                &&& p1.client is Some
                &&& p1.client->Some_0 == PlayerClientData { traces: (c0.traces + 1) as u8, ..c0 }
            }
        },
        Err(e) => {
            &&& s1 == s0
            &&& (e == ClientError::PlayerDoesntExist <==> !contains_player(s0, player_id))
            &&& (e == ClientError::OnlyClientsCanTrace <==> contains_player(s0, player_id)
                && s0[i].client is None)
            &&& (e == ClientError::TraceTooLong <==> contains_player(s0, player_id) && s0[i].client
                is Some && message.len() > TRACE_MAX_LEN)
            &&& (e == ClientError::TooManyTraces <==> contains_player(s0, player_id) && s0[i].client
                is Some && message.len() <= TRACE_MAX_LEN && s0[i].client->Some_0.traces
                >= TRACE_CAP)
            &&& (e == ClientError::PlayerDoesntExist || e == ClientError::OnlyClientsCanTrace || e
                == ClientError::TraceTooLong || e == ClientError::TooManyTraces)
        },
    }
}

/// Work the process must carry to a collaborating subsystem.
#[derive(Clone, Copy, Debug, PartialEq, Eq, Structural)]
pub enum Delegation {
    /// Forward to the game's command handler.
    Game { command: u64 },
    Chat { request: u64 },
    Invitation { request: u64 },
    Player { request: u64 },
    Team { request: u64 },
}

/// What one dispatched request asks of the process: an immediate reply for
/// the originating channel, a trace line to append, or delegated work.
#[derive(Clone, Debug, PartialEq, Eq)]
pub struct DispatchOutcome {
    pub reply: Option<Update>,
    pub trace_line: Option<TraceLine>,
    pub delegation: Option<Delegation>,
}

impl ClientRepo {
    pub fn new(trace_log: Option<String>, authenticate: RateLimiterProps) -> (r: Self)
        ensures
            r.authenticate_rate_limiter.wf(),
            r.authenticate_rate_limiter.props == authenticate,
            r.authenticate_rate_limiter.entries@.len() == 0,
            r.database_rate_limiter.interval_ms == DATABASE_RATE_LIMIT_MS,
            r.database_rate_limiter.last_allowed is None,
            r.trace_log == trace_log,
    {
        ClientRepo {
            authenticate_rate_limiter: IpRateLimiter::new(authenticate),
            database_rate_limiter: RateLimiter::new(DATABASE_RATE_LIMIT_MS),
            trace_log,
        }
    }

    /// Client websocket disconnected: the bound channel demotes its player to
    /// limbo; a stray channel (for instance one already evicted by a
    /// re-register) changes nothing.
    pub fn unregister(
        &mut self,
        players: &mut PlayerRepo,
        player_id: PlayerId,
        channel: ChannelId,
        limbo_ms: u64,
        now: u64,
    )
        requires
            old(players).wf(),
        ensures
            final(players).wf(),
            *final(self) == *old(self),
            final(players).players@.len() == old(players).players@.len(),
            forall|j: int|
                0 <= j < old(players).players@.len() && (old(players).players@[j].player_id
                    != player_id || old(players).players@[j].client is None)
                    ==> final(players).players@[j] == old(players).players@[j],
            forall|j: int|
                0 <= j < old(players).players@.len() && old(players).players@[j].player_id
                    == player_id && old(players).players@[j].client is Some ==> {
                    let c0 = old(players).players@[j].client->Some_0;
                    let p1 = final(players).players@[j];
                    &&& p1 == Player { client: p1.client, ..old(players).players@[j] }
                    &&& p1.client is Some
                    &&& p1.client->Some_0 == PlayerClientData {
                        status: unregister_status(c0.status, channel, now, limbo_ms),
                        ..c0
                    }
                },
    {
        let i = match players.find(player_id) {
            Some(i) => i,
            None => {
                return ;
            },
        };
        let ghost s0 = players.players@;
        let mut row = players.players.remove(i);
        match row.client {
            Some(mut client) => {
                let new_status = match client.status {
                    ClientStatus::Connected { channel: bound } => {
                        if bound.0 == channel.0 {
                            ClientStatus::Limbo {
                                expiry: crate::status::sat_add_exec(now, limbo_ms),
                            }
                        } else {
                            client.status
                        }
                    },
                    other => other,
                };
                client.status = new_status;
                row.client = Some(client);
                let ghost row1 = row;
                players.players.insert(i, row);
                proof {
                    assert(final(players).players@ =~= s0.update(i as int, row1));
                    crate::player::lemma_wf_update(s0, i as int, row1);
                    assert forall|j: int|
                        0 <= j < s0.len() && s0[j].player_id == player_id && s0[j].client is Some
                        implies j == i as int by {
                        if j != i as int {
                            assert(s0[j].player_id != s0[i as int].player_id);
                        }
                    }
                }
            },
            None => {
                let ghost row1 = row;
                players.players.insert(i, row);
                proof {
                    assert(final(players).players@ =~= s0);
                }
            },
        }
    }

    /// Records the round-trip time the transport measured for this player.
    /// Unknown players and bots are ignored.
    pub fn handle_observer_rtt(&mut self, players: &mut PlayerRepo, player_id: PlayerId, rtt: u16)
        requires
            old(players).wf(),
        ensures
            final(players).wf(),
            *final(self) == *old(self),
            final(players).players@.len() == old(players).players@.len(),
            forall|j: int|
                0 <= j < old(players).players@.len() && (old(players).players@[j].player_id
                    != player_id || old(players).players@[j].client is None)
                    ==> final(players).players@[j] == old(players).players@[j],
            forall|j: int|
                0 <= j < old(players).players@.len() && old(players).players@[j].player_id
                    == player_id && old(players).players@[j].client is Some ==> {
                    let c0 = old(players).players@[j].client->Some_0;
                    let p1 = final(players).players@[j];
                    &&& p1 == Player { client: p1.client, ..old(players).players@[j] }
                    &&& p1.client is Some
                    &&& p1.client->Some_0 == PlayerClientData {
                        metrics: crate::session::ClientMetricData {
                            rtt: Some(rtt),
                            ..c0.metrics
                        },
                        ..c0
                    }
                },
    {
        let i = match players.find(player_id) {
            Some(i) => i,
            None => {
                return ;
            },
        };
        let ghost s0 = players.players@;
        let mut row = players.players.remove(i);
        match row.client {
            Some(mut client) => {
                client.metrics.rtt = Some(rtt);
                row.client = Some(client);
                let ghost row1 = row;
                players.players.insert(i, row);
                proof {
                    assert(final(players).players@ =~= s0.update(i as int, row1));
                    crate::player::lemma_wf_update(s0, i as int, row1);
                    assert forall|j: int|
                        0 <= j < s0.len() && s0[j].player_id == player_id && s0[j].client is Some
                        implies j == i as int by {
                        if j != i as int {
                            assert(s0[j].player_id != s0[i as int].player_id);
                        }
                    }
                }
            },
            None => {
                let ghost row1 = row;
                players.players.insert(i, row);
                proof {
                    assert(final(players).players@ =~= s0);
                }
            },
        }
    }

    /// Request a different alias; rejected while the player has been alive
    /// for longer than the grace period. The stored and echoed alias is the
    /// sanitized form of the request.
    pub fn set_alias(
        players: &mut PlayerRepo,
        player_id: PlayerId,
        alias: Vec<u8>,
        now: u64,
    ) -> (r: Result<ClientUpdate, ClientError>)
        requires
            old(players).wf(),
        ensures
            final(players).wf(),
            set_alias_post(
                old(players).players@,
                final(players).players@,
                player_id,
                alias@,
                now,
                r,
            ),
    {
        let ghost s0 = players.players@;
        let i = match players.find(player_id) {
            Some(i) => i,
            None => {
                return Err(ClientError::PlayerDoesntExist);
            },
        };
        proof {
            crate::player::lemma_index_of(s0, player_id, i as int);
        }
        let blocked = match players.players[i].alive_since {
            Some(t) => now >= t && now - t > ALIAS_ALIVE_GRACE_MS,
            None => false,
        };
        if blocked {
            return Err(ClientError::CannotChangeAliasWhileAlive);
        }
        let mut row = players.players.remove(i);
        match row.client {
            Some(mut client) => {
                let censored = Alias::new_sanitized(alias.as_slice());
                client.alias = censored.duplicate();
                row.client = Some(client);
                let ghost row1 = row;
                players.players.insert(i, row);
                proof {
                    assert(final(players).players@ =~= s0.update(i as int, row1));
                    crate::player::lemma_wf_update(s0, i as int, row1);
                }
                Ok(ClientUpdate::AliasSet(censored))
            },
            None => {
                let ghost row1 = row;
                players.players.insert(i, row);
                proof {
                    assert(final(players).players@ =~= s0);
                }
                Err(ClientError::OnlyClientsCanSetAlias)
            },
        }
    }

    /// Record client frames per second for statistics. Non-finite reports
    /// (`None`) are rejected and change nothing; finite ones are clamped.
    pub fn tally_fps(players: &mut PlayerRepo, player_id: PlayerId, fps: Option<i64>) -> (r:
        Result<ClientUpdate, ClientError>)
        requires
            old(players).wf(),
        ensures
            final(players).wf(),
            tally_fps_post(old(players).players@, final(players).players@, player_id, fps, r),
    {
        let ghost s0 = players.players@;
        let i = match players.find(player_id) {
            Some(i) => i,
            None => {
                return Err(ClientError::PlayerDoesntExist);
            },
        };
        proof {
            crate::player::lemma_index_of(s0, player_id, i as int);
        }
        let mut row = players.players.remove(i);
        match row.client {
            Some(mut client) => {
                match fps {
                    Some(v) => {
                        let clamped: u32 = if v < 0 {
                            0
                        } else if v > FPS_MAX_CENTI {
                            FPS_MAX_CENTI as u32
                        } else {
                            v as u32
                        };
                        client.metrics.fps = Some(clamped);
                        row.client = Some(client);
                        let ghost row1 = row;
                        players.players.insert(i, row);
                        proof {
                            assert(final(players).players@ =~= s0.update(i as int, row1));
                            crate::player::lemma_wf_update(s0, i as int, row1);
                        }
                        Ok(ClientUpdate::FpsTallied)
                    },
                    None => {
                        row.client = Some(client);
                        let ghost row1 = row;
                        players.players.insert(i, row);
                        proof {
                            assert(final(players).players@ =~= s0);
                        }
                        Err(ClientError::InvalidFps)
                    },
                }
            },
            None => {
                let ghost row1 = row;
                players.players.insert(i, row);
                proof {
                    assert(final(players).players@ =~= s0);
                }
                Err(ClientError::OnlyClientsCanTallyFps)
            },
        }
    }

    /// Accept one client-side error report: overlong reports and reports
    /// beyond the per-client cap are refused, and a refusal appends nothing.
    /// An accepted report returns the line for the process to append.
    pub fn trace(players: &mut PlayerRepo, player_id: PlayerId, message: Vec<u8>) -> (r: Result<
        (ClientUpdate, TraceLine),
        ClientError,
    >)
        requires
            old(players).wf(),
        ensures
            final(players).wf(),
            trace_post(old(players).players@, final(players).players@, player_id, message@, r),
    {
        let ghost s0 = players.players@;
        let i = match players.find(player_id) {
            Some(i) => i,
            None => {
                return Err(ClientError::PlayerDoesntExist);
            },
        };
        proof {
            crate::player::lemma_index_of(s0, player_id, i as int);
        }
        let mut row = players.players.remove(i);
        match row.client {
            Some(mut client) => {
                if message.len() > TRACE_MAX_LEN {
                    row.client = Some(client);
                    players.players.insert(i, row);
                    proof {
                        assert(final(players).players@ =~= s0);
                    }
                    Err(ClientError::TraceTooLong)
                } else if client.traces < TRACE_CAP {
                    let line = TraceLine {
                        referrer: client.metrics.referrer,
                        region_id: client.metrics.region_id,
                        user_agent_id: client.metrics.user_agent_id,
                        message,
                    };
                    client.traces = client.traces + 1;
                    row.client = Some(client);
                    let ghost row1 = row;
                    players.players.insert(i, row);
                    proof {
                        assert(final(players).players@ =~= s0.update(i as int, row1));
                        crate::player::lemma_wf_update(s0, i as int, row1);
                    }
                    Ok((ClientUpdate::Traced, line))
                } else {
                    row.client = Some(client);
                    players.players.insert(i, row);
                    proof {
                        assert(final(players).players@ =~= s0);
                    }
                    Err(ClientError::TooManyTraces)
                }
            },
            None => {
                players.players.insert(i, row);
                proof {
                    assert(final(players).players@ =~= s0);
                }
                Err(ClientError::OnlyClientsCanTrace)
            },
        }
    }

    /// Routes the requests the core owns itself.
    pub fn handle_client_request(
        &self,
        players: &mut PlayerRepo,
        player_id: PlayerId,
        request: ClientRequest,
        now: u64,
    ) -> (r: Result<(ClientUpdate, Option<TraceLine>), ClientError>)
        requires
            old(players).wf(),
        ensures
            final(players).wf(),
            r matches Err(_) ==> final(players).players@ == old(players).players@,
            match request {
                ClientRequest::SetAlias(alias) => {
                    &&& (r matches Ok((u, line)) ==> line is None)
                    &&& set_alias_post(
                        old(players).players@,
                        final(players).players@,
                        player_id,
                        alias@,
                        now,
                        match r {
                            Ok((u, _)) => Ok(u),
                            Err(e) => Err(e),
                        },
                    )
                },
                ClientRequest::TallyFps(fps) => {
                    &&& (r matches Ok((u, line)) ==> line is None)
                    &&& tally_fps_post(
                        old(players).players@,
                        final(players).players@,
                        player_id,
                        fps,
                        match r {
                            Ok((u, _)) => Ok(u),
                            Err(e) => Err(e),
                        },
                    )
                },
                ClientRequest::Trace { message } => match r {
                    Ok((u, line)) => line matches Some(l) && trace_post(
                        old(players).players@,
                        final(players).players@,
                        player_id,
                        message@,
                        Ok((u, l)),
                    ),
                    Err(e) => trace_post(
                        old(players).players@,
                        final(players).players@,
                        player_id,
                        message@,
                        Err(e),
                    ),
                },
            },
    {
        match request {
            ClientRequest::SetAlias(alias) => match Self::set_alias(players, player_id, alias, now) {
                Ok(u) => Ok((u, None)),
                Err(e) => Err(e),
            },
            ClientRequest::TallyFps(fps) => match Self::tally_fps(players, player_id, fps) {
                Ok(u) => Ok((u, None)),
                Err(e) => Err(e),
            },
            ClientRequest::Trace { message } => match Self::trace(players, player_id, message) {
                Ok((u, line)) => Ok((u, Some(line))),
                Err(e) => Err(e),
            },
        }
    }

    /// Forwards a game command for an existing player; commands addressed to
    /// unknown players are refused.
    pub fn handle_game_command(players: &PlayerRepo, player_id: PlayerId, command: u64) -> (r:
        Result<Delegation, ClientError>)
        ensures
            r == if contains_player(players.players@, player_id) {
                Ok::<Delegation, ClientError>(Delegation::Game { command })
            } else {
                Err::<Delegation, ClientError>(ClientError::NonexistentObserver)
            },
    {
        if players.contains(player_id) {
            Ok(Delegation::Game { command })
        } else {
            Err(ClientError::NonexistentObserver)
        }
    }

    /// Routes one player-addressed request: requests the core owns are
    /// answered here; every other variant is delegated to its subsystem.
    pub fn handle_observer_request(
        &self,
        players: &mut PlayerRepo,
        player_id: PlayerId,
        request: Request,
        now: u64,
    ) -> (r: Result<DispatchOutcome, ClientError>)
        requires
            old(players).wf(),
        ensures
            final(players).wf(),
            r matches Err(_) ==> final(players).players@ == old(players).players@,
            match request {
                Request::Game(command) => final(players).players@ == old(players).players@ && r
                    == if contains_player(old(players).players@, player_id) {
                    Ok::<DispatchOutcome, ClientError>(DispatchOutcome {
                        reply: None,
                        trace_line: None,
                        delegation: Some(Delegation::Game { command }),
                    })
                } else {
                    Err::<DispatchOutcome, ClientError>(ClientError::NonexistentObserver)
                },
                Request::Client(req) => {
                    &&& (r matches Ok(o) ==> o.reply matches Some(u) && u is Client
                        && o.delegation is None)
                    &&& (match req {
                        ClientRequest::SetAlias(alias) => set_alias_post(
                            old(players).players@,
                            final(players).players@,
                            player_id,
                            alias@,
                            now,
                            match r {
                                Ok(o) => Ok(o.reply->Some_0->Client_0),
                                Err(e) => Err(e),
                            },
                        ),
                        ClientRequest::TallyFps(fps) => tally_fps_post(
                            old(players).players@,
                            final(players).players@,
                            player_id,
                            fps,
                            match r {
                                Ok(o) => Ok(o.reply->Some_0->Client_0),
                                Err(e) => Err(e),
                            },
                        ),
                        ClientRequest::Trace { message } => match r {
                            Ok(o) => o.trace_line matches Some(l) && trace_post(
                                old(players).players@,
                                final(players).players@,
                                player_id,
                                message@,
                                Ok((o.reply->Some_0->Client_0, l)),
                            ),
                            Err(e) => trace_post(
                                old(players).players@,
                                final(players).players@,
                                player_id,
                                message@,
                                Err(e),
                            ),
                        },
                    })
                },
                Request::Chat(q) => final(players).players@ == old(players).players@ && r
                    == Ok::<DispatchOutcome, ClientError>(DispatchOutcome {
                    reply: None,
                    trace_line: None,
                    delegation: Some(Delegation::Chat { request: q }),
                }),
                Request::Invitation(q) => final(players).players@ == old(players).players@ && r
                    == Ok::<DispatchOutcome, ClientError>(DispatchOutcome {
                    reply: None,
                    trace_line: None,
                    delegation: Some(Delegation::Invitation { request: q }),
                }),
                Request::Player(q) => final(players).players@ == old(players).players@ && r
                    == Ok::<DispatchOutcome, ClientError>(DispatchOutcome {
                    reply: None,
                    trace_line: None,
                    delegation: Some(Delegation::Player { request: q }),
                }),
                Request::Team(q) => final(players).players@ == old(players).players@ && r
                    == Ok::<DispatchOutcome, ClientError>(DispatchOutcome {
                    reply: None,
                    trace_line: None,
                    delegation: Some(Delegation::Team { request: q }),
                }),
            },
    {
        match request {
            Request::Game(command) => match Self::handle_game_command(players, player_id, command) {
                Ok(d) => Ok(DispatchOutcome { reply: None, trace_line: None, delegation: Some(d) }),
                Err(e) => Err(e),
            },
            Request::Client(req) => match self.handle_client_request(players, player_id, req, now) {
                Ok((u, line)) => Ok(
                    DispatchOutcome {
                        reply: Some(Update::Client(u)),
                        trace_line: line,
                        delegation: None,
                    },
                ),
                Err(e) => Err(e),
            },
            Request::Chat(q) => Ok(
                DispatchOutcome {
                    reply: None,
                    trace_line: None,
                    delegation: Some(Delegation::Chat { request: q }),
                },
            ),
            Request::Invitation(q) => Ok(
                DispatchOutcome {
                    reply: None,
                    trace_line: None,
                    delegation: Some(Delegation::Invitation { request: q }),
                },
            ),
            Request::Player(q) => Ok(
                DispatchOutcome {
                    reply: None,
                    trace_line: None,
                    delegation: Some(Delegation::Player { request: q }),
                },
            ),
            Request::Team(q) => Ok(
                DispatchOutcome {
                    reply: None,
                    trace_line: None,
                    delegation: Some(Delegation::Team { request: q }),
                },
            ),
        }
    }
}

/// The send that delivers `update` to the originating player's channel, if
/// that player is currently connected; replies are never sent elsewhere.
pub fn reply_to(players: &PlayerRepo, player_id: PlayerId, update: Update) -> (r: Option<Outbound>)
    requires
        players.wf(),
    ensures
        ({
            let s = players.players@;
            let i = index_of_player(s, player_id);
            if contains_player(s, player_id) && s[i].client is Some && s[i].client->Some_0.status
                is Connected {
                r == Some(
                    Outbound {
                        channel: s[i].client->Some_0.status->Connected_channel,
                        update: ObserverUpdate::Send { message: update },
                    },
                )
            } else {
                r is None
            }
        }),
{
    let ghost s0 = players.players@;
    let i = match players.find(player_id) {
        Some(i) => i,
        None => {
            return None;
        },
    };
    proof {
        crate::player::lemma_index_of(s0, player_id, i as int);
    }
    match &players.players[i].client {
        Some(client) => match &client.status {
            ClientStatus::Connected { channel } => Some(
                Outbound { channel: *channel, update: ObserverUpdate::Send { message: update } },
            ),
            _ => None,
        },
        None => None,
    }
}

} // verus!
