//! The serialized event-loop entry: every inbound transport event lands
//! here, one at a time, and comes back as state changes plus a list of
//! effects for the process to perform — sends, a join notification for the
//! game, delegated subsystem work, a trace line to append, or a warning to
//! log.

use vstd::prelude::*;

use crate::client::{
    set_alias_post, tally_fps_post, trace_post, ClientRepo, Delegation, DispatchOutcome,
};
use crate::ids::PlayerId;
use crate::player::{contains_player, index_of_player, Player, PlayerClientData, PlayerRepo};
use crate::protocol::{
    send_to, ClientError, ClientRequest, ClientUpdate, ObserverMessage, ObserverUpdate, Outbound,
    Request, TraceLine, Update,
};
use crate::register::{register_messages, RegisterSetup};
use crate::status::{unregister_status, ClientStatus};

verus! {

/// The sends that deliver the reply `u` of a dispatched client request:
/// exactly one, to the requesting player's bound channel, or none when that
/// player is not connected.
pub open spec fn reply_sends(s1: Seq<Player>, player_id: PlayerId, u: ClientUpdate) -> Seq<
    Outbound,
> {
    let i = index_of_player(s1, player_id);
    if contains_player(s1, player_id) && s1[i].client is Some && s1[i].client->Some_0.status
        is Connected {
        seq![send_to(s1[i].client->Some_0.status->Connected_channel, Update::Client(u))]
    } else {
        Seq::<Outbound>::empty()
    }
}

/// Everything one handled event asks of the process.
#[derive(Clone, Debug, PartialEq, Eq)]
pub struct HandleEffects {
    /// Sends for the transport, in order.
    pub outbound: Vec<Outbound>,
    /// The game must be told this player joined.
    pub joined: Option<PlayerId>,
    /// Work for a collaborating subsystem, addressed by the requesting
    /// player.
    pub delegation: Option<(PlayerId, Delegation)>,
    /// An accepted error report to append to the trace log.
    pub trace_line: Option<TraceLine>,
    /// A refusal to log; the connection stays open and state is unchanged.
    pub warning: Option<ClientError>,
}

impl ClientRepo {
    /// Handles one inbound event. `setup` carries the initializer payloads
    /// and must be present for register events. Replies of dispatched
    /// requests go only to the requesting player's currently bound channel.
    pub fn handle(
        &mut self,
        players: &mut PlayerRepo,
        msg: ObserverMessage,
        setup: Option<&RegisterSetup>,
        limbo_ms: u64,
        now: u64,
    ) -> (r: HandleEffects)
        requires
            old(players).wf(),
            msg matches ObserverMessage::Register { .. } ==> setup is Some,
        ensures
            final(players).wf(),
            match msg {
                ObserverMessage::Register { player_id, channel } => {
                    let s = old(players).players@;
                    let i = index_of_player(s, player_id);
                    &&& r.delegation is None
                    &&& r.trace_line is None
                    &&& if !contains_player(s, player_id) || s[i].client is None {
                        &&& r.outbound@ == Seq::<Outbound>::empty()
                        &&& r.joined is None
                        &&& final(players).players@ == s
                    } else {
                        let c0 = s[i].client->Some_0;
                        &&& r.joined == if c0.status is Pending || c0.status is Stale {
                            Some(player_id)
                        } else {
                            None::<PlayerId>
                        }
                        &&& r.outbound@ == register_messages(
                            channel,
                            c0.session_id,
                            player_id,
                            *setup->Some_0,
                            c0.status,
                        )
                        &&& final(players).players@.len() == s.len()
                        &&& forall|j: int|
                            0 <= j < s.len() && j != i ==> final(players).players@[j] == s[j]
                        &&& {
                            let p1 = final(players).players@[i];
                            &&& p1 == Player { client: p1.client, ..s[i] }
                            &&& p1.client is Some
                            &&& p1.client->Some_0 == PlayerClientData {
                                status: ClientStatus::Connected { channel },
                                chat_state: 0,
                                team_state: 0,
                                data: 0,
                                ..c0
                            }
                        }
                    }
                },
                ObserverMessage::Unregister { player_id, channel } => {
                    let s = old(players).players@;
                    &&& r.outbound@ == Seq::<Outbound>::empty()
                    &&& r.joined is None
                    &&& r.delegation is None
                    &&& r.trace_line is None
                    &&& r.warning is None
                    &&& final(players).players@.len() == s.len()
                    &&& forall|j: int|
                        0 <= j < s.len() && (s[j].player_id != player_id || s[j].client is None)
                            ==> final(players).players@[j] == s[j]
                    &&& forall|j: int|
                        0 <= j < s.len() && s[j].player_id == player_id && s[j].client is Some
                            ==> {
                            let c0 = s[j].client->Some_0;
                            let p1 = final(players).players@[j];
                            &&& p1 == Player { client: p1.client, ..s[j] }
                            &&& p1.client is Some
                            &&& p1.client->Some_0 == PlayerClientData {
                                status: unregister_status(c0.status, channel, now, limbo_ms),
                                ..c0
                            }
                        }
                },
                ObserverMessage::Request { player_id, request } => {
                    let s0 = old(players).players@;
                    let s1 = final(players).players@;
                    &&& r.joined is None
                    &&& (r.warning is Some ==> s1 == s0 && r.outbound@ == Seq::<Outbound>::empty()
                        && r.delegation is None && r.trace_line is None)
                    &&& (match request {
                        Request::Game(command) => r.warning is None ==> r.delegation == Some(
                            (player_id, Delegation::Game { command }),
                        ),
                        Request::Chat(q) => r.warning is None && r.delegation == Some(
                            (player_id, Delegation::Chat { request: q }),
                        ),
                        Request::Invitation(q) => r.warning is None && r.delegation == Some(
                            (player_id, Delegation::Invitation { request: q }),
                        ),
                        Request::Player(q) => r.warning is None && r.delegation == Some(
                            (player_id, Delegation::Player { request: q }),
                        ),
                        Request::Team(q) => r.warning is None && r.delegation == Some(
                            (player_id, Delegation::Team { request: q }),
                        ),
                        Request::Client(req) => {
                            &&& r.delegation is None
                            &&& (match req {
                                ClientRequest::SetAlias(alias) => {
                                    &&& (r.warning matches Some(e) ==> set_alias_post(
                                        s0,
                                        s1,
                                        player_id,
                                        alias@,
                                        now,
                                        Err(e),
                                    ))
                                    &&& (r.warning is None ==> exists|u: ClientUpdate|
                                        #[trigger] set_alias_post(s0, s1, player_id, alias@, now, Ok(u))
                                            && r.outbound@ == reply_sends(s1, player_id, u))
                                },
                                ClientRequest::TallyFps(fps) => {
                                    &&& (r.warning matches Some(e) ==> tally_fps_post(
                                        s0,
                                        s1,
                                        player_id,
                                        fps,
                                        Err(e),
                                    ))
                                    &&& (r.warning is None ==> exists|u: ClientUpdate|
                                        #[trigger] tally_fps_post(s0, s1, player_id, fps, Ok(u))
                                            && r.outbound@ == reply_sends(s1, player_id, u))
                                },
                                ClientRequest::Trace { message } => {
                                    &&& (r.warning matches Some(e) ==> trace_post(
                                        s0,
                                        s1,
                                        player_id,
                                        message@,
                                        Err(e),
                                    ) && r.trace_line is None)
                                    &&& (r.warning is None ==> (r.trace_line matches Some(line)
                                        && exists|u: ClientUpdate|
                                        #[trigger] trace_post(s0, s1, player_id, message@, Ok((u, line)))
                                            && r.outbound@ == reply_sends(s1, player_id, u)))
                                },
                            })
                        },
                    })
                    &&& (forall|k: int|
                        0 <= k < r.outbound@.len() ==> {
                            let i = index_of_player(s1, player_id);
                            &&& (#[trigger] r.outbound@[k]).update is Send
                            &&& contains_player(s1, player_id)
                            &&& s1[i].client is Some
                            &&& s1[i].client->Some_0.status matches ClientStatus::Connected {
                                channel,
                            } && r.outbound@[k].channel == channel
                        })
                },
                ObserverMessage::RoundTripTime { player_id, rtt } => {
                    let s = old(players).players@;
                    &&& r.outbound@ == Seq::<Outbound>::empty()
                    &&& r.joined is None
                    &&& r.delegation is None
                    &&& r.trace_line is None
                    &&& r.warning is None
                    &&& final(players).players@.len() == s.len()
                    &&& forall|j: int|
                        0 <= j < s.len() && (s[j].player_id != player_id || s[j].client is None)
                            ==> final(players).players@[j] == s[j]
                    &&& forall|j: int|
                        0 <= j < s.len() && s[j].player_id == player_id && s[j].client is Some
                            ==> {
                            let c0 = s[j].client->Some_0;
                            let p1 = final(players).players@[j];
                            &&& p1 == Player { client: p1.client, ..s[j] }
                            &&& p1.client is Some
                            &&& p1.client->Some_0 == PlayerClientData {
                                metrics: crate::session::ClientMetricData {
                                    rtt: Some(rtt),
                                    ..c0.metrics
                                },
                                ..c0
                            }
                        }
                },
            },
    {
        match msg {
            ObserverMessage::Register { player_id, channel } => {
                let setup_ref = match setup {
                    Some(s) => s,
                    None => {
                        proof {
                            assert(false);
                        }
                        unreached()
                    },
                };
                let outcome = self.register(players, player_id, channel, setup_ref);
                HandleEffects {
                    outbound: outcome.outbound,
                    joined: if outcome.joined {
                        Some(player_id)
                    } else {
                        None
                    },
                    delegation: None,
                    trace_line: None,
                    warning: None,
                }
            },
            ObserverMessage::Unregister { player_id, channel } => {
                self.unregister(players, player_id, channel, limbo_ms, now);
                HandleEffects {
                    outbound: Vec::new(),
                    joined: None,
                    delegation: None,
                    trace_line: None,
                    warning: None,
                }
            },
            ObserverMessage::Request { player_id, request } => {
                match self.handle_observer_request(players, player_id, request, now) {
                    Ok(outcome) => {
                        let DispatchOutcome { reply, trace_line, delegation } = outcome;
                        let mut outbound: Vec<Outbound> = Vec::new();
                        match reply {
                            Some(update) => {
                                match crate::client::reply_to(players, player_id, update) {
                                    Some(send) => {
                                        outbound.push(send);
                                    },
                                    None => {},
                                }
                            },
                            None => {},
                        }
                        HandleEffects {
                            outbound,
                            joined: None,
                            delegation: match delegation {
                                Some(d) => Some((player_id, d)),
                                None => None,
                            },
                            trace_line,
                            warning: None,
                        }
                    },
                    Err(e) => HandleEffects {
                        outbound: Vec::new(),
                        joined: None,
                        delegation: None,
                        trace_line: None,
                        warning: Some(e),
                    },
                }
            },
            ObserverMessage::RoundTripTime { player_id, rtt } => {
                self.handle_observer_rtt(players, player_id, rtt);
                HandleEffects {
                    outbound: Vec::new(),
                    joined: None,
                    delegation: None,
                    trace_line: None,
                    warning: None,
                }
            },
        }
    }
}

} // verus!
