//! The authenticator: admits a connection under the IP rate limit, resolves
//! or allocates its `(session id, player id)` pair, and creates or renews
//! the client record.
//!
//! The durable store is asynchronous, so admission is split: the process
//! calls `begin_authenticate`, performs the store read that `AuthStep` may
//! ask for, and hands what it learned back to `finish_authenticate`. No
//! record is touched in between.

use vstd::prelude::*;

use vstd::set_lib::{lemma_int_range, lemma_len_subset, set_int_range};

use crate::client::ClientRepo;
use crate::ids::{
    ArenaId, InvitationId, IpAddress, PlayerId, Referrer, SessionId, UserAgentId, BOT_ID_MIN,
};
use crate::player::{
    contains_player, index_of_player, session_in_use, InvitationDto, Player, PlayerClientData,
    PlayerRepo,
};
use crate::protocol::ClientError;
use crate::session::ClientMetricData;

verus! {

/// What a client presents to be admitted.
#[derive(Clone, Copy, Debug, PartialEq, Eq)]
pub struct Authenticate {
    /// Client ip address, if the transport knows it.
    pub ip_address: Option<IpAddress>,
    pub user_agent_id: Option<UserAgentId>,
    pub referrer: Option<Referrer>,
    /// Last valid credentials, if the client kept any.
    pub arena_id_session_id: Option<(ArenaId, SessionId)>,
    pub invitation_id: Option<InvitationId>,
}

/// What the admission decided before any store read.
#[derive(Clone, Copy, Debug, PartialEq, Eq, Structural)]
pub enum AuthStep {
    /// The presented session is already in memory; no store read is needed.
    Cached { session_id: SessionId, player_id: PlayerId },
    /// Fetch the stored item under this key, then resolve.
    NeedStore { arena_id: ArenaId, session_id: SessionId },
    /// No credentials were presented; allocate afresh.
    Fresh,
}

/// What the store read yielded. A read failure counts as no prior session.
#[derive(Clone, Debug, PartialEq, Eq)]
pub enum AuthResolution {
    Cached { session_id: SessionId, player_id: PlayerId },
    Stored(crate::session::SessionItem),
    Fresh,
}

/// The player id that owns `sid`, when some client is bound to it.
pub open spec fn session_owner(s: Seq<Player>, sid: SessionId) -> PlayerId {
    let i = choose|i: int| 0 <= i < s.len() && s[i].client is Some && s[i].session_id() == sid;
    s[i].player_id
}

/// The step the admission takes for credentials `pair` against the current
/// arena and table.
pub open spec fn auth_step_for(
    s: Seq<Player>,
    pair: Option<(ArenaId, SessionId)>,
    arena_id: ArenaId,
) -> AuthStep {
    match pair {
        None => AuthStep::Fresh,
        Some((a, sid)) => if a == arena_id && session_in_use(s, sid) {
            AuthStep::Cached { session_id: sid, player_id: session_owner(s, sid) }
        } else {
            AuthStep::NeedStore { arena_id: a, session_id: sid }
        },
    }
}

/// The ids the resolution carries, if any.
pub open spec fn resolved_ids(resolution: AuthResolution) -> Option<(SessionId, PlayerId)> {
    match resolution {
        AuthResolution::Cached { session_id, player_id } => Some((session_id, player_id)),
        AuthResolution::Stored(it) => Some((it.session_id, it.player_id)),
        AuthResolution::Fresh => None,
    }
}

/// The metric counters a record admitted at `now` starts with: fresh ones,
/// supplemented from the stored item when the session was restored.
pub open spec fn auth_metrics(
    resolution: AuthResolution,
    referrer: Option<Referrer>,
    user_agent_id: Option<UserAgentId>,
    now: u64,
) -> ClientMetricData {
    let base = ClientMetricData {
        date_created: now,
        date_previous: None,
        date_renewed: now,
        plays: 0,
        previous_plays: 0,
        session_id_previous: None,
        referrer,
        user_agent_id,
        region_id: None,
        rtt: None,
        fps: None,
    };
    match resolution {
        AuthResolution::Stored(it) => ClientMetricData {
            date_created: it.date_created,
            date_previous: Some(it.date_renewed),
            previous_plays: it.plays,
            session_id_previous: Some(it.session_id),
            ..base
        },
        _ => base,
    }
}

/// Whether a resolution's ids can be adopted as-is for a new record: the
/// player id is vacant and no bot's, and the session id is not in use. A
/// stored item that fails this is treated as no prior session, which keeps
/// the table's identity invariants whatever the store returns.
pub open spec fn adoptable(s: Seq<Player>, sid: SessionId, pid: PlayerId) -> bool {
    &&& !contains_player(s, pid)
    &&& !pid.spec_is_bot()
    &&& !session_in_use(s, sid)
}

/// Relies on rand::random: an unguessable uniformly drawn value. Nothing is
/// promised of it; callers check what they need on every outcome.
#[verifier::external_body]
fn random_u64() -> u64 {
    rand::random::<u64>()
}

/// The session ids in use, as mathematical integers, in table order.
pub open spec fn client_sids(s: Seq<Player>) -> Seq<int>
    decreases s.len(),
{
    if s.len() == 0 {
        Seq::empty()
    } else {
        (if s[0].client is Some {
            seq![s[0].session_id().0 as int]
        } else {
            Seq::<int>::empty()
        }) + client_sids(s.drop_first())
    }
}

proof fn lemma_client_sids_len(s: Seq<Player>)
    ensures
        client_sids(s).len() <= s.len(),
    decreases s.len(),
{
    if s.len() > 0 {
        lemma_client_sids_len(s.drop_first());
    }
}

proof fn lemma_client_sids_contains(s: Seq<Player>, sid: SessionId)
    requires
        session_in_use(s, sid),
    ensures
        client_sids(s).contains(sid.0 as int),
    decreases s.len(),
{
    let i = choose|i: int| 0 <= i < s.len() && s[i].client is Some && s[i].session_id() == sid;
    if i == 0 {
        assert(client_sids(s)[0] == sid.0 as int);
    } else {
        assert(s.drop_first()[i - 1] == s[i]);
        assert(session_in_use(s.drop_first(), sid));
        lemma_client_sids_contains(s.drop_first(), sid);
        let j = choose|j: int| 0 <= j < client_sids(s.drop_first()).len() && client_sids(
            s.drop_first(),
        )[j] == sid.0 as int;
        let head = if s[0].client is Some {
            1int
        } else {
            0int
        };
        assert(client_sids(s)[j + head] == sid.0 as int);
    }
}

/// Draws a session id no coexisting client holds: random draws first, and,
/// should those all collide, the smallest free small id — one of the first
/// `n + 1` values is always free among `n` clients.
fn alloc_session_id(players: &PlayerRepo) -> (r: SessionId)
    requires
        players.players@.len() < usize::MAX,
    ensures
        !session_in_use(players.players@, r),
{
    let mut t: usize = 0;
    while t < 64
        decreases 64 - t,
    {
        let candidate = SessionId(random_u64());
        if players.find_by_session(candidate).is_none() {
            return candidate;
        }
        t = t + 1;
    }
    let n = players.players.len();
    let mut c: u64 = 0;
    while c <= n as u64
        invariant
            n == players.players@.len() < usize::MAX,
            c <= n as u64 + 1,
            forall|x: u64| x < c ==> session_in_use(players.players@, SessionId(x)),
        decreases n as u64 + 1 - c,
    {
        let candidate = SessionId(c);
        if players.find_by_session(candidate).is_none() {
            return candidate;
        }
        c = c + 1;
    }
    proof {
        let s = players.players@;
        let sids = client_sids(s);
        let m = s.len() as int;
        assert forall|x: int| 0 <= x < m + 1 implies sids.to_set().contains(x) by {
            assert(session_in_use(s, SessionId(x as u64)));
            lemma_client_sids_contains(s, SessionId(x as u64));
        }
        assert(set_int_range(0, m + 1).subset_of(sids.to_set()));
        lemma_int_range(0, m + 1);
        sids.lemma_cardinality_of_set();
        lemma_client_sids_len(s);
        lemma_len_subset(set_int_range(0, m + 1), sids.to_set());
        assert(false);
    }
    unreached()
}

/// Draws a player id that is vacant and is no bot's: random draws from the
/// non-bot space first, then the smallest free small id.
fn alloc_player_id(players: &PlayerRepo) -> (r: PlayerId)
    requires
        players.players@.len() < BOT_ID_MIN as usize,
    ensures
        !contains_player(players.players@, r),
        !r.spec_is_bot(),
{
    let mut t: usize = 0;
    while t < 64
        decreases 64 - t,
    {
        let candidate = PlayerId((random_u64() % (BOT_ID_MIN as u64)) as u32);
        if !players.contains(candidate) {
            return candidate;
        }
        t = t + 1;
    }
    let n = players.players.len();
    let mut c: u32 = 0;
    while c <= n as u32
        invariant
            n == players.players@.len() < BOT_ID_MIN as usize,
            c <= n as u32 + 1,
            forall|x: u32| x < c ==> contains_player(players.players@, PlayerId(x)),
        decreases n as u32 + 1 - c,
    {
        let candidate = PlayerId(c);
        if !players.contains(candidate) {
            return candidate;
        }
        c = c + 1;
    }
    proof {
        let s = players.players@;
        let pids = s.map_values(|p: Player| p.player_id.0 as int);
        let m = s.len() as int;
        assert forall|x: int| 0 <= x < m + 1 implies pids.to_set().contains(x) by {
            assert(contains_player(s, PlayerId(x as u32)));
            let i = choose|i: int| 0 <= i < s.len() && s[i].player_id == PlayerId(x as u32);
            assert(pids[i] == x);
        }
        assert(set_int_range(0, m + 1).subset_of(pids.to_set()));
        lemma_int_range(0, m + 1);
        pids.lemma_cardinality_of_set();
        lemma_len_subset(set_int_range(0, m + 1), pids.to_set());
        assert(false);
    }
    unreached()
}

impl ClientRepo {
    /// First half of admission: applies the IP rate limit, then says whether
    /// the presented session is already in memory, must be fetched from the
    /// store, or is absent.
    pub fn begin_authenticate(
        &mut self,
        players: &PlayerRepo,
        msg: &Authenticate,
        arena_id: ArenaId,
        now: u64,
    ) -> (r: Result<AuthStep, ClientError>)
        requires
            old(self).authenticate_rate_limiter.wf(),
            players.wf(),
        ensures
            final(self).authenticate_rate_limiter.wf(),
            final(self).authenticate_rate_limiter.props == old(self).authenticate_rate_limiter.props,
            final(self).database_rate_limiter == old(self).database_rate_limiter,
            final(self).trace_log == old(self).trace_log,
            match msg.ip_address {
                None => final(self).authenticate_rate_limiter == old(
                    self,
                ).authenticate_rate_limiter && r == Ok::<AuthStep, ClientError>(
                    auth_step_for(players.players@, msg.arena_id_session_id, arena_id),
                ),
                Some(ip) => {
                    &&& final(self).authenticate_rate_limiter.ip_state(ip) == Some(
                        old(self).authenticate_rate_limiter.spec_next(ip, now),
                    )
                    &&& forall|other: IpAddress|
                        other != ip ==> final(self).authenticate_rate_limiter.ip_state(other)
                            == old(self).authenticate_rate_limiter.ip_state(other)
                    &&& r == if old(self).authenticate_rate_limiter.spec_limited(ip, now) {
                        Err::<AuthStep, ClientError>(ClientError::RateLimited)
                    } else {
                        Ok::<AuthStep, ClientError>(
                            auth_step_for(players.players@, msg.arena_id_session_id, arena_id),
                        )
                    }
                },
            },
    {
        match msg.ip_address {
            Some(ip) => {
                if self.authenticate_rate_limiter.should_limit_rate(ip, now) {
                    return Err(ClientError::RateLimited);
                }
            },
            None => {},
        }
        match msg.arena_id_session_id {
            None => Ok(AuthStep::Fresh),
            Some((a, sid)) => {
                if a.0 == arena_id.0 {
                    match players.find_by_session(sid) {
                        Some(i) => {
                            proof {
                                let s = players.players@;
                                let j = choose|j: int|
                                    0 <= j < s.len() && s[j].client is Some && s[j].session_id()
                                        == sid;
                                if j != i as int {
                                    assert(s[j].session_id() != s[i as int].session_id());
                                }
                            }
                            Ok(
                                AuthStep::Cached {
                                    session_id: sid,
                                    player_id: players.players[i].player_id,
                                },
                            )
                        },
                        None => Ok(AuthStep::NeedStore { arena_id: a, session_id: sid }),
                    }
                } else {
                    Ok(AuthStep::NeedStore { arena_id: a, session_id: sid })
                }
            },
        }
    }

    /// Second half of admission, after any store read: renews the record of
    /// a returning player, or creates a pending record under ids that are
    /// unique in the table — restored from the resolution when they can be
    /// adopted, freshly allocated otherwise. Returns the player id admitted.
    pub fn finish_authenticate(
        players: &mut PlayerRepo,
        referrer: Option<Referrer>,
        user_agent_id: Option<UserAgentId>,
        invitation: Option<InvitationDto>,
        resolution: AuthResolution,
        now: u64,
    ) -> (r: PlayerId)
        requires
            old(players).wf(),
            old(players).players@.len() < BOT_ID_MIN as usize,
        ensures
            final(players).wf(),
            ({
                let s = old(players).players@;
                match resolved_ids(resolution) {
                    Some((sid, pid)) if contains_player(s, pid) => {
                        let i = index_of_player(s, pid);
                        &&& r == pid
                        &&& if s[i].client is Some {
                            &&& final(players).players@.len() == s.len()
                            &&& forall|j: int|
                                0 <= j < s.len() && j != i ==> final(players).players@[j] == s[j]
                            &&& {
                                let c0 = s[i].client->Some_0;
                                let p1 = final(players).players@[i];
                                &&& p1 == Player { client: p1.client, ..s[i] }
                                &&& p1.client is Some
                                &&& p1.client->Some_0 == PlayerClientData {
                                    metrics: ClientMetricData { date_renewed: now, ..c0.metrics },
                                    ..c0
                                }
                            }
                        } else {
                            final(players).players@ == s
                        }
                    },
                    _ => {
                        let row = final(players).players@.last();
                        &&& final(players).players@ == s.push(row)
                        &&& row.player_id == r
                        &&& row.alive_since is None
                        &&& !contains_player(s, r)
                        &&& !r.spec_is_bot()
                        &&& row.client is Some
                        &&& {
                            let c = row.client->Some_0;
                            &&& !session_in_use(s, c.session_id)
                            &&& (match resolved_ids(resolution) {
                                Some((sid, pid)) => adoptable(s, sid, pid) ==> c.session_id == sid
                                    && r == pid,
                                None => true,
                            })
                            &&& c.alias.bytes@ == crate::session::default_alias_bytes()
                            &&& c.status == (crate::status::ClientStatus::Pending {
                                expiry: crate::status::sat_add(now, crate::PENDING_EXPIRY_MS),
                            })
                            &&& c.session_item is None
                            &&& c.metrics == auth_metrics(resolution, referrer, user_agent_id, now)
                            &&& c.invitation == invitation
                            &&& c.chat_state == 0
                            &&& c.team_state == 0
                            &&& c.reported@ == Seq::<PlayerId>::empty()
                            &&& c.traces == 0
                            &&& c.data == 0
                        }
                    },
                }
            }),
    {
        let ghost s = players.players@;
        let mut metrics = ClientMetricData::new(referrer, user_agent_id, now);
        let presented: Option<(SessionId, PlayerId)> = match &resolution {
            AuthResolution::Cached { session_id, player_id } => Some((*session_id, *player_id)),
            AuthResolution::Stored(item) => {
                metrics.supplement(item);
                Some((item.session_id, item.player_id))
            },
            AuthResolution::Fresh => None,
        };
        match presented {
            Some((sid, pid)) => {
                match players.find(pid) {
                    Some(i) => {
                        proof {
                            crate::player::lemma_index_of(s, pid, i as int);
                        }
                        let mut row = players.players.remove(i);
                        match row.client {
                            Some(mut client) => {
                                client.metrics.date_renewed = now;
                                row.client = Some(client);
                                let ghost row1 = row;
                                players.players.insert(i, row);
                                proof {
                                    assert(players.players@ =~= s.update(i as int, row1));
                                    crate::player::lemma_wf_update(s, i as int, row1);
                                }
                            },
                            None => {
                                players.players.insert(i, row);
                                proof {
                                    assert(players.players@ =~= s);
                                }
                            },
                        }
                        pid
                    },
                    None => {
                        let session_free = players.find_by_session(sid).is_none();
                        let (use_sid, use_pid) = if !pid.is_bot() && session_free {
                            (sid, pid)
                        } else {
                            let fresh_sid = alloc_session_id(players);
                            let fresh_pid = alloc_player_id(players);
                            (fresh_sid, fresh_pid)
                        };
                        let client = PlayerClientData::new(use_sid, metrics, invitation, now);
                        let row = Player { player_id: use_pid, client: Some(client), alive_since: None };
                        let ghost row1 = row;
                        players.players.push(row);
                        proof {
                            crate::player::lemma_wf_push(s, row1);
                            assert(final(players).players@.last() == row1);
                        }
                        use_pid
                    },
                }
            },
            None => {
                let fresh_sid = alloc_session_id(players);
                let fresh_pid = alloc_player_id(players);
                let client = PlayerClientData::new(fresh_sid, metrics, invitation, now);
                let row = Player { player_id: fresh_pid, client: Some(client), alive_since: None };
                let ghost row1 = row;
                players.players.push(row);
                proof {
                    crate::player::lemma_wf_push(s, row1);
                    assert(final(players).players@.last() == row1);
                }
                fresh_pid
            },
        }
    }
}

} // verus!
