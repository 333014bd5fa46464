//! The player table: one record per player id, holding the client data of
//! every real (non-bot) player.
//!
//! The table's well-formedness carries the core's identity invariants:
//! player ids are unique, no two coexisting clients share a session id, and
//! bots never hold a client record.

use vstd::prelude::*;

use crate::ids::{PlayerId, SessionId};
use crate::session::{Alias, ClientMetricData, SessionItem};
use crate::status::ClientStatus;

verus! {

/// The player that extended an invitation to this client, if any.
#[derive(Clone, Copy, Debug, PartialEq, Eq, Structural)]
pub struct InvitationDto {
    pub player_id: PlayerId,
}

/// Everything the core tracks for one real player.
#[derive(Clone, Debug)]
pub struct PlayerClientData {
    /// Authentication identity of this client.
    pub session_id: SessionId,
    /// Display name, always sanitized.
    pub alias: Alias,
    /// Connection state machine.
    pub status: ClientStatus,
    /// Last item handed to the durable store; equal candidates are not
    /// rewritten.
    pub session_item: Option<SessionItem>,
    pub metrics: ClientMetricData,
    pub invitation: Option<InvitationDto>,
    /// Opaque per-client view state owned by the chat subsystem.
    pub chat_state: u64,
    /// Opaque per-client view state owned by the team subsystem.
    pub team_state: u64,
    /// Players this client has reported.
    pub reported: Vec<PlayerId>,
    /// Error reports accepted so far; capped to limit abuse.
    pub traces: u8,
    /// Opaque per-game scratch owned by the game.
    pub data: u64,
}

impl PlayerClientData {
    /// A freshly admitted client: pending until its first register, with the
    /// default alias and empty per-subsystem state.
    pub fn new(
        session_id: SessionId,
        metrics: ClientMetricData,
        invitation: Option<InvitationDto>,
        now: u64,
    ) -> (r: PlayerClientData)
        ensures
            r.session_id == session_id,
            r.alias.bytes@ == crate::session::default_alias_bytes(),
            r.status == (ClientStatus::Pending {
                expiry: crate::status::sat_add(now, crate::PENDING_EXPIRY_MS),
            }),
            r.session_item is None,
            r.metrics == metrics,
            r.invitation == invitation,
            r.chat_state == 0,
            r.team_state == 0,
            r.reported@ == Seq::<PlayerId>::empty(),
            r.traces == 0,
            r.data == 0,
    {
        PlayerClientData {
            session_id,
            alias: Alias::default_alias(),
            status: ClientStatus::Pending {
                expiry: crate::status::sat_add_exec(now, crate::PENDING_EXPIRY_MS),
            },
            session_item: None,
            metrics,
            invitation,
            chat_state: 0,
            team_state: 0,
            reported: Vec::new(),
            traces: 0,
            data: 0,
        }
    }
}

/// One row of the table. `client` is `None` exactly for bots.
#[derive(Clone, Debug)]
pub struct Player {
    pub player_id: PlayerId,
    pub client: Option<PlayerClientData>,
    /// When the game marked this player alive, if it is.
    pub alive_since: Option<u64>,
}

impl Player {
    /// The bound session id, for rows that have a client.
    pub open spec fn session_id(self) -> SessionId {
        self.client->Some_0.session_id
    }
}

/// No two rows share a player id.
pub open spec fn unique_player_ids(s: Seq<Player>) -> bool {
    forall|i: int, j: int| 0 <= i < j < s.len() ==> s[i].player_id != s[j].player_id
}

/// No two coexisting clients share a session id.
pub open spec fn unique_session_ids(s: Seq<Player>) -> bool {
    forall|i: int, j: int|
        0 <= i < j < s.len() && s[i].client is Some && s[j].client is Some ==> s[i].session_id()
            != s[j].session_id()
}

/// Bots never hold a client record.
pub open spec fn bots_clientless(s: Seq<Player>) -> bool {
    forall|i: int| 0 <= i < s.len() && (#[trigger] s[i].player_id).spec_is_bot() ==> s[i].client is None
}

/// Whether some row carries `pid`.
pub open spec fn contains_player(s: Seq<Player>, pid: PlayerId) -> bool {
    exists|i: int| 0 <= i < s.len() && s[i].player_id == pid
}

/// The index of the row carrying `pid`; meaningful when `contains_player`
/// holds and the ids are unique.
pub open spec fn index_of_player(s: Seq<Player>, pid: PlayerId) -> int {
    choose|i: int| 0 <= i < s.len() && s[i].player_id == pid
}

/// Whether some client is bound to `sid`.
pub open spec fn session_in_use(s: Seq<Player>, sid: SessionId) -> bool {
    exists|i: int| 0 <= i < s.len() && s[i].client is Some && s[i].session_id() == sid
}

/// The in-memory player table.
#[derive(Clone, Debug)]
pub struct PlayerRepo {
    pub players: Vec<Player>,
}

impl PlayerRepo {
    /// The identity invariants every operation of the core preserves.
    pub open spec fn wf(self) -> bool {
        &&& unique_player_ids(self.players@)
        &&& unique_session_ids(self.players@)
        &&& bots_clientless(self.players@)
    }

    pub fn new() -> (r: PlayerRepo)
        ensures
            r.wf(),
            r.players@.len() == 0,
    {
        PlayerRepo { players: Vec::new() }
    }

    /// The row of `pid`, if any.
    pub fn find(&self, pid: PlayerId) -> (r: Option<usize>)
        ensures
            match r {
                Some(i) => i < self.players@.len() && self.players@[i as int].player_id == pid,
                None => !contains_player(self.players@, pid),
            },
    {
        let mut i: usize = 0;
        while i < self.players.len()
            invariant
                i <= self.players@.len(),
                forall|j: int| 0 <= j < i ==> self.players@[j].player_id != pid,
            decreases self.players@.len() - i,
        {
            if self.players[i].player_id.0 == pid.0 {
                return Some(i);
            }
            i = i + 1;
        }
        None
    }

    /// Whether any row carries `pid`.
    pub fn contains(&self, pid: PlayerId) -> (r: bool)
        ensures
            r == contains_player(self.players@, pid),
    {
        self.find(pid).is_some()
    }

    /// The row whose client is bound to `sid`, if any.
    pub fn find_by_session(&self, sid: SessionId) -> (r: Option<usize>)
        ensures
            match r {
                Some(i) => i < self.players@.len() && self.players@[i as int].client is Some
                    && self.players@[i as int].session_id() == sid,
                None => !session_in_use(self.players@, sid),
            },
    {
        let mut i: usize = 0;
        while i < self.players.len()
            invariant
                i <= self.players@.len(),
                forall|j: int|
                    0 <= j < i ==> !(self.players@[j].client is Some && self.players@[j].session_id()
                        == sid),
            decreases self.players@.len() - i,
        {
            match &self.players[i].client {
                Some(client) => {
                    if client.session_id.0 == sid.0 {
                        return Some(i);
                    }
                },
                None => {},
            }
            i = i + 1;
        }
        None
    }
}

/// Law: in a well-formed table no two coexisting clients share a session id,
/// and no bot holds a client record.
pub proof fn lemma_unique_session_ids(repo: PlayerRepo, i: int, j: int)
    requires
        repo.wf(),
        0 <= i < repo.players@.len(),
        0 <= j < repo.players@.len(),
        i != j,
        repo.players@[i].client is Some,
        repo.players@[j].client is Some,
    ensures
        repo.players@[i].session_id() != repo.players@[j].session_id(),
        !repo.players@[i].player_id.spec_is_bot(),
{
    if i < j {
        assert(repo.players@[i].session_id() != repo.players@[j].session_id());
    } else {
        assert(repo.players@[j].session_id() != repo.players@[i].session_id());
    }
}

/// With unique player ids, any row carrying `pid` is the row
/// `index_of_player` names.
pub proof fn lemma_index_of(s: Seq<Player>, pid: PlayerId, i: int)
    requires
        unique_player_ids(s),
        0 <= i < s.len(),
        s[i].player_id == pid,
    ensures
        contains_player(s, pid),
        index_of_player(s, pid) == i,
{
    assert(contains_player(s, pid));
    let j = index_of_player(s, pid);
    if j < i {
        assert(s[j].player_id != s[i].player_id);
    } else if i < j {
        assert(s[i].player_id != s[j].player_id);
    }
}

/// Replacing one row by another with the same player id, whose client (if
/// any) keeps the session id it already had there, preserves the invariants.
pub proof fn lemma_wf_update(s: Seq<Player>, i: int, p: Player)
    requires
        unique_player_ids(s),
        unique_session_ids(s),
        bots_clientless(s),
        0 <= i < s.len(),
        p.player_id == s[i].player_id,
        p.client is Some ==> {
            &&& !p.player_id.spec_is_bot()
            &&& match s[i].client {
                Some(c0) => p.session_id() == c0.session_id,
                None => !session_in_use(s, p.session_id()),
            }
        },
    ensures
        unique_player_ids(s.update(i, p)),
        unique_session_ids(s.update(i, p)),
        bots_clientless(s.update(i, p)),
{
    let s2 = s.update(i, p);
    assert forall|a: int, b: int|
        0 <= a < b < s2.len() && s2[a].client is Some && s2[b].client is Some
        implies s2[a].session_id() != s2[b].session_id() by {
        if a != i && b != i {
            assert(s2[a] == s[a] && s2[b] == s[b]);
        } else if a == i {
            assert(s2[b] == s[b]);
            if p.client is Some && s[i].client is None {
                assert(!(s[b].client is Some && s[b].session_id() == p.session_id()));
            }
        } else {
            assert(s2[a] == s[a]);
            if p.client is Some && s[i].client is None {
                assert(!(s[a].client is Some && s[a].session_id() == p.session_id()));
            }
        }
    }
}

/// Forgetting a row preserves the invariants.
pub proof fn lemma_wf_remove(s: Seq<Player>, i: int)
    requires
        unique_player_ids(s),
        unique_session_ids(s),
        bots_clientless(s),
        0 <= i < s.len(),
    ensures
        unique_player_ids(s.remove(i)),
        unique_session_ids(s.remove(i)),
        bots_clientless(s.remove(i)),
{
    let s2 = s.remove(i);
    assert forall|a: int, b: int| 0 <= a < b < s2.len()
        implies s2[a].player_id != s2[b].player_id && !(s2[a].client is Some && s2[b].client
        is Some && s2[a].session_id() == s2[b].session_id()) by {
        let a0 = if a < i {
            a
        } else {
            a + 1
        };
        let b0 = if b < i {
            b
        } else {
            b + 1
        };
        assert(s2[a] == s[a0] && s2[b] == s[b0]);
    }
}

/// Appending a row with a fresh player id, whose client (if any) is neither
/// a bot's nor bound to a session already in use, preserves the invariants.
pub proof fn lemma_wf_push(s: Seq<Player>, p: Player)
    requires
        unique_player_ids(s),
        unique_session_ids(s),
        bots_clientless(s),
        !contains_player(s, p.player_id),
        p.client is Some ==> !p.player_id.spec_is_bot() && !session_in_use(s, p.session_id()),
    ensures
        unique_player_ids(s.push(p)),
        unique_session_ids(s.push(p)),
        bots_clientless(s.push(p)),
{
    let s2 = s.push(p);
    assert forall|a: int, b: int| 0 <= a < b < s2.len()
        implies s2[a].player_id != s2[b].player_id by {
        if b == s.len() {
            assert(s2[a] == s[a]);
            assert(!(s[a].player_id == p.player_id));
        } else {
            assert(s2[a] == s[a] && s2[b] == s[b]);
        }
    }
    assert forall|a: int, b: int|
        0 <= a < b < s2.len() && s2[a].client is Some && s2[b].client is Some
        implies s2[a].session_id() != s2[b].session_id() by {
        if b == s.len() {
            assert(s2[a] == s[a]);
            if p.client is Some {
                assert(!(s[a].client is Some && s[a].session_id() == p.session_id()));
            }
        } else {
            assert(s2[a] == s[a] && s2[b] == s[b]);
        }
    }
}

} // verus!
