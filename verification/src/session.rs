//! Aliases, per-client metric counters, and the durable session item.
//!
//! The session item is what the persister diff-writes to the durable store;
//! its equality must be exact so that unchanged items are never rewritten.

use vstd::prelude::*;

use crate::ids::{ArenaId, GameId, PlayerId, Referrer, RegionId, ServerId, SessionId, UserAgentId};

verus! {

/// Longest alias kept after sanitizing, in bytes.
pub const ALIAS_MAX_LEN: usize = 12;

/// A display-name byte is kept only if it is printable ASCII.
pub open spec fn printable(b: u8) -> bool {
    0x20 <= b <= 0x7e
}

/// The first `room` printable bytes of `s`, in order.
pub open spec fn keep_printable(s: Seq<u8>, room: int) -> Seq<u8>
    decreases s.len(),
{
    if s.len() == 0 {
        Seq::empty()
    } else if printable(s[0]) && room > 0 {
        seq![s[0]] + keep_printable(s.drop_first(), room - 1)
    } else {
        keep_printable(s.drop_first(), room)
    }
}

/// The default display name given to clients that chose none.
pub open spec fn default_alias_bytes() -> Seq<u8> {
    seq![71u8, 117u8, 101u8, 115u8, 116u8]
}

/// What sanitizing `s` yields: its first printable bytes, capped, with the
/// default name substituted when nothing survives.
pub open spec fn sanitized(s: Seq<u8>) -> Seq<u8> {
    let kept = keep_printable(s, ALIAS_MAX_LEN as int);
    if kept.len() == 0 {
        default_alias_bytes()
    } else {
        kept
    }
}

/// A short sanitized display name.
#[derive(Clone, Debug, PartialEq, Eq)]
pub struct Alias {
    pub bytes: Vec<u8>,
}

impl Alias {
    /// Aliases are short and printable.
    pub open spec fn wf(self) -> bool {
        &&& self.bytes@.len() <= ALIAS_MAX_LEN
        &&& self.bytes@.len() > 0
        &&& forall|i: int| 0 <= i < self.bytes@.len() ==> printable(#[trigger] self.bytes@[i])
    }

    /// The default display name.
    pub fn default_alias() -> (r: Alias)
        ensures
            r.bytes@ == default_alias_bytes(),
            r.wf(),
    {
        let bytes: Vec<u8> = vec![71u8, 117u8, 101u8, 115u8, 116u8];
        proof {
            assert(bytes@ =~= default_alias_bytes());
        }
        Alias { bytes }
    }

    /// Builds the alias a requested display name actually gets: its first
    /// printable bytes up to the cap, or the default name if none survive.
    pub fn new_sanitized(input: &[u8]) -> (r: Alias)
        ensures
            r.bytes@ == sanitized(input@),
            r.wf(),
    {
        let mut out: Vec<u8> = Vec::new();
        let mut i: usize = 0;
        proof {
            assert(input@.skip(0) =~= input@);
            assert(out@ + keep_printable(input@, ALIAS_MAX_LEN as int) =~= keep_printable(
                input@,
                ALIAS_MAX_LEN as int,
            ));
        }
        while i < input.len()
            invariant
                i <= input@.len(),
                out@.len() <= ALIAS_MAX_LEN,
                forall|k: int| 0 <= k < out@.len() ==> printable(#[trigger] out@[k]),
                keep_printable(input@, ALIAS_MAX_LEN as int) == out@ + keep_printable(
                    input@.skip(i as int),
                    ALIAS_MAX_LEN - out@.len(),
                ),
            decreases input@.len() - i,
        {
            let b = input[i];
            proof {
                assert(input@.skip(i as int).drop_first() =~= input@.skip(i as int + 1));
                assert(input@.skip(i as int)[0] == input@[i as int]);
            }
            if 0x20 <= b && b <= 0x7e && out.len() < ALIAS_MAX_LEN {
                let ghost out0 = out@;
                out.push(b);
                proof {
                    assert(out@ =~= out0.push(b));
                    assert(out0 + (seq![b] + keep_printable(
                        input@.skip(i as int + 1),
                        ALIAS_MAX_LEN - out0.len() - 1,
                    )) =~= out@ + keep_printable(
                        input@.skip(i as int + 1),
                        ALIAS_MAX_LEN - out@.len(),
                    ));
                }
            }
            i = i + 1;
        }
        proof {
            assert(input@.skip(input@.len() as int) =~= Seq::<u8>::empty());
            assert(keep_printable(input@, ALIAS_MAX_LEN as int) =~= out@);
        }
        if out.len() == 0 {
            Alias::default_alias()
        } else {
            Alias { bytes: out }
        }
    }

    /// An owned copy with the same bytes.
    pub fn duplicate(&self) -> (r: Alias)
        ensures
            r.bytes@ == self.bytes@,
    {
        let bytes = clone_bytes(&self.bytes);
        Alias { bytes }
    }
}

/// An owned copy of a byte vector.
pub fn clone_bytes(v: &Vec<u8>) -> (r: Vec<u8>)
    ensures
        r@ == v@,
{
    let r = v.clone();
    proof {
        assert(r@ =~= v@);
    }
    r
}

/// Whether two byte vectors hold the same bytes.
pub fn bytes_eq(a: &Vec<u8>, b: &Vec<u8>) -> (r: bool)
    ensures
        r == (a@ == b@),
{
    if a.len() != b.len() {
        proof {
            assert(a@.len() != b@.len());
        }
        return false;
    }
    let mut i: usize = 0;
    while i < a.len()
        invariant
            a@.len() == b@.len(),
            i <= a@.len(),
            forall|k: int| 0 <= k < i ==> a@[k] == b@[k],
        decreases a@.len() - i,
    {
        if a[i] != b[i] {
            return false;
        }
        i = i + 1;
    }
    proof {
        assert(a@ =~= b@);
    }
    true
}

/// Counters accumulated for one client across its session.
#[derive(Clone, Copy, Debug, PartialEq, Eq, Structural)]
pub struct ClientMetricData {
    /// When the session was first created (unix milliseconds).
    pub date_created: u64,
    /// When the previous session, if any, was last renewed.
    pub date_previous: Option<u64>,
    /// When this session was last renewed.
    pub date_renewed: u64,
    /// Plays begun within this session.
    pub plays: u32,
    /// Plays carried over from the prior stored session.
    pub previous_plays: u32,
    /// The prior session this one renews, if any.
    pub session_id_previous: Option<SessionId>,
    pub referrer: Option<Referrer>,
    pub user_agent_id: Option<UserAgentId>,
    pub region_id: Option<RegionId>,
    /// Latest round-trip time report, milliseconds.
    pub rtt: Option<u16>,
    /// Latest frames-per-second report, hundredths of a frame per second.
    pub fps: Option<u32>,
}

impl ClientMetricData {
    /// Fresh counters for a connection admitted at `now`.
    pub fn new(referrer: Option<Referrer>, user_agent_id: Option<UserAgentId>, now: u64) -> (r:
        ClientMetricData)
        ensures
            r == (ClientMetricData {
                date_created: now,
                date_previous: None,
                date_renewed: now,
                plays: 0,
                previous_plays: 0,
                session_id_previous: None,
                referrer,
                user_agent_id,
                region_id: None,
                rtt: None,
                fps: None,
            }),
    {
        ClientMetricData {
            date_created: now,
            date_previous: None,
            date_renewed: now,
            plays: 0,
            previous_plays: 0,
            session_id_previous: None,
            referrer,
            user_agent_id,
            region_id: None,
            rtt: None,
            fps: None,
        }
    }

    /// Folds the stored item of a restored session into fresh counters: the
    /// creation date, play count and identity of the prior session carry over.
    pub fn supplement(&mut self, item: &SessionItem)
        ensures
            *final(self) == (ClientMetricData {
                date_created: item.date_created,
                date_previous: Some(item.date_renewed),
                previous_plays: item.plays,
                session_id_previous: Some(item.session_id),
                ..*old(self)
            }),
    {
        self.date_created = item.date_created;
        self.date_previous = Some(item.date_renewed);
        self.previous_plays = item.plays;
        self.session_id_previous = Some(item.session_id);
    }
}

/// One record of the durable session store, keyed by
/// `(arena_id, session_id)`.
#[derive(Clone, Debug, PartialEq, Eq)]
pub struct SessionItem {
    pub alias: Alias,
    pub arena_id: ArenaId,
    pub date_created: u64,
    pub date_previous: Option<u64>,
    pub date_renewed: u64,
    pub date_terminated: Option<u64>,
    pub game_id: GameId,
    pub player_id: PlayerId,
    /// Total plays over this session and every prior one it renews.
    pub plays: u32,
    pub previous_id: Option<SessionId>,
    pub referrer: Option<Referrer>,
    pub user_agent_id: Option<UserAgentId>,
    pub server_id: ServerId,
    pub session_id: SessionId,
}

/// Exact equality of two session items; diff-suppression writes an item only
/// when this is false against the last written one.
pub open spec fn item_eq(a: SessionItem, b: SessionItem) -> bool {
    &&& a.alias.bytes@ == b.alias.bytes@
    &&& a.arena_id == b.arena_id
    &&& a.date_created == b.date_created
    &&& a.date_previous == b.date_previous
    &&& a.date_renewed == b.date_renewed
    &&& a.date_terminated == b.date_terminated
    &&& a.game_id == b.game_id
    &&& a.player_id == b.player_id
    &&& a.plays == b.plays
    &&& a.previous_id == b.previous_id
    &&& a.referrer == b.referrer
    &&& a.user_agent_id == b.user_agent_id
    &&& a.server_id == b.server_id
    &&& a.session_id == b.session_id
}

impl SessionItem {
    /// Decides `item_eq` executably.
    pub fn same_as(&self, other: &SessionItem) -> (r: bool)
        ensures
            r == item_eq(*self, *other),
    {
        bytes_eq(&self.alias.bytes, &other.alias.bytes) && self.arena_id.0 == other.arena_id.0
            && self.date_created == other.date_created
            && opt_u64_eq(&self.date_previous, &other.date_previous)
            && self.date_renewed == other.date_renewed
            && opt_u64_eq(&self.date_terminated, &other.date_terminated)
            && self.game_id.0 == other.game_id.0 && self.player_id.0 == other.player_id.0
            && self.plays == other.plays && opt_session_eq(&self.previous_id, &other.previous_id)
            && opt_referrer_eq(&self.referrer, &other.referrer)
            && opt_user_agent_eq(&self.user_agent_id, &other.user_agent_id)
            && self.server_id.0 == other.server_id.0 && self.session_id.0 == other.session_id.0
    }

}

fn opt_u64_eq(a: &Option<u64>, b: &Option<u64>) -> (r: bool)
    ensures
        r == (a == b),
{
    match (a, b) {
        (None, None) => true,
        (Some(x), Some(y)) => x == y,
        _ => false,
    }
}

fn opt_session_eq(a: &Option<SessionId>, b: &Option<SessionId>) -> (r: bool)
    ensures
        r == (a == b),
{
    match (a, b) {
        (None, None) => true,
        (Some(x), Some(y)) => x.0 == y.0,
        _ => false,
    }
}

fn opt_referrer_eq(a: &Option<Referrer>, b: &Option<Referrer>) -> (r: bool)
    ensures
        r == (a == b),
{
    match (a, b) {
        (None, None) => true,
        (Some(x), Some(y)) => x.0 == y.0,
        _ => false,
    }
}

fn opt_user_agent_eq(a: &Option<UserAgentId>, b: &Option<UserAgentId>) -> (r: bool)
    ensures
        r == (a == b),
{
    match (a, b) {
        (None, None) => true,
        (Some(x), Some(y)) => x.0 == y.0,
        _ => false,
    }
}

} // verus!
