//! Inbound and outbound message shapes of the core.
//!
//! Payloads owned by collaborating subsystems (game, chat, teams,
//! leaderboards, liveboard, server topology) pass through the core as opaque
//! tokens; the core decides who receives what, and in which order, without
//! reading them.

use vstd::prelude::*;

use crate::ids::{ArenaId, ChannelId, PlayerId, Referrer, RegionId, ServerId, SessionId, UserAgentId};
use crate::session::Alias;

verus! {

/// Replies owned by the core itself.
#[derive(Clone, Debug, PartialEq, Eq)]
pub enum ClientUpdate {
    /// First message on every freshly bound channel.
    SessionCreated {
        arena_id: ArenaId,
        server_id: Option<ServerId>,
        session_id: SessionId,
        player_id: PlayerId,
    },
    /// The sanitized alias that was stored.
    AliasSet(Alias),
    FpsTallied,
    Traced,
}

/// Roster messages; the payload token is owned by the player subsystem.
#[derive(Clone, Copy, Debug, PartialEq, Eq, Structural)]
pub enum PlayerUpdate {
    Initializer(u64),
    Updated { added: u64, removed: u64, real_players: u32 },
}

/// Team messages; payload tokens are owned by the team subsystem.
#[derive(Clone, Copy, Debug, PartialEq, Eq, Structural)]
pub enum TeamUpdate {
    Initializer(u64),
    AddedOrUpdated(u64),
    Removed(u64),
    Members(u64),
    Joiners(u64),
    Joins(u64),
}

/// One leaderboard message, for the named period.
#[derive(Clone, Copy, Debug, PartialEq, Eq, Structural)]
pub struct LeaderboardUpdate {
    pub period: u32,
    pub board: u64,
}

/// Server topology messages.
#[derive(Clone, Copy, Debug, PartialEq, Eq, Structural)]
pub enum SystemUpdate {
    Initializer(u64),
    Added(u64),
    Removed(u64),
}

/// Everything a client channel can carry.
#[derive(Clone, Debug, PartialEq, Eq)]
pub enum Update {
    Game(u64),
    Client(ClientUpdate),
    Chat(u64),
    Invitation(u64),
    Player(PlayerUpdate),
    Team(TeamUpdate),
    Leaderboard(LeaderboardUpdate),
    Liveboard(u64),
    System(SystemUpdate),
}

/// What the transport does with one channel: deliver a message or close it.
#[derive(Clone, Debug, PartialEq, Eq)]
pub enum ObserverUpdate {
    Close,
    Send { message: Update },
}

/// One send instruction for the transport: `update` goes to `channel`.
#[derive(Clone, Debug, PartialEq, Eq)]
pub struct Outbound {
    pub channel: ChannelId,
    pub update: ObserverUpdate,
}

/// A message to `channel`.
pub open spec fn send_to(channel: ChannelId, message: Update) -> Outbound {
    Outbound { channel, update: ObserverUpdate::Send { message } }
}

/// A close of `channel`.
pub open spec fn close_of(channel: ChannelId) -> Outbound {
    Outbound { channel, update: ObserverUpdate::Close }
}

/// The messages `ch` observes from a batch of send instructions, in order.
/// Closes are not messages, so they do not appear.
pub open spec fn sends_on(s: Seq<Outbound>, ch: ChannelId) -> Seq<Update>
    decreases s.len(),
{
    if s.len() == 0 {
        Seq::empty()
    } else {
        let rest = sends_on(s.drop_first(), ch);
        match s[0].update {
            ObserverUpdate::Send { message } => if s[0].channel == ch {
                seq![message] + rest
            } else {
                rest
            },
            ObserverUpdate::Close => rest,
        }
    }
}

/// How many closes a batch delivers to `ch`.
pub open spec fn close_count(s: Seq<Outbound>, ch: ChannelId) -> int
    decreases s.len(),
{
    if s.len() == 0 {
        0
    } else {
        (if s[0].channel == ch && s[0].update is Close {
            1int
        } else {
            0int
        }) + close_count(s.drop_first(), ch)
    }
}

/// `sends_on` distributes over concatenation.
pub proof fn lemma_sends_on_concat(a: Seq<Outbound>, b: Seq<Outbound>, ch: ChannelId)
    ensures
        sends_on(a + b, ch) == sends_on(a, ch) + sends_on(b, ch),
    decreases a.len(),
{
    if a.len() == 0 {
        assert(a + b =~= b);
        assert(sends_on(a, ch) + sends_on(b, ch) =~= sends_on(b, ch));
    } else {
        assert((a + b).drop_first() =~= a.drop_first() + b);
        lemma_sends_on_concat(a.drop_first(), b, ch);
        assert((a + b)[0] == a[0]);
        match a[0].update {
            ObserverUpdate::Send { message } => {
                if a[0].channel == ch {
                    assert(seq![message] + (sends_on(a.drop_first(), ch) + sends_on(b, ch)) =~= (
                    seq![message] + sends_on(a.drop_first(), ch)) + sends_on(b, ch));
                }
            },
            ObserverUpdate::Close => {},
        }
    }
}

/// `close_count` distributes over concatenation.
pub proof fn lemma_close_count_concat(a: Seq<Outbound>, b: Seq<Outbound>, ch: ChannelId)
    ensures
        close_count(a + b, ch) == close_count(a, ch) + close_count(b, ch),
    decreases a.len(),
{
    if a.len() == 0 {
        assert(a + b =~= b);
    } else {
        assert((a + b).drop_first() =~= a.drop_first() + b);
        assert((a + b)[0] == a[0]);
        lemma_close_count_concat(a.drop_first(), b, ch);
    }
}

/// A batch of sends to one channel delivers exactly those messages there,
/// no closes, and nothing to any other channel.
pub proof fn lemma_sends_on_new(s: Seq<Outbound>, n: nat, f: spec_fn(int) -> Update, ch: ChannelId)
    requires
        s == Seq::new(n, |k: int| send_to(ch, f(k))),
    ensures
        sends_on(s, ch) == Seq::new(n, f),
        forall|other: ChannelId|
            other != ch ==> #[trigger] sends_on(s, other) == Seq::<Update>::empty(),
        forall|other: ChannelId| #[trigger] close_count(s, other) == 0,
    decreases n,
{
    if n == 0 {
        assert(sends_on(s, ch) =~= Seq::new(n, f));
        assert forall|other: ChannelId| other != ch
            implies sends_on(s, other) == Seq::<Update>::empty() by {
            assert(sends_on(s, other) =~= Seq::<Update>::empty());
        }
    } else {
        let g = |k: int| f(k + 1);
        assert(s.drop_first() =~= Seq::new((n - 1) as nat, |k: int| send_to(ch, g(k))));
        lemma_sends_on_new(s.drop_first(), (n - 1) as nat, g, ch);
        assert(sends_on(s, ch) =~= Seq::new(n, f)) by {
            assert(sends_on(s, ch) == seq![f(0)] + sends_on(s.drop_first(), ch));
            assert(sends_on(s.drop_first(), ch) == Seq::new((n - 1) as nat, g));
        }
        assert forall|other: ChannelId| other != ch
            implies sends_on(s, other) == Seq::<Update>::empty() by {
            assert(sends_on(s, other) == sends_on(s.drop_first(), other));
        }
        assert forall|other: ChannelId| close_count(s, other) == 0 by {
            assert(close_count(s, other) == close_count(s.drop_first(), other));
        }
    }
}

/// Requests the core handles itself.
#[derive(Clone, Debug, PartialEq, Eq)]
pub enum ClientRequest {
    /// Request a different display name (raw bytes, sanitized here).
    SetAlias(Vec<u8>),
    /// A frames-per-second report in hundredths of a frame per second;
    /// `None` when the measurement was not a finite number.
    TallyFps(Option<i64>),
    /// A client-side error report to append to the trace log.
    Trace { message: Vec<u8> },
}

/// One player-addressed request envelope. Subsystem payloads are opaque.
#[derive(Clone, Debug, PartialEq, Eq)]
pub enum Request {
    Game(u64),
    Client(ClientRequest),
    Chat(u64),
    Invitation(u64),
    Player(u64),
    Team(u64),
}

/// The inbound events the transport can hand to the core.
#[derive(Clone, Debug, PartialEq, Eq)]
pub enum ObserverMessage {
    Register { player_id: PlayerId, channel: ChannelId },
    Unregister { player_id: PlayerId, channel: ChannelId },
    Request { player_id: PlayerId, request: Request },
    RoundTripTime { player_id: PlayerId, rtt: u16 },
}

/// Why a request was refused. Every refusal leaves core state unchanged.
#[derive(Clone, Copy, Debug, PartialEq, Eq, Structural)]
pub enum ClientError {
    RateLimited,
    PlayerDoesntExist,
    OnlyClientsCanSetAlias,
    OnlyClientsCanTallyFps,
    OnlyClientsCanTrace,
    CannotChangeAliasWhileAlive,
    InvalidFps,
    TraceTooLong,
    TooManyTraces,
    NonexistentObserver,
}

impl ClientError {
    /// The short string reported to the client.
    pub fn as_str(&self) -> &'static str {
        match self {
            ClientError::RateLimited => "rate limit exceeded",
            ClientError::PlayerDoesntExist => "player doesn't exist",
            ClientError::OnlyClientsCanSetAlias => "only clients can set alias",
            ClientError::OnlyClientsCanTallyFps => "only clients can tally fps",
            ClientError::OnlyClientsCanTrace => "only clients can trace",
            ClientError::CannotChangeAliasWhileAlive => "cannot change alias while alive",
            ClientError::InvalidFps => "invalid fps",
            ClientError::TraceTooLong => "trace too long",
            ClientError::TooManyTraces => "too many traces",
            ClientError::NonexistentObserver => "nonexistent observer",
        }
    }
}

/// One accepted client-side error report, ready for the process to append to
/// the trace log (or to the ordinary log when none is configured).
#[derive(Clone, Debug, PartialEq, Eq)]
pub struct TraceLine {
    pub referrer: Option<Referrer>,
    pub region_id: Option<RegionId>,
    pub user_agent_id: Option<UserAgentId>,
    pub message: Vec<u8>,
}

} // verus!
