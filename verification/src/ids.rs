//! Identifier types shared by the whole core.
//!
//! All of them are small integer newtypes so that contracts can speak of
//! them directly and so that equality in verified code is structural.

use vstd::prelude::*;

verus! {

/// Player ids at or above this value denote server-simulated bots; the
/// authenticator never issues them and bots never hold a client record.
pub const BOT_ID_MIN: u32 = 0x8000_0000;

/// Identifies one player (real or bot) within an arena.
#[derive(Clone, Copy, Debug, PartialEq, Eq, Structural)]
pub struct PlayerId(pub u32);

impl PlayerId {
    /// Whether this id belongs to a server-simulated bot.
    pub open spec fn spec_is_bot(self) -> bool {
        self.0 >= BOT_ID_MIN
    }

    #[verifier::when_used_as_spec(spec_is_bot)]
    pub fn is_bot(self) -> (r: bool)
        ensures
            r == self.spec_is_bot(),
    {
        self.0 >= BOT_ID_MIN
    }
}

/// Unguessable identity a returning client presents to reclaim its player id.
#[derive(Clone, Copy, Debug, PartialEq, Eq, Structural)]
pub struct SessionId(pub u64);

/// Identity of one outbound message channel. Two connections never share a
/// channel id, so comparing ids is comparing channels.
#[derive(Clone, Copy, Debug, PartialEq, Eq, Structural)]
pub struct ChannelId(pub u64);

/// Identifies one game-world instance.
#[derive(Clone, Copy, Debug, PartialEq, Eq, Structural)]
pub struct ArenaId(pub u32);

/// Identifies one server process.
#[derive(Clone, Copy, Debug, PartialEq, Eq, Structural)]
pub struct ServerId(pub u8);

/// Identifies the game a session item belongs to.
#[derive(Clone, Copy, Debug, PartialEq, Eq, Structural)]
pub struct GameId(pub u32);

/// Identifies one invitation.
#[derive(Clone, Copy, Debug, PartialEq, Eq, Structural)]
pub struct InvitationId(pub u32);

/// Client ip address, already reduced to its 128-bit value by the caller.
#[derive(Clone, Copy, Debug, PartialEq, Eq, Structural)]
pub struct IpAddress(pub u128);

/// User agent class recorded for metrics.
#[derive(Clone, Copy, Debug, PartialEq, Eq, Structural)]
pub struct UserAgentId(pub u32);

/// Referrer recorded for metrics, reduced to an opaque token.
#[derive(Clone, Copy, Debug, PartialEq, Eq, Structural)]
pub struct Referrer(pub u64);

/// Region recorded for metrics.
#[derive(Clone, Copy, Debug, PartialEq, Eq, Structural)]
pub struct RegionId(pub u32);

} // verus!
