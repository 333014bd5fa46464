//! The per-client connection state machine.
//!
//! A record is `Pending` from admission until its first register, then moves
//! between `Connected`, `Limbo` (channel lost but still in game) and `Stale`
//! (out of game, kept so the session can be restored). The sweep removes
//! `Pending` and `Stale` records once their expiry passes. A removed record
//! is modelled as `None`.

use vstd::prelude::*;

use crate::ids::ChannelId;

verus! {

/// Connection state of one client record. Expiries are in milliseconds of
/// the same monotonic clock the rest of the core uses.
#[derive(Clone, Copy, Debug, PartialEq, Eq, Structural)]
pub enum ClientStatus {
    /// Admitted, channel not yet attached; forgotten after `expiry`.
    Pending { expiry: u64 },
    /// Exactly one outbound channel is bound.
    Connected { channel: ChannelId },
    /// Channel lost but the player is still in game; `Stale` after `expiry`.
    Limbo { expiry: u64 },
    /// Out of game; restorable until forgotten after `expiry`.
    Stale { expiry: u64 },
}

impl ClientStatus {
    /// Whether the player currently counts as in game.
    pub open spec fn in_game(self) -> bool {
        self is Connected || self is Limbo
    }
}

/// Whether a (possibly removed) record counts as in game.
pub open spec fn in_game_opt(s: Option<ClientStatus>) -> bool {
    match s {
        Some(status) => status.in_game(),
        None => false,
    }
}

/// The inbound events that drive one record's state machine.
#[derive(Clone, Copy, Debug, PartialEq, Eq, Structural)]
pub enum StatusEvent {
    /// A websocket attached for this player.
    Register { channel: ChannelId },
    /// A websocket detached; only the currently bound channel may demote.
    Unregister { channel: ChannelId, now: u64 },
    /// One pass of the expiry sweep.
    Sweep { now: u64 },
}

/// `a + b`, saturating at the top of `u64` so expiries never wrap.
pub open spec fn sat_add(a: u64, b: u64) -> u64 {
    if a + b > u64::MAX {
        u64::MAX
    } else {
        (a + b) as u64
    }
}

/// Executable twin of `sat_add`.
pub fn sat_add_exec(a: u64, b: u64) -> (r: u64)
    ensures
        r == sat_add(a, b),
{
    if b <= u64::MAX - a {
        a + b
    } else {
        u64::MAX
    }
}

/// The status after a detach of `channel` at `now`: only the bound channel
/// demotes a connected client to limbo; every other detach is a no-op.
pub open spec fn unregister_status(
    status: ClientStatus,
    channel: ChannelId,
    now: u64,
    limbo_ms: u64,
) -> ClientStatus {
    match status {
        ClientStatus::Connected { channel: bound } => if bound == channel {
            ClientStatus::Limbo { expiry: sat_add(now, limbo_ms) }
        } else {
            status
        },
        _ => status,
    }
}

/// The status after one expiry sweep at `now`, or `None` when the record is
/// forgotten. Connected clients are left for an explicit unregister.
pub open spec fn sweep_status(status: ClientStatus, now: u64, stale_expiry_ms: u64) -> Option<
    ClientStatus,
> {
    match status {
        ClientStatus::Pending { expiry } => if now > expiry {
            None
        } else {
            Some(status)
        },
        ClientStatus::Connected { .. } => Some(status),
        ClientStatus::Limbo { expiry } => if now >= expiry {
            Some(ClientStatus::Stale { expiry: sat_add(now, stale_expiry_ms) })
        } else {
            Some(status)
        },
        ClientStatus::Stale { expiry } => if now > expiry {
            None
        } else {
            Some(status)
        },
    }
}

/// The record after `ev`, or `None` when the sweep forgets it.
pub open spec fn status_step(
    s: Option<ClientStatus>,
    ev: StatusEvent,
    limbo_ms: u64,
    stale_expiry_ms: u64,
) -> Option<ClientStatus> {
    match s {
        None => None,
        Some(status) => match ev {
            StatusEvent::Register { channel } => Some(ClientStatus::Connected { channel }),
            StatusEvent::Unregister { channel, now } => Some(
                unregister_status(status, channel, now, limbo_ms),
            ),
            StatusEvent::Sweep { now } => sweep_status(status, now, stale_expiry_ms),
        },
    }
}

/// Whether `ev` makes the player join the game: only attaching a channel to
/// a record that was not in game does.
pub open spec fn step_joined(s: Option<ClientStatus>, ev: StatusEvent) -> bool {
    match (s, ev) {
        (Some(status), StatusEvent::Register { .. }) => !status.in_game(),
        _ => false,
    }
}

/// Whether `ev` makes the player leave the game: only expiring out of limbo
/// does.
pub open spec fn step_left(s: Option<ClientStatus>, ev: StatusEvent) -> bool {
    match (s, ev) {
        (Some(ClientStatus::Limbo { expiry }), StatusEvent::Sweep { now }) => now >= expiry,
        _ => false,
    }
}

/// The record after a whole event sequence.
pub open spec fn run_status(
    s: Option<ClientStatus>,
    evs: Seq<StatusEvent>,
    limbo_ms: u64,
    stale_expiry_ms: u64,
) -> Option<ClientStatus>
    decreases evs.len(),
{
    if evs.len() == 0 {
        s
    } else {
        run_status(
            status_step(s, evs[0], limbo_ms, stale_expiry_ms),
            evs.drop_first(),
            limbo_ms,
            stale_expiry_ms,
        )
    }
}

/// How many of `evs` make the player join.
pub open spec fn join_count(
    s: Option<ClientStatus>,
    evs: Seq<StatusEvent>,
    limbo_ms: u64,
    stale_expiry_ms: u64,
) -> int
    decreases evs.len(),
{
    if evs.len() == 0 {
        0
    } else {
        (if step_joined(s, evs[0]) {
            1int
        } else {
            0int
        }) + join_count(
            status_step(s, evs[0], limbo_ms, stale_expiry_ms),
            evs.drop_first(),
            limbo_ms,
            stale_expiry_ms,
        )
    }
}

/// How many of `evs` make the player leave.
pub open spec fn leave_count(
    s: Option<ClientStatus>,
    evs: Seq<StatusEvent>,
    limbo_ms: u64,
    stale_expiry_ms: u64,
) -> int
    decreases evs.len(),
{
    if evs.len() == 0 {
        0
    } else {
        (if step_left(s, evs[0]) {
            1int
        } else {
            0int
        }) + leave_count(
            status_step(s, evs[0], limbo_ms, stale_expiry_ms),
            evs.drop_first(),
            limbo_ms,
            stale_expiry_ms,
        )
    }
}

/// One event changes the in-game count by exactly the joins it reports minus
/// the leaves it reports.
pub proof fn lemma_step_parity(
    s: Option<ClientStatus>,
    ev: StatusEvent,
    limbo_ms: u64,
    stale_expiry_ms: u64,
)
    ensures
        (if in_game_opt(status_step(s, ev, limbo_ms, stale_expiry_ms)) {
            1int
        } else {
            0int
        }) - (if in_game_opt(s) {
            1int
        } else {
            0int
        }) == (if step_joined(s, ev) {
            1int
        } else {
            0int
        }) - (if step_left(s, ev) {
            1int
        } else {
            0int
        }),
{
}

/// Law: starting from any record that is not in game (a fresh `Pending` one
/// in particular), after any event sequence the joins exceed the leaves by
/// one exactly when the record is `Connected` or `Limbo`, and match exactly
/// otherwise.
pub proof fn lemma_join_leave_parity(
    s: Option<ClientStatus>,
    evs: Seq<StatusEvent>,
    limbo_ms: u64,
    stale_expiry_ms: u64,
)
    requires
        !in_game_opt(s),
    ensures
        join_count(s, evs, limbo_ms, stale_expiry_ms) - leave_count(
            s,
            evs,
            limbo_ms,
            stale_expiry_ms,
        ) == if in_game_opt(run_status(s, evs, limbo_ms, stale_expiry_ms)) {
            1int
        } else {
            0int
        },
    decreases evs.len(),
{
    lemma_parity_general(s, evs, limbo_ms, stale_expiry_ms);
}

/// Inductive core of the parity law, stated from an arbitrary start.
proof fn lemma_parity_general(
    s: Option<ClientStatus>,
    evs: Seq<StatusEvent>,
    limbo_ms: u64,
    stale_expiry_ms: u64,
)
    ensures
        join_count(s, evs, limbo_ms, stale_expiry_ms) - leave_count(
            s,
            evs,
            limbo_ms,
            stale_expiry_ms,
        ) == (if in_game_opt(run_status(s, evs, limbo_ms, stale_expiry_ms)) {
            1int
        } else {
            0int
        }) - (if in_game_opt(s) {
            1int
        } else {
            0int
        }),
    decreases evs.len(),
{
    if evs.len() > 0 {
        let s2 = status_step(s, evs[0], limbo_ms, stale_expiry_ms);
        lemma_step_parity(s, evs[0], limbo_ms, stale_expiry_ms);
        lemma_parity_general(s2, evs.drop_first(), limbo_ms, stale_expiry_ms);
    }
}

} // verus!
