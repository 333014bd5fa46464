//! Session and fan-out core of a real-time multiplayer game server.
//!
//! The library tracks one client record per real player, drives the
//! connection state machine (`Pending`, `Connected`, `Limbo`, `Stale`),
//! admits new connections under an IP rate limit, binds outbound channels,
//! computes the per-tick broadcast, sweeps expired records, and
//! diff-writes session items toward a durable store. Every decision is a
//! verified function over plain values; the surrounding process performs
//! the actual I/O (channel sends, store reads and writes, clocks).
//!
//! Besides the contracts on each operation, the library states its global
//! guarantees as named laws: no two coexisting clients share a session id
//! ([`player::lemma_unique_session_ids`]); a register evicts a previously
//! bound channel with exactly one close and the fresh channel observes the
//! welcome and every initializer in their fixed order
//! ([`register::lemma_register_order`]); joins and leaves reported to the
//! game balance against the record's state
//! ([`status::lemma_join_leave_parity`]); the persister writes each client
//! once and then nothing until something changes
//! ([`persist::lemma_all_clients_written`],
//! [`persist::lemma_second_run_writes_nothing`]); one address is admitted at
//! most `burst` times per window ([`rate_limiter::lemma_burst_per_window`]);
//! and expired records leave and are forgotten on schedule
//! ([`pruner::lemma_pruning_liveness`]).

pub mod auth;
pub mod broadcast;
pub mod client;
pub mod ids;
pub mod mailbox;
pub mod persist;
pub mod player;
pub mod protocol;
pub mod pruner;
pub mod rate_limiter;
pub mod register;
pub mod session;
pub mod stats;
pub mod status;

use vstd::prelude::*;

verus! {

/// Milliseconds a freshly admitted client may stay `Pending` before the
/// sweep may forget it.
pub const PENDING_EXPIRY_MS: u64 = 10_000;

} // verus!
