//! The clock-synchronization session: a periodic request/response state
//! machine that publishes its latest correction into a single slot, and the
//! non-blocking `now` that fuses the local monotonic tick with that
//! correction.
//!
//! The exchange itself (packet format, socket work, timeouts) belongs to
//! the transport and time-protocol collaborators; this module holds only
//! the decisions: what each tick and each exchange outcome does to the
//! session state and to the published slot.

use crate::epoch::{
    apply_offset_micros, from_total_nanos, max_total_nanos, offset_in_range, Epoch,
};
use vstd::arithmetic::div_mod::{
    lemma_fundamental_div_mod, lemma_mod_division_less_than_divisor,
};
use vstd::prelude::*;

verus! {

/// The outcome of one completed time-correction exchange: the signed
/// microsecond clock skew (remote minus local) with its round-trip and
/// remote-server metadata. An opaque, copyable snapshot; replaced whole on
/// every successful exchange, never mutated in place.
#[derive(Clone, Copy, Debug, PartialEq, Eq, Structural)]
pub struct SyncResult {
    /// Remote-minus-local clock skew, in microseconds.
    pub offset: i64,
    /// Round-trip latency of the exchange, in microseconds.
    pub roundtrip: u64,
    /// Remote server seconds.
    pub seconds: u32,
    /// Remote server fractional seconds.
    pub seconds_fraction: u32,
}

/// The two states of the session: between exchanges, or with one request
/// in flight.
#[derive(Clone, Copy, Debug, PartialEq, Eq, Structural)]
pub enum SyncState {
    Idle,
    AwaitingResponse,
}

/// What one receive attempt of the in-flight exchange produced.
#[derive(Clone, Copy, Debug)]
pub enum ExchangeOutcome {
    /// A structurally valid response, already reduced to a correction.
    Valid(SyncResult),
    /// A malformed, size-mismatched or wrong-source response: the exchange
    /// is abandoned and retried on a later tick.
    Malformed,
    /// No response yet; the receive timed out. The session keeps waiting
    /// and retries on a later tick rather than failing outright.
    Timeout,
}

/// The session state beside the single published slot: one writer (the
/// session), any number of readers through [`SyncSession::latest`].
/// Publishing replaces the slot whole, so a reader sees either the previous
/// or the new snapshot, never a mixture.
#[derive(Clone, Copy, Debug)]
pub struct SyncSession {
    pub state: SyncState,
    pub published: Option<SyncResult>,
}

impl SyncSession {
    /// A fresh session: idle, with nothing published. Until the first
    /// successful exchange, readers fall back to uncorrected local time.
    pub fn new() -> (s: SyncSession)
        ensures
            s.state is Idle,
            s.published is None,
    {
        SyncSession { state: SyncState::Idle, published: None }
    }

    /// One interval tick: the caller sends one correction request to the
    /// time authority when this returns, and the session waits for its
    /// response. A tick while a response is still outstanding re-issues
    /// the request; the published slot is never touched here.
    pub fn on_tick(&mut self)
        ensures
            final(self).state is AwaitingResponse,
            final(self).published == old(self).published,
    {
        self.state = SyncState::AwaitingResponse;
    }

    /// One receive attempt's outcome. A valid response is published —
    /// replacing the slot whole — and the session returns to idle. A
    /// malformed response discards the exchange and returns to idle with
    /// the slot untouched. A timeout changes nothing: the session stays
    /// waiting and retries on a later tick.
    pub fn on_response(&mut self, outcome: ExchangeOutcome)
        requires
            old(self).state is AwaitingResponse,
        ensures
            outcome matches ExchangeOutcome::Valid(r) ==> final(self).state is Idle
                && final(self).published == Some(r),
            outcome is Malformed ==> final(self).state is Idle
                && final(self).published == old(self).published,
            outcome is Timeout ==> *final(self) == *old(self),
    {
        match outcome {
            ExchangeOutcome::Valid(r) => {
                self.published = Some(r);
                self.state = SyncState::Idle;
            },
            ExchangeOutcome::Malformed => {
                self.state = SyncState::Idle;
            },
            ExchangeOutcome::Timeout => {},
        }
    }

    /// The non-blocking snapshot read of the published slot: the latest
    /// correction, or `None` before the first successful exchange.
    pub fn latest(&self) -> (r: Option<SyncResult>)
        ensures
            r == self.published,
    {
        self.published
    }
}

/// The local monotonic tick, read as a normalized epoch: whole seconds and
/// the millisecond remainder carried into nanoseconds.
pub open spec fn spec_epoch_from_tick_ms(tick_ms: u64) -> Epoch {
    Epoch { seconds: tick_ms / 1000, nanoseconds: ((tick_ms % 1000) * 1_000_000) as u32 }
}

/// The tick-reading epoch is normalized and holds exactly the tick's
/// nanosecond count.
pub proof fn lemma_epoch_from_tick_ms_props(tick_ms: u64)
    ensures
        spec_epoch_from_tick_ms(tick_ms).wf(),
        spec_epoch_from_tick_ms(tick_ms).total_nanos() == tick_ms * 1_000_000,
{
    lemma_mod_division_less_than_divisor(tick_ms as int, 1000);
    lemma_fundamental_div_mod(tick_ms as int, 1000);
}

/// Converts a local monotonic tick in milliseconds to an uncorrected epoch.
pub fn epoch_from_tick_ms(tick_ms: u64) -> (r: Epoch)
    ensures
        r == spec_epoch_from_tick_ms(tick_ms),
        r.wf(),
        r.total_nanos() == tick_ms * 1_000_000,
{
    proof {
        lemma_epoch_from_tick_ms_props(tick_ms);
    }
    Epoch { seconds: tick_ms / 1000, nanoseconds: ((tick_ms % 1000) as u32) * 1_000_000 }
}

/// What `now` answers: the local tick corrected by the published offset,
/// or the uncorrected local epoch while nothing is published.
pub open spec fn spec_now(tick_ms: u64, sync: Option<SyncResult>) -> Epoch {
    match sync {
        None => spec_epoch_from_tick_ms(tick_ms),
        Some(r) => from_total_nanos(tick_ms * 1_000_000 + r.offset * 1000),
    }
}

/// The corrected current time. Never blocks: it reads the given tick and
/// the given published snapshot, and on a cold start (nothing published)
/// falls back to uncorrected local time. A published offset so negative
/// that it would drive the epoch below zero is a precondition violation —
/// broken offset arithmetic, not an environmental condition.
pub fn now(tick_ms: u64, sync: Option<SyncResult>) -> (e: Epoch)
    requires
        sync matches Some(r) ==> 0 <= tick_ms * 1_000_000 + r.offset * 1000,
    ensures
        e == spec_now(tick_ms, sync),
        e.wf(),
{
    let local: Epoch = epoch_from_tick_ms(tick_ms);
    match sync {
        None => local,
        Some(r) => {
            proof {
                assert(offset_in_range(local, r.offset as int)) by {
                    assert(local.total_nanos() == tick_ms * 1_000_000);
                    assert(tick_ms * 1_000_000 + r.offset * 1000 <= max_total_nanos());
                }
            }
            apply_offset_micros(local, r.offset)
        },
    }
}

} // verus!
