//! Telemetry endpoint glue: building the outgoing message that carries the
//! corrected time beside the raw tick and the latest synchronization
//! metadata. Receiving is the codec's `decode`, whose sentinel outcome
//! already keeps the loop tolerant of foreign traffic.

use crate::codec::{Message, TimeStamp};
use crate::sync::{spec_now, now, SyncResult};
use vstd::prelude::*;

verus! {

/// Builds the outgoing telemetry message for one send: the epoch is the
/// corrected current time, `tick_ms` stays the raw monotonic tick for
/// correction-proof elapsed-time measurement, and the synchronization
/// fields carry the published correction — or zeros on a cold start.
pub fn stamped_message(counter: u64, tick_ms: u64, sync: Option<SyncResult>) -> (m: Message)
    requires
        sync matches Some(r) ==> 0 <= tick_ms * 1_000_000 + r.offset * 1000,
    ensures
        m matches Message::TimeStamp(t) && t.epoch == spec_now(tick_ms, sync) && t.counter
            == counter && t.tick_ms == tick_ms && (match sync {
            Some(r) => t.ntp_offset == r.offset && t.ntp_seconds == r.seconds
                && t.ntp_seconds_fraction == r.seconds_fraction && t.ntp_roundtrip == r.roundtrip,
            None => t.ntp_offset == 0 && t.ntp_seconds == 0 && t.ntp_seconds_fraction == 0
                && t.ntp_roundtrip == 0,
        }),
{
    let epoch = now(tick_ms, sync);
    match sync {
        Some(r) => Message::TimeStamp(
            TimeStamp {
                epoch,
                counter,
                tick_ms,
                ntp_offset: r.offset,
                ntp_seconds: r.seconds,
                ntp_seconds_fraction: r.seconds_fraction,
                ntp_roundtrip: r.roundtrip,
            },
        ),
        None => Message::TimeStamp(
            TimeStamp {
                epoch,
                counter,
                tick_ms,
                ntp_offset: 0,
                ntp_seconds: 0,
                ntp_seconds_fraction: 0,
                ntp_roundtrip: 0,
            },
        ),
    }
}

} // verus!
