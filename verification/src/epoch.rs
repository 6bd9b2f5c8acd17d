//! Absolute time since a fixed reference instant, held as a normalized
//! (seconds, nanoseconds) pair, together with the carry/borrow arithmetic
//! that applies signed clock corrections to it.

use vstd::arithmetic::div_mod::{
    lemma_div_is_ordered, lemma_fundamental_div_mod, lemma_fundamental_div_mod_converse_div,
    lemma_fundamental_div_mod_converse_mod, lemma_mod_division_less_than_divisor,
};
use vstd::prelude::*;

verus! {

/// An absolute point in time since the fixed reference instant.
///
/// Invariant (see [`Epoch::wf`]): `nanoseconds` is strictly below one second.
#[derive(Clone, Copy, Debug, PartialEq, Eq, Structural)]
pub struct Epoch {
    pub seconds: u64,
    pub nanoseconds: u32,
}

impl Epoch {
    /// The invariant: the nanosecond field carries strictly less than one second.
    pub open spec fn wf(self) -> bool {
        self.nanoseconds < 1_000_000_000
    }

    /// The whole point in time as a single nanosecond count.
    pub open spec fn total_nanos(self) -> int {
        self.seconds * 1_000_000_000 + self.nanoseconds
    }
}

/// The largest nanosecond count any `Epoch` can hold.
pub open spec fn max_total_nanos() -> int {
    u64::MAX * 1_000_000_000 + 999_999_999
}

/// The unique normalized epoch holding `total` nanoseconds, for
/// `0 <= total <= max_total_nanos()`.
pub open spec fn from_total_nanos(total: int) -> Epoch {
    Epoch {
        seconds: (total / 1_000_000_000) as u64,
        nanoseconds: (total % 1_000_000_000) as u32,
    }
}

/// Whether adding `offset_us` microseconds to `e` stays representable:
/// it neither drives the seconds count below zero nor past `u64::MAX`.
pub open spec fn offset_in_range(e: Epoch, offset_us: int) -> bool {
    &&& 0 <= e.total_nanos() + offset_us * 1000
    &&& e.total_nanos() + offset_us * 1000 <= max_total_nanos()
}

/// `from_total_nanos` yields a normalized epoch holding exactly `total`.
pub proof fn lemma_from_total_nanos_props(total: int)
    requires
        0 <= total <= max_total_nanos(),
    ensures
        from_total_nanos(total).wf(),
        from_total_nanos(total).total_nanos() == total,
{
    lemma_mod_division_less_than_divisor(total, 1_000_000_000);
    lemma_fundamental_div_mod(total, 1_000_000_000);
    lemma_div_is_ordered(total, max_total_nanos(), 1_000_000_000);
    lemma_fundamental_div_mod_converse_div(
        max_total_nanos(),
        1_000_000_000,
        u64::MAX as int,
        999_999_999,
    );
}

/// A normalized epoch is recovered from its own nanosecond count: the
/// normalized representation of any instant is unique.
pub proof fn lemma_from_total_nanos_inverse(e: Epoch)
    requires
        e.wf(),
    ensures
        from_total_nanos(e.total_nanos()) == e,
{
    lemma_fundamental_div_mod_converse_div(
        e.total_nanos(),
        1_000_000_000,
        e.seconds as int,
        e.nanoseconds as int,
    );
    lemma_fundamental_div_mod_converse_mod(
        e.total_nanos(),
        1_000_000_000,
        e.seconds as int,
        e.nanoseconds as int,
    );
}

/// Splits a raw nanosecond count into a normalized epoch.
fn from_total(total: u128) -> (r: Epoch)
    requires
        total <= max_total_nanos(),
    ensures
        r == from_total_nanos(total as int),
        r.wf(),
        r.total_nanos() == total,
{
    proof {
        lemma_from_total_nanos_props(total as int);
    }
    let s: u128 = total / 1_000_000_000;
    let n: u128 = total % 1_000_000_000;
    Epoch { seconds: s as u64, nanoseconds: n as u32 }
}

/// Carries or borrows a possibly far-out-of-range signed nanosecond delta
/// into a canonical `Epoch`, so that the result holds exactly
/// `seconds * 1e9 + nanos_delta` nanoseconds.
///
/// The delta may lie many whole seconds outside `[0, 1e9)`; the only inputs
/// left out are those whose total would fall below zero or beyond what a
/// `u64` seconds count can hold.
pub fn normalize(seconds: u64, nanos_delta: i64) -> (r: Epoch)
    requires
        0 <= seconds * 1_000_000_000 + nanos_delta,
        seconds * 1_000_000_000 + nanos_delta <= max_total_nanos(),
    ensures
        r == from_total_nanos(seconds * 1_000_000_000 + nanos_delta),
        r.wf(),
        r.total_nanos() == seconds * 1_000_000_000 + nanos_delta,
{
    let base: u128 = (seconds as u128) * 1_000_000_000;
    let total: u128 = if nanos_delta >= 0 {
        base + (nanos_delta as u128)
    } else {
        base - ((-(nanos_delta as i128)) as u128)
    };
    from_total(total)
}

/// Applies a signed microsecond clock correction to a normalized epoch.
///
/// The result holds exactly `epoch.total_nanos() + offset_us * 1000`
/// nanoseconds. A correction that would drive the unsigned seconds count
/// below zero (or past `u64::MAX`) is a precondition violation: such a call
/// signals broken offset arithmetic in the caller and is never answered
/// with a silently clamped or wrapped value.
pub fn apply_offset_micros(epoch: Epoch, offset_us: i64) -> (r: Epoch)
    requires
        epoch.wf(),
        offset_in_range(epoch, offset_us as int),
    ensures
        r == from_total_nanos(epoch.total_nanos() + offset_us * 1000),
        r.wf(),
        r.total_nanos() == epoch.total_nanos() + offset_us * 1000,
{
    let base: u128 = (epoch.seconds as u128) * 1_000_000_000 + (epoch.nanoseconds as u128);
    let offset_ns: i128 = (offset_us as i128) * 1000;
    let total: u128 = if offset_ns >= 0 {
        base + (offset_ns as u128)
    } else {
        base - ((-offset_ns) as u128)
    };
    from_total(total)
}

/// Total form of [`apply_offset_micros`]: answers `None` exactly on the
/// inputs that the partial function rejects, instead of requiring the
/// caller to rule them out.
pub fn apply_offset_micros_checked(epoch: Epoch, offset_us: i64) -> (r: Option<Epoch>)
    requires
        epoch.wf(),
    ensures
        offset_in_range(epoch, offset_us as int) ==> r == Some(
            from_total_nanos(epoch.total_nanos() + offset_us * 1000),
        ),
        !offset_in_range(epoch, offset_us as int) ==> r is None,
{
    let base: u128 = (epoch.seconds as u128) * 1_000_000_000 + (epoch.nanoseconds as u128);
    let offset_ns: i128 = (offset_us as i128) * 1000;
    if offset_ns >= 0 {
        let max_total: u128 = (u64::MAX as u128) * 1_000_000_000 + 999_999_999;
        let total: u128 = base + (offset_ns as u128);
        if total > max_total {
            None
        } else {
            Some(from_total(total))
        }
    } else {
        let neg: u128 = (-offset_ns) as u128;
        if neg > base {
            None
        } else {
            Some(from_total(base - neg))
        }
    }
}

/// Law: a zero correction is the identity on normalized epochs, so
/// `apply_offset_micros(e, 0)` returns `e` itself.
pub proof fn lemma_apply_zero_offset_identity(e: Epoch)
    requires
        e.wf(),
    ensures
        from_total_nanos(e.total_nanos() + 0 * 1000) == e,
{
    lemma_from_total_nanos_inverse(e);
}

/// Law: applying a correction and then its negation returns to the original
/// epoch, for every correction that keeps the seconds count in range.
pub proof fn lemma_offset_symmetry(e: Epoch, x: i64)
    requires
        e.wf(),
        offset_in_range(e, x as int),
    ensures
        ({
            let mid: Epoch = from_total_nanos(e.total_nanos() + x * 1000);
            &&& offset_in_range(mid, -(x as int))
            &&& from_total_nanos(mid.total_nanos() + -(x as int) * 1000) == e
        }),
{
    let total: int = e.total_nanos() + x * 1000;
    lemma_from_total_nanos_props(total);
    let mid: Epoch = from_total_nanos(total);
    assert(mid.total_nanos() + -(x as int) * 1000 == e.total_nanos());
    lemma_from_total_nanos_inverse(e);
}

} // verus!
