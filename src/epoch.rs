//! Where elapsed time is measured from, and reading the clock against it.
use vstd::prelude::*;
use std::time::{Duration, Instant, SystemTime};

verus! {

#[verifier::external_type_specification]
#[verifier::external_body]
pub struct ExInstant(std::time::Instant);

#[verifier::external_type_specification]
#[verifier::external_body]
pub struct ExSystemTime(std::time::SystemTime);

/// Relies on `Duration::as_millis`: the whole milliseconds of a duration.
pub assume_specification[ core::time::Duration::as_millis ](d: &core::time::Duration) -> u128;

/// Relies on `Instant::now`: a reading of the monotonic clock.
#[verifier::external_body]
fn instant_now() -> (r: Instant) {
    Instant::now()
}

/// Relies on `SystemTime::now`: a reading of the wall clock.
#[verifier::external_body]
fn system_now() -> (r: SystemTime) {
    SystemTime::now()
}

/// Relies on `Instant::elapsed`: the time since `anchor`, zero where `anchor` is
/// later than now.
#[verifier::external_body]
fn elapsed_since(anchor: &Instant) -> (r: Duration) {
    anchor.elapsed()
}

/// Relies on `SystemTime::duration_since` with `UNIX_EPOCH`: `Ok` with the time since
/// the Unix epoch, or `Err` with the time before it.
#[verifier::external_body]
fn since_unix_epoch(t: &SystemTime) -> (r: Result<Duration, Duration>) {
    match t.duration_since(std::time::UNIX_EPOCH) {
        Ok(d) => Ok(d),
        Err(e) => Err(e.duration()),
    }
}

/// Whole milliseconds from the Unix epoch to `t`: `Ok` where `t` is after it, `Err`
/// with the distance where `t` is before it.
fn millis_since_unix_epoch(t: &SystemTime) -> (r: Result<u128, u128>) {
    match since_unix_epoch(t) {
        Ok(d) => Ok(d.as_millis()),
        Err(d) => Err(d.as_millis()),
    }
}

/// Signed milliseconds from the Unix epoch: a count after it (`Ok`) or before it
/// (`Err`), each held to `u64::MAX`.
pub open spec fn signed_unix_millis(since: Result<u128, u128>) -> int {
    match since {
        Ok(ms) => clamp_u64(ms as int) as int,
        Err(ms) => -(clamp_u64(ms as int) as int),
    }
}

/// Signed milliseconds from the Unix epoch, from a count after it (`Ok`) or before
/// it (`Err`); counts beyond `u64::MAX` are held there.
pub fn signed_millis(since: Result<u128, u128>) -> (r: i128)
    ensures
        r == signed_unix_millis(since),
{
    match since {
        Ok(ms) => {
            if ms > u64::MAX as u128 {
                u64::MAX as i128
            } else {
                ms as i128
            }
        },
        Err(ms) => {
            if ms > u64::MAX as u128 {
                -(u64::MAX as i128)
            } else {
                -(ms as i128)
            }
        },
    }
}

/// The instant from which a generator measures its timestamps.
pub enum Epoch {
    /// A wall-clock time.
    SystemTime(SystemTime),
    /// An instant of the monotonic clock.
    Instant(Instant),
    /// Milliseconds since the Unix epoch; negative before it.
    MillisecondsSinceUnixEpoch(i64),
}

/// An epoch tied to the monotonic clock: the timestamp at any moment is `offset_ms`
/// plus the whole milliseconds since `anchor`, so later changes of the wall clock
/// do not move it.
pub struct ClockOrigin {
    anchor: Instant,
    offset_ms: i128,
}

/// `v` held to the range of `u64`.
pub open spec fn clamp_u64(v: int) -> u64 {
    if v < 0 {
        0
    } else if v > u64::MAX {
        u64::MAX
    } else {
        v as u64
    }
}

impl ClockOrigin {
    /// The origin whose anchor is `anchor`, taken when the wall clock read
    /// `now_unix_ms` milliseconds since the Unix epoch, for an epoch at `epoch_unix_ms`:
    /// at the anchor, `now_unix_ms - epoch_unix_ms` milliseconds have passed since the
    /// epoch.
    pub fn origin_at(anchor: Instant, now_unix_ms: i128, epoch_unix_ms: i128) -> (r: ClockOrigin)
        requires
            -(u64::MAX as int) <= now_unix_ms <= u64::MAX,
            -(u64::MAX as int) <= epoch_unix_ms <= u64::MAX,
        ensures
            r.anchor() == anchor,
            r.offset_ms() == now_unix_ms - epoch_unix_ms,
    {
        ClockOrigin { anchor, offset_ms: now_unix_ms - epoch_unix_ms }
    }

    #[verifier::type_invariant]
    pub(crate) open spec fn inv(self) -> bool {
        self.wf()
    }

    pub closed spec fn anchor(&self) -> Instant {
        self.anchor
    }

    /// Milliseconds from the epoch to the anchor; negative where the epoch is later.
    pub closed spec fn offset_ms(&self) -> int {
        self.offset_ms as int
    }

    pub open spec fn wf(&self) -> bool {
        -2 * (u64::MAX as int) <= self.offset_ms() <= 2 * (u64::MAX as int)
    }

    /// Milliseconds since the epoch, now, held to the range of `u64`: a clock that
    /// has not reached the epoch reads 0.
    pub fn now_millis(&self) -> (r: u64)
        ensures
            exists|e: int| 0 <= e <= u64::MAX && r == #[trigger] clamp_u64(self.offset_ms() + e),
    {
        proof {
            use_type_invariant(self);
        }
        let ms = elapsed_since(&self.anchor).as_millis();
        let e: u64 = if ms > u64::MAX as u128 {
            u64::MAX
        } else {
            ms as u64
        };
        let v: i128 = self.offset_ms + e as i128;
        let r = if v < 0 {
            0
        } else if v > u64::MAX as i128 {
            u64::MAX
        } else {
            v as u64
        };
        assert(r == clamp_u64(self.offset_ms() + e as int));
        r
    }
}

impl Epoch {
    /// Ties the epoch to the monotonic clock. An instant is the anchor itself, with
    /// no offset. For a wall-clock time or a count of milliseconds, the monotonic and
    /// the wall clock are read once, now: the monotonic reading becomes the anchor,
    /// and the offset is the wall-clock reading minus the epoch, both in signed
    /// milliseconds since the Unix epoch. A wall-clock time and the count of
    /// milliseconds that names it thus give the same offset for the same readings.
    pub fn normalize(self) -> (r: ClockOrigin)
        ensures
            r.wf(),
            self matches Epoch::Instant(i) ==> r.anchor() == i && r.offset_ms() == 0,
            self matches Epoch::MillisecondsSinceUnixEpoch(m) ==> exists|now: Result<u128, u128>|
                r.offset_ms() == #[trigger] signed_unix_millis(now) - m,
            self matches Epoch::SystemTime(_) ==> exists|now: Result<u128, u128>|
                exists|since: Result<u128, u128>|
                    r.offset_ms() == #[trigger] signed_unix_millis(now) - #[trigger] signed_unix_millis(
                        since,
                    ),
    {
        match self {
            Epoch::Instant(i) => ClockOrigin::origin_at(i, 0, 0),
            Epoch::SystemTime(t) => {
                let anchor = instant_now();
                let now = millis_since_unix_epoch(&system_now());
                let since = millis_since_unix_epoch(&t);
                let r = ClockOrigin::origin_at(anchor, signed_millis(now), signed_millis(since));
                assert(r.offset_ms() == signed_unix_millis(now) - signed_unix_millis(since));
                r
            },
            Epoch::MillisecondsSinceUnixEpoch(m) => {
                let anchor = instant_now();
                let now = millis_since_unix_epoch(&system_now());
                let r = ClockOrigin::origin_at(anchor, signed_millis(now), m as i128);
                assert(r.offset_ms() == signed_unix_millis(now) - m);
                r
            },
        }
    }
}

} // verus!
