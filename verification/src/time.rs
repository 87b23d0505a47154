//! Points in time as plain values: seconds and nanoseconds since the Unix epoch.

use vstd::prelude::*;

verus! {

/// A point in time: `secs` seconds and `nanos` nanoseconds after 1970-01-01T00:00:00Z.
#[derive(Clone, Copy, Debug, Default, PartialEq, Eq, Structural)]
pub struct Timestamp {
    pub secs: i64,
    pub nanos: u32,
}

pub const NANOS_PER_SEC: u32 = 1_000_000_000;

impl Timestamp {
    /// Well-formed: the sub-second part is below one second.
    pub open spec fn wf(self) -> bool {
        self.nanos < NANOS_PER_SEC
    }

    /// Within the range of `chrono::DateTime<Utc>`, with room for one more second.
    pub open spec fn in_chrono_range(self) -> bool {
        -8_334_601_315_200 <= self.secs < 8_210_266_876_799
    }

    /// A time `chrono::DateTime<Utc>` can hold.
    pub open spec fn representable(self) -> bool {
        self.wf() && -8_334_601_315_200 <= self.secs <= 8_210_266_876_799
    }

    /// `self` is not after `other` (the order of `DateTime`).
    pub open spec fn not_after(self, other: Timestamp) -> bool {
        self.secs < other.secs || (self.secs == other.secs && self.nanos <= other.nanos)
    }

    /// The instant as a count of nanoseconds since the epoch.
    pub open spec fn total_nanos(self) -> int {
        self.secs * 1_000_000_000 + self.nanos
    }

    /// Whether chrono can hold the time.
    pub fn is_representable(&self) -> (r: bool)
        ensures
            r == self.representable(),
    {
        self.nanos < NANOS_PER_SEC && -8_334_601_315_200 <= self.secs && self.secs <= 8_210_266_876_799
    }

    /// Whether chrono can hold the time and one more second.
    pub fn is_in_chrono_range(&self) -> (r: bool)
        ensures
            r == self.in_chrono_range(),
    {
        -8_334_601_315_200 <= self.secs && self.secs < 8_210_266_876_799
    }

    /// A timestamp at a whole number of seconds.
    pub fn from_secs(secs: i64) -> (r: Timestamp)
        ensures
            r.secs == secs,
            r.nanos == 0,
            r.wf(),
    {
        Timestamp { secs, nanos: 0 }
    }
}

/// How long after `since` the instant `now` lies, in nanoseconds, and zero when `now`
/// is not later (what `(now - since).to_std().unwrap_or_default()` gives).
pub open spec fn elapsed_nanos(now: Timestamp, since: Timestamp) -> nat {
    if now.total_nanos() > since.total_nanos() {
        (now.total_nanos() - since.total_nanos()) as nat
    } else {
        0
    }
}

/// Time elapsed from `since` to `now` in nanoseconds, saturating at zero.
pub fn elapsed_since(now: Timestamp, since: Timestamp) -> (r: u128)
    ensures
        r == elapsed_nanos(now, since),
{
    let a: i128 = now.secs as i128 * 1_000_000_000i128 + now.nanos as i128;
    let b: i128 = since.secs as i128 * 1_000_000_000i128 + since.nanos as i128;
    if a > b {
        (a - b) as u128
    } else {
        0
    }
}

/// Whether at least `secs` whole seconds have passed from `since` to `now`.
pub fn elapsed_at_least(now: Timestamp, since: Timestamp, secs: u64) -> (r: bool)
    ensures
        r == (elapsed_nanos(now, since) >= secs * 1_000_000_000),
{
    let e = elapsed_since(now, since);
    e >= secs as u128 * 1_000_000_000u128
}


/// Whether `a` is not after `b`.
pub fn not_after(a: Timestamp, b: Timestamp) -> (r: bool)
    ensures
        r == a.not_after(b),
{
    a.secs < b.secs || (a.secs == b.secs && a.nanos <= b.nanos)
}

/// `SystemTime::now().duration_since(UNIX_EPOCH)` in nanoseconds; none before the epoch.
#[verifier::external_body]
pub(crate) fn clock_nanos_since_epoch() -> Option<u128> {
    std::time::SystemTime::now().duration_since(std::time::UNIX_EPOCH).ok().map(|d| d.as_nanos())
}

/// The largest second since the epoch that chrono's `DateTime<Utc>` can hold.
pub const CHRONO_MAX_SECS: u64 = 8_210_266_876_799;

/// The current time, as chrono's `Utc::now()` reads it from the system clock; none where
/// `Utc::now()` would panic: a clock before the epoch, or past chrono's last second.
pub fn now_utc() -> (r: Option<Timestamp>)
    ensures
        r matches Some(t) ==> t.representable() && 0 <= t.secs,
{
    match clock_nanos_since_epoch() {
        None => None,
        Some(n) => {
            let secs = n / 1_000_000_000;
            if secs > CHRONO_MAX_SECS as u128 {
                None
            } else {
                Some(Timestamp { secs: secs as i64, nanos: (n % 1_000_000_000) as u32 })
            }
        },
    }
}

} // verus!
