//! Copying Takeout timestamps onto media files: which timestamp a file gets,
//! how a run counts its files, and how a Unix time becomes a Windows file time.
use vstd::prelude::*;
use crate::models::TakeoutFixResult;

verus! {

/// What happened to one scanned media file in a timestamp-fix run.
#[derive(Debug, Clone, Copy, PartialEq, Eq, Structural)]
pub enum TakeoutOutcome {
    /// No sidecar file was found.
    NoSidecar,
    /// The sidecar could not be read or parsed.
    SidecarError,
    /// The sidecar holds neither a photo-taken nor a creation time.
    NoTimestamp,
    /// Setting the file's times failed.
    SetTimesFailed,
    /// The file's times were set.
    Updated,
}

/// The time a file is stamped with: when the photo was taken, else when it was
/// created in Google Photos.
pub fn takeout_timestamp(photo_taken_ts: Option<i64>, creation_ts: Option<i64>) -> (r: Option<i64>)
    ensures
        r == match photo_taken_ts {
            Some(t) => Some(t),
            None => creation_ts,
        },
{
    match photo_taken_ts {
        Some(t) => Some(t),
        None => creation_ts,
    }
}

/// The counters after one more file: it is scanned, and counted as updated,
/// as lacking a sidecar (no sidecar or no timestamp in it), or as an error.
pub open spec fn takeout_step(r: TakeoutFixResult, o: TakeoutOutcome) -> TakeoutFixResult {
    let s = TakeoutFixResult { total_scanned: (r.total_scanned + 1) as i64, ..r };
    match o {
        TakeoutOutcome::NoSidecar | TakeoutOutcome::NoTimestamp => TakeoutFixResult {
            no_sidecar: (r.no_sidecar + 1) as i64,
            ..s
        },
        TakeoutOutcome::SidecarError | TakeoutOutcome::SetTimesFailed => TakeoutFixResult {
            errors: (r.errors + 1) as i64,
            ..s
        },
        TakeoutOutcome::Updated => TakeoutFixResult { updated: (r.updated + 1) as i64, ..s },
    }
}

/// Every scanned file is counted exactly once: as updated, as lacking a
/// sidecar, or as an error.
pub open spec fn takeout_balanced(r: TakeoutFixResult) -> bool {
    &&& r.total_scanned == r.updated + r.no_sidecar + r.errors
    &&& r.updated >= 0
    &&& r.no_sidecar >= 0
    &&& r.errors >= 0
}

impl TakeoutFixResult {
    /// The counters of a run that has scanned nothing yet.
    pub fn new() -> (r: TakeoutFixResult)
        ensures
            r.total_scanned == 0,
            r.updated == 0,
            r.no_sidecar == 0,
            r.errors == 0,
            takeout_balanced(r),
    {
        TakeoutFixResult { total_scanned: 0, updated: 0, no_sidecar: 0, errors: 0 }
    }

    /// Counts one more scanned file. Counters that were balanced stay so.
    pub fn record(&mut self, o: TakeoutOutcome)
        requires
            old(self).total_scanned < i64::MAX,
            (o == TakeoutOutcome::NoSidecar || o == TakeoutOutcome::NoTimestamp)
                ==> old(self).no_sidecar < i64::MAX,
            (o == TakeoutOutcome::SidecarError || o == TakeoutOutcome::SetTimesFailed)
                ==> old(self).errors < i64::MAX,
            o == TakeoutOutcome::Updated ==> old(self).updated < i64::MAX,
        ensures
            *final(self) == takeout_step(*old(self), o),
            takeout_balanced(*old(self)) ==> takeout_balanced(*final(self)),
    {
        self.total_scanned = self.total_scanned + 1;
        match o {
            TakeoutOutcome::NoSidecar | TakeoutOutcome::NoTimestamp => {
                self.no_sidecar = self.no_sidecar + 1;
            },
            TakeoutOutcome::SidecarError | TakeoutOutcome::SetTimesFailed => {
                self.errors = self.errors + 1;
            },
            TakeoutOutcome::Updated => {
                self.updated = self.updated + 1;
            },
        }
    }
}

/// The counters of a run stay balanced whatever happens to each file: every
/// scanned file is counted once as updated, lacking a sidecar, or an error.
pub proof fn law_takeout_counts_balanced(r: TakeoutFixResult, o: TakeoutOutcome)
    requires
        takeout_balanced(r),
        r.total_scanned < i64::MAX,
    ensures
        takeout_balanced(takeout_step(r, o)),
        takeout_step(r, o).total_scanned == r.total_scanned + 1,
{
}

/// Seconds from 1601-01-01 (the Windows file-time epoch) to 1970-01-01.
pub const WINDOWS_EPOCH_OFFSET_SECS: i64 = 11_644_473_600;

/// A Unix time in 100-nanosecond intervals since 1601-01-01.
pub open spec fn filetime_spec(unix_ts: i64) -> int {
    (unix_ts + 11_644_473_600) * 10_000_000
}

/// The Unix times whose Windows file time fits in an `i64`.
pub open spec fn filetime_fits(unix_ts: i64) -> bool {
    i64::MIN <= filetime_spec(unix_ts) <= i64::MAX
}

/// A Unix time as a Windows `FILETIME`: its low and high 32-bit words, which
/// together hold the file time as a 64-bit two's-complement number.
pub fn unix_to_filetime(unix_ts: i64) -> (r: (u32, u32))
    requires
        filetime_fits(unix_ts),
    ensures
        r.0 + r.1 * 0x1_0000_0000 == if filetime_spec(unix_ts) >= 0 {
            filetime_spec(unix_ts)
        } else {
            filetime_spec(unix_ts) + 0x1_0000_0000_0000_0000
        },
{
    assert(-922_337_203_685 <= unix_ts + 11_644_473_600 <= 922_337_203_685) by (nonlinear_arith)
        requires
            i64::MIN <= (unix_ts + 11_644_473_600) * 10_000_000 <= i64::MAX,
    ;
    let windows_100ns: i64 = (unix_ts + WINDOWS_EPOCH_OFFSET_SECS) * 10_000_000;
    let u: u64 = windows_100ns as u64;
    let low: u32 = (u & 0xFFFF_FFFF) as u32;
    let high: u32 = ((u >> 32) & 0xFFFF_FFFF) as u32;
    assert(low as int + high as int * 0x1_0000_0000 == u as int) by (bit_vector)
        requires
            low == (u & 0xFFFF_FFFF) as u32,
            high == ((u >> 32) & 0xFFFF_FFFF) as u32,
    ;
    assert(u as int == if windows_100ns >= 0 {
        windows_100ns as int
    } else {
        windows_100ns as int + 0x1_0000_0000_0000_0000
    }) by (bit_vector)
        requires
            u == windows_100ns as u64,
    ;
    (low, high)
}

/// The seconds after 1970-01-01 that a file's times are set to elsewhere than on
/// Windows: the Unix time, or zero for a time before 1970.
pub fn unix_secs_for_file(unix_ts: i64) -> (r: u64)
    ensures
        r == if unix_ts < 0 {
            0
        } else {
            unix_ts as int
        },
{
    if unix_ts < 0 {
        0
    } else {
        unix_ts as u64
    }
}

} // verus!
