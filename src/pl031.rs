//! The PL031 real-time clock: register window, decoding and relocation.
use chrono::{Datelike, Timelike};
use vstd::prelude::*;

use crate::calendar::{
    civil_date, hour_of, is_date_of_day, lemma_date_of_day_unique, minute_of, second_of,
    year_offset_of, SECONDS_PER_DAY,
};
use crate::mem::MemoryRegion;

verus! {

/// Offset of the data register, which holds the seconds since the epoch.
pub const RTCDR: u64 = 0x000;

/// Size of the device's register window in bytes.
pub const WINDOW_LENGTH: u64 = 0x1000;

/// The register value could not be turned into a point in time.
#[derive(Debug, Clone, Copy, PartialEq, Eq)]
pub struct DecodeError;

/// The address translator found no mapping for the device's window.
#[derive(Debug, Clone, Copy, PartialEq, Eq)]
pub struct RelocationError;

/// A PL031 real-time clock, reached through its register window.
pub struct Pl031 {
    region: MemoryRegion,
}

impl Pl031 {
    /// The window keeps the device's size.
    pub closed spec fn wf(&self) -> bool {
        self.region.spec_length() == WINDOW_LENGTH
    }

    /// The address at which the device's window currently starts.
    pub closed spec fn spec_base(&self) -> u64 {
        self.region.spec_base()
    }

    /// The address from which the timestamp is read.
    pub open spec fn spec_timestamp_address(&self) -> int {
        self.spec_base() + RTCDR
    }

    /// A device whose window starts at `base`.
    pub fn new(base: usize) -> (r: Self)
        ensures
            r.wf(),
            r.spec_base() == base as u64,
    {
        Pl031 { region: MemoryRegion::new(base as u64, WINDOW_LENGTH) }
    }

    /// The device's register window.
    pub fn region(&self) -> (r: &MemoryRegion)
        requires
            self.wf(),
        ensures
            r.spec_base() == self.spec_base(),
            r.spec_length() == WINDOW_LENGTH,
    {
        &self.region
    }

    /// The address of the data register, where the current timestamp is read.
    pub fn timestamp_address(&self) -> (r: u64)
        requires
            self.wf(),
        ensures
            r == self.spec_timestamp_address(),
    {
        self.region.register_address(RTCDR)
    }

    /// Moves the device's window to `new_base`, keeping its length.
    pub fn apply_relocation(&mut self, new_base: u64)
        requires
            old(self).wf(),
        ensures
            final(self).wf(),
            final(self).spec_base() == new_base,
    {
        let (_, length) = self.region.as_address_range();
        self.region = MemoryRegion::new(new_base, length);
    }
}

/// After the address space is remapped, moves the device's window to
/// `translated`, the translator's answer for the window's current base.
/// Where the translator found no mapping, the device is left as it was and
/// the failure is returned.
pub fn fix_up(rtc: &mut Pl031, translated: Option<u64>) -> (r: Result<(), RelocationError>)
    requires
        old(rtc).wf(),
    ensures
        final(rtc).wf(),
        match translated {
            Some(b) => r is Ok && final(rtc).spec_base() == b,
            None => r == Err::<(), RelocationError>(RelocationError) && *final(rtc) == *old(rtc),
        },
{
    match translated {
        Some(new_base) => {
            rtc.apply_relocation(new_base);
            Ok(())
        },
        None => Err(RelocationError),
    }
}

/// Once a device has been relocated to `new_base`, its timestamp is read at
/// `new_base + RTCDR`; where the base moved, never at the address used before.
pub proof fn lemma_relocation_redirects_reads(before: Pl031, after: Pl031, new_base: u64)
    requires
        before.wf(),
        after.wf(),
        after.spec_base() == new_base,
    ensures
        after.spec_timestamp_address() == new_base + RTCDR,
        new_base != before.spec_base() ==> after.spec_timestamp_address()
            != before.spec_timestamp_address(),
{
}

/// Decoding the same register value twice gives the same date and the same
/// time of day.
pub proof fn lemma_reading_is_repeatable(
    t: u32,
    date1: Result<(u8, u8, u8), DecodeError>,
    date2: Result<(u8, u8, u8), DecodeError>,
    time1: Result<(u8, u8, u8), DecodeError>,
    time2: Result<(u8, u8, u8), DecodeError>,
)
    requires
        is_date_reading(t as int, date1),
        is_date_reading(t as int, date2),
        is_time_reading(t as int, time1),
        is_time_reading(t as int, time2),
    ensures
        date1 == date2,
        time1 == time2,
{
}

/// A UTC instant split into calendar fields.
pub struct UtcDateTime {
    pub year: i32,
    pub month: u32,
    pub day: u32,
    pub hour: u32,
    pub minute: u32,
    pub second: u32,
}

impl UtcDateTime {
    /// These fields are the UTC date and time `t` seconds after the epoch.
    pub open spec fn is_instant(self, t: int) -> bool {
        &&& is_date_of_day(
            t / SECONDS_PER_DAY as int,
            self.year as int,
            self.month as int,
            self.day as int,
        )
        &&& self.hour == hour_of(t)
        &&& self.minute == minute_of(t)
        &&& self.second == second_of(t)
    }
}

/// Relies on chrono's `DateTime::from_timestamp` (no nanoseconds) and on the
/// `Datelike` / `Timelike` accessors of the instant it returns. For seconds
/// since 1970-01-01T00:00:00Z it gives the UTC instant in the proleptic
/// Gregorian calendar; its range (years up to 262142) holds every `u32`.
#[verifier::external_body]
fn utc_from_timestamp(secs: u32) -> (r: Option<UtcDateTime>)
    ensures
        r.is_some(),
        r.unwrap().is_instant(secs as int),
{
    match chrono::DateTime::from_timestamp(secs as i64, 0) {
        Some(dt) => Some(UtcDateTime {
            year: dt.year(),
            month: dt.month(),
            day: dt.day(),
            hour: dt.hour(),
            minute: dt.minute(),
            second: dt.second(),
        }),
        None => None,
    }
}

/// `r` is the date that `read_date` gives for the register value `t`:
/// year as an offset from 2000 truncated to eight bits, month, day.
pub open spec fn is_date_reading(t: int, r: Result<(u8, u8, u8), DecodeError>) -> bool {
    r matches Ok((yo, mo, da)) && {
        let (y, m, d) = civil_date(t / SECONDS_PER_DAY as int);
        &&& is_date_of_day(t / SECONDS_PER_DAY as int, y, m, d)
        &&& yo == year_offset_of(y)
        &&& mo == m
        &&& da == d
    }
}

/// `r` is the time of day that `read_time` gives for the register value `t`.
pub open spec fn is_time_reading(t: int, r: Result<(u8, u8, u8), DecodeError>) -> bool {
    r matches Ok((h, mi, s)) && h == hour_of(t) && mi == minute_of(t) && s == second_of(t)
}

/// The offset of `year` from 2000, truncated to eight bits.
pub fn year_offset(year: i32) -> (r: u8)
    ensures
        r == year_offset_of(year as int),
{
    // year - 2000 + 2^32, which is nonnegative and equal to year - 2000 modulo 256
    let shifted: u64 = (year as i64 + 2_147_483_648i64) as u64 + 2_147_481_648u64;
    assert(shifted as int == (year as int - 2000) + 256 * 16777216);
    let r: u64 = shifted % 256;
    assert(r == year_offset_of(year as int)) by {
        vstd::arithmetic::div_mod::lemma_mod_multiples_vanish(
            16777216,
            year as int - 2000,
            256,
        );
    }
    r as u8
}

/// Decodes a register value into (year - 2000 truncated to eight bits, month, day), in UTC.
pub fn read_date(timestamp: u32) -> (r: Result<(u8, u8, u8), DecodeError>)
    ensures
        is_date_reading(timestamp as int, r),
{
    match utc_from_timestamp(timestamp) {
        Some(c) => {
            proof {
                lemma_date_of_day_unique(
                    timestamp as int / SECONDS_PER_DAY as int,
                    c.year as int,
                    c.month as int,
                    c.day as int,
                );
            }
            Ok((year_offset(c.year), c.month as u8, c.day as u8))
        },
        None => Err(DecodeError),
    }
}

/// Decodes a register value into (hour, minute, second), in UTC.
pub fn read_time(timestamp: u32) -> (r: Result<(u8, u8, u8), DecodeError>)
    ensures
        is_time_reading(timestamp as int, r),
{
    match utc_from_timestamp(timestamp) {
        Some(c) => Ok((c.hour as u8, c.minute as u8, c.second as u8)),
        None => Err(DecodeError),
    }
}

} // verus!
