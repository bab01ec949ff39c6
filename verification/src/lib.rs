//! Effective CPU counts for zones.
//!
//! A zone — an OS-level isolated execution context — may run under an
//! administrative CPU cap, expressed in hundredths of a CPU.  This crate
//! answers "how many CPUs does this zone have": the cap, divided down to
//! whole CPUs, when one is configured, and the machine's raw CPU count
//! otherwise.  Both numbers live in the kernel's statistics chain, which
//! [`kstat`] models and traverses under proof.

use vstd::prelude::*;

pub mod kstat;

verus! {

use crate::kstat::{Facility, KstatError, ncpus, scan, zone_cap_name, zone_cpu_cap};

/// An error of the zone-information layer.
#[derive(Debug, Clone, PartialEq)]
pub enum ZoneInfoError {
    /// The statistics layer failed.
    Kstat(KstatError),
    /// An auxiliary OS call failed; carries the OS error code.
    IOError(i32),
}

/// The effective CPU count of a zone, from a facility snapshot and the
/// outcome of the zone identity provider: a configured cap of `c`
/// hundredths of a CPU grants `c / 100` whole CPUs (truncating, so a cap
/// of 50 grants none); with no cap configured, the machine's raw CPU
/// count applies.  Hard errors of either path are passed through
/// unchanged.
pub fn zone_cpus(f: &Facility, zone_id: Result<i32, i32>) -> (r: Result<usize, ZoneInfoError>)
    ensures
        (match f.open_error {
            Some(code) => r matches Err(ZoneInfoError::Kstat(KstatError::Open(c))) && c == code,
            None => match zone_id {
                Err(code) => r matches Err(ZoneInfoError::Kstat(KstatError::Zoneid(c))) && c
                    == code,
                Ok(id) => match scan(f.records@, "caps"@, zone_cap_name(id as int), "value"@, true) {
                    Some(cap) => r matches Ok(n) && n == (cap / 100) as usize,
                    None => match scan(f.records@, "unix"@, "system_misc"@, "ncpus"@, false) {
                        Some(v) => r matches Ok(n) && n as u64 == v,
                        None => r matches Err(ZoneInfoError::Kstat(KstatError::Error(m))) && m@
                            == "cpu count kstat not found"@,
                    },
                },
            },
        }),
{
    match zone_cpu_cap(f, zone_id) {
        Err(e) => Err(ZoneInfoError::Kstat(e)),
        Ok(Some(cap)) => Ok((cap / 100) as usize),
        Ok(None) => match ncpus(f) {
            Ok(n) => Ok(n),
            Err(e) => Err(ZoneInfoError::Kstat(e)),
        },
    }
}

/// Relies on zonename::getzoneid: yields the zone identifier of the
/// calling process, or the OS error code the underlying call left
/// behind.  The result depends on the process's environment, so nothing
/// further is promised of it.
#[verifier::external_body]
fn getzoneid_raw() -> Result<i32, i32> {
    match zonename::getzoneid() {
        Ok(id) => Ok(id),
        Err(e) => Err(e.raw_os_error().unwrap_or(0)),
    }
}

/// The numeric identifier of the zone this process runs in, from the
/// OS's zone identity provider; its failure is passed through as an
/// auxiliary OS error.
pub fn zoneid() -> (r: Result<i32, ZoneInfoError>)
    ensures
        r is Ok || r matches Err(ZoneInfoError::IOError(_)),
{
    match getzoneid_raw() {
        Ok(id) => Ok(id),
        Err(code) => Err(ZoneInfoError::IOError(code)),
    }
}

} // verus!
