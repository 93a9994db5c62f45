//! The server object's status report and the FILETIME form of times.

use vstd::prelude::*;
use vstd::string::*;

verus! {

/// `OPC_STATUS_RUNNING`.
pub const OPC_STATUS_RUNNING: u32 = 1;

/// Seconds from 1601-01-01 (the FILETIME epoch) to 1970-01-01.
pub const EPOCH_GAP_SECS: u64 = 11_644_473_600;

/// `a + b`, or `u64::MAX` where it overflows.
pub open spec fn sat_add(a: nat, b: nat) -> nat {
    if a + b > u64::MAX {
        u64::MAX as nat
    } else {
        a + b
    }
}

/// `a * b`, or `u64::MAX` where it overflows.
pub open spec fn sat_mul(a: nat, b: nat) -> nat {
    if a * b > u64::MAX {
        u64::MAX as nat
    } else {
        a * b
    }
}

/// The FILETIME (100 ns intervals since 1601) of a Unix time `secs` +
/// `nanos` ns, each step saturating.
pub open spec fn filetime_intervals(secs: u64, nanos: u32) -> nat {
    sat_add(sat_mul(sat_add(secs as nat, EPOCH_GAP_SECS as nat), 10_000_000), (nanos / 100) as nat)
}

/// Executable form of [`filetime_intervals`].
pub fn unix_to_filetime(secs: u64, nanos: u32) -> (r: u64)
    ensures
        r == filetime_intervals(secs, nanos),
{
    let a = secs.saturating_add(EPOCH_GAP_SECS);
    let b = match a.checked_mul(10_000_000) {
        Some(v) => v,
        None => u64::MAX,
    };
    b.saturating_add((nanos / 100) as u64)
}

/// The low and high 32-bit halves of a FILETIME.
pub fn filetime_halves(intervals: u64) -> (r: (u32, u32))
    ensures
        r.0 == intervals % 0x1_0000_0000,
        r.1 == intervals / 0x1_0000_0000,
{
    ((intervals % 0x1_0000_0000) as u32, (intervals / 0x1_0000_0000) as u32)
}

/// What `IOPCServer::GetStatus` reports.
pub struct ServerStatusRecord {
    pub start_time: u64,
    pub current_time: u64,
    pub last_update_time: u64,
    pub server_state: u32,
    pub group_count: u32,
    pub band_width: u32,
    pub major_version: u16,
    pub minor_version: u16,
    pub build_number: u16,
    pub vendor_info: String,
}

/// The server COM object.
pub struct ServerObj;

impl ServerObj {
    /// `GetStatus` at FILETIME `now`: running, every time `now`, no groups,
    /// version 0.1.0, vendor `opc-da-server (Rust)`.
    pub fn status(&self, now: u64) -> (r: ServerStatusRecord)
        ensures
            r.start_time == now && r.current_time == now && r.last_update_time == now,
            r.server_state == OPC_STATUS_RUNNING,
            r.group_count == 0 && r.band_width == 0,
            r.major_version == 0 && r.minor_version == 1 && r.build_number == 0,
            r.vendor_info@ == "opc-da-server (Rust)"@,
    {
        ServerStatusRecord {
            start_time: now,
            current_time: now,
            last_update_time: now,
            server_state: OPC_STATUS_RUNNING,
            group_count: 0,
            band_width: 0,
            major_version: 0,
            minor_version: 1,
            build_number: 0,
            vendor_info: String::from_str("opc-da-server (Rust)"),
        }
    }
}

} // verus!
