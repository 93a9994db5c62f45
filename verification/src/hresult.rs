//! COM status codes (HRESULT, as signed 32-bit integers) that the library
//! produces or recognises.

use vstd::prelude::*;

verus! {

/// Success.
pub const S_OK: i32 = 0;
/// Success, fewer items than requested (enumerators at their end).
pub const S_FALSE: i32 = 1;
/// General access denied (`0x80070005`).
pub const E_ACCESSDENIED: i32 = -2147024891;
/// One or more arguments are invalid (`0x80070057`).
pub const E_INVALIDARG: i32 = -2147024809;
/// Invalid pointer (`0x80004003`).
pub const E_POINTER: i32 = -2147467261;
/// Not implemented (`0x80004001`).
pub const E_NOTIMPL: i32 = -2147467263;
/// No such interface supported (`0x80004002`).
pub const E_NOINTERFACE: i32 = -2147467262;
/// Out of memory (`0x8007000E`).
pub const E_OUTOFMEMORY: i32 = -2147024882;
/// Unspecified failure (`0x80004005`).
pub const E_FAIL: i32 = -2147467259;
/// The cookie names no connection (`0x80040200`).
pub const CONNECT_E_NOCONNECTION: i32 = -2147220992;
/// The sink does not support the connection's interface (`0x80040202`).
pub const CONNECT_E_CANNOTCONNECT: i32 = -2147220990;
/// The item id is not known to the server (`0xC0040007`).
pub const OPC_E_INVALIDITEMID: i32 = -1073479673;
/// RPC server unavailable (`0x800706BA`).
pub const RPC_S_SERVER_UNAVAILABLE: i32 = -2147023174;
/// Remote procedure call failed (`0x800706BE`).
pub const RPC_S_CALL_FAILED: i32 = -2147023170;
/// Remote procedure call failed and did not execute (`0x800706BF`).
pub const RPC_S_CALL_FAILED_DNE: i32 = -2147023169;
/// Server execution failed (`0x80080005`).
pub const CO_E_SERVER_EXEC_FAILURE: i32 = -2146959355;

/// A success code (non-negative HRESULT).
pub open spec fn succeeded(hr: i32) -> bool {
    hr >= 0
}

/// Whether `hr` reports that the COM server's process or RPC channel is
/// gone, so the cached connection must be dropped and re-established.
pub open spec fn is_connection_hresult(hr: i32) -> bool {
    hr == RPC_S_SERVER_UNAVAILABLE || hr == RPC_S_CALL_FAILED_DNE || hr == RPC_S_CALL_FAILED
        || hr == CO_E_SERVER_EXEC_FAILURE
}

/// Executable form of [`is_connection_hresult`].
pub fn is_connection_code(hr: i32) -> (r: bool)
    ensures
        r == is_connection_hresult(hr),
{
    hr == RPC_S_SERVER_UNAVAILABLE || hr == RPC_S_CALL_FAILED_DNE || hr == RPC_S_CALL_FAILED
        || hr == CO_E_SERVER_EXEC_FAILURE
}

} // verus!
