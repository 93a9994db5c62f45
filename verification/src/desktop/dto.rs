//! Payloads for the web view, built from the client's results.

use vstd::prelude::*;
use vstd::string::*;

use crate::client::fusion::FusionEvent;
use crate::client::types::{OpcError, ServerDesc, TagValue, WriteResult};
use crate::text::{decimal, push_decimal_u64};

verus! {

/// A row of the read table.
pub struct TagRow {
    pub tag_id: String,
    pub value: String,
    pub timestamp: String,
    pub quality: String,
}

/// One pushed update of a subscription.
pub struct TagUpdate {
    pub tag_id: String,
    pub value: String,
    pub data_type: String,
    pub timestamp: String,
    pub quality: String,
}

/// One leaf tag found by a browse.
pub struct TagDescriptor {
    pub item_id: String,
}

/// The descriptor of a found tag.
pub fn tag_descriptor(item_id: String) -> (d: TagDescriptor)
    ensures
        d.item_id@ == item_id@,
{
    TagDescriptor { item_id }
}

/// One server in the server list.
pub struct ServerInfo {
    pub prog_id: String,
    pub clsid: String,
    pub user_type: Option<String>,
}

/// The outcome of one write.
pub struct WriteResultDto {
    pub tag_id: String,
    pub success: bool,
    pub error: Option<String>,
}

/// A new subscription: its cookie and how many tags it covers.
pub struct SubscriptionCreated {
    pub cookie: u32,
    pub tag_count: usize,
}

/// What the fusion reader reports to the web view.
pub enum FusionEventDto {
    Data(TagUpdate),
    Subscribed,
    Fallback { message: String },
}

/// The row of a tag value.
pub fn tag_row(t: TagValue) -> (r: TagRow)
    ensures
        r.tag_id@ == t.tag_id@,
        r.value@ == t.value@,
        r.timestamp@ == t.timestamp@,
        r.quality@ == t.quality@,
{
    TagRow { tag_id: t.tag_id, value: t.value, timestamp: t.timestamp, quality: t.quality }
}

/// The update of a tag value.
pub fn tag_update(t: TagValue) -> (r: TagUpdate)
    ensures
        r.tag_id@ == t.tag_id@,
        r.value@ == t.value@,
        r.data_type@ == t.data_type@,
        r.timestamp@ == t.timestamp@,
        r.quality@ == t.quality@,
{
    TagUpdate {
        tag_id: t.tag_id,
        value: t.value,
        data_type: t.data_type,
        timestamp: t.timestamp,
        quality: t.quality,
    }
}

/// The list entry of a server.
pub fn server_info(s: ServerDesc) -> (r: ServerInfo)
    ensures
        r.prog_id@ == s.prog_id@,
        r.clsid@ == s.clsid@,
        r.user_type == s.user_type,
{
    ServerInfo { prog_id: s.prog_id, clsid: s.clsid, user_type: s.user_type }
}

/// The payload of a write result.
pub fn write_result_dto(w: WriteResult) -> (r: WriteResultDto)
    ensures
        r.tag_id@ == w.tag_id@,
        r.success == w.success,
        r.error == w.error,
{
    WriteResultDto { tag_id: w.tag_id, success: w.success, error: w.error }
}

/// The text an error carries.
pub open spec fn error_text(e: OpcError) -> Seq<char> {
    match e {
        OpcError::Com { message, .. } => message@,
        OpcError::Connection(m) => m@,
        OpcError::NotImplemented(m) => m@,
        OpcError::InvalidState(m) => m@,
        OpcError::Internal(m) => m@,
    }
}

/// The text an error carries.
pub fn error_message(e: OpcError) -> (r: String)
    ensures
        r@ == error_text(e),
{
    match e {
        OpcError::Com { message, .. } => message,
        OpcError::Connection(m) => m,
        OpcError::NotImplemented(m) => m,
        OpcError::InvalidState(m) => m,
        OpcError::Internal(m) => m,
    }
}

/// The web view's form of a fusion event: values as updates, a fallback
/// with its reason's text.
pub fn fusion_event_dto(ev: FusionEvent) -> (r: FusionEventDto)
    ensures
        ev matches FusionEvent::Data(t) ==> (r matches FusionEventDto::Data(u) && u.tag_id@ == t.tag_id@
            && u.value@ == t.value@ && u.data_type@ == t.data_type@ && u.timestamp@ == t.timestamp@
            && u.quality@ == t.quality@),
        ev is Subscribed ==> r is Subscribed,
        ev matches FusionEvent::Fallback(e) ==> (r matches FusionEventDto::Fallback { message }
            && message@ == error_text(e)),
{
    match ev {
        FusionEvent::Data(t) => FusionEventDto::Data(tag_update(t)),
        FusionEvent::Subscribed => FusionEventDto::Subscribed,
        FusionEvent::Fallback(e) => FusionEventDto::Fallback { message: error_message(e) },
    }
}

/// A JSON integer to write: kept as an `i32` when it fits (`Some`), else
/// written as a float (`None`).
pub fn write_int_value(i: i64) -> (r: Option<i32>)
    ensures
        (i32::MIN <= i <= i32::MAX) ==> r == Some(i as i32),
        !(i32::MIN <= i <= i32::MAX) ==> r is None,
{
    if i32::MIN as i64 <= i && i <= i32::MAX as i64 {
        Some(i as i32)
    } else {
        None
    }
}

/// `major.minor Build build`.
pub open spec fn version_text(major: u16, minor: u16, build: u16) -> Seq<char> {
    decimal(major as nat) + "."@ + decimal(minor as nat) + " Build "@ + decimal(build as nat)
}

/// The version line of a server status.
pub fn version_string(major: u16, minor: u16, build: u16) -> (r: String)
    ensures
        r@ == version_text(major, minor, build),
{
    let mut s = String::new();
    push_decimal_u64(&mut s, major as u64);
    s.append(".");
    push_decimal_u64(&mut s, minor as u64);
    s.append(" Build ");
    push_decimal_u64(&mut s, build as u64);
    s
}

/// The status's bandwidth as the signed number the view shows (`u32::MAX`,
/// meaning unlimited, becomes -1).
pub fn band_width_i32(b: u32) -> (r: i32)
    ensures
        b <= i32::MAX ==> r == b,
        b > i32::MAX ==> r == b - 0x1_0000_0000,
{
    if b <= i32::MAX as u32 {
        b as i32
    } else {
        (b as i64 - 0x1_0000_0000i64) as i32
    }
}

/// The running state of a server.
#[derive(Clone, Copy, PartialEq, Eq, Structural)]
pub enum ServerState {
    Running,
    Failed,
    NoConfig,
    Suspended,
    Test,
    CommFault,
}

/// The name a server state is shown by.
pub open spec fn state_name(s: ServerState) -> Seq<char> {
    match s {
        ServerState::Running => "Running"@,
        ServerState::Failed => "Failed"@,
        ServerState::NoConfig => "NoConfig"@,
        ServerState::Suspended => "Suspended"@,
        ServerState::Test => "Test"@,
        ServerState::CommFault => "CommFault"@,
    }
}

/// The name a server state is shown by.
pub fn server_state_name(s: ServerState) -> (r: &'static str)
    ensures
        r@ == state_name(s),
{
    match s {
        ServerState::Running => "Running",
        ServerState::Failed => "Failed",
        ServerState::NoConfig => "NoConfig",
        ServerState::Suspended => "Suspended",
        ServerState::Test => "Test",
        ServerState::CommFault => "CommFault",
    }
}

/// A server's status as the view shows it.
pub struct ServerStatusDto {
    pub server_state: String,
    pub start_time: String,
    pub current_time: String,
    pub last_update_time: String,
    pub group_count: u32,
    pub band_width: i32,
    pub version: String,
    pub vendor_info: String,
}

/// A server's status, apart from its times.
pub struct ServerStatusInfo {
    pub server_state: ServerState,
    pub group_count: u32,
    pub band_width: u32,
    pub major_version: u16,
    pub minor_version: u16,
    pub build_number: u16,
    pub vendor_info: String,
}

/// The view's form of a status whose three times were already rendered as
/// local-time text.
pub fn server_status_dto(s: ServerStatusInfo, start_time: String, current_time: String, last_update_time: String) -> (r:
    ServerStatusDto)
    ensures
        r.server_state@ == state_name(s.server_state),
        r.start_time@ == start_time@,
        r.current_time@ == current_time@,
        r.last_update_time@ == last_update_time@,
        r.group_count == s.group_count,
        s.band_width <= i32::MAX ==> r.band_width == s.band_width,
        s.band_width > i32::MAX ==> r.band_width == s.band_width - 0x1_0000_0000,
        r.version@ == version_text(s.major_version, s.minor_version, s.build_number),
        r.vendor_info@ == s.vendor_info@,
{
    ServerStatusDto {
        server_state: String::from_str(server_state_name(s.server_state)),
        start_time,
        current_time,
        last_update_time,
        group_count: s.group_count,
        band_width: band_width_i32(s.band_width),
        version: version_string(s.major_version, s.minor_version, s.build_number),
        vendor_info: s.vendor_info,
    }
}

} // verus!
