use opc_da::client::fusion::FusionEvent;
use opc_da::client::types::{OpcError, TagValue, WriteResult};
use opc_da::desktop::dto::{
    band_width_i32, fusion_event_dto, server_status_dto, tag_row, write_int_value, write_result_dto, FusionEventDto,
    ServerState, ServerStatusInfo,
};
use opc_da::desktop::session::{DesktopError, SessionState};
use opc_da::stress::{client_items, count_spread, next_sample_secs, parse_opts, StressOpts};

fn args(v: &[&str]) -> Vec<String> {
    v.iter().map(|s| s.to_string()).collect()
}

fn view(o: &StressOpts) -> (usize, usize, u32, u64, usize, usize, usize) {
    (o.clients, o.items_per_group, o.rate, o.duration_secs, o.plants, o.lines, o.sensors)
}

#[test]
fn stress_defaults_and_parsing() {
    assert_eq!(view(&parse_opts(&args(&[]))), (10, 100, 500, 60, 10, 10, 1000));
    let o = parse_opts(&args(&["--clients", "4", "--rate", "250", "--duration", "x", "--bogus", "--sensors", "7"]));
    assert_eq!(view(&o), (4, 100, 250, 60, 10, 10, 7));
    let o = parse_opts(&args(&["--clients", "nope", "--duration", "30", "--lines"]));
    assert_eq!(view(&o), (10, 100, 500, 30, 10, 10, 1000), "a bad number keeps the default; a key without value is skipped");
}

#[test]
fn stress_client_items_cycle() {
    let all = args(&["a", "b", "c"]);
    assert_eq!(client_items(&all, 0, 2), args(&["a", "b"]));
    assert_eq!(client_items(&all, 1, 2), args(&["c", "a"]));
    assert_eq!(client_items(&all, 2, 5), args(&["b", "c", "a", "b", "c"]));
    assert!(client_items(&Vec::new(), 3, 4).is_empty());
    assert_eq!(next_sample_secs(0, 60), 30);
    assert_eq!(next_sample_secs(50, 60), 10);
    assert_eq!(next_sample_secs(60, 60), 0);
    assert_eq!(count_spread(&vec![5, 2, 9]), (2, 9));
    assert_eq!(count_spread(&vec![]), (0, 0));
}

#[test]
fn desktop_session_host_switch_and_cookies() {
    let mut s = SessionState::new();
    assert!(matches!(s.prog_id(), Err(DesktopError::NotConnected)));
    s.set_prog_id("Matrikon.OPC.Simulation.1".to_string());
    assert_eq!(s.prog_id().ok().as_deref(), Some("Matrikon.OPC.Simulation.1"));
    s.register_cookie(3);
    s.register_cookie(5);
    assert!(s.switch_host("localhost").is_none(), "same host: nothing happens");
    let mut torn = s.switch_host("10.0.0.2").expect("host changed");
    torn.sort();
    assert_eq!(torn, vec![3, 5]);
    assert!(matches!(s.prog_id(), Err(DesktopError::NotConnected)));
    assert!(!s.forget_cookie(3), "cookies were cleared");
    s.register_cookie(8);
    assert!(s.forget_for_unsubscribe(8).is_ok());
    match s.forget_for_unsubscribe(8) {
        Err(DesktopError::NotFound(m)) => assert_eq!(m, "subscription 8"),
        _ => panic!("second stop is not found"),
    }
    assert_eq!(DesktopError::NotConnected.kind(), "not_connected");
    assert_eq!(DesktopError::Opc(OpcError::Internal("x".into())).kind(), "opc");
}

#[test]
fn desktop_payloads() {
    let tv = TagValue { tag_id: "A".into(), value: "1".into(), data_type: "Long".into(), quality: "Good".into(), timestamp: "t".into() };
    let row = tag_row(tv);
    assert_eq!((row.tag_id.as_str(), row.value.as_str(), row.quality.as_str(), row.timestamp.as_str()), ("A", "1", "Good", "t"));
    let w = write_result_dto(WriteResult { tag_id: "B".into(), success: false, error: Some("e".into()) });
    assert_eq!((w.tag_id.as_str(), w.success, w.error), ("B", false, Some("e".to_string())));
    match fusion_event_dto(FusionEvent::Fallback(OpcError::Connection("down".into()))) {
        FusionEventDto::Fallback { message } => assert_eq!(message, "down"),
        _ => panic!("fallback"),
    }
    assert_eq!(write_int_value(7), Some(7));
    assert_eq!(write_int_value(i64::from(i32::MAX) + 1), None);
    assert_eq!(band_width_i32(u32::MAX), -1);
    assert_eq!(band_width_i32(5), 5);
    let dto = server_status_dto(
        ServerStatusInfo {
            server_state: ServerState::Running,
            group_count: 2,
            band_width: u32::MAX,
            major_version: 3,
            minor_version: 0,
            build_number: 42,
            vendor_info: "v".into(),
        },
        "s".into(),
        "c".into(),
        "l".into(),
    );
    assert_eq!(dto.server_state, "Running");
    assert_eq!(dto.version, "3.0 Build 42");
    assert_eq!(dto.band_width, -1);
}
