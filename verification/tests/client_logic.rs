use opc_da::client::assemble::{
    accepted_indices, accepted_tag_ids, check_reply_sizes, forward_data_change, read_results,
    single_add_outcome, single_write_outcome, write_results, ChangedItem, ItemRead, ItemStatus,
};
use opc_da::client::connector::{credentials_from, sorted_prog_ids, sorted_server_list, ClassDetails, ComConnector};
use opc_da::client::fusion::{
    after_subscribe, after_wait, poll_events, push_check, FusionEvent, FusionMode, FusionReaderOptions,
    PollOutcome, PushCheck, SubscribeOutcome, WaitOutcome,
};
use opc_da::client::types::{is_connection_error, OpcError, TagValue};
use opc_da::client::worker::{
    after_readvise, mark_rebuild_sent, monitor_backoff_ms, retry_step, scan_entry, staleness_threshold_ms,
    unknown_subscription, HealthMonitorConfig, MonitorEntry, RebuildNext, RebuildReply, RetryStep,
};
use opc_da::hresult::{E_FAIL, OPC_E_INVALIDITEMID, RPC_S_SERVER_UNAVAILABLE, S_OK};
use opc_da::server::registry::Guid;

fn st(code: i32, hint: &str) -> ItemStatus {
    ItemStatus { code, hint: hint.to_string() }
}

fn ids(v: &[&str]) -> Vec<String> {
    v.iter().map(|s| s.to_string()).collect()
}

fn row(t: &TagValue) -> (&str, &str, &str, &str, &str) {
    (t.tag_id.as_str(), t.value.as_str(), t.data_type.as_str(), t.quality.as_str(), t.timestamp.as_str())
}

fn internal(e: &OpcError) -> &str {
    match e {
        OpcError::Internal(m) => m,
        _ => panic!("not an internal error"),
    }
}

#[test]
fn test_worker_read_tag_values_mismatched_lengths() {
    let e = check_reply_sizes(2, 1, 2).unwrap_err();
    assert_eq!(internal(&e), "OPC server returned mismatched result array sizes");
    assert!(check_reply_sizes(2, 2, 1).is_err());
    assert!(check_reply_sizes(2, 2, 2).is_ok());
}

#[test]
fn read_results_mix_rejected_failed_and_good() {
    let tags = ids(&["A", "B", "C"]);
    let adds = vec![st(S_OK, ""), st(OPC_E_INVALIDITEMID, "unknown item"), st(S_OK, "")];
    assert_eq!(accepted_indices(&adds), vec![0, 2]);
    assert_eq!(accepted_tag_ids(&tags, &adds), ids(&["A", "C"]));
    let reads = vec![
        ItemRead {
            status: st(S_OK, ""),
            value: "42".into(),
            data_type: "Long".into(),
            quality: "Good".into(),
            timestamp: "t0".into(),
        },
        ItemRead {
            status: st(E_FAIL, "boom"),
            value: "ignored".into(),
            data_type: "ignored".into(),
            quality: "ignored".into(),
            timestamp: "t2".into(),
        },
    ];
    let out = read_results(&tags, &adds, &reads).unwrap();

    assert_eq!(row(&out[0]), ("A", "42", "Long", "Good", "t0"));
    assert_eq!(row(&out[1]), ("B", "Error", "", "Bad — unknown item", ""));
    assert_eq!(row(&out[2]), ("C", "Error", "", "Bad — boom", "t2"));
}

#[test]
fn read_fails_when_no_tag_can_be_added() {
    let tags = ids(&["A", "B"]);
    let adds = vec![st(OPC_E_INVALIDITEMID, "unknown item"), st(E_FAIL, "other")];
    match read_results(&tags, &adds, &vec![]) {
        Err(OpcError::Com { code, message }) => {
            assert_eq!((code, message.as_str()), (OPC_E_INVALIDITEMID, "No tag could be added to the OPC group: unknown item"))
        }
        other => panic!("expected a COM error, got {:?}", other.map(|v| v.len())),
    }
    assert!(read_results(&vec![], &vec![], &vec![]).unwrap().is_empty(), "an empty read reads nothing");
}

#[test]
fn test_worker_write_tag_values_multi() {
    let tags = ids(&["A", "B", "C"]);
    let adds = vec![st(S_OK, ""), st(OPC_E_INVALIDITEMID, "unknown item"), st(S_OK, "")];
    let writes = vec![st(S_OK, ""), st(E_FAIL, "denied")];
    let out = write_results(&tags, &adds, &writes).unwrap();
    assert_eq!((out[0].tag_id.as_str(), out[0].success, out[0].error.clone()), ("A", true, None));
    assert_eq!(
        (out[1].tag_id.as_str(), out[1].success, out[1].error.clone()),
        ("B", false, Some("Failed to add tag: unknown item".to_string()))
    );
    assert_eq!((out[2].success, out[2].error.clone()), (false, Some("denied".to_string())));
    let e = write_results(&tags, &adds, &vec![st(S_OK, "")]).unwrap_err();
    assert_eq!(internal(&e), "OPC server returned mismatched write error array size");
    let none_accepted = write_results(&ids(&["X"]), &vec![st(E_FAIL, "nope")], &vec![]).unwrap();
    assert_eq!(none_accepted[0].error.clone(), Some("Failed to add tag: nope".to_string()));
}

#[test]
fn test_worker_write_tag_value() {
    assert_eq!(internal(&single_add_outcome(0, &vec![st(S_OK, "")]).unwrap_err()), "Server returned empty item results");
    assert_eq!(internal(&single_add_outcome(1, &vec![]).unwrap_err()), "Server returned empty item errors");
    assert!(single_add_outcome(1, &vec![st(S_OK, "")]).is_ok());
    match single_add_outcome(1, &vec![st(E_FAIL, "x")]) {
        Err(OpcError::Com { code, message }) => assert_eq!((code, message.as_str()), (E_FAIL, "Failed to add tag: x")),
        other => panic!("a rejected add must fail the write, got {other:?}"),
    }
    assert_eq!(internal(&single_write_outcome("T", &vec![]).unwrap_err()), "Server returned empty write errors");
    let ok = single_write_outcome("T", &vec![st(S_OK, "")]).unwrap();
    assert_eq!((ok.tag_id.as_str(), ok.success, ok.error), ("T", true, None));
    let bad = single_write_outcome("T", &vec![st(E_FAIL, "denied")]).unwrap();
    assert_eq!((bad.success, bad.error), (false, Some("denied".to_string())));
}

#[test]
fn data_change_forwards_good_known_items() {
    let tags = ids(&["A", "B"]);
    let item = |h: u32, status: i32, v: &str| ChangedItem {
        client_handle: h,
        status,
        value: v.into(),
        data_type: "Long".into(),
        quality: "Good".into(),
        timestamp: "t".into(),
    };
    let items = vec![item(1, S_OK, "1"), item(0, E_FAIL, "x"), item(7, S_OK, "y"), item(0, S_OK, "2")];
    let out = forward_data_change(&tags, &items);
    let got: Vec<(&str, &str)> = out.iter().map(|t| (t.tag_id.as_str(), t.value.as_str())).collect();
    assert_eq!(got, vec![("B", "1"), ("A", "2")]);
}

#[test]
fn test_stale_connection_eviction() {
    let dead = OpcError::Com { code: RPC_S_SERVER_UNAVAILABLE, message: "gone".into() };
    assert!(is_connection_error(&dead));
    assert!(!is_connection_error(&OpcError::Com { code: E_FAIL, message: "x".into() }));
    assert!(matches!(retry_step(0, false), RetryStep::Finish));
    assert!(matches!(retry_step(0, true), RetryStep::EvictAndRetry { backoff_ms: 50 }));
    assert!(matches!(retry_step(1, true), RetryStep::EvictAndRetry { backoff_ms: 100 }));
    assert!(matches!(retry_step(2, true), RetryStep::EvictAndRetry { backoff_ms: 200 }));
    assert!(matches!(retry_step(3, true), RetryStep::EvictAndGiveUp));
}

#[test]
fn test_monitor_backoff_on_repeated_rebuild_failure() {
    let c = HealthMonitorConfig::production();
    assert_eq!((c.period_ms, c.min_timeout_ms), (1000, 30000));
    assert_eq!(monitor_backoff_ms(0, 1000), 1000);
    assert_eq!(monitor_backoff_ms(1, 1000), 2000);
    assert_eq!(monitor_backoff_ms(3, 1000), 8000);
    assert_eq!(monitor_backoff_ms(8, 1000), 256_000);
    assert_eq!(monitor_backoff_ms(3, 50), 400);
    assert_eq!(monitor_backoff_ms(9, 1000), 300_000, "capped at five minutes");
    assert_eq!(monitor_backoff_ms(20, 1000), 300_000);
    assert_eq!(monitor_backoff_ms(u32::MAX, 1), 300_000);
    assert_eq!(monitor_backoff_ms(u32::MAX, 0), 0);
    assert_eq!(monitor_backoff_ms(20, 2000), 300_000, "capped at five minutes");
    assert_eq!(monitor_backoff_ms(2, u64::MAX), 300_000, "saturates");
    let mut e = MonitorEntry { last_update_ms: 0, update_rate_ms: 100, consecutive_failures: 0, next_retry_after_ms: 0 };
    let now = 1_000_000;
    assert!(!scan_entry(&mut e, Some(RebuildReply::Failed), now, 30000, 1000));
    assert_eq!((e.consecutive_failures, e.next_retry_after_ms), (1, now + 2000));
    assert!(!scan_entry(&mut e, None, now + 1999, 30000, 1000), "inside the backoff window");
    assert!(scan_entry(&mut e, None, now + 2000, 30000, 1000), "stale once the window ends");
}

#[test]
fn test_monitor_backoff_resets_on_success() {
    let mut e = MonitorEntry { last_update_ms: 0, update_rate_ms: 100, consecutive_failures: 4, next_retry_after_ms: 9 };
    assert!(scan_entry(&mut e, Some(RebuildReply::Succeeded), 50_000, 30000, 1000));
    assert_eq!((e.consecutive_failures, e.next_retry_after_ms), (0, 0));
    assert!(!scan_entry(&mut e, Some(RebuildReply::InFlight), 90_000, 30000, 1000), "in flight: no new rebuild");
}

#[test]
fn test_health_monitor_no_premature_rebuild() {
    assert_eq!(staleness_threshold_ms(100, 30000), 30000);
    assert_eq!(staleness_threshold_ms(20000, 30000), 60000);
    assert_eq!(staleness_threshold_ms(u32::MAX, 5), u32::MAX);
    let mut e = MonitorEntry { last_update_ms: 10_000, update_rate_ms: 1000, consecutive_failures: 0, next_retry_after_ms: 0 };
    assert!(!scan_entry(&mut e, None, 40_000, 30000, 1000), "exactly at the threshold is not stale");
    assert!(scan_entry(&mut e, None, 40_001, 30000, 1000));
    mark_rebuild_sent(&mut e, 40_001);
    assert!(!scan_entry(&mut e, None, 40_001, 30000, 1000), "not asked again right after sending");
}

#[test]
fn connector_settings_and_credentials() {
    let c = ComConnector::new("192.168.1.10".to_string());
    assert_eq!(c.host(), "192.168.1.10");
    assert!(c.auth().is_none());
    assert_eq!(ComConnector::default().host(), "localhost");
    assert!(credentials_from(Some(String::new()), Some("p".into()), None).is_none());
    assert!(credentials_from(None, Some("p".into()), None).is_none());
    let cr = credentials_from(Some("u".into()), None, Some("d".into())).unwrap();
    assert_eq!((cr.user.as_str(), cr.password.as_str(), cr.domain.as_str()), ("u", "", "d"));
    let c2 = ComConnector::with_credentials("h".to_string(), cr);
    assert_eq!(c2.auth().as_ref().map(|a| a.user.as_str()), Some("u"));
}

#[test]
fn test_worker_list_servers() {
    let out = sorted_prog_ids(&ids(&["b.S.1", "", "a.S.1", "b.S.1", "Z.S"]));
    assert_eq!(out, ids(&["Z.S", "a.S.1", "b.S.1"]));
    let g = |d1: u32| Guid { data1: d1, data2: 0xabcd, data3: 1, data4: [0xde, 0xad, 0, 1, 2, 3, 4, 0xff] };
    let details = vec![
        ClassDetails { clsid: g(2), prog_id: "m.S".into(), user_type: "".into() },
        ClassDetails { clsid: g(1), prog_id: "a.S".into(), user_type: "Vendor A".into() },
        ClassDetails { clsid: g(3), prog_id: "".into(), user_type: "skipped".into() },
        ClassDetails { clsid: g(4), prog_id: "a.S".into(), user_type: "duplicate".into() },
    ];
    let list = sorted_server_list(&details);
    assert_eq!(list.len(), 2);
    assert_eq!(list[0].prog_id, "a.S");
    assert_eq!(list[0].clsid, "00000001-abcd-0001-dead-0001020304ff");
    assert_eq!(list[0].user_type.as_deref(), Some("Vendor A"));
    assert_eq!(list[1].prog_id, "m.S");
    assert_eq!(list[1].user_type, None);
}

#[test]
fn fusion_subscribe_then_silence_falls_back() {
    let o = FusionReaderOptions::default();
    assert_eq!((o.update_rate, o.fallback_timeout_ms, o.buffer), (1000, 10000, 256));
    let (mut s, ev) = after_subscribe(SubscribeOutcome::Subscribed, 0, o.fallback_timeout_ms);
    assert!(matches!(ev, FusionEvent::Subscribed));
    match push_check(&mut s, None, 4000) {
        PushCheck::Wait { left_ms } => assert_eq!(left_ms, 6000),
        _ => panic!("should wait"),
    }
    let tv = TagValue { tag_id: "A".into(), value: "1".into(), data_type: "".into(), quality: "Good".into(), timestamp: "".into() };
    assert!(matches!(after_wait(&mut s, WaitOutcome::Value(tv), 5000), FusionEvent::Data(_)));
    assert!(s.mode == FusionMode::Push);
    match push_check(&mut s, None, 15_000) {
        PushCheck::Fallback(OpcError::Connection(m)) => assert_eq!(m, "回调静默 10s"),
        _ => panic!("silence should fall back"),
    }
    assert!(s.mode == FusionMode::Poll);
}

#[test]
fn fusion_fallback_reasons() {
    let (s, ev) = after_subscribe(SubscribeOutcome::TimedOut, 0, 10000);
    assert!(s.mode == FusionMode::Poll);
    match ev {
        FusionEvent::Fallback(OpcError::Connection(m)) => assert_eq!(m, "订阅 8s 未完成（反向回调可能不通）"),
        _ => panic!("timeout reason"),
    }
    let (mut s, _) = after_subscribe(SubscribeOutcome::Subscribed, 0, 10000);
    match after_wait(&mut s, WaitOutcome::Closed, 1) {
        FusionEvent::Fallback(OpcError::Connection(m)) => assert_eq!(m, "推送流关闭"),
        _ => panic!("closed reason"),
    }
    let (mut s, _) = after_subscribe(SubscribeOutcome::Subscribed, 0, 10000);
    let err = OpcError::Internal("rebuild failed".into());
    assert!(matches!(push_check(&mut s, Some(err), 1), PushCheck::Fallback(OpcError::Internal(_))));
    let evs = poll_events(PollOutcome::TimedOut);
    match &evs[0] {
        FusionEvent::Fallback(OpcError::Connection(m)) => assert_eq!(m, "read 超时 5s"),
        _ => panic!("read timeout reason"),
    }
    let tv = |v: &str| TagValue { tag_id: "A".into(), value: v.into(), data_type: "".into(), quality: "".into(), timestamp: "".into() };
    let evs = poll_events(PollOutcome::Values(vec![tv("1"), tv("2")]));
    let vals: Vec<String> = evs
        .into_iter()
        .map(|e| match e {
            FusionEvent::Data(t) => t.value,
            _ => panic!("data"),
        })
        .collect();
    assert_eq!(vals, vec!["1".to_string(), "2".to_string()]);
}

#[test]
fn test_health_monitor_stale_triggers_rebuild() {
    // update_rate 10 ms, min_timeout 100 ms: the threshold is max(10 * 3, 100) = 100 ms.
    let subscribed_at = 5_000;
    let mut e = MonitorEntry { last_update_ms: subscribed_at, update_rate_ms: 10, consecutive_failures: 0, next_retry_after_ms: 0 };
    assert!(!scan_entry(&mut e, None, subscribed_at + 50, 100, 50), "not stale before the threshold");
    assert!(scan_entry(&mut e, None, subscribed_at + 150, 100, 50), "a silent subscription must be rebuilt");
}

#[test]
fn test_health_monitor_fresh_callback_no_rebuild() {
    let mut e = MonitorEntry { last_update_ms: 0, update_rate_ms: 10, consecutive_failures: 0, next_retry_after_ms: 0 };
    let mut now = 0;
    for _ in 0..33 {
        now += 30;
        e.last_update_ms = now - 30;
        assert!(!scan_entry(&mut e, None, now, 100, 50), "a freshly stamped callback must not be rebuilt");
    }
}

#[test]
fn test_rebuild_reconnects_when_server_dead() {
    let dead = OpcError::Com { code: RPC_S_SERVER_UNAVAILABLE, message: "RPC server unavailable".into() };
    assert!(matches!(after_readvise(Err(dead)), RebuildNext::Reconnect), "a connection error reconnects");
    assert!(matches!(after_readvise(Ok(())), RebuildNext::Done));
}

#[test]
fn test_rebuild_non_connection_error_does_not_reconnect() {
    let r = after_readvise(Err(OpcError::NotImplemented("advise".into())));
    assert!(matches!(r, RebuildNext::Fail(OpcError::NotImplemented(_))), "other errors are reported, not reconnected");
}

#[test]
fn test_set_subscription_rate_unknown_cookie() {
    let e = unknown_subscription(999);
    assert!(matches!(&e, OpcError::InvalidState(m) if m == "unknown subscription cookie 999"), "got {e:?}");
}
