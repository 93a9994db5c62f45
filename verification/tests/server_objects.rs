use opc_da::hresult::{
    CONNECT_E_CANNOTCONNECT, CONNECT_E_NOCONNECTION, E_ACCESSDENIED, E_INVALIDARG, E_NOINTERFACE, E_POINTER,
    OPC_E_INVALIDITEMID, S_FALSE, S_OK,
};
use opc_da::server::connection::{ConnectionPoint, EnumCursor, SinkQuery, StringEnum};
use opc_da::server::data_source::{DsValue, SimDataSource, OPC_QUALITY_BAD, OPC_QUALITY_GOOD};
use opc_da::server::group::{find_connection_point, iid_opc_data_callback, plan_status, GroupInner, ItemDef, StateUpdate};
use opc_da::server::registry::{clsid_string, wide, Guid, ServerRegistration};
use opc_da::server::scheduler::Scheduler;
use opc_da::sim::tags::{VT_I4, VT_R8};

fn new_group() -> GroupInner {
    GroupInner::new(String::new(), true, 1000, 0, 0, 0, 0, 0)
}

fn add(g: &mut GroupInner, ds: &SimDataSource, id: &str, h_client: u32, active: bool) -> (opc_da::server::group::ItemResult, i32) {
    let defs = vec![ItemDef { item_id: id.to_string(), h_client, active }];
    let metas = vec![ds.item_meta(id)];
    g.add_items(&defs, &metas).remove(0)
}

#[test]
fn namespace_lists_sim_tags() {
    let ds = SimDataSource::new();
    let leaves = ds.namespace().leaves();
    assert_eq!(leaves.len(), 4, "4 built-in tags");
    assert!(leaves.contains(&"Random.Int4".to_string()));
    assert!(leaves.contains(&"Bucket Brigade.Int4".to_string()));
}

#[test]
fn item_meta_known_and_unknown() {
    let ds = SimDataSource::new();
    let random = ds.item_meta("Random.Int4").expect("Random.Int4 meta");
    assert_eq!(random.data_type, VT_I4);
    assert!(!random.writable, "Random is read-only");
    let bucket = ds.item_meta("Bucket Brigade.Int4").expect("Bucket Brigade meta");
    assert_eq!(bucket.data_type, VT_I4);
    assert!(bucket.writable, "Bucket Brigade is writable");
    assert!(ds.item_meta("nope").is_none(), "unknown item has no meta");
}

#[test]
fn read_known_tag_is_good_quality_with_right_type() {
    let ds = SimDataSource::new();
    let r = ds.read("Random.Int4", 0);
    assert_eq!(r.quality, OPC_QUALITY_GOOD);
    assert!(matches!(r.value, DsValue::I4(_)), "Random.Int4 is VT_I4");
    let rr = ds.read("Random.Real8", 0);
    assert_eq!(rr.quality, OPC_QUALITY_GOOD);
    assert!(matches!(rr.value, DsValue::R8Centi(_)), "Random.Real8 is VT_R8");
}

#[test]
fn read_unknown_tag_is_bad_quality() {
    let ds = SimDataSource::new();
    assert_eq!(ds.read("nonexistent.tag", 0).quality, OPC_QUALITY_BAD);
}

#[test]
fn write_bucket_brigade_persists_then_read_reflects() {
    let mut ds = SimDataSource::new();
    assert_eq!(ds.write("Bucket Brigade.Int4", Some(42)), S_OK);
    let r = ds.read("Bucket Brigade.Int4", 0);
    assert_eq!(r.quality, OPC_QUALITY_GOOD);
    assert!(r.value == DsValue::I4(42), "read reflects the written 42");
}

#[test]
fn write_readonly_tag_denied() {
    let mut ds = SimDataSource::new();
    assert_eq!(ds.write("Random.Int4", Some(1)), E_ACCESSDENIED);
}

#[test]
fn write_wrong_type_rejected() {
    let mut ds = SimDataSource::new();
    assert_eq!(ds.write("Bucket Brigade.Int4", None), E_INVALIDARG);
}

#[test]
fn random_changes_over_time() {
    let ds = SimDataSource::new();
    for secs in [0u64, 1, 2, 59, 3600, u64::MAX] {
        match ds.read("Random.Int4", secs).value {
            DsValue::I4(v) => assert!((0..=100).contains(&v), "Random.Int4 in 0..=100, got {v}"),
            _ => panic!("Random.Int4 is VT_I4"),
        }
    }
}

#[test]
fn new_has_zero_advises() {
    assert_eq!(ConnectionPoint::<String>::new().advise_count(), 0);
}

#[test]
fn advise_returns_nonzero_cookie_and_unadvise() {
    let mut cp = ConnectionPoint::new();
    let cookie = cp.advise("sink".to_string());
    assert_ne!(cookie, 0, "cookie must not be 0");
    assert_eq!(cp.advise_count(), 1);
    assert_eq!(cp.unadvise(cookie), Ok(()));
    assert_eq!(cp.advise_count(), 0);
}

#[test]
fn unadvise_unknown_cookie_returns_connect_e_noconnection() {
    let mut cp = ConnectionPoint::<String>::new();
    assert_eq!(cp.unadvise(9999), Err(CONNECT_E_NOCONNECTION));
}

#[test]
fn advise_wrong_interface_returns_connect_e_cannotconnect() {
    let mut cp = ConnectionPoint::<String>::new();
    assert_eq!(cp.advise_sink(SinkQuery::Unsupported), Err(CONNECT_E_CANNOTCONNECT));
    assert_eq!(cp.advise_count(), 0, "a refused sink is not advised");
    assert_eq!(cp.advise_sink(SinkQuery::Null), Err(E_POINTER));
    let cookie = cp.advise_sink(SinkQuery::Supported("sink".to_string())).expect("supported sink");
    assert_ne!(cookie, 0);
    assert_eq!(cp.advise_count(), 1);
}

#[test]
fn enum_connections_snapshot_reset_clone() {
    let mut cp = ConnectionPoint::new();
    let c1 = cp.advise("sink1".to_string());
    let c2 = cp.advise("sink2".to_string());
    assert_ne!(c1, 0);
    assert_ne!(c2, 0);
    assert_ne!(c1, c2, "cookies differ");
    assert_eq!(cp.sink(c1).map(String::as_str), Some("sink1"));
    let mut en = EnumCursor::new(cp.advise_count());
    let b = en.next(2);
    assert_eq!((b.hr, b.count), (S_OK, 2), "asking 2 of 2 gives S_OK");
    let b2 = en.next(8);
    assert_eq!((b2.hr, b2.count), (S_FALSE, 0), "exhausted gives S_FALSE");
    let cloned = en;
    en.reset();
    let b3 = en.next(2);
    assert_eq!((b3.hr, b3.count), (S_OK, 2), "after Reset both again");
    let mut cloned = cloned;
    let b4 = cloned.next(8);
    assert_eq!((b4.hr, b4.count), (S_FALSE, 0), "a clone keeps its parent's position");
}

#[test]
fn string_enum_next_skip_and_null_request() {
    let items: Vec<String> = ["a", "b", "c"].iter().map(|s| s.to_string()).collect();
    let mut en = StringEnum::new(items);
    let p = en.peek(0);
    assert_eq!(p.hr, E_POINTER);
    let p = en.peek(2);
    assert_eq!((p.hr, p.start, p.count), (S_OK, 0, 2));
    assert_eq!(en.entries(p.start, p.count), vec!["a".to_string(), "b".to_string()]);
    en.advance(p.count);
    let d = en.duplicate();
    en.skip(5);
    let p = en.peek(1);
    assert_eq!((p.hr, p.count), (S_FALSE, 0));
    let p = d.peek(4);
    assert_eq!((p.hr, p.start, p.count), (S_FALSE, 2, 1));
    assert_eq!(d.entries(p.start, p.count), vec!["c".to_string()]);
}

#[test]
fn add_items_valid_returns_handle() {
    let ds = SimDataSource::new();
    let mut g = new_group();
    let (r, hr) = add(&mut g, &ds, "Random.Int4", 100, true);
    assert_ne!(r.h_server, 0, "a valid item gets a nonzero server handle");
    assert_eq!(r.canonical_type, VT_I4, "Random.Int4 canonical type VT_I4");
    assert_eq!(hr, S_OK);
}

#[test]
fn add_items_unknown_rejected() {
    let ds = SimDataSource::new();
    let mut g = new_group();
    let (_r, hr) = add(&mut g, &ds, "nope.nope", 1, true);
    assert_eq!(hr, OPC_E_INVALIDITEMID);
}

#[test]
fn zero_count_requests_succeed_with_null_out() {
    let ds = SimDataSource::new();
    let mut g = new_group();
    assert!(g.read_plan(&vec![]).is_empty());
    assert!(g.add_items(&vec![], &vec![]).is_empty());
    assert!(g.remove_items(&vec![]).is_empty());
    let _ = ds;
}

#[test]
fn remove_items_after_add() {
    let ds = SimDataSource::new();
    let mut g = new_group();
    let (r, _) = add(&mut g, &ds, "Bucket Brigade.Int4", 1, true);
    assert_eq!(g.remove_items(&vec![r.h_server]), vec![S_OK]);
    assert_eq!(g.remove_items(&vec![r.h_server]), vec![E_INVALIDARG]);
}

#[test]
fn set_active_state_toggles() {
    let ds = SimDataSource::new();
    let mut g = new_group();
    let (r, _) = add(&mut g, &ds, "Random.Real8", 5, true);
    assert_eq!(g.set_active_state(&vec![r.h_server], false), vec![S_OK]);
    assert_eq!(g.set_active_state(&vec![9999], true), vec![E_INVALIDARG]);
}

#[test]
fn set_client_handles_updates() {
    let ds = SimDataSource::new();
    let mut g = new_group();
    let (r, _) = add(&mut g, &ds, "Square Waves.Real8", 1, true);
    assert_eq!(r.canonical_type, VT_R8);
    assert_eq!(g.set_client_handles(&vec![r.h_server], &vec![777]), vec![S_OK]);
    let plan = g.read_plan(&vec![r.h_server]);
    assert_eq!(plan[0].as_ref().map(|p| p.0), Some(777));
}

#[test]
fn sync_read_returns_value_quality_and_client_handle() {
    let ds = SimDataSource::new();
    let mut g = new_group();
    let (r, _) = add(&mut g, &ds, "Random.Int4", 100, true);
    let plan = g.read_plan(&vec![r.h_server]);
    assert_eq!(plan_status(&plan[0]), S_OK);
    let (h_client, item_id) = plan[0].clone().expect("registered");
    assert_eq!(h_client, 100, "client handle from AddItems");
    let read = ds.read(&item_id, 0);
    assert_eq!(read.quality, OPC_QUALITY_GOOD);
    assert!(matches!(read.value, DsValue::I4(_)));
}

#[test]
fn sync_read_unknown_handle_is_invalid_arg() {
    let g = new_group();
    let plan = g.read_plan(&vec![9999]);
    assert_eq!(plan_status(&plan[0]), E_INVALIDARG);
}

#[test]
fn sync_write_then_read_round_trip() {
    let mut ds = SimDataSource::new();
    let mut g = new_group();
    let (r, _) = add(&mut g, &ds, "Bucket Brigade.Int4", 1, true);
    let wplan = g.write_plan(&vec![r.h_server]);
    assert_eq!(plan_status(&wplan[0]), S_OK);
    let id = wplan[0].clone().expect("registered");
    assert_eq!(ds.write(&id, Some(42)), S_OK);
    let rplan = g.read_plan(&vec![r.h_server]);
    let read = ds.read(&rplan[0].clone().expect("registered").1, 0);
    assert!(read.value == DsValue::I4(42), "read reflects the written 42");
}

#[test]
fn set_state_then_get_state_reflects() {
    let mut g = new_group();
    let revised = g.set_state(StateUpdate {
        update_rate: Some(250),
        active: Some(false),
        time_bias: None,
        percent_deadband_bits: None,
        locale: None,
        h_client_group: None,
    });
    assert_eq!(revised, 250, "revised is the requested rate");
    let s = g.get_state();
    assert_eq!(s.update_rate, 250);
    assert!(!s.active);
}

#[test]
fn set_name_then_get_state_reflects() {
    let mut g = new_group();
    g.set_name("my-group".to_string());
    assert_eq!(g.get_state().name, "my-group");
}

#[test]
fn snapshot_active_for_publish_filters_inactive() {
    let ds = SimDataSource::new();
    let mut g = GroupInner::new("test".to_string(), true, 500, 0, 0, 0, 42, 7);
    add(&mut g, &ds, "Random.Int4", 100, true);
    add(&mut g, &ds, "Random.Real8", 200, false);
    let (h_group, frames) = g.snapshot_active_for_publish();
    assert_eq!(h_group, 42);
    assert_eq!(frames.len(), 1, "only the active item");
    assert_eq!(frames[0], (100, "Random.Int4".to_string()));
}

#[test]
fn scheduler_register_unregister_updates_count() {
    let mut s: Scheduler<&str> = Scheduler::new();
    assert_eq!(s.registered_count(), 0);
    s.register(1, "group 1", 100, 0);
    assert_eq!(s.registered_count(), 1);
    s.register(2, "group 2", 250, 0);
    assert_eq!(s.registered_count(), 2, "second group, another rate");
    s.unregister(1);
    assert_eq!(s.registered_count(), 1);
    s.unregister(2);
    assert_eq!(s.registered_count(), 0);
    s.unregister(999);
    assert_eq!(s.registered_count(), 0, "unknown key is a no-op");
}

#[test]
fn scheduler_tick_dispatches_due_buckets() {
    let mut s: Scheduler<&str> = Scheduler::new();
    s.register(1, "fast", 100, 0);
    s.register(2, "slow", 250, 0);
    s.register(3, "fast too", 100, 0);
    s.register(4, "zero rate", 0, 0);
    assert_eq!(s.tick(0), Vec::<u32>::new(), "nothing due at 0");
    assert_eq!(s.tick(1), vec![4], "the 1 ms bucket");
    assert_eq!(s.tick(100), vec![1, 3, 4], "the 100 ms bucket in registration order");
    assert_eq!(s.tick(100), vec![4], "the 100 ms bucket waits for 200");
    assert_eq!(s.tick(250), vec![1, 3, 2, 4]);
    assert_eq!(s.job(2), Some(&"slow"));
    s.unregister(1);
    assert_eq!(s.tick(300), vec![3, 4]);
}

#[test]
fn clsid_and_wide_strings() {
    let g = Guid { data1: 0xb1c2d3e4, data2: 0xf5a6, data3: 0x0718, data4: [0x29, 0x3a, 0x4b, 0x5c, 0x5d, 0x6e, 0x7f, 0x80] };
    assert_eq!(clsid_string(&g), "{B1C2D3E4-F5A6-0718-293A-4B5C5D6E7F80}");
    assert_eq!(wide("Ab"), vec![0x41, 0x62, 0]);
    assert_eq!(wide("\u{1F600}"), vec![0xD83D, 0xDE00, 0]);
    assert_eq!(wide("é"), "é".encode_utf16().chain(std::iter::once(0)).collect::<Vec<u16>>());
}

#[test]
fn registration_entries_and_unregistration_paths() {
    let g = Guid { data1: 1, data2: 2, data3: 3, data4: [4, 5, 6, 7, 8, 9, 10, 11] };
    let cat = Guid { data1: 0xaa, data2: 0, data3: 0, data4: [0; 8] };
    let reg = ServerRegistration {
        clsid: g,
        prog_id: "v.S.1".to_string(),
        version_independent_prog_id: "v.S".to_string(),
        exe_path: "C:\\s.exe".to_string(),
        catids: vec![cat],
        app_id: Guid { data1: 1, data2: 2, data3: 3, data4: [4, 5, 6, 7, 8, 9, 10, 11] },
        description: "desc".to_string(),
    };
    let c = "CLSID\\{00000001-0002-0003-0405-060708090A0B}";
    let e = reg.registration_entries();
    assert_eq!(e.len(), 14);
    assert_eq!(e[0], (c.to_string(), "desc".to_string()));
    assert_eq!(e[1], (format!("{c}\\LocalServer32"), "C:\\s.exe".to_string()));
    assert_eq!(e[4], (format!("{c}\\Implemented Categories\\{{000000AA-0000-0000-0000-000000000000}}"), String::new()));
    assert_eq!(e[6], ("v.S.1\\CLSID".to_string(), "{00000001-0002-0003-0405-060708090A0B}".to_string()));
    assert_eq!(e[12], ("AppID\\{00000001-0002-0003-0405-060708090A0B}".to_string(), "v.S".to_string()));
    let p = reg.unregistration_paths();
    assert_eq!(p.len(), 8);
    assert_eq!(p[1], format!("WOW6432Node\\{c}"));
    for (k, _) in &e {
        assert!(p.iter().any(|q| k.starts_with(q.as_str())), "{k} is removed by unregistration");
    }
}

#[test]
fn register_then_unregister_leaves_no_written_key() {
    let reg = ServerRegistration {
        clsid: Guid { data1: 1, data2: 2, data3: 3, data4: [4, 5, 6, 7, 8, 9, 10, 11] },
        prog_id: "v.S.1".to_string(),
        version_independent_prog_id: "v.S".to_string(),
        exe_path: "C:\\s.exe".to_string(),
        catids: vec![Guid { data1: 0xaa, data2: 0, data3: 0, data4: [0; 8] }],
        app_id: Guid { data1: 9, data2: 9, data3: 9, data4: [9; 8] },
        description: "desc".to_string(),
    };
    let in_subtree = |root: &str, key: &str| key == root || key.starts_with(&format!("{root}\\"));
    let mut hkcr: std::collections::BTreeMap<String, String> = std::collections::BTreeMap::new();
    hkcr.insert("v.S.10".to_string(), "another server".to_string());
    for (k, v) in reg.registration_entries() {
        hkcr.insert(k.clone(), v.clone());
        hkcr.insert(format!("WOW6432Node\\{k}"), v);
    }
    let paths = reg.unregistration_paths();
    let unregister = |m: &std::collections::BTreeMap<String, String>| {
        m.iter()
            .filter(|(k, _)| !paths.iter().any(|p| in_subtree(p, k)))
            .map(|(k, v)| (k.clone(), v.clone()))
            .collect::<std::collections::BTreeMap<String, String>>()
    };
    let after = unregister(&hkcr);
    for (k, _) in reg.registration_entries() {
        assert!(!after.contains_key(&k) && !after.contains_key(&format!("WOW6432Node\\{k}")), "{k} remains");
    }
    assert_eq!(after.get("v.S.10").map(String::as_str), Some("another server"), "a sibling ProgID survives");
    assert_eq!(unregister(&after), after, "a second unregistration removes nothing more");
}

#[test]
fn find_connection_point_returns_data_cp_for_datacallback() {
    let iid_dc = iid_opc_data_callback();
    assert_eq!(find_connection_point(Some(&iid_dc)), Ok(()));
    assert_eq!(iid_dc.data1, 0x39C1_3A70);
}

#[test]
fn find_connection_point_unsupported_iid_returns_nointerface() {
    // IID_IOPCShutdown: the server's connection point, not a group's.
    let iid_shutdown = Guid { data1: 0xF31D_FDE1, data2: 0x07B6, data3: 0x11D2, data4: [0xB2, 0xD8, 0x00, 0x60, 0x08, 0x3B, 0xA1, 0xFB] };
    assert_eq!(find_connection_point(Some(&iid_shutdown)), Err(E_NOINTERFACE));
    assert_eq!(find_connection_point(None), Err(E_POINTER));
}
