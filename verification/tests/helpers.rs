use opc_da::client::assemble::{item_properties, max_age_values, ItemStatus};
use opc_da::client::browse::branch_node;
use opc_da::client::connector::{
    describe, not_supported, plain_server_descs, server_list_activation, sorted_server_list, Activation, ClassDetails,
};
use opc_da::client::types::{OpcError, ServerDesc, TagValue};
use opc_da::client::worker::{
    after_readvise, min_timeout_ms_u32, rebuild_unknown_subscription, reconnect_unknown_subscription,
    unknown_shutdown_subscription,
    unknown_subscription, RebuildNext,
};
use opc_da::desktop::dto::{
    error_message, server_info, server_state_name, tag_descriptor, tag_update, version_string, ServerState,
};
use opc_da::desktop::session::{DesktopError, SessionState};
use opc_da::hresult::{E_FAIL, OPC_E_INVALIDITEMID, RPC_S_SERVER_UNAVAILABLE, S_OK};
use opc_da::server::data_source::{random_i4, random_r8_centi, square_wave_centi, ItemMeta, NamespaceTree, NsNode};
use opc_da::server::group::{GroupInner, ItemDef};
use opc_da::server::guid::{guid_eq, guid_is_nil};
use opc_da::server::registry::Guid;
use opc_da::server::status::{filetime_halves, unix_to_filetime, ServerObj, OPC_STATUS_RUNNING};
use opc_da::sim::data_source::parse_item;
use opc_da::sim::tags::{tag_type, VT_BOOL, VT_I4, VT_R8};
use opc_da::sim::waveform::TagKind;

fn invalid_state(e: &OpcError) -> &str {
    match e {
        OpcError::InvalidState(m) => m.as_str(),
        other => panic!("expected InvalidState, got {other:?}"),
    }
}

#[test]
fn child_branch_ids() {
    let root = branch_node(&None, "Simulation Items".to_string());
    assert_eq!((root.id.as_str(), root.name.as_str()), ("Simulation Items", "Simulation Items"));
    let empty_parent = branch_node(&Some(String::new()), "Random".to_string());
    assert_eq!(empty_parent.id, "Random");
    let nested = branch_node(&Some("Simulation Items.Random".to_string()), "Int4".to_string());
    assert_eq!(nested.id, "Simulation Items.Random.Int4");
    assert_eq!(nested.name, "Int4");
}

#[test]
fn server_listing_of_one_class() {
    let g = || Guid { data1: 0xF8582CF2, data2: 0x88FB, data3: 0x11D0, data4: [0xB8, 0x50, 0x00, 0xC0, 0xF0, 0x10, 0x43, 0x05] };
    let d = describe(&ClassDetails { clsid: g(), prog_id: "Matrikon.OPC.Simulation.1".to_string(), user_type: "MatrikonOPC Server".to_string() });
    assert_eq!(d.prog_id, "Matrikon.OPC.Simulation.1");
    assert_eq!(d.clsid, "f8582cf2-88fb-11d0-b850-00c0f0104305");
    assert_eq!(d.user_type.as_deref(), Some("MatrikonOPC Server"));
    let bare = describe(&ClassDetails { clsid: g(), prog_id: "X.1".to_string(), user_type: String::new() });
    assert_eq!(bare.user_type, None);
}

#[test]
fn plain_listings_and_unsupported_operations() {
    let r: Vec<ServerDesc> = plain_server_descs(vec!["A.1".to_string(), "B.2".to_string()]);
    assert_eq!(r.len(), 2);
    assert_eq!((r[1].prog_id.as_str(), r[1].clsid.as_str(), r[1].user_type.clone()), ("B.2", "", None));
    match not_supported("list_servers_with_details") {
        OpcError::NotImplemented(m) => assert_eq!(m, "list_servers_with_details not supported"),
        other => panic!("unexpected {other:?}"),
    }
}

#[test]
fn enumerator_activation_by_host() {
    assert!(server_list_activation(&None, "") == Activation::Local);
    assert!(server_list_activation(&Some(String::new()), "bob") == Activation::Local);
    assert!(server_list_activation(&Some("localhost".to_string()), "") == Activation::Remote { explicit_credentials: false });
    assert!(server_list_activation(&Some("10.0.0.5".to_string()), "bob") == Activation::Remote { explicit_credentials: true });
}

#[test]
fn item_properties_from_parallel_replies() {
    let ids = vec![1u32, 2, 5, 6];
    let descriptions = vec![Some("Item Canonical DataType".to_string()), None, Some("Item Quality".to_string())];
    let data_types = vec![2u16, 8];
    let values = vec!["3".to_string(), "42".to_string(), "x".to_string()];
    let statuses = vec![
        ItemStatus { code: S_OK, hint: String::new() },
        ItemStatus { code: S_OK, hint: String::new() },
        ItemStatus { code: OPC_E_INVALIDITEMID, hint: "unknown item".to_string() },
    ];
    let r = item_properties(&ids, &descriptions, &data_types, &values, &statuses, "no status");
    let view: Vec<(u32, &str, u16, &str)> = r.iter().map(|p| (p.id, p.description.as_str(), p.data_type, p.value.as_str())).collect();
    assert_eq!(
        view,
        vec![
            (1, "Item Canonical DataType", 2, "3"),
            (2, "", 8, "42"),
            (5, "Item Quality", 0, "Error: unknown item"),
            (6, "", 0, "Error: no status"),
        ]
    );
}

#[test]
fn worker_error_messages() {
    assert_eq!(invalid_state(&unknown_subscription(7)), "unknown subscription cookie 7");
    assert_eq!(invalid_state(&unknown_shutdown_subscription(12)), "unknown shutdown cookie 12");
    assert_eq!(invalid_state(&reconnect_unknown_subscription(0)), "reconnect: unknown subscription cookie 0");
    assert_eq!(invalid_state(&rebuild_unknown_subscription(4294967295)), "rebuild: unknown subscription cookie 4294967295");
}

#[test]
fn readvise_outcomes() {
    assert!(matches!(after_readvise(Ok(())), RebuildNext::Done));
    let dead = OpcError::Com { code: RPC_S_SERVER_UNAVAILABLE, message: "gone".to_string() };
    assert!(matches!(after_readvise(Err(dead)), RebuildNext::Reconnect));
    let other = OpcError::Com { code: E_FAIL, message: "nope".to_string() };
    match after_readvise(Err(other)) {
        RebuildNext::Fail(OpcError::Com { code, message }) => assert_eq!((code, message.as_str()), (E_FAIL, "nope")),
        _ => panic!("expected the failure to be reported"),
    }
}

#[test]
fn min_timeout_fits_u32() {
    assert_eq!(min_timeout_ms_u32(30_000), 30_000);
    assert_eq!(min_timeout_ms_u32(u32::MAX as u64), u32::MAX);
    assert_eq!(min_timeout_ms_u32(u32::MAX as u64 + 1), u32::MAX);
}

#[test]
fn desktop_payload_fields() {
    assert_eq!(tag_descriptor("Random.Int4".to_string()).item_id, "Random.Int4");
    let t = TagValue {
        tag_id: "a".to_string(),
        value: "1".to_string(),
        data_type: "VT_I4".to_string(),
        quality: "Good".to_string(),
        timestamp: "2024".to_string(),
    };
    let u = tag_update(t);
    assert_eq!(
        (u.tag_id.as_str(), u.value.as_str(), u.data_type.as_str(), u.quality.as_str(), u.timestamp.as_str()),
        ("a", "1", "VT_I4", "Good", "2024")
    );
    let s = server_info(ServerDesc { prog_id: "P.1".to_string(), clsid: "c".to_string(), user_type: Some("U".to_string()) });
    assert_eq!((s.prog_id.as_str(), s.clsid.as_str(), s.user_type.as_deref()), ("P.1", "c", Some("U")));
    assert_eq!(error_message(OpcError::Connection("down".to_string())), "down");
    assert_eq!(error_message(OpcError::Com { code: E_FAIL, message: "bad".to_string() }), "bad");
    assert_eq!(version_string(2, 10, 345), "2.10 Build 345");
    assert_eq!(server_state_name(ServerState::Running), "Running");
    assert_eq!(server_state_name(ServerState::CommFault), "CommFault");
}

#[test]
fn clearing_the_picked_server() {
    let mut s = SessionState::new();
    s.set_prog_id("Sim.1".to_string());
    s.register_cookie(3);
    s.clear_prog_id();
    assert!(s.prog_id().is_err());
    assert!(s.forget_cookie(3), "cookies survive clearing the server");
}

#[test]
fn builtin_waveforms() {
    assert_eq!(random_i4(0), 0);
    assert_eq!(random_i4(1), (2_654_435_761u64 % 101) as i32);
    assert_eq!(random_r8_centi(3), (3u64 * 2_654_435_761) % 10_000);
    assert_eq!(square_wave_centi(4), 10_000);
    assert_eq!(square_wave_centi(5), 0);
}

#[test]
fn namespace_of_a_tree_is_depth_first() {
    let tree = NsNode::Branch {
        name: String::new(),
        children: vec![
            NsNode::Branch {
                name: "Random".to_string(),
                children: vec![NsNode::Leaf { id: "Random.Int4.0".to_string() }, NsNode::Leaf { id: "Random.Int4.1".to_string() }],
            },
            NsNode::Leaf { id: "_System.Time".to_string() },
        ],
    };
    let ns = NamespaceTree::from_tree(tree);
    assert_eq!(ns.leaves(), &vec!["Random.Int4.0".to_string(), "Random.Int4.1".to_string(), "_System.Time".to_string()]);
}

#[test]
fn validate_items_registers_nothing() {
    let mut g = GroupInner::new(String::new(), true, 1000, 0, 0, 0, 0, 0);
    let metas = vec![Some(ItemMeta { data_type: VT_I4, writable: true }), None];
    let out = g.validate_items(&metas);
    assert_eq!(out.len(), 2);
    assert_eq!((out[0].0.h_server, out[0].0.canonical_type, out[0].0.access_rights, out[0].1), (0, VT_I4, 3, S_OK));
    assert_eq!((out[1].0.h_server, out[1].0.canonical_type, out[1].0.access_rights, out[1].1), (0, 0, 0, OPC_E_INVALIDITEMID));
    assert_eq!(g.item_count(), 0);
    let defs = vec![ItemDef { item_id: "Random.Int4".to_string(), h_client: 9, active: true }];
    g.add_items(&defs, &vec![Some(ItemMeta { data_type: VT_I4, writable: false })]);
    assert_eq!(g.item_count(), 1);
}

#[test]
fn filetime_of_unix_times() {
    assert_eq!(unix_to_filetime(0, 0), 116_444_736_000_000_000);
    assert_eq!(unix_to_filetime(1, 999), 116_444_736_010_000_009);
    assert_eq!(unix_to_filetime(u64::MAX, 0), u64::MAX);
    assert_eq!(filetime_halves(0x0123_4567_89AB_CDEF), (0x89AB_CDEF, 0x0123_4567));
    let st = ServerObj.status(42);
    assert_eq!((st.start_time, st.current_time, st.last_update_time), (42, 42, 42));
    assert_eq!((st.server_state, st.group_count, st.band_width), (OPC_STATUS_RUNNING, 0, 0));
    assert_eq!((st.major_version, st.minor_version, st.build_number), (0, 1, 0));
    assert_eq!(st.vendor_info, "opc-da-server (Rust)");
}

#[test]
fn sim_item_ids_resolve_to_table_rows() {
    assert_eq!(parse_item("Random.Int4.3", 5), Some((0, 3)));
    assert_eq!(parse_item("WriteTag.Int4.0", 5), Some((6, 0)));
    assert_eq!(parse_item("_System.Time", 5), Some((8, 0)));
    assert_eq!(parse_item("_System.Time", 0), Some((8, 0)));
    assert_eq!(parse_item("_System.Time.1", 5), None);
    assert_eq!(parse_item("Random.Int4", 5), None);
    assert_eq!(parse_item("Random.Int4.x", 5), None);
    assert_eq!(parse_item("Random.Int4.5", 5), None, "an index at count is unknown");
    assert_eq!(parse_item("Random.Int4.999", 5), None);
    assert_eq!(parse_item("Random.Int4.03", 5), None, "only the namespace's own spelling");
    assert_eq!(parse_item("Random.Int4.+3", 5), None);
    let t = tag_type(7);
    assert_eq!((t.prefix, t.dtype, t.kind, t.writable, t.range, t.singleton), ("AltBool.Bool", VT_BOOL, TagKind::AltBool, false, None, false));
    let b = tag_type(5);
    assert_eq!((b.prefix, b.dtype, b.writable, b.range), ("BucketBrigade.Int4", VT_I4, true, Some((0, 100))));
    assert_eq!(tag_type(1).dtype, VT_R8);
}

#[test]
fn nil_clsid_is_not_listed() {
    let nil = || Guid { data1: 0, data2: 0, data3: 0, data4: [0; 8] };
    let one = || Guid { data1: 0, data2: 0, data3: 0, data4: [0, 0, 0, 0, 0, 0, 0, 1] };
    assert!(guid_is_nil(&nil()));
    assert!(!guid_is_nil(&one()));
    let details = vec![
        ClassDetails { clsid: nil(), prog_id: "a.S".into(), user_type: "from nil".into() },
        ClassDetails { clsid: one(), prog_id: "a.S".into(), user_type: "real".into() },
        ClassDetails { clsid: nil(), prog_id: "b.S".into(), user_type: String::new() },
    ];
    let list = sorted_server_list(&details);
    assert_eq!(list.len(), 1);
    assert_eq!(list[0].prog_id, "a.S");
    assert_eq!(list[0].clsid, "00000000-0000-0000-0000-000000000001");
    assert_eq!(list[0].user_type.as_deref(), Some("real"));
}

#[test]
fn max_age_reply_per_item() {
    let tags = vec!["a".to_string(), "b".to_string(), "c".to_string()];
    let values = vec![("1".to_string(), "VT_I4".to_string()), ("x".to_string(), "VT_BSTR".to_string())];
    let qualities = vec!["Good".to_string()];
    let timestamps = vec!["t0".to_string(), "t1".to_string()];
    let codes = vec![S_OK, E_FAIL, S_OK, S_OK];
    let r = max_age_values(&tags, 4, &values, &qualities, &timestamps, &codes);
    let view: Vec<(&str, &str, &str, &str, &str)> = r
        .iter()
        .map(|t| (t.tag_id.as_str(), t.value.as_str(), t.data_type.as_str(), t.quality.as_str(), t.timestamp.as_str()))
        .collect();
    assert_eq!(
        view,
        vec![
            ("a", "1", "VT_I4", "Good", "t0"),
            ("b", "Error", "", "Bad", "t1"),
            ("c", "Error", "", "Bad", ""),
            ("", "Error", "", "Bad", ""),
        ]
    );
    assert!(max_age_values(&tags, 0, &values, &qualities, &timestamps, &codes).is_empty());
}

#[test]
fn guid_equality_compares_every_field() {
    let g = |d4_last: u8| Guid { data1: 7, data2: 8, data3: 9, data4: [1, 2, 3, 4, 5, 6, 7, d4_last] };
    assert!(guid_eq(&g(1), &g(1)));
    assert!(!guid_eq(&g(1), &g(2)));
    assert!(!guid_eq(&g(1), &Guid { data1: 6, data2: 8, data3: 9, data4: [1, 2, 3, 4, 5, 6, 7, 1] }));
}

#[test]
fn other_errors_carry_their_message() {
    let e = DesktopError::other("cannot write null value".to_string());
    assert_eq!(e.kind(), "other");
    assert!(matches!(e, DesktopError::Other(m) if m == "cannot write null value"));
}
