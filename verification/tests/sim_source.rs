use opc_da::hresult::{E_ACCESSDENIED, E_INVALIDARG, S_OK};
use opc_da::server::data_source::{NsNode, NsOrganization, OPC_QUALITY_BAD, OPC_QUALITY_GOOD};
use opc_da::sim::data_source::{SimDataSource, SimValue};
use opc_da::sim::runtime::{
    build_registration, clsid_opc_da_sim, count_from_config, count_from_env, read_count, start_mode, StartMode,
};
use opc_da::sim::tags::{build_namespace_tree, expand_ids, VT_BOOL, VT_I4, VT_R8};

fn vt_of(v: &SimValue) -> u16 {
    match v {
        SimValue::Empty => 0,
        SimValue::I4(_) => VT_I4,
        SimValue::Bool(_) => VT_BOOL,
        SimValue::R8 { .. } => VT_R8,
    }
}

fn as_i4(v: &SimValue) -> Option<i32> {
    match v {
        SimValue::I4(x) => Some(*x),
        _ => None,
    }
}

#[test]
fn namespace_size_and_org() {
    let ds = SimDataSource::new(5);
    assert_eq!(ds.namespace().leaves().len(), 8 * 5 + 1, "41 tag");
    assert_eq!(ds.query_organization(), NsOrganization::Hierarchical);
}

#[test]
fn read_random_int4_is_good_vt_i4() {
    let ds = SimDataSource::new(5);
    let r = ds.read("Random.Int4.0", 0);
    assert_eq!(r.quality, OPC_QUALITY_GOOD);
    assert_eq!(vt_of(&r.value), VT_I4);
}

#[test]
fn read_altbool_is_vt_bool() {
    let ds = SimDataSource::new(5);
    let r = ds.read("AltBool.Bool.0", 0);
    assert_eq!(r.quality, OPC_QUALITY_GOOD);
    assert_eq!(vt_of(&r.value), VT_BOOL);
}

#[test]
fn read_system_time_singleton() {
    let ds = SimDataSource::new(5);
    let r = ds.read("_System.Time", 0);
    assert_eq!(r.quality, OPC_QUALITY_GOOD);
    assert_eq!(vt_of(&r.value), VT_R8);
}

#[test]
fn read_unknown_is_bad() {
    let ds = SimDataSource::new(5);
    let r = ds.read("nope.0", 0);
    assert_eq!(r.quality, OPC_QUALITY_BAD);
}

#[test]
fn write_counter_round_trip() {
    let mut ds = SimDataSource::new(5);
    assert_eq!(ds.write("BucketBrigade.Int4.2", Some(42)), S_OK);
    let r = ds.read("BucketBrigade.Int4.2", 0);
    assert_eq!(r.quality, OPC_QUALITY_GOOD);
    assert_eq!(as_i4(&r.value), Some(42));
}

#[test]
fn write_register_round_trip() {
    let mut ds = SimDataSource::new(5);
    assert_eq!(ds.write("WriteTag.Int4.1", Some(7)), S_OK);
    let r = ds.read("WriteTag.Int4.1", 0);
    assert_eq!(as_i4(&r.value), Some(7));
}

#[test]
fn write_readonly_denied() {
    let mut ds = SimDataSource::new(5);
    assert_eq!(ds.write("Random.Int4.0", Some(1)), E_ACCESSDENIED);
}

#[test]
fn write_wrong_type_invalidarg() {
    let mut ds = SimDataSource::new(5);
    // A VT_R8 payload carries no VT_I4 value.
    assert_eq!(ds.write("BucketBrigade.Int4.0", None), E_INVALIDARG);
}

#[test]
fn write_unknown_denied() {
    let mut ds = SimDataSource::new(5);
    assert_eq!(ds.write("nope.0", Some(1)), E_ACCESSDENIED);
}

#[test]
fn item_meta_known_and_writable_flag() {
    let ds = SimDataSource::new(5);
    let m = ds.item_meta("BucketBrigade.Int4.0").expect("meta");
    assert_eq!(m.data_type, VT_I4);
    assert!(m.writable);
    let ro = ds.item_meta("Random.Real8.0").expect("meta");
    assert!(!ro.writable);
    assert!(ds.item_meta("nope").is_none());
}

#[test]
fn item_range_eu() {
    let ds = SimDataSource::new(5);
    let as_f64 = |r: Option<(i32, i32)>| r.map(|(lo, hi)| (f64::from(lo), f64::from(hi)));
    assert_eq!(as_f64(ds.item_range("Random.Int4.0")), Some((0.0, 100.0)));
    assert_eq!(as_f64(ds.item_range("WriteTag.Int4.0")), None);
}

#[test]
fn registration_fields() {
    let reg = build_registration("C:\\test.exe");
    assert_eq!(reg.prog_id, "opc-da-rs.Sim.1");
    assert_eq!(reg.version_independent_prog_id, "opc-da-rs.Sim");
    let sim = clsid_opc_da_sim();
    assert_eq!(reg.clsid.data1, sim.data1);
    assert_eq!(reg.clsid.data2, sim.data2);
    assert_eq!(reg.clsid.data3, sim.data3);
    assert_eq!(reg.clsid.data4, sim.data4);
    // The library server's CLSID is {9A7B3C2D-4E5F-6789-ABCD-EF0123456789}.
    assert_ne!(reg.clsid.data1, 0x9a7b_3c2d, "must differ from the library server's CLSID");
    assert_eq!(reg.description, "opc-da-rs OPC DA Simulation Server");
    assert_eq!(reg.catids.len(), 3);
}

#[test]
fn expand_default_count() {
    let ids = expand_ids(100);
    assert_eq!(ids.len(), 8 * 100 + 1, "801 tags by default");
    assert!(ids.contains(&"_System.Time".to_string()), "singleton present");
    assert!(ids.contains(&"Random.Int4.0".to_string()));
    assert!(ids.contains(&"Random.Int4.99".to_string()));
    assert!(!ids.contains(&"Random.Int4.100".to_string()), "indices stop at 99");
}

#[test]
fn expand_small_count() {
    let ids = expand_ids(2);
    assert_eq!(ids.len(), 8 * 2 + 1, "17 tags");
    assert!(ids.contains(&"BucketBrigade.Int4.1".to_string()));
}

#[test]
fn expand_no_duplicates() {
    let ids = expand_ids(50);
    let mut sorted = ids;
    sorted.sort();
    let dedup_len = sorted.windows(2).filter(|w| w[0] == w[1]).count();
    assert_eq!(dedup_len, 0, "no duplicate item id");
}

#[test]
fn tree_random_branch() {
    let ids = expand_ids(3);
    let root = build_namespace_tree(&ids);
    let children = match &root {
        NsNode::Branch { children, .. } => children,
        NsNode::Leaf { .. } => panic!("the root must be a branch"),
    };
    let names: Vec<&str> = children
        .iter()
        .filter_map(|c| match c {
            NsNode::Branch { name, .. } => Some(name.as_str()),
            NsNode::Leaf { .. } => None,
        })
        .collect();
    assert!(names.contains(&"Random"), "Random branch missing");
    assert!(names.contains(&"_System"), "_System branch missing");
}

#[test]
fn sim_count_from_config_and_env() {
    assert_eq!(count_from_config("# tags\n  count =  250 \r\nother=1\n"), Some(250));
    assert_eq!(count_from_config("counter = 3\ncount=+7"), Some(7));
    assert_eq!(count_from_config("count 12\n"), None);
    assert_eq!(count_from_env("42"), Some(42));
    assert_eq!(count_from_env(" 42"), None);
    assert_eq!(read_count(Some(0), Some(5)), 100, "configured 0 is out of range");
    assert_eq!(read_count(None, Some(5)), 5);
    assert_eq!(read_count(None, Some(100_001)), 100);
    assert_eq!(read_count(Some(100_000), None), 100_000);
    assert_eq!(read_count(None, None), 100);
}

#[test]
fn sim_start_mode_flags() {
    let args = |v: &[&str]| v.iter().map(|s| s.to_string()).collect::<Vec<_>>();
    assert!(start_mode(&args(&["sim.exe", "/regserver"])) == StartMode::Register);
    assert!(start_mode(&args(&["sim.exe", "/UNREGSERVER"])) == StartMode::Unregister);
    assert!(start_mode(&args(&["sim.exe", "/UnregServer", "/RegServer"])) == StartMode::Register);
    assert!(start_mode(&args(&["sim.exe", "-Embedding"])) == StartMode::Serve);
}

#[test]
fn ids_beyond_count_are_unknown() {
    let mut ds = SimDataSource::new(5);
    let r = ds.read("Random.Int4.999", 0);
    assert_eq!(r.quality, OPC_QUALITY_BAD);
    assert!(matches!(r.value, SimValue::Empty));
    assert_eq!(ds.write("BucketBrigade.Int4.99", Some(1)), E_ACCESSDENIED);
    assert_eq!(ds.write("BucketBrigade.Int4.4", Some(1)), S_OK);
    assert!(ds.item_meta("WriteTag.Int4.5").is_none());
    assert!(ds.item_range("Random.Int4.5").is_none());
    assert_eq!(ds.read("Random.Int4.4", 0).quality, OPC_QUALITY_GOOD);
}

/// The children of the branch at `path` below `node`.
fn children_at<'a>(node: &'a NsNode, path: &[&str]) -> &'a Vec<NsNode> {
    let children = match node {
        NsNode::Branch { children, .. } => children,
        NsNode::Leaf { .. } => panic!("not a branch"),
    };
    match path.split_first() {
        None => children,
        Some((head, rest)) => {
            let next = children
                .iter()
                .find(|c| matches!(c, NsNode::Branch { name, .. } if name == head))
                .expect("branch present");
            children_at(next, rest)
        }
    }
}

#[test]
fn tree_random_int4_has_3_leaves() {
    let ids = expand_ids(3);
    let root = build_namespace_tree(&ids);
    assert_eq!(children_at(&root, &["Random"]).len(), 2, "Int4 and Real8 under Random");
    let leaves: Vec<&str> = children_at(&root, &["Random", "Int4"])
        .iter()
        .map(|c| match c {
            NsNode::Leaf { id } => id.as_str(),
            NsNode::Branch { .. } => panic!("only leaves under Random.Int4"),
        })
        .collect();
    assert_eq!(leaves, vec!["Random.Int4.0", "Random.Int4.1", "Random.Int4.2"], "3 index leaves, in order");
    let top: Vec<&str> = children_at(&root, &[])
        .iter()
        .map(|c| match c {
            NsNode::Branch { name, .. } => name.as_str(),
            NsNode::Leaf { id } => id.as_str(),
        })
        .collect();
    assert_eq!(
        top,
        vec!["Random", "Square", "Sawtooth", "Triangle", "BucketBrigade", "WriteTag", "AltBool", "_System"],
        "one branch per first piece, in first-insertion order"
    );
}

#[test]
fn sim_namespace_clone_keeps_leaves() {
    let ds = SimDataSource::new(2);
    let ns = ds.namespace().clone();
    assert_eq!(ns.leaves(), ds.namespace().leaves());
    assert_eq!(ns.leaves().first().map(String::as_str), Some("Random.Int4.0"));
}
