use opc_da::client::browse::{BrowseReply, BrowseRequest, BrowseWalk, OPC_BRANCH, OPC_FLAT, OPC_LEAF};
use opc_da::client::types::OpcError;

/// A small address space: branch name -> (sub-branches, leaves).
#[derive(Clone)]
struct Node {
    name: String,
    branches: Vec<Node>,
    leaves: Vec<String>,
}

struct FakeServer {
    root: Node,
    org: u32,
    flat_supported: bool,
    path: Vec<usize>,
    open: Vec<Result<String, OpcError>>,
    downs: usize,
    ups: usize,
}

impl FakeServer {
    fn node(&self) -> &Node {
        let mut n = &self.root;
        for &i in &self.path {
            n = &n.branches[i];
        }
        n
    }

    fn prefix(&self) -> String {
        let mut n = &self.root;
        let mut parts = Vec::new();
        for &i in &self.path {
            n = &n.branches[i];
            parts.push(n.name.clone());
        }
        parts.join(".")
    }

    fn all_ids(n: &Node, prefix: &str, out: &mut Vec<String>) {
        for l in &n.leaves {
            out.push(if prefix.is_empty() { l.clone() } else { format!("{prefix}.{l}") });
        }
        for b in &n.branches {
            let p = if prefix.is_empty() { b.name.clone() } else { format!("{prefix}.{}", b.name) };
            Self::all_ids(b, &p, out);
        }
    }

    fn answer(&mut self, req: &BrowseRequest) -> BrowseReply {
        match req {
            BrowseRequest::QueryOrganization => BrowseReply::Organization(Ok(self.org)),
            BrowseRequest::List { browse_type } => {
                let items: Vec<Result<String, OpcError>> = if *browse_type == OPC_FLAT {
                    if !self.flat_supported {
                        return BrowseReply::Listed(Err(OpcError::NotImplemented("no flat".into())));
                    }
                    let mut v = Vec::new();
                    Self::all_ids(&self.root, "", &mut v);
                    v.into_iter().map(Ok).collect()
                } else if *browse_type == OPC_BRANCH {
                    self.node().branches.iter().map(|b| Ok(b.name.clone())).collect()
                } else {
                    assert_eq!(*browse_type, OPC_LEAF);
                    self.node().leaves.iter().map(|l| Ok(l.clone())).collect()
                };
                self.open = items.into_iter().rev().collect();
                BrowseReply::Listed(Ok(()))
            }
            BrowseRequest::NextItem => BrowseReply::Item(self.open.pop()),
            BrowseRequest::ItemId { browse_name } => {
                let p = self.prefix();
                BrowseReply::ItemId(Ok(if p.is_empty() { browse_name.clone() } else { format!("{p}.{browse_name}") }))
            }
            BrowseRequest::Down { branch } => {
                let idx = self.node().branches.iter().position(|b| &b.name == branch).expect("known branch");
                self.path.push(idx);
                self.downs += 1;
                BrowseReply::Moved(Ok(()))
            }
            BrowseRequest::Up => {
                self.path.pop();
                self.ups += 1;
                BrowseReply::Moved(Ok(()))
            }
            BrowseRequest::Finish(_) => panic!("finished"),
        }
    }
}

fn run(server: &mut FakeServer, max: usize) -> Result<Vec<String>, OpcError> {
    let (mut walk, mut req) = BrowseWalk::new(max);
    for _ in 0..10_000 {
        if let BrowseRequest::Finish(r) = req {
            return r;
        }
        let reply = server.answer(&req);
        req = walk.step(reply);
    }
    panic!("walk did not finish");
}

fn leaf(name: &str, leaves: &[&str], branches: Vec<Node>) -> Node {
    Node { name: name.into(), branches, leaves: leaves.iter().map(|s| s.to_string()).collect() }
}

fn tree() -> Node {
    leaf(
        "",
        &["Top"],
        vec![
            leaf("Random", &[], vec![leaf("Int4", &["0", "1"], vec![]), leaf("Real8", &["0"], vec![])]),
            leaf("_System", &["Time"], vec![]),
        ],
    )
}

fn server(org: u32, flat: bool) -> FakeServer {
    FakeServer { root: tree(), org, flat_supported: flat, path: vec![], open: vec![], downs: 0, ups: 0 }
}

#[test]
fn browse_flat_server_lists_leaves() {
    let mut s = server(2, false);
    s.root.leaves = vec!["A".into(), "B".into(), "C".into()];
    assert_eq!(run(&mut s, 100).unwrap(), vec!["A", "B", "C"]);
    let mut s = server(2, false);
    s.root.leaves = vec!["A".into(), "B".into(), "C".into()];
    assert_eq!(run(&mut s, 2).unwrap(), vec!["A", "B"]);
}

#[test]
fn browse_hierarchical_uses_flat_listing_when_supported() {
    let mut s = server(1, true);
    assert_eq!(run(&mut s, 100).unwrap(), vec!["Top", "Random.Int4.0", "Random.Int4.1", "Random.Real8.0", "_System.Time"]);
    assert_eq!(s.downs, 0, "no tree walk");
    let mut s = server(1, true);
    assert!(run(&mut s, 0).unwrap().is_empty(), "a zero limit keeps no id");
    let mut s = server(1, false);
    assert!(run(&mut s, 0).unwrap().is_empty(), "nor does the tree walk");
}

#[test]
fn browse_hierarchical_walks_tree_without_flat() {
    let mut s = server(1, false);
    assert_eq!(run(&mut s, 100).unwrap(), vec!["Top", "Random.Int4.0", "Random.Int4.1", "Random.Real8.0", "_System.Time"]);
    assert_eq!(s.downs, s.ups, "every descent climbs back");
    assert!(s.path.is_empty());
    let mut s = server(1, false);
    assert_eq!(run(&mut s, 3).unwrap(), vec!["Top", "Random.Int4.0", "Random.Int4.1"]);
    assert_eq!(s.downs, s.ups);
}

#[test]
fn browse_organization_error_fails() {
    let (mut walk, _) = BrowseWalk::new(10);
    match walk.step(BrowseReply::Organization(Err(OpcError::Connection("down".into())))) {
        BrowseRequest::Finish(Err(OpcError::Connection(m))) => assert_eq!(m, "down"),
        _ => panic!("the error ends the walk"),
    }
}
