//! Namespace model and the built-in four-tag simulation data source.

use vstd::prelude::*;
use vstd::seq_lib::*;
use vstd::multiset::*;
use vstd::string::*;

use crate::hresult::{E_ACCESSDENIED, E_INVALIDARG, S_OK};
use crate::sim::tags::{VT_I4, VT_R8};
use crate::text::str_eq;

verus! {

broadcast use vstd::seq_lib::group_seq_properties, vstd::multiset::group_multiset_axioms;

/// OPC quality of a good value (`0xC0`).
pub const OPC_QUALITY_GOOD: u16 = 0xC0;
/// OPC quality of a bad value (`0x00`).
pub const OPC_QUALITY_BAD: u16 = 0x00;

/// Whether a server's namespace is flat or hierarchical
/// (`IOPCBrowseServerAddressSpace::QueryOrganization`).
#[derive(Clone, Copy, Debug, PartialEq, Eq, Structural)]
pub enum NsOrganization {
    Flat,
    Hierarchical,
}

/// Canonical metadata of one item (checked by `AddItems`).
#[derive(Clone, Copy, Debug, PartialEq, Eq, Structural)]
pub struct ItemMeta {
    /// Canonical VARENUM type of the item's value.
    pub data_type: u16,
    /// Whether clients may write the item.
    pub writable: bool,
}

/// A node of a hierarchical namespace: a named branch with children, or a
/// leaf carrying a full item id.
pub enum NsNode {
    Branch { name: String, children: Vec<NsNode> },
    Leaf { id: String },
}

/// Leaf ids of `n` in depth-first order.
pub open spec fn node_leaves(n: NsNode) -> Seq<Seq<char>>
    decreases n,
{
    match n {
        NsNode::Leaf { id } => seq![id@],
        NsNode::Branch { children, .. } => forest_leaves(children@),
    }
}

/// Leaf ids of the trees `cs`, one after another, depth-first.
pub open spec fn forest_leaves(cs: Seq<NsNode>) -> Seq<Seq<char>>
    decreases cs,
{
    if cs.len() == 0 {
        seq![]
    } else {
        forest_leaves(cs.drop_last()) + node_leaves(cs.last())
    }
}

/// A namespace node as a value: a named branch with its children in
/// order, or a leaf with its item id.
pub enum NsTree {
    Branch(Seq<char>, Seq<NsTree>),
    Leaf(Seq<char>),
}

/// `n` as a value.
pub open spec fn tree_view(n: NsNode) -> NsTree
    decreases n,
{
    match n {
        NsNode::Leaf { id } => NsTree::Leaf(id@),
        NsNode::Branch { name, children } => NsTree::Branch(name@, forest_view(children@)),
    }
}

/// The trees `cs` as values, in order.
pub open spec fn forest_view(cs: Seq<NsNode>) -> Seq<NsTree>
    decreases cs,
{
    if cs.len() == 0 {
        seq![]
    } else {
        forest_view(cs.drop_last()).push(tree_view(cs.last()))
    }
}

/// Leaf ids of `t` in depth-first order.
pub open spec fn tree_leaves(t: NsTree) -> Seq<Seq<char>>
    decreases t,
{
    match t {
        NsTree::Leaf(id) => seq![id],
        NsTree::Branch(_, cs) => trees_leaves(cs),
    }
}

/// Leaf ids of the trees `cs`, one after another, depth-first.
pub open spec fn trees_leaves(cs: Seq<NsTree>) -> Seq<Seq<char>>
    decreases cs,
{
    if cs.len() == 0 {
        seq![]
    } else {
        trees_leaves(cs.drop_last()) + tree_leaves(cs.last())
    }
}

/// The view of a forest has one tree per node, each the node's view.
pub proof fn lemma_forest_view_index(cs: Seq<NsNode>)
    ensures
        forest_view(cs).len() == cs.len(),
        forall|i: int| 0 <= i < cs.len() ==> #[trigger] forest_view(cs)[i] == tree_view(cs[i]),
    decreases cs.len(),
{
    if cs.len() > 0 {
        lemma_forest_view_index(cs.drop_last());
    }
}

/// Replacing one node of a forest replaces its view.
pub proof fn lemma_forest_view_update(cs: Seq<NsNode>, i: int, c: NsNode)
    requires
        0 <= i < cs.len(),
    ensures
        forest_view(cs.update(i, c)) == forest_view(cs).update(i, tree_view(c)),
{
    lemma_forest_view_index(cs);
    lemma_forest_view_index(cs.update(i, c));
    assert(forest_view(cs.update(i, c)) =~= forest_view(cs).update(i, tree_view(c)));
}

/// Appending a node to a forest appends its view.
pub proof fn lemma_forest_view_push(cs: Seq<NsNode>, c: NsNode)
    ensures
        forest_view(cs.push(c)) == forest_view(cs).push(tree_view(c)),
{
    assert(cs.push(c).drop_last() =~= cs);
}

/// The leaves of a node are those of its view.
pub proof fn lemma_node_leaves_view(n: NsNode)
    ensures
        node_leaves(n) == tree_leaves(tree_view(n)),
    decreases n,
{
    match n {
        NsNode::Leaf { .. } => {},
        NsNode::Branch { children, .. } => {
            lemma_forest_leaves_view(children@);
        },
    }
}

/// The leaves of a forest are those of its view.
pub proof fn lemma_forest_leaves_view(cs: Seq<NsNode>)
    ensures
        forest_leaves(cs) == trees_leaves(forest_view(cs)),
    decreases cs,
{
    if cs.len() > 0 {
        lemma_forest_leaves_view(cs.drop_last());
        lemma_node_leaves_view(cs.last());
        assert(forest_view(cs).drop_last() =~= forest_view(cs.drop_last()));
    }
}

/// Appending a tree to a forest appends its leaves.
pub proof fn lemma_forest_push(cs: Seq<NsNode>, c: NsNode)
    ensures
        forest_leaves(cs.push(c)) == forest_leaves(cs) + node_leaves(c),
{
    assert(cs.push(c).drop_last() =~= cs);
}

/// Replacing one tree of a forest by a tree with one more leaf `x` adds
/// exactly `x` to the forest's leaves.
pub proof fn lemma_forest_update_insert(cs: Seq<NsNode>, i: int, c2: NsNode, x: Seq<char>)
    requires
        0 <= i < cs.len(),
        node_leaves(c2).to_multiset() == node_leaves(cs[i]).to_multiset().insert(x),
    ensures
        forest_leaves(cs.update(i, c2)).to_multiset() == forest_leaves(cs).to_multiset().insert(x),
    decreases cs.len(),
{
    let u = cs.update(i, c2);
    if i == cs.len() - 1 {
        assert(u.drop_last() =~= cs.drop_last());
        lemma_multiset_commutative(forest_leaves(cs.drop_last()), node_leaves(c2));
        lemma_multiset_commutative(forest_leaves(cs.drop_last()), node_leaves(cs.last()));
        assert(forest_leaves(u).to_multiset() =~= forest_leaves(cs).to_multiset().insert(x));
    } else {
        assert(u.drop_last() =~= cs.drop_last().update(i, c2));
        lemma_forest_update_insert(cs.drop_last(), i, c2, x);
        lemma_multiset_commutative(forest_leaves(u.drop_last()), node_leaves(cs.last()));
        lemma_multiset_commutative(forest_leaves(cs.drop_last()), node_leaves(cs.last()));
        assert(forest_leaves(u).to_multiset() =~= forest_leaves(cs).to_multiset().insert(x));
    }
}

/// The browse view of a namespace: all leaf item ids, in browse order.
pub struct NamespaceTree {
    leaves: Vec<String>,
}

impl Clone for NamespaceTree {
    /// A namespace with the same leaf ids in the same order.
    fn clone(&self) -> (r: Self)
        ensures
            r.leaf_ids() == self.leaf_ids(),
    {
        let leaves = self.leaves.clone();
        assert(leaves.deep_view() =~= self.leaves.deep_view());
        NamespaceTree { leaves }
    }
}

impl NamespaceTree {
    /// Leaf ids held by the namespace.
    pub closed spec fn leaf_ids(&self) -> Seq<Seq<char>> {
        self.leaves.deep_view()
    }

    /// A namespace over the given leaf ids.
    pub fn new(leaves: Vec<String>) -> (r: Self)
        ensures
            r.leaf_ids() == leaves.deep_view(),
    {
        NamespaceTree { leaves }
    }

    /// All leaf ids, in browse order.
    pub fn leaves(&self) -> (r: &Vec<String>)
        ensures
            r.deep_view() == self.leaf_ids(),
    {
        &self.leaves
    }

    /// The namespace of a tree: its leaves in depth-first order.
    pub fn from_tree(root: NsNode) -> (r: Self)
        ensures
            r.leaf_ids() == node_leaves(root),
    {
        let mut leaves: Vec<String> = Vec::new();
        collect_leaves(&root, &mut leaves);
        assert(leaves.deep_view() =~= node_leaves(root));
        NamespaceTree { leaves }
    }
}

/// Appends the leaf ids of `node`, depth-first, to `out`.
fn collect_leaves(node: &NsNode, out: &mut Vec<String>)
    ensures
        final(out).deep_view() == old(out).deep_view() + node_leaves(*node),
    decreases node,
{
    match node {
        NsNode::Leaf { id } => {
            out.push(id.clone());
            assert(out.deep_view() =~= old(out).deep_view() + node_leaves(*node));
        },
        NsNode::Branch { children, .. } => {
            let mut i: usize = 0;
            assert(children@.take(0) =~= Seq::<NsNode>::empty());
            while i < children.len()
                invariant
                    i <= children.len(),
                    *node == (NsNode::Branch { name: node->name, children: *children }),
                    out.deep_view() == old(out).deep_view() + forest_leaves(children@.take(i as int)),
                decreases children.len() - i,
            {
                assert(decreases_to!(*node => node->children));
                assert(decreases_to!(*children => children@));
                assert(decreases_to!(children@ => children@[i as int]));
                let ghost before = out.deep_view();
                collect_leaves(&children[i], out);
                assert(children@.take(i + 1).drop_last() =~= children@.take(i as int));
                assert(out.deep_view() =~= old(out).deep_view() + forest_leaves(children@.take(i + 1)));
                i = i + 1;
            }
            assert(children@.take(children.len() as int) =~= children@);
        },
    }
}

/// A value read from the built-in data source, before the COM layer packs
/// it into a VARIANT.
#[derive(Clone, Copy, Debug, PartialEq, Eq, Structural)]
pub enum DsValue {
    /// No value (`VT_EMPTY`).
    Empty,
    /// `VT_I4`.
    I4(i32),
    /// `VT_R8` holding `centi / 100`.
    R8Centi(u64),
}

/// Result of one read of the built-in data source.
#[derive(Clone, Copy, Debug, PartialEq, Eq, Structural)]
pub struct DsRead {
    pub value: DsValue,
    pub quality: u16,
}

/// Knuth multiplicative hash of a second count (wrapping), the seed of
/// the pseudo-random tags.
pub open spec fn knuth_mix(secs: u64) -> u64 {
    (((secs as int) * 2_654_435_761int) % 0x1_0000_0000_0000_0000) as u64
}

/// `Random.Int4`: 0..=100, changing every second.
pub fn random_i4(elapsed_secs: u64) -> (r: i32)
    ensures
        r == (knuth_mix(elapsed_secs) % 101) as i32,
        0 <= r <= 100,
{
    (elapsed_secs.wrapping_mul(2_654_435_761) % 101) as i32
}

/// `Random.Real8` in hundredths: 0..=9999 (so 0.00..=99.99).
pub fn random_r8_centi(elapsed_secs: u64) -> (r: u64)
    ensures
        r == knuth_mix(elapsed_secs) % 10_000,
{
    elapsed_secs.wrapping_mul(2_654_435_761) % 10_000
}

/// `Square Waves.Real8` in hundredths: 100.0 on even seconds, 0.0 on odd.
pub fn square_wave_centi(elapsed_secs: u64) -> (r: u64)
    ensures
        r == if elapsed_secs % 2 == 0 { 10_000u64 } else { 0u64 },
{
    if elapsed_secs % 2 == 0 {
        10_000
    } else {
        0
    }
}

/// Metadata of the built-in tags: `(data type, writable)`.
pub open spec fn builtin_meta(s: Seq<char>) -> Option<(u16, bool)> {
    if s == "Random.Int4"@ {
        Some((VT_I4, false))
    } else if s == "Random.Real8"@ || s == "Square Waves.Real8"@ {
        Some((VT_R8, false))
    } else if s == "Bucket Brigade.Int4"@ {
        Some((VT_I4, true))
    } else {
        None
    }
}

/// What reading `s` from the built-in source gives when the bucket holds
/// `bucket`, `elapsed` seconds after start.
pub open spec fn builtin_read(bucket: i32, s: Seq<char>, elapsed: u64) -> DsRead {
    if s == "Random.Int4"@ {
        DsRead { value: DsValue::I4((knuth_mix(elapsed) % 101) as i32), quality: OPC_QUALITY_GOOD }
    } else if s == "Random.Real8"@ {
        DsRead { value: DsValue::R8Centi(knuth_mix(elapsed) % 10_000), quality: OPC_QUALITY_GOOD }
    } else if s == "Square Waves.Real8"@ {
        DsRead {
            value: DsValue::R8Centi(if elapsed % 2 == 0 { 10_000u64 } else { 0u64 }),
            quality: OPC_QUALITY_GOOD,
        }
    } else if s == "Bucket Brigade.Int4"@ {
        DsRead { value: DsValue::I4(bucket), quality: OPC_QUALITY_GOOD }
    } else {
        DsRead { value: DsValue::Empty, quality: OPC_QUALITY_BAD }
    }
}

/// Built-in four-tag simulation source: `Random.Int4`, `Random.Real8`,
/// `Square Waves.Real8` (read-only, time-driven) and the writable
/// `Bucket Brigade.Int4`.
pub struct SimDataSource {
    ns: NamespaceTree,
    bucket: i32,
}

impl SimDataSource {
    /// Current value of `Bucket Brigade.Int4`.
    pub closed spec fn bucket(&self) -> i32 {
        self.bucket
    }

    /// Leaf ids of the namespace.
    pub closed spec fn leaf_ids(&self) -> Seq<Seq<char>> {
        self.ns.leaf_ids()
    }

    /// The four built-in tags, bucket at 0.
    pub fn new() -> (r: Self)
        ensures
            r.bucket() == 0,
            r.leaf_ids() == seq![
                "Random.Int4"@,
                "Random.Real8"@,
                "Square Waves.Real8"@,
                "Bucket Brigade.Int4"@,
            ],
    {
        let leaves = vec![
            String::from_str("Random.Int4"),
            String::from_str("Random.Real8"),
            String::from_str("Square Waves.Real8"),
            String::from_str("Bucket Brigade.Int4"),
        ];
        let ns = NamespaceTree::new(leaves);
        assert(ns.leaf_ids() =~= seq![
            "Random.Int4"@,
            "Random.Real8"@,
            "Square Waves.Real8"@,
            "Bucket Brigade.Int4"@,
        ]);
        SimDataSource { ns, bucket: 0 }
    }

    /// The namespace (browse view).
    pub fn namespace(&self) -> (r: &NamespaceTree)
        ensures
            r.leaf_ids() == self.leaf_ids(),
    {
        &self.ns
    }

    /// Reads `item_id` `elapsed_secs` seconds after start; unknown ids read
    /// as an empty value of bad quality.
    pub fn read(&self, item_id: &str, elapsed_secs: u64) -> (r: DsRead)
        ensures
            r == builtin_read(self.bucket(), item_id@, elapsed_secs),
    {
        if str_eq(item_id, "Random.Int4") {
            DsRead { value: DsValue::I4(random_i4(elapsed_secs)), quality: OPC_QUALITY_GOOD }
        } else if str_eq(item_id, "Random.Real8") {
            DsRead { value: DsValue::R8Centi(random_r8_centi(elapsed_secs)), quality: OPC_QUALITY_GOOD }
        } else if str_eq(item_id, "Square Waves.Real8") {
            DsRead { value: DsValue::R8Centi(square_wave_centi(elapsed_secs)), quality: OPC_QUALITY_GOOD }
        } else if str_eq(item_id, "Bucket Brigade.Int4") {
            DsRead { value: DsValue::I4(self.bucket), quality: OPC_QUALITY_GOOD }
        } else {
            DsRead { value: DsValue::Empty, quality: OPC_QUALITY_BAD }
        }
    }

    /// Writes `value_i4` (the `VT_I4` payload of the written VARIANT, `None`
    /// for another type): `Bucket Brigade.Int4` takes a `VT_I4` (`S_OK`) and
    /// refuses another type (`E_INVALIDARG`); every other id is read-only
    /// (`E_ACCESSDENIED`).
    pub fn write(&mut self, item_id: &str, value_i4: Option<i32>) -> (hr: i32)
        ensures
            item_id@ == "Bucket Brigade.Int4"@ ==> (hr == if value_i4 is Some { S_OK } else { E_INVALIDARG }),
            item_id@ != "Bucket Brigade.Int4"@ ==> hr == E_ACCESSDENIED,
            hr == S_OK ==> final(self).bucket() == value_i4.unwrap(),
            hr != S_OK ==> final(self).bucket() == old(self).bucket(),
            final(self).leaf_ids() == old(self).leaf_ids(),
    {
        if str_eq(item_id, "Bucket Brigade.Int4") {
            match value_i4 {
                Some(i) => {
                    self.bucket = i;
                    S_OK
                },
                None => E_INVALIDARG,
            }
        } else {
            E_ACCESSDENIED
        }
    }

    /// Canonical metadata of `item_id`; `None` for an unknown id.
    pub fn item_meta(&self, item_id: &str) -> (r: Option<ItemMeta>)
        ensures
            r == (match builtin_meta(item_id@) {
                None => None,
                Some((dt, w)) => Some(ItemMeta { data_type: dt, writable: w }),
            }),
    {
        match tag_meta(item_id) {
            None => None,
            Some((data_type, writable)) => Some(ItemMeta { data_type, writable }),
        }
    }
}

/// Metadata table of the built-in tags: `(data type, writable)`.
fn tag_meta(item_id: &str) -> (r: Option<(u16, bool)>)
    ensures
        r == builtin_meta(item_id@),
{
    if str_eq(item_id, "Random.Int4") {
        Some((VT_I4, false))
    } else if str_eq(item_id, "Random.Real8") || str_eq(item_id, "Square Waves.Real8") {
        Some((VT_R8, false))
    } else if str_eq(item_id, "Bucket Brigade.Int4") {
        Some((VT_I4, true))
    } else {
        None
    }
}

/// What is written is read back: once a write of `v` succeeded (it can only
/// be to `Bucket Brigade.Int4`), reading that item at any time gives `v`
/// with good quality.
pub proof fn lemma_bucket_round_trip(v: i32, elapsed: u64)
    ensures
        builtin_read(v, "Bucket Brigade.Int4"@, elapsed) == (DsRead { value: DsValue::I4(v), quality: OPC_QUALITY_GOOD }),
{
    reveal_strlit("Bucket Brigade.Int4");
    reveal_strlit("Random.Int4");
    reveal_strlit("Random.Real8");
    reveal_strlit("Square Waves.Real8");
    assert("Bucket Brigade.Int4"@[0] != "Random.Int4"@[0]);
    assert("Bucket Brigade.Int4"@[0] != "Random.Real8"@[0]);
    assert("Bucket Brigade.Int4"@[0] != "Square Waves.Real8"@[0]);
}

} // verus!
