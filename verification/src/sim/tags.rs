//! The simulator's tag-type table, the expansion of the table into item
//! ids, and the hierarchical namespace tree built from those ids.

use vstd::prelude::*;
use vstd::string::*;
use vstd::seq_lib::*;
use vstd::multiset::*;

use crate::sim::waveform::TagKind;
use crate::server::data_source::{
    NsNode, NsTree, node_leaves, forest_leaves, forest_view, tree_view, lemma_forest_push,
    lemma_forest_update_insert, lemma_forest_view_index, lemma_forest_view_push, lemma_forest_view_update,
};
use crate::text::{all_digits, decimal, is_digit, lemma_decimal_digits, push_decimal, split_by, split_on, lemma_split_on_nonempty};

verus! {

broadcast use vstd::seq_lib::group_seq_properties, vstd::multiset::group_multiset_axioms;

/// Number of rows in the tag-type table (eight expanded types and one
/// singleton).
pub const TAG_TYPE_COUNT: usize = 9;

/// VARENUM code of a 4-byte integer (`VT_I4`).
pub const VT_I4: u16 = 3;
/// VARENUM code of an 8-byte float (`VT_R8`).
pub const VT_R8: u16 = 5;
/// VARENUM code of a boolean (`VT_BOOL`).
pub const VT_BOOL: u16 = 11;

/// One row of the tag-type table.
///
/// `range` is the engineering-unit range `(low, high)`; the simulator's
/// ranges are whole numbers, published as floats by the COM layer.
pub struct TagType {
    pub prefix: &'static str,
    pub dtype: u16,
    pub kind: TagKind,
    pub writable: bool,
    pub range: Option<(i32, i32)>,
    pub singleton: bool,
}

/// Item-id prefix of table row `i`.
pub open spec fn type_prefix(i: int) -> Seq<char> {
    if i == 0 {
        "Random.Int4"@
    } else if i == 1 {
        "Random.Real8"@
    } else if i == 2 {
        "Square.Real8"@
    } else if i == 3 {
        "Sawtooth.Real8"@
    } else if i == 4 {
        "Triangle.Real8"@
    } else if i == 5 {
        "BucketBrigade.Int4"@
    } else if i == 6 {
        "WriteTag.Int4"@
    } else if i == 7 {
        "AltBool.Bool"@
    } else {
        "_System.Time"@
    }
}

/// VARENUM data type of table row `i`.
pub open spec fn type_dtype(i: int) -> u16 {
    if i == 0 || i == 5 || i == 6 {
        VT_I4
    } else if i == 7 {
        VT_BOOL
    } else {
        VT_R8
    }
}

/// Value generator of table row `i`.
pub open spec fn type_kind(i: int) -> TagKind {
    if i == 0 || i == 1 {
        TagKind::Random
    } else if i == 2 {
        TagKind::Square
    } else if i == 3 {
        TagKind::Sawtooth
    } else if i == 4 {
        TagKind::Triangle
    } else if i == 5 {
        TagKind::Counter
    } else if i == 6 {
        TagKind::Register
    } else if i == 7 {
        TagKind::AltBool
    } else {
        TagKind::SysTime
    }
}

/// Whether clients may write the tags of table row `i`.
pub open spec fn type_writable(i: int) -> bool {
    i == 5 || i == 6
}

/// Engineering-unit range of table row `i`.
pub open spec fn type_range(i: int) -> Option<(i32, i32)> {
    if 0 <= i <= 5 {
        Some((0, 100))
    } else {
        None
    }
}

/// Whether table row `i` is a single tag rather than `count` instances.
pub open spec fn type_singleton(i: int) -> bool {
    i == 8
}

/// Row `i` of the tag-type table.
pub fn tag_type(i: usize) -> (t: TagType)
    requires
        i < TAG_TYPE_COUNT,
    ensures
        t.prefix@ == type_prefix(i as int),
        t.dtype == type_dtype(i as int),
        t.kind == type_kind(i as int),
        t.writable == type_writable(i as int),
        t.range == type_range(i as int),
        t.singleton == type_singleton(i as int),
{
    let (prefix, dtype, kind, writable, range, singleton): (&'static str, u16, TagKind, bool, Option<(i32, i32)>, bool) =
        if i == 0 {
            ("Random.Int4", VT_I4, TagKind::Random, false, Some((0, 100)), false)
        } else if i == 1 {
            ("Random.Real8", VT_R8, TagKind::Random, false, Some((0, 100)), false)
        } else if i == 2 {
            ("Square.Real8", VT_R8, TagKind::Square, false, Some((0, 100)), false)
        } else if i == 3 {
            ("Sawtooth.Real8", VT_R8, TagKind::Sawtooth, false, Some((0, 100)), false)
        } else if i == 4 {
            ("Triangle.Real8", VT_R8, TagKind::Triangle, false, Some((0, 100)), false)
        } else if i == 5 {
            ("BucketBrigade.Int4", VT_I4, TagKind::Counter, true, Some((0, 100)), false)
        } else if i == 6 {
            ("WriteTag.Int4", VT_I4, TagKind::Register, true, None, false)
        } else if i == 7 {
            ("AltBool.Bool", VT_BOOL, TagKind::AltBool, false, None, false)
        } else {
            ("_System.Time", VT_R8, TagKind::SysTime, false, None, true)
        };
    TagType { prefix, dtype, kind, writable, range, singleton }
}

/// Item id of instance `k` of a type with prefix `prefix`: `prefix.k`.
pub open spec fn instance_id(prefix: Seq<char>, k: nat) -> Seq<char> {
    prefix + seq!['.'] + decimal(k)
}

/// Item ids contributed by table row `i` when every expanded type has
/// `count` instances.
pub open spec fn type_ids(i: int, count: nat) -> Seq<Seq<char>> {
    if type_singleton(i) {
        seq![type_prefix(i)]
    } else {
        Seq::new(count, |k: int| instance_id(type_prefix(i), k as nat))
    }
}

/// Item ids of the first `n` table rows, in table order.
pub open spec fn ids_through(n: int, count: nat) -> Seq<Seq<char>>
    decreases n,
{
    if n <= 0 {
        seq![]
    } else {
        ids_through(n - 1, count) + type_ids(n - 1, count)
    }
}

/// All item ids of a simulator with `count` instances per expanded type.
pub open spec fn expanded_ids(count: nat) -> Seq<Seq<char>> {
    ids_through(TAG_TYPE_COUNT as int, count)
}

proof fn lemma_ids_through_len(n: int, count: nat)
    requires
        0 <= n <= 8,
    ensures
        ids_through(n, count).len() == n * count,
    decreases n,
{
    if n > 0 {
        lemma_ids_through_len(n - 1, count);
        assert(type_ids(n - 1, count).len() == count);
        assert(ids_through(n, count) == ids_through(n - 1, count) + type_ids(n - 1, count));
        assert((n - 1) * count + count == n * count) by (nonlinear_arith);
    } else {
        assert(n * count == 0) by (nonlinear_arith)
            requires
                n == 0,
        ;
    }
}

/// There are `8 * count + 1` simulated items: `count` of each expanded
/// type plus the singleton.
pub proof fn lemma_expanded_ids_len(count: nat)
    ensures
        expanded_ids(count).len() == 8 * count + 1,
{
    lemma_ids_through_len(8, count);
}

/// `prefix.k` determines `prefix` and `k`: the digits after the last dot
/// hold no dot.
proof fn lemma_instance_id_injective(a: Seq<char>, k: nat, b: Seq<char>, m: nat)
    requires
        instance_id(a, k) == instance_id(b, m),
    ensures
        a == b,
        k == m,
{
    lemma_decimal_digits(k);
    lemma_decimal_digits(m);
    let x = instance_id(a, k);
    let xa = a + seq!['.'];
    let xb = b + seq!['.'];
    assert(x == xa + decimal(k));
    assert(x == xb + decimal(m));
    assert(x.len() == a.len() + 1 + decimal(k).len());
    assert(x.len() == b.len() + 1 + decimal(m).len());
    if a.len() < b.len() {
        let p = b.len() as int;
        assert(x[p] == '.');
        assert(x[p] == decimal(k)[p - a.len() - 1]);
        assert(is_digit(decimal(k)[p - a.len() - 1]));
    } else if b.len() < a.len() {
        let p = a.len() as int;
        assert(x[p] == '.');
        assert(x[p] == decimal(m)[p - b.len() - 1]);
        assert(is_digit(decimal(m)[p - b.len() - 1]));
    }
    assert(a =~= x.subrange(0, a.len() as int));
    assert(b =~= x.subrange(0, b.len() as int));
    assert(decimal(k) =~= x.subrange(a.len() as int + 1, x.len() as int));
    assert(decimal(m) =~= x.subrange(b.len() as int + 1, x.len() as int));
}

/// The prefixes of the expanded rows differ from one another.
proof fn lemma_prefixes_distinct(i: int, j: int)
    requires
        0 <= i < j < 8,
    ensures
        type_prefix(i) != type_prefix(j),
{
    reveal_strlit("Random.Int4");
    reveal_strlit("Random.Real8");
    reveal_strlit("Square.Real8");
    reveal_strlit("Sawtooth.Real8");
    reveal_strlit("Triangle.Real8");
    reveal_strlit("BucketBrigade.Int4");
    reveal_strlit("WriteTag.Int4");
    reveal_strlit("AltBool.Bool");
    if type_prefix(i).len() == type_prefix(j).len() {
        assert(type_prefix(i)[0] != type_prefix(j)[0]);
    }
}

/// Every id of the first `n` expanded rows is `prefix.k` of one of them.
proof fn lemma_ids_through_members(n: int, count: nat, x: Seq<char>)
    requires
        0 <= n <= 8,
        ids_through(n, count).contains(x),
    ensures
        exists|r: int, k: nat| 0 <= r < n && k < count && x == instance_id(type_prefix(r), k),
    decreases n,
{
    let prev = ids_through(n - 1, count);
    let cur = type_ids(n - 1, count);
    let q = choose|q: int| 0 <= q < ids_through(n, count).len() && ids_through(n, count)[q] == x;
    if q < prev.len() {
        assert(prev[q] == x);
        lemma_ids_through_members(n - 1, count, x);
    } else {
        let k = (q - prev.len()) as nat;
        assert(cur[k as int] == x);
        assert(x == instance_id(type_prefix(n - 1), k));
    }
}

/// The ids of the first `n` expanded rows are all different.
proof fn lemma_ids_through_distinct(n: int, count: nat)
    requires
        0 <= n <= 8,
    ensures
        ids_through(n, count).no_duplicates(),
    decreases n,
{
    if n > 0 {
        lemma_ids_through_distinct(n - 1, count);
        let prev = ids_through(n - 1, count);
        let cur = type_ids(n - 1, count);
        let all = ids_through(n, count);
        assert(all == prev + cur);
        assert forall|i: int, j: int| 0 <= i < all.len() && 0 <= j < all.len() && i != j implies all[i] != all[j] by {
            if i < prev.len() && j < prev.len() {
            } else if i >= prev.len() && j >= prev.len() {
                let ki = (i - prev.len()) as nat;
                let kj = (j - prev.len()) as nat;
                if all[i] == all[j] {
                    assert(all[i] == instance_id(type_prefix(n - 1), ki));
                    assert(all[j] == instance_id(type_prefix(n - 1), kj));
                    lemma_instance_id_injective(type_prefix(n - 1), ki, type_prefix(n - 1), kj);
                }
            } else {
                let (p, c) = if i < prev.len() { (i, j) } else { (j, i) };
                if all[p] == all[c] {
                    assert(prev.contains(all[p]));
                    lemma_ids_through_members(n - 1, count, all[p]);
                    let (r, k) = choose|r: int, k: nat| 0 <= r < n - 1 && k < count && all[p] == instance_id(type_prefix(r), k);
                    let kc = (c - prev.len()) as nat;
                    assert(all[c] == instance_id(type_prefix(n - 1), kc));
                    lemma_instance_id_injective(type_prefix(r), k, type_prefix(n - 1), kc);
                    lemma_prefixes_distinct(r, n - 1);
                }
            }
        }
    }
}

/// No item id occurs twice among the simulator's ids.
pub proof fn lemma_expanded_ids_distinct(count: nat)
    ensures
        expanded_ids(count).no_duplicates(),
{
    lemma_ids_through_distinct(8, count);
    let prev = ids_through(8, count);
    let all = expanded_ids(count);
    assert(all == prev + type_ids(8, count));
    reveal_strlit("_System.Time");
    assert forall|i: int, j: int| 0 <= i < all.len() && 0 <= j < all.len() && i != j implies all[i] != all[j] by {
        if i < prev.len() && j < prev.len() {
        } else {
            let p = if i < prev.len() { i } else { j };
            if all[i] == all[j] {
                assert(p < prev.len());
                assert(all[p] == "_System.Time"@);
                assert(prev.contains(all[p]));
                lemma_ids_through_members(8, count, all[p]);
                let (r, k) = choose|r: int, k: nat| 0 <= r < 8 && k < count && all[p] == instance_id(type_prefix(r), k);
                lemma_decimal_digits(k);
                let x = all[p];
                assert(x.last() == decimal(k).last());
                assert(is_digit(decimal(k)[decimal(k).len() - 1]));
            }
        }
    }
}

/// Every item id: for each non-singleton table row, `count` ids
/// `prefix.0 .. prefix.(count-1)`; for the singleton row its prefix.
pub fn expand_ids(count: usize) -> (ids: Vec<String>)
    ensures
        ids.deep_view() == expanded_ids(count as nat),
        ids.deep_view().no_duplicates(),
{
    proof {
        reveal_strlit(".");
        lemma_expanded_ids_distinct(count as nat);
    }
    let mut ids: Vec<String> = Vec::new();
    let mut t: usize = 0;
    while t < TAG_TYPE_COUNT
        invariant
            t <= TAG_TYPE_COUNT,
            ids.deep_view() == ids_through(t as int, count as nat),
        decreases TAG_TYPE_COUNT - t,
    {
        let tt = tag_type(t);
        let ghost before = ids.deep_view();
        if tt.singleton {
            ids.push(String::from_str(tt.prefix));
            assert(ids.deep_view() =~= before + type_ids(t as int, count as nat));
        } else {
            let mut k: usize = 0;
            while k < count
                invariant
                    k <= count,
                    !type_singleton(t as int),
                    tt.prefix@ == type_prefix(t as int),
                    before == ids_through(t as int, count as nat),
                    ids.deep_view() == before + type_ids(t as int, count as nat).take(k as int),
                decreases count - k,
            {
                proof {
                    reveal_strlit(".");
                }
                let mut id = String::from_str(tt.prefix);
                id.append(".");
                push_decimal(&mut id, k);
                assert(id@ =~= instance_id(type_prefix(t as int), k as nat));
                let ghost mid = ids.deep_view();
                ids.push(id);
                assert(ids.deep_view() =~= before + type_ids(t as int, count as nat).take(k + 1)) by {
                    assert(ids.deep_view() =~= mid.push(instance_id(type_prefix(t as int), k as nat)));
                    assert(type_ids(t as int, count as nat).take(k + 1) =~= type_ids(t as int, count as nat).take(k as int).push(
                        instance_id(type_prefix(t as int), k as nat)));
                }
                k = k + 1;
            }
            assert(type_ids(t as int, count as nat).take(count as int) =~= type_ids(t as int, count as nat));
        }
        t = t + 1;
    }
    ids
}

/// `node` is a branch named `name`.
pub open spec fn is_branch_named(node: NsNode, name: Seq<char>) -> bool {
    node matches NsNode::Branch { name: n, .. } && n@ == name
}

/// `t` is a branch named `name`.
pub open spec fn is_branch_view(t: NsTree, name: Seq<char>) -> bool {
    t matches NsTree::Branch(n, _) && n == name
}

/// Position of the first branch named `name` among `cs`, if any.
pub open spec fn first_branch(cs: Seq<NsTree>, name: Seq<char>) -> Option<int> {
    if exists|i: int|
        0 <= i < cs.len() && is_branch_view(#[trigger] cs[i], name) && forall|j: int|
            0 <= j < i ==> !is_branch_view(#[trigger] cs[j], name) {
        Some(
            choose|i: int|
                0 <= i < cs.len() && is_branch_view(#[trigger] cs[i], name) && forall|j: int|
                    0 <= j < i ==> !is_branch_view(#[trigger] cs[j], name),
        )
    } else {
        None
    }
}

/// The children of `t` (none for a leaf).
pub open spec fn subtree_children(t: NsTree) -> Seq<NsTree> {
    match t {
        NsTree::Branch(_, cs) => cs,
        NsTree::Leaf(_) => seq![],
    }
}

/// The children `cs` of a branch with leaf `id` placed under the branch
/// path `parts` without its last piece: when a path remains, its first
/// piece names the child branch to go into — the first such branch, or a
/// new one appended after the existing children — and the rest of the path
/// is placed there; otherwise the leaf is appended.
pub open spec fn placed(cs: Seq<NsTree>, parts: Seq<Seq<char>>, id: Seq<char>) -> Seq<NsTree>
    decreases parts.len(),
{
    if parts.len() <= 1 {
        cs.push(NsTree::Leaf(id))
    } else {
        match first_branch(cs, parts[0]) {
            Some(i) => cs.update(
                i,
                NsTree::Branch(parts[0], placed(subtree_children(cs[i]), parts.drop_first(), id)),
            ),
            None => cs.push(NsTree::Branch(parts[0], placed(seq![], parts.drop_first(), id))),
        }
    }
}

/// The root's children after placing `ids` one after another, each under
/// the path its `.`-separated pieces name.
pub open spec fn namespace_children(ids: Seq<Seq<char>>) -> Seq<NsTree>
    decreases ids.len(),
{
    if ids.len() == 0 {
        seq![]
    } else {
        placed(namespace_children(ids.drop_last()), split_on(ids.last(), '.'), ids.last())
    }
}

/// The namespace tree of `ids`: an unnamed root branch over
/// [`namespace_children`].
pub open spec fn namespace_of(ids: Seq<Seq<char>>) -> NsTree {
    NsTree::Branch(seq![], namespace_children(ids))
}

/// No two branches among `cs` have the same name.
pub open spec fn siblings_distinct(cs: Seq<NsTree>) -> bool {
    forall|i: int, j: int|
        0 <= i < j < cs.len() && #[trigger] cs[i] is Branch && #[trigger] cs[j] is Branch ==> cs[i]->Branch_0
            != cs[j]->Branch_0
}

/// In `t`, no branch has two child branches with the same name.
pub open spec fn unique_branches(t: NsTree) -> bool
    decreases t,
{
    match t {
        NsTree::Leaf(_) => true,
        NsTree::Branch(_, cs) => siblings_distinct(cs) && forall|i: int|
            0 <= i < cs.len() ==> unique_branches(#[trigger] cs[i]),
    }
}

/// Placing a leaf keeps branch names unique among siblings, at every
/// level.
proof fn lemma_placed_unique(cs: Seq<NsTree>, parts: Seq<Seq<char>>, id: Seq<char>)
    requires
        siblings_distinct(cs),
        forall|i: int| 0 <= i < cs.len() ==> unique_branches(#[trigger] cs[i]),
    ensures
        siblings_distinct(placed(cs, parts, id)),
        forall|i: int| 0 <= i < placed(cs, parts, id).len() ==> unique_branches(#[trigger] placed(cs, parts, id)[i]),
    decreases parts.len(),
{
    if parts.len() <= 1 {
        let r = cs.push(NsTree::Leaf(id));
        assert forall|i: int| 0 <= i < r.len() implies unique_branches(#[trigger] r[i]) by {
            if i < cs.len() {
                assert(r[i] == cs[i]);
            }
        }
    } else {
        match first_branch(cs, parts[0]) {
            Some(i) => {
                let sub = subtree_children(cs[i]);
                assert(unique_branches(cs[i]));
                lemma_placed_unique(sub, parts.drop_first(), id);
                let nb = NsTree::Branch(parts[0], placed(sub, parts.drop_first(), id));
                let r = cs.update(i, nb);
                assert(unique_branches(nb));
                assert forall|a: int, b: int|
                    0 <= a < b < r.len() && #[trigger] r[a] is Branch && #[trigger] r[b] is Branch implies r[a]->Branch_0
                        != r[b]->Branch_0 by {
                    if a != i && b != i {
                        assert(r[a] == cs[a] && r[b] == cs[b]);
                    } else if a == i {
                        assert(r[b] == cs[b]);
                    } else {
                        assert(r[a] == cs[a]);
                    }
                }
                assert forall|j: int| 0 <= j < r.len() implies unique_branches(#[trigger] r[j]) by {
                    if j != i {
                        assert(r[j] == cs[j]);
                    }
                }
            },
            None => {
                lemma_placed_unique(seq![], parts.drop_first(), id);
                let nb = NsTree::Branch(parts[0], placed(seq![], parts.drop_first(), id));
                let r = cs.push(nb);
                assert(unique_branches(nb));
                assert forall|a: int, b: int|
                    0 <= a < b < r.len() && #[trigger] r[a] is Branch && #[trigger] r[b] is Branch implies r[a]->Branch_0
                        != r[b]->Branch_0 by {
                    if b == cs.len() {
                        assert(r[a] == cs[a]);
                        if cs[a]->Branch_0 == parts[0] {
                            assert(is_branch_view(cs[a], parts[0]));
                        }
                    } else {
                        assert(r[a] == cs[a] && r[b] == cs[b]);
                    }
                }
                assert forall|j: int| 0 <= j < r.len() implies unique_branches(#[trigger] r[j]) by {
                    if j < cs.len() {
                        assert(r[j] == cs[j]);
                    }
                }
            },
        }
    }
}

/// The namespace tree of any ids has, under every branch, at most one
/// child branch of each name.
pub proof fn lemma_namespace_branches_unique(ids: Seq<Seq<char>>)
    ensures
        unique_branches(namespace_of(ids)),
    decreases ids.len(),
{
    if ids.len() > 0 {
        lemma_namespace_branches_unique(ids.drop_last());
        lemma_placed_unique(namespace_children(ids.drop_last()), split_on(ids.last(), '.'), ids.last());
    }
}

/// Among the trees `cs`, leaf `id` is reached through child branches named
/// by `path`, in order.
pub open spec fn holds_at(cs: Seq<NsTree>, path: Seq<Seq<char>>, id: Seq<char>) -> bool
    decreases path.len(),
{
    if path.len() == 0 {
        exists|i: int| 0 <= i < cs.len() && #[trigger] cs[i] == NsTree::Leaf(id)
    } else {
        exists|i: int|
            0 <= i < cs.len() && is_branch_view(#[trigger] cs[i], path[0]) && holds_at(
                subtree_children(cs[i]),
                path.drop_first(),
                id,
            )
    }
}

/// Placing a leaf keeps every leaf already reachable where it was, and
/// makes the new leaf reachable through the branches its path names.
proof fn lemma_placed_holds(cs: Seq<NsTree>, parts: Seq<Seq<char>>, id: Seq<char>, path: Seq<Seq<char>>, x: Seq<char>)
    requires
        parts.len() >= 1,
    ensures
        holds_at(placed(cs, parts, id), parts.drop_last(), id),
        holds_at(cs, path, x) ==> holds_at(placed(cs, parts, id), path, x),
    decreases parts.len(), path.len(),
{
    let r = placed(cs, parts, id);
    if parts.len() == 1 {
        assert(parts.drop_last() =~= Seq::<Seq<char>>::empty());
        assert(r[cs.len() as int] == NsTree::Leaf(id));
        if holds_at(cs, path, x) {
            if path.len() == 0 {
                let i = choose|i: int| 0 <= i < cs.len() && #[trigger] cs[i] == NsTree::Leaf(x);
                assert(r[i] == cs[i]);
            } else {
                let i = choose|i: int|
                    0 <= i < cs.len() && is_branch_view(#[trigger] cs[i], path[0]) && holds_at(
                        subtree_children(cs[i]),
                        path.drop_first(),
                        x,
                    );
                assert(r[i] == cs[i]);
            }
        }
    } else {
        let rest = parts.drop_first();
        assert(rest.drop_last() =~= parts.drop_last().drop_first());
        assert(parts.drop_last()[0] == parts[0]);
        let (i, sub) = match first_branch(cs, parts[0]) {
            Some(i) => (i, subtree_children(cs[i])),
            None => (cs.len() as int, Seq::<NsTree>::empty()),
        };
        let nsub = placed(sub, rest, id);
        assert(r[i] == NsTree::Branch(parts[0], nsub));
        lemma_placed_holds(sub, rest, id, rest.drop_last(), id);
        assert(subtree_children(r[i]) == nsub);
        assert(is_branch_view(r[i], parts.drop_last()[0]));
        assert(holds_at(r, parts.drop_last(), id));
        if holds_at(cs, path, x) {
            if path.len() == 0 {
                let j = choose|j: int| 0 <= j < cs.len() && #[trigger] cs[j] == NsTree::Leaf(x);
                if j == i {
                    assert(is_branch_view(cs[j], parts[0]));
                }
                assert(r[j] == cs[j]);
            } else {
                let j = choose|j: int|
                    0 <= j < cs.len() && is_branch_view(#[trigger] cs[j], path[0]) && holds_at(
                        subtree_children(cs[j]),
                        path.drop_first(),
                        x,
                    );
                if j == i {
                    lemma_placed_holds(sub, rest, id, path.drop_first(), x);
                    assert(is_branch_view(r[j], path[0]));
                } else {
                    assert(r[j] == cs[j]);
                }
            }
        }
    }
}

/// In the namespace tree of `ids`, every id is a leaf reached from the
/// root through branches named by its `.`-separated pieces but the last.
pub proof fn lemma_namespace_paths(ids: Seq<Seq<char>>, k: int)
    requires
        0 <= k < ids.len(),
    ensures
        holds_at(namespace_children(ids), split_on(ids[k], '.').drop_last(), ids[k]),
    decreases ids.len(),
{
    let prev = ids.drop_last();
    let last = ids.last();
    lemma_split_on_nonempty(last, '.');
    if k < ids.len() - 1 {
        lemma_namespace_paths(prev, k);
        assert(prev[k] == ids[k]);
        lemma_placed_holds(namespace_children(prev), split_on(last, '.'), last, split_on(ids[k], '.').drop_last(), ids[k]);
    } else {
        lemma_placed_holds(namespace_children(prev), split_on(last, '.'), last, Seq::empty(), last);
    }
}

/// The first branch named `name` is the one at `i` when no branch of that
/// name comes before it.
proof fn lemma_first_branch_at(cs: Seq<NsTree>, name: Seq<char>, i: int)
    requires
        0 <= i < cs.len(),
        is_branch_view(cs[i], name),
        forall|j: int| 0 <= j < i ==> !is_branch_view(#[trigger] cs[j], name),
    ensures
        first_branch(cs, name) == Some(i),
{
    let c = choose|c: int|
        0 <= c < cs.len() && is_branch_view(#[trigger] cs[c], name) && forall|j: int|
            0 <= j < c ==> !is_branch_view(#[trigger] cs[j], name);
    if c < i {
        assert(!is_branch_view(cs[c], name));
    } else if c > i {
        assert(!is_branch_view(cs[i], name));
    }
}

/// Position of the first child branch named `name`, if any.
fn find_branch(children: &Vec<NsNode>, name: &String) -> (r: Option<usize>)
    ensures
        r matches Some(i) ==> i < children.len() && is_branch_named(children@[i as int], name@),
        r matches Some(i) ==> forall|j: int|
            0 <= j < i ==> !is_branch_named(#[trigger] children@[j], name@),
        r is None ==> forall|j: int|
            0 <= j < children.len() ==> !is_branch_named(#[trigger] children@[j], name@),
{
    let mut i: usize = 0;
    while i < children.len()
        invariant
            i <= children.len(),
            forall|j: int| 0 <= j < i ==> !is_branch_named(#[trigger] children@[j], name@),
        decreases children.len() - i,
    {
        let c = &children[i];
        assert(*c == children@[i as int]);
        match c {
            NsNode::Branch { name: n, .. } => {
                let same = n.eq(name);
                if same {
                    assert(is_branch_named(children@[i as int], name@));
                    return Some(i);
                }
                assert(!is_branch_named(children@[i as int], name@));
            },
            NsNode::Leaf { .. } => {},
        }
        i = i + 1;
    }
    None
}

/// Inserts leaf `full_id` under the branch path `parts[k..len-1]` of
/// `node`, creating missing branches; a leaf node is returned unchanged.
fn insert_path(node: NsNode, parts: &Vec<String>, k: usize, full_id: &String) -> (r: NsNode)
    requires
        k < parts.len(),
    ensures
        node is Leaf ==> r == node,
        node matches NsNode::Branch { name: n0, .. } ==> (r matches NsNode::Branch { name: n1, .. }
            && n1@ == n0@),
        node is Branch ==> node_leaves(r).to_multiset() == node_leaves(node).to_multiset().insert(
            full_id@,
        ),
        node matches NsNode::Branch { name: n0, children: c0 } ==> tree_view(r) == NsTree::Branch(
            n0@,
            placed(forest_view(c0@), parts.deep_view().skip(k as int), full_id@),
        ),
    decreases parts.len() - k,
{
    match node {
        NsNode::Leaf { id } => NsNode::Leaf { id },
        NsNode::Branch { name, mut children } => {
            let ghost cs0 = children@;
            if k + 1 == parts.len() {
                let leaf = NsNode::Leaf { id: full_id.clone() };
                children.push(leaf);
                proof {
                    lemma_forest_push(cs0, leaf);
                    lemma_multiset_commutative(forest_leaves(cs0), seq![full_id@]);
                    assert(seq![full_id@].to_multiset() =~= Multiset::empty().insert(full_id@));
                }
                let r = NsNode::Branch { name, children };
                assert(node_leaves(r).to_multiset() =~= forest_leaves(cs0).to_multiset().insert(full_id@));
                proof {
                    lemma_forest_view_push(cs0, leaf);
                    assert(parts.deep_view().skip(k as int).len() == 1);
                }
                r
            } else {
                let ghost rest = parts.deep_view().skip(k as int);
                let ghost name_k = parts@[k as int]@;
                proof {
                    assert(rest.len() > 1);
                    assert(rest[0] == name_k);
                    assert(rest.drop_first() =~= parts.deep_view().skip(k + 1));
                    lemma_forest_view_index(cs0);
                    assert forall|j: int| 0 <= j < cs0.len() implies (is_branch_named(cs0[j], name_k)
                        <==> is_branch_view(#[trigger] forest_view(cs0)[j], name_k)) by {
                        assert(forest_view(cs0)[j] == tree_view(cs0[j]));
                    }
                }
                let pos = find_branch(&children, &parts[k]);
                let idx = match pos {
                    Some(i) => {
                        proof {
                            lemma_first_branch_at(forest_view(cs0), name_k, i as int);
                        }
                        i
                    },
                    None => {
                        let fresh = NsNode::Branch { name: parts[k].clone(), children: Vec::new() };
                        children.push(fresh);
                        proof {
                            lemma_forest_push(cs0, fresh);
                            assert(forest_leaves(Seq::<NsNode>::empty()) =~= Seq::<Seq<char>>::empty());
                            assert(forest_leaves(children@) =~= forest_leaves(cs0));
                            lemma_forest_view_push(cs0, fresh);
                            assert(first_branch(forest_view(cs0), name_k) is None);
                        }
                        children.len() - 1
                    },
                };
                let ghost cs1 = children@;
                assert(forest_leaves(cs1).to_multiset() == forest_leaves(cs0).to_multiset());
                let child = children.remove(idx);
                assert(child is Branch);
                let child2 = insert_path(child, parts, k + 1, full_id);
                children.insert(idx, child2);
                proof {
                    assert(children@ =~= cs1.update(idx as int, child2));
                    lemma_forest_update_insert(cs1, idx as int, child2, full_id@);
                    lemma_forest_view_update(cs1, idx as int, child2);
                    assert(forest_view(Seq::<NsNode>::empty()) =~= Seq::<NsTree>::empty());
                    lemma_forest_view_index(cs1);
                    let fv0 = forest_view(cs0);
                    match pos {
                        Some(i) => {
                            assert(cs1 == cs0);
                            assert(child == cs0[i as int]);
                            assert(fv0[i as int] == tree_view(child));
                            assert(forest_view(children@) =~= placed(fv0, rest, full_id@));
                        },
                        None => {
                            assert(forest_view(children@) =~= placed(fv0, rest, full_id@));
                        },
                    }
                }
                NsNode::Branch { name, children }
            }
        },
    }
}

/// Builds the hierarchical namespace of `ids`: each id is split on `.`,
/// its leading pieces name nested branches (shared between ids with a
/// common prefix, each branch name once per parent, children in the order
/// they were first placed) and the id itself becomes a leaf under the last
/// one.  The root is an unnamed branch.
pub fn build_namespace_tree(ids: &Vec<String>) -> (root: NsNode)
    ensures
        tree_view(root) == namespace_of(ids.deep_view()),
        forall|k: int|
            0 <= k < ids.len() ==> holds_at(
                subtree_children(tree_view(root)),
                split_on(#[trigger] ids@[k]@, '.').drop_last(),
                ids@[k]@,
            ),
        unique_branches(tree_view(root)),
        root matches NsNode::Branch { name, .. } && name@.len() == 0,
        node_leaves(root).to_multiset() == ids.deep_view().to_multiset(),
        node_leaves(root).len() == ids.len(),
{
    let mut root = NsNode::Branch { name: String::new(), children: Vec::new() };
    assert(node_leaves(root) =~= Seq::<Seq<char>>::empty());
    assert(tree_view(root) =~= namespace_of(ids.deep_view().take(0)));
    assert(ids.deep_view().take(0) =~= Seq::<Seq<char>>::empty());
    let mut i: usize = 0;
    while i < ids.len()
        invariant
            i <= ids.len(),
            root matches NsNode::Branch { name, .. } && name@.len() == 0,
            node_leaves(root).to_multiset() == ids.deep_view().take(i as int).to_multiset(),
            tree_view(root) == namespace_of(ids.deep_view().take(i as int)),
        decreases ids.len() - i,
    {
        let parts = split_by(ids[i].as_str(), '.');
        proof {
            lemma_split_on_nonempty(ids[i as int]@, '.');
        }
        let ghost before = root;
        root = insert_path(root, &parts, 0, &ids[i]);
        proof {
            assert(parts.deep_view().skip(0) =~= parts.deep_view());
            let t1 = ids.deep_view().take(i + 1);
            assert(t1.drop_last() =~= ids.deep_view().take(i as int));
            assert(t1.last() == ids[i as int]@);
            assert(ids.deep_view().take(i + 1) =~= ids.deep_view().take(i as int).push(ids[i as int]@));
            to_multiset_build(ids.deep_view().take(i as int), ids[i as int]@);
        }
        i = i + 1;
    }
    assert(ids.deep_view().take(ids.len() as int) =~= ids.deep_view());
    proof {
        to_multiset_len(node_leaves(root));
        to_multiset_len(ids.deep_view());
        lemma_namespace_branches_unique(ids.deep_view());
        assert forall|k: int| 0 <= k < ids.len() implies holds_at(
            subtree_children(tree_view(root)),
            split_on(#[trigger] ids@[k]@, '.').drop_last(),
            ids@[k]@,
        ) by {
            lemma_namespace_paths(ids.deep_view(), k);
            assert(ids.deep_view()[k] == ids@[k]@);
        }
    }
    root
}

} // verus!
