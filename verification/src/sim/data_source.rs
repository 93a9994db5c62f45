//! The simulator's data source: `count` instances of each expanded tag
//! type plus `_System.Time`, counters and registers that clients write,
//! and time-driven waveforms for the rest.

use vstd::prelude::*;
use vstd::string::*;

use crate::hresult::{E_ACCESSDENIED, E_INVALIDARG, S_OK};
use crate::server::data_source::{
    ItemMeta, NamespaceTree, NsOrganization, OPC_QUALITY_BAD, OPC_QUALITY_GOOD, node_leaves, tree_leaves,
    lemma_node_leaves_view,
};
use crate::sim::tags::{
    TAG_TYPE_COUNT, VT_BOOL, VT_I4, VT_R8, build_namespace_tree, expand_ids, expanded_ids,
    lemma_expanded_ids_len, namespace_of, tag_type, type_dtype, type_kind, type_prefix, type_range,
    type_singleton, type_writable,
};
use crate::sim::waveform::{TagKind, wave_phase, wave_scale, wave_scale_of, wave_step, wave_step_of};
use crate::text::{decimal, parse_unsigned, parse_usize, starts_with, str_eq, usize_to_decimal};

verus! {

/// Instance index that item id `s` names within table row `ti` of a
/// simulator with `count` instances per expanded type, if it names one:
/// the row's prefix itself for the singleton, else `prefix.N` with `N` the
/// decimal form of an index below `count` (exactly the namespace's ids).
pub open spec fn item_index(s: Seq<char>, ti: int, count: nat) -> Option<nat> {
    let p = type_prefix(ti);
    if type_singleton(ti) {
        if s == p {
            Some(0)
        } else {
            None
        }
    } else if s.len() > p.len() && s.take(p.len() as int) == p && s[p.len() as int] == '.' {
        match parse_unsigned(s.skip(p.len() as int + 1), usize::MAX as nat) {
            Some(k) => if k < count && s.skip(p.len() as int + 1) == decimal(k) {
                Some(k)
            } else {
                None
            },
            None => None,
        }
    } else {
        None
    }
}

/// `(row, instance)` named by item id `s`, searching rows `ti..` in
/// table order.
pub open spec fn parse_item_from(s: Seq<char>, ti: int, count: nat) -> Option<(nat, nat)>
    decreases TAG_TYPE_COUNT - ti,
{
    if ti < 0 || ti >= TAG_TYPE_COUNT {
        None
    } else {
        match item_index(s, ti, count) {
            Some(k) => Some((ti as nat, k)),
            None => parse_item_from(s, ti + 1, count),
        }
    }
}

/// `(row, instance)` named by item id `s` in a simulator with `count`
/// instances per expanded type: the first table row whose naming scheme
/// `s` follows; `None` for an id the simulator does not serve.
pub open spec fn parsed_item(s: Seq<char>, count: nat) -> Option<(nat, nat)> {
    parse_item_from(s, 0, count)
}

/// A resolved id names a table row and, for an expanded type, an
/// instance below `count`.
proof fn lemma_parsed_item_in_range(s: Seq<char>, ti: int, count: nat)
    requires
        parse_item_from(s, ti, count) is Some,
    ensures
        ({
            let (t, k) = parse_item_from(s, ti, count)->0;
            t < TAG_TYPE_COUNT && (type_singleton(t as int) || k < count)
        }),
    decreases TAG_TYPE_COUNT - ti,
{
    if 0 <= ti < TAG_TYPE_COUNT && item_index(s, ti, count) is None {
        lemma_parsed_item_in_range(s, ti + 1, count);
    }
}

/// Resolves an item id to `(table row, instance index)`; `None` for an id
/// the simulator with `count` instances per expanded type does not serve.
pub fn parse_item(item_id: &str, count: usize) -> (r: Option<(usize, usize)>)
    ensures
        r matches Some((ti, k)) ==> parsed_item(item_id@, count as nat) == Some((ti as nat, k as nat)),
        r matches Some((ti, k)) ==> ti < TAG_TYPE_COUNT && (type_singleton(ti as int) || k < count),
        r is None ==> parsed_item(item_id@, count as nat) is None,
{
    let n = item_id.unicode_len();
    let mut ti: usize = 0;
    while ti < TAG_TYPE_COUNT
        invariant
            ti <= TAG_TYPE_COUNT,
            n == item_id@.len(),
            parsed_item(item_id@, count as nat) == parse_item_from(item_id@, ti as int, count as nat),
        decreases TAG_TYPE_COUNT - ti,
    {
        let t = tag_type(ti);
        if t.singleton {
            if str_eq(item_id, t.prefix) {
                return Some((ti, 0));
            }
        } else {
            let p = t.prefix.unicode_len();
            if p < n && starts_with(item_id, t.prefix) && item_id.get_char(p) == '.' {
                let rest = item_id.substring_char(p + 1, n);
                assert(rest@ =~= item_id@.skip(p + 1));
                match parse_usize(rest) {
                    Some(k) => {
                        if k < count {
                            let canonical = usize_to_decimal(k);
                            if str_eq(rest, canonical.as_str()) {
                                return Some((ti, k));
                            }
                        }
                    },
                    None => {},
                }
            }
        }
        ti = ti + 1;
    }
    None
}

/// A value read from the simulator, before the COM layer packs it into a
/// VARIANT.
#[derive(Clone, Copy, Debug, PartialEq, Eq, Structural)]
pub enum SimValue {
    /// No value (`VT_EMPTY`): the item is unknown.
    Empty,
    /// `VT_I4`.
    I4(i32),
    /// `VT_BOOL`.
    Bool(bool),
    /// `VT_R8` of a waveform: `step / den * num` in floating point, with
    /// `(num, den) = wave_scale(kind)`; for `SysTime` the current time in
    /// seconds since the Unix epoch.
    R8 { kind: TagKind, step: u64 },
}

/// Result of one simulated read: value and OPC quality.
#[derive(Clone, Copy, Debug, PartialEq, Eq, Structural)]
pub struct SimRead {
    pub value: SimValue,
    pub quality: u16,
}

/// The simulator with `count` instances per expanded type.
pub struct SimDataSource {
    ns: NamespaceTree,
    counter_regs: Vec<i32>,
    write_regs: Vec<i32>,
}

/// Register value `i` of `regs`, 0 past its end.
pub open spec fn reg_at(regs: Seq<i32>, i: nat) -> i32 {
    if i < regs.len() {
        regs[i as int]
    } else {
        0
    }
}

/// What reading item `s` gives, with counter registers `counters`, write
/// registers `writes`, `elapsed` seconds after start.
pub open spec fn sim_read(counters: Seq<i32>, writes: Seq<i32>, s: Seq<char>, elapsed: u64) -> SimRead {
    match parsed_item(s, counters.len()) {
        None => SimRead { value: SimValue::Empty, quality: OPC_QUALITY_BAD },
        Some((ti, k)) => {
            let kind = type_kind(ti as int);
            if kind == TagKind::Counter {
                SimRead { value: SimValue::I4(reg_at(counters, k)), quality: OPC_QUALITY_GOOD }
            } else if kind == TagKind::Register {
                SimRead { value: SimValue::I4(reg_at(writes, k)), quality: OPC_QUALITY_GOOD }
            } else {
                let step = wave_step_of(kind, wave_phase(k as u64, elapsed));
                let dt = type_dtype(ti as int);
                let value = if dt == VT_I4 {
                    SimValue::I4(((step * wave_scale(kind).0) as int / wave_scale(kind).1 as int) as i32)
                } else if dt == VT_R8 {
                    SimValue::R8 { kind, step }
                } else {
                    SimValue::Bool(step != 0)
                };
                SimRead { value, quality: OPC_QUALITY_GOOD }
            }
        },
    }
}

/// Status of writing `value_i4` (the `VT_I4` payload of the written
/// VARIANT, `None` for any other type) to item `s` of a simulator with
/// `count` instances per expanded type: unknown or read-only items give
/// `E_ACCESSDENIED`, another type `E_INVALIDARG`.
pub open spec fn sim_write_status(count: nat, s: Seq<char>, value_i4: Option<i32>) -> i32 {
    match parsed_item(s, count) {
        None => E_ACCESSDENIED,
        Some((ti, k)) => if !type_writable(ti as int) {
            E_ACCESSDENIED
        } else if value_i4 is None {
            E_INVALIDARG
        } else {
            S_OK
        },
    }
}

impl SimDataSource {
    /// Counter registers (`BucketBrigade.Int4.N`).
    pub closed spec fn counters(&self) -> Seq<i32> {
        self.counter_regs@
    }

    /// Write registers (`WriteTag.Int4.N`).
    pub closed spec fn writes(&self) -> Seq<i32> {
        self.write_regs@
    }

    /// Leaf ids of the namespace.
    pub closed spec fn leaf_ids(&self) -> Seq<Seq<char>> {
        self.ns.leaf_ids()
    }

    /// The simulator with `count` instances of each expanded type, all
    /// registers zero.
    pub fn new(count: usize) -> (r: Self)
        ensures
            r.counters() == Seq::new(count as nat, |i: int| 0i32),
            r.writes() == Seq::new(count as nat, |i: int| 0i32),
            r.leaf_ids() == tree_leaves(namespace_of(expanded_ids(count as nat))),
            r.leaf_ids().to_multiset() == expanded_ids(count as nat).to_multiset(),
            r.leaf_ids().len() == 8 * count + 1,
    {
        let ids = expand_ids(count);
        let root = build_namespace_tree(&ids);
        let ns = NamespaceTree::from_tree(root);
        proof {
            lemma_expanded_ids_len(count as nat);
            lemma_node_leaves_view(root);
        }
        SimDataSource { ns, counter_regs: vec_with_zeros(count), write_regs: vec_with_zeros(count) }
    }

    /// The namespace (browse view).
    pub fn namespace(&self) -> (r: &NamespaceTree)
        ensures
            r.leaf_ids() == self.leaf_ids(),
    {
        &self.ns
    }

    /// The simulator's namespace is hierarchical.
    pub fn query_organization(&self) -> (r: NsOrganization)
        ensures
            r == NsOrganization::Hierarchical,
    {
        NsOrganization::Hierarchical
    }

    /// Reads item `item_id` `elapsed_secs` seconds after start.
    pub fn read(&self, item_id: &str, elapsed_secs: u64) -> (r: SimRead)
        ensures
            r == sim_read(self.counters(), self.writes(), item_id@, elapsed_secs),
    {
        match parse_item(item_id, self.counter_regs.len()) {
            None => SimRead { value: SimValue::Empty, quality: OPC_QUALITY_BAD },
            Some((ti, k)) => {
                let t = tag_type(ti);
                match t.kind {
                    TagKind::Counter => {
                        let v = if k < self.counter_regs.len() { self.counter_regs[k] } else { 0 };
                        SimRead { value: SimValue::I4(v), quality: OPC_QUALITY_GOOD }
                    },
                    TagKind::Register => {
                        let v = if k < self.write_regs.len() { self.write_regs[k] } else { 0 };
                        SimRead { value: SimValue::I4(v), quality: OPC_QUALITY_GOOD }
                    },
                    _ => {
                        let step = wave_step(t.kind, k as u64, elapsed_secs);
                        let (num, den) = wave_scale_of(t.kind);
                        let value = if t.dtype == VT_I4 {
                            assert(step * num <= 100 * 100) by (nonlinear_arith)
                                requires
                                    step <= 100,
                                    num <= 100,
                            ;
                            SimValue::I4(((step * num) / den) as i32)
                        } else if t.dtype == VT_R8 {
                            SimValue::R8 { kind: t.kind, step }
                        } else {
                            SimValue::Bool(step != 0)
                        };
                        SimRead { value, quality: OPC_QUALITY_GOOD }
                    },
                }
            },
        }
    }

    /// Writes `value_i4` (the `VT_I4` payload of the written VARIANT, `None`
    /// for another type) to `item_id`: only counters and registers accept
    /// writes (`S_OK`); unknown or read-only items give `E_ACCESSDENIED`, a
    /// non-`VT_I4` value `E_INVALIDARG`.
    pub fn write(&mut self, item_id: &str, value_i4: Option<i32>) -> (hr: i32)
        requires
            old(self).counters().len() == old(self).writes().len(),
        ensures
            hr == sim_write_status(old(self).counters().len(), item_id@, value_i4),
            old(self).counters().len() == old(self).writes().len() ==> final(self).counters().len()
                == final(self).writes().len(),
            final(self).leaf_ids() == old(self).leaf_ids(),
            hr == S_OK ==> (final(self).counters(), final(self).writes()) == registers_after_write(
                old(self).counters(),
                old(self).writes(),
                item_id@,
                value_i4.unwrap(),
            ),
            hr != S_OK ==> final(self).counters() == old(self).counters() && final(self).writes()
                == old(self).writes(),
    {
        let parsed = parse_item(item_id, self.counter_regs.len());
        let (ti, k) = match parsed {
            None => {
                return E_ACCESSDENIED;
            },
            Some(p) => p,
        };
        let t = tag_type(ti);
        if !t.writable {
            return E_ACCESSDENIED;
        }
        let v = match value_i4 {
            None => {
                return E_INVALIDARG;
            },
            Some(v) => v,
        };
        match t.kind {
            TagKind::Counter => {
                self.counter_regs.set(k, v);
            },
            _ => {
                self.write_regs.set(k, v);
            },
        }
        S_OK
    }

    /// Canonical metadata of `item_id`; `None` for an unknown id.
    pub fn item_meta(&self, item_id: &str) -> (r: Option<ItemMeta>)
        ensures
            r == (match parsed_item(item_id@, self.counters().len()) {
                None => None,
                Some((ti, _k)) => Some(
                    ItemMeta { data_type: type_dtype(ti as int), writable: type_writable(ti as int) },
                ),
            }),
    {
        match parse_item(item_id, self.counter_regs.len()) {
            None => None,
            Some((ti, _k)) => {
                let t = tag_type(ti);
                Some(ItemMeta { data_type: t.dtype, writable: t.writable })
            },
        }
    }

    /// Engineering-unit range of `item_id`; `None` for an unknown id or a
    /// type without one.
    pub fn item_range(&self, item_id: &str) -> (r: Option<(i32, i32)>)
        ensures
            r == (match parsed_item(item_id@, self.counters().len()) {
                None => None,
                Some((ti, _k)) => type_range(ti as int),
            }),
    {
        match parse_item(item_id, self.counter_regs.len()) {
            None => None,
            Some((ti, _k)) => tag_type(ti).range,
        }
    }
}

/// `count` zeroed registers.
fn vec_with_zeros(count: usize) -> (r: Vec<i32>)
    ensures
        r@ == Seq::new(count as nat, |i: int| 0i32),
{
    let mut v: Vec<i32> = Vec::new();
    let mut i: usize = 0;
    while i < count
        invariant
            i <= count,
            v@ == Seq::new(i as nat, |j: int| 0i32),
        decreases count - i,
    {
        v.push(0);
        i = i + 1;
        assert(v@ =~= Seq::new(i as nat, |j: int| 0i32));
    }
    v
}

/// The registers after a successful write of `v` to item `s`: the counter
/// or write register of its instance holds `v`.
pub open spec fn registers_after_write(counters: Seq<i32>, writes: Seq<i32>, s: Seq<char>, v: i32) -> (
    Seq<i32>,
    Seq<i32>,
) {
    let (ti, k) = parsed_item(s, counters.len()).unwrap();
    if type_kind(ti as int) == TagKind::Counter {
        (counters.update(k as int, v), writes)
    } else {
        (counters, writes.update(k as int, v))
    }
}

/// A successful write touches only the item written: every other item, of
/// any table row, reads as before, at any time.
pub proof fn lemma_write_isolated(
    counters: Seq<i32>,
    writes: Seq<i32>,
    s: Seq<char>,
    v: i32,
    other: Seq<char>,
    elapsed: u64,
)
    requires
        counters.len() == writes.len(),
        sim_write_status(counters.len(), s, Some(v)) == S_OK,
        parsed_item(other, counters.len()) != parsed_item(s, counters.len()),
    ensures
        sim_read(
            registers_after_write(counters, writes, s, v).0,
            registers_after_write(counters, writes, s, v).1,
            other,
            elapsed,
        ) == sim_read(counters, writes, other, elapsed),
{
    lemma_parsed_item_in_range(s, 0, counters.len());
    if parsed_item(other, counters.len()) is Some {
        lemma_parsed_item_in_range(other, 0, counters.len());
    }
}

/// What is written is read back: after a write of `v` to item `s` succeeds,
/// reading `s` at any time gives `v` with good quality.
pub proof fn lemma_write_then_read(counters: Seq<i32>, writes: Seq<i32>, s: Seq<char>, v: i32, elapsed: u64)
    requires
        counters.len() == writes.len(),
        sim_write_status(counters.len(), s, Some(v)) == S_OK,
    ensures
        sim_read(
            registers_after_write(counters, writes, s, v).0,
            registers_after_write(counters, writes, s, v).1,
            s,
            elapsed,
        ) == (SimRead { value: SimValue::I4(v), quality: OPC_QUALITY_GOOD }),
{
    lemma_parsed_item_in_range(s, 0, counters.len());
}

} // verus!
