//! The item registry and state of an OPC DA group: what `IOPCItemMgt`,
//! `IOPCSyncIO`, `IOPCGroupStateMgt` and `Refresh2` decide, apart from
//! the COM memory handling around them.

use std::collections::HashMap;

use vstd::prelude::*;
use vstd::relations::injective_on;
use vstd::set_lib::*;
use vstd::std_specs::hash::*;
use vstd::std_specs::iter::IteratorSpec;

use crate::hresult::{E_INVALIDARG, E_NOINTERFACE, E_POINTER, OPC_E_INVALIDITEMID, S_OK};
use crate::server::data_source::ItemMeta;
use crate::server::guid::{guid_eq, same_guid};
use crate::server::registry::Guid;

verus! {

broadcast use vstd::std_specs::hash::group_hash_axioms, vstd::set_lib::group_set_properties;

/// OPC access right: readable.
pub const OPC_READABLE: u32 = 0x1;
/// OPC access right: writeable.
pub const OPC_WRITEABLE: u32 = 0x2;

/// `IID_IOPCDataCallback` (`{39C13A70-011E-11D0-9675-0020AFD8ADB3}`), the
/// interface of a group's connection point.
pub open spec fn data_callback_iid() -> Guid {
    Guid { data1: 0x39c13a70, data2: 0x011e, data3: 0x11d0, data4: [0x96, 0x75, 0x00, 0x20, 0xaf, 0xd8, 0xad, 0xb3] }
}

/// `IID_IOPCDataCallback`.
pub fn iid_opc_data_callback() -> (g: Guid)
    ensures
        g == data_callback_iid(),
{
    Guid { data1: 0x39c13a70, data2: 0x011e, data3: 0x11d0, data4: [0x96, 0x75, 0x00, 0x20, 0xaf, 0xd8, 0xad, 0xb3] }
}

/// A group's `FindConnectionPoint(riid)`: its one connection point serves
/// `IOPCDataCallback` (`Ok`); a null `riid` gives `E_POINTER`, any other
/// interface `E_NOINTERFACE`.
pub fn find_connection_point(riid: Option<&Guid>) -> (r: Result<(), i32>)
    ensures
        riid is None ==> r == Err::<(), i32>(E_POINTER),
        riid matches Some(g) ==> (same_guid(*g, data_callback_iid()) ==> r is Ok) && (!same_guid(
            *g,
            data_callback_iid(),
        ) ==> r == Err::<(), i32>(E_NOINTERFACE)),
{
    match riid {
        None => Err(E_POINTER),
        Some(g) => {
            let dc = iid_opc_data_callback();
            if guid_eq(g, &dc) {
                Ok(())
            } else {
                Err(E_NOINTERFACE)
            }
        },
    }
}

/// One item a client asks `AddItems` / `ValidateItems` for.
pub struct ItemDef {
    pub item_id: String,
    pub h_client: u32,
    pub active: bool,
}

/// Per-item result of `AddItems` / `ValidateItems` (`OPCITEMRESULT`).
#[derive(Clone, Copy, Debug, PartialEq, Eq, Structural)]
pub struct ItemResult {
    pub h_server: u32,
    pub canonical_type: u16,
    pub access_rights: u32,
}

/// A registered item.
pub struct ItemEntry {
    pub item_id: String,
    pub h_client: u32,
    pub active: bool,
    pub data_type: u16,
}

/// Group state as `IOPCGroupStateMgt::GetState` reports it. The percent
/// deadband is a float that the group stores and hands back unchanged; it
/// is carried as its IEEE-754 bit pattern.
pub struct GroupState {
    pub update_rate: u32,
    pub active: bool,
    pub name: String,
    pub time_bias: i32,
    pub percent_deadband_bits: u32,
    pub locale: u32,
    pub h_client_group: u32,
    pub h_server_group: u32,
}

/// `SetState` arguments: `None` leaves a field unchanged.
pub struct StateUpdate {
    pub update_rate: Option<u32>,
    pub active: Option<bool>,
    pub time_bias: Option<i32>,
    pub percent_deadband_bits: Option<u32>,
    pub locale: Option<u32>,
    pub h_client_group: Option<u32>,
}

/// Item registry plus group state of one group.
pub struct GroupInner {
    items: HashMap<u32, ItemEntry>,
    next_handle: u32,
    update_rate: u32,
    active: bool,
    name: String,
    time_bias: i32,
    percent_deadband_bits: u32,
    locale: u32,
    h_client_group: u32,
    h_server_group: u32,
}

/// Result of `AddItems`/`ValidateItems` for an item with metadata `meta`
/// that got server handle `h`.
pub open spec fn known_result(h: u32, meta: ItemMeta) -> ItemResult {
    ItemResult {
        h_server: h,
        canonical_type: meta.data_type,
        access_rights: if meta.writable { OPC_READABLE | OPC_WRITEABLE } else { OPC_READABLE },
    }
}

/// The rights reported for a known item always include reading, include
/// writing exactly when its metadata says writable, hold nothing else, and
/// do not depend on the server handle it got (so `AddItems` and
/// `ValidateItems` report the same rights); the type reported is the
/// item's canonical type.
pub proof fn lemma_access_rights(h1: u32, h2: u32, meta: ItemMeta)
    ensures
        known_result(h1, meta).access_rights & OPC_READABLE == OPC_READABLE,
        (known_result(h1, meta).access_rights & OPC_WRITEABLE == OPC_WRITEABLE) == meta.writable,
        known_result(h1, meta).access_rights & !(OPC_READABLE | OPC_WRITEABLE) == 0,
        known_result(h1, meta).access_rights == known_result(h2, meta).access_rights,
        known_result(h1, meta).canonical_type == meta.data_type,
        known_result(h1, meta).h_server == h1,
{
    assert((1u32 | 2u32) & 1u32 == 1u32 && (1u32 | 2u32) & 2u32 == 2u32 && 1u32 & 2u32 != 2u32 && 1u32 & 1u32 == 1u32
        && (1u32 | 2u32) & !(1u32 | 2u32) == 0u32 && 1u32 & !(1u32 | 2u32) == 0u32) by (bit_vector);
}

/// Result of `AddItems`/`ValidateItems` for an unknown item.
pub open spec fn unknown_result() -> ItemResult {
    ItemResult { h_server: 0, canonical_type: 0, access_rights: 0 }
}

/// Number of known items among `metas`.
pub open spec fn known_count(metas: Seq<Option<ItemMeta>>) -> nat
    decreases metas.len(),
{
    if metas.len() == 0 {
        0
    } else {
        known_count(metas.drop_last()) + if metas.last() is Some { 1nat } else { 0nat }
    }
}

/// Some nonzero handle is unused when fewer than `u32::MAX` handles are.
proof fn lemma_free_handle_exists(m: Map<u32, ItemEntry>)
    requires
        m.dom().finite(),
        m.dom().len() < u32::MAX,
    ensures
        exists|h: u32| h != 0 && !m.contains_key(h),
{
    if forall|h: u32| h != 0 ==> m.contains_key(h) {
        let s = Set::new(|h: u32| h != 0);
        let f = |h: u32| h as int;
        assert(s.map(f) =~= set_int_range(1, 0x1_0000_0000)) by {
            assert forall|x: int| set_int_range(1, 0x1_0000_0000).contains(x) implies s.map(f).contains(x) by {
                let h = x as u32;
                assert(s.contains(h) && f(h) == x);
            }
        }
        lemma_int_range(1, 0x1_0000_0000);
        assert(s.subset_of(m.dom()));
        lemma_len_subset(s, m.dom());
        assert(injective_on(f, s));
        lemma_map_size(s, set_int_range(1, 0x1_0000_0000), f);
    }
}

/// Registered entry `e` records item `d` with metadata `m`.
pub open spec fn entry_matches(e: ItemEntry, d: ItemDef, m: ItemMeta) -> bool {
    &&& e.item_id@ == d.item_id@
    &&& e.h_client == d.h_client
    &&& e.active == d.active
    &&& e.data_type == m.data_type
}

/// `a` and `b` hold the same group state (items aside).
pub open spec fn same_state(a: GroupInner, b: GroupInner) -> bool {
    &&& a.update_rate() == b.update_rate()
    &&& a.is_active() == b.is_active()
    &&& a.name() == b.name()
    &&& a.time_bias() == b.time_bias()
    &&& a.deadband_bits() == b.deadband_bits()
    &&& a.locale() == b.locale()
    &&& a.h_client_group() == b.h_client_group()
    &&& a.h_server_group() == b.h_server_group()
}

impl GroupInner {
    /// Registered items by server handle.
    pub closed spec fn items(&self) -> Map<u32, ItemEntry> {
        self.items@
    }

    /// Next handle value that allocation tries first.
    pub closed spec fn next_handle(&self) -> u32 {
        self.next_handle
    }

    /// Update rate in ms.
    pub closed spec fn update_rate(&self) -> u32 {
        self.update_rate
    }

    /// Whether the group is active.
    pub closed spec fn is_active(&self) -> bool {
        self.active
    }

    /// Group name.
    pub closed spec fn name(&self) -> Seq<char> {
        self.name@
    }

    /// Time bias in minutes.
    pub closed spec fn time_bias(&self) -> i32 {
        self.time_bias
    }

    /// Bit pattern of the percent deadband.
    pub closed spec fn deadband_bits(&self) -> u32 {
        self.percent_deadband_bits
    }

    /// Locale id.
    pub closed spec fn locale(&self) -> u32 {
        self.locale
    }

    /// Client handle of the group.
    pub closed spec fn h_client_group(&self) -> u32 {
        self.h_client_group
    }

    /// Server handle of the group.
    pub closed spec fn h_server_group(&self) -> u32 {
        self.h_server_group
    }

    /// The registry never hands out handle 0, and every registered item is
    /// stored under a nonzero handle.
    pub closed spec fn wf(&self) -> bool {
        !self.items@.contains_key(0)
    }

    /// A group with no items and the state `AddGroup` gives it.
    pub fn new(
        name: String,
        active: bool,
        update_rate: u32,
        time_bias: i32,
        percent_deadband_bits: u32,
        locale: u32,
        h_client_group: u32,
        h_server_group: u32,
    ) -> (r: Self)
        ensures
            r.wf(),
            r.items() == Map::<u32, ItemEntry>::empty(),
            r.next_handle() == 1,
            r.name() == name@,
            r.is_active() == active,
            r.update_rate() == update_rate,
            r.time_bias() == time_bias,
            r.deadband_bits() == percent_deadband_bits,
            r.locale() == locale,
            r.h_client_group() == h_client_group,
            r.h_server_group() == h_server_group,
    {
        GroupInner {
            items: HashMap::new(),
            next_handle: 1,
            update_rate,
            active,
            name,
            time_bias,
            percent_deadband_bits,
            locale,
            h_client_group,
            h_server_group,
        }
    }

    /// Number of registered items.
    pub fn item_count(&self) -> (r: usize)
        ensures
            r == self.items().len(),
    {
        self.items.len()
    }

    /// Allocates the first unused nonzero handle at or after `next_handle`
    /// (wrapping); `next_handle` moves past it.
    fn alloc_handle(&mut self) -> (h: u32)
        requires
            old(self).items().len() < u32::MAX,
        ensures
            h != 0,
            !old(self).items().contains_key(h),
            final(self).items() == old(self).items(),
            final(self).wf() == old(self).wf(),
            same_state(*final(self), *old(self)),
    {
        proof {
            lemma_free_handle_exists(self.items@);
        }
        let ghost start = self.next_handle;
        let mut tried: u64 = 0;
        loop
            invariant
                self.items@ == old(self).items@,
                self.items@.dom().finite(),
                self.items@.len() < u32::MAX,
                exists|h: u32| h != 0 && !self.items@.contains_key(h),
                tried <= 0x1_0000_0000,
                self.next_handle as int == (start as int + tried as int) % 0x1_0000_0000,
                forall|j: int|
                    0 <= j < tried ==> #[trigger] ((start as int + j) % 0x1_0000_0000) == 0
                        || self.items@.contains_key(((start as int + j) % 0x1_0000_0000) as u32),
                self.update_rate == old(self).update_rate,
                self.active == old(self).active,
                self.name == old(self).name,
                self.time_bias == old(self).time_bias,
                self.percent_deadband_bits == old(self).percent_deadband_bits,
                self.locale == old(self).locale,
                self.h_client_group == old(self).h_client_group,
                self.h_server_group == old(self).h_server_group,
            decreases 0x1_0000_0000 - tried,
        {
            if tried == 0x1_0000_0000 {
                proof {
                    let w = choose|h: u32| h != 0 && !self.items@.contains_key(h);
                    let j = (w as int - start as int + 0x1_0000_0000) % 0x1_0000_0000;
                    assert((start as int + j) % 0x1_0000_0000 == w);
                }
            }
            let h = self.next_handle;
            self.next_handle = self.next_handle.wrapping_add(1);
            if h != 0 && !self.items.contains_key(&h) {
                return h;
            }
            tried = tried + 1;
        }
    }
}

impl GroupInner {
    /// `AddItems`: registers every item whose metadata `metas[i]` the data
    /// source knows under a fresh nonzero server handle (`S_OK`, canonical
    /// type, access rights from the metadata); an unknown item gets a zero
    /// result and `OPC_E_INVALIDITEMID` and is not registered.
    pub fn add_items(&mut self, defs: &Vec<ItemDef>, metas: &Vec<Option<ItemMeta>>) -> (out: Vec<
        (ItemResult, i32),
    >)
        requires
            defs.len() == metas.len(),
            old(self).wf(),
            old(self).items().len() + known_count(metas@) < u32::MAX,
        ensures
            final(self).wf(),
            same_state(*final(self), *old(self)),
            out.len() == defs.len(),
            forall|i: int|
                0 <= i < defs.len() && metas@[i] is None ==> #[trigger] out@[i] == (
                    unknown_result(),
                    OPC_E_INVALIDITEMID,
                ),
            forall|i: int|
                0 <= i < defs.len() && metas@[i] is Some ==> {
                    let h = (#[trigger] out@[i]).0.h_server;
                    &&& out@[i].1 == S_OK
                    &&& out@[i].0 == known_result(h, metas@[i].unwrap())
                    &&& h != 0
                    &&& !old(self).items().contains_key(h)
                    &&& final(self).items().contains_key(h)
                    &&& entry_matches(final(self).items()[h], defs@[i], metas@[i].unwrap())
                },
            forall|i: int, j: int|
                0 <= i < j < defs.len() && metas@[i] is Some && metas@[j] is Some ==> (
                #[trigger] out@[i]).0.h_server != (#[trigger] out@[j]).0.h_server,
            forall|h: u32|
                #[trigger] final(self).items().contains_key(h) <==> old(self).items().contains_key(h)
                    || exists|i: int|
                    0 <= i < defs.len() && metas@[i] is Some && (#[trigger] out@[i]).0.h_server == h,
            forall|h: u32|
                #[trigger] old(self).items().contains_key(h) ==> final(self).items()[h] == old(
                    self,
                ).items()[h],
    {
        let mut out: Vec<(ItemResult, i32)> = Vec::new();
        let mut i: usize = 0;
        while i < defs.len()
            invariant
                i <= defs.len(),
                defs.len() == metas.len(),
                self.wf(),
                same_state(*self, *old(self)),
                self.items().len() == old(self).items().len() + known_count(metas@.take(i as int)),
                old(self).items().len() + known_count(metas@) < u32::MAX,
                out.len() == i,
                forall|k: int|
                    0 <= k < i && metas@[k] is None ==> #[trigger] out@[k] == (
                        unknown_result(),
                        OPC_E_INVALIDITEMID,
                    ),
                forall|k: int|
                    0 <= k < i && metas@[k] is Some ==> {
                        let h = (#[trigger] out@[k]).0.h_server;
                        &&& out@[k].1 == S_OK
                        &&& out@[k].0 == known_result(h, metas@[k].unwrap())
                        &&& h != 0
                        &&& !old(self).items().contains_key(h)
                        &&& self.items().contains_key(h)
                        &&& entry_matches(self.items()[h], defs@[k], metas@[k].unwrap())
                    },
                forall|k: int, l: int|
                    0 <= k < l < i && metas@[k] is Some && metas@[l] is Some ==> (
                    #[trigger] out@[k]).0.h_server != (#[trigger] out@[l]).0.h_server,
                forall|h: u32|
                    #[trigger] self.items().contains_key(h) <==> old(self).items().contains_key(h)
                        || exists|k: int|
                        0 <= k < i && metas@[k] is Some && (#[trigger] out@[k]).0.h_server == h,
                forall|h: u32|
                    #[trigger] old(self).items().contains_key(h) ==> self.items()[h] == old(
                        self,
                    ).items()[h],
            decreases defs.len() - i,
        {
            proof {
                lemma_known_count_prefix(metas@, i as int);
            }
            match &metas[i] {
                Some(meta) => {
                    let meta = *meta;
                    let ghost before = self.items();
                    let ghost old_out = out@;
                    let h = self.alloc_handle();
                    let d = &defs[i];
                    let entry = ItemEntry {
                        item_id: d.item_id.clone(),
                        h_client: d.h_client,
                        active: d.active,
                        data_type: meta.data_type,
                    };
                    self.items.insert(h, entry);
                    let access = if meta.writable {
                        OPC_READABLE | OPC_WRITEABLE
                    } else {
                        OPC_READABLE
                    };
                    out.push((ItemResult { h_server: h, canonical_type: meta.data_type, access_rights: access }, S_OK));
                    proof {
                        assert(metas@.take(i + 1).drop_last() =~= metas@.take(i as int));
                        assert forall|k: int| 0 <= k < i implies out@[k] == old_out[k] by {}
                        assert forall|hh: u32|
                            #[trigger] self.items().contains_key(hh) <==> old(self).items().contains_key(hh)
                                || exists|k: int|
                                0 <= k < i + 1 && metas@[k] is Some && (#[trigger] out@[k]).0.h_server
                                    == hh by {
                            if self.items().contains_key(hh) {
                                if hh == h {
                                    assert(out@[i as int].0.h_server == hh);
                                } else {
                                    assert(before.contains_key(hh));
                                    if !old(self).items().contains_key(hh) {
                                        let k = choose|k: int|
                                            0 <= k < i && metas@[k] is Some && (#[trigger] old_out[k]).0.h_server
                                                == hh;
                                        assert(out@[k] == old_out[k]);
                                    }
                                }
                            }
                            if exists|k: int|
                                0 <= k < i + 1 && metas@[k] is Some && (#[trigger] out@[k]).0.h_server == hh {
                                let k = choose|k: int|
                                    0 <= k < i + 1 && metas@[k] is Some && (#[trigger] out@[k]).0.h_server
                                        == hh;
                                if k < i {
                                    assert(old_out[k] == out@[k]);
                                    assert(before.contains_key(hh));
                                }
                            }
                        }
                    }
                },
                None => {
                    let ghost old_out = out@;
                    out.push((ItemResult { h_server: 0, canonical_type: 0, access_rights: 0 }, OPC_E_INVALIDITEMID));
                    proof {
                        assert(metas@.take(i + 1).drop_last() =~= metas@.take(i as int));
                        assert forall|hh: u32|
                            #[trigger] self.items().contains_key(hh) <==> old(self).items().contains_key(hh)
                                || exists|k: int|
                                0 <= k < i + 1 && metas@[k] is Some && (#[trigger] out@[k]).0.h_server
                                    == hh by {
                            if self.items().contains_key(hh) && !old(self).items().contains_key(hh) {
                                let k = choose|k: int|
                                    0 <= k < i && metas@[k] is Some && (#[trigger] old_out[k]).0.h_server
                                        == hh;
                                assert(out@[k] == old_out[k]);
                            }
                            if exists|k: int|
                                0 <= k < i + 1 && metas@[k] is Some && (#[trigger] out@[k]).0.h_server == hh {
                                let k = choose|k: int|
                                    0 <= k < i + 1 && metas@[k] is Some && (#[trigger] out@[k]).0.h_server
                                        == hh;
                                assert(old_out[k] == out@[k]);
                            }
                        }
                    }
                },
            }
            i = i + 1;
        }
        out
    }

    /// `ValidateItems`: the results `AddItems` would give, with server handle
    /// 0 and nothing registered.
    pub fn validate_items(&self, metas: &Vec<Option<ItemMeta>>) -> (out: Vec<(ItemResult, i32)>)
        ensures
            out.len() == metas.len(),
            forall|i: int|
                0 <= i < metas.len() ==> #[trigger] out@[i] == match metas@[i] {
                    None => (unknown_result(), OPC_E_INVALIDITEMID),
                    Some(m) => (known_result(0, m), S_OK),
                },
    {
        let mut out: Vec<(ItemResult, i32)> = Vec::new();
        let mut i: usize = 0;
        while i < metas.len()
            invariant
                i <= metas.len(),
                out.len() == i,
                forall|k: int|
                    0 <= k < i ==> #[trigger] out@[k] == match metas@[k] {
                        None => (unknown_result(), OPC_E_INVALIDITEMID),
                        Some(m) => (known_result(0, m), S_OK),
                    },
            decreases metas.len() - i,
        {
            match &metas[i] {
                Some(meta) => {
                    let access = if meta.writable {
                        OPC_READABLE | OPC_WRITEABLE
                    } else {
                        OPC_READABLE
                    };
                    out.push((ItemResult { h_server: 0, canonical_type: meta.data_type, access_rights: access }, S_OK));
                },
                None => {
                    out.push((ItemResult { h_server: 0, canonical_type: 0, access_rights: 0 }, OPC_E_INVALIDITEMID));
                },
            }
            i = i + 1;
        }
        out
    }
}

/// Client handle that `SetClientHandles(hs, cs)` leaves on item `h`
/// whose client handle was `init`: the last `cs[j]` with `hs[j] == h`.
pub open spec fn client_after(hs: Seq<u32>, cs: Seq<u32>, h: u32, init: u32) -> u32
    decreases hs.len(),
{
    if hs.len() == 0 || cs.len() < hs.len() {
        init
    } else if hs.last() == h {
        cs[hs.len() - 1]
    } else {
        client_after(hs.drop_last(), cs.take(hs.len() - 1), h, init)
    }
}

impl GroupInner {
    /// `RemoveItems`: unregisters each handle in order; `S_OK` for a handle
    /// registered at that point, `E_INVALIDARG` otherwise (unknown, or
    /// already removed earlier in the same call).
    pub fn remove_items(&mut self, handles: &Vec<u32>) -> (out: Vec<i32>)
        requires
            old(self).wf(),
        ensures
            final(self).wf(),
            same_state(*final(self), *old(self)),
            final(self).items() == old(self).items().remove_keys(handles@.to_set()),
            out.len() == handles.len(),
            forall|i: int|
                0 <= i < handles.len() ==> #[trigger] out@[i] == if old(self).items().contains_key(
                    handles@[i],
                ) && !handles@.take(i).contains(handles@[i]) {
                    S_OK
                } else {
                    E_INVALIDARG
                },
    {
        let mut out: Vec<i32> = Vec::new();
        let mut i: usize = 0;
        assert(old(self).items().remove_keys(handles@.take(0).to_set()) =~= old(self).items());
        while i < handles.len()
            invariant
                i <= handles.len(),
                self.wf(),
                same_state(*self, *old(self)),
                self.items() == old(self).items().remove_keys(handles@.take(i as int).to_set()),
                out.len() == i,
                forall|k: int|
                    0 <= k < i ==> #[trigger] out@[k] == if old(self).items().contains_key(handles@[k])
                        && !handles@.take(k).contains(handles@[k]) {
                        S_OK
                    } else {
                        E_INVALIDARG
                    },
            decreases handles.len() - i,
        {
            let h = handles[i];
            let removed = self.items.remove(&h);
            let hr = if removed.is_some() {
                S_OK
            } else {
                E_INVALIDARG
            };
            out.push(hr);
            proof {
                assert(handles@.take(i + 1) =~= handles@.take(i as int).push(h));
                assert forall|x: u32| #[trigger] handles@.take(i + 1).contains(x) <==> handles@.take(i as int).contains(x) || x == h by {
                    if handles@.take(i + 1).contains(x) {
                        let j = choose|j: int| 0 <= j < i + 1 && #[trigger] handles@.take(i + 1)[j] == x;
                        if j < i {
                            assert(handles@.take(i as int)[j] == x);
                        }
                    }
                    if handles@.take(i as int).contains(x) {
                        let j = choose|j: int| 0 <= j < i && #[trigger] handles@.take(i as int)[j] == x;
                        assert(handles@.take(i + 1)[j] == x);
                    }
                    if x == h {
                        assert(handles@.take(i + 1)[i as int] == x);
                    }
                }
                assert(handles@.take(i + 1).to_set() =~= handles@.take(i as int).to_set().insert(h));
                assert(self.items() =~= old(self).items().remove_keys(handles@.take(i + 1).to_set()));
            }
            i = i + 1;
        }
        assert(handles@.take(handles.len() as int) =~= handles@);
        out
    }

    /// `SetActiveState`: sets the active flag of each registered handle
    /// (`S_OK`); unknown handles get `E_INVALIDARG`.
    pub fn set_active_state(&mut self, handles: &Vec<u32>, active: bool) -> (out: Vec<i32>)
        requires
            old(self).wf(),
        ensures
            final(self).wf(),
            same_state(*final(self), *old(self)),
            final(self).items().dom() == old(self).items().dom(),
            forall|h: u32|
                #[trigger] old(self).items().contains_key(h) ==> {
                    let e0 = old(self).items()[h];
                    let e1 = final(self).items()[h];
                    &&& e1.item_id == e0.item_id
                    &&& e1.h_client == e0.h_client
                    &&& e1.data_type == e0.data_type
                    &&& e1.active == if handles@.contains(h) { active } else { e0.active }
                },
            out.len() == handles.len(),
            forall|i: int|
                0 <= i < handles.len() ==> #[trigger] out@[i] == if old(self).items().contains_key(
                    handles@[i],
                ) {
                    S_OK
                } else {
                    E_INVALIDARG
                },
    {
        let mut out: Vec<i32> = Vec::new();
        let mut i: usize = 0;
        while i < handles.len()
            invariant
                i <= handles.len(),
                self.wf(),
                same_state(*self, *old(self)),
                self.items().dom() == old(self).items().dom(),
                forall|h: u32|
                    #[trigger] old(self).items().contains_key(h) ==> {
                        let e0 = old(self).items()[h];
                        let e1 = self.items()[h];
                        &&& e1.item_id == e0.item_id
                        &&& e1.h_client == e0.h_client
                        &&& e1.data_type == e0.data_type
                        &&& e1.active == if handles@.take(i as int).contains(h) {
                            active
                        } else {
                            e0.active
                        }
                    },
                out.len() == i,
                forall|k: int|
                    0 <= k < i ==> #[trigger] out@[k] == if old(self).items().contains_key(handles@[k]) {
                        S_OK
                    } else {
                        E_INVALIDARG
                    },
            decreases handles.len() - i,
        {
            let h = handles[i];
            let hr = match self.items.remove(&h) {
                Some(e) => {
                    self.items.insert(h, ItemEntry { active, ..e });
                    S_OK
                },
                None => E_INVALIDARG,
            };
            out.push(hr);
            proof {
                assert(handles@.take(i + 1) =~= handles@.take(i as int).push(h));
                assert forall|x: u32| #[trigger] handles@.take(i + 1).contains(x) <==> handles@.take(i as int).contains(x) || x == h by {
                    if handles@.take(i + 1).contains(x) {
                        let j = choose|j: int| 0 <= j < i + 1 && #[trigger] handles@.take(i + 1)[j] == x;
                        if j < i {
                            assert(handles@.take(i as int)[j] == x);
                        }
                    }
                    if handles@.take(i as int).contains(x) {
                        let j = choose|j: int| 0 <= j < i && #[trigger] handles@.take(i as int)[j] == x;
                        assert(handles@.take(i + 1)[j] == x);
                    }
                    if x == h {
                        assert(handles@.take(i + 1)[i as int] == x);
                    }
                }
                assert(self.items().dom() =~= old(self).items().dom());
            }
            i = i + 1;
        }
        assert(handles@.take(handles.len() as int) =~= handles@);
        out
    }

    /// `SetClientHandles`: gives each registered `handles[i]` the client
    /// handle `clients[i]` (later pairs win) with `S_OK`; unknown handles
    /// get `E_INVALIDARG`.
    pub fn set_client_handles(&mut self, handles: &Vec<u32>, clients: &Vec<u32>) -> (out: Vec<i32>)
        requires
            old(self).wf(),
            handles.len() == clients.len(),
        ensures
            final(self).wf(),
            same_state(*final(self), *old(self)),
            final(self).items().dom() == old(self).items().dom(),
            forall|h: u32|
                #[trigger] old(self).items().contains_key(h) ==> {
                    let e0 = old(self).items()[h];
                    let e1 = final(self).items()[h];
                    &&& e1.item_id == e0.item_id
                    &&& e1.active == e0.active
                    &&& e1.data_type == e0.data_type
                    &&& e1.h_client == client_after(handles@, clients@, h, e0.h_client)
                },
            out.len() == handles.len(),
            forall|i: int|
                0 <= i < handles.len() ==> #[trigger] out@[i] == if old(self).items().contains_key(
                    handles@[i],
                ) {
                    S_OK
                } else {
                    E_INVALIDARG
                },
    {
        let mut out: Vec<i32> = Vec::new();
        let mut i: usize = 0;
        while i < handles.len()
            invariant
                i <= handles.len(),
                handles.len() == clients.len(),
                self.wf(),
                same_state(*self, *old(self)),
                self.items().dom() == old(self).items().dom(),
                forall|h: u32|
                    #[trigger] old(self).items().contains_key(h) ==> {
                        let e0 = old(self).items()[h];
                        let e1 = self.items()[h];
                        &&& e1.item_id == e0.item_id
                        &&& e1.active == e0.active
                        &&& e1.data_type == e0.data_type
                        &&& e1.h_client == client_after(
                            handles@.take(i as int),
                            clients@.take(i as int),
                            h,
                            e0.h_client,
                        )
                    },
                out.len() == i,
                forall|k: int|
                    0 <= k < i ==> #[trigger] out@[k] == if old(self).items().contains_key(handles@[k]) {
                        S_OK
                    } else {
                        E_INVALIDARG
                    },
            decreases handles.len() - i,
        {
            let h = handles[i];
            let c = clients[i];
            let hr = match self.items.remove(&h) {
                Some(e) => {
                    self.items.insert(h, ItemEntry { h_client: c, ..e });
                    S_OK
                },
                None => E_INVALIDARG,
            };
            out.push(hr);
            proof {
                assert(handles@.take(i + 1).drop_last() =~= handles@.take(i as int));
                assert(clients@.take(i + 1).take(i as int) =~= clients@.take(i as int));
                assert(self.items().dom() =~= old(self).items().dom());
            }
            i = i + 1;
        }
        assert(handles@.take(handles.len() as int) =~= handles@);
        assert(clients@.take(clients.len() as int) =~= clients@);
        out
    }

    /// `IOPCSyncIO::Read` lookup: for each handle, the registered item's
    /// `(client handle, item id)`, `None` for an unknown handle (which the
    /// read reports as an empty state with `E_INVALIDARG`).
    pub fn read_plan(&self, handles: &Vec<u32>) -> (out: Vec<Option<(u32, String)>>)
        ensures
            out.len() == handles.len(),
            forall|i: int|
                0 <= i < handles.len() ==> match #[trigger] out@[i] {
                    None => !self.items().contains_key(handles@[i]),
                    Some((hc, id)) => self.items().contains_key(handles@[i]) && hc == self.items()[handles@[i]].h_client
                        && id@ == self.items()[handles@[i]].item_id@,
                },
    {
        let mut out: Vec<Option<(u32, String)>> = Vec::new();
        let mut i: usize = 0;
        while i < handles.len()
            invariant
                i <= handles.len(),
                out.len() == i,
                forall|k: int|
                    0 <= k < i ==> match #[trigger] out@[k] {
                        None => !self.items().contains_key(handles@[k]),
                        Some((hc, id)) => self.items().contains_key(handles@[k]) && hc == self.items()[handles@[k]].h_client
                            && id@ == self.items()[handles@[k]].item_id@,
                    },
            decreases handles.len() - i,
        {
            let slot = match self.items.get(&handles[i]) {
                Some(e) => Some((e.h_client, e.item_id.clone())),
                None => None,
            };
            out.push(slot);
            i = i + 1;
        }
        out
    }

    /// `IOPCSyncIO::Write` lookup: for each handle, the registered item's
    /// id, `None` for an unknown handle (reported as `E_INVALIDARG`).
    pub fn write_plan(&self, handles: &Vec<u32>) -> (out: Vec<Option<String>>)
        ensures
            out.len() == handles.len(),
            forall|i: int|
                0 <= i < handles.len() ==> match #[trigger] out@[i] {
                    None => !self.items().contains_key(handles@[i]),
                    Some(id) => self.items().contains_key(handles@[i]) && id@ == self.items()[handles@[i]].item_id@,
                },
    {
        let mut out: Vec<Option<String>> = Vec::new();
        let mut i: usize = 0;
        while i < handles.len()
            invariant
                i <= handles.len(),
                out.len() == i,
                forall|k: int|
                    0 <= k < i ==> match #[trigger] out@[k] {
                        None => !self.items().contains_key(handles@[k]),
                        Some(id) => self.items().contains_key(handles@[k]) && id@ == self.items()[handles@[k]].item_id@,
                    },
            decreases handles.len() - i,
        {
            let slot = match self.items.get(&handles[i]) {
                Some(e) => Some(e.item_id.clone()),
                None => None,
            };
            out.push(slot);
            i = i + 1;
        }
        out
    }

    /// `GetState`: the group's state.
    pub fn get_state(&self) -> (r: GroupState)
        ensures
            r.update_rate == self.update_rate(),
            r.active == self.is_active(),
            r.name@ == self.name(),
            r.time_bias == self.time_bias(),
            r.percent_deadband_bits == self.deadband_bits(),
            r.locale == self.locale(),
            r.h_client_group == self.h_client_group(),
            r.h_server_group == self.h_server_group(),
    {
        GroupState {
            update_rate: self.update_rate,
            active: self.active,
            name: self.name.clone(),
            time_bias: self.time_bias,
            percent_deadband_bits: self.percent_deadband_bits,
            locale: self.locale,
            h_client_group: self.h_client_group,
            h_server_group: self.h_server_group,
        }
    }

    /// `SetState`: changes the fields given, keeps the others, and returns
    /// the revised update rate (the requested one; there is no minimum).
    pub fn set_state(&mut self, u: StateUpdate) -> (revised: u32)
        ensures
            final(self).items() == old(self).items(),
            final(self).wf() == old(self).wf(),
            final(self).update_rate() == (match u.update_rate { Some(v) => v, None => old(self).update_rate() }),
            final(self).is_active() == (match u.active { Some(v) => v, None => old(self).is_active() }),
            final(self).time_bias() == (match u.time_bias { Some(v) => v, None => old(self).time_bias() }),
            final(self).deadband_bits() == (match u.percent_deadband_bits { Some(v) => v, None => old(self).deadband_bits() }),
            final(self).locale() == (match u.locale { Some(v) => v, None => old(self).locale() }),
            final(self).h_client_group() == (match u.h_client_group { Some(v) => v, None => old(self).h_client_group() }),
            final(self).name() == old(self).name(),
            final(self).h_server_group() == old(self).h_server_group(),
            revised == final(self).update_rate(),
    {
        if let Some(v) = u.update_rate {
            self.update_rate = v;
        }
        if let Some(v) = u.active {
            self.active = v;
        }
        if let Some(v) = u.time_bias {
            self.time_bias = v;
        }
        if let Some(v) = u.percent_deadband_bits {
            self.percent_deadband_bits = v;
        }
        if let Some(v) = u.locale {
            self.locale = v;
        }
        if let Some(v) = u.h_client_group {
            self.h_client_group = v;
        }
        self.update_rate
    }

    /// `SetName`: renames the group.
    pub fn set_name(&mut self, name: String)
        ensures
            final(self).name() == name@,
            final(self).items() == old(self).items(),
            final(self).wf() == old(self).wf(),
            final(self).update_rate() == old(self).update_rate(),
            final(self).is_active() == old(self).is_active(),
            final(self).time_bias() == old(self).time_bias(),
            final(self).deadband_bits() == old(self).deadband_bits(),
            final(self).locale() == old(self).locale(),
            final(self).h_client_group() == old(self).h_client_group(),
            final(self).h_server_group() == old(self).h_server_group(),
    {
        self.name = name;
    }
}

/// The per-item status of a read or write lookup: `S_OK` for a registered
/// handle, `E_INVALIDARG` for an unknown one.
pub fn plan_status<T>(slot: &Option<T>) -> (hr: i32)
    ensures
        slot is Some ==> hr == S_OK,
        slot is None ==> hr == E_INVALIDARG,
{
    match slot {
        Some(_) => S_OK,
        None => E_INVALIDARG,
    }
}

/// Frames `out` are exactly the active items of `m`, each once:
/// `out[i] == (h_client, item id)` of a distinct active handle, and every
/// active handle is among them.
pub open spec fn frames_of_active(m: Map<u32, ItemEntry>, out: Seq<(u32, Seq<char>)>) -> bool {
    exists|hs: Seq<u32>|
        {
            &&& hs.len() == out.len()
            &&& hs.no_duplicates()
            &&& forall|i: int|
                0 <= i < hs.len() ==> m.contains_key(#[trigger] hs[i]) && m[hs[i]].active && out[i]
                    == (m[hs[i]].h_client, m[hs[i]].item_id@)
            &&& forall|h: u32| m.contains_key(h) && m[h].active ==> #[trigger] hs.contains(h)
        }
}

impl GroupInner {
    /// `Refresh2` snapshot: the group's client handle and
    /// `(client handle, item id)` of every active item (inactive items are
    /// not pushed), in the registry's iteration order.
    pub fn snapshot_active_for_publish(&self) -> (r: (u32, Vec<(u32, String)>))
        ensures
            r.0 == self.h_client_group(),
            frames_of_active(self.items(), r.1@.map_values(|f: (u32, String)| (f.0, f.1@))),
    {
        let mut frames: Vec<(u32, String)> = Vec::new();
        let ghost mut hs: Seq<u32> = Seq::empty();
        let ghost mut js: Seq<int> = Seq::empty();
        let m = &self.items;
        let ghost s0 = spec_hash_map_iter(m).remaining();
        proof {
            assert(s0.len() == m@.dom().len());
        }
        for kv in it: m.iter()
            invariant
                it.seq() == s0,
                s0 == spec_hash_map_iter(m).remaining(),
                s0.no_duplicates(),
                hs.len() == frames.len(),
                hs.no_duplicates(),
                forall|i: int|
                    0 <= i < hs.len() ==> m@.contains_key(#[trigger] hs[i]) && m@[hs[i]].active
                        && frames@[i].0 == m@[hs[i]].h_client && frames@[i].1@ == m@[hs[i]].item_id@,
                js.len() == hs.len(),
                forall|i: int|
                    0 <= i < hs.len() ==> 0 <= #[trigger] js[i] < it.index() && *s0[js[i]].0 == hs[i],
                forall|j: int|
                    0 <= j < it.index() && m@[*(#[trigger] s0[j]).0].active ==> hs.contains(*s0[j].0),
        {
            let (h, e) = kv;
            let ghost idx = it.index();
            assert(kv == s0[idx]);
            assert(m@.contains_key(*h) && m@[*h] == *e);
            if e.active {
                frames.push((e.h_client, e.item_id.clone()));
                proof {
                    assert forall|i: int| 0 <= i < hs.len() implies hs[i] != *h by {
                        let j = js[i];
                        assert(m@.contains_key(*s0[j].0) && m@[*s0[j].0] == *s0[j].1);
                        if hs[i] == *h {
                            assert(s0[j] == s0[idx]);
                        }
                    }
                    let ghost old_hs = hs;
                    hs = hs.push(*h);
                    js = js.push(idx);
                    assert(hs.last() == *h);
                    assert forall|j: int|
                        0 <= j < it.index() && m@[*(#[trigger] s0[j]).0].active implies hs.contains(*s0[j].0) by {
                        if j < idx {
                            assert(old_hs.contains(*s0[j].0));
                            let k = choose|k: int| 0 <= k < old_hs.len() && old_hs[k] == *s0[j].0;
                            assert(hs[k] == *s0[j].0);
                        } else {
                            assert(hs[hs.len() - 1] == *s0[j].0);
                        }
                    }
                }
            }
        }
        proof {
            let out = frames@.map_values(|f: (u32, String)| (f.0, f.1@));
            assert forall|hh: u32| m@.contains_key(hh) && m@[hh].active implies #[trigger] hs.contains(hh) by {
                assert(s0.contains((&hh, &m@[hh])));
                let j = choose|j: int| 0 <= j < s0.len() && s0[j] == (&hh, &m@[hh]);
                assert(*s0[j].0 == hh);
            }
            assert(frames_of_active(self.items(), out));
        }
        (self.h_client_group, frames)
    }
}

/// `known_count` of a prefix grows by one exactly at a known item.
proof fn lemma_known_count_prefix(metas: Seq<Option<ItemMeta>>, i: int)
    requires
        0 <= i < metas.len(),
    ensures
        known_count(metas.take(i + 1)) == known_count(metas.take(i)) + if metas[i] is Some { 1nat } else { 0nat },
        known_count(metas.take(i + 1)) <= known_count(metas),
    decreases metas.len() - i,
{
    assert(metas.take(i + 1).drop_last() =~= metas.take(i));
    if i + 1 < metas.len() {
        lemma_known_count_prefix(metas, i + 1);
    } else {
        assert(metas.take(i + 1) =~= metas);
    }
}

} // verus!
