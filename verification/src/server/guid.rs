//! Comparing GUIDs.

use vstd::prelude::*;

use crate::server::registry::Guid;

verus! {

/// `a` and `b` are the same GUID.
pub open spec fn same_guid(a: Guid, b: Guid) -> bool {
    a.data1 == b.data1 && a.data2 == b.data2 && a.data3 == b.data3 && a.data4@ == b.data4@
}

/// Whether `a` and `b` are the same GUID.
pub fn guid_eq(a: &Guid, b: &Guid) -> (r: bool)
    ensures
        r == same_guid(*a, *b),
{
    if a.data1 != b.data1 || a.data2 != b.data2 || a.data3 != b.data3 {
        return false;
    }
    let mut i: usize = 0;
    while i < 8
        invariant
            i <= 8,
            forall|k: int| 0 <= k < i ==> #[trigger] a.data4@[k] == b.data4@[k],
        decreases 8 - i,
    {
        if a.data4[i] != b.data4[i] {
            return false;
        }
        i = i + 1;
    }
    assert(a.data4@ =~= b.data4@);
    true
}

/// `g` is the nil GUID (all fields zero).
pub open spec fn is_nil_guid(g: Guid) -> bool {
    g.data1 == 0 && g.data2 == 0 && g.data3 == 0 && forall|i: int| 0 <= i < 8 ==> #[trigger] g.data4@[i] == 0
}

/// Whether `g` is the nil GUID.
pub fn guid_is_nil(g: &Guid) -> (r: bool)
    ensures
        r == is_nil_guid(*g),
{
    if g.data1 != 0 || g.data2 != 0 || g.data3 != 0 {
        return false;
    }
    let mut i: usize = 0;
    while i < 8
        invariant
            i <= 8,
            g.data1 == 0 && g.data2 == 0 && g.data3 == 0,
            forall|k: int| 0 <= k < i ==> #[trigger] g.data4@[k] == 0,
        decreases 8 - i,
    {
        if g.data4[i] != 0 {
            return false;
        }
        i = i + 1;
    }
    true
}

} // verus!
