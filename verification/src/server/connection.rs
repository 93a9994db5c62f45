//! Connection points and snapshot enumerators.
//!
//! A connection point keeps the sinks that clients advised under nonzero
//! cookies.  `IEnumConnections` and `IEnumString` hand out a snapshot
//! through a cursor that only moves forward, except on `Reset`.

use std::collections::HashMap;

use vstd::prelude::*;
use vstd::std_specs::hash::*;

use crate::hresult::{CONNECT_E_CANNOTCONNECT, CONNECT_E_NOCONNECTION, E_POINTER, S_FALSE, S_OK};

verus! {

broadcast use vstd::std_specs::hash::group_hash_axioms;

/// The sinks advised on one connection point, by cookie.
pub struct ConnectionPoint<S> {
    sinks: HashMap<u32, S>,
    next_cookie: u32,
}

/// The cookie the next `Advise` hands out when the counter stands at `next`
/// (0 is never handed out: the counter skips it).
pub open spec fn cookie_for(next: u32) -> u32 {
    if next != 0 {
        next
    } else {
        1
    }
}

/// The counter after handing out a cookie from `next`.
pub open spec fn counter_after(next: u32) -> u32 {
    let c = cookie_for(next);
    if c == u32::MAX {
        0
    } else {
        (c + 1) as u32
    }
}

/// What a client's sink gave when `Advise` asked it for the connection
/// point's interface.
pub enum SinkQuery<S> {
    /// No sink was passed.
    Null,
    /// The sink does not implement the interface.
    Unsupported,
    /// The sink as the interface.
    Supported(S),
}

impl<S> ConnectionPoint<S> {
    /// The advised sinks by cookie.
    pub closed spec fn sinks(&self) -> Map<u32, S> {
        self.sinks@
    }

    /// The counter from which the next cookie is taken.
    pub closed spec fn next_cookie(&self) -> u32 {
        self.next_cookie
    }

    /// Every live cookie is nonzero and below the counter, which has not
    /// wrapped: a new cookie then names no live connection.
    pub open spec fn cookies_below_counter(&self) -> bool {
        &&& self.next_cookie() != 0
        &&& forall|k: u32| #[trigger] self.sinks().contains_key(k) ==> 0 < k < self.next_cookie()
    }

    /// An empty table whose first cookie is 1.
    pub fn new() -> (r: Self)
        ensures
            r.sinks() == Map::<u32, S>::empty(),
            r.next_cookie() == 1,
            r.cookies_below_counter(),
    {
        ConnectionPoint { sinks: HashMap::new(), next_cookie: 1 }
    }

    /// Number of live connections.
    pub fn advise_count(&self) -> (r: usize)
        ensures
            r == self.sinks().len(),
    {
        self.sinks.len()
    }

    /// Takes the next nonzero cookie from the counter.
    fn alloc_cookie(&mut self) -> (c: u32)
        ensures
            c == cookie_for(old(self).next_cookie()),
            c != 0,
            final(self).next_cookie() == counter_after(old(self).next_cookie()),
            final(self).sinks() == old(self).sinks(),
    {
        let mut c = self.next_cookie;
        self.next_cookie = c.wrapping_add(1);
        if c == 0 {
            c = self.next_cookie;
            self.next_cookie = c.wrapping_add(1);
        }
        c
    }

    /// `Advise`: stores `sink` under a new nonzero cookie and returns it.
    pub fn advise(&mut self, sink: S) -> (cookie: u32)
        ensures
            cookie != 0,
            cookie == cookie_for(old(self).next_cookie()),
            final(self).sinks() == old(self).sinks().insert(cookie, sink),
            final(self).next_cookie() == counter_after(old(self).next_cookie()),
            old(self).cookies_below_counter() ==> !old(self).sinks().contains_key(cookie),
            old(self).cookies_below_counter() && old(self).next_cookie() < u32::MAX
                ==> final(self).cookies_below_counter(),
    {
        let cookie = self.alloc_cookie();
        self.sinks.insert(cookie, sink);
        cookie
    }

    /// `Advise` of a client's sink: a null sink gives `E_POINTER`, a sink
    /// without the connection's interface `CONNECT_E_CANNOTCONNECT`, both
    /// changing nothing; any other sink is advised as [`Self::advise`] does.
    pub fn advise_sink(&mut self, query: SinkQuery<S>) -> (r: Result<u32, i32>)
        ensures
            query is Null ==> r == Err::<u32, i32>(E_POINTER) && final(self).sinks() == old(self).sinks()
                && final(self).next_cookie() == old(self).next_cookie(),
            query is Unsupported ==> r == Err::<u32, i32>(CONNECT_E_CANNOTCONNECT) && final(self).sinks() == old(
                self,
            ).sinks() && final(self).next_cookie() == old(self).next_cookie(),
            query matches SinkQuery::Supported(sink) ==> r == Ok::<u32, i32>(cookie_for(old(self).next_cookie()))
                && final(self).sinks() == old(self).sinks().insert(cookie_for(old(self).next_cookie()), sink)
                && final(self).next_cookie() == counter_after(old(self).next_cookie()),
    {
        match query {
            SinkQuery::Null => Err(E_POINTER),
            SinkQuery::Unsupported => Err(CONNECT_E_CANNOTCONNECT),
            SinkQuery::Supported(sink) => Ok(self.advise(sink)),
        }
    }

    /// `Unadvise`: removes the connection `cookie`; a cookie that names no
    /// connection gives `CONNECT_E_NOCONNECTION` and changes nothing.
    pub fn unadvise(&mut self, cookie: u32) -> (r: Result<(), i32>)
        ensures
            old(self).sinks().contains_key(cookie) ==> r is Ok && final(self).sinks() == old(
                self,
            ).sinks().remove(cookie),
            !old(self).sinks().contains_key(cookie) ==> r == Err::<(), i32>(CONNECT_E_NOCONNECTION)
                && final(self).sinks() == old(self).sinks(),
            final(self).next_cookie() == old(self).next_cookie(),
            old(self).cookies_below_counter() ==> final(self).cookies_below_counter(),
    {
        match self.sinks.remove(&cookie) {
            Some(_) => Ok(()),
            None => Err(CONNECT_E_NOCONNECTION),
        }
    }

    /// The sink advised under `cookie`, if any.
    pub fn sink(&self, cookie: u32) -> (r: Option<&S>)
        ensures
            r matches Some(s) ==> self.sinks().contains_key(cookie) && *s == self.sinks()[cookie],
            r is None ==> !self.sinks().contains_key(cookie),
    {
        self.sinks.get(&cookie)
    }
}

/// The cursor of a snapshot enumerator over `len` entries.
#[derive(Clone, Copy)]
pub struct EnumCursor {
    len: usize,
    pos: usize,
}

/// What one `Next` hands out: its HRESULT and the positions
/// `start .. start + count` of the snapshot.
pub struct NextBatch {
    pub hr: i32,
    pub start: usize,
    pub count: usize,
}

/// The number of entries a `Next(celt)` at `pos` of `len` hands out.
pub open spec fn batch_len(len: usize, pos: usize, celt: u32) -> nat {
    let remaining = if pos <= len {
        (len - pos) as nat
    } else {
        0
    };
    if remaining <= celt {
        remaining
    } else {
        celt as nat
    }
}

impl EnumCursor {
    /// Entries in the snapshot.
    pub closed spec fn len(&self) -> nat {
        self.len as nat
    }

    /// The position of the next entry handed out.
    pub closed spec fn pos(&self) -> nat {
        self.pos as nat
    }

    /// The position never passes the end.
    pub closed spec fn wf(&self) -> bool {
        self.pos <= self.len
    }

    /// A cursor at the start of `len` entries.
    pub fn new(len: usize) -> (r: Self)
        ensures
            r.wf(),
            r.len() == len,
            r.pos() == 0,
    {
        EnumCursor { len, pos: 0 }
    }

    /// The position of the next entry handed out.
    pub fn position(&self) -> (r: usize)
        ensures
            r == self.pos(),
    {
        self.pos
    }

    /// What `Next(celt)` would hand out, without moving: no entry and
    /// `E_POINTER` for `celt == 0`; else up to `celt` entries from the
    /// cursor, with `S_OK` when all `celt` came and `S_FALSE` otherwise.
    pub fn peek(&self, celt: u32) -> (r: NextBatch)
        requires
            self.wf(),
        ensures
            celt == 0 ==> r.hr == E_POINTER && r.count == 0,
            celt != 0 ==> r.count == batch_len(self.len() as usize, self.pos() as usize, celt)
                && r.hr == (if r.count == celt {
                S_OK
            } else {
                S_FALSE
            }),
            r.start == self.pos(),
            r.start + r.count <= self.len(),
    {
        if celt == 0 {
            return NextBatch { hr: E_POINTER, start: self.pos, count: 0 };
        }
        let remaining = self.len - self.pos;
        let count = if remaining <= celt as usize {
            remaining
        } else {
            celt as usize
        };
        let hr = if count == celt as usize {
            S_OK
        } else {
            S_FALSE
        };
        NextBatch { hr, start: self.pos, count }
    }

    /// Moves the cursor forward by `n` handed-out entries.
    pub fn advance(&mut self, n: usize)
        requires
            old(self).wf(),
            old(self).pos() + n <= old(self).len(),
        ensures
            final(self).wf(),
            final(self).len() == old(self).len(),
            final(self).pos() == old(self).pos() + n,
    {
        self.pos = self.pos + n;
    }

    /// `Next(celt)`: [`Self::peek`], then the cursor moves past what was
    /// handed out.
    pub fn next(&mut self, celt: u32) -> (r: NextBatch)
        requires
            old(self).wf(),
        ensures
            final(self).wf(),
            final(self).len() == old(self).len(),
            r.start == old(self).pos(),
            final(self).pos() == old(self).pos() + r.count,
            celt == 0 ==> r.hr == E_POINTER && r.count == 0,
            celt != 0 ==> r.count == batch_len(old(self).len() as usize, old(self).pos() as usize, celt)
                && r.hr == (if r.count == celt {
                S_OK
            } else {
                S_FALSE
            }),
    {
        let r = self.peek(celt);
        self.advance(r.count);
        r
    }

    /// `Skip(celt)`: moves forward by `celt`, stopping at the end.
    pub fn skip(&mut self, celt: u32)
        requires
            old(self).wf(),
        ensures
            final(self).wf(),
            final(self).len() == old(self).len(),
            final(self).pos() == old(self).pos() + batch_len(
                old(self).len() as usize,
                old(self).pos() as usize,
                celt,
            ),
    {
        let remaining = self.len - self.pos;
        let step = if (celt as usize) <= remaining {
            celt as usize
        } else {
            remaining
        };
        self.pos = self.pos + step;
    }

    /// `Reset`: back to the first entry.
    pub fn reset(&mut self)
        requires
            old(self).wf(),
        ensures
            final(self).wf(),
            final(self).len() == old(self).len(),
            final(self).pos() == 0,
    {
        self.pos = 0;
    }
}

/// `IEnumString` over a snapshot of item ids.
pub struct StringEnum {
    items: Vec<String>,
    cursor: EnumCursor,
}

impl StringEnum {
    /// The snapshot.
    pub closed spec fn items(&self) -> Seq<Seq<char>> {
        self.items@.map_values(|s: String| s@)
    }

    /// The enumerator's cursor.
    pub closed spec fn cursor(&self) -> EnumCursor {
        self.cursor
    }

    /// The cursor belongs to the snapshot.
    pub closed spec fn wf(&self) -> bool {
        &&& self.cursor.wf()
        &&& self.cursor.len() == self.items@.len()
    }

    /// An enumerator over `items`, at the first one.
    pub fn new(items: Vec<String>) -> (r: Self)
        ensures
            r.wf(),
            r.items() == items@.map_values(|s: String| s@),
            r.cursor().pos() == 0,
            r.cursor().len() == items.len(),
    {
        let len = items.len();
        StringEnum { items, cursor: EnumCursor::new(len) }
    }

    /// What `Next(celt)` would hand out, without moving.
    pub fn peek(&self, celt: u32) -> (r: NextBatch)
        requires
            self.wf(),
        ensures
            celt == 0 ==> r.hr == E_POINTER && r.count == 0,
            celt != 0 ==> r.count == batch_len(
                self.cursor().len() as usize,
                self.cursor().pos() as usize,
                celt,
            ) && r.hr == (if r.count == celt {
                S_OK
            } else {
                S_FALSE
            }),
            r.start == self.cursor().pos(),
            r.start + r.count <= self.items().len(),
    {
        self.cursor.peek(celt)
    }

    /// The snapshot entries `start .. start + count`.
    pub fn entries(&self, start: usize, count: usize) -> (r: Vec<String>)
        requires
            self.wf(),
            start + count <= self.items().len(),
        ensures
            r@.map_values(|s: String| s@) == self.items().subrange(start as int, start + count),
    {
        let mut r: Vec<String> = Vec::new();
        let mut i: usize = 0;
        let n = self.items.len();
        assert(self.items@.map_values(|s: String| s@).len() == n);
        while i < count
            invariant
                i <= count,
                n == self.items@.len(),
                start + count <= n,
                r@.len() == i,
                forall|j: int| 0 <= j < i ==> #[trigger] r@[j]@ == self.items@[start + j]@,
            decreases count - i,
        {
            let s = self.items[start + i].clone();
            r.push(s);
            i = i + 1;
        }
        assert(r@.map_values(|s: String| s@) =~= self.items@.map_values(|s: String| s@).subrange(
            start as int,
            start + count,
        ));
        r
    }

    /// Moves the cursor past `n` handed-out entries.
    pub fn advance(&mut self, n: usize)
        requires
            old(self).wf(),
            old(self).cursor().pos() + n <= old(self).cursor().len(),
        ensures
            final(self).wf(),
            final(self).items() == old(self).items(),
            final(self).cursor().len() == old(self).cursor().len(),
            final(self).cursor().pos() == old(self).cursor().pos() + n,
    {
        self.cursor.advance(n);
    }

    /// `Skip(celt)`.
    pub fn skip(&mut self, celt: u32)
        requires
            old(self).wf(),
        ensures
            final(self).wf(),
            final(self).items() == old(self).items(),
            final(self).cursor().len() == old(self).cursor().len(),
            final(self).cursor().pos() == old(self).cursor().pos() + batch_len(
                old(self).cursor().len() as usize,
                old(self).cursor().pos() as usize,
                celt,
            ),
    {
        self.cursor.skip(celt);
    }

    /// `Reset`.
    pub fn reset(&mut self)
        requires
            old(self).wf(),
        ensures
            final(self).wf(),
            final(self).items() == old(self).items(),
            final(self).cursor().pos() == 0,
    {
        self.cursor.reset();
    }

    /// `Clone`: the same snapshot at the same position.
    pub fn duplicate(&self) -> (r: Self)
        requires
            self.wf(),
        ensures
            r.wf(),
            r.items() == self.items(),
            r.cursor() == self.cursor(),
    {
        let mut items: Vec<String> = Vec::new();
        let mut i: usize = 0;
        while i < self.items.len()
            invariant
                i <= self.items@.len(),
                items@.len() == i,
                forall|j: int| 0 <= j < i ==> #[trigger] items@[j]@ == self.items@[j]@,
            decreases self.items.len() - i,
        {
            let s = self.items[i].clone();
            items.push(s);
            i = i + 1;
        }
        assert(items@.map_values(|s: String| s@) =~= self.items@.map_values(|s: String| s@));
        StringEnum { items, cursor: self.cursor }
    }
}

} // verus!
