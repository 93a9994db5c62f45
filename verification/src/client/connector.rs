//! The connector's settings (target host, optional DCOM credentials) and
//! the server list it builds from what server enumeration found.

use vstd::prelude::*;
use vstd::string::*;

use crate::client::types::ServerDesc;
use crate::server::guid::{guid_is_nil, is_nil_guid};
use crate::server::registry::{Guid, guid_text, push_guid};
use crate::text::{lemma_lex_order, lemma_lex_transitive, lex_lt, str_lt};

verus! {

/// Explicit DCOM credentials.
pub struct AuthCredentials {
    pub user: String,
    pub password: String,
    pub domain: String,
}

/// The credentials a connection form asks for: none when the user name is
/// missing or empty (the logged-in user is used), else the given user with
/// an empty password or domain where those are missing.
pub fn credentials_from(user: Option<String>, password: Option<String>, domain: Option<String>) -> (r:
    Option<AuthCredentials>)
    ensures
        r is None <==> (user is None || user->0@.len() == 0),
        r matches Some(c) ==> c.user@ == user->0@ && c.password@ == (match password {
            Some(p) => p@,
            None => Seq::<char>::empty(),
        }) && c.domain@ == (match domain {
            Some(d) => d@,
            None => Seq::<char>::empty(),
        }),
{
    match user {
        None => None,
        Some(u) => {
            if u.as_str().unicode_len() == 0 {
                None
            } else {
                let password = match password {
                    Some(p) => p,
                    None => String::new(),
                };
                let domain = match domain {
                    Some(d) => d,
                    None => String::new(),
                };
                Some(AuthCredentials { user: u, password, domain })
            }
        },
    }
}

/// Where and as whom the client connects.
pub struct ComConnector {
    host: String,
    credentials: Option<AuthCredentials>,
}

impl ComConnector {
    /// The target host.
    pub closed spec fn host_view(&self) -> Seq<char> {
        self.host@
    }

    /// The explicit credentials, if any.
    pub closed spec fn credentials(&self) -> Option<AuthCredentials> {
        self.credentials
    }

    /// A connector to `host` as the logged-in user.
    pub fn new(host: String) -> (r: Self)
        ensures
            r.host_view() == host@,
            r.credentials() is None,
    {
        ComConnector { host, credentials: None }
    }

    /// A connector to `host` with explicit credentials.
    pub fn with_credentials(host: String, credentials: AuthCredentials) -> (r: Self)
        ensures
            r.host_view() == host@,
            r.credentials() == Some(credentials),
    {
        ComConnector { host, credentials: Some(credentials) }
    }

    /// The target host.
    pub fn host(&self) -> (r: &str)
        ensures
            r@ == self.host_view(),
    {
        self.host.as_str()
    }

    /// The explicit credentials, if any.
    pub fn auth(&self) -> (r: &Option<AuthCredentials>)
        ensures
            *r == self.credentials(),
    {
        &self.credentials
    }
}

impl Default for ComConnector {
    /// A connector to `localhost` as the logged-in user.
    fn default() -> (r: Self)
        ensures
            r.host_view() == "localhost"@,
            r.credentials() is None,
    {
        ComConnector::new(String::from_str("localhost"))
    }
}

/// `r` is strictly increasing.
pub open spec fn strictly_sorted(r: Seq<Seq<char>>) -> bool {
    forall|i: int, j: int| 0 <= i < j < r.len() ==> lex_lt(#[trigger] r[i], #[trigger] r[j])
}

/// Inserts `s` into the strictly sorted `r` unless it is there already.
fn insert_sorted(r: &mut Vec<String>, s: String)
    requires
        strictly_sorted(old(r).deep_view()),
    ensures
        strictly_sorted(final(r).deep_view()),
        forall|x: Seq<char>| #[trigger] final(r).deep_view().contains(x) <==> (old(r).deep_view().contains(x)
            || x == s@),
{
    let ghost v = r.deep_view();
    let mut p: usize = 0;
    while p < r.len() && str_lt(r[p].as_str(), s.as_str())
        invariant
            p <= r@.len(),
            r.deep_view() == v,
            forall|i: int| 0 <= i < p ==> lex_lt(#[trigger] v[i], s@),
        decreases r.len() - p,
    {
        p = p + 1;
    }
    if p < r.len() && crate::text::str_eq(r[p].as_str(), s.as_str()) {
        assert(v[p as int] == s@);
        return;
    }
    proof {
        if p < v.len() {
            lemma_lex_order(v[p as int], s@);
            assert(lex_lt(s@, v[p as int]));
        }
    }
    let ghost sv = s@;
    r.insert(p, s);
    proof {
        assert(r.deep_view() =~= v.insert(p as int, sv));
        assert forall|i: int, j: int| 0 <= i < j < r.deep_view().len() implies lex_lt(
            #[trigger] r.deep_view()[i],
            #[trigger] r.deep_view()[j],
        ) by {
            let w = r.deep_view();
            if j < p {
            } else if j == p {
            } else if i < p {
                lemma_lex_transitive(w[i], sv, v[p as int]);
                if j - 1 > p {
                    lemma_lex_transitive(w[i], v[p as int], w[j]);
                }
            } else if i == p {
                if j - 1 > p {
                    lemma_lex_transitive(sv, v[p as int], w[j]);
                }
            } else {
            }
        }
        assert forall|x: Seq<char>| #[trigger] r.deep_view().contains(x) <==> (v.contains(x) || x == sv) by {
            let w = r.deep_view();
            if w.contains(x) {
                let k = choose|k: int| 0 <= k < w.len() && w[k] == x;
                if k < p {
                    assert(v[k] == x);
                } else if k > p {
                    assert(v[k - 1] == x);
                }
            }
            if v.contains(x) {
                let k = choose|k: int| 0 <= k < v.len() && v[k] == x;
                if k < p {
                    assert(w[k] == x);
                } else {
                    assert(w[k + 1] == x);
                }
            }
            if x == sv {
                assert(w[p as int] == x);
            }
        }
    }
}

/// The server list from the ProgIDs enumeration found: the non-empty ones,
/// sorted, without duplicates.
pub fn sorted_prog_ids(candidates: &Vec<String>) -> (r: Vec<String>)
    ensures
        strictly_sorted(r.deep_view()),
        forall|x: Seq<char>| #[trigger] r.deep_view().contains(x) <==> (candidates.deep_view().contains(x)
            && x.len() > 0),
{
    let mut r: Vec<String> = Vec::new();
    let mut i: usize = 0;
    assert(r.deep_view() =~= Seq::<Seq<char>>::empty());
    while i < candidates.len()
        invariant
            i <= candidates@.len(),
            strictly_sorted(r.deep_view()),
            forall|x: Seq<char>| #[trigger] r.deep_view().contains(x) <==> (candidates.deep_view().take(
                i as int,
            ).contains(x) && x.len() > 0),
        decreases candidates.len() - i,
    {
        let c = &candidates[i];
        assert(candidates.deep_view()[i as int] == c@);
        assert(candidates.deep_view().take(i + 1) =~= candidates.deep_view().take(i as int).push(c@));
        let ghost before = r.deep_view();
        let ghost seen = candidates.deep_view().take(i as int);
        if c.as_str().unicode_len() > 0 {
            insert_sorted(&mut r, c.clone());
        }
        proof {
            assert forall|x: Seq<char>| #[trigger] r.deep_view().contains(x) <==> (candidates.deep_view().take(
                i + 1,
            ).contains(x) && x.len() > 0) by {
                let t = candidates.deep_view().take(i + 1);
                if t.contains(x) && x.len() > 0 {
                    let k = choose|k: int| 0 <= k < t.len() && t[k] == x;
                    if k < i {
                        assert(seen[k] == x);
                        assert(before.contains(x));
                    }
                }
                if seen.contains(x) {
                    let k = choose|k: int| 0 <= k < seen.len() && seen[k] == x;
                    assert(t[k] == x);
                }
                if x == c@ {
                    assert(t[i as int] == x);
                }
            }
        }
        i = i + 1;
    }
    assert(candidates.deep_view().take(i as int) =~= candidates.deep_view());
    r
}

/// What enumeration learned of one server class: its CLSID, its ProgID and
/// its description (empty where unknown).
pub struct ClassDetails {
    pub clsid: Guid,
    pub prog_id: String,
    pub user_type: String,
}

/// The listing of one class: `(prog_id, clsid text, description)`, the
/// CLSID in lower-case hex without braces, an empty description omitted.
pub open spec fn server_desc_of(d: ClassDetails) -> (Seq<char>, Seq<char>, Option<Seq<char>>) {
    (d.prog_id@, guid_text(d.clsid, false), if d.user_type@.len() == 0 {
        None
    } else {
        Some(d.user_type@)
    })
}

/// A listing as a value.
pub open spec fn desc_view(s: ServerDesc) -> (Seq<char>, Seq<char>, Option<Seq<char>>) {
    (s.prog_id@, s.clsid@, match s.user_type {
        Some(u) => Some(u@),
        None => None,
    })
}

/// `s` is the listing of the first class in `ds[..n]` with its ProgID,
/// classes with the nil CLSID left out.
pub open spec fn listed_from_first(ds: Seq<ClassDetails>, n: int, s: ServerDesc) -> bool {
    exists|k: int|
        0 <= k < n && !is_nil_guid(ds[k].clsid) && desc_view(s) == server_desc_of(#[trigger] ds[k]) && forall|m: int|
            0 <= m < k && !is_nil_guid(ds[m].clsid) ==> (#[trigger] ds[m]).prog_id@ != ds[k].prog_id@
}

/// The listing of one class.
pub fn describe(d: &ClassDetails) -> (r: ServerDesc)
    ensures
        desc_view(r) == server_desc_of(*d),
{
    let mut clsid = String::new();
    push_guid(&mut clsid, &d.clsid, false);
    assert(clsid@ =~= guid_text(d.clsid, false));
    let user_type = if d.user_type.as_str().unicode_len() == 0 {
        None
    } else {
        Some(d.user_type.clone())
    };
    ServerDesc { prog_id: d.prog_id.clone(), clsid, user_type }
}

/// The prog ids of a list of listings.
pub open spec fn listing_ids(r: Seq<ServerDesc>) -> Seq<Seq<char>> {
    r.map_values(|s: ServerDesc| s.prog_id@)
}

/// Inserts the listing of `d` into `r`, sorted by ProgID, unless its
/// ProgID is empty or already listed.
fn insert_listing(r: &mut Vec<ServerDesc>, d: &ClassDetails)
    requires
        strictly_sorted(listing_ids(old(r)@)),
    ensures
        strictly_sorted(listing_ids(final(r)@)),
        forall|q: Seq<char>| #[trigger] listing_ids(final(r)@).contains(q) <==> (listing_ids(old(r)@).contains(q)
            || (q == d.prog_id@ && q.len() > 0)),
        forall|j: int|
            0 <= j < final(r)@.len() ==> old(r)@.contains(#[trigger] final(r)@[j]) || (desc_view(final(r)@[j])
                == server_desc_of(*d) && !listing_ids(old(r)@).contains(d.prog_id@) && d.prog_id@.len() > 0),
{
    let ghost pid = d.prog_id@;
    let ghost old_r = r@;
    let ghost v = listing_ids(r@);
    if d.prog_id.as_str().unicode_len() == 0 {
        assert forall|j: int| 0 <= j < r@.len() implies old_r.contains(#[trigger] r@[j]) by {
            assert(r@[j] == old_r[j]);
        }
        return;
    }
    let mut p: usize = 0;
    while p < r.len() && str_lt(r[p].prog_id.as_str(), d.prog_id.as_str())
        invariant
            p <= r@.len(),
            r@ == old_r,
            v == listing_ids(r@),
            pid == d.prog_id@,
            forall|k: int| 0 <= k < p ==> lex_lt(#[trigger] v[k], pid),
        decreases r.len() - p,
    {
        assert(v[p as int] == r@[p as int].prog_id@);
        p = p + 1;
    }
    if p < r.len() && crate::text::str_eq(r[p].prog_id.as_str(), d.prog_id.as_str()) {
        assert(v[p as int] == pid);
        assert forall|j: int| 0 <= j < r@.len() implies old_r.contains(#[trigger] r@[j]) by {
            assert(r@[j] == old_r[j]);
        }
        return;
    }
    proof {
        if p < v.len() {
            assert(v[p as int] == r@[p as int].prog_id@);
            lemma_lex_order(v[p as int], pid);
        }
        assert(!v.contains(pid)) by {
            if v.contains(pid) {
                let k = choose|k: int| 0 <= k < v.len() && v[k] == pid;
                if k < p {
                    lemma_lex_order(v[k], pid);
                } else if k > p {
                    lemma_lex_transitive(pid, v[p as int], v[k]);
                    lemma_lex_order(pid, pid);
                }
            }
        }
    }
    let desc = describe(d);
    r.insert(p, desc);
    proof {
        let w = listing_ids(r@);
        assert(w =~= v.insert(p as int, pid));
        assert forall|a: int, b: int| 0 <= a < b < w.len() implies lex_lt(#[trigger] w[a], #[trigger] w[b]) by {
            if b < p {
            } else if b == p {
            } else if a < p {
                lemma_lex_transitive(w[a], pid, v[p as int]);
                if b - 1 > p {
                    lemma_lex_transitive(w[a], v[p as int], w[b]);
                }
            } else if a == p {
                if b - 1 > p {
                    lemma_lex_transitive(pid, v[p as int], w[b]);
                }
            } else {
            }
        }
        assert forall|q: Seq<char>| #[trigger] w.contains(q) <==> (v.contains(q) || (q == pid && q.len() > 0)) by {
            if w.contains(q) {
                let k = choose|k: int| 0 <= k < w.len() && w[k] == q;
                if k < p {
                    assert(v[k] == q);
                } else if k > p {
                    assert(v[k - 1] == q);
                }
            }
            if v.contains(q) {
                let m = choose|m: int| 0 <= m < v.len() && v[m] == q;
                if m < p {
                    assert(w[m] == q);
                } else {
                    assert(w[m + 1] == q);
                }
            }
            if q == pid {
                assert(w[p as int] == q);
            }
        }
        assert forall|j: int| 0 <= j < r@.len() implies old_r.contains(#[trigger] r@[j])
            || (desc_view(r@[j]) == server_desc_of(*d) && !v.contains(pid) && pid.len() > 0) by {
            if j < p {
                assert(r@[j] == old_r[j]);
            } else if j > p {
                assert(r@[j] == old_r[j - 1]);
            }
        }
    }
}

/// The detailed server list: one listing per non-empty ProgID of a class
/// whose CLSID is not nil, taken from the first such class that has it,
/// sorted by ProgID.
pub fn sorted_server_list(details: &Vec<ClassDetails>) -> (r: Vec<ServerDesc>)
    ensures
        strictly_sorted(listing_ids(r@)),
        forall|p: Seq<char>| #[trigger] listing_ids(r@).contains(p) <==> (p.len() > 0 && exists|k: int|
            0 <= k < details@.len() && !is_nil_guid(details@[k].clsid) && (#[trigger] details@[k]).prog_id@ == p),
        forall|j: int| 0 <= j < r@.len() ==> listed_from_first(details@, details@.len() as int, #[trigger] r@[j]),
{
    let mut r: Vec<ServerDesc> = Vec::new();
    let mut i: usize = 0;
    assert(listing_ids(r@) =~= Seq::<Seq<char>>::empty());
    while i < details.len()
        invariant
            i <= details@.len(),
            strictly_sorted(listing_ids(r@)),
            forall|p: Seq<char>| #[trigger] listing_ids(r@).contains(p) <==> (p.len() > 0 && exists|k: int|
                0 <= k < i && !is_nil_guid(details@[k].clsid) && (#[trigger] details@[k]).prog_id@ == p),
            forall|j: int| 0 <= j < r@.len() ==> listed_from_first(details@, i as int, #[trigger] r@[j]),
        decreases details.len() - i,
    {
        let ghost old_r = r@;
        let ghost pid = details@[i as int].prog_id@;
        let nil = guid_is_nil(&details[i].clsid);
        if !nil {
            insert_listing(&mut r, &details[i]);
        }
        proof {
            assert forall|q: Seq<char>| #[trigger] listing_ids(r@).contains(q) <==> (q.len() > 0 && exists|k: int|
                0 <= k < i + 1 && !is_nil_guid(details@[k].clsid) && (#[trigger] details@[k]).prog_id@ == q) by {
                if q.len() > 0 && exists|k: int|
                    0 <= k < i + 1 && !is_nil_guid(details@[k].clsid) && (#[trigger] details@[k]).prog_id@ == q {
                    let k = choose|k: int|
                        0 <= k < i + 1 && !is_nil_guid(details@[k].clsid) && (#[trigger] details@[k]).prog_id@ == q;
                    if k < i {
                        assert(listing_ids(old_r).contains(q));
                    }
                }
                if listing_ids(old_r).contains(q) {
                    let k = choose|k: int|
                        0 <= k < i && !is_nil_guid(details@[k].clsid) && (#[trigger] details@[k]).prog_id@ == q;
                    assert(0 <= k < i + 1);
                }
            }
            assert forall|j: int| 0 <= j < r@.len() implies listed_from_first(details@, i + 1, #[trigger] r@[j]) by {
                if old_r.contains(r@[j]) {
                    let j0 = choose|j0: int| 0 <= j0 < old_r.len() && old_r[j0] == r@[j];
                    assert(listed_from_first(details@, i as int, old_r[j0]));
                    let k = choose|k: int|
                        0 <= k < i && !is_nil_guid(details@[k].clsid) && desc_view(old_r[j0]) == server_desc_of(
                            #[trigger] details@[k],
                        ) && forall|m: int|
                            0 <= m < k && !is_nil_guid(details@[m].clsid) ==> (#[trigger] details@[m]).prog_id@
                                != details@[k].prog_id@;
                    assert(desc_view(r@[j]) == server_desc_of(details@[k]));
                } else {
                    assert forall|m: int| 0 <= m < i && !is_nil_guid(details@[m].clsid) implies (
                    #[trigger] details@[m]).prog_id@ != pid by {
                        if details@[m].prog_id@ == pid {
                            assert(listing_ids(old_r).contains(pid));
                        }
                    }
                    assert(desc_view(r@[j]) == server_desc_of(details@[i as int]));
                }
            }
        }
        i = i + 1;
    }
    r
}

/// The error of a server capability the backend does not offer:
/// `NotImplemented("<operation> not supported")`.
pub fn not_supported(operation: &str) -> (e: crate::client::types::OpcError)
    ensures
        e matches crate::client::types::OpcError::NotImplemented(m) && m@ == operation@ + " not supported"@,
{
    let mut m = String::from_str(operation);
    m.append(" not supported");
    crate::client::types::OpcError::NotImplemented(m)
}

/// The detailed list of a backend that only knows ProgIDs: each with an
/// empty CLSID and no description, in the given order.
pub fn plain_server_descs(prog_ids: Vec<String>) -> (r: Vec<ServerDesc>)
    ensures
        r@.len() == prog_ids@.len(),
        forall|i: int| 0 <= i < r@.len() ==> #[trigger] desc_view(r@[i]) == (
            prog_ids@[i]@,
            Seq::<char>::empty(),
            None::<Seq<char>>,
        ),
{
    let ghost original = prog_ids@;
    let mut rest = prog_ids;
    let mut r: Vec<ServerDesc> = Vec::new();
    while rest.len() > 0
        invariant
            r@.len() + rest@.len() == original.len(),
            rest@ == original.skip(r@.len() as int),
            forall|i: int| 0 <= i < r@.len() ==> #[trigger] desc_view(r@[i]) == (
                original[i]@,
                Seq::<char>::empty(),
                None::<Seq<char>>,
            ),
        decreases rest@.len(),
    {
        let p = rest.remove(0);
        assert(p == original[r@.len() as int]);
        r.push(ServerDesc { prog_id: p, clsid: String::new(), user_type: None });
        assert(rest@ =~= original.skip(r@.len() as int));
    }
    r
}

/// How the server-list enumerator is created.
#[derive(PartialEq, Eq, Structural)]
pub enum Activation {
    /// In this process's machine, with `CoCreateInstance`.
    Local,
    /// Through DCOM on the named host; explicit credentials only when a user
    /// name was given (else the logged-in user).
    Remote { explicit_credentials: bool },
}

/// The activation of the server-list enumerator for `host` (`None` or an
/// empty name: this machine; any other name, `localhost` included: DCOM)
/// and user name `user`.
pub fn server_list_activation(host: &Option<String>, user: &str) -> (a: Activation)
    ensures
        (host is None || host->0@.len() == 0) ==> a == Activation::Local,
        (host is Some && host->0@.len() > 0) ==> a == (Activation::Remote { explicit_credentials: user@.len() > 0 }),
{
    match host {
        Some(h) => {
            if h.as_str().unicode_len() == 0 {
                Activation::Local
            } else {
                Activation::Remote { explicit_credentials: user.unicode_len() > 0 }
            }
        },
        None => Activation::Local,
    }
}

} // verus!
