//! COM registration: which registry keys `/RegServer` writes and which
//! subtrees `/UnregServer` deletes, the braced CLSID text the registry
//! uses, and the UTF-16 form of the strings handed to the registry API.

use vstd::prelude::*;
use vstd::string::*;

verus! {

/// A COM GUID by its fields.
pub struct Guid {
    pub data1: u32,
    pub data2: u16,
    pub data3: u16,
    pub data4: [u8; 8],
}

/// Hex digit `d` (`d < 16`), upper or lower case.
pub open spec fn hex_char(d: nat, upper: bool) -> char {
    if d < 10 {
        (('0' as nat) + d) as char
    } else if upper {
        (('A' as nat) + d - 10) as char
    } else {
        (('a' as nat) + d - 10) as char
    }
}

/// The last `width` hex digits of `n`, most significant first (zero padded).
pub open spec fn hex_text(n: nat, width: nat, upper: bool) -> Seq<char>
    decreases width,
{
    if width == 0 {
        Seq::empty()
    } else {
        hex_text(n / 16, (width - 1) as nat, upper).push(hex_char(n % 16, upper))
    }
}

/// The canonical text of `g`: `XXXXXXXX-XXXX-XXXX-XXXX-XXXXXXXXXXXX`.
pub open spec fn guid_text(g: Guid, upper: bool) -> Seq<char> {
    let d = g.data4@;
    hex_text(g.data1 as nat, 8, upper) + seq!['-'] + hex_text(g.data2 as nat, 4, upper) + seq!['-']
        + hex_text(g.data3 as nat, 4, upper) + seq!['-'] + hex_text(d[0] as nat, 2, upper)
        + hex_text(d[1] as nat, 2, upper) + seq!['-'] + hex_text(d[2] as nat, 2, upper) + hex_text(
        d[3] as nat,
        2,
        upper,
    ) + hex_text(d[4] as nat, 2, upper) + hex_text(d[5] as nat, 2, upper) + hex_text(
        d[6] as nat,
        2,
        upper,
    ) + hex_text(d[7] as nat, 2, upper)
}

/// The registry form of a GUID: upper case, in braces.
pub open spec fn clsid_text(g: Guid) -> Seq<char> {
    seq!['{'] + guid_text(g, true) + seq!['}']
}

/// The one-character string of hex digit `d`.
fn hex_str(d: u64, upper: bool) -> (r: &'static str)
    requires
        d < 16,
    ensures
        r@ == seq![hex_char(d as nat, upper)],
{
    proof {
        reveal_strlit("0");
        reveal_strlit("1");
        reveal_strlit("2");
        reveal_strlit("3");
        reveal_strlit("4");
        reveal_strlit("5");
        reveal_strlit("6");
        reveal_strlit("7");
        reveal_strlit("8");
        reveal_strlit("9");
        reveal_strlit("A");
        reveal_strlit("B");
        reveal_strlit("C");
        reveal_strlit("D");
        reveal_strlit("E");
        reveal_strlit("F");
        reveal_strlit("a");
        reveal_strlit("b");
        reveal_strlit("c");
        reveal_strlit("d");
        reveal_strlit("e");
        reveal_strlit("f");
    }
    let r = if d == 0 {
        "0"
    } else if d == 1 {
        "1"
    } else if d == 2 {
        "2"
    } else if d == 3 {
        "3"
    } else if d == 4 {
        "4"
    } else if d == 5 {
        "5"
    } else if d == 6 {
        "6"
    } else if d == 7 {
        "7"
    } else if d == 8 {
        "8"
    } else if d == 9 {
        "9"
    } else if upper {
        if d == 10 {
            "A"
        } else if d == 11 {
            "B"
        } else if d == 12 {
            "C"
        } else if d == 13 {
            "D"
        } else if d == 14 {
            "E"
        } else {
            "F"
        }
    } else {
        if d == 10 {
            "a"
        } else if d == 11 {
            "b"
        } else if d == 12 {
            "c"
        } else if d == 13 {
            "d"
        } else if d == 14 {
            "e"
        } else {
            "f"
        }
    };
    assert(r@ =~= seq![hex_char(d as nat, upper)]);
    r
}

/// Appends the last `width` hex digits of `n` to `out`.
pub fn push_hex(out: &mut String, n: u64, width: usize, upper: bool)
    ensures
        final(out)@ == old(out)@ + hex_text(n as nat, width as nat, upper),
    decreases width,
{
    if width == 0 {
        assert(out@ =~= old(out)@ + hex_text(n as nat, 0, upper));
        return;
    }
    push_hex(out, n / 16, width - 1, upper);
    out.append(hex_str(n % 16, upper));
    assert(out@ =~= old(out)@ + hex_text(n as nat, width as nat, upper));
}

/// Appends the canonical text of `g` to `out`.
pub fn push_guid(out: &mut String, g: &Guid, upper: bool)
    ensures
        final(out)@ == old(out)@ + guid_text(*g, upper),
{
    push_hex(out, g.data1 as u64, 8, upper);
    out.append("-");
    push_hex(out, g.data2 as u64, 4, upper);
    out.append("-");
    push_hex(out, g.data3 as u64, 4, upper);
    out.append("-");
    push_hex(out, g.data4[0] as u64, 2, upper);
    push_hex(out, g.data4[1] as u64, 2, upper);
    out.append("-");
    push_hex(out, g.data4[2] as u64, 2, upper);
    push_hex(out, g.data4[3] as u64, 2, upper);
    push_hex(out, g.data4[4] as u64, 2, upper);
    push_hex(out, g.data4[5] as u64, 2, upper);
    push_hex(out, g.data4[6] as u64, 2, upper);
    push_hex(out, g.data4[7] as u64, 2, upper);
    proof {
        reveal_strlit("-");
    }
    assert(out@ =~= old(out)@ + guid_text(*g, upper));
}

/// `{XXXXXXXX-XXXX-XXXX-XXXX-XXXXXXXXXXXX}`: the registry's CLSID / AppID form.
pub fn clsid_string(g: &Guid) -> (r: String)
    ensures
        r@ == clsid_text(*g),
{
    let mut out = String::from_str("{");
    push_guid(&mut out, g, true);
    out.append("}");
    proof {
        reveal_strlit("{");
        reveal_strlit("}");
    }
    assert(out@ =~= clsid_text(*g));
    out
}

/// The UTF-16 code units of character `c`.
pub open spec fn utf16_units(c: char) -> Seq<u16> {
    let v = c as nat;
    if v < 0x10000 {
        seq![v as u16]
    } else {
        let w = (v - 0x10000) as nat;
        seq![(0xD800 + w / 0x400) as u16, (0xDC00 + w % 0x400) as u16]
    }
}

/// The UTF-16 encoding of `s`.
pub open spec fn utf16(s: Seq<char>) -> Seq<u16>
    decreases s.len(),
{
    if s.len() == 0 {
        Seq::empty()
    } else {
        utf16(s.drop_last()) + utf16_units(s.last())
    }
}

/// `s` as a NUL-terminated UTF-16 string.
pub fn wide(s: &str) -> (r: Vec<u16>)
    ensures
        r@ == utf16(s@).push(0u16),
{
    let n = s.unicode_len();
    let mut r: Vec<u16> = Vec::new();
    let mut i: usize = 0;
    while i < n
        invariant
            i <= n,
            n == s@.len(),
            r@ == utf16(s@.take(i as int)),
        decreases n - i,
    {
        let c = s.get_char(i);
        let v: u32 = c as u32;
        proof {
            assert(s@.take(i + 1).drop_last() =~= s@.take(i as int));
        }
        if v < 0x10000 {
            r.push(v as u16);
        } else {
            let w: u32 = v - 0x10000;
            r.push((0xD800 + w / 0x400) as u16);
            r.push((0xDC00 + w % 0x400) as u16);
        }
        i = i + 1;
        assert(r@ =~= utf16(s@.take(i as int)));
    }
    r.push(0u16);
    assert(s@.take(n as int) =~= s@);
    r
}

/// What `/RegServer` registers and `/UnregServer` removes.
pub struct ServerRegistration {
    pub clsid: Guid,
    /// ProgID with version, such as `vendor.Server.1`.
    pub prog_id: String,
    /// ProgID without version.
    pub version_independent_prog_id: String,
    /// The executable's full path.
    pub exe_path: String,
    /// Implemented categories.
    pub catids: Vec<Guid>,
    /// DCOM application id.
    pub app_id: Guid,
    /// Human-readable server description.
    pub description: String,
}

/// The `(subkey under HKCR, default value)` pairs `/RegServer` writes, in order.
pub open spec fn registration_spec(
    clsid: Guid,
    prog_id: Seq<char>,
    vi_prog_id: Seq<char>,
    exe: Seq<char>,
    catids: Seq<Guid>,
    app_id: Guid,
    description: Seq<char>,
) -> Seq<(Seq<char>, Seq<char>)> {
    let c = "CLSID\\"@ + clsid_text(clsid);
    let head = seq![
        (c, description),
        (c + "\\LocalServer32"@, exe),
        (c + "\\ProgID"@, prog_id),
        (c + "\\VersionIndependentProgID"@, vi_prog_id),
    ];
    let cats = catids.map_values(
        |g: Guid| (c + "\\Implemented Categories\\"@ + clsid_text(g), Seq::<char>::empty()),
    );
    let a = clsid_text(app_id);
    let tail = seq![
        (prog_id, description),
        (prog_id + "\\CLSID"@, clsid_text(clsid)),
        (prog_id + "\\CurVer"@, vi_prog_id),
        (prog_id + "\\OPC"@, Seq::<char>::empty()),
        (vi_prog_id, description),
        (vi_prog_id + "\\CLSID"@, clsid_text(clsid)),
        (vi_prog_id + "\\CurVer"@, prog_id),
        ("AppID\\"@ + a, vi_prog_id),
        (c + "\\AppID"@, a),
    ];
    head + cats + tail
}

/// A string made of `a` followed by `b`.
fn joined(a: &str, b: &str) -> (r: String)
    ensures
        r@ == a@ + b@,
{
    let mut s = String::from_str(a);
    s.append(b);
    s
}

/// Pairs of strings as values.
pub open spec fn pair_views(v: Seq<(String, String)>) -> Seq<(Seq<char>, Seq<char>)> {
    v.map_values(|p: (String, String)| (p.0@, p.1@))
}

impl ServerRegistration {
    /// The `(subkey under HKCR, default value)` pairs `/RegServer` writes,
    /// in the order it writes them; each goes to both registry views.
    pub fn registration_entries(&self) -> (r: Vec<(String, String)>)
        ensures
            pair_views(r@) == registration_spec(
                self.clsid,
                self.prog_id@,
                self.version_independent_prog_id@,
                self.exe_path@,
                self.catids@,
                self.app_id,
                self.description@,
            ),
    {
        let clsid = clsid_string(&self.clsid);
        let c = joined("CLSID\\", clsid.as_str());
        let appid = clsid_string(&self.app_id);
        let mut r: Vec<(String, String)> = Vec::new();
        r.push((c.clone(), self.description.clone()));
        r.push((joined(c.as_str(), "\\LocalServer32"), self.exe_path.clone()));
        r.push((joined(c.as_str(), "\\ProgID"), self.prog_id.clone()));
        r.push((joined(c.as_str(), "\\VersionIndependentProgID"), self.version_independent_prog_id.clone()));
        let ghost head = r@;
        let mut i: usize = 0;
        while i < self.catids.len()
            invariant
                i <= self.catids@.len(),
                head.len() == 4,
                r@.len() == 4 + i,
                c@ == "CLSID\\"@ + clsid_text(self.clsid),
                forall|j: int| 0 <= j < 4 ==> #[trigger] r@[j] == head[j],
                forall|j: int|
                    0 <= j < i ==> (#[trigger] r@[4 + j]).0@ == c@ + "\\Implemented Categories\\"@
                        + clsid_text(self.catids@[j]) && r@[4 + j].1@ == Seq::<char>::empty(),
            decreases self.catids.len() - i,
        {
            let cat = clsid_string(&self.catids[i]);
            let key = joined(joined(c.as_str(), "\\Implemented Categories\\").as_str(), cat.as_str());
            r.push((key, String::new()));
            i = i + 1;
        }
        r.push((self.prog_id.clone(), self.description.clone()));
        r.push((joined(self.prog_id.as_str(), "\\CLSID"), clsid.clone()));
        r.push((joined(self.prog_id.as_str(), "\\CurVer"), self.version_independent_prog_id.clone()));
        r.push((joined(self.prog_id.as_str(), "\\OPC"), String::new()));
        r.push((self.version_independent_prog_id.clone(), self.description.clone()));
        r.push((joined(self.version_independent_prog_id.as_str(), "\\CLSID"), clsid.clone()));
        r.push((joined(self.version_independent_prog_id.as_str(), "\\CurVer"), self.prog_id.clone()));
        r.push((joined("AppID\\", appid.as_str()), self.version_independent_prog_id.clone()));
        r.push((joined(c.as_str(), "\\AppID"), appid.clone()));
        let ghost spec = registration_spec(
            self.clsid,
            self.prog_id@,
            self.version_independent_prog_id@,
            self.exe_path@,
            self.catids@,
            self.app_id,
            self.description@,
        );
        let ghost n = self.catids@.len() as int;
        assert(spec.len() == r@.len());
        assert forall|k: int| 0 <= k < r@.len() implies #[trigger] pair_views(r@)[k] == spec[k] by {
            if k < 4 {
            } else if k < 4 + n {
                assert(r@[4 + (k - 4)] == r@[k]);
            } else {
            }
        }
        assert(pair_views(r@) =~= spec);
        r
    }

    /// The HKCR subtrees `/UnregServer` deletes, in order: the CLSID key,
    /// both ProgIDs and the AppID key, each in the 64-bit view and then
    /// under `WOW6432Node`.
    pub fn unregistration_paths(&self) -> (r: Vec<String>)
        ensures
            r@.map_values(|s: String| s@) == unregistration_spec(
                self.clsid,
                self.prog_id@,
                self.version_independent_prog_id@,
                self.app_id,
            ),
    {
        let c = joined("CLSID\\", clsid_string(&self.clsid).as_str());
        let a = joined("AppID\\", clsid_string(&self.app_id).as_str());
        let mut r: Vec<String> = Vec::new();
        r.push(c.clone());
        r.push(joined("WOW6432Node\\", c.as_str()));
        r.push(self.prog_id.clone());
        r.push(joined("WOW6432Node\\", self.prog_id.as_str()));
        r.push(self.version_independent_prog_id.clone());
        r.push(joined("WOW6432Node\\", self.version_independent_prog_id.as_str()));
        r.push(a.clone());
        r.push(joined("WOW6432Node\\", a.as_str()));
        assert(r@.map_values(|s: String| s@) =~= unregistration_spec(
            self.clsid,
            self.prog_id@,
            self.version_independent_prog_id@,
            self.app_id,
        ));
        r
    }
}

/// The class points at its own AppID: `/RegServer` writes, under
/// `CLSID\{clsid}\AppID`, the braced text of `app_id`, and writes the key
/// `AppID\{app_id}` that this value names.
pub proof fn lemma_class_names_its_app_id(
    clsid: Guid,
    prog_id: Seq<char>,
    vi_prog_id: Seq<char>,
    exe: Seq<char>,
    catids: Seq<Guid>,
    app_id: Guid,
    description: Seq<char>,
)
    ensures
        exists|k: int, j: int|
            0 <= k < registration_spec(clsid, prog_id, vi_prog_id, exe, catids, app_id, description).len() && 0 <= j
                < registration_spec(clsid, prog_id, vi_prog_id, exe, catids, app_id, description).len() && (
            #[trigger] registration_spec(clsid, prog_id, vi_prog_id, exe, catids, app_id, description)[k]).0
                == "CLSID\\"@ + clsid_text(clsid) + "\\AppID"@ && registration_spec(
                clsid,
                prog_id,
                vi_prog_id,
                exe,
                catids,
                app_id,
                description,
            )[k].1 == clsid_text(app_id) && (#[trigger] registration_spec(
                clsid,
                prog_id,
                vi_prog_id,
                exe,
                catids,
                app_id,
                description,
            )[j]).0 == "AppID\\"@ + clsid_text(app_id),
{
    let spec = registration_spec(clsid, prog_id, vi_prog_id, exe, catids, app_id, description);
    let k = spec.len() - 1;
    let j = spec.len() - 2;
    assert(spec[k].0 == "CLSID\\"@ + clsid_text(clsid) + "\\AppID"@);
    assert(spec[k].1 == clsid_text(app_id));
    assert(spec[j].0 == "AppID\\"@ + clsid_text(app_id));
}

/// `entries` writes `value` under `key`.
pub open spec fn writes_value(entries: Seq<(Seq<char>, Seq<char>)>, key: Seq<char>, value: Seq<char>) -> bool {
    exists|k: int| 0 <= k < entries.len() && #[trigger] entries[k] == (key, value)
}

/// The keys `/RegServer` writes point at one another: the class names its
/// server executable, both ProgIDs and every category; each ProgID names
/// the class; the versioned ProgID's `CurVer` names the version-independent
/// one and back; and each top key holds the description.
pub proof fn lemma_registration_cross_references(
    clsid: Guid,
    prog_id: Seq<char>,
    vi_prog_id: Seq<char>,
    exe: Seq<char>,
    catids: Seq<Guid>,
    app_id: Guid,
    description: Seq<char>,
)
    ensures
        ({
            let e = registration_spec(clsid, prog_id, vi_prog_id, exe, catids, app_id, description);
            let c = "CLSID\\"@ + clsid_text(clsid);
            &&& writes_value(e, c, description)
            &&& writes_value(e, c + "\\LocalServer32"@, exe)
            &&& writes_value(e, c + "\\ProgID"@, prog_id)
            &&& writes_value(e, c + "\\VersionIndependentProgID"@, vi_prog_id)
            &&& forall|g: int| 0 <= g < catids.len() ==> writes_value(
                e,
                c + "\\Implemented Categories\\"@ + clsid_text(#[trigger] catids[g]),
                Seq::empty(),
            )
            &&& writes_value(e, prog_id, description)
            &&& writes_value(e, prog_id + "\\CLSID"@, clsid_text(clsid))
            &&& writes_value(e, prog_id + "\\CurVer"@, vi_prog_id)
            &&& writes_value(e, vi_prog_id, description)
            &&& writes_value(e, vi_prog_id + "\\CLSID"@, clsid_text(clsid))
            &&& writes_value(e, vi_prog_id + "\\CurVer"@, prog_id)
        }),
{
    let e = registration_spec(clsid, prog_id, vi_prog_id, exe, catids, app_id, description);
    let c = "CLSID\\"@ + clsid_text(clsid);
    let n = catids.len() as int;
    assert(e[0] == (c, description));
    assert(e[1] == (c + "\\LocalServer32"@, exe));
    assert(e[2] == (c + "\\ProgID"@, prog_id));
    assert(e[3] == (c + "\\VersionIndependentProgID"@, vi_prog_id));
    assert forall|g: int| 0 <= g < catids.len() implies writes_value(
        e,
        c + "\\Implemented Categories\\"@ + clsid_text(#[trigger] catids[g]),
        Seq::empty(),
    ) by {
        assert(e[4 + g] == (c + "\\Implemented Categories\\"@ + clsid_text(catids[g]), Seq::<char>::empty()));
    }
    assert(e[4 + n] == (prog_id, description));
    assert(e[5 + n] == (prog_id + "\\CLSID"@, clsid_text(clsid)));
    assert(e[6 + n] == (prog_id + "\\CurVer"@, vi_prog_id));
    assert(e[8 + n] == (vi_prog_id, description));
    assert(e[9 + n] == (vi_prog_id + "\\CLSID"@, clsid_text(clsid)));
    assert(e[10 + n] == (vi_prog_id + "\\CurVer"@, prog_id));
}

/// `key` is `root` or one of its subkeys (`root\...`).
pub open spec fn in_subtree(root: Seq<char>, key: Seq<char>) -> bool {
    key == root || (key.len() > root.len() && key.take(root.len() as int) == root && key[root.len() as int] == '\\')
}

/// `key` lies in one of the subtrees `paths`.
pub open spec fn covered_by(paths: Seq<Seq<char>>, key: Seq<char>) -> bool {
    exists|p: int| 0 <= p < paths.len() && in_subtree(#[trigger] paths[p], key)
}

/// The 32-bit view of HKCR subkey `key`.
pub open spec fn wow_key(key: Seq<char>) -> Seq<char> {
    "WOW6432Node\\"@ + key
}

/// HKCR, modelled as its keys' default values by key path (the 32-bit
/// view under `WOW6432Node\`), after writing `entries` in order, each in
/// both views.
pub open spec fn written(hkcr: Map<Seq<char>, Seq<char>>, entries: Seq<(Seq<char>, Seq<char>)>) -> Map<
    Seq<char>,
    Seq<char>,
>
    decreases entries.len(),
{
    if entries.len() == 0 {
        hkcr
    } else {
        let (k, v) = entries.last();
        written(hkcr, entries.drop_last()).insert(k, v).insert(wow_key(k), v)
    }
}

/// HKCR after deleting the subtrees `paths`; a subtree that is absent is
/// no error, it simply removes nothing.
pub open spec fn deleted(hkcr: Map<Seq<char>, Seq<char>>, paths: Seq<Seq<char>>) -> Map<Seq<char>, Seq<char>> {
    Map::new(|k: Seq<char>| hkcr.contains_key(k) && !covered_by(paths, k), |k: Seq<char>| hkcr[k])
}

/// A key below `root` by `suffix`, which starts with a backslash, lies in
/// the subtree of `root`.
proof fn lemma_child_in_subtree(root: Seq<char>, suffix: Seq<char>)
    requires
        suffix.len() > 0,
        suffix[0] == '\\',
    ensures
        in_subtree(root, root + suffix),
{
    assert((root + suffix).take(root.len() as int) =~= root);
}

/// The 32-bit copy of a key in a subtree lies in the 32-bit copy of the
/// subtree.
proof fn lemma_wow_in_subtree(root: Seq<char>, key: Seq<char>)
    requires
        in_subtree(root, key),
    ensures
        in_subtree(wow_key(root), wow_key(key)),
{
    let w = "WOW6432Node\\"@;
    if key != root {
        assert((w + key).take((w + root).len() as int) =~= w + root);
        assert((w + key)[(w + root).len() as int] == key[root.len() as int]);
    }
}

/// Every key `/RegServer` writes, in either view, lies in one of the
/// subtrees `/UnregServer` deletes.
#[verifier::rlimit(40)]
pub proof fn lemma_unregister_covers_register(
    clsid: Guid,
    prog_id: Seq<char>,
    vi_prog_id: Seq<char>,
    exe: Seq<char>,
    catids: Seq<Guid>,
    app_id: Guid,
    description: Seq<char>,
)
    ensures
        forall|k: int|
            0 <= k < registration_spec(clsid, prog_id, vi_prog_id, exe, catids, app_id, description).len()
                ==> covered_by(
                unregistration_spec(clsid, prog_id, vi_prog_id, app_id),
                (#[trigger] registration_spec(clsid, prog_id, vi_prog_id, exe, catids, app_id, description)[k]).0,
            ) && covered_by(
                unregistration_spec(clsid, prog_id, vi_prog_id, app_id),
                wow_key(registration_spec(clsid, prog_id, vi_prog_id, exe, catids, app_id, description)[k].0),
            ),
{
    reveal_strlit("\\LocalServer32");
    reveal_strlit("\\ProgID");
    reveal_strlit("\\VersionIndependentProgID");
    reveal_strlit("\\Implemented Categories\\");
    reveal_strlit("\\CLSID");
    reveal_strlit("\\CurVer");
    reveal_strlit("\\OPC");
    reveal_strlit("\\AppID");
    assert forall|k: int|
        0 <= k < registration_spec(clsid, prog_id, vi_prog_id, exe, catids, app_id, description).len()
            implies covered_by(
            unregistration_spec(clsid, prog_id, vi_prog_id, app_id),
            (#[trigger] registration_spec(clsid, prog_id, vi_prog_id, exe, catids, app_id, description)[k]).0,
        ) && covered_by(
            unregistration_spec(clsid, prog_id, vi_prog_id, app_id),
            wow_key(registration_spec(clsid, prog_id, vi_prog_id, exe, catids, app_id, description)[k].0),
        ) by {
        let spec = registration_spec(clsid, prog_id, vi_prog_id, exe, catids, app_id, description);
        let paths = unregistration_spec(clsid, prog_id, vi_prog_id, app_id);
        let c = "CLSID\\"@ + clsid_text(clsid);
        let a = "AppID\\"@ + clsid_text(app_id);
        let n = catids.len() as int;
        let key = spec[k].0;
        let p: int = if k < 4 + n || k == spec.len() - 1 {
            0
        } else if k < 8 + n {
            2
        } else if k < 11 + n {
            4
        } else {
            6
        };
        if k == 0 {
        } else if k == 1 {
            lemma_child_in_subtree(c, "\\LocalServer32"@);
        } else if k == 2 {
            lemma_child_in_subtree(c, "\\ProgID"@);
        } else if k == 3 {
            lemma_child_in_subtree(c, "\\VersionIndependentProgID"@);
        } else if k < 4 + n {
            let g = catids[k - 4];
            let suffix = "\\Implemented Categories\\"@ + clsid_text(g);
            assert(key == c + "\\Implemented Categories\\"@ + clsid_text(g));
            assert(key =~= c + suffix);
            lemma_child_in_subtree(c, suffix);
        } else if k == spec.len() - 1 {
            lemma_child_in_subtree(c, "\\AppID"@);
        } else if k == 4 + n {
        } else if k == 5 + n {
            lemma_child_in_subtree(prog_id, "\\CLSID"@);
        } else if k == 6 + n {
            lemma_child_in_subtree(prog_id, "\\CurVer"@);
        } else if k == 7 + n {
            lemma_child_in_subtree(prog_id, "\\OPC"@);
        } else if k == 8 + n {
        } else if k == 9 + n {
            lemma_child_in_subtree(vi_prog_id, "\\CLSID"@);
        } else if k == 10 + n {
            lemma_child_in_subtree(vi_prog_id, "\\CurVer"@);
        } else {
            assert(key == a);
        }
        assert(in_subtree(paths[p], key));
        lemma_wow_in_subtree(paths[p], key);
        assert(paths[p + 1] == wow_key(paths[p]));
        assert(in_subtree(paths[p + 1], wow_key(key)));
    }
}

/// After `/RegServer` and then `/UnregServer`, no key the registration
/// wrote remains in either view, whatever HKCR held before; nothing
/// remains under the deleted subtrees; and a second `/UnregServer`
/// finds nothing more to delete.
pub proof fn lemma_register_then_unregister(
    hkcr: Map<Seq<char>, Seq<char>>,
    clsid: Guid,
    prog_id: Seq<char>,
    vi_prog_id: Seq<char>,
    exe: Seq<char>,
    catids: Seq<Guid>,
    app_id: Guid,
    description: Seq<char>,
)
    ensures
        ({
            let entries = registration_spec(clsid, prog_id, vi_prog_id, exe, catids, app_id, description);
            let paths = unregistration_spec(clsid, prog_id, vi_prog_id, app_id);
            let after = deleted(written(hkcr, entries), paths);
            &&& forall|k: int|
                0 <= k < entries.len() ==> !after.contains_key(#[trigger] entries[k].0) && !after.contains_key(
                    wow_key(entries[k].0),
                )
            &&& forall|key: Seq<char>| covered_by(paths, key) ==> !#[trigger] after.contains_key(key)
            &&& deleted(after, paths) == after
        }),
{
    lemma_unregister_covers_register(clsid, prog_id, vi_prog_id, exe, catids, app_id, description);
    let entries = registration_spec(clsid, prog_id, vi_prog_id, exe, catids, app_id, description);
    let paths = unregistration_spec(clsid, prog_id, vi_prog_id, app_id);
    let after = deleted(written(hkcr, entries), paths);
    assert(deleted(after, paths) =~= after);
}

/// The subtrees `/UnregServer` deletes, each in both views.
pub open spec fn unregistration_spec(clsid: Guid, prog_id: Seq<char>, vi_prog_id: Seq<char>, app_id: Guid) -> Seq<Seq<char>> {
    let c = "CLSID\\"@ + clsid_text(clsid);
    let a = "AppID\\"@ + clsid_text(app_id);
    let w = "WOW6432Node\\"@;
    seq![c, w + c, prog_id, w + prog_id, vi_prog_id, w + vi_prog_id, a, w + a]
}

} // verus!
