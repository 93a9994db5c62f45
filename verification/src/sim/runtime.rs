//! The simulation server's identity and start-up settings: its COM
//! registration and how many instances of each tag type it serves.

use vstd::prelude::*;
use vstd::string::*;

use crate::server::registry::{Guid, ServerRegistration};
use crate::text::{parse_unsigned, parse_usize, split_by, split_on, starts_with, trim, trim_start, trimmed, trimmed_start};

verus! {

/// The simulation server's CLSID, also its AppID:
/// `{B1C2D3E4-F5A6-0718-293A-4B5C5D6E7F80}`.
pub open spec fn sim_clsid() -> Guid {
    Guid { data1: 0xb1c2d3e4, data2: 0xf5a6, data3: 0x0718, data4: [0x29, 0x3a, 0x4b, 0x5c, 0x5d, 0x6e, 0x7f, 0x80] }
}

/// The CLSID of the simulation server.
pub fn clsid_opc_da_sim() -> (g: Guid)
    ensures
        g == sim_clsid(),
{
    Guid { data1: 0xb1c2d3e4, data2: 0xf5a6, data3: 0x0718, data4: [0x29, 0x3a, 0x4b, 0x5c, 0x5d, 0x6e, 0x7f, 0x80] }
}

/// The OPC DA 1.0, 2.0 and 3.0 server categories.
pub open spec fn opc_da_catids() -> Seq<Guid> {
    seq![
        Guid { data1: 0x63d5f430, data2: 0xcfe4, data3: 0x11d1, data4: [0xb2, 0xc8, 0x00, 0x60, 0x08, 0x3b, 0xa1, 0xfb] },
        Guid { data1: 0x63d5f432, data2: 0xcfe4, data3: 0x11d1, data4: [0xb2, 0xc8, 0x00, 0x60, 0x08, 0x3b, 0xa1, 0xfb] },
        Guid { data1: 0xcc603642, data2: 0x66d7, data3: 0x48f1, data4: [0xb6, 0x9a, 0xb6, 0x25, 0xe7, 0x36, 0x52, 0xd7] },
    ]
}

/// The registration of the simulation server whose executable is `exe_path`.
pub fn build_registration(exe_path: &str) -> (r: ServerRegistration)
    ensures
        r.clsid == sim_clsid(),
        r.app_id == sim_clsid(),
        r.prog_id@ == "opc-da-rs.Sim.1"@,
        r.version_independent_prog_id@ == "opc-da-rs.Sim"@,
        r.exe_path@ == exe_path@,
        r.catids@ == opc_da_catids(),
        r.description@ == "opc-da-rs OPC DA Simulation Server"@,
{
    let mut catids: Vec<Guid> = Vec::new();
    catids.push(Guid { data1: 0x63d5f430, data2: 0xcfe4, data3: 0x11d1, data4: [0xb2, 0xc8, 0x00, 0x60, 0x08, 0x3b, 0xa1, 0xfb] });
    catids.push(Guid { data1: 0x63d5f432, data2: 0xcfe4, data3: 0x11d1, data4: [0xb2, 0xc8, 0x00, 0x60, 0x08, 0x3b, 0xa1, 0xfb] });
    catids.push(Guid { data1: 0xcc603642, data2: 0x66d7, data3: 0x48f1, data4: [0xb6, 0x9a, 0xb6, 0x25, 0xe7, 0x36, 0x52, 0xd7] });
    assert(catids@ =~= opc_da_catids());
    ServerRegistration {
        clsid: clsid_opc_da_sim(),
        prog_id: String::from_str("opc-da-rs.Sim.1"),
        version_independent_prog_id: String::from_str("opc-da-rs.Sim"),
        exe_path: String::from_str(exe_path),
        catids,
        app_id: clsid_opc_da_sim(),
        description: String::from_str("opc-da-rs OPC DA Simulation Server"),
    }
}

/// The instance count when none is configured, or the configured one is
/// out of range.
pub const DEFAULT_COUNT: usize = 100;

/// The largest instance count accepted.
pub const MAX_COUNT: usize = 100000;

/// The instance count served: the configuration file's, else the
/// environment's, kept only within `1 ..= 100000`, else 100.
pub open spec fn chosen_count(config: Option<usize>, env: Option<usize>) -> usize {
    let parsed = match config {
        Some(n) => Some(n),
        None => env,
    };
    match parsed {
        Some(n) => if 1 <= n <= MAX_COUNT {
            n
        } else {
            DEFAULT_COUNT
        },
        None => DEFAULT_COUNT,
    }
}

/// Executable form of [`chosen_count`].
pub fn read_count(config: Option<usize>, env: Option<usize>) -> (r: usize)
    ensures
        r == chosen_count(config, env),
        1 <= r <= MAX_COUNT,
{
    let parsed = match config {
        Some(n) => Some(n),
        None => env,
    };
    match parsed {
        Some(n) => if 1 <= n && n <= MAX_COUNT {
            n
        } else {
            DEFAULT_COUNT
        },
        None => DEFAULT_COUNT,
    }
}

/// What one configuration line says of the count: a trimmed line of the
/// form `count`, optional white space, `=`, and a number (white space
/// around it allowed).
pub open spec fn line_count(line: Seq<char>) -> Option<nat> {
    let t = trimmed(line);
    let key = "count"@;
    if key.len() <= t.len() && t.take(key.len() as int) == key {
        let rest = trimmed_start(t.skip(key.len() as int));
        if rest.len() > 0 && rest[0] == '=' {
            parse_unsigned(trimmed(rest.skip(1)), usize::MAX as nat)
        } else {
            None
        }
    } else {
        None
    }
}

/// The count the first line that states one gives.
pub open spec fn first_line_count(lines: Seq<Seq<char>>) -> Option<nat>
    decreases lines.len(),
{
    if lines.len() == 0 {
        None
    } else if line_count(lines[0]) is Some {
        line_count(lines[0])
    } else {
        first_line_count(lines.drop_first())
    }
}

/// The count a configuration file states.
pub open spec fn config_count(content: Seq<char>) -> Option<nat> {
    first_line_count(split_on(content, '\n'))
}

/// Executable form of [`line_count`].
pub fn parse_count_line(line: &str) -> (r: Option<usize>)
    ensures
        r matches Some(n) ==> line_count(line@) == Some(n as nat),
        r is None ==> line_count(line@) is None,
{
    proof {
        reveal_strlit("count");
    }
    let t = trim(line);
    if !starts_with(t, "count") {
        return None;
    }
    let n = t.unicode_len();
    let after = t.substring_char(5, n);
    assert(after@ =~= t@.skip(5));
    let rest = trim_start(after);
    let m = rest.unicode_len();
    if m == 0 || rest.get_char(0) != '=' {
        return None;
    }
    let num = rest.substring_char(1, m);
    assert(num@ =~= rest@.skip(1));
    parse_usize(trim(num))
}

/// The count stated in a configuration file: the first line of the form
/// `count = <N>`.
pub fn count_from_config(content: &str) -> (r: Option<usize>)
    ensures
        r matches Some(n) ==> config_count(content@) == Some(n as nat),
        r is None ==> config_count(content@) is None,
{
    let lines = split_by(content, '\n');
    let mut i: usize = 0;
    assert(lines.deep_view().skip(0) =~= lines.deep_view());
    while i < lines.len()
        invariant
            i <= lines@.len(),
            lines.deep_view() == split_on(content@, '\n'),
            config_count(content@) == first_line_count(lines.deep_view().skip(i as int)),
        decreases lines.len() - i,
    {
        let r = parse_count_line(lines[i].as_str());
        assert(lines.deep_view()[i as int] == lines@[i as int]@);
        if r.is_some() {
            return r;
        }
        assert(lines.deep_view().skip(i as int).drop_first() =~= lines.deep_view().skip(i + 1));
        i = i + 1;
    }
    None
}

/// What the server executable was started to do.
#[derive(PartialEq, Eq, Structural)]
pub enum StartMode {
    /// Write the registry entries and exit.
    Register,
    /// Remove the registry entries and exit.
    Unregister,
    /// Serve COM clients.
    Serve,
}

/// `c` with ASCII upper-case letters made lower case.
pub open spec fn ascii_lower(c: char) -> char {
    if 'A' <= c <= 'Z' {
        ((c as nat) + 32) as char
    } else {
        c
    }
}

/// `a` and `b` are equal up to ASCII case.
pub open spec fn eq_ascii_case(a: Seq<char>, b: Seq<char>) -> bool {
    a.len() == b.len() && forall|i: int| 0 <= i < a.len() ==> ascii_lower(#[trigger] a[i]) == ascii_lower(b[i])
}

/// Whether `a` equals `b` up to ASCII case (std's `eq_ignore_ascii_case`).
pub fn eq_ignore_ascii_case(a: &str, b: &str) -> (r: bool)
    ensures
        r == eq_ascii_case(a@, b@),
{
    let n = a.unicode_len();
    if n != b.unicode_len() {
        return false;
    }
    let mut i: usize = 0;
    while i < n
        invariant
            i <= n,
            n == a@.len(),
            n == b@.len(),
            forall|j: int| 0 <= j < i ==> ascii_lower(#[trigger] a@[j]) == ascii_lower(b@[j]),
        decreases n - i,
    {
        let x = a.get_char(i);
        let y = b.get_char(i);
        let lx: u32 = if 'A' <= x && x <= 'Z' {
            x as u32 + 32
        } else {
            x as u32
        };
        let ly: u32 = if 'A' <= y && y <= 'Z' {
            y as u32 + 32
        } else {
            y as u32
        };
        if lx != ly {
            assert(ascii_lower(a@[i as int]) as u32 == lx);
            assert(ascii_lower(b@[i as int]) as u32 == ly);
            return false;
        }
        assert(ascii_lower(a@[i as int]) as u32 == ascii_lower(b@[i as int]) as u32);
        i = i + 1;
    }
    true
}

/// Whether some argument equals `flag` up to ASCII case.
pub open spec fn has_flag(args: Seq<Seq<char>>, flag: Seq<char>) -> bool {
    exists|i: int| 0 <= i < args.len() && eq_ascii_case(#[trigger] args[i], flag)
}

/// Whether some argument equals `flag` up to ASCII case.
fn any_flag(args: &Vec<String>, flag: &str) -> (r: bool)
    ensures
        r == has_flag(args.deep_view(), flag@),
{
    let mut i: usize = 0;
    while i < args.len()
        invariant
            i <= args@.len(),
            forall|j: int| 0 <= j < i ==> !eq_ascii_case(#[trigger] args.deep_view()[j], flag@),
        decreases args.len() - i,
    {
        assert(args.deep_view()[i as int] == args@[i as int]@);
        if eq_ignore_ascii_case(args[i].as_str(), flag) {
            return true;
        }
        i = i + 1;
    }
    false
}

/// The mode the command line asks for: `/RegServer` anywhere registers,
/// else `/UnregServer` anywhere unregisters, else the server runs.
pub fn start_mode(args: &Vec<String>) -> (m: StartMode)
    ensures
        has_flag(args.deep_view(), "/RegServer"@) ==> m == StartMode::Register,
        !has_flag(args.deep_view(), "/RegServer"@) && has_flag(args.deep_view(), "/UnregServer"@)
            ==> m == StartMode::Unregister,
        !has_flag(args.deep_view(), "/RegServer"@) && !has_flag(args.deep_view(), "/UnregServer"@)
            ==> m == StartMode::Serve,
{
    if any_flag(args, "/RegServer") {
        StartMode::Register
    } else if any_flag(args, "/UnregServer") {
        StartMode::Unregister
    } else {
        StartMode::Serve
    }
}

/// The count the environment variable states: the whole value as a number.
pub fn count_from_env(value: &str) -> (r: Option<usize>)
    ensures
        r matches Some(n) ==> parse_unsigned(value@, usize::MAX as nat) == Some(n as nat),
        r is None ==> parse_unsigned(value@, usize::MAX as nat) is None,
{
    parse_usize(value)
}

} // verus!
