//! The load test's settings and the choices it makes: which tags each
//! simulated client subscribes to, how long it waits between samples, and
//! the spread of the per-client counts.

use vstd::prelude::*;

use crate::text::{decimal, lemma_parse_decimal, parse_u32, parse_u64, parse_unsigned, parse_usize};

verus! {

/// Load-test settings.
pub struct StressOpts {
    pub clients: usize,
    pub items_per_group: usize,
    pub rate: u32,
    pub duration_secs: u64,
    pub plants: usize,
    pub lines: usize,
    pub sensors: usize,
}

/// The settings as a value: `(clients, items_per_group, rate, duration_secs, plants, lines, sensors)`.
pub open spec fn opts_view(o: StressOpts) -> (usize, usize, u32, u64, usize, usize, usize) {
    (o.clients, o.items_per_group, o.rate, o.duration_secs, o.plants, o.lines, o.sensors)
}

/// The default settings: 10 clients of 100 items at 500 ms for 60 s, on a
/// 10 x 10 x 1000 namespace.
pub open spec fn default_opts() -> (usize, usize, u32, u64, usize, usize, usize) {
    (10, 100, 500, 60, 10, 10, 1000)
}

impl StressOpts {
    /// The default settings.
    pub fn new() -> (o: Self)
        ensures
            opts_view(o) == default_opts(),
    {
        StressOpts {
            clients: 10,
            items_per_group: 100,
            rate: 500,
            duration_secs: 60,
            plants: 10,
            lines: 10,
            sensors: 1000,
        }
    }
}

/// A parsed `usize` setting, or `old` where the text is no number.
pub open spec fn usize_or(text: Seq<char>, old: usize) -> usize {
    match parse_unsigned(text, usize::MAX as nat) {
        Some(v) => v as usize,
        None => old,
    }
}

/// The settings after one `key value` pair; `None` for an unknown key.
pub open spec fn apply_opt(o: (usize, usize, u32, u64, usize, usize, usize), key: Seq<char>, v: Seq<char>) -> Option<
    (usize, usize, u32, u64, usize, usize, usize),
> {
    if key == "--clients"@ {
        Some((usize_or(v, o.0), o.1, o.2, o.3, o.4, o.5, o.6))
    } else if key == "--items-per-group"@ {
        Some((o.0, usize_or(v, o.1), o.2, o.3, o.4, o.5, o.6))
    } else if key == "--rate"@ {
        Some(
            (
                o.0,
                o.1,
                match parse_unsigned(v, u32::MAX as nat) {
                    Some(r) => r as u32,
                    None => o.2,
                },
                o.3,
                o.4,
                o.5,
                o.6,
            ),
        )
    } else if key == "--duration"@ {
        Some(
            (
                o.0,
                o.1,
                o.2,
                match parse_unsigned(v, u64::MAX as nat) {
                    Some(d) => d as u64,
                    None => 60,
                },
                o.4,
                o.5,
                o.6,
            ),
        )
    } else if key == "--plants"@ {
        Some((o.0, o.1, o.2, o.3, usize_or(v, o.4), o.5, o.6))
    } else if key == "--lines"@ {
        Some((o.0, o.1, o.2, o.3, o.4, usize_or(v, o.5), o.6))
    } else if key == "--sensors"@ {
        Some((o.0, o.1, o.2, o.3, o.4, o.5, usize_or(v, o.6)))
    } else {
        None
    }
}

/// The settings `args[i..]` lead to from `o`: a known key followed by a
/// value consumes both; anything else is skipped.
pub open spec fn opts_from(args: Seq<Seq<char>>, i: int, o: (usize, usize, u32, u64, usize, usize, usize)) -> (
    usize,
    usize,
    u32,
    u64,
    usize,
    usize,
    usize,
)
    decreases args.len() - i,
{
    if i < 0 || i >= args.len() {
        o
    } else if i + 1 < args.len() && apply_opt(o, args[i], args[i + 1]) is Some {
        opts_from(args, i + 2, apply_opt(o, args[i], args[i + 1])->0)
    } else {
        opts_from(args, i + 1, o)
    }
}

/// A known key followed by a value is applied, and nothing else is left.
proof fn lemma_one_pair(key: Seq<char>, v: Seq<char>, o: (usize, usize, u32, u64, usize, usize, usize))
    requires
        apply_opt(o, key, v) is Some,
    ensures
        opts_from(seq![key, v], 0, o) == apply_opt(o, key, v)->0,
{
    let args = seq![key, v];
    assert(opts_from(args, 2, apply_opt(o, key, v)->0) == apply_opt(o, key, v)->0);
}

/// Each option sets the one setting it names: parsing a single option
/// followed by a number gives the default settings with that setting
/// replaced by the number.
pub proof fn lemma_single_option(n: nat)
    requires
        n <= u32::MAX,
    ensures
        opts_from(seq!["--clients"@, decimal(n)], 0, default_opts()) == (n as usize, 100usize, 500u32, 60u64, 10usize, 10usize, 1000usize),
        opts_from(seq!["--items-per-group"@, decimal(n)], 0, default_opts()) == (10usize, n as usize, 500u32, 60u64, 10usize, 10usize, 1000usize),
        opts_from(seq!["--rate"@, decimal(n)], 0, default_opts()) == (10usize, 100usize, n as u32, 60u64, 10usize, 10usize, 1000usize),
        opts_from(seq!["--duration"@, decimal(n)], 0, default_opts()) == (10usize, 100usize, 500u32, n as u64, 10usize, 10usize, 1000usize),
        opts_from(seq!["--plants"@, decimal(n)], 0, default_opts()) == (10usize, 100usize, 500u32, 60u64, n as usize, 10usize, 1000usize),
        opts_from(seq!["--lines"@, decimal(n)], 0, default_opts()) == (10usize, 100usize, 500u32, 60u64, 10usize, n as usize, 1000usize),
        opts_from(seq!["--sensors"@, decimal(n)], 0, default_opts()) == (10usize, 100usize, 500u32, 60u64, 10usize, 10usize, n as usize),
{
    reveal_strlit("--clients");
    reveal_strlit("--items-per-group");
    reveal_strlit("--rate");
    reveal_strlit("--duration");
    reveal_strlit("--plants");
    reveal_strlit("--lines");
    reveal_strlit("--sensors");
    lemma_parse_decimal(n, usize::MAX as nat);
    lemma_parse_decimal(n, u32::MAX as nat);
    lemma_parse_decimal(n, u64::MAX as nat);
    let d = default_opts();
    let v = decimal(n);
    assert("--clients"@.len() == 9 && "--items-per-group"@.len() == 17 && "--rate"@.len() == 6);
    assert("--duration"@.len() == 10 && "--plants"@.len() == 8 && "--lines"@.len() == 7);
    assert("--sensors"@.len() == 9 && "--clients"@[2] != "--sensors"@[2]);
    assert(apply_opt(d, "--clients"@, v) == Some((n as usize, 100usize, 500u32, 60u64, 10usize, 10usize, 1000usize)));
    lemma_one_pair("--clients"@, v, d);
    assert(apply_opt(d, "--items-per-group"@, v) == Some((10usize, n as usize, 500u32, 60u64, 10usize, 10usize, 1000usize)));
    lemma_one_pair("--items-per-group"@, v, d);
    assert(apply_opt(d, "--rate"@, v) == Some((10usize, 100usize, n as u32, 60u64, 10usize, 10usize, 1000usize)));
    lemma_one_pair("--rate"@, v, d);
    assert(apply_opt(d, "--duration"@, v) == Some((10usize, 100usize, 500u32, n as u64, 10usize, 10usize, 1000usize)));
    lemma_one_pair("--duration"@, v, d);
    assert(apply_opt(d, "--plants"@, v) == Some((10usize, 100usize, 500u32, 60u64, n as usize, 10usize, 1000usize)));
    lemma_one_pair("--plants"@, v, d);
    assert(apply_opt(d, "--lines"@, v) == Some((10usize, 100usize, 500u32, 60u64, 10usize, n as usize, 1000usize)));
    lemma_one_pair("--lines"@, v, d);
    assert(apply_opt(d, "--sensors"@, v) == Some((10usize, 100usize, 500u32, 60u64, 10usize, 10usize, n as usize)));
    lemma_one_pair("--sensors"@, v, d);
}

/// Applies one `key value` pair; `false` for an unknown key.
fn apply(o: &mut StressOpts, key: &str, v: &str) -> (known: bool)
    ensures
        known == apply_opt(opts_view(*old(o)), key@, v@) is Some,
        known ==> opts_view(*final(o)) == apply_opt(opts_view(*old(o)), key@, v@)->0,
        !known ==> *final(o) == *old(o),
{
    if crate::text::str_eq(key, "--clients") {
        if let Some(n) = parse_usize(v) {
            o.clients = n;
        }
        true
    } else if crate::text::str_eq(key, "--items-per-group") {
        if let Some(n) = parse_usize(v) {
            o.items_per_group = n;
        }
        true
    } else if crate::text::str_eq(key, "--rate") {
        if let Some(n) = parse_u32(v) {
            o.rate = n;
        }
        true
    } else if crate::text::str_eq(key, "--duration") {
        o.duration_secs = match parse_u64(v) {
            Some(n) => n,
            None => 60,
        };
        true
    } else if crate::text::str_eq(key, "--plants") {
        if let Some(n) = parse_usize(v) {
            o.plants = n;
        }
        true
    } else if crate::text::str_eq(key, "--lines") {
        if let Some(n) = parse_usize(v) {
            o.lines = n;
        }
        true
    } else if crate::text::str_eq(key, "--sensors") {
        if let Some(n) = parse_usize(v) {
            o.sensors = n;
        }
        true
    } else {
        false
    }
}

/// Parses `--key value` arguments over the defaults: a number that does
/// not parse keeps the setting (the duration falls back to 60 s), unknown
/// arguments are skipped.
pub fn parse_opts(args: &Vec<String>) -> (o: StressOpts)
    ensures
        opts_view(o) == opts_from(args.deep_view(), 0, default_opts()),
{
    let mut o = StressOpts::new();
    let mut i: usize = 0;
    while i < args.len()
        invariant
            i <= args@.len() + 1,
            opts_from(args.deep_view(), 0, default_opts()) == opts_from(args.deep_view(), i as int, opts_view(o)),
        decreases args@.len() + 1 - i,
    {
        let consumed = if i + 1 < args.len() {
            assert(args.deep_view()[i as int] == args@[i as int]@);
            assert(args.deep_view()[i + 1] == args@[i + 1]@);
            apply(&mut o, args[i].as_str(), args[i + 1].as_str())
        } else {
            false
        };
        i = if consumed {
            i + 2
        } else {
            i + 1
        };
    }
    o
}

/// The tags client `idx` subscribes to: `per_client` tags of `all` taken
/// cyclically from position `idx * per_client` (none when `all` is empty).
pub open spec fn client_items_spec(all: Seq<Seq<char>>, idx: nat, per_client: nat) -> Seq<Seq<char>> {
    if all.len() == 0 {
        Seq::empty()
    } else {
        let start = (idx * per_client) % all.len();
        Seq::new(per_client, |k: int| all[(start + k) % (all.len() as int)])
    }
}

/// Executable form of [`client_items_spec`].
pub fn client_items(all: &Vec<String>, idx: usize, per_client: usize) -> (r: Vec<String>)
    requires
        idx * per_client <= usize::MAX,
    ensures
        r.deep_view() == client_items_spec(all.deep_view(), idx as nat, per_client as nat),
{
    let n = all.len();
    let mut r: Vec<String> = Vec::new();
    if n == 0 {
        assert(r.deep_view() =~= client_items_spec(all.deep_view(), idx as nat, per_client as nat));
        return r;
    }
    let start = (idx * per_client) % n;
    let mut pos = start;
    proof {
        vstd::arithmetic::div_mod::lemma_mod_pos_bound((idx * per_client) as int, n as int);
        vstd::arithmetic::div_mod::lemma_small_mod(start as nat, n as nat);
    }
    let mut k: usize = 0;
    while k < per_client
        invariant
            k <= per_client,
            n == all@.len(),
            n > 0,
            start == (idx * per_client) % (n as int),
            pos == (start + k) % (n as int),
            r@.len() == k,
            forall|j: int| 0 <= j < k ==> #[trigger] r@[j]@ == all@[(start + j) % (n as int)]@,
        decreases per_client - k,
    {
        proof {
            vstd::arithmetic::div_mod::lemma_mod_pos_bound(start + k, n as int);
            lemma_mod_step(start + k, n as int);
        }
        let s = all[pos].clone();
        r.push(s);
        pos = if pos + 1 == n {
            0
        } else {
            pos + 1
        };
        k = k + 1;
    }
    assert(r.deep_view() =~= client_items_spec(all.deep_view(), idx as nat, per_client as nat));
    r
}

/// Stepping a position by one wraps around at `n`.
proof fn lemma_mod_step(x: int, n: int)
    requires
        x >= 0,
        n > 0,
    ensures
        (x + 1) % n == (if x % n + 1 == n {
            0
        } else {
            x % n + 1
        }),
{
    vstd::arithmetic::div_mod::lemma_fundamental_div_mod(x, n);
    vstd::arithmetic::div_mod::lemma_mod_pos_bound(x, n);
    let q = x / n;
    let r = x % n;
    if r + 1 == n {
        assert(x + 1 == (q + 1) * n + 0) by (nonlinear_arith)
            requires
                x == n * q + r,
                r + 1 == n,
        ;
        vstd::arithmetic::div_mod::lemma_fundamental_div_mod_converse(x + 1, n, q + 1, 0);
    } else {
        assert(x + 1 == q * n + (r + 1)) by (nonlinear_arith)
            requires
                x == n * q + r,
        ;
        vstd::arithmetic::div_mod::lemma_fundamental_div_mod_converse(x + 1, n, q, r + 1);
    }
}

/// How long to wait before the next sample: 30 s, or what remains of the
/// run when that is shorter.
pub fn next_sample_secs(elapsed_secs: u64, duration_secs: u64) -> (r: u64)
    ensures
        elapsed_secs >= duration_secs ==> r == 0,
        elapsed_secs < duration_secs ==> r == if duration_secs - elapsed_secs <= 30 {
            duration_secs - elapsed_secs
        } else {
            30
        },
{
    let remaining = duration_secs.saturating_sub(elapsed_secs);
    if remaining <= 30 {
        remaining
    } else {
        30
    }
}

/// The smallest and largest per-client count, `(0, 0)` when there is none.
pub fn count_spread(per_client: &Vec<u64>) -> (r: (u64, u64))
    ensures
        per_client@.len() == 0 ==> r == (0u64, 0u64),
        per_client@.len() > 0 ==> per_client@.contains(r.0) && per_client@.contains(r.1) && forall|
            i: int,
        | 0 <= i < per_client@.len() ==> r.0 <= #[trigger] per_client@[i] <= r.1,
{
    if per_client.len() == 0 {
        return (0, 0);
    }
    let mut lo = per_client[0];
    let mut hi = per_client[0];
    let mut i: usize = 1;
    while i < per_client.len()
        invariant
            1 <= i <= per_client@.len(),
            per_client@.contains(lo),
            per_client@.contains(hi),
            forall|j: int| 0 <= j < i ==> lo <= #[trigger] per_client@[j] <= hi,
        decreases per_client.len() - i,
    {
        let v = per_client[i];
        if v < lo {
            lo = v;
        }
        if v > hi {
            hi = v;
        }
        i = i + 1;
    }
    (lo, hi)
}

} // verus!
