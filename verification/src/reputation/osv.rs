//! OSV.dev vulnerability lookups: which packages an installer URL points
//! at, and CVSS base scores of the reported vulnerabilities.

use vstd::prelude::*;
use vstd::utf8::{decode_utf8, encode_utf8, is_char_boundary};

use crate::analyzer::{risk_band, severity_for_score, Finding, FindingView};
use crate::registry::tenths_text;
use crate::text::{decimal, pad_left, pad_right, push_decimal, push_str};

use crate::text::{
    after, before, char_views, chars_eq, chars_of, ends_with, ends_with_exec, has_char, split, split_exec, starts_with, starts_with_exec, str_eq, string_from,
    strip_all_prefix, strip_all_prefix_exec,
};

verus! {

/// A well-known installer host and the package it installs.  An empty name
/// means the package is named by the first segment of the URL path.
#[derive(Clone, Copy, Debug)]
pub struct PackageHint {
    pub domain: &'static str,
    pub name: &'static str,
    pub ecosystem: &'static str,
}

/// The known installer hosts.
pub open spec fn hint_table() -> Seq<PackageHint> {
    seq![
        PackageHint { domain: "bun.sh", name: "bun", ecosystem: "npm" },
        PackageHint { domain: "deno.land", name: "deno", ecosystem: "npm" },
        PackageHint { domain: "sh.rustup.rs", name: "rustup", ecosystem: "crates.io" },
        PackageHint { domain: "rustup.rs", name: "rustup", ecosystem: "crates.io" },
        PackageHint { domain: "get.docker.com", name: "docker", ecosystem: "npm" },
        PackageHint { domain: "brew.sh", name: "homebrew", ecosystem: "RubyGems" },
        PackageHint { domain: "go.dev", name: "go", ecosystem: "Go" },
        PackageHint { domain: "nodejs.org", name: "node", ecosystem: "npm" },
        PackageHint { domain: "curl.se", name: "curl", ecosystem: "crates.io" },
        PackageHint { domain: "code.visualstudio.com", name: "vscode", ecosystem: "npm" },
        PackageHint { domain: "tailscale.com", name: "tailscale", ecosystem: "Go" },
        PackageHint { domain: "fly.io", name: "flyctl", ecosystem: "npm" },
        PackageHint { domain: "netlify.com", name: "netlify-cli", ecosystem: "npm" },
        PackageHint { domain: "vercel.com", name: "vercel", ecosystem: "npm" },
        PackageHint { domain: "crates.io", name: "", ecosystem: "crates.io" },
        PackageHint { domain: "pypi.org", name: "", ecosystem: "PyPI" },
        PackageHint { domain: "npmjs.org", name: "", ecosystem: "npm" },
    ]
}

fn hints() -> (v: Vec<PackageHint>)
    ensures
        v@ == hint_table(),
{
    vec![
        PackageHint { domain: "bun.sh", name: "bun", ecosystem: "npm" },
        PackageHint { domain: "deno.land", name: "deno", ecosystem: "npm" },
        PackageHint { domain: "sh.rustup.rs", name: "rustup", ecosystem: "crates.io" },
        PackageHint { domain: "rustup.rs", name: "rustup", ecosystem: "crates.io" },
        PackageHint { domain: "get.docker.com", name: "docker", ecosystem: "npm" },
        PackageHint { domain: "brew.sh", name: "homebrew", ecosystem: "RubyGems" },
        PackageHint { domain: "go.dev", name: "go", ecosystem: "Go" },
        PackageHint { domain: "nodejs.org", name: "node", ecosystem: "npm" },
        PackageHint { domain: "curl.se", name: "curl", ecosystem: "crates.io" },
        PackageHint { domain: "code.visualstudio.com", name: "vscode", ecosystem: "npm" },
        PackageHint { domain: "tailscale.com", name: "tailscale", ecosystem: "Go" },
        PackageHint { domain: "fly.io", name: "flyctl", ecosystem: "npm" },
        PackageHint { domain: "netlify.com", name: "netlify-cli", ecosystem: "npm" },
        PackageHint { domain: "vercel.com", name: "vercel", ecosystem: "npm" },
        PackageHint { domain: "crates.io", name: "", ecosystem: "crates.io" },
        PackageHint { domain: "pypi.org", name: "", ecosystem: "PyPI" },
        PackageHint { domain: "npmjs.org", name: "", ecosystem: "npm" },
    ]
}

/// Ecosystems tried for a repository hosted on GitHub.
pub open spec fn fallback_ecosystems() -> Seq<&'static str> {
    seq!["npm", "crates.io", "PyPI", "Go", "RubyGems"]
}

/// The first hint whose domain is `host`.
pub open spec fn hint_for(table: Seq<PackageHint>, host: Seq<char>) -> Option<PackageHint>
    decreases table.len(),
{
    if table.len() == 0 {
        None
    } else if table[0].domain@ == host {
        Some(table[0])
    } else {
        hint_for(table.drop_first(), host)
    }
}

/// The ecosystem/package pairs to query for an installer at `host` and `path`.
pub open spec fn resolved(host: Seq<char>, path: Seq<char>) -> Seq<(Seq<char>, Seq<char>)> {
    let t = strip_all_prefix(host, "www."@);
    let p = strip_all_prefix(path, "/"@);
    match hint_for(hint_table(), t) {
        Some(h) => if h.name@.len() == 0 {
            seq![(h.ecosystem@, before(p, '/'))]
        } else {
            seq![(h.ecosystem@, h.name@)]
        },
        None => if (ends_with(t, ".github.io"@) || t == "github.com"@) && after(p, '/') is Some {
            fallback_ecosystems().map_values(
                |e: &'static str| (e@, before(after(p, '/')->0, '/')),
            )
        } else {
            Seq::empty()
        },
    }
}

/// The views of resolved pairs.
pub open spec fn pair_views(v: Seq<(&'static str, String)>) -> Seq<(Seq<char>, Seq<char>)> {
    v.map_values(|p: (&'static str, String)| (p.0@, p.1@))
}

/// The characters of `s` before the first `c` (all of `s` without a `c`).
pub fn before_chars(s: &[char], c: char) -> (r: Vec<char>)
    ensures
        r@ == before(s@, c),
{
    let j = crate::text::find_char_from(s, c, 0);
    if j < s.len() {
        proof {
            crate::text::lemma_first_index(s@, c, j as int);
        }
    } else {
        assert(!s@.contains(c));
    }
    crate::text::slice_of(s, 0, j)
}

/// The characters of `s` after the first `c`, if there is one.
pub fn after_chars(s: &[char], c: char) -> (r: Option<Vec<char>>)
    ensures
        match r {
            Some(a) => after(s@, c) == Some(a@),
            None => after(s@, c) is None,
        },
{
    let j = crate::text::find_char_from(s, c, 0);
    if j < s.len() {
        proof {
            crate::text::lemma_first_index(s@, c, j as int);
        }
        Some(crate::text::slice_of(s, j + 1, s.len()))
    } else {
        assert(!s@.contains(c));
        None
    }
}

/// Resolves the packages to look up for an installer downloaded from `host`
/// at `path`: the hinted package of a known host, the first path segment for
/// a registry host, or the repository name of a GitHub-hosted project.
pub fn resolve(host: &str, path: &str) -> (r: Vec<(&'static str, String)>)
    ensures
        pair_views(r@) == resolved(host@, path@),
{
    let hc = chars_of(host);
    let t = strip_all_prefix_exec(hc.as_slice(), chars_of("www.").as_slice());
    let pc = chars_of(path);
    let p = strip_all_prefix_exec(pc.as_slice(), chars_of("/").as_slice());
    let table = hints();
    let mut i: usize = 0;
    assert(table@.skip(0) == table@);
    while i < table.len()
        invariant
            i <= table.len(),
            table@ == hint_table(),
            t@ == strip_all_prefix(host@, "www."@),
            p@ == strip_all_prefix(path@, "/"@),
            hint_for(hint_table(), t@) == hint_for(table@.skip(i as int), t@),
        decreases table.len() - i,
    {
        let h = table[i];
        assert(table@.skip(i as int)[0] == h);
        assert(table@.skip(i as int).drop_first() == table@.skip(i + 1));
        if chars_eq(chars_of(h.domain).as_slice(), t.as_slice()) {
            assert(hint_for(table@.skip(i as int), t@) == Some(h));
            let mut out: Vec<(&'static str, String)> = Vec::new();
            if h.name.is_empty() {
                let seg = before_chars(p.as_slice(), '/');
                out.push((h.ecosystem, string_from(seg.as_slice())));
            } else {
                out.push((h.ecosystem, String::from_str(h.name)));
            }
            assert(pair_views(out@) =~= resolved(host@, path@));
            return out;
        }
        i = i + 1;
    }
    let mut out: Vec<(&'static str, String)> = Vec::new();
    if ends_with_exec(t.as_slice(), chars_of(".github.io").as_slice()) || chars_eq(
        t.as_slice(),
        chars_of("github.com").as_slice(),
    ) {
        if let Some(rest) = after_chars(p.as_slice(), '/') {
            let name = before_chars(rest.as_slice(), '/');
            let ecos: Vec<&'static str> = vec!["npm", "crates.io", "PyPI", "Go", "RubyGems"];
            let mut k: usize = 0;
            while k < ecos.len()
                invariant
                    k <= ecos.len(),
                    ecos@ == fallback_ecosystems(),
                    pair_views(out@) == fallback_ecosystems().take(k as int).map_values(
                        |e: &'static str| (e@, name@),
                    ),
                decreases ecos.len() - k,
            {
                let ghost prev = pair_views(out@);
                out.push((ecos[k], string_from(name.as_slice())));
                assert(pair_views(out@) =~= prev.push((ecos@[k as int]@, name@)));
                assert(fallback_ecosystems().take(k + 1).map_values(|e: &'static str| (e@, name@))
                    =~= fallback_ecosystems().take(k as int).map_values(
                    |e: &'static str| (e@, name@),
                ).push((ecos@[k as int]@, name@)));
                k = k + 1;
            }
            assert(fallback_ecosystems().take(5) == fallback_ecosystems());
        }
    }
    assert(pair_views(out@) =~= resolved(host@, path@));
    out
}

/// One of the five ecosystems that are ever queried.
pub open spec fn known_ecosystem(e: Seq<char>) -> bool {
    e == "npm"@ || e == "crates.io"@ || e == "PyPI"@ || e == "Go"@ || e == "RubyGems"@
}

/// A hint found for a host is one of the table's hints.
proof fn lemma_hint_for_in_table(table: Seq<PackageHint>, host: Seq<char>)
    ensures
        hint_for(table, host) matches Some(h) ==> table.contains(h),
    decreases table.len(),
{
    if table.len() > 0 && table[0].domain@ != host {
        lemma_hint_for_in_table(table.drop_first(), host);
        if let Some(h) = hint_for(table.drop_first(), host) {
            let k = choose|k: int| 0 <= k < table.drop_first().len() && table.drop_first()[k] == h;
            assert(table[k + 1] == h);
        }
    } else if table.len() > 0 {
        assert(table[0] == table[0]);
    }
}

/// The registry hosts name the package by the first segment of the path:
/// `crates.io`, `pypi.org` and `npmjs.org` give one pair, of their own
/// ecosystem and that segment.
pub proof fn registry_hosts_name_the_first_path_segment(path: Seq<char>)
    ensures
        resolved("crates.io"@, path) == seq![("crates.io"@, before(strip_all_prefix(path, "/"@), '/'))],
        resolved("pypi.org"@, path) == seq![("PyPI"@, before(strip_all_prefix(path, "/"@), '/'))],
        resolved("npmjs.org"@, path) == seq![("npm"@, before(strip_all_prefix(path, "/"@), '/'))],
{
    reveal_strlit("bun.sh");
    reveal_strlit("deno.land");
    reveal_strlit("sh.rustup.rs");
    reveal_strlit("rustup.rs");
    reveal_strlit("get.docker.com");
    reveal_strlit("brew.sh");
    reveal_strlit("go.dev");
    reveal_strlit("nodejs.org");
    reveal_strlit("curl.se");
    reveal_strlit("code.visualstudio.com");
    reveal_strlit("tailscale.com");
    reveal_strlit("fly.io");
    reveal_strlit("netlify.com");
    reveal_strlit("vercel.com");
    reveal_strlit("crates.io");
    reveal_strlit("pypi.org");
    reveal_strlit("npmjs.org");
    reveal_strlit("www.");
    reveal_strlit("");
    reveal_strlit("PyPI");
    reveal_strlit("npm");
    let table = hint_table();
    assert(hint_for(table.skip(14), "crates.io"@) == Some(table[14]));
    assert(hint_for(table.skip(15), "pypi.org"@) == Some(table[15]));
    assert(hint_for(table.skip(16), "npmjs.org"@) == Some(table[16]));
    assert("crates.io"@.take(4)[0] != "www."@[0]);
    assert(strip_all_prefix("crates.io"@, "www."@) == "crates.io"@);
    assert("pypi.org"@.take(4)[0] != "www."@[0]);
    assert(strip_all_prefix("pypi.org"@, "www."@) == "pypi.org"@);
    assert("npmjs.org"@.take(4)[0] != "www."@[0]);
    assert(strip_all_prefix("npmjs.org"@, "www."@) == "npmjs.org"@);
    assert forall|i: int| 0 <= i < 14 implies #[trigger] table[i].domain@ != "crates.io"@ by {
        if i == 0 {
            assert(table[0].domain@.len() != "crates.io"@.len());
        } else if i == 1 {
            assert(table[1].domain@[0] != "crates.io"@[0]);
        } else if i == 2 {
            assert(table[2].domain@.len() != "crates.io"@.len());
        } else if i == 3 {
            assert(table[3].domain@[0] != "crates.io"@[0]);
        } else if i == 4 {
            assert(table[4].domain@.len() != "crates.io"@.len());
        } else if i == 5 {
            assert(table[5].domain@.len() != "crates.io"@.len());
        } else if i == 6 {
            assert(table[6].domain@.len() != "crates.io"@.len());
        } else if i == 7 {
            assert(table[7].domain@.len() != "crates.io"@.len());
        } else if i == 8 {
            assert(table[8].domain@.len() != "crates.io"@.len());
        } else if i == 9 {
            assert(table[9].domain@.len() != "crates.io"@.len());
        } else if i == 10 {
            assert(table[10].domain@.len() != "crates.io"@.len());
        } else if i == 11 {
            assert(table[11].domain@.len() != "crates.io"@.len());
        } else if i == 12 {
            assert(table[12].domain@.len() != "crates.io"@.len());
        } else if i == 13 {
            assert(table[13].domain@.len() != "crates.io"@.len());
        }
    }
    lemma_hint_for_skip(table, "crates.io"@, 14);
    assert forall|i: int| 0 <= i < 15 implies #[trigger] table[i].domain@ != "pypi.org"@ by {
        if i == 0 {
            assert(table[0].domain@.len() != "pypi.org"@.len());
        } else if i == 1 {
            assert(table[1].domain@.len() != "pypi.org"@.len());
        } else if i == 2 {
            assert(table[2].domain@.len() != "pypi.org"@.len());
        } else if i == 3 {
            assert(table[3].domain@.len() != "pypi.org"@.len());
        } else if i == 4 {
            assert(table[4].domain@.len() != "pypi.org"@.len());
        } else if i == 5 {
            assert(table[5].domain@.len() != "pypi.org"@.len());
        } else if i == 6 {
            assert(table[6].domain@.len() != "pypi.org"@.len());
        } else if i == 7 {
            assert(table[7].domain@.len() != "pypi.org"@.len());
        } else if i == 8 {
            assert(table[8].domain@.len() != "pypi.org"@.len());
        } else if i == 9 {
            assert(table[9].domain@.len() != "pypi.org"@.len());
        } else if i == 10 {
            assert(table[10].domain@.len() != "pypi.org"@.len());
        } else if i == 11 {
            assert(table[11].domain@.len() != "pypi.org"@.len());
        } else if i == 12 {
            assert(table[12].domain@.len() != "pypi.org"@.len());
        } else if i == 13 {
            assert(table[13].domain@.len() != "pypi.org"@.len());
        } else if i == 14 {
            assert(table[14].domain@.len() != "pypi.org"@.len());
        }
    }
    lemma_hint_for_skip(table, "pypi.org"@, 15);
    assert forall|i: int| 0 <= i < 16 implies #[trigger] table[i].domain@ != "npmjs.org"@ by {
        if i == 0 {
            assert(table[0].domain@.len() != "npmjs.org"@.len());
        } else if i == 1 {
            assert(table[1].domain@[0] != "npmjs.org"@[0]);
        } else if i == 2 {
            assert(table[2].domain@.len() != "npmjs.org"@.len());
        } else if i == 3 {
            assert(table[3].domain@[0] != "npmjs.org"@[0]);
        } else if i == 4 {
            assert(table[4].domain@.len() != "npmjs.org"@.len());
        } else if i == 5 {
            assert(table[5].domain@.len() != "npmjs.org"@.len());
        } else if i == 6 {
            assert(table[6].domain@.len() != "npmjs.org"@.len());
        } else if i == 7 {
            assert(table[7].domain@.len() != "npmjs.org"@.len());
        } else if i == 8 {
            assert(table[8].domain@.len() != "npmjs.org"@.len());
        } else if i == 9 {
            assert(table[9].domain@.len() != "npmjs.org"@.len());
        } else if i == 10 {
            assert(table[10].domain@.len() != "npmjs.org"@.len());
        } else if i == 11 {
            assert(table[11].domain@.len() != "npmjs.org"@.len());
        } else if i == 12 {
            assert(table[12].domain@.len() != "npmjs.org"@.len());
        } else if i == 13 {
            assert(table[13].domain@.len() != "npmjs.org"@.len());
        } else if i == 14 {
            assert(table[14].domain@[0] != "npmjs.org"@[0]);
        } else if i == 15 {
            assert(table[15].domain@.len() != "npmjs.org"@.len());
        }
    }
    lemma_hint_for_skip(table, "npmjs.org"@, 16);
}

/// Hints whose domain differs from `host` can be skipped.
proof fn lemma_hint_for_skip(table: Seq<PackageHint>, host: Seq<char>, k: int)
    requires
        0 <= k <= table.len(),
        forall|i: int| 0 <= i < k ==> #[trigger] table[i].domain@ != host,
    ensures
        hint_for(table, host) == hint_for(table.skip(k), host),
    decreases k,
{
    if k > 0 {
        assert(table[0].domain@ != host);
        assert forall|i: int| 0 <= i < k - 1 implies #[trigger] table.drop_first()[i].domain@ != host by {
            assert(table.drop_first()[i] == table[i + 1]);
        }
        lemma_hint_for_skip(table.drop_first(), host, k - 1);
        assert(table.drop_first().skip(k - 1) == table.skip(k));
    } else {
        assert(table.skip(0) == table);
    }
}

/// A leading `www.` on the host changes nothing; every ecosystem queried is
/// one of the five known ones; and a host yields no pair, one pair (a known
/// installer host), or five pairs (a GitHub-hosted project, one per ecosystem).
pub proof fn resolution_is_well_formed(host: Seq<char>, path: Seq<char>)
    ensures
        resolved("www."@ + host, path) == resolved(host, path),
        forall|i: int| 0 <= i < resolved(host, path).len() ==> known_ecosystem(#[trigger] resolved(host, path)[i].0),
        resolved(host, path).len() == 0 || resolved(host, path).len() == 1 || resolved(host, path).len() == 5,
{
    reveal_strlit("www.");
    let w = "www."@ + host;
    assert(w.take(4) =~= "www."@);
    assert(w.skip(4) =~= host);
    assert(strip_all_prefix(w, "www."@) == strip_all_prefix(host, "www."@));
    let t = strip_all_prefix(host, "www."@);
    let table = hint_table();
    lemma_hint_for_in_table(table, t);
    assert forall|k: int| 0 <= k < table.len() implies known_ecosystem(#[trigger] table[k].ecosystem@) by {
        assert(table[k].ecosystem@ == "npm"@ || table[k].ecosystem@ == "crates.io"@
            || table[k].ecosystem@ == "PyPI"@ || table[k].ecosystem@ == "Go"@
            || table[k].ecosystem@ == "RubyGems"@);
    }
    let r = resolved(host, path);
    match hint_for(table, t) {
        Some(h) => {
            let k = choose|k: int| 0 <= k < table.len() && table[k] == h;
            assert(known_ecosystem(table[k].ecosystem@));
        },
        None => {
            let f = fallback_ecosystems();
            assert forall|i: int| 0 <= i < r.len() implies known_ecosystem(#[trigger] r[i].0) by {
                assert(r[i].0 == f[i]@);
            }
        },
    }
}

// ---------------------------------------------------------------------------
// CVSS v3 base scores
// ---------------------------------------------------------------------------

/// The value of the last `key:value` segment among `segs` (a later segment
/// overrides an earlier one).
pub open spec fn metric_in(segs: Seq<Seq<char>>, key: Seq<char>) -> Option<Seq<char>>
    decreases segs.len(),
{
    if segs.len() == 0 {
        None
    } else if segs.last().contains(':') && before(segs.last(), ':') == key {
        after(segs.last(), ':')
    } else {
        metric_in(segs.drop_last(), key)
    }
}

/// The value of metric `key` in a CVSS vector string.
pub open spec fn metric(vector: Seq<char>, key: Seq<char>) -> Option<Seq<char>> {
    metric_in(split(vector, '/'), key)
}

/// Metric weights, in hundredths.
pub open spec fn attack_vector_weight(v: Option<Seq<char>>) -> Option<int> {
    if v == Some("N"@) {
        Some(85)
    } else if v == Some("A"@) {
        Some(62)
    } else if v == Some("L"@) {
        Some(55)
    } else if v == Some("P"@) {
        Some(20)
    } else {
        None
    }
}

pub open spec fn attack_complexity_weight(v: Option<Seq<char>>) -> Option<int> {
    if v == Some("L"@) {
        Some(77)
    } else if v == Some("H"@) {
        Some(44)
    } else {
        None
    }
}

pub open spec fn privileges_weight(v: Option<Seq<char>>, scope_changed: bool) -> Option<int> {
    if v == Some("N"@) {
        Some(85)
    } else if v == Some("L"@) {
        Some(if scope_changed { 68 } else { 62 })
    } else if v == Some("H"@) {
        Some(if scope_changed { 50 } else { 27 })
    } else {
        None
    }
}

pub open spec fn interaction_weight(v: Option<Seq<char>>) -> Option<int> {
    if v == Some("N"@) {
        Some(85)
    } else if v == Some("R"@) {
        Some(62)
    } else {
        None
    }
}

pub open spec fn impact_weight(v: Option<Seq<char>>) -> Option<int> {
    if v == Some("H"@) {
        Some(56)
    } else if v == Some("L"@) {
        Some(22)
    } else if v == Some("N"@) {
        Some(0)
    } else {
        None
    }
}

/// The scope is changed unless the vector says `S:U`.
pub open spec fn scope_changed(vector: Seq<char>) -> bool {
    metric(vector, "S"@) != Some("U"@)
}

/// The CVSS v3 base score in tenths from metric weights in hundredths,
/// rounded half up from the exact value: impact
/// `6.42 * (1 - (1-C)(1-I)(1-A))`, exploitability `8.22 * AV * AC * PR * UI`,
/// base `impact + exploitability` (times 1.08 when the scope changes), at
/// most 10, and 0 when the impact is 0.
pub open spec fn cvss_formula(av: int, ac: int, pr: int, ui: int, c: int, i: int, a: int, sc: bool) -> int {
    // Impact sub-score in millionths, then everything in 10^-12 units.
    let iss = 1_000_000 - (100 - c) * (100 - i) * (100 - a);
    let base = 642 * iss * 100 + 822 * (av * ac * pr * ui);
    let scaled = if sc { base * 108 } else { base * 100 };
    let capped = if scaled > 10_000_000_000_000 { 10_000_000_000_000 } else { scaled };
    if iss <= 0 {
        0
    } else {
        (capped + 50_000_000_000) / 100_000_000_000
    }
}

/// The CVSS v3 base score of a vector string, in tenths; `None` when the
/// string is not a CVSS vector or a metric is missing or unknown.
pub open spec fn cvss_base_tenths(vector: Seq<char>) -> Option<int> {
    let sc = scope_changed(vector);
    let av = attack_vector_weight(metric(vector, "AV"@));
    let ac = attack_complexity_weight(metric(vector, "AC"@));
    let pr = privileges_weight(metric(vector, "PR"@), sc);
    let ui = interaction_weight(metric(vector, "UI"@));
    let c = impact_weight(metric(vector, "C"@));
    let i = impact_weight(metric(vector, "I"@));
    let a = impact_weight(metric(vector, "A"@));
    if !starts_with(vector, "CVSS:"@) || av is None || ac is None || pr is None || ui is None
        || c is None || i is None || a is None {
        None
    } else {
        Some(cvss_formula(av->0, ac->0, pr->0, ui->0, c->0, i->0, a->0, sc))
    }
}

/// Weights that are all in 0..=100.
pub open spec fn weights_in_range(av: int, ac: int, pr: int, ui: int, c: int, i: int, a: int) -> bool {
    0 <= av <= 100 && 0 <= ac <= 100 && 0 <= pr <= 100 && 0 <= ui <= 100 && 0 <= c <= 100 && 0 <= i
        <= 100 && 0 <= a <= 100
}

/// The impact sub-score grows with each impact weight.
proof fn lemma_impact_monotone(c: int, i: int, a: int, c2: int, i2: int, a2: int)
    requires
        0 <= c <= c2 <= 100,
        0 <= i <= i2 <= 100,
        0 <= a <= a2 <= 100,
    ensures
        (100 - c2) * (100 - i2) * (100 - a2) <= (100 - c) * (100 - i) * (100 - a),
{
    let (x, y, z) = (100 - c, 100 - i, 100 - a);
    let (x2, y2, z2) = (100 - c2, 100 - i2, 100 - a2);
    assert(x2 * y2 <= x * y) by (nonlinear_arith)
        requires
            0 <= x2 <= x,
            0 <= y2 <= y,
    ;
    assert(x2 * y2 * z2 <= x * y * z) by (nonlinear_arith)
        requires
            0 <= x2 * y2 <= x * y,
            0 <= z2 <= z,
    ;
}

/// The exploitability product grows with each exploitability weight.
proof fn lemma_exploitability_monotone(av: int, ac: int, pr: int, ui: int, av2: int, ac2: int, pr2: int, ui2: int)
    requires
        0 <= av <= av2,
        0 <= ac <= ac2,
        0 <= pr <= pr2,
        0 <= ui <= ui2,
    ensures
        0 <= av * ac * pr * ui <= av2 * ac2 * pr2 * ui2,
{
    assert(0 <= av * ac <= av2 * ac2) by (nonlinear_arith)
        requires
            0 <= av <= av2,
            0 <= ac <= ac2,
    ;
    assert(0 <= av * ac * pr <= av2 * ac2 * pr2) by (nonlinear_arith)
        requires
            0 <= av * ac <= av2 * ac2,
            0 <= pr <= pr2,
    ;
    assert(0 <= av * ac * pr * ui <= av2 * ac2 * pr2 * ui2) by (nonlinear_arith)
        requires
            0 <= av * ac * pr <= av2 * ac2 * pr2,
            0 <= ui <= ui2,
    ;
}

/// The CVSS base score never falls when any metric weight rises, the scope
/// staying the same.
pub proof fn cvss_never_falls_as_a_weight_rises(
    av: int,
    ac: int,
    pr: int,
    ui: int,
    c: int,
    i: int,
    a: int,
    av2: int,
    ac2: int,
    pr2: int,
    ui2: int,
    c2: int,
    i2: int,
    a2: int,
    sc: bool,
)
    requires
        weights_in_range(av, ac, pr, ui, c, i, a),
        weights_in_range(av2, ac2, pr2, ui2, c2, i2, a2),
        av <= av2,
        ac <= ac2,
        pr <= pr2,
        ui <= ui2,
        c <= c2,
        i <= i2,
        a <= a2,
    ensures
        cvss_formula(av, ac, pr, ui, c, i, a, sc) <= cvss_formula(av2, ac2, pr2, ui2, c2, i2, a2, sc),
{
    lemma_impact_monotone(c, i, a, c2, i2, a2);
    lemma_exploitability_monotone(av, ac, pr, ui, av2, ac2, pr2, ui2);
    let iss = 1_000_000 - (100 - c) * (100 - i) * (100 - a);
    let iss2 = 1_000_000 - (100 - c2) * (100 - i2) * (100 - a2);
    let base = 642 * iss * 100 + 822 * (av * ac * pr * ui);
    let base2 = 642 * iss2 * 100 + 822 * (av2 * ac2 * pr2 * ui2);
    assert(base <= base2);
    let scaled = if sc { base * 108 } else { base * 100 };
    let scaled2 = if sc { base2 * 108 } else { base2 * 100 };
    assert(scaled <= scaled2);
    let capped = if scaled > 10_000_000_000_000 { 10_000_000_000_000 } else { scaled };
    let capped2 = if scaled2 > 10_000_000_000_000 { 10_000_000_000_000 } else { scaled2 };
    assert(capped <= capped2);
    if iss > 0 {
        assert(iss2 > 0);
        assert(base >= 0);
        assert((capped + 50_000_000_000) / 100_000_000_000 <= (capped2 + 50_000_000_000) / 100_000_000_000) by (nonlinear_arith)
            requires
                0 <= capped <= capped2,
        ;
    } else if iss2 > 0 {
        assert(base2 >= 0);
        assert(capped2 >= 0);
    }
}

/// A CVSS base score lies between 0.0 and 10.0, and is 0.0 when no impact
/// metric has any weight.
pub proof fn cvss_score_lies_between_zero_and_ten(av: int, ac: int, pr: int, ui: int, c: int, i: int, a: int, sc: bool)
    requires
        weights_in_range(av, ac, pr, ui, c, i, a),
    ensures
        0 <= cvss_formula(av, ac, pr, ui, c, i, a, sc) <= 100,
        c == 0 && i == 0 && a == 0 ==> cvss_formula(av, ac, pr, ui, c, i, a, sc) == 0,
{
    lemma_impact_monotone(0, 0, 0, c, i, a);
    lemma_exploitability_monotone(0, 0, 0, 0, av, ac, pr, ui);
    let iss = 1_000_000 - (100 - c) * (100 - i) * (100 - a);
    if c == 0 && i == 0 && a == 0 {
        assert(iss == 0);
    }
}

/// Of two CVSS vectors with the same scope, the one whose every metric weighs
/// at least as much scores at least as much: making any metric more severe
/// never lowers the score.
pub proof fn cvss_score_is_monotone_in_each_metric(v: Seq<char>, w: Seq<char>)
    requires
        cvss_base_tenths(v) is Some,
        cvss_base_tenths(w) is Some,
        scope_changed(v) == scope_changed(w),
        attack_vector_weight(metric(v, "AV"@))->0 <= attack_vector_weight(metric(w, "AV"@))->0,
        attack_complexity_weight(metric(v, "AC"@))->0 <= attack_complexity_weight(metric(w, "AC"@))->0,
        privileges_weight(metric(v, "PR"@), scope_changed(v))->0 <= privileges_weight(
            metric(w, "PR"@),
            scope_changed(w),
        )->0,
        interaction_weight(metric(v, "UI"@))->0 <= interaction_weight(metric(w, "UI"@))->0,
        impact_weight(metric(v, "C"@))->0 <= impact_weight(metric(w, "C"@))->0,
        impact_weight(metric(v, "I"@))->0 <= impact_weight(metric(w, "I"@))->0,
        impact_weight(metric(v, "A"@))->0 <= impact_weight(metric(w, "A"@))->0,
    ensures
        cvss_base_tenths(v)->0 <= cvss_base_tenths(w)->0,
{
    let sc = scope_changed(v);
    cvss_never_falls_as_a_weight_rises(
        attack_vector_weight(metric(v, "AV"@))->0,
        attack_complexity_weight(metric(v, "AC"@))->0,
        privileges_weight(metric(v, "PR"@), sc)->0,
        interaction_weight(metric(v, "UI"@))->0,
        impact_weight(metric(v, "C"@))->0,
        impact_weight(metric(v, "I"@))->0,
        impact_weight(metric(v, "A"@))->0,
        attack_vector_weight(metric(w, "AV"@))->0,
        attack_complexity_weight(metric(w, "AC"@))->0,
        privileges_weight(metric(w, "PR"@), sc)->0,
        interaction_weight(metric(w, "UI"@))->0,
        impact_weight(metric(w, "C"@))->0,
        impact_weight(metric(w, "I"@))->0,
        impact_weight(metric(w, "A"@))->0,
        sc,
    );
}

/// The view of an optional character vector.
pub open spec fn opt_chars(m: Option<Vec<char>>) -> Option<Seq<char>> {
    match m {
        Some(x) => Some(x@),
        None => None,
    }
}

/// The view of an optional weight.
pub open spec fn opt_int(w: Option<u64>) -> Option<int> {
    match w {
        Some(x) => Some(x as int),
        None => None,
    }
}

fn metric_exec(segs: &Vec<Vec<char>>, key: &str) -> (r: Option<Vec<char>>)
    ensures
        opt_chars(r) == metric_in(char_views(segs@), key@),
{
    let kc = chars_of(key);
    let mut n: usize = segs.len();
    assert(char_views(segs@).take(n as int) == char_views(segs@));
    loop
        invariant
            n <= segs.len(),
            kc@ == key@,
            metric_in(char_views(segs@), key@) == metric_in(char_views(segs@).take(n as int), key@),
        decreases n,
    {
        if n == 0 {
            return None;
        }
        let seg = &segs[n - 1];
        let ghost prefix = char_views(segs@).take(n as int);
        assert(prefix.last() == seg@);
        assert(prefix.drop_last() == char_views(segs@).take(n - 1));
        if has_char(seg.as_slice(), ':') {
            let k = before_chars(seg.as_slice(), ':');
            if chars_eq(k.as_slice(), kc.as_slice()) {
                return after_chars(seg.as_slice(), ':');
            }
        }
        n = n - 1;
    }
}

fn is_value(v: &Option<Vec<char>>, lit: &str) -> (r: bool)
    ensures
        r == (opt_chars(*v) == Some(lit@)),
{
    match v {
        Some(x) => chars_eq(x.as_slice(), chars_of(lit).as_slice()),
        None => false,
    }
}

fn attack_vector_exec(m: &Option<Vec<char>>) -> (w: Option<u64>)
    ensures
        opt_int(w) == attack_vector_weight(opt_chars(*m)),
        w matches Some(x) ==> x <= 100,
{
    if is_value(m, "N") {
        Some(85)
    } else if is_value(m, "A") {
        Some(62)
    } else if is_value(m, "L") {
        Some(55)
    } else if is_value(m, "P") {
        Some(20)
    } else {
        None
    }
}

fn attack_complexity_exec(m: &Option<Vec<char>>) -> (w: Option<u64>)
    ensures
        opt_int(w) == attack_complexity_weight(opt_chars(*m)),
        w matches Some(x) ==> x <= 100,
{
    if is_value(m, "L") {
        Some(77)
    } else if is_value(m, "H") {
        Some(44)
    } else {
        None
    }
}

fn privileges_exec(m: &Option<Vec<char>>, sc: bool) -> (w: Option<u64>)
    ensures
        opt_int(w) == privileges_weight(opt_chars(*m), sc),
        w matches Some(x) ==> x <= 100,
{
    if is_value(m, "N") {
        Some(85)
    } else if is_value(m, "L") {
        Some(if sc { 68 } else { 62 })
    } else if is_value(m, "H") {
        Some(if sc { 50 } else { 27 })
    } else {
        None
    }
}

fn interaction_exec(m: &Option<Vec<char>>) -> (w: Option<u64>)
    ensures
        opt_int(w) == interaction_weight(opt_chars(*m)),
        w matches Some(x) ==> x <= 100,
{
    if is_value(m, "N") {
        Some(85)
    } else if is_value(m, "R") {
        Some(62)
    } else {
        None
    }
}

fn impact_exec(m: &Option<Vec<char>>) -> (w: Option<u64>)
    ensures
        opt_int(w) == impact_weight(opt_chars(*m)),
        w matches Some(x) ==> x <= 100,
{
    if is_value(m, "H") {
        Some(56)
    } else if is_value(m, "L") {
        Some(22)
    } else if is_value(m, "N") {
        Some(0)
    } else {
        None
    }
}

/// The base score formula on weights in hundredths.
fn cvss_formula_exec(av: u64, ac: u64, pr: u64, ui: u64, c: u64, i: u64, a: u64, sc: bool) -> (t: u8)
    requires
        av <= 100,
        ac <= 100,
        pr <= 100,
        ui <= 100,
        c <= 100,
        i <= 100,
        a <= 100,
    ensures
        t == cvss_formula(av as int, ac as int, pr as int, ui as int, c as int, i as int, a as int, sc),
        t <= 100,
{
    assert((100 - c) * (100 - i) <= 10_000) by (nonlinear_arith)
        requires
            c <= 100,
            i <= 100,
    ;
    assert(0 <= (100 - c) * (100 - i)) by (nonlinear_arith)
        requires
            c <= 100,
            i <= 100,
    ;
    assert((100 - c) * (100 - i) * (100 - a) <= 1_000_000) by (nonlinear_arith)
        requires
            (100 - c) * (100 - i) <= 10_000,
            a <= 100,
            (100 - c) * (100 - i) >= 0,
    ;
    let p3: u64 = (100 - c) * (100 - i) * (100 - a);
    let iss: u64 = 1_000_000 - p3;
    if iss == 0 {
        return 0;
    }
    assert(av * ac <= 10_000) by (nonlinear_arith)
        requires
            av <= 100,
            ac <= 100,
    ;
    assert(av * ac * pr <= 1_000_000) by (nonlinear_arith)
        requires
            av * ac <= 10_000,
            pr <= 100,
    ;
    assert(av * ac * pr * ui <= 100_000_000) by (nonlinear_arith)
        requires
            av * ac * pr <= 1_000_000,
            ui <= 100,
    ;
    let e: u64 = av * ac * pr * ui;
    let base: u64 = 642 * iss * 100 + 822 * e;
    let scaled: u64 = if sc {
        base * 108
    } else {
        base * 100
    };
    let capped: u64 = if scaled > 10_000_000_000_000 {
        10_000_000_000_000
    } else {
        scaled
    };
    let t = (capped + 50_000_000_000) / 100_000_000_000;
    t as u8
}

/// Computes the CVSS v3 base score of a vector string, in tenths of a point
/// (so `98` stands for 9.8).
pub fn score_from_cvss_vector(vector: &str) -> (r: Option<u8>)
    ensures
        match r {
            Some(t) => cvss_base_tenths(vector@) == Some(t as int),
            None => cvss_base_tenths(vector@) is None,
        },
        r matches Some(t) ==> t <= 100,
{
    let vc = chars_of(vector);
    if !starts_with_exec(vc.as_slice(), chars_of("CVSS:").as_slice()) {
        return None;
    }
    let segs = split_exec(vc.as_slice(), '/');
    let sc = !is_value(&metric_exec(&segs, "S"), "U");
    let av = attack_vector_exec(&metric_exec(&segs, "AV"));
    let ac = attack_complexity_exec(&metric_exec(&segs, "AC"));
    let pr = privileges_exec(&metric_exec(&segs, "PR"), sc);
    let ui = interaction_exec(&metric_exec(&segs, "UI"));
    let c = impact_exec(&metric_exec(&segs, "C"));
    let i = impact_exec(&metric_exec(&segs, "I"));
    let a = impact_exec(&metric_exec(&segs, "A"));
    match (av, ac, pr, ui, c, i, a) {
        (Some(av), Some(ac), Some(pr), Some(ui), Some(c), Some(i), Some(a)) => Some(
            cvss_formula_exec(av, ac, pr, ui, c, i, a, sc),
        ),
        _ => None,
    }
}

// ---------------------------------------------------------------------------
// Vulnerability reports
// ---------------------------------------------------------------------------

/// One reported vulnerability, as shown in evidence: its identifier, CVE
/// alias if any, CVSS score in tenths, summary and publication date.
#[derive(Debug)]
pub struct VulnSummary {
    pub id: String,
    pub cve: Option<String>,
    pub cvss_tenths: u8,
    pub summary: String,
    pub date: Option<String>,
}

/// The entries whose score lies in `lo..hi` (tenths), in order.
pub open spec fn in_band(entries: Seq<VulnSummary>, lo: int, hi: int) -> Seq<VulnSummary> {
    entries.filter(|e: VulnSummary| lo <= e.cvss_tenths < hi)
}

/// The first `n` entries (all when there are fewer).
pub open spec fn first_n(es: Seq<VulnSummary>, n: int) -> Seq<VulnSummary> {
    if es.len() <= n {
        es
    } else {
        es.take(n)
    }
}

/// Summaries longer than 55 bytes are cut to 52 bytes and an ellipsis.
pub open spec fn shown_summary(s: Seq<char>) -> Seq<char> {
    if encode_utf8(s).len() > 55 {
        decode_utf8(encode_utf8(s).take(52)) + "\u{2026}"@
    } else {
        s
    }
}

/// A summary can be cut where it is cut.
pub open spec fn summary_cuttable(s: Seq<char>) -> bool {
    encode_utf8(s).len() > 55 ==> is_char_boundary(encode_utf8(s), 52)
}

/// The identifier shown for an entry: its CVE alias, else its own id.
pub open spec fn display_id(e: VulnSummary) -> Seq<char> {
    match e.cve {
        Some(c) => c@,
        None => e.id@,
    }
}

/// The evidence line of one entry: id in 24 columns, score in 4, date in 10.
pub open spec fn entry_line(e: VulnSummary) -> Seq<char> {
    "\n    "@ + pad_right(display_id(e), 24) + " "@ + pad_left(tenths_text(e.cvss_tenths as nat), 4)
        + "  "@ + pad_right(
        match e.date {
            Some(d) => d@,
            None => "--"@,
        },
        10,
    ) + "  "@ + shown_summary(e.summary@)
}

/// The evidence lines of some entries.
pub open spec fn entry_lines(es: Seq<VulnSummary>) -> Seq<char>
    decreases es.len(),
{
    if es.len() == 0 {
        Seq::empty()
    } else {
        entry_lines(es.drop_last()) + entry_line(es.last())
    }
}

/// The section of a severity band: its heading (with "top 5 of N" when not
/// all are shown) and the first five entries.
pub open spec fn band_section(label: Seq<char>, band: Seq<VulnSummary>) -> Seq<char> {
    if band.len() > 0 {
        let showing = if band.len() < 5 {
            band.len() as int
        } else {
            5
        };
        "\n\n  "@ + label + " ("@ + (if showing < band.len() {
            "top "@ + decimal(showing as nat) + " of "@ + decimal(band.len())
        } else {
            decimal(band.len())
        }) + "):"@ + entry_lines(first_n(band, 5))
    } else {
        Seq::empty()
    }
}

/// The evidence of a vulnerability report: counts by severity band
/// (critical from 9.0, high from 7.0), the first five critical and high
/// entries, and the number of the rest.
pub open spec fn vulnerability_evidence_spec(ecosystem: Seq<char>, package: Seq<char>, entries: Seq<VulnSummary>) -> Seq<char> {
    let crit = in_band(entries, 90, 256);
    let high = in_band(entries, 70, 90);
    let rest = entries.len() - crit.len() - high.len();
    ecosystem + " ("@ + package + ") - "@ + decimal(entries.len()) + " known advisories\n  Critical: "@
        + decimal(crit.len()) + "  High: "@ + decimal(high.len()) + "  Moderate/Low: "@ + decimal(
        rest as nat,
    ) + band_section("Critical"@, crit) + band_section("High"@, high) + (if rest > 0 {
        "\n  + "@ + decimal(rest as nat) + " more moderate/low severity advisories"@
    } else {
        Seq::empty()
    })
}

/// Every summary that is shown can be cut where it is cut.
pub open spec fn shown_summaries_cuttable(entries: Seq<VulnSummary>) -> bool {
    &&& forall|i: int|
        0 <= i < first_n(in_band(entries, 90, 256), 5).len() ==> summary_cuttable(
            #[trigger] first_n(in_band(entries, 90, 256), 5)[i].summary@,
        )
    &&& forall|i: int|
        0 <= i < first_n(in_band(entries, 70, 90), 5).len() ==> summary_cuttable(
            #[trigger] first_n(in_band(entries, 70, 90), 5)[i].summary@,
        )
}

/// Whether a summary can be cut where it is cut.
pub fn summary_can_be_cut(s: &str) -> (ok: bool)
    ensures
        ok == summary_cuttable(s@),
{
    if s.as_bytes().len() > 55 {
        s.is_char_boundary(52)
    } else {
        true
    }
}

fn summary_text(s: &str) -> (out: String)
    requires
        summary_cuttable(s@),
    ensures
        out@ == shown_summary(s@),
{
    let mut out = String::new();
    if s.as_bytes().len() > 55 {
        let (cut, _) = s.split_at(52);
        proof {
            vstd::utf8::encode_utf8_decode_utf8(cut@);
        }
        push_str(&mut out, cut);
        push_str(&mut out, "\u{2026}");
    } else {
        push_str(&mut out, s);
    }
    out
}

fn entry_text(e: &VulnSummary) -> (out: String)
    requires
        summary_cuttable(e.summary@),
    ensures
        out@ == entry_line(*e),
{
    let mut out = String::new();
    push_str(&mut out, "\n    ");
    let id = match &e.cve {
        Some(c) => c.as_str(),
        None => e.id.as_str(),
    };
    crate::text::push_padded_right(&mut out, chars_of(id).as_slice(), 24);
    push_str(&mut out, " ");
    let mut score = String::new();
    crate::registry::push_tenths(&mut score, e.cvss_tenths as u16);
    crate::text::push_padded_left(&mut out, chars_of(score.as_str()).as_slice(), 4);
    push_str(&mut out, "  ");
    let date = match &e.date {
        Some(d) => d.as_str(),
        None => "--",
    };
    crate::text::push_padded_right(&mut out, chars_of(date).as_slice(), 10);
    push_str(&mut out, "  ");
    let summary = summary_text(e.summary.as_str());
    push_str(&mut out, summary.as_str());
    assert(out@ =~= entry_line(*e));
    out
}

/// The count of entries in a band and the lines of its first five.
fn band_lines(entries: &Vec<VulnSummary>, lo: u8, hi: u16) -> (r: (usize, String))
    requires
        forall|i: int|
            0 <= i < first_n(in_band(entries@, lo as int, hi as int), 5).len() ==> summary_cuttable(
                #[trigger] first_n(in_band(entries@, lo as int, hi as int), 5)[i].summary@,
            ),
    ensures
        r.0 == in_band(entries@, lo as int, hi as int).len(),
        r.1@ == entry_lines(first_n(in_band(entries@, lo as int, hi as int), 5)),
{
    let ghost all = entries@;
    let mut count: usize = 0;
    let mut out = String::new();
    let mut i: usize = 0;
    while i < entries.len()
        invariant
            i <= entries.len(),
            all == entries@,
            count == in_band(all.take(i as int), lo as int, hi as int).len(),
            out@ == entry_lines(first_n(in_band(all.take(i as int), lo as int, hi as int), 5)),
            forall|k: int|
                0 <= k < first_n(in_band(all, lo as int, hi as int), 5).len() ==> summary_cuttable(
                    #[trigger] first_n(in_band(all, lo as int, hi as int), 5)[k].summary@,
                ),
        decreases entries.len() - i,
    {
        let e = &entries[i];
        let ghost prev = in_band(all.take(i as int), lo as int, hi as int);
        proof {
            assert(all.take(i + 1) == all.take(i as int).push(*e));
            all.take(i as int).lemma_filter_push(*e, |e: VulnSummary| lo <= e.cvss_tenths < hi);
            lemma_band_prefix(all, i as int + 1, lo as int, hi as int);
        }
        if lo <= e.cvss_tenths && (e.cvss_tenths as u16) < hi {
            if count < 5 {
                proof {
                    let next = in_band(all.take(i + 1), lo as int, hi as int);
                    assert(next == prev.push(*e));
                    assert(first_n(next, 5) == first_n(prev, 5).push(*e));
                    assert(first_n(next, 5)[count as int] == *e);
                    assert(first_n(in_band(all, lo as int, hi as int), 5)[count as int] == *e);
                    assert(first_n(next, 5).drop_last() == first_n(prev, 5));
                }
                let line = entry_text(e);
                push_str(&mut out, line.as_str());
            } else {
                proof {
                    let next = in_band(all.take(i + 1), lo as int, hi as int);
                    assert(first_n(next, 5) == first_n(prev, 5));
                }
            }
            count = count + 1;
        }
        i = i + 1;
    }
    assert(all.take(all.len() as int) == all);
    (count, out)
}

/// Whether the shown entries of a band (its first five) all have summaries
/// that can be cut where they are cut.
fn band_cuttable(entries: &Vec<VulnSummary>, lo: u8, hi: u16) -> (ok: bool)
    ensures
        ok == (forall|k: int|
            0 <= k < first_n(in_band(entries@, lo as int, hi as int), 5).len() ==> summary_cuttable(
                #[trigger] first_n(in_band(entries@, lo as int, hi as int), 5)[k].summary@,
            )),
{
    let ghost all = entries@;
    let mut count: usize = 0;
    let mut i: usize = 0;
    while i < entries.len()
        invariant
            i <= entries.len(),
            all == entries@,
            count == in_band(all.take(i as int), lo as int, hi as int).len(),
            forall|k: int|
                0 <= k < first_n(in_band(all.take(i as int), lo as int, hi as int), 5).len()
                    ==> summary_cuttable(
                    #[trigger] first_n(in_band(all.take(i as int), lo as int, hi as int), 5)[k].summary@,
                ),
        decreases entries.len() - i,
    {
        let e = &entries[i];
        let ghost prev = in_band(all.take(i as int), lo as int, hi as int);
        proof {
            assert(all.take(i + 1) == all.take(i as int).push(*e));
            all.take(i as int).lemma_filter_push(*e, |e: VulnSummary| lo <= e.cvss_tenths < hi);
        }
        if lo <= e.cvss_tenths && (e.cvss_tenths as u16) < hi {
            let ghost next = in_band(all.take(i + 1), lo as int, hi as int);
            if count < 5 {
                proof {
                    assert(next == prev.push(*e));
                    assert(first_n(next, 5) == first_n(prev, 5).push(*e));
                }
                if !summary_can_be_cut(e.summary.as_str()) {
                    proof {
                        assert(first_n(next, 5)[count as int] == *e);
                        lemma_band_prefix(all, i as int + 1, lo as int, hi as int);
                        lemma_first_n_prefix(next, in_band(all, lo as int, hi as int));
                        assert(first_n(in_band(all, lo as int, hi as int), 5)[count as int] == *e);
                    }
                    return false;
                }
            } else {
                proof {
                    assert(next == prev.push(*e));
                    assert(first_n(next, 5) == first_n(prev, 5));
                }
            }
            count = count + 1;
        } else {
            proof {
                assert(in_band(all.take(i + 1), lo as int, hi as int) == prev);
            }
        }
        i = i + 1;
    }
    assert(all.take(all.len() as int) == all);
    true
}

/// The first five of a prefix of a list are a prefix of the first five of the list.
proof fn lemma_first_n_prefix(a: Seq<VulnSummary>, b: Seq<VulnSummary>)
    requires
        a.len() <= b.len(),
        forall|k: int| 0 <= k < a.len() ==> #[trigger] a[k] == b[k],
    ensures
        first_n(a, 5).len() <= first_n(b, 5).len(),
        forall|k: int| 0 <= k < first_n(a, 5).len() ==> #[trigger] first_n(a, 5)[k] == first_n(b, 5)[k],
{
}

/// Whether every summary shown in a vulnerability report can be cut where
/// it is cut, as [`vulnerability_evidence`] requires.
pub fn shown_summaries_can_be_cut(entries: &Vec<VulnSummary>) -> (ok: bool)
    ensures
        ok == shown_summaries_cuttable(entries@),
{
    band_cuttable(entries, 90, 256) && band_cuttable(entries, 70, 90)
}

/// The entries of a band among a prefix are a prefix of those of the whole list.
proof fn lemma_band_prefix(all: Seq<VulnSummary>, n: int, lo: int, hi: int)
    requires
        0 <= n <= all.len(),
    ensures
        in_band(all.take(n), lo, hi).len() <= in_band(all, lo, hi).len(),
        forall|k: int|
            0 <= k < in_band(all.take(n), lo, hi).len() ==> #[trigger] in_band(all.take(n), lo, hi)[k]
                == in_band(all, lo, hi)[k],
    decreases all.len() - n,
{
    if n < all.len() {
        lemma_band_prefix(all, n + 1, lo, hi);
        assert(all.take(n + 1) == all.take(n).push(all[n]));
        all.take(n).lemma_filter_push(all[n], |e: VulnSummary| lo <= e.cvss_tenths < hi);
        let a = in_band(all.take(n), lo, hi);
        let b = in_band(all.take(n + 1), lo, hi);
        assert forall|k: int| 0 <= k < a.len() implies #[trigger] a[k] == in_band(all, lo, hi)[k] by {
            assert(a[k] == b[k]);
        }
    } else {
        assert(all.take(n) == all);
    }
}

fn band_section_text(label: &str, count: usize, lines: &String) -> (out: String)
    ensures
        count > 0 ==> out@ == "\n\n  "@ + label@ + " ("@ + (if count > 5 {
            "top "@ + decimal(5) + " of "@ + decimal(count as nat)
        } else {
            decimal(count as nat)
        }) + "):"@ + lines@,
        count == 0 ==> out@ == Seq::<char>::empty(),
{
    let mut out = String::new();
    if count > 0 {
        push_str(&mut out, "\n\n  ");
        push_str(&mut out, label);
        push_str(&mut out, " (");
        if count > 5 {
            push_str(&mut out, "top ");
            push_decimal(&mut out, 5);
            push_str(&mut out, " of ");
            push_decimal(&mut out, count as u64);
        } else {
            push_decimal(&mut out, count as u64);
        }
        push_str(&mut out, "):");
        push_str(&mut out, lines.as_str());
    }
    out
}

/// The evidence text of a vulnerability report.
#[verifier::spinoff_prover]
pub fn vulnerability_evidence(ecosystem: &str, package: &str, entries: &Vec<VulnSummary>) -> (out: String)
    requires
        shown_summaries_cuttable(entries@),
    ensures
        out@ == vulnerability_evidence_spec(ecosystem@, package@, entries@),
{
    let (crit, crit_lines) = band_lines(entries, 90, 256);
    let (high, high_lines) = band_lines(entries, 70, 90);
    proof {
        lemma_bands_disjoint(entries@);
    }
    let rest = entries.len() - crit - high;
    let mut out = String::new();
    push_str(&mut out, ecosystem);
    push_str(&mut out, " (");
    push_str(&mut out, package);
    push_str(&mut out, ") - ");
    push_decimal(&mut out, entries.len() as u64);
    push_str(&mut out, " known advisories\n  Critical: ");
    push_decimal(&mut out, crit as u64);
    push_str(&mut out, "  High: ");
    push_decimal(&mut out, high as u64);
    push_str(&mut out, "  Moderate/Low: ");
    push_decimal(&mut out, rest as u64);
    push_str(&mut out, band_section_text("Critical", crit, &crit_lines).as_str());
    push_str(&mut out, band_section_text("High", high, &high_lines).as_str());
    if rest > 0 {
        push_str(&mut out, "\n  + ");
        push_decimal(&mut out, rest as u64);
        push_str(&mut out, " more moderate/low severity advisories");
    }
    assert(out@ =~= vulnerability_evidence_spec(ecosystem@, package@, entries@));
    out
}

/// The critical and high bands together hold at most all entries.
proof fn lemma_bands_disjoint(entries: Seq<VulnSummary>)
    ensures
        in_band(entries, 90, 256).len() + in_band(entries, 70, 90).len() <= entries.len(),
    decreases entries.len(),
{
    if entries.len() > 0 {
        lemma_bands_disjoint(entries.drop_last());
        assert(entries.drop_last().push(entries.last()) == entries);
        entries.drop_last().lemma_filter_push(entries.last(), |e: VulnSummary| 90 <= e.cvss_tenths < 256);
        entries.drop_last().lemma_filter_push(entries.last(), |e: VulnSummary| 70 <= e.cvss_tenths < 90);
    }
}

/// The finding of an OSV report: source `OSV (GitHub)` for the GitHub
/// ecosystem, `OSV` otherwise; severity from the score band.
pub open spec fn osv_finding_spec(ecosystem: Seq<char>, package: Seq<char>, entries: Seq<VulnSummary>, score: u8) -> FindingView {
    FindingView {
        source: if ecosystem == "GitHub"@ {
            "OSV (GitHub)"@
        } else {
            "OSV"@
        },
        title: "Known vulnerabilities in package"@,
        detail: "The software being installed has publicly known security vulnerabilities"@,
        severity: risk_band(score as int),
        score,
        evidence: vulnerability_evidence_spec(ecosystem, package, entries),
    }
}

/// The finding of an OSV report with the given score (at most 100).
pub fn osv_finding(ecosystem: &str, package: &str, entries: &Vec<VulnSummary>, score: u8) -> (f: Finding)
    requires
        shown_summaries_cuttable(entries@),
        score <= 100,
    ensures
        f@ == osv_finding_spec(ecosystem@, package@, entries@, score),
{
    Finding {
        source: if crate::text::str_eq(ecosystem, "GitHub") {
            "OSV (GitHub)"
        } else {
            "OSV"
        },
        title: "Known vulnerabilities in package",
        detail: "The software being installed has publicly known security vulnerabilities",
        severity: severity_for_score(score),
        score,
        evidence: vulnerability_evidence(ecosystem, package, entries),
    }
}

/// The score, in tenths, that an OSV severity label stands for.
pub open spec fn osv_label_tenths(label: Option<Seq<char>>) -> int {
    match label {
        Some(l) => if crate::text::eq_ignore_case(l, "critical"@) {
            95
        } else if crate::text::eq_ignore_case(l, "high"@) {
            80
        } else if crate::text::eq_ignore_case(l, "moderate"@) || crate::text::eq_ignore_case(
            l,
            "medium"@,
        ) {
            55
        } else {
            30
        },
        None => 30,
    }
}

/// A severity entry of an OSV record: its type and score strings.
#[derive(Debug)]
pub struct SeverityEntry {
    pub kind: String,
    pub score: String,
}

/// The first CVSS severity entry whose vector yields a score.
pub open spec fn first_cvss_score(es: Seq<SeverityEntry>) -> Option<int>
    decreases es.len(),
{
    if es.len() == 0 {
        None
    } else if crate::text::contains(es[0].kind@, "CVSS"@) && cvss_base_tenths(es[0].score@) is Some {
        cvss_base_tenths(es[0].score@)
    } else {
        first_cvss_score(es.drop_first())
    }
}

/// The CVSS score of an OSV record, in tenths: a positive database score;
/// else, when severity entries are listed, the first CVSS vector that
/// yields a score (3.0 when none does); else the severity label's score.
pub open spec fn osv_cvss_spec(db_score: Option<u8>, severities: Option<Seq<SeverityEntry>>, label: Option<Seq<char>>) -> int {
    match db_score {
        Some(s) if s > 0 => s as int,
        _ => match severities {
            Some(es) => match first_cvss_score(es) {
                Some(t) => t,
                None => 30,
            },
            None => osv_label_tenths(label),
        },
    }
}

fn label_tenths(label: Option<&str>) -> (t: u8)
    ensures
        t == osv_label_tenths(
            match label {
                Some(l) => Some(l@),
                None => None,
            },
        ),
{
    match label {
        Some(l) => if crate::text::eq_ignore_case_exec(l, "critical") {
            95
        } else if crate::text::eq_ignore_case_exec(l, "high") {
            80
        } else if crate::text::eq_ignore_case_exec(l, "moderate")
            || crate::text::eq_ignore_case_exec(l, "medium") {
            55
        } else {
            30
        },
        None => 30,
    }
}

/// The CVSS score of an OSV record, in tenths.
pub fn osv_cvss(db_score: Option<u8>, severities: Option<&Vec<SeverityEntry>>, label: Option<&str>) -> (t: u8)
    ensures
        t == osv_cvss_spec(
            db_score,
            match severities {
                Some(es) => Some(es@),
                None => None,
            },
            match label {
                Some(l) => Some(l@),
                None => None,
            },
        ),
{
    if let Some(s) = db_score {
        if s > 0 {
            return s;
        }
    }
    match severities {
        Some(es) => {
            let ghost all = es@;
            let mut i: usize = 0;
            assert(all.skip(0) == all);
            while i < es.len()
                invariant
                    i <= es.len(),
                    all == es@,
                    severities == Some(es),
                    !(db_score matches Some(s) && s > 0),
                    first_cvss_score(all) == first_cvss_score(all.skip(i as int)),
                decreases es.len() - i,
            {
                let e = &es[i];
                assert(all.skip(i as int)[0] == *e);
                assert(all.skip(i as int).drop_first() == all.skip(i + 1));
                if crate::text::contains_exec(
                    chars_of(e.kind.as_str()).as_slice(),
                    chars_of("CVSS").as_slice(),
                ) {
                    if let Some(t) = score_from_cvss_vector(e.score.as_str()) {
                        assert(first_cvss_score(all.skip(i as int)) == Some(t as int));
                        return t;
                    }
                }
                i = i + 1;
            }
            30
        },
        None => label_tenths(label),
    }
}

} // verus!
