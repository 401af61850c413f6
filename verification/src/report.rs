//! Reports: the text shown for findings, scores and per-source breakdowns.
//! Printing itself is left to the caller.

use vstd::prelude::*;

use vstd::string::StringSliceAdditionalSpecFns;

use crate::analyzer::{energy_score, score_of_energy, total_energy, Finding, Severity};
use crate::text::{
    chars_of, decimal, join, pad_left, pad_right, push_chars, push_decimal, push_spaces, push_str,
    spaces, str_eq,
};

verus! {

/// Terminal colour for headings and high-risk text.
pub const RED: &'static str = "\x1b[38;2;249;76;114m";

/// Terminal colour for the banner and low-risk text.
pub const GRN: &'static str = "\x1b[38;2;146;190;30m";

/// Resets the terminal colour.
pub const RST: &'static str = "\x1b[0m";

/// The full-width banner.
pub const HEADER: &'static str = "   .-'''-.    ____     ________     .-''-.  .-./`) ,---.   .--.   .-'''-. ,---------.    ____      .---.     .---.    \n  / _     \\ .'  __ `. |        |  .'_ _   \\ \\ .-.')|    \\  |  |  / _     \\\\          \\ .'  __ `.   | ,_|     | ,_|    \n (`' )/`--'/   '  \\  \\|   .----' / ( ` )   '/ `-' \\|  ,  \\ |  | (`' )/`--' `--.  ,---'/   '  \\  \\,-./  )   ,-./  )    \n(_ o _).   |___|  /  ||  _|____ . (_ o _)  | `-'`\"`|  |\\_\\|  |(_ o _).       |   \\   |___|  /  |\\  '_ '`) \\  '_ '`)   \n (_,_). '.    _.-`   ||_( )_   ||  (_,_)___| .---. |  _( )_\\  | (_,_). '.     :_ _:      _.-`   | > (_)  )  > (_)  )   \n.---.  \\  :.'   _    |(_ o._)__|'  \\   .---. |   | | (_ o _)  |.---.  \\  :    (_I_)   .'   _    |(  .  .-' (  .  .-'   \n\\    `-'  ||  _( )_  ||(_,_)     \\  `-'    / |   | |  (_,_)\\  |\\    `-'  |   (_(=)_)  |  _( )_  | `-'`-'|___`-'`-'|___ \n \\       / \\ (_ o _) /|   |       \\       /  |   | |  |    |  | \\       /     (_I_)   \\ (_ o _) /  |        \\|        \\\n  `-...-'   '.(_,_).' '---'        `'-..-'   '---' '--'    '--'  `-...-'      '---'    '.(_,_).'   `--------``--------`";

/// The banner for terminals narrower than 95 columns.
pub const HEADER_COMPACT: &'static str = "   .-'''-.    ____     ________     .-''-.   \n  / _     \\ .'  __ `. |        |  .'_ _   \\  \n (`' )/`--'/   '  \\  \\|   .----' / ( ` )   ' \n(_ o _).   |___|  /  ||  _|____ . (_ o _)  | \n (_,_). '.    _.-`   ||_( )_   ||  (_,_)___| \n.---.  \\  :.'   _    |(_ o._)__|'  \\   .---. \n\\    `-'  ||  _( )_  ||(_,_)     \\  `-'    / \n \\       / \\ (_ o _) /|   |       \\       /  \n  `-...-'   '.(_,_).' '---'        `'-..-'   ";

/// The display name of a severity.
pub open spec fn severity_label(severity: Severity) -> Seq<char> {
    match severity {
        Severity::Low => "Low"@,
        Severity::Medium => "Moderate"@,
        Severity::High => "High"@,
        Severity::Critical => "Critical"@,
    }
}

/// The display name of a severity.
pub fn severity_name(severity: &Severity) -> (name: &'static str)
    ensures
        name@ == severity_label(*severity),
{
    match severity {
        Severity::Low => "Low",
        Severity::Medium => "Moderate",
        Severity::High => "High",
        Severity::Critical => "Critical",
    }
}

/// The banner text with every parenthesis in red and everything else in green.
pub open spec fn colorize(raw: Seq<char>) -> Seq<char>
    decreases raw.len(),
{
    if raw.len() == 0 {
        Seq::empty()
    } else {
        let c = raw.last();
        colorize(raw.drop_last()) + if c == '(' || c == ')' {
            RED@ + seq![c] + GRN@
        } else {
            seq![c]
        }
    }
}

/// The coloured banner, compact for narrow terminals.
pub open spec fn banner(narrow: bool) -> Seq<char> {
    GRN@ + colorize(if narrow { HEADER_COMPACT@ } else { HEADER@ }) + RST@
}

/// The coloured banner shown before a report.
pub fn header(narrow: bool) -> (out: String)
    ensures
        out@ == banner(narrow),
{
    let raw = if narrow {
        HEADER_COMPACT
    } else {
        HEADER
    };
    let cs = chars_of(raw);
    let red = chars_of(RED);
    let grn = chars_of(GRN);
    let mut out = String::new();
    push_str(&mut out, GRN);
    let mut i: usize = 0;
    while i < cs.len()
        invariant
            i <= cs.len(),
            cs@ == raw@,
            red@ == RED@,
            grn@ == GRN@,
            out@ == GRN@ + colorize(cs@.take(i as int)),
        decreases cs.len() - i,
    {
        let c = cs[i];
        assert(cs@.take(i + 1).drop_last() == cs@.take(i as int));
        assert(cs@.take(i + 1).last() == c);
        if c == '(' || c == ')' {
            push_chars(&mut out, red.as_slice());
            push_chars(&mut out, &[c]);
            push_chars(&mut out, grn.as_slice());
        } else {
            push_chars(&mut out, &[c]);
        }
        proof {
            assert(out@ =~= GRN@ + colorize(cs@.take(i + 1)));
        }
        i = i + 1;
    }
    assert(cs@.take(cs@.len() as int) == cs@);
    push_str(&mut out, RST);
    out
}

/// The lines printed for a finding; the source heading is repeated only when
/// the source changes, separated by a blank line from earlier output.
pub open spec fn finding_block(f: Finding, prev: Option<Seq<char>>) -> Seq<char> {
    let heading = if prev != Some(f.source@) {
        (if prev is Some {
            "\n"@
        } else {
            Seq::empty()
        }) + "  "@ + RED@ + f.source@ + RST@ + "\n"@
    } else {
        Seq::empty()
    };
    heading + "  ["@ + severity_label(f.severity) + "] "@ + f.title@ + " (+"@ + decimal(
        f.score as nat,
    ) + "): "@ + f.detail@ + "\n"@ + "  Evidence: "@ + f.evidence@ + "\n"@
}

/// The text printed for a finding after the finding `prev_source` came from,
/// and the source to remember for the next finding.
pub fn finding_text(finding: &Finding, prev_source: Option<&'static str>) -> (r: (
    String,
    Option<&'static str>,
))
    ensures
        r.0@ == finding_block(
            *finding,
            match prev_source {
                Some(p) => Some(p@),
                None => None,
            },
        ),
        r.1 == Some(finding.source),
{
    let mut out = String::new();
    let same = match prev_source {
        Some(p) => str_eq(p, finding.source),
        None => false,
    };
    if !same {
        if prev_source.is_some() {
            push_str(&mut out, "\n");
        }
        push_str(&mut out, "  ");
        push_str(&mut out, RED);
        push_str(&mut out, finding.source);
        push_str(&mut out, RST);
        push_str(&mut out, "\n");
    }
    push_str(&mut out, "  [");
    push_str(&mut out, severity_name(&finding.severity));
    push_str(&mut out, "] ");
    push_str(&mut out, finding.title);
    push_str(&mut out, " (+");
    push_decimal(&mut out, finding.score as u64);
    push_str(&mut out, "): ");
    push_str(&mut out, finding.detail);
    push_str(&mut out, "\n");
    push_str(&mut out, "  Evidence: ");
    push_str(&mut out, finding.evidence.as_str());
    push_str(&mut out, "\n");
    proof {
        let prev = match prev_source {
            Some(p) => Some(p@),
            None => None,
        };
        assert(out@ =~= finding_block(*finding, prev));
    }
    (out, Some(finding.source))
}

/// The risk score lines, followed by the per-source breakdown if there is one.
pub open spec fn score_block(score: u8, risk: Severity, sources: Seq<char>) -> Seq<char> {
    "\n"@ + "  "@ + RED@ + "Risk score: "@ + decimal(score as nat) + "/100 ("@ + severity_label(risk)
        + ")"@ + RST@ + "\n"@ + if sources.len() > 0 {
        "    "@ + sources + "\n"@
    } else {
        Seq::empty()
    }
}

/// The text printed for the overall score.
pub fn score_text(score: u8, risk: &Severity, sources: &str) -> (out: String)
    ensures
        out@ == score_block(score, *risk, sources@),
{
    let mut out = String::new();
    push_str(&mut out, "\n");
    push_str(&mut out, "  ");
    push_str(&mut out, RED);
    push_str(&mut out, "Risk score: ");
    push_decimal(&mut out, score as u64);
    push_str(&mut out, "/100 (");
    push_str(&mut out, severity_name(risk));
    push_str(&mut out, ")");
    push_str(&mut out, RST);
    push_str(&mut out, "\n");
    if !sources.is_empty() {
        push_str(&mut out, "    ");
        push_str(&mut out, sources);
        push_str(&mut out, "\n");
    }
    assert(out@ =~= score_block(score, *risk, sources@));
    out
}

// ---------------------------------------------------------------------------
// Per-source breakdown
// ---------------------------------------------------------------------------

/// Position of the group for `src`, or `g.len()` when there is none.
pub open spec fn group_index(g: Seq<(&'static str, int)>, src: Seq<char>) -> int
    decreases g.len(),
{
    if g.len() == 0 || g[0].0@ == src {
        0
    } else {
        1 + group_index(g.drop_first(), src)
    }
}

/// The sources of the findings in order of first appearance, each with the
/// sum of the scores of its findings.
pub open spec fn source_groups(s: Seq<Finding>) -> Seq<(&'static str, int)>
    decreases s.len(),
{
    if s.len() == 0 {
        Seq::empty()
    } else {
        let g = source_groups(s.drop_last());
        let f = s.last();
        let j = group_index(g, f.source@);
        if j < g.len() {
            g.update(j, (g[j].0, g[j].1 + f.score))
        } else {
            g.push((f.source, f.score as int))
        }
    }
}

/// The widest source name, in bytes.
pub open spec fn widest(g: Seq<(&'static str, int)>) -> int
    decreases g.len(),
{
    if g.len() == 0 {
        0
    } else {
        let w = widest(g.drop_last());
        let n = g.last().0.len() as int;
        if n > w {
            n
        } else {
            w
        }
    }
}

/// One breakdown line: the source padded to `width`, two spaces, and the
/// energy score of the source's findings right-aligned in three columns.
pub open spec fn breakdown_line(src: Seq<char>, total: int, width: int) -> Seq<char> {
    pad_right(src, width) + "  "@ + pad_left(decimal(energy_score(total) as nat), 3)
}

/// The breakdown lines of all groups.
pub open spec fn breakdown_lines(g: Seq<(&'static str, int)>, width: int) -> Seq<Seq<char>> {
    g.map_values(|e: (&'static str, int)| breakdown_line(e.0@, e.1, width))
}

/// The per-source score breakdown: one line per source, joined by a newline
/// and an indent.
pub open spec fn breakdown(s: Seq<Finding>) -> Seq<char> {
    let g = source_groups(s);
    join(breakdown_lines(g, widest(g)), "\n    "@)
}

/// No source's scores add up to more than a `u16` holds.
pub open spec fn source_sums_fit(s: Seq<Finding>) -> bool {
    forall|j: int| 0 <= j < source_groups(s).len() ==> #[trigger] source_groups(s)[j].1 <= 65535
}

/// A finding comes from the source `src`.
pub open spec fn from_source(src: Seq<char>) -> spec_fn(Finding) -> bool {
    |f: Finding| f.source@ == src
}

/// The findings that come from the source `src`, in order.
pub open spec fn findings_from(s: Seq<Finding>, src: Seq<char>) -> Seq<Finding> {
    s.filter(from_source(src))
}

/// Some group is for the source `src`.
pub open spec fn has_group(g: Seq<(&'static str, int)>, src: Seq<char>) -> bool {
    exists|j: int| 0 <= j < g.len() && g[j].0@ == src
}

/// Appending a finding adds its score to the energy of its own source only.
proof fn lemma_findings_from_push(s: Seq<Finding>, f: Finding, src: Seq<char>)
    ensures
        total_energy(findings_from(s.push(f), src)) == total_energy(findings_from(s, src)) + (if f.source@
            == src {
            f.score as int
        } else {
            0
        }),
{
    s.lemma_filter_push(f, from_source(src));
    let x = findings_from(s, src);
    assert(x.push(f).drop_last() == x);
}

/// The groups list each source once, cover every finding's source, and hold
/// the energy of exactly that source's findings.
proof fn lemma_source_groups(s: Seq<Finding>)
    ensures
        forall|j: int|
            0 <= j < source_groups(s).len() ==> #[trigger] source_groups(s)[j].1 == total_energy(
                findings_from(s, source_groups(s)[j].0@),
            ),
        forall|i: int, j: int|
            0 <= i < j < source_groups(s).len() ==> #[trigger] source_groups(s)[i].0@
                != #[trigger] source_groups(s)[j].0@,
        forall|k: int| 0 <= k < s.len() ==> has_group(source_groups(s), #[trigger] s[k].source@),
    decreases s.len(),
{
    if s.len() == 0 {
        return;
    }
    let prev = s.drop_last();
    let f = s.last();
    assert(prev.push(f) == s);
    lemma_source_groups(prev);
    let gp = source_groups(prev);
    let g = source_groups(s);
    let src = f.source@;
    let idx = group_index(gp, src);
    lemma_group_index(gp, src);
    if idx < gp.len() {
        assert(g == gp.update(idx, (gp[idx].0, gp[idx].1 + f.score)));
        assert forall|j: int| 0 <= j < g.len() implies #[trigger] g[j].1 == total_energy(
            findings_from(s, g[j].0@),
        ) by {
            lemma_findings_from_push(prev, f, gp[j].0@);
            if j != idx {
                assert(gp[j].0@ != gp[idx].0@);
            }
        }
        assert forall|i: int, j: int| 0 <= i < j < g.len() implies #[trigger] g[i].0@ != #[trigger] g[j].0@ by {
            assert(gp[i].0@ != gp[j].0@);
        }
        assert forall|k: int| 0 <= k < s.len() implies has_group(g, #[trigger] s[k].source@) by {
            if k < prev.len() {
                assert(s[k] == prev[k]);
                let w = choose|w: int| 0 <= w < gp.len() && gp[w].0@ == prev[k].source@;
                assert(g[w].0@ == gp[w].0@);
            } else {
                assert(g[idx].0@ == src);
            }
        }
    } else {
        assert(g == gp.push((f.source, f.score as int)));
        let none = findings_from(prev, src);
        if none.len() > 0 {
            prev.lemma_filter_pred(from_source(src), 0);
            assert(none.contains(none[0]));
            prev.lemma_filter_contains_rev(from_source(src), none[0]);
            let k = choose|k: int| 0 <= k < prev.len() && prev[k] == none[0];
            assert(has_group(gp, prev[k].source@));
            assert(false);
        }
        assert(none =~= Seq::<Finding>::empty());
        assert(total_energy(Seq::<Finding>::empty()) == 0);
        assert forall|j: int| 0 <= j < g.len() implies #[trigger] g[j].1 == total_energy(
            findings_from(s, g[j].0@),
        ) by {
            lemma_findings_from_push(prev, f, g[j].0@);
        }
        assert forall|i: int, j: int| 0 <= i < j < g.len() implies #[trigger] g[i].0@ != #[trigger] g[j].0@ by {
            if j < gp.len() {
                assert(gp[i].0@ != gp[j].0@);
            }
        }
        assert forall|k: int| 0 <= k < s.len() implies has_group(g, #[trigger] s[k].source@) by {
            if k < prev.len() {
                assert(s[k] == prev[k]);
                let w = choose|w: int| 0 <= w < gp.len() && gp[w].0@ == prev[k].source@;
                assert(g[w].0@ == gp[w].0@);
            } else {
                assert(g[gp.len() as int].0@ == src);
            }
        }
    }
}

/// The breakdown scores each source alone: it has one line per distinct
/// source, every finding's source has a line, and each line shows the energy
/// score of exactly the findings from its source.
pub proof fn breakdown_scores_each_source_alone(s: Seq<Finding>)
    ensures
        breakdown(s) == join(breakdown_lines(source_groups(s), widest(source_groups(s))), "\n    "@),
        forall|j: int|
            0 <= j < source_groups(s).len() ==> #[trigger] breakdown_lines(
                source_groups(s),
                widest(source_groups(s)),
            )[j] == breakdown_line(
                source_groups(s)[j].0@,
                total_energy(findings_from(s, source_groups(s)[j].0@)),
                widest(source_groups(s)),
            ),
        forall|i: int, j: int|
            0 <= i < j < source_groups(s).len() ==> #[trigger] source_groups(s)[i].0@
                != #[trigger] source_groups(s)[j].0@,
        forall|k: int| 0 <= k < s.len() ==> has_group(source_groups(s), #[trigger] s[k].source@),
{
    lemma_source_groups(s);
}

/// The sums of a prefix are bounded by those of the whole list.
proof fn lemma_groups_prefix(s: Seq<Finding>, n: int)
    requires
        0 <= n <= s.len(),
    ensures
        source_groups(s.take(n)).len() <= source_groups(s).len(),
        forall|j: int|
            0 <= j < source_groups(s.take(n)).len() ==> 0 <= #[trigger] source_groups(s.take(n))[j].1 <= source_groups(s)[j].1,
    decreases s.len() - n,
{
    if n < s.len() {
        lemma_groups_prefix(s, n + 1);
        let g = source_groups(s.take(n));
        assert(s.take(n + 1).drop_last() == s.take(n));
        let j = group_index(g, s[n].source@);
        lemma_group_index(g, s[n].source@);
        lemma_groups_nonneg(s.take(n));
        let g1 = source_groups(s.take(n + 1));
        assert(s.take(n + 1).last() == s[n]);
        assert(g1 == if j < g.len() {
            g.update(j, (g[j].0, g[j].1 + s[n].score))
        } else {
            g.push((s[n].source, s[n].score as int))
        });
        assert forall|k: int| 0 <= k < g.len() implies 0
            <= #[trigger] g[k].1 <= source_groups(s)[k].1 by {
            assert(g1[k].0@ == g[k].0@);
            assert(g1[k].1 >= g[k].1);
            assert(0 <= g1[k].1 <= source_groups(s)[k].1);
        }
        assert(g.len() <= g1.len());
        assert(g1.len() <= source_groups(s).len());
        assert forall|j: int|
            0 <= j < source_groups(s.take(n)).len() implies 0 <= #[trigger] source_groups(s.take(n))[j].1
            <= source_groups(s)[j].1 by {
            assert(0 <= g[j].1 <= source_groups(s)[j].1);
        }
    } else {
        assert(s.take(n) == s);
        lemma_groups_nonneg(s);
        assert forall|j: int|
            0 <= j < source_groups(s.take(n)).len() implies 0 <= #[trigger] source_groups(s.take(n))[j].1
            <= source_groups(s)[j].1 by {
            assert(source_groups(s)[j].1 >= 0);
        }
    }
}

proof fn lemma_groups_nonneg(s: Seq<Finding>)
    ensures
        forall|j: int| 0 <= j < source_groups(s).len() ==> 0 <= #[trigger] source_groups(s)[j].1,
    decreases s.len(),
{
    if s.len() > 0 {
        lemma_groups_nonneg(s.drop_last());
        lemma_group_index(source_groups(s.drop_last()), s.last().source@);
    }
}

proof fn lemma_group_index(g: Seq<(&'static str, int)>, src: Seq<char>)
    ensures
        0 <= group_index(g, src) <= g.len(),
        group_index(g, src) < g.len() ==> g[group_index(g, src)].0@ == src,
        forall|k: int| 0 <= k < group_index(g, src) ==> g[k].0@ != src,
    decreases g.len(),
{
    if g.len() > 0 && g[0].0@ != src {
        lemma_group_index(g.drop_first(), src);
        assert forall|k: int| 0 <= k < group_index(g, src) implies g[k].0@ != src by {
            if k > 0 {
                assert(g[k] == g.drop_first()[k - 1]);
            }
        }
    }
}

/// The view of a list of exec groups.
pub open spec fn group_views(g: Seq<(&'static str, u16)>) -> Seq<(&'static str, int)> {
    g.map_values(|e: (&'static str, u16)| (e.0, e.1 as int))
}

fn find_group(groups: &Vec<(&'static str, u16)>, src: &'static str) -> (j: usize)
    ensures
        j == group_index(group_views(groups@), src@),
{
    let ghost g = group_views(groups@);
    let mut j: usize = 0;
    assert(g.skip(0) == g);
    while j < groups.len()
        invariant
            j <= groups.len(),
            g == group_views(groups@),
            group_index(g, src@) == j + group_index(g.skip(j as int), src@),
        decreases groups.len() - j,
    {
        assert(g.skip(j as int)[0] == g[j as int]);
        if str_eq(groups[j].0, src) {
            return j;
        }
        assert(g.skip(j as int).drop_first() == g.skip(j + 1));
        j = j + 1;
    }
    j
}

/// Groups the findings by source with summed scores; `None` when some sum
/// exceeds 16 bits.
fn group_sources(findings: &[Finding]) -> (r: Option<Vec<(&'static str, u16)>>)
    ensures
        match r {
            Some(g) => source_sums_fit(findings@) && group_views(g@) == source_groups(findings@),
            None => !source_sums_fit(findings@),
        },
{
    let mut groups: Vec<(&'static str, u16)> = Vec::new();
    let mut i: usize = 0;
    assert(group_views(groups@) =~= source_groups(findings@.take(0)));
    while i < findings.len()
        invariant
            i <= findings.len(),
            group_views(groups@) == source_groups(findings@.take(i as int)),
        decreases findings.len() - i,
    {
        let f = &findings[i];
        proof {
            lemma_groups_prefix(findings@, i + 1);
            assert(findings@.take(i + 1).drop_last() == findings@.take(i as int));
            assert(findings@.take(i + 1).last() == *f);
        }
        let j = find_group(&groups, f.source);
        proof {
            lemma_group_index(group_views(groups@), f.source@);
        }
        if j < groups.len() {
            let (src, sum) = groups[j];
            assert(source_groups(findings@.take(i + 1))[j as int].1 == sum + f.score);
            if sum as u32 + f.score as u32 > 65535 {
                assert(source_groups(findings@)[j as int].1 > 65535);
                return None;
            }
            let new_sum = sum + f.score as u16;
            groups.set(j, (src, new_sum));
        } else {
            groups.push((f.source, f.score as u16));
        }
        proof {
            assert(group_views(groups@) =~= source_groups(findings@.take(i + 1)));
        }
        i = i + 1;
    }
    assert(findings@.take(findings@.len() as int) == findings@);
    assert forall|j: int| 0 <= j < source_groups(findings@).len() implies #[trigger] source_groups(
        findings@,
    )[j].1 <= 65535 by {
        assert(source_groups(findings@)[j] == group_views(groups@)[j]);
    }
    Some(groups)
}

/// Formats grouped sums as breakdown lines.
fn format_breakdown(groups: &Vec<(&'static str, u16)>) -> (out: String)
    ensures
        out@ == join(
            breakdown_lines(group_views(groups@), widest(group_views(groups@))),
            "\n    "@,
        ),
{
    let ghost g = group_views(groups@);
    let mut width: usize = 0;
    let mut k: usize = 0;
    while k < groups.len()
        invariant
            k <= groups.len(),
            group_views(groups@) == g,
            width == widest(g.take(k as int)),
        decreases groups.len() - k,
    {
        assert(g.take(k + 1).drop_last() == g.take(k as int));
        assert(g.take(k + 1).last() == g[k as int]);
        assert(g[k as int].0 == groups@[k as int].0);
        let src: &'static str = groups[k].0;
        let n = src.len();
        assert(src == g.take(k + 1).last().0);
        if n > width {
            width = n;
        }
        k = k + 1;
    }
    assert(g.take(g.len() as int) == g);
    let mut out = String::new();
    let mut k: usize = 0;
    let ghost lines = breakdown_lines(g, width as int);
    while k < groups.len()
        invariant
            k <= groups.len(),
            group_views(groups@) == g,
            width == widest(g),
            lines == breakdown_lines(g, width as int),
            out@ == join(lines.take(k as int), "\n    "@),
        decreases groups.len() - k,
    {
        let (src, sum) = groups[k];
        if k > 0 {
            push_str(&mut out, "\n    ");
        }
        let sc = chars_of(src);
        push_chars(&mut out, sc.as_slice());
        let shown = sc.len();
        if shown < width {
            push_spaces(&mut out, width - shown);
        }
        push_str(&mut out, "  ");
        let score = score_of_energy(sum as u64);
        let digits = crate::text::decimal_exec(score as u64);
        if digits.len() < 3 {
            push_spaces(&mut out, 3 - digits.len());
        }
        push_chars(&mut out, digits.as_slice());
        proof {
            let line = breakdown_line(src@, sum as int, width as int);
            assert(lines[k as int] == line);
            assert(lines.take(k + 1).drop_last() == lines.take(k as int));
            if k == 0 {
                assert(lines.take(1) == seq![line]);
            }
            assert(out@ =~= join(lines.take(k + 1), "\n    "@));
        }
        k = k + 1;
    }
    assert(lines.take(lines.len() as int) == lines);
    out
}

/// The per-source breakdown of a list of findings: each source's summed
/// scores turned into an energy score.  The sums must fit in 16 bits.
pub fn source_breakdown(findings: &[Finding]) -> (out: String)
    requires
        source_sums_fit(findings@),
    ensures
        out@ == breakdown(findings@),
{
    match group_sources(findings) {
        Some(groups) => format_breakdown(&groups),
        None => {
            assert(false);
            String::new()
        },
    }
}

/// The per-source breakdown, or `None` when some source's scores add up to
/// more than 16 bits hold.
pub fn checked_source_breakdown(findings: &[Finding]) -> (out: Option<String>)
    ensures
        match out {
            Some(s) => source_sums_fit(findings@) && s@ == breakdown(findings@),
            None => !source_sums_fit(findings@),
        },
{
    match group_sources(findings) {
        Some(groups) => Some(format_breakdown(&groups)),
        None => None,
    }
}

} // verus!
