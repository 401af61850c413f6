//! Static analysis findings and the energy-based risk score.
//!
//! Every finding contributes its score as "energy"; the total energy `E`
//! (the sum of the finding scores) saturates exponentially into a score of
//! `round(100 * (1 - exp(-E / 60)))`, capped at 100.  Because `E` is an
//! integer, the score is a step function of `E`; [`energy_score`] lists the
//! least energy that reaches each attainable score, so the whole computation
//! is exact integer arithmetic.

use vstd::prelude::*;

use crate::digest::{hex_lower, sha256_hex, sha256_of};
use crate::pattern::{find_all, find_first, regex_search, regex_search_all};
use crate::source::{Artifact, InstallerKind};
use crate::text::{chars_of, decode_lossy, prefix, prefix_exec, str_eq, string_from, trim, trim_chars, utf8_lossy};
use crate::weburl::UrlView;

verus! {

/// How serious a finding, or an overall assessment, is.
#[derive(Clone, Copy, Debug, PartialEq, Eq, Structural)]
pub enum Severity {
    Low,
    Medium,
    High,
    Critical,
}

/// One observation about an installer, with its contribution to the score.
#[derive(Clone, Debug)]
pub struct Finding {
    pub source: &'static str,
    pub title: &'static str,
    pub detail: &'static str,
    pub severity: Severity,
    pub score: u8,
    pub evidence: String,
}

/// The outcome of analysing one installer or package.
#[derive(Debug)]
pub struct Assessment {
    pub source: String,
    pub host: String,
    pub installer_type: InstallerKind,
    pub sha256: String,
    pub score: u8,
    pub risk: Severity,
    pub findings: Vec<Finding>,
    pub package_summary: Option<String>,
}

/// Total energy of a list of findings: the sum of their scores.
pub open spec fn total_energy(findings: Seq<Finding>) -> int
    decreases findings.len(),
{
    if findings.len() == 0 {
        0
    } else {
        total_energy(findings.drop_last()) + findings.last().score
    }
}

/// The score reached by a total energy `total`: `round(100 * (1 - exp(-total / 60)))`.
/// Each branch gives the least energy at which that score is reached.
pub open spec fn energy_score(total: int) -> int {
    if total >= 318 {
        100
    } else if total >= 252 {
        99
    } else if total >= 222 {
        98
    } else if total >= 202 {
        97
    } else if total >= 187 {
        96
    } else if total >= 175 {
        95
    } else if total >= 165 {
        94
    } else if total >= 156 {
        93
    } else if total >= 148 {
        92
    } else if total >= 142 {
        91
    } else if total >= 136 {
        90
    } else if total >= 130 {
        89
    } else if total >= 125 {
        88
    } else if total >= 121 {
        87
    } else if total >= 116 {
        86
    } else if total >= 112 {
        85
    } else if total >= 109 {
        84
    } else if total >= 105 {
        83
    } else if total >= 102 {
        82
    } else if total >= 99 {
        81
    } else if total >= 96 {
        80
    } else if total >= 93 {
        79
    } else if total >= 90 {
        78
    } else if total >= 87 {
        77
    } else if total >= 85 {
        76
    } else if total >= 82 {
        75
    } else if total >= 80 {
        74
    } else if total >= 78 {
        73
    } else if total >= 76 {
        72
    } else if total >= 74 {
        71
    } else if total >= 72 {
        70
    } else if total >= 70 {
        69
    } else if total >= 68 {
        68
    } else if total >= 66 {
        67
    } else if total >= 64 {
        66
    } else if total >= 63 {
        65
    } else if total >= 61 {
        64
    } else if total >= 59 {
        63
    } else if total >= 58 {
        62
    } else if total >= 56 {
        61
    } else if total >= 55 {
        60
    } else if total >= 53 {
        59
    } else if total >= 52 {
        58
    } else if total >= 50 {
        57
    } else if total >= 49 {
        56
    } else if total >= 48 {
        55
    } else if total >= 46 {
        54
    } else if total >= 45 {
        53
    } else if total >= 44 {
        52
    } else if total >= 43 {
        51
    } else if total >= 41 {
        50
    } else if total >= 40 {
        49
    } else if total >= 39 {
        48
    } else if total >= 38 {
        47
    } else if total >= 37 {
        46
    } else if total >= 36 {
        45
    } else if total >= 35 {
        44
    } else if total >= 34 {
        43
    } else if total >= 33 {
        42
    } else if total >= 32 {
        41
    } else if total >= 31 {
        40
    } else if total >= 30 {
        39
    } else if total >= 29 {
        38
    } else if total >= 28 {
        37
    } else if total >= 27 {
        36
    } else if total >= 26 {
        35
    } else if total >= 25 {
        34
    } else if total >= 24 {
        33
    } else if total >= 23 {
        32
    } else if total >= 22 {
        31
    } else if total >= 21 {
        30
    } else if total >= 20 {
        28
    } else if total >= 19 {
        27
    } else if total >= 18 {
        26
    } else if total >= 17 {
        25
    } else if total >= 16 {
        23
    } else if total >= 15 {
        22
    } else if total >= 14 {
        21
    } else if total >= 13 {
        19
    } else if total >= 12 {
        18
    } else if total >= 11 {
        17
    } else if total >= 10 {
        15
    } else if total >= 9 {
        14
    } else if total >= 8 {
        12
    } else if total >= 7 {
        11
    } else if total >= 6 {
        10
    } else if total >= 5 {
        8
    } else if total >= 4 {
        6
    } else if total >= 3 {
        5
    } else if total >= 2 {
        3
    } else if total >= 1 {
        2
    } else {
        0
    }
}

/// The risk band of a score: 0-25 low, 26-50 medium, 51-75 high, above critical.
pub open spec fn risk_band(score: int) -> Severity {
    if score <= 25 {
        Severity::Low
    } else if score <= 50 {
        Severity::Medium
    } else if score <= 75 {
        Severity::High
    } else {
        Severity::Critical
    }
}

/// Numeric rank of a severity, for comparisons.
pub open spec fn severity_rank(s: Severity) -> int {
    match s {
        Severity::Low => 0,
        Severity::Medium => 1,
        Severity::High => 2,
        Severity::Critical => 3,
    }
}

/// The score and risk band of a list of findings.
pub open spec fn assessed(findings: Seq<Finding>) -> (int, Severity) {
    let score = energy_score(total_energy(findings));
    (score, risk_band(score))
}

/// The energy score never decreases as energy grows.
pub proof fn lemma_energy_score_monotone(a: int, b: int)
    requires
        0 <= a <= b,
    ensures
        energy_score(a) <= energy_score(b),
{
}

/// The energy score lies in 0..=100; it is 0 exactly at zero energy and
/// reaches 100 exactly from an energy of 318 on.
pub proof fn lemma_energy_score_range(t: int)
    requires
        t >= 0,
    ensures
        0 <= energy_score(t) <= 100,
        energy_score(t) == 0 <==> t == 0,
        energy_score(t) == 100 <==> t >= 318,
{
}

/// The risk band never drops as the score grows.
pub proof fn lemma_risk_band_monotone(a: int, b: int)
    requires
        a <= b,
    ensures
        severity_rank(risk_band(a)) <= severity_rank(risk_band(b)),
{
}

/// Energy is additive over concatenation.
pub proof fn lemma_total_energy_concat(a: Seq<Finding>, b: Seq<Finding>)
    ensures
        total_energy(a + b) == total_energy(a) + total_energy(b),
    decreases b.len(),
{
    if b.len() > 0 {
        assert((a + b).drop_last() == a + b.drop_last());
        lemma_total_energy_concat(a, b.drop_last());
    } else {
        assert(a + b == a);
    }
}

/// Energy is never negative.
pub proof fn lemma_total_energy_nonneg(a: Seq<Finding>)
    ensures
        total_energy(a) >= 0,
    decreases a.len(),
{
    if a.len() > 0 {
        lemma_total_energy_nonneg(a.drop_last());
    }
}

/// Adding a finding never lowers the score or the risk band of an assessment.
pub proof fn adding_a_finding_never_lowers_the_score(findings: Seq<Finding>, extra: Finding)
    ensures
        assessed(findings).0 <= assessed(findings.push(extra)).0,
        severity_rank(assessed(findings).1) <= severity_rank(assessed(findings.push(extra)).1),
{
    assert(findings.push(extra).drop_last() == findings);
    lemma_total_energy_nonneg(findings);
    lemma_energy_score_monotone(total_energy(findings), total_energy(findings.push(extra)));
    lemma_risk_band_monotone(assessed(findings).0, assessed(findings.push(extra)).0);
}

/// The score of a list of findings does not depend on their order.
pub proof fn score_ignores_order(a: Seq<Finding>, b: Seq<Finding>)
    ensures
        assessed(a + b) == assessed(b + a),
{
    lemma_total_energy_concat(a, b);
    lemma_total_energy_concat(b, a);
}

/// However many findings there are, the score never exceeds 100, and it is 0
/// exactly when the findings carry no energy.
pub proof fn score_is_bounded(findings: Seq<Finding>)
    ensures
        0 <= assessed(findings).0 <= 100,
        assessed(findings).0 == 0 <==> total_energy(findings) == 0,
{
    lemma_total_energy_nonneg(findings);
    lemma_energy_score_range(total_energy(findings));
}

/// Below saturation, two energies other than 2 and 4 score no more together
/// than apart.
proof fn lemma_subadditive_below_saturation(x: int, y: int)
    requires
        0 <= x <= y < 318,
        !(x == 2 && y == 4),
    ensures
        energy_score(x + y) <= energy_score(x) + energy_score(y),
{
}

/// Energies never score more together than apart: the score of two energies
/// combined is at most the sum of their scores.  The one exception is the
/// pair 2 and 4, which score 3 and 6 apart and 10 together, rounding adding
/// a point.
pub proof fn combined_energy_never_outscores_its_parts(a: int, b: int)
    requires
        0 <= a,
        0 <= b,
        !(a == 2 && b == 4),
        !(a == 4 && b == 2),
    ensures
        energy_score(a + b) <= energy_score(a) + energy_score(b),
{
    lemma_energy_score_range(a);
    lemma_energy_score_range(b);
    lemma_energy_score_range(a + b);
    if a < 318 && b < 318 {
        if a <= b {
            lemma_subadditive_below_saturation(a, b);
        } else {
            lemma_subadditive_below_saturation(b, a);
        }
    }
}

/// Findings have diminishing returns: adding a finding raises the score by at
/// most what that finding would score alone, except where energies 2 and 4 meet.
pub proof fn findings_have_diminishing_returns(findings: Seq<Finding>, extra: Finding)
    requires
        !(total_energy(findings) == 2 && extra.score == 4),
        !(total_energy(findings) == 4 && extra.score == 2),
    ensures
        assessed(findings.push(extra)).0 <= assessed(findings).0 + energy_score(extra.score as int),
{
    assert(findings.push(extra).drop_last() == findings);
    lemma_total_energy_nonneg(findings);
    combined_energy_never_outscores_its_parts(total_energy(findings), extra.score as int);
}

/// Any two energies score together at most one point more than apart.
proof fn lemma_energy_score_near_subadditive(a: int, b: int)
    requires
        0 <= a,
        0 <= b,
    ensures
        energy_score(a + b) <= energy_score(a) + energy_score(b) + 1,
{
    if (a == 2 && b == 4) || (a == 4 && b == 2) {
        assert(energy_score(6) == 10);
    } else {
        combined_energy_never_outscores_its_parts(a, b);
    }
}

/// Appending findings never lowers the score, and raises it by at most what
/// the appended findings score on their own, plus one point of rounding.
pub proof fn appending_findings_bounds_the_score(a: Seq<Finding>, b: Seq<Finding>)
    ensures
        assessed(a).0 <= assessed(a + b).0,
        assessed(a + b).0 <= assessed(a).0 + assessed(b).0 + 1,
{
    lemma_total_energy_concat(a, b);
    lemma_total_energy_nonneg(a);
    lemma_total_energy_nonneg(b);
    lemma_energy_score_monotone(total_energy(a), total_energy(a + b));
    lemma_energy_score_near_subadditive(total_energy(a), total_energy(b));
}

/// Removing one finding removes its score from the energy.
proof fn lemma_total_energy_remove(s: Seq<Finding>, i: int)
    requires
        0 <= i < s.len(),
    ensures
        total_energy(s) == total_energy(s.remove(i)) + s[i].score,
{
    let pre = s.take(i);
    let post = s.skip(i + 1);
    assert(s.remove(i) == pre + post);
    assert(s == (pre + seq![s[i]]) + post);
    lemma_total_energy_concat(pre + seq![s[i]], post);
    lemma_total_energy_concat(pre, seq![s[i]]);
    lemma_total_energy_concat(pre, post);
    assert(seq![s[i]].drop_last() == Seq::<Finding>::empty());
    assert(total_energy(Seq::<Finding>::empty()) == 0);
    assert(total_energy(seq![s[i]]) == s[i].score);
}

/// Lists holding the same findings, in any order, carry the same energy.
proof fn lemma_total_energy_permutation(a: Seq<Finding>, b: Seq<Finding>)
    requires
        a.to_multiset() == b.to_multiset(),
    ensures
        total_energy(a) == total_energy(b),
    decreases a.len(),
{
    broadcast use vstd::seq_lib::group_to_multiset_ensures;

    if a.len() == 0 {
        assert(b.to_multiset().len() == 0);
        assert(b.len() == 0);
    } else {
        let x = a.last();
        let rest = a.drop_last();
        assert(rest.push(x) == a);
        assert(a.to_multiset() == rest.to_multiset().insert(x));
        assert(b.to_multiset().count(x) > 0);
        assert(b.contains(x));
        let i = choose|i: int| 0 <= i < b.len() && b[i] == x;
        assert(b.remove(i).to_multiset() == b.to_multiset().remove(x));
        assert(b.remove(i).to_multiset() =~= rest.to_multiset());
        lemma_total_energy_permutation(rest, b.remove(i));
        lemma_total_energy_remove(b, i);
    }
}

/// The score and risk of a list of findings do not depend on their order:
/// any rearrangement of the same findings is assessed alike.
pub proof fn score_ignores_any_reordering(a: Seq<Finding>, b: Seq<Finding>)
    requires
        a.to_multiset() == b.to_multiset(),
    ensures
        assessed(a) == assessed(b),
{
    lemma_total_energy_permutation(a, b);
}

/// The score of an energy total, computed exactly.
pub fn score_of_energy(total: u64) -> (score: u8)
    ensures
        score == energy_score(total as int),
{
    if total >= 318 {
        100
    } else if total >= 252 {
        99
    } else if total >= 222 {
        98
    } else if total >= 202 {
        97
    } else if total >= 187 {
        96
    } else if total >= 175 {
        95
    } else if total >= 165 {
        94
    } else if total >= 156 {
        93
    } else if total >= 148 {
        92
    } else if total >= 142 {
        91
    } else if total >= 136 {
        90
    } else if total >= 130 {
        89
    } else if total >= 125 {
        88
    } else if total >= 121 {
        87
    } else if total >= 116 {
        86
    } else if total >= 112 {
        85
    } else if total >= 109 {
        84
    } else if total >= 105 {
        83
    } else if total >= 102 {
        82
    } else if total >= 99 {
        81
    } else if total >= 96 {
        80
    } else if total >= 93 {
        79
    } else if total >= 90 {
        78
    } else if total >= 87 {
        77
    } else if total >= 85 {
        76
    } else if total >= 82 {
        75
    } else if total >= 80 {
        74
    } else if total >= 78 {
        73
    } else if total >= 76 {
        72
    } else if total >= 74 {
        71
    } else if total >= 72 {
        70
    } else if total >= 70 {
        69
    } else if total >= 68 {
        68
    } else if total >= 66 {
        67
    } else if total >= 64 {
        66
    } else if total >= 63 {
        65
    } else if total >= 61 {
        64
    } else if total >= 59 {
        63
    } else if total >= 58 {
        62
    } else if total >= 56 {
        61
    } else if total >= 55 {
        60
    } else if total >= 53 {
        59
    } else if total >= 52 {
        58
    } else if total >= 50 {
        57
    } else if total >= 49 {
        56
    } else if total >= 48 {
        55
    } else if total >= 46 {
        54
    } else if total >= 45 {
        53
    } else if total >= 44 {
        52
    } else if total >= 43 {
        51
    } else if total >= 41 {
        50
    } else if total >= 40 {
        49
    } else if total >= 39 {
        48
    } else if total >= 38 {
        47
    } else if total >= 37 {
        46
    } else if total >= 36 {
        45
    } else if total >= 35 {
        44
    } else if total >= 34 {
        43
    } else if total >= 33 {
        42
    } else if total >= 32 {
        41
    } else if total >= 31 {
        40
    } else if total >= 30 {
        39
    } else if total >= 29 {
        38
    } else if total >= 28 {
        37
    } else if total >= 27 {
        36
    } else if total >= 26 {
        35
    } else if total >= 25 {
        34
    } else if total >= 24 {
        33
    } else if total >= 23 {
        32
    } else if total >= 22 {
        31
    } else if total >= 21 {
        30
    } else if total >= 20 {
        28
    } else if total >= 19 {
        27
    } else if total >= 18 {
        26
    } else if total >= 17 {
        25
    } else if total >= 16 {
        23
    } else if total >= 15 {
        22
    } else if total >= 14 {
        21
    } else if total >= 13 {
        19
    } else if total >= 12 {
        18
    } else if total >= 11 {
        17
    } else if total >= 10 {
        15
    } else if total >= 9 {
        14
    } else if total >= 8 {
        12
    } else if total >= 7 {
        11
    } else if total >= 6 {
        10
    } else if total >= 5 {
        8
    } else if total >= 4 {
        6
    } else if total >= 3 {
        5
    } else if total >= 2 {
        3
    } else if total >= 1 {
        2
    } else {
        0
    }
}

/// The risk band that a score falls into.
pub fn severity_for_score(score: u8) -> (risk: Severity)
    ensures
        risk == risk_band(score as int),
{
    if score <= 25 {
        Severity::Low
    } else if score <= 50 {
        Severity::Medium
    } else if score <= 75 {
        Severity::High
    } else {
        Severity::Critical
    }
}

/// Scores a list of findings: the energy score of the summed finding scores,
/// and the risk band of that score.
pub fn compute_energy_score(findings: &[Finding]) -> (r: (u8, Severity))
    ensures
        r.0 == energy_score(total_energy(findings@)),
        r.1 == risk_band(r.0 as int),
        r.0 <= 100,
{
    let mut total: u64 = 0;
    let mut i: usize = 0;
    while i < findings.len()
        invariant
            i <= findings.len(),
            total <= 318 + 255,
            total_energy(findings@.take(i as int)) < 318 ==> total == total_energy(findings@.take(i as int)),
            total_energy(findings@.take(i as int)) >= 318 ==> total >= 318,
        decreases findings.len() - i,
    {
        assert(findings@.take(i + 1).drop_last() == findings@.take(i as int));
        if total < 318 {
            total = total + findings[i].score as u64;
        }
        i = i + 1;
    }
    assert(findings@.take(findings@.len() as int) == findings@);
    let score = score_of_energy(total);
    (score, severity_for_score(score))
}

impl Assessment {
    /// Recomputes the score and risk from the current findings.
    pub fn recalculate(&mut self)
        ensures
            final(self).score == energy_score(total_energy(old(self).findings@)),
            final(self).risk == risk_band(final(self).score as int),
            final(self).findings == old(self).findings,
            final(self).source == old(self).source,
            final(self).host == old(self).host,
            final(self).installer_type == old(self).installer_type,
            final(self).sha256 == old(self).sha256,
            final(self).package_summary == old(self).package_summary,
    {
        let (score, risk) = compute_energy_score(self.findings.as_slice());
        self.score = score;
        self.risk = risk;
    }
}

// ---------------------------------------------------------------------------
// De-duplication of findings that report the same CVE
// ---------------------------------------------------------------------------

/// The pattern of a CVE identifier.
pub const CVE_PATTERN: &'static str = "CVE-\\d{4}-\\d{4,}";

/// The CVE identifiers mentioned in an evidence text, in order of appearance.
pub open spec fn cve_ids(evidence: Seq<char>) -> Seq<Seq<char>> {
    match regex_search_all(CVE_PATTERN@, evidence) {
        Some(ids) => ids,
        None => Seq::empty(),
    }
}

/// The findings whose score lies in `v..=255`, highest score first, findings of
/// equal score in their original order.
pub open spec fn upper_buckets(s: Seq<Finding>, v: int) -> Seq<Finding>
    decreases 256 - v,
{
    if v > 255 || v < 0 {
        Seq::empty()
    } else {
        upper_buckets(s, v + 1) + s.filter(|f: Finding| f.score == v)
    }
}

/// A stable sort of the findings by descending score.
pub open spec fn by_score_desc(s: Seq<Finding>) -> Seq<Finding> {
    upper_buckets(s, 0)
}

/// Some identifier of `ids` is already in `seen`.
pub open spec fn mentions_any(ids: Seq<Seq<char>>, seen: Seq<Seq<char>>) -> bool {
    exists|i: int| 0 <= i < ids.len() && seen.contains(#[trigger] ids[i])
}

/// Walks the findings in order, dropping each finding whose CVE identifiers
/// include one already reported by an earlier kept finding; findings without
/// a CVE identifier are always kept.
pub open spec fn keep_first_cves(s: Seq<Finding>, seen: Seq<Seq<char>>) -> Seq<Finding>
    decreases s.len(),
{
    if s.len() == 0 {
        Seq::empty()
    } else {
        let ids = cve_ids(s[0].evidence@);
        if ids.len() == 0 {
            seq![s[0]] + keep_first_cves(s.drop_first(), seen)
        } else if mentions_any(ids, seen) {
            keep_first_cves(s.drop_first(), seen)
        } else {
            seq![s[0]] + keep_first_cves(s.drop_first(), seen + ids)
        }
    }
}

/// The findings sorted by descending score, with later reports of an already
/// reported CVE removed.
pub open spec fn deduplicated(s: Seq<Finding>) -> Seq<Finding> {
    keep_first_cves(by_score_desc(s), Seq::empty())
}

/// Filtering twice is filtering by the conjunction.
proof fn lemma_filter_twice(
    s: Seq<Finding>,
    p: spec_fn(Finding) -> bool,
    q: spec_fn(Finding) -> bool,
    r: spec_fn(Finding) -> bool,
)
    requires
        forall|f: Finding| (#[trigger] r(f)) == (p(f) && q(f)),
    ensures
        s.filter(p).filter(q) == s.filter(r),
    decreases s.len(),
{
    reveal(Seq::filter);
    if s.len() > 0 {
        lemma_filter_twice(s.drop_last(), p, q, r);
        broadcast use vstd::seq_lib::group_filter_ensures;
        s.drop_last().filter(p).lemma_filter_push(s.last(), q);
        assert(s.drop_last().push(s.last()) == s);
        s.drop_last().lemma_filter_push(s.last(), p);
        s.drop_last().lemma_filter_push(s.last(), r);
    }
}

/// Splits `items` into those with score `v` and the others, keeping order.
fn split_score(items: Vec<Finding>, v: u8) -> (r: (Vec<Finding>, Vec<Finding>))
    ensures
        r.0@ == items@.filter(|f: Finding| f.score == v),
        r.1@ == items@.filter(|f: Finding| f.score != v),
{
    let ghost orig = items@;
    assert(orig.len() == items.len());
    let mut rest = items;
    let mut yes: Vec<Finding> = Vec::new();
    let mut no: Vec<Finding> = Vec::new();
    let mut k: usize = 0;
    while rest.len() > 0
        invariant
            k <= orig.len(),
            k + rest@.len() == orig.len(),
            orig.len() <= usize::MAX,
            rest@ == orig.skip(k as int),
            yes@ == orig.take(k as int).filter(|f: Finding| f.score == v),
            no@ == orig.take(k as int).filter(|f: Finding| f.score != v),
        decreases rest.len(),
    {
        let f = rest.remove(0);
        proof {
            assert(orig.take(k + 1) == orig.take(k as int).push(f));
            orig.take(k as int).lemma_filter_push(f, |f: Finding| f.score == v);
            orig.take(k as int).lemma_filter_push(f, |f: Finding| f.score != v);
            assert(orig.skip(k + 1) == orig.skip(k as int).drop_first());
        }
        if f.score == v {
            yes.push(f);
        } else {
            no.push(f);
        }
        k = k + 1;
    }
    assert(orig.take(k as int) == orig);
    (yes, no)
}

/// Stable sort by descending score.
fn sort_by_score_desc(items: Vec<Finding>) -> (out: Vec<Finding>)
    ensures
        out@ == by_score_desc(items@),
{
    let ghost orig = items@;
    let mut rest = items;
    let mut out: Vec<Finding> = Vec::new();
    let mut v: u16 = 256;
    proof {
        lemma_filter_identity(orig);
    }
    while v > 0
        invariant
            v <= 256,
            rest@ == orig.filter(|f: Finding| f.score < v),
            out@ == upper_buckets(orig, v as int),
        decreases v,
    {
        let b = (v - 1) as u8;
        let (mut yes, no) = split_score(rest, b);
        proof {
            lemma_filter_twice(
                orig,
                |f: Finding| f.score < v,
                |f: Finding| f.score == b,
                |f: Finding| f.score == b,
            );
            lemma_filter_twice(
                orig,
                |f: Finding| f.score < v,
                |f: Finding| f.score != b,
                |f: Finding| f.score < b,
            );
        }
        out.append(&mut yes);
        rest = no;
        v = v - 1;
    }
    out
}

/// A filter that keeps everything is the identity.
proof fn lemma_filter_identity(s: Seq<Finding>)
    ensures
        s.filter(|f: Finding| f.score < 256) == s,
    decreases s.len(),
{
    reveal(Seq::filter);
    if s.len() > 0 {
        lemma_filter_identity(s.drop_last());
        assert(s.drop_last().push(s.last()) == s);
    }
}

/// The views of a list of strings.
pub open spec fn string_views(v: Seq<String>) -> Seq<Seq<char>> {
    v.map_values(|s: String| s@)
}

/// The CVE identifiers of an evidence text.
fn cve_ids_of(evidence: &String) -> (ids: Vec<String>)
    ensures
        string_views(ids@) == cve_ids(evidence@),
{
    match find_all(CVE_PATTERN, evidence.as_str()) {
        Some(ids) => ids,
        None => Vec::new(),
    }
}

/// Whether `s` is one of `seen`.
fn seen_contains(seen: &Vec<String>, s: &String) -> (r: bool)
    ensures
        r == string_views(seen@).contains(s@),
{
    let mut i: usize = 0;
    while i < seen.len()
        invariant
            i <= seen.len(),
            forall|j: int| 0 <= j < i ==> seen@[j]@ != s@,
        decreases seen.len() - i,
    {
        if seen[i] == *s {
            assert(string_views(seen@)[i as int] == s@);
            return true;
        }
        i = i + 1;
    }
    assert forall|j: int| 0 <= j < string_views(seen@).len() implies string_views(seen@)[j] != s@ by {}
    false
}

/// Whether any of `ids` is one of `seen`.
fn any_seen(seen: &Vec<String>, ids: &Vec<String>) -> (r: bool)
    ensures
        r == mentions_any(string_views(ids@), string_views(seen@)),
{
    let mut i: usize = 0;
    while i < ids.len()
        invariant
            i <= ids.len(),
            forall|j: int| 0 <= j < i ==> !string_views(seen@).contains(#[trigger] string_views(ids@)[j]),
        decreases ids.len() - i,
    {
        if seen_contains(seen, &ids[i]) {
            assert(string_views(seen@).contains(string_views(ids@)[i as int]));
            return true;
        }
        i = i + 1;
    }
    false
}

/// Sorts findings by descending score (stably) and removes every finding that
/// reports a CVE identifier already reported by a higher-ranked finding.
pub fn deduplicate(findings: &mut Vec<Finding>)
    ensures
        final(findings)@ == deduplicated(old(findings)@),
{
    let mut items: Vec<Finding> = Vec::new();
    std::mem::swap(&mut items, findings);
    let mut rest = sort_by_score_desc(items);
    let ghost sorted = rest@;
    let mut seen: Vec<String> = Vec::new();
    let mut out: Vec<Finding> = Vec::new();
    assert(string_views(seen@) =~= Seq::<Seq<char>>::empty());
    assert(out@ + keep_first_cves(rest@, string_views(seen@)) =~= keep_first_cves(sorted, Seq::empty()));
    while rest.len() > 0
        invariant
            deduplicated(old(findings)@) == out@ + keep_first_cves(rest@, string_views(seen@)),
        decreases rest.len(),
    {
        let f = rest.remove(0);
        let ids = cve_ids_of(&f.evidence);
        let ghost tail = rest@;
        proof {
            assert(tail == seq![f].add(tail).drop_first());
        }
        if ids.len() == 0 {
            out.push(f);
        } else if any_seen(&seen, &ids) {
        } else {
            let mut extra = ids;
            let ghost seen_before = string_views(seen@);
            seen.append(&mut extra);
            assert(string_views(seen@) == seen_before + cve_ids(f.evidence@));
            out.push(f);
        }
    }
    assert(keep_first_cves(rest@, string_views(seen@)) == Seq::<Finding>::empty());
    *findings = out;
}

/// A filter whose predicate holds everywhere keeps everything; one that holds
/// nowhere keeps nothing.
proof fn lemma_filter_all_or_none(s: Seq<Finding>, p: spec_fn(Finding) -> bool)
    ensures
        (forall|f: Finding| #[trigger] p(f)) ==> s.filter(p) == s,
        (forall|f: Finding| !#[trigger] p(f)) ==> s.filter(p) == Seq::<Finding>::empty(),
    decreases s.len(),
{
    reveal(Seq::filter);
    if s.len() > 0 {
        lemma_filter_all_or_none(s.drop_last(), p);
        assert(s.drop_last().push(s.last()) == s);
    }
}

/// A filter and its complement share out the energy.
proof fn lemma_total_energy_filter_split(
    s: Seq<Finding>,
    p: spec_fn(Finding) -> bool,
    q: spec_fn(Finding) -> bool,
)
    requires
        forall|f: Finding| #[trigger] q(f) == !p(f),
    ensures
        total_energy(s.filter(p)) + total_energy(s.filter(q)) == total_energy(s),
    decreases s.len(),
{
    reveal(Seq::filter);
    if s.len() > 0 {
        lemma_total_energy_filter_split(s.drop_last(), p, q);
        if p(s.last()) {
            assert(s.filter(p) == s.drop_last().filter(p).push(s.last()));
            assert(s.filter(p).drop_last() == s.drop_last().filter(p));
            assert(s.filter(q) == s.drop_last().filter(q));
        } else {
            assert(s.filter(q) == s.drop_last().filter(q).push(s.last()));
            assert(s.filter(q).drop_last() == s.drop_last().filter(q));
            assert(s.filter(p) == s.drop_last().filter(p));
        }
    }
}

/// The buckets from `v` up hold the energy of the findings scoring at least `v`.
proof fn lemma_total_energy_upper_buckets(s: Seq<Finding>, v: int)
    requires
        0 <= v <= 256,
    ensures
        total_energy(upper_buckets(s, v)) == total_energy(s.filter(|f: Finding| f.score >= v)),
    decreases 256 - v,
{
    if v == 256 {
        lemma_filter_all_or_none(s, |f: Finding| f.score >= v);
    } else {
        lemma_total_energy_upper_buckets(s, v + 1);
        lemma_total_energy_concat(
            upper_buckets(s, v + 1),
            s.filter(|f: Finding| f.score == v),
        );
        let ge = s.filter(|f: Finding| f.score >= v);
        lemma_filter_twice(s, |f: Finding| f.score >= v, |f: Finding| f.score == v, |f: Finding| f.score == v);
        lemma_filter_twice(s, |f: Finding| f.score >= v, |f: Finding| !(f.score == v), |f: Finding| f.score >= v + 1);
        lemma_total_energy_filter_split(ge, |f: Finding| f.score == v, |f: Finding| !(f.score == v));
    }
}

/// Sorting moves findings around without changing the total energy.
proof fn lemma_total_energy_sorted(s: Seq<Finding>)
    ensures
        total_energy(by_score_desc(s)) == total_energy(s),
{
    lemma_total_energy_upper_buckets(s, 0);
    lemma_filter_all_or_none(s, |f: Finding| f.score >= 0);
}

/// Dropping findings never adds energy.
proof fn lemma_total_energy_keep(s: Seq<Finding>, seen: Seq<Seq<char>>)
    ensures
        total_energy(keep_first_cves(s, seen)) <= total_energy(s),
    decreases s.len(),
{
    if s.len() > 0 {
        let ids = cve_ids(s[0].evidence@);
        let rest = s.drop_first();
        assert(s == seq![s[0]] + rest);
        lemma_total_energy_concat(seq![s[0]], rest);
        assert(seq![s[0]].drop_last() == Seq::<Finding>::empty());
        lemma_total_energy_keep(rest, seen);
        lemma_total_energy_keep(rest, seen + ids);
        lemma_total_energy_concat(seq![s[0]], keep_first_cves(rest, seen));
        lemma_total_energy_concat(seq![s[0]], keep_first_cves(rest, seen + ids));
        lemma_total_energy_nonneg(seq![s[0]]);
    }
}

/// De-duplication never raises the score of a list of findings.
pub proof fn deduplication_never_raises_the_score(findings: Seq<Finding>)
    ensures
        assessed(deduplicated(findings)).0 <= assessed(findings).0,
{
    lemma_total_energy_sorted(findings);
    lemma_total_energy_keep(by_score_desc(findings), Seq::empty());
    lemma_total_energy_nonneg(deduplicated(findings));
    lemma_energy_score_monotone(total_energy(deduplicated(findings)), total_energy(findings));
}

/// What `keep_first_cves` keeps mentions nothing already seen, and no kept
/// finding mentions an identifier of an earlier kept finding.
proof fn lemma_keep_disjoint(s: Seq<Finding>, seen: Seq<Seq<char>>)
    ensures
        forall|i: int|
            0 <= i < keep_first_cves(s, seen).len() ==> !mentions_any(
                cve_ids(#[trigger] keep_first_cves(s, seen)[i].evidence@),
                seen,
            ),
        forall|i: int, j: int|
            0 <= i < j < keep_first_cves(s, seen).len() ==> !mentions_any(
                cve_ids(#[trigger] keep_first_cves(s, seen)[j].evidence@),
                cve_ids(#[trigger] keep_first_cves(s, seen)[i].evidence@),
            ),
    decreases s.len(),
{
    if s.len() > 0 {
        let ids = cve_ids(s[0].evidence@);
        let rest = s.drop_first();
        let k = keep_first_cves(s, seen);
        if ids.len() == 0 {
            lemma_keep_disjoint(rest, seen);
            let t = keep_first_cves(rest, seen);
            assert(k == seq![s[0]] + t);
            assert forall|i: int, j: int| 0 <= i < j < k.len() implies !mentions_any(
                cve_ids(#[trigger] k[j].evidence@),
                cve_ids(#[trigger] k[i].evidence@),
            ) by {
                if i > 0 {
                    assert(k[i] == t[i - 1] && k[j] == t[j - 1]);
                }
            }
            assert forall|i: int| 0 <= i < k.len() implies !mentions_any(
                cve_ids(#[trigger] k[i].evidence@),
                seen,
            ) by {
                if i > 0 {
                    assert(k[i] == t[i - 1]);
                }
            }
        } else if mentions_any(ids, seen) {
            lemma_keep_disjoint(rest, seen);
        } else {
            lemma_keep_disjoint(rest, seen + ids);
            let t = keep_first_cves(rest, seen + ids);
            assert(k == seq![s[0]] + t);
            assert forall|i: int| 0 <= i < k.len() implies !mentions_any(
                cve_ids(#[trigger] k[i].evidence@),
                seen,
            ) by {
                if i > 0 {
                    assert(k[i] == t[i - 1]);
                    let c = cve_ids(k[i].evidence@);
                    assert forall|m: int| 0 <= m < c.len() implies !seen.contains(#[trigger] c[m]) by {
                        if seen.contains(c[m]) {
                            let w = choose|w: int| 0 <= w < seen.len() && seen[w] == c[m];
                            assert((seen + ids)[w] == c[m]);
                            assert((seen + ids).contains(c[m]));
                        }
                    }
                }
            }
            assert forall|i: int, j: int| 0 <= i < j < k.len() implies !mentions_any(
                cve_ids(#[trigger] k[j].evidence@),
                cve_ids(#[trigger] k[i].evidence@),
            ) by {
                assert(k[j] == t[j - 1]);
                let c = cve_ids(k[j].evidence@);
                if i == 0 {
                    assert forall|m: int| 0 <= m < c.len() implies !ids.contains(#[trigger] c[m]) by {
                        if ids.contains(c[m]) {
                            let w = choose|w: int| 0 <= w < ids.len() && ids[w] == c[m];
                            assert((seen + ids)[seen.len() + w] == c[m]);
                            assert((seen + ids).contains(c[m]));
                        }
                    }
                } else {
                    assert(k[i] == t[i - 1]);
                }
            }
        }
    }
}

/// After de-duplication no CVE identifier is reported by two findings: a
/// finding never mentions an identifier of an earlier finding.
pub proof fn deduplicated_findings_share_no_cve(findings: Seq<Finding>)
    ensures
        forall|i: int, j: int|
            0 <= i < j < deduplicated(findings).len() ==> !mentions_any(
                cve_ids(#[trigger] deduplicated(findings)[j].evidence@),
                cve_ids(#[trigger] deduplicated(findings)[i].evidence@),
            ),
{
    lemma_keep_disjoint(by_score_desc(findings), Seq::empty());
}

/// The findings come highest score first.
pub open spec fn sorted_by_score(s: Seq<Finding>) -> bool {
    forall|i: int, j: int| 0 <= i < j < s.len() ==> #[trigger] s[i].score >= #[trigger] s[j].score
}

/// The buckets from `v` up are sorted and hold only scores of at least `v`.
proof fn lemma_upper_buckets_sorted(s: Seq<Finding>, v: int)
    requires
        0 <= v,
    ensures
        sorted_by_score(upper_buckets(s, v)),
        forall|i: int| 0 <= i < upper_buckets(s, v).len() ==> #[trigger] upper_buckets(s, v)[i].score >= v,
    decreases 256 - v,
{
    if v <= 255 {
        lemma_upper_buckets_sorted(s, v + 1);
        let a = upper_buckets(s, v + 1);
        let pred = |f: Finding| f.score == v;
        let b = s.filter(pred);
        assert forall|i: int| 0 <= i < b.len() implies #[trigger] b[i].score == v by {
            s.lemma_filter_pred(pred, i);
        }
        let u = upper_buckets(s, v);
        assert(u == a + b);
        assert forall|i: int, j: int| 0 <= i < j < u.len() implies #[trigger] u[i].score >= #[trigger] u[j].score by {
            if j < a.len() {
                assert(u[i] == a[i] && u[j] == a[j]);
            } else if i < a.len() {
                assert(u[i] == a[i] && u[j] == b[j - a.len()]);
            } else {
                assert(u[i] == b[i - a.len()] && u[j] == b[j - a.len()]);
            }
        }
        assert forall|i: int| 0 <= i < u.len() implies #[trigger] u[i].score >= v by {
            if i < a.len() {
                assert(u[i] == a[i]);
            } else {
                assert(u[i] == b[i - a.len()]);
            }
        }
    }
}

/// What `keep_first_cves` keeps stays within any bound on the scores.
proof fn lemma_keep_bounded(s: Seq<Finding>, seen: Seq<Seq<char>>, b: int)
    requires
        forall|i: int| 0 <= i < s.len() ==> #[trigger] s[i].score <= b,
    ensures
        forall|i: int| 0 <= i < keep_first_cves(s, seen).len() ==> #[trigger] keep_first_cves(s, seen)[i].score <= b,
    decreases s.len(),
{
    if s.len() > 0 {
        let ids = cve_ids(s[0].evidence@);
        let rest = s.drop_first();
        assert forall|i: int| 0 <= i < rest.len() implies #[trigger] rest[i].score <= b by {
            assert(rest[i] == s[i + 1]);
        }
        let k = keep_first_cves(s, seen);
        if ids.len() == 0 || !mentions_any(ids, seen) {
            let seen2 = if ids.len() == 0 { seen } else { seen + ids };
            lemma_keep_bounded(rest, seen2, b);
            let t = keep_first_cves(rest, seen2);
            assert(k == seq![s[0]] + t);
            assert forall|i: int| 0 <= i < k.len() implies #[trigger] k[i].score <= b by {
                if i > 0 {
                    assert(k[i] == t[i - 1]);
                }
            }
        } else {
            lemma_keep_bounded(rest, seen, b);
        }
    }
}

/// `keep_first_cves` keeps a sorted list sorted.
proof fn lemma_keep_sorted(s: Seq<Finding>, seen: Seq<Seq<char>>)
    requires
        sorted_by_score(s),
    ensures
        sorted_by_score(keep_first_cves(s, seen)),
    decreases s.len(),
{
    if s.len() > 0 {
        let ids = cve_ids(s[0].evidence@);
        let rest = s.drop_first();
        assert forall|i: int, j: int| 0 <= i < j < rest.len() implies #[trigger] rest[i].score >= #[trigger] rest[j].score by {
            assert(rest[i] == s[i + 1] && rest[j] == s[j + 1]);
        }
        let k = keep_first_cves(s, seen);
        if ids.len() == 0 || !mentions_any(ids, seen) {
            let seen2 = if ids.len() == 0 { seen } else { seen + ids };
            lemma_keep_sorted(rest, seen2);
            assert forall|i: int| 0 <= i < rest.len() implies #[trigger] rest[i].score <= s[0].score by {
                assert(rest[i] == s[i + 1]);
            }
            lemma_keep_bounded(rest, seen2, s[0].score as int);
            let t = keep_first_cves(rest, seen2);
            assert(k == seq![s[0]] + t);
            assert forall|i: int, j: int| 0 <= i < j < k.len() implies #[trigger] k[i].score >= #[trigger] k[j].score by {
                assert(k[j] == t[j - 1]);
                if i > 0 {
                    assert(k[i] == t[i - 1]);
                }
            }
        } else {
            lemma_keep_sorted(rest, seen);
        }
    }
}

/// De-duplicated findings come highest score first.
pub proof fn deduplicated_findings_are_sorted_by_score(findings: Seq<Finding>)
    ensures
        sorted_by_score(deduplicated(findings)),
{
    lemma_upper_buckets_sorted(findings, 0);
    lemma_keep_sorted(by_score_desc(findings), Seq::empty());
}

/// Every finding lies in the buckets from `v` up when its score is at least `v`.
proof fn lemma_upper_buckets_contain(s: Seq<Finding>, v: int, i: int)
    requires
        0 <= v <= s[i].score,
        0 <= i < s.len(),
    ensures
        upper_buckets(s, v).contains(s[i]),
    decreases s[i].score - v,
{
    if v == s[i].score {
        let pred = |f: Finding| f.score == v;
        s.lemma_filter_contains(pred, i);
        let a = upper_buckets(s, v + 1);
        let b = s.filter(pred);
        let w = choose|w: int| 0 <= w < b.len() && b[w] == s[i];
        assert((a + b)[a.len() + w] == s[i]);
    } else {
        lemma_upper_buckets_contain(s, v + 1, i);
        let a = upper_buckets(s, v + 1);
        let b = s.filter(|f: Finding| f.score == v);
        let w = choose|w: int| 0 <= w < a.len() && a[w] == s[i];
        assert((a + b)[w] == s[i]);
    }
}

/// `keep_first_cves` keeps every finding that names no CVE.
proof fn lemma_keep_uncited(s: Seq<Finding>, seen: Seq<Seq<char>>, i: int)
    requires
        0 <= i < s.len(),
        cve_ids(s[i].evidence@).len() == 0,
    ensures
        keep_first_cves(s, seen).contains(s[i]),
    decreases s.len(),
{
    let ids = cve_ids(s[0].evidence@);
    let rest = s.drop_first();
    let k = keep_first_cves(s, seen);
    if i == 0 {
        assert(k[0] == s[0]);
    } else {
        assert(rest[i - 1] == s[i]);
        let seen2 = if ids.len() == 0 || mentions_any(ids, seen) { seen } else { seen + ids };
        lemma_keep_uncited(rest, seen2, i - 1);
        let t = keep_first_cves(rest, seen2);
        let w = choose|w: int| 0 <= w < t.len() && t[w] == s[i];
        if ids.len() == 0 || !mentions_any(ids, seen) {
            assert(k == seq![s[0]] + t);
            assert(k[w + 1] == s[i]);
        } else {
            assert(k == t);
            assert(k[w] == s[i]);
        }
    }
}

/// De-duplication never drops a finding that names no CVE.
pub proof fn deduplication_keeps_findings_without_cve(findings: Seq<Finding>, i: int)
    requires
        0 <= i < findings.len(),
        cve_ids(findings[i].evidence@).len() == 0,
    ensures
        deduplicated(findings).contains(findings[i]),
{
    lemma_upper_buckets_contain(findings, 0, i);
    let sorted = by_score_desc(findings);
    let w = choose|w: int| 0 <= w < sorted.len() && sorted[w] == findings[i];
    lemma_keep_uncited(sorted, Seq::empty(), w);
}

// ---------------------------------------------------------------------------
// Static analysis rules
// ---------------------------------------------------------------------------

/// A static detection rule: a pattern over the installer text and the finding
/// it raises.
#[derive(Clone, Copy, Debug)]
pub struct Rule {
    pub title: &'static str,
    pub detail: &'static str,
    pub severity: Severity,
    pub score: u8,
    pub pattern: &'static str,
}

/// The abstract content of a finding.
pub struct FindingView {
    pub source: Seq<char>,
    pub title: Seq<char>,
    pub detail: Seq<char>,
    pub severity: Severity,
    pub score: u8,
    pub evidence: Seq<char>,
}

impl View for Finding {
    type V = FindingView;

    open spec fn view(&self) -> FindingView {
        FindingView {
            source: self.source@,
            title: self.title@,
            detail: self.detail@,
            severity: self.severity,
            score: self.score,
            evidence: self.evidence@,
        }
    }
}

/// The views of a list of findings.
pub open spec fn finding_views(s: Seq<Finding>) -> Seq<FindingView> {
    s.map_values(|f: Finding| f@)
}

/// The detection rules, in the order they are applied.
pub open spec fn rule_table() -> Seq<Rule> {
    seq![
        Rule {
            title: "Executes downloaded code",
            detail: "Remote content is passed directly into an interpreter",
            severity: Severity::Critical,
            score: 35,
            pattern: r"(?im)^\s*(curl|wget|irm|invoke-webrequest)[^\r\n|;]*(\||;)[^\r\n]*(sh|bash|iex|invoke-expression|python)",
        },
        Rule {
            title: "Downloads additional content",
            detail: "Installer retrieves additional remote content during execution",
            severity: Severity::Medium,
            score: 8,
            pattern: r"(?im)^\s*(curl|wget|irm|invoke-webrequest)\b",
        },
        Rule {
            title: "Requests elevated privileges",
            detail: "Installer requests root or administrator privileges",
            severity: Severity::High,
            score: 20,
            pattern: r"(?im)(^|\s)(sudo|runas|start-process\s+.+-verb\s+runas)(\s|$)",
        },
        Rule {
            title: "Creates persistent service",
            detail: "Installer enables a service or scheduled startup task",
            severity: Severity::High,
            score: 25,
            pattern: r"(?i)(systemctl\s+enable|new-service|sc\.exe\s+create|schtasks|crontab)",
        },
        Rule {
            title: "Modifies shell profile",
            detail: "Installer changes a shell profile or executable search path",
            severity: Severity::Medium,
            score: 10,
            pattern: r"(?i)(\.bashrc|\.zshrc|\.profile|microsoft\.powershell_profile|setx\s+path|environmentvariable.*path)",
        },
        Rule {
            title: "Changes executable permissions",
            detail: "Installer marks downloaded or local content executable",
            severity: Severity::Medium,
            score: 8,
            pattern: r"(?im)\bchmod\s+(\+x|[0-7]*7[0-7]*)",
        },
        Rule {
            title: "Modifies system registry",
            detail: "Installer writes Windows registry configuration",
            severity: Severity::High,
            score: 18,
            pattern: r"(?i)(reg\.exe\s+(add|delete)|new-itemproperty|set-itemproperty).*(hklm|hkcu|registry)",
        },
        Rule {
            title: "Disables security controls",
            detail: "Installer attempts to weaken security tooling or policy",
            severity: Severity::Critical,
            score: 45,
            pattern: r"(?i)(set-mppreference.*disablerealtimemonitoring|ufw\s+disable|setenforce\s+0|disableantispyware)",
        },
        Rule {
            title: "Contains encoded execution",
            detail: "Installer uses encoded or decoded content during execution",
            severity: Severity::Critical,
            score: 40,
            pattern: r"(?i)(frombase64string|base64\s+(-d|--decode)|encodedcommand|eval\s*\()",
        },
        Rule {
            title: "Deletes files recursively",
            detail: "Installer performs broad recursive deletion",
            severity: Severity::Critical,
            score: 35,
            pattern: r"(?i)(rm\s+-[a-z]*r[a-z]*f|remove-item\s+.+-recurse.+-force)",
        },
    ]
}

/// The detection rules, in the order they are applied.
pub fn rules() -> (r: Vec<Rule>)
    ensures
        r@ == rule_table(),
{
    vec![
        Rule {
            title: "Executes downloaded code",
            detail: "Remote content is passed directly into an interpreter",
            severity: Severity::Critical,
            score: 35,
            pattern: r"(?im)^\s*(curl|wget|irm|invoke-webrequest)[^\r\n|;]*(\||;)[^\r\n]*(sh|bash|iex|invoke-expression|python)",
        },
        Rule {
            title: "Downloads additional content",
            detail: "Installer retrieves additional remote content during execution",
            severity: Severity::Medium,
            score: 8,
            pattern: r"(?im)^\s*(curl|wget|irm|invoke-webrequest)\b",
        },
        Rule {
            title: "Requests elevated privileges",
            detail: "Installer requests root or administrator privileges",
            severity: Severity::High,
            score: 20,
            pattern: r"(?im)(^|\s)(sudo|runas|start-process\s+.+-verb\s+runas)(\s|$)",
        },
        Rule {
            title: "Creates persistent service",
            detail: "Installer enables a service or scheduled startup task",
            severity: Severity::High,
            score: 25,
            pattern: r"(?i)(systemctl\s+enable|new-service|sc\.exe\s+create|schtasks|crontab)",
        },
        Rule {
            title: "Modifies shell profile",
            detail: "Installer changes a shell profile or executable search path",
            severity: Severity::Medium,
            score: 10,
            pattern: r"(?i)(\.bashrc|\.zshrc|\.profile|microsoft\.powershell_profile|setx\s+path|environmentvariable.*path)",
        },
        Rule {
            title: "Changes executable permissions",
            detail: "Installer marks downloaded or local content executable",
            severity: Severity::Medium,
            score: 8,
            pattern: r"(?im)\bchmod\s+(\+x|[0-7]*7[0-7]*)",
        },
        Rule {
            title: "Modifies system registry",
            detail: "Installer writes Windows registry configuration",
            severity: Severity::High,
            score: 18,
            pattern: r"(?i)(reg\.exe\s+(add|delete)|new-itemproperty|set-itemproperty).*(hklm|hkcu|registry)",
        },
        Rule {
            title: "Disables security controls",
            detail: "Installer attempts to weaken security tooling or policy",
            severity: Severity::Critical,
            score: 45,
            pattern: r"(?i)(set-mppreference.*disablerealtimemonitoring|ufw\s+disable|setenforce\s+0|disableantispyware)",
        },
        Rule {
            title: "Contains encoded execution",
            detail: "Installer uses encoded or decoded content during execution",
            severity: Severity::Critical,
            score: 40,
            pattern: r"(?i)(frombase64string|base64\s+(-d|--decode)|encodedcommand|eval\s*\()",
        },
        Rule {
            title: "Deletes files recursively",
            detail: "Installer performs broad recursive deletion",
            severity: Severity::Critical,
            score: 35,
            pattern: r"(?i)(rm\s+-[a-z]*r[a-z]*f|remove-item\s+.+-recurse.+-force)",
        },
    ]
}

/// The finding a rule raises on `text`, if its pattern matches: the evidence
/// is the matched text, trimmed and cut to 120 characters.
pub open spec fn rule_finding(rule: Rule, text: Seq<char>) -> Seq<FindingView> {
    match regex_search(rule.pattern@, text) {
        Some(Some((_, m, _))) => seq![
            FindingView {
                source: "Static Analysis"@,
                title: rule.title@,
                detail: rule.detail@,
                severity: rule.severity,
                score: rule.score,
                evidence: prefix(trim(m), 120),
            },
        ],
        _ => Seq::empty(),
    }
}

/// The findings that `rules` raise on `text`, in rule order.
pub open spec fn rule_findings(rules: Seq<Rule>, text: Seq<char>) -> Seq<FindingView>
    decreases rules.len(),
{
    if rules.len() == 0 {
        Seq::empty()
    } else {
        rule_findings(rules.drop_last(), text) + rule_finding(rules.last(), text)
    }
}

/// The finding raised for an opaque binary installer.
pub open spec fn opaque_executable_finding() -> FindingView {
    FindingView {
        source: "Static Analysis"@,
        title: "Opaque executable"@,
        detail: "Binary behavior cannot be verified through static script analysis"@,
        severity: Severity::High,
        score: 35,
        evidence: "binary artifact"@,
    }
}

/// The finding raised for a download over plain HTTP from `url`.
pub open spec fn insecure_transport_finding(url: Seq<char>) -> FindingView {
    FindingView {
        source: "Static Analysis"@,
        title: "Insecure download transport"@,
        detail: "Unencrypted HTTP allows installer content to be modified in transit"@,
        severity: Severity::High,
        score: 30,
        evidence: url,
    }
}

/// All static findings for an installer with the given text, kind and URL.
pub open spec fn static_findings(text: Seq<char>, kind: InstallerKind, url: UrlView) -> Seq<
    FindingView,
> {
    rule_findings(rule_table(), text) + (if kind == InstallerKind::Executable {
        seq![opaque_executable_finding()]
    } else {
        Seq::empty()
    }) + (if url.1 == "http"@ {
        seq![insecure_transport_finding(url.0)]
    } else {
        Seq::empty()
    })
}

/// The host an assessment reports: the URL's host, or "unknown".
pub open spec fn reported_host(url: UrlView) -> Seq<char> {
    match url.2 {
        Some(h) => h,
        None => "unknown"@,
    }
}

/// The finding every executable installer gets, whatever its URL.
pub open spec fn opaque_binary_view() -> FindingView {
    FindingView {
        source: "Static Analysis"@,
        title: "Opaque executable"@,
        detail: "Binary behavior cannot be verified through static script analysis"@,
        severity: Severity::High,
        score: 35,
        evidence: "binary artifact"@,
    }
}

/// An executable installer always gets the opaque-executable finding (score
/// 35), whatever the URL scheme; a non-executable one never does.  An
/// executable fetched over anything but plain HTTP that matches no rule gets
/// exactly that finding, and so scores 44 (Medium).
pub proof fn executables_always_get_the_opaque_finding(text: Seq<char>, kind: InstallerKind, url: UrlView)
    ensures
        kind == InstallerKind::Executable ==> static_findings(text, kind, url).contains(opaque_binary_view()),
        kind == InstallerKind::Executable && url.1 != "http"@ && rule_findings(rule_table(), text).len() == 0
            ==> static_findings(text, kind, url) == seq![opaque_binary_view()],
        kind == InstallerKind::Executable && url.1 != "http"@ && rule_findings(rule_table(), text).len() == 0
            ==> energy_score(opaque_binary_view().score as int) == 44 && risk_band(44) == Severity::Medium,
{
    let r = rule_findings(rule_table(), text);
    if kind == InstallerKind::Executable {
        let tail = if url.1 == "http"@ {
            seq![insecure_transport_finding(url.0)]
        } else {
            Seq::empty()
        };
        let sf = static_findings(text, kind, url);
        assert(sf == r + seq![opaque_binary_view()] + tail);
        assert(sf[r.len() as int] == opaque_binary_view());
        if url.1 != "http"@ && r.len() == 0 {
            assert(sf =~= seq![opaque_binary_view()]);
        }
    }
}

/// An installer fetched over plain HTTP always gets the insecure-transport
/// finding (High, 30) with the whole URL as evidence; the other findings
/// come first, so it is the last one.  Over any other scheme it is absent.
pub proof fn plain_http_always_gets_the_transport_finding(text: Seq<char>, kind: InstallerKind, url: UrlView)
    ensures
        url.1 == "http"@ ==> static_findings(text, kind, url).last() == (FindingView {
            source: "Static Analysis"@,
            title: "Insecure download transport"@,
            detail: "Unencrypted HTTP allows installer content to be modified in transit"@,
            severity: Severity::High,
            score: 30,
            evidence: url.0,
        }),
        url.1 != "http"@ ==> static_findings(text, kind, url).len() == rule_findings(rule_table(), text).len()
            + (if kind == InstallerKind::Executable { 1int } else { 0int }),
{
}

/// Each rule raises at most one finding, and its evidence is at most 120
/// characters long.
proof fn lemma_rule_findings_bounded(rules: Seq<Rule>, text: Seq<char>)
    ensures
        rule_findings(rules, text).len() <= rules.len(),
        forall|i: int|
            0 <= i < rule_findings(rules, text).len() ==> #[trigger] rule_findings(rules, text)[i].evidence.len()
                <= 120,
    decreases rules.len(),
{
    if rules.len() > 0 {
        lemma_rule_findings_bounded(rules.drop_last(), text);
        let a = rule_findings(rules.drop_last(), text);
        let b = rule_finding(rules.last(), text);
        assert forall|i: int| 0 <= i < (a + b).len() implies #[trigger] (a + b)[i].evidence.len() <= 120 by {
            if i >= a.len() {
                assert((a + b)[i] == b[i - a.len()]);
            }
        }
    }
}

/// Static analysis raises at most twelve findings (one per rule, plus the
/// opaque-executable and insecure-transport findings), and the evidence of
/// every rule finding is at most 120 characters long.
pub proof fn static_analysis_is_bounded(text: Seq<char>, kind: InstallerKind, url: UrlView)
    ensures
        static_findings(text, kind, url).len() <= 12,
        forall|i: int|
            0 <= i < rule_findings(rule_table(), text).len() ==> #[trigger] rule_findings(rule_table(), text)[i].evidence.len()
                <= 120,
{
    lemma_rule_findings_bounded(rule_table(), text);
    assert(rule_table().len() == 10);
}

/// Statically analyses a downloaded installer: applies every detection rule
/// to its text, flags opaque executables and plain-HTTP downloads, and scores
/// the findings.  A rule whose pattern does not compile raises nothing.
pub fn analyze(artifact: &Artifact) -> (a: Assessment)
    ensures
        finding_views(a.findings@) == static_findings(
            utf8_lossy(artifact.bytes@),
            artifact.kind,
            artifact.url.view(),
        ),
        a.score == energy_score(total_energy(a.findings@)),
        a.risk == risk_band(a.score as int),
        a.source@ == artifact.url.serialization@,
        a.host@ == reported_host(artifact.url.view()),
        a.installer_type == artifact.kind,
        a.sha256@ == hex_lower(sha256_of(artifact.bytes@)),
        a.sha256@.len() == 64,
        a.findings@.len() <= 12,
        a.package_summary is None,
{
    let text = decode_lossy(artifact.bytes.as_slice());
    let ghost t = text@;
    let table = rules();
    let mut findings: Vec<Finding> = Vec::new();
    let mut i: usize = 0;
    while i < table.len()
        invariant
            i <= table.len(),
            table@ == rule_table(),
            text@ == t,
            finding_views(findings@) == rule_findings(table@.take(i as int), t),
        decreases table.len() - i,
    {
        let rule = table[i];
        assert(table@.take(i + 1).drop_last() == table@.take(i as int));
        assert(table@.take(i + 1).last() == rule);
        match find_first(rule.pattern, text.as_str()) {
            Some(Some((_, m, _))) => {
                let mc = chars_of(m.as_str());
                let trimmed = trim_chars(mc.as_slice());
                let ev = prefix_exec(trimmed.as_slice(), 120);
                let f = Finding {
                    source: "Static Analysis",
                    title: rule.title,
                    detail: rule.detail,
                    severity: rule.severity,
                    score: rule.score,
                    evidence: string_from(ev.as_slice()),
                };
                findings.push(f);
                assert(finding_views(findings@) =~= rule_findings(table@.take(i + 1), t));
            }
            _ => {
                assert(finding_views(findings@) =~= rule_findings(table@.take(i + 1), t));
            }
        }
        i = i + 1;
    }
    assert(table@.take(table@.len() as int) == table@);
    let ghost base = finding_views(findings@);
    match artifact.kind {
        InstallerKind::Executable => {
            findings.push(
                Finding {
                    source: "Static Analysis",
                    title: "Opaque executable",
                    detail: "Binary behavior cannot be verified through static script analysis",
                    severity: Severity::High,
                    score: 35,
                    evidence: String::from_str("binary artifact"),
                },
            );
        }
        _ => {}
    }
    let ghost mid = finding_views(findings@);
    assert(mid =~= base + (if artifact.kind == InstallerKind::Executable {
        seq![opaque_executable_finding()]
    } else {
        Seq::empty()
    }));
    if str_eq(artifact.url.scheme.as_str(), "http") {
        findings.push(
            Finding {
                source: "Static Analysis",
                title: "Insecure download transport",
                detail: "Unencrypted HTTP allows installer content to be modified in transit",
                severity: Severity::High,
                score: 30,
                evidence: artifact.url.serialization.clone(),
            },
        );
    }
    assert(finding_views(findings@) =~= static_findings(t, artifact.kind, artifact.url.view()));
    proof {
        static_analysis_is_bounded(t, artifact.kind, artifact.url.view());
        assert(finding_views(findings@).len() == findings@.len());
    }
    let (score, risk) = compute_energy_score(findings.as_slice());
    let host = match &artifact.url.host {
        Some(h) => h.clone(),
        None => String::from_str("unknown"),
    };
    Assessment {
        source: artifact.url.serialization.clone(),
        host,
        installer_type: artifact.kind,
        sha256: sha256_hex(artifact.bytes.as_slice()),
        score,
        risk,
        findings,
        package_summary: None,
    }
}

} // verus!
