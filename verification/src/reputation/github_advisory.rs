//! GitHub Advisory Database: which advisories concern a package, what score
//! each carries, and the finding they add up to.  The lookup itself is left
//! to the caller.

use vstd::prelude::*;

use crate::analyzer::{risk_band, severity_for_score, Finding, FindingView};
use crate::reputation::osv::{
    shown_summaries_cuttable, vulnerability_evidence, vulnerability_evidence_spec, VulnSummary,
};
use crate::text::{eq_ignore_case, eq_ignore_case_exec, str_eq};

verus! {

/// A package named by an advisory's vulnerability list.
#[derive(Debug)]
pub struct AffectedPackage {
    pub ecosystem: Option<String>,
    pub name: Option<String>,
}

/// The listed package is `package` in `ecosystem` (ecosystem compared up to ASCII case).
pub open spec fn names_package(v: AffectedPackage, ecosystem: Seq<char>, package: Seq<char>) -> bool {
    match (v.ecosystem, v.name) {
        (Some(e), Some(n)) => eq_ignore_case(e@, ecosystem) && n@ == package,
        _ => false,
    }
}

/// Some listed package is `package` in `ecosystem` (ecosystem compared up to ASCII case).
pub open spec fn affects(vs: Seq<AffectedPackage>, ecosystem: Seq<char>, package: Seq<char>) -> bool {
    exists|i: int| 0 <= i < vs.len() && names_package(#[trigger] vs[i], ecosystem, package)
}

/// Whether an advisory concerns `package` in `ecosystem`.
pub fn advisory_affects(vulns: Option<&Vec<AffectedPackage>>, ecosystem: &str, package: &str) -> (r: bool)
    ensures
        r == match vulns {
            Some(v) => affects(v@, ecosystem@, package@),
            None => false,
        },
{
    let vs = match vulns {
        Some(v) => v,
        None => {
            return false;
        },
    };
    let mut i: usize = 0;
    while i < vs.len()
        invariant
            i <= vs.len(),
            vulns == Some(vs),
            forall|k: int|
                0 <= k < i ==> !names_package(#[trigger] vs@[k], ecosystem@, package@),
        decreases vs.len() - i,
    {
        let v = &vs[i];
        let eco_ok = match &v.ecosystem {
            Some(e) => eq_ignore_case_exec(e.as_str(), ecosystem),
            None => false,
        };
        let name_ok = match &v.name {
            Some(n) => str_eq(n.as_str(), package),
            None => false,
        };
        if eco_ok && name_ok {
            assert(names_package(vs@[i as int], ecosystem@, package@));
            return true;
        }
        i = i + 1;
    }
    false
}

/// The score, in tenths, that an advisory severity label stands for.
pub open spec fn advisory_label_tenths(label: Option<Seq<char>>) -> int {
    match label {
        Some(l) => if eq_ignore_case(l, "critical"@) {
            95
        } else if eq_ignore_case(l, "high"@) {
            80
        } else if eq_ignore_case(l, "medium"@) {
            55
        } else {
            30
        },
        None => 30,
    }
}

/// The CVSS score of an advisory, in tenths: the first positive of its
/// CVSS, CVSS v4 and CVSS v3 scores, else its severity label's score.
pub open spec fn advisory_cvss_spec(cvss: Option<u8>, v4: Option<u8>, v3: Option<u8>, label: Option<Seq<char>>) -> int {
    if cvss matches Some(s) && s > 0 {
        cvss->0 as int
    } else if v4 matches Some(s) && s > 0 {
        v4->0 as int
    } else if v3 matches Some(s) && s > 0 {
        v3->0 as int
    } else {
        advisory_label_tenths(label)
    }
}

/// The CVSS score of an advisory, in tenths.
pub fn advisory_cvss(cvss: Option<u8>, v4: Option<u8>, v3: Option<u8>, label: Option<&str>) -> (t: u8)
    ensures
        t == advisory_cvss_spec(
            cvss,
            v4,
            v3,
            match label {
                Some(l) => Some(l@),
                None => None,
            },
        ),
{
    if let Some(s) = cvss {
        if s > 0 {
            return s;
        }
    }
    if let Some(s) = v4 {
        if s > 0 {
            return s;
        }
    }
    if let Some(s) = v3 {
        if s > 0 {
            return s;
        }
    }
    match label {
        Some(l) => if eq_ignore_case_exec(l, "critical") {
            95
        } else if eq_ignore_case_exec(l, "high") {
            80
        } else if eq_ignore_case_exec(l, "medium") {
            55
        } else {
            30
        },
        None => 30,
    }
}

/// The finding of a GitHub Advisory report; severity from the score band.
pub open spec fn advisory_finding_spec(ecosystem: Seq<char>, package: Seq<char>, entries: Seq<VulnSummary>, score: u8) -> FindingView {
    FindingView {
        source: "GitHub Advisories"@,
        title: "Known vulnerabilities in package"@,
        detail: "GitHub Advisory Database reports known security advisories for this package"@,
        severity: risk_band(score as int),
        score,
        evidence: vulnerability_evidence_spec(ecosystem, package, entries),
    }
}

/// The finding of a GitHub Advisory report with the given score (at most 100).
pub fn advisory_finding(ecosystem: &str, package: &str, entries: &Vec<VulnSummary>, score: u8) -> (f: Finding)
    requires
        shown_summaries_cuttable(entries@),
        score <= 100,
    ensures
        f@ == advisory_finding_spec(ecosystem@, package@, entries@, score),
{
    Finding {
        source: "GitHub Advisories",
        title: "Known vulnerabilities in package",
        detail: "GitHub Advisory Database reports known security advisories for this package",
        severity: severity_for_score(score),
        score,
        evidence: vulnerability_evidence(ecosystem, package, entries),
    }
}

} // verus!
