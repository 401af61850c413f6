//! Cloudflare Radar domain ranking: popularity and category signals for the
//! download host.  The lookup itself is left to the caller; this module
//! turns its answer into a finding.

use vstd::prelude::*;

use crate::analyzer::{Finding, FindingView, Severity};
use crate::text::{char_views, chars_of, decimal, join, join_exec, push_decimal, push_str};

verus! {

/// Categories of hosts that are expected to serve installers.
pub open spec fn safe_categories() -> Seq<Seq<char>> {
    seq![
        "software"@,
        "developer_tools"@,
        "technology"@,
        "business"@,
        "hosting"@,
        "cdn"@,
        "saas"@,
        "cloud_computing"@,
        "open_source"@,
    ]
}

/// Some category is a safe one.
pub open spec fn in_safe_category(categories: Seq<Seq<char>>) -> bool {
    exists|i: int| 0 <= i < categories.len() && safe_categories().contains(#[trigger] categories[i])
}

/// The evidence of a ranking finding.
pub open spec fn radar_evidence(rank: u64, categories: Seq<Seq<char>>) -> Seq<char> {
    "Radar rank "@ + decimal(rank as nat) + " (categories: "@ + join(categories, ", "@) + ")"@
}

/// The finding for a Radar answer: none unless the answer reports success;
/// for a successful answer, a rank below 100,000 outside the safe categories
/// is a low-popularity host (5); otherwise a rank below 1,000,000 is an
/// uncommon host (3).
pub open spec fn radar_finding_spec(success: bool, rank: Option<u64>, categories: Seq<Seq<char>>) -> Option<FindingView> {
    if !success {
        None
    } else {
        match rank {
            Some(r) => if r > 0 && r < 100_000 && !in_safe_category(categories) {
                Some(
                    FindingView {
                        source: "Cloudflare"@,
                        title: "Low popularity download host"@,
                        detail: "Cloudflare Radar ranks this domain well below typical installer hosts"@,
                        severity: Severity::Low,
                        score: 5,
                        evidence: radar_evidence(r, categories),
                    },
                )
            } else if r > 0 && r < 1_000_000 {
                Some(
                    FindingView {
                        source: "Cloudflare"@,
                        title: "Uncommon download host"@,
                        detail: "Domain has moderate Cloudflare Radar ranking"@,
                        severity: Severity::Low,
                        score: 3,
                        evidence: radar_evidence(r, categories),
                    },
                )
            } else {
                None
            },
            None => None,
        }
    }
}

/// A failed Radar answer gives no finding; a successful one gives the
/// low-popularity finding (Low, 5) for a rank below 100,000 outside the safe
/// categories, the uncommon-host finding (Low, 3) for any other rank below
/// 1,000,000, and nothing for an unranked or well-ranked host.
pub proof fn radar_findings_follow_the_rank(success: bool, rank: Option<u64>, categories: Seq<Seq<char>>)
    ensures
        !success ==> radar_finding_spec(success, rank, categories) is None,
        rank is None ==> radar_finding_spec(success, rank, categories) is None,
        (rank matches Some(r) && (r == 0 || r >= 1_000_000)) ==> radar_finding_spec(success, rank, categories) is None,
        success && (rank matches Some(r) && 0 < r < 100_000) && !in_safe_category(categories) ==> (radar_finding_spec(
            success,
            rank,
            categories,
        ) matches Some(f) && f.title == "Low popularity download host"@ && f.score == 5 && f.severity
            == Severity::Low && f.source == "Cloudflare"@),
        success && rank is Some && 0 < rank->0 < 1_000_000 && !(rank->0 < 100_000 && !in_safe_category(
            categories,
        )) ==> (radar_finding_spec(success, rank, categories) matches Some(f) && f.title
            == "Uncommon download host"@ && f.score == 3 && f.severity == Severity::Low),
{
}

fn is_safe(c: &Vec<char>) -> (r: bool)
    ensures
        r == safe_categories().contains(c@),
{
    let list: Vec<&'static str> = vec![
        "software",
        "developer_tools",
        "technology",
        "business",
        "hosting",
        "cdn",
        "saas",
        "cloud_computing",
        "open_source",
    ];
    let ghost views = list@.map_values(|t: &'static str| t@);
    assert(views =~= safe_categories());
    let mut i: usize = 0;
    while i < list.len()
        invariant
            i <= list.len(),
            views == list@.map_values(|t: &'static str| t@),
            views == safe_categories(),
            forall|k: int| 0 <= k < i ==> views[k] != c@,
        decreases list.len() - i,
    {
        if crate::text::chars_eq(chars_of(list[i]).as_slice(), c.as_slice()) {
            assert(views[i as int] == c@);
            return true;
        }
        i = i + 1;
    }
    false
}

/// A finding from a Cloudflare Radar ranking answer.
pub fn radar_finding(success: bool, rank: Option<u64>, categories: &Vec<String>) -> (r: Option<Finding>)
    ensures
        match r {
            Some(f) => radar_finding_spec(
                success,
                rank,
                categories@.map_values(|c: String| c@),
            ) == Some(f@),
            None => radar_finding_spec(success, rank, categories@.map_values(|c: String| c@)) is None,
        },
{
    let ghost cats = categories@.map_values(|c: String| c@);
    if !success {
        return None;
    }
    let r = match rank {
        Some(r) => r,
        None => {
            return None;
        },
    };
    let mut cs: Vec<Vec<char>> = Vec::new();
    let mut safe = false;
    let mut i: usize = 0;
    while i < categories.len()
        invariant
            i <= categories.len(),
            cats == categories@.map_values(|c: String| c@),
            char_views(cs@) == cats.take(i as int),
            safe == exists|k: int| 0 <= k < i && safe_categories().contains(#[trigger] cats[k]),
        decreases categories.len() - i,
    {
        let c = chars_of(categories[i].as_str());
        let s = is_safe(&c);
        let ghost before = char_views(cs@);
        assert(cats[i as int] == c@);
        cs.push(c);
        assert(char_views(cs@) =~= before.push(cats[i as int]));
        assert(cats.take(i + 1) =~= cats.take(i as int).push(cats[i as int]));
        proof {
            if !safe && !s {
                assert forall|k: int| 0 <= k < i + 1 implies !safe_categories().contains(#[trigger] cats[k]) by {
                    if k < i {
                    }
                }
            }
        }
        safe = safe || s;
        i = i + 1;
    }
    assert(cats.take(cats.len() as int) == cats);
    let low = r > 0 && r < 100_000 && !safe;
    if !low && !(r > 0 && r < 1_000_000) {
        return None;
    }
    let mut ev = String::new();
    push_str(&mut ev, "Radar rank ");
    push_decimal(&mut ev, r);
    push_str(&mut ev, " (categories: ");
    push_str(&mut ev, join_exec(&cs, ", ").as_str());
    push_str(&mut ev, ")");
    assert(ev@ =~= radar_evidence(r, cats));
    if low {
        Some(
            Finding {
                source: "Cloudflare",
                title: "Low popularity download host",
                detail: "Cloudflare Radar ranks this domain well below typical installer hosts",
                severity: Severity::Low,
                score: 5,
                evidence: ev,
            },
        )
    } else {
        Some(
            Finding {
                source: "Cloudflare",
                title: "Uncommon download host",
                detail: "Domain has moderate Cloudflare Radar ranking",
                severity: Severity::Low,
                score: 3,
                evidence: ev,
            },
        )
    }
}

} // verus!
