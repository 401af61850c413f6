use safeinstall::analyzer::{Finding, Severity};
use safeinstall::registry::{
    advisory_ecosystem, description_can_be_cut, osv_ecosystem, format_summary, github_findings, github_repo_from_url, label_val, num_with_commas,
    package_assessment, package_findings, scorecard_finding, GitHubInfo, PackageInfo,
    ScorecardCheck, ScorecardInfo,
};
use safeinstall::source::InstallerKind;

fn package(owner: Option<&str>, name: Option<&str>) -> PackageInfo {
    PackageInfo {
        registry: "npm".to_string(),
        package: "left-pad".to_string(),
        version: "1.3.0".to_string(),
        description: "String left pad".to_string(),
        maintainers: 2,
        downloads: "1.2M/week".to_string(),
        license: "WTFPL".to_string(),
        repo_owner: owner.map(|s| s.to_string()),
        repo_name: name.map(|s| s.to_string()),
    }
}

fn repo(archived: bool, policy: bool) -> GitHubInfo {
    GitHubInfo {
        stars: 1234,
        forks: 0,
        language: Some("JavaScript".to_string()),
        archived,
        has_security_policy: policy,
        updated_at: "2024-05-01T10:00:00Z".to_string(),
    }
}

fn finding(source: &'static str, score: u8, evidence: &str) -> Finding {
    Finding {
        source,
        title: "t",
        detail: "d",
        severity: Severity::Low,
        score,
        evidence: evidence.to_string(),
    }
}

#[test]
fn numbers_get_thousands_separators() {
    assert_eq!(num_with_commas(0), "0");
    assert_eq!(num_with_commas(999), "999");
    assert_eq!(num_with_commas(1000), "1,000");
    assert_eq!(num_with_commas(1234567), "1,234,567");
    assert_eq!(num_with_commas(u32::MAX), "4,294,967,295");
}

#[test]
fn labelled_lines_pad_the_label_to_fourteen_columns() {
    assert_eq!(label_val("Stars:", "5"), "  Stars:         5\n");
    assert_eq!(label_val("Description:", "x"), "  Description:   x\n");
}

#[test]
fn repository_urls_name_the_github_owner_and_repo() {
    assert_eq!(
        github_repo_from_url("git+https://github.com/owner/repo.git"),
        (Some("owner".to_string()), Some("repo".to_string()))
    );
    assert_eq!(
        github_repo_from_url("https://github.com/owner/repo/tree/main"),
        (Some("owner".to_string()), Some("repo".to_string()))
    );
    assert_eq!(
        github_repo_from_url("https://github.com/owner"),
        (Some("owner".to_string()), None)
    );
    assert_eq!(github_repo_from_url("https://gitlab.com/owner/repo"), (None, None));
    assert_eq!(github_repo_from_url(""), (None, None));
}

#[test]
fn summary_without_repository() {
    let p = package(None, None);
    assert_eq!(
        format_summary(&p, None, None),
        "  Registry:      npm\n  Package:       left-pad  (v1.3.0)\n  License:       WTFPL\n  Description:   String left pad\n  Maintainers:   2\n  Downloads:     1.2M/week\n"
    );
}

#[test]
fn summary_hides_unknown_license_and_cuts_long_descriptions() {
    let mut p = package(None, None);
    p.license = "unknown".to_string();
    p.description = "d".repeat(80);
    let s = format_summary(&p, None, None);
    assert!(!s.contains("License:"));
    assert!(s.contains(&format!("  Description:   {}\u{2026}\n", "d".repeat(69))));
}

#[test]
fn summary_with_repository_and_scorecard() {
    let p = package(Some("o"), Some("r"));
    let sc = ScorecardInfo {
        overall_tenths: 68,
        checks: vec![
            ScorecardCheck { name: "Maintained".to_string(), score: 10 },
            ScorecardCheck { name: "Fuzzing".to_string(), score: -1 },
            ScorecardCheck { name: "Pinned".to_string(), score: 5 },
            ScorecardCheck { name: "Review".to_string(), score: 0 },
        ],
    };
    let s = format_summary(&p, Some(&repo(false, true)), Some(&sc));
    let tail = "\n  Repository:    github.com/o/r\n  Stars:         1,234\n  Language:      JavaScript\n  Updated:       2024-05-01\n  Security:      present\n  Archived:      no\n  Scorecard:     6.8/10 (Moderate)\n    v Maintained (10/10)\n    - Fuzzing (N/A)\n    ! Pinned (5/10)\n    x Review (0/10)\n";
    assert!(s.ends_with(tail), "{s}");
}

#[test]
fn repository_findings_for_archived_repo_without_policy() {
    let p = package(Some("o"), Some("r"));
    let fs = github_findings(Some(&p), &repo(true, false));
    assert_eq!(fs.len(), 2);
    assert_eq!(fs[0].title, "Archived repository");
    assert_eq!(fs[0].score, 10);
    assert_eq!(fs[0].evidence, "github.com/o/r");
    assert_eq!(fs[1].title, "No security policy");
    assert_eq!(fs[1].score, 4);
    let none = github_findings(None, &repo(true, true));
    assert_eq!(none.len(), 1);
    assert_eq!(none[0].evidence, "github.com/?/?");
}

#[test]
fn scorecard_below_seven_and_a_half_is_a_finding() {
    let low = ScorecardInfo {
        overall_tenths: 68,
        checks: vec![
            ScorecardCheck { name: "a".to_string(), score: 1 },
            ScorecardCheck { name: "b".to_string(), score: 2 },
            ScorecardCheck { name: "c".to_string(), score: 3 },
        ],
    };
    let f = scorecard_finding(&low).unwrap();
    assert_eq!(f.source, "Scorecard");
    assert_eq!(f.score, 5);
    assert_eq!(f.evidence, "6.8/10 from 3 checks");
    let good = ScorecardInfo { overall_tenths: 75, checks: vec![] };
    assert!(scorecard_finding(&good).is_none());
}

#[test]
fn package_findings_keep_the_reporting_order() {
    let p = package(Some("o"), Some("r"));
    let sc = ScorecardInfo { overall_tenths: 40, checks: vec![] };
    let fs = package_findings(
        Some(&p),
        Some(&repo(true, true)),
        vec![finding("OSV", 20, "npm")],
        Some(finding("GitHub Advisories", 30, "adv")),
        vec![finding("OSV (GitHub)", 15, "gh")],
        Some(&sc),
    );
    let sources: Vec<&str> = fs.iter().map(|f| f.source).collect();
    assert_eq!(
        sources,
        vec!["GitHub", "OSV", "GitHub Advisories", "OSV (GitHub)", "Scorecard"]
    );
    let empty = package_findings(None, None, vec![], None, vec![], None);
    assert!(empty.is_empty());
}

#[test]
fn package_assessment_deduplicates_and_scores() {
    let fs = vec![
        finding("OSV", 20, "CVE-2023-1111"),
        finding("GitHub Advisories", 25, "CVE-2023-1111"),
        finding("GitHub", 4, "SECURITY.md not found"),
    ];
    let a = package_assessment("npm", "left-pad", fs, Some("summary".to_string()));
    assert_eq!(a.source, "npm install left-pad");
    assert_eq!(a.host, "registry.npms.org");
    assert_eq!(a.installer_type, InstallerKind::Text);
    assert_eq!(a.sha256, "package manager analysis (no download)");
    assert_eq!(a.findings.len(), 2);
    assert_eq!(a.findings[0].score, 25);
    assert_eq!(a.score, 38);
    assert_eq!(a.risk, Severity::Medium);
    assert_eq!(a.package_summary, Some("summary".to_string()));
}

#[test]
fn descriptions_are_cut_only_at_character_boundaries() {
    assert!(description_can_be_cut("short"));
    assert!(description_can_be_cut(&"d".repeat(80)));
    let awkward = format!("{}é{}", "d".repeat(68), "e".repeat(10));
    assert!(!description_can_be_cut(&awkward));
}

#[test]
fn packages_are_looked_up_in_their_own_ecosystem() {
    assert_eq!(osv_ecosystem("PyPI"), "PyPI");
    assert_eq!(osv_ecosystem("crates.io"), "crates.io");
    assert_eq!(osv_ecosystem("npm"), "npm");
    assert_eq!(advisory_ecosystem("PyPI"), "pip");
    assert_eq!(advisory_ecosystem("crates.io"), "rust");
    assert_eq!(advisory_ecosystem("npm"), "npm");
    assert_eq!(advisory_ecosystem("other"), "npm");
}
