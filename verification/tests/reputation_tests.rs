use safeinstall::analyzer::Severity;
use safeinstall::reputation::cloudflare::radar_finding;
use safeinstall::reputation::domain::check;
use safeinstall::reputation::github_advisory::{
    advisory_affects, advisory_cvss, advisory_finding, AffectedPackage,
};
use safeinstall::reputation::osv::{
    osv_cvss, osv_finding, shown_summaries_can_be_cut, summary_can_be_cut, vulnerability_evidence, SeverityEntry, VulnSummary,
};
use safeinstall::reputation::urlhaus::{urlhaus_finding, UrlhausEntry};
use safeinstall::reputation::virustotal::virustotal_finding;

fn entry(id: &str, cve: Option<&str>, tenths: u8, summary: &str, date: Option<&str>) -> VulnSummary {
    VulnSummary {
        id: id.to_string(),
        cve: cve.map(|s| s.to_string()),
        cvss_tenths: tenths,
        summary: summary.to_string(),
        date: date.map(|s| s.to_string()),
    }
}

#[test]
fn www_prefix_and_storage_hosts() {
    assert!(check("www.github.com").is_none());
    let f = check("bucket.s3.amazonaws.com").unwrap();
    assert_eq!(f.title, "Cloud storage download host");
    assert_eq!(f.evidence, "bucket.s3.amazonaws.com");
    let ip = check("www.10.0.0.1").unwrap();
    assert_eq!(ip.title, "Raw IP installation source");
    assert_eq!(ip.evidence, "www.10.0.0.1");
    let other = check("notgithub.com").unwrap();
    assert_eq!(other.title, "Uncommon download host");
    assert_eq!(other.severity, Severity::Medium);
}

#[test]
fn vulnerability_evidence_lists_bands() {
    let entries = vec![
        entry("GHSA-1", Some("CVE-2024-0001"), 98, "Remote code execution", Some("2024-01-02")),
        entry("GHSA-2", None, 75, "Prototype pollution", None),
        entry("GHSA-3", None, 40, "Minor issue", Some("2023-03-04")),
    ];
    let ev = vulnerability_evidence("npm", "pkg", &entries);
    let expected = "npm (pkg) - 3 known advisories\n  Critical: 1  High: 1  Moderate/Low: 1\n\n  Critical (1):\n    CVE-2024-0001             9.8  2024-01-02  Remote code execution\n\n  High (1):\n    GHSA-2                    7.5  --          Prototype pollution\n  + 1 more moderate/low severity advisories";
    assert_eq!(ev, expected);
}

#[test]
fn vulnerability_evidence_shows_the_top_five() {
    let entries: Vec<VulnSummary> = (0..7)
        .map(|i| entry(&format!("ID-{i}"), None, 91, "s", None))
        .collect();
    let ev = vulnerability_evidence("PyPI", "p", &entries);
    assert!(ev.contains("\n\n  Critical (top 5 of 7):"));
    assert_eq!(ev.matches("\n    ID-").count(), 5);
    assert!(!ev.contains("more moderate/low"));
}

#[test]
fn long_summaries_are_cut_with_an_ellipsis() {
    let long = "a".repeat(60);
    let entries = vec![entry("X", None, 95, &long, None)];
    let ev = vulnerability_evidence("npm", "p", &entries);
    assert!(ev.ends_with(&format!("{}\u{2026}", "a".repeat(52))));
    assert!(summary_can_be_cut(&long));
    let awkward = format!("{}é{}", "a".repeat(51), "b".repeat(10));
    assert!(!summary_can_be_cut(&awkward));
}

#[test]
fn osv_findings_name_their_source_by_ecosystem() {
    let entries = vec![entry("A", None, 50, "s", None)];
    let f = osv_finding("GitHub", "o/r", &entries, 60);
    assert_eq!(f.source, "OSV (GitHub)");
    assert_eq!(f.severity, Severity::High);
    assert_eq!(f.score, 60);
    let g = osv_finding("npm", "p", &entries, 20);
    assert_eq!(g.source, "OSV");
    assert_eq!(g.severity, Severity::Low);
    assert_eq!(g.title, "Known vulnerabilities in package");
}

#[test]
fn osv_cvss_prefers_database_then_vectors_then_label() {
    assert_eq!(osv_cvss(Some(72), None, None), 72);
    let sev = vec![
        SeverityEntry { kind: "Ubuntu".to_string(), score: "high".to_string() },
        SeverityEntry {
            kind: "CVSS_V3".to_string(),
            score: "CVSS:3.1/AV:N/AC:L/PR:N/UI:N/S:U/C:H/I:H/A:H".to_string(),
        },
    ];
    assert_eq!(osv_cvss(Some(0), Some(&sev), Some("low")), 98);
    assert_eq!(osv_cvss(None, Some(&vec![]), Some("critical")), 30);
    assert_eq!(osv_cvss(None, None, Some("CRITICAL")), 95);
    assert_eq!(osv_cvss(None, None, Some("High")), 80);
    assert_eq!(osv_cvss(None, None, Some("medium")), 55);
    assert_eq!(osv_cvss(None, None, Some("Moderate")), 55);
    assert_eq!(osv_cvss(None, None, None), 30);
}

#[test]
fn advisories_match_package_and_ecosystem() {
    let vs = vec![
        AffectedPackage { ecosystem: Some("NPM".to_string()), name: Some("left-pad".to_string()) },
    ];
    assert!(advisory_affects(Some(&vs), "npm", "left-pad"));
    assert!(!advisory_affects(Some(&vs), "npm", "Left-Pad"));
    assert!(!advisory_affects(Some(&vs), "pip", "left-pad"));
    assert!(!advisory_affects(None, "npm", "left-pad"));
    let partial = vec![AffectedPackage { ecosystem: None, name: Some("left-pad".to_string()) }];
    assert!(!advisory_affects(Some(&partial), "npm", "left-pad"));
}

#[test]
fn advisory_cvss_takes_the_first_positive_score() {
    assert_eq!(advisory_cvss(Some(81), Some(90), None, None), 81);
    assert_eq!(advisory_cvss(Some(0), Some(90), Some(70), None), 90);
    assert_eq!(advisory_cvss(None, None, Some(70), Some("critical")), 70);
    assert_eq!(advisory_cvss(None, None, None, Some("Critical")), 95);
    assert_eq!(advisory_cvss(None, None, None, Some("moderate")), 30);
    assert_eq!(advisory_cvss(None, None, None, Some("low")), 30);
}

#[test]
fn advisory_findings_come_from_github_advisories() {
    let entries = vec![entry("GHSA-9", None, 80, "s", Some("2020-01-01"))];
    let f = advisory_finding("npm", "p", &entries, 30);
    assert_eq!(f.source, "GitHub Advisories");
    assert_eq!(f.severity, Severity::Medium);
    assert_eq!(
        f.detail,
        "GitHub Advisory Database reports known security advisories for this package"
    );
    assert!(f.evidence.starts_with("npm (p) - 1 known advisories"));
}

#[test]
fn urlhaus_listing_with_payload_is_critical() {
    let urls = vec![
        UrlhausEntry { url: Some("http://h/a".to_string()), threat: Some("malware_download".to_string()) },
        UrlhausEntry { url: None, threat: Some("botnet_cc".to_string()) },
        UrlhausEntry { url: Some("http://h/c".to_string()), threat: Some("botnet_cc".to_string()) },
        UrlhausEntry { url: Some("http://h/d".to_string()), threat: None },
    ];
    let f = urlhaus_finding(Some("ok"), Some(&urls)).unwrap();
    assert_eq!(f.severity, Severity::Critical);
    assert_eq!(f.score, 55);
    assert_eq!(
        f.evidence,
        "4 threats reported (botnet_cc, malware_download): http://h/a; http://h/c"
    );
}

#[test]
fn urlhaus_listing_without_payload_is_high() {
    let urls = vec![UrlhausEntry { url: Some("http://h/a".to_string()), threat: Some("phishing".to_string()) }];
    let f = urlhaus_finding(Some("ok"), Some(&urls)).unwrap();
    assert_eq!(f.severity, Severity::High);
    assert_eq!(f.score, 35);
    assert!(urlhaus_finding(Some("no_results"), Some(&urls)).is_none());
    assert!(urlhaus_finding(Some("ok"), Some(&vec![])).is_none());
    assert!(urlhaus_finding(None, Some(&urls)).is_none());
    assert!(urlhaus_finding(Some("ok"), None).is_none());
}

#[test]
fn radar_rank_findings() {
    let cats = vec!["gambling".to_string(), "games".to_string()];
    let low = radar_finding(true, Some(50_000), &cats).unwrap();
    assert_eq!(low.title, "Low popularity download host");
    assert_eq!(low.score, 5);
    assert_eq!(low.severity, Severity::Low);
    assert_eq!(low.evidence, "Radar rank 50000 (categories: gambling, games)");
    let safe = vec!["software".to_string()];
    let uncommon = radar_finding(true, Some(50_000), &safe).unwrap();
    assert_eq!(uncommon.title, "Uncommon download host");
    assert_eq!(uncommon.score, 3);
    assert!(radar_finding(true, Some(2_000_000), &cats).is_none());
    assert!(radar_finding(true, Some(0), &cats).is_none());
    assert!(radar_finding(true, None, &cats).is_none());
}

#[test]
fn failed_radar_answers_give_no_finding() {
    let cats = vec!["gambling".to_string()];
    assert!(radar_finding(false, Some(50_000), &cats).is_none());
    assert!(radar_finding(false, Some(5), &vec![]).is_none());
}

#[test]
fn virustotal_verdicts() {
    let m = virustotal_finding(40, 0, 70, 57).unwrap();
    assert_eq!(m.severity, Severity::Critical);
    assert_eq!(m.score, 57);
    assert_eq!(m.evidence, "40/70 security vendors flagged this file as malicious");
    let few = virustotal_finding(2, 0, 70, 2).unwrap();
    assert_eq!(few.severity, Severity::High);
    assert_eq!(few.score, 50);
    let sus = virustotal_finding(0, 3, 70, 0).unwrap();
    assert_eq!(sus.title, "Suspicious file detection");
    assert_eq!(sus.score, 15);
    assert_eq!(sus.evidence, "3/70 engines reported suspicious behavior");
    assert!(virustotal_finding(0, 0, 70, 0).is_none());
}

#[test]
fn only_shown_summaries_need_clean_cuts() {
    let awkward = format!("{}é{}", "a".repeat(51), "b".repeat(10));
    let hidden = vec![entry("L", None, 30, &awkward, None)];
    assert!(shown_summaries_can_be_cut(&hidden));
    let shown = vec![entry("C", None, 95, &awkward, None)];
    assert!(!shown_summaries_can_be_cut(&shown));
    let sixth: Vec<VulnSummary> = (0..6)
        .map(|i| entry("H", None, 75, if i == 5 { &awkward } else { "ok" }, None))
        .collect();
    assert!(shown_summaries_can_be_cut(&sixth));
}
