use safeinstall::analyzer::{
    compute_energy_score, deduplicate, score_of_energy, severity_for_score, Assessment, Finding,
    Severity,
};
use safeinstall::digest::sha256_hex;
use safeinstall::source::InstallerKind;

fn finding(source: &'static str, score: u8, evidence: &str) -> Finding {
    Finding {
        source,
        title: "t",
        detail: "d",
        severity: Severity::Low,
        score,
        evidence: evidence.to_string(),
    }
}

#[test]
fn energy_scores_match_the_saturation_curve() {
    assert_eq!(score_of_energy(0), 0);
    assert_eq!(score_of_energy(2), 3);
    assert_eq!(score_of_energy(4), 6);
    assert_eq!(score_of_energy(6), 10);
    assert_eq!(score_of_energy(35), 44);
    assert_eq!(score_of_energy(45), 53);
    assert_eq!(score_of_energy(100), 81);
    assert_eq!(score_of_energy(318), 100);
    assert_eq!(score_of_energy(u64::MAX), 100);
}

#[test]
fn split_energy_can_score_more_than_its_parts() {
    // Rounding makes the score of a sum exceed the sum of the scores here.
    assert!(score_of_energy(6) > score_of_energy(2) + score_of_energy(4));
}

#[test]
fn risk_bands_have_the_documented_edges() {
    assert_eq!(severity_for_score(0), Severity::Low);
    assert_eq!(severity_for_score(25), Severity::Low);
    assert_eq!(severity_for_score(26), Severity::Medium);
    assert_eq!(severity_for_score(50), Severity::Medium);
    assert_eq!(severity_for_score(51), Severity::High);
    assert_eq!(severity_for_score(75), Severity::High);
    assert_eq!(severity_for_score(76), Severity::Critical);
    assert_eq!(severity_for_score(100), Severity::Critical);
}

#[test]
fn findings_are_scored_by_their_summed_energy() {
    let fs = vec![finding("a", 20, ""), finding("b", 25, "")];
    assert_eq!(compute_energy_score(&fs), (53, Severity::High));
    assert_eq!(compute_energy_score(&[]), (0, Severity::Low));
    let many: Vec<Finding> = (0..20).map(|_| finding("a", 255, "")).collect();
    assert_eq!(compute_energy_score(&many), (100, Severity::Critical));
}

#[test]
fn adding_a_finding_does_not_lower_the_score() {
    let mut fs = vec![finding("a", 35, "")];
    let before = compute_energy_score(&fs).0;
    fs.push(finding("b", 1, ""));
    assert!(compute_energy_score(&fs).0 >= before);
}

#[test]
fn order_of_findings_does_not_change_the_score() {
    let a = vec![finding("a", 10, ""), finding("b", 35, ""), finding("c", 8, "")];
    let b = vec![finding("c", 8, ""), finding("a", 10, ""), finding("b", 35, "")];
    assert_eq!(compute_energy_score(&a), compute_energy_score(&b));
}

#[test]
fn deduplicate_keeps_the_strongest_report_of_a_cve() {
    let mut fs = vec![
        finding("OSV", 10, "CVE-2021-1234 seen"),
        finding("GitHub Advisories", 30, "also CVE-2021-1234"),
        finding("Static Analysis", 5, "no identifier"),
    ];
    deduplicate(&mut fs);
    let scores: Vec<u8> = fs.iter().map(|f| f.score).collect();
    assert_eq!(scores, vec![30, 5]);
    assert_eq!(fs[0].source, "GitHub Advisories");
}

#[test]
fn deduplicate_sorts_stably_by_descending_score() {
    let mut fs = vec![
        finding("a", 5, ""),
        finding("b", 20, ""),
        finding("c", 5, ""),
        finding("d", 20, "CVE-2020-99999"),
    ];
    deduplicate(&mut fs);
    let order: Vec<&str> = fs.iter().map(|f| f.source).collect();
    assert_eq!(order, vec!["b", "d", "a", "c"]);
}

#[test]
fn deduplicate_drops_a_finding_sharing_any_cve() {
    let mut fs = vec![
        finding("a", 40, "CVE-2022-0001 and CVE-2022-0002"),
        finding("b", 30, "CVE-2022-0002"),
        finding("c", 20, "CVE-2022-0003"),
    ];
    deduplicate(&mut fs);
    let order: Vec<&str> = fs.iter().map(|f| f.source).collect();
    assert_eq!(order, vec!["a", "c"]);
}

#[test]
fn deduplication_does_not_raise_the_score() {
    let mut fs = vec![
        finding("a", 30, "CVE-2021-1234"),
        finding("b", 30, "CVE-2021-1234"),
    ];
    let before = compute_energy_score(&fs).0;
    deduplicate(&mut fs);
    assert!(compute_energy_score(&fs).0 <= before);
    assert_eq!(compute_energy_score(&fs).0, 39);
}

#[test]
fn recalculate_rescores_the_current_findings() {
    let mut a = Assessment {
        source: "s".to_string(),
        host: "h".to_string(),
        installer_type: InstallerKind::Bash,
        sha256: "x".to_string(),
        score: 0,
        risk: Severity::Low,
        findings: vec![finding("a", 35, "")],
        package_summary: None,
    };
    a.recalculate();
    assert_eq!(a.score, 44);
    assert_eq!(a.risk, Severity::Medium);
    a.findings.push(finding("b", 10, ""));
    a.recalculate();
    assert_eq!(a.score, 53);
    assert_eq!(a.risk, Severity::High);
    assert_eq!(a.source, "s");
}

#[test]
fn sha256_hex_gives_the_known_digest() {
    assert_eq!(
        sha256_hex(b"abc"),
        "ba7816bf8f01cfea414140de5dae2223b00361a396177a9cb410ff61f20015ad"
    );
    assert_eq!(
        sha256_hex(b""),
        "e3b0c44298fc1c149afbf4c8996fb92427ae41e4649b934ca495991b7852b855"
    );
}

#[test]
fn repeated_findings_have_diminishing_returns() {
    let one = vec![finding("a", 35, "")];
    let two = vec![finding("a", 35, ""), finding("b", 35, "")];
    let s1 = compute_energy_score(&one).0;
    let s2 = compute_energy_score(&two).0;
    assert_eq!((s1, s2), (44, 69));
    assert!(s2 <= s1 + score_of_energy(35));
}

#[test]
fn any_reordering_keeps_the_score() {
    let a = vec![finding("a", 3, ""), finding("b", 40, ""), finding("c", 12, ""), finding("d", 7, "")];
    let b = vec![finding("d", 7, ""), finding("b", 40, ""), finding("a", 3, ""), finding("c", 12, "")];
    assert_eq!(compute_energy_score(&a), compute_energy_score(&b));
}

#[test]
fn appended_findings_add_at_most_their_own_score_plus_one() {
    let a = vec![finding("a", 2, "")];
    let b = vec![finding("b", 4, "")];
    let both = vec![finding("a", 2, ""), finding("b", 4, "")];
    let (sa, sb, sab) = (
        compute_energy_score(&a).0,
        compute_energy_score(&b).0,
        compute_energy_score(&both).0,
    );
    assert!(sa <= sab && sab <= sa + sb + 1);
    assert_eq!(sab, sa + sb + 1);
}
