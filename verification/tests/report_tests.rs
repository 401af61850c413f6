use safeinstall::analyzer::{analyze, compute_energy_score, Finding, Severity};
use safeinstall::report::{
    checked_source_breakdown, finding_text, header, score_text, severity_name, source_breakdown,
    GRN, HEADER, HEADER_COMPACT, RED, RST,
};
use safeinstall::source::{Artifact, InstallerKind};
use safeinstall::weburl::WebUrl;

fn finding(source: &'static str, score: u8) -> Finding {
    Finding {
        source,
        title: "Title",
        detail: "Detail",
        severity: Severity::High,
        score,
        evidence: "ev".to_string(),
    }
}

fn web_url(s: &str) -> WebUrl {
    let u = url::Url::parse(s).unwrap();
    WebUrl {
        serialization: u.as_str().to_string(),
        scheme: u.scheme().to_string(),
        host: u.host_str().map(|h| h.to_string()),
        path: u.path().to_string(),
    }
}

#[test]
fn severity_names_are_shown_as_documented() {
    assert_eq!(severity_name(&Severity::Low), "Low");
    assert_eq!(severity_name(&Severity::Medium), "Moderate");
    assert_eq!(severity_name(&Severity::High), "High");
    assert_eq!(severity_name(&Severity::Critical), "Critical");
}

#[test]
fn finding_text_repeats_the_source_only_when_it_changes() {
    let f = finding("OSV", 12);
    let (first, prev) = finding_text(&f, None);
    assert_eq!(
        first,
        format!("  {RED}OSV{RST}\n  [High] Title (+12): Detail\n  Evidence: ev\n")
    );
    assert_eq!(prev, Some("OSV"));
    let (second, _) = finding_text(&f, prev);
    assert_eq!(second, "  [High] Title (+12): Detail\n  Evidence: ev\n");
    let (third, prev3) = finding_text(&finding("URLHaus", 35), prev);
    assert_eq!(
        third,
        format!("\n  {RED}URLHaus{RST}\n  [High] Title (+35): Detail\n  Evidence: ev\n")
    );
    assert_eq!(prev3, Some("URLHaus"));
}

#[test]
fn score_text_shows_score_risk_and_breakdown() {
    assert_eq!(
        score_text(44, &Severity::Medium, ""),
        format!("\n  {RED}Risk score: 44/100 (Moderate){RST}\n")
    );
    assert_eq!(
        score_text(100, &Severity::Critical, "OSV  81"),
        format!("\n  {RED}Risk score: 100/100 (Critical){RST}\n    OSV  81\n")
    );
}

#[test]
fn source_breakdown_groups_scores_by_source() {
    let fs = vec![
        finding("Static Analysis", 20),
        finding("OSV", 10),
        finding("Static Analysis", 25),
    ];
    assert_eq!(
        source_breakdown(&fs),
        "Static Analysis   53\n    OSV               15"
    );
    assert_eq!(source_breakdown(&[]), "");
    assert_eq!(
        checked_source_breakdown(&fs),
        Some("Static Analysis   53\n    OSV               15".to_string())
    );
}

#[test]
fn checked_breakdown_refuses_overflowing_sums() {
    let fs: Vec<Finding> = (0..300).map(|_| finding("OSV", 255)).collect();
    assert_eq!(checked_source_breakdown(&fs), None);
}

#[test]
fn header_colours_parentheses_red() {
    let wide = header(false);
    assert!(wide.starts_with(GRN));
    assert!(wide.ends_with(RST));
    assert!(wide.contains(&format!("{RED}({GRN}")));
    assert!(wide.contains(&format!("{RED}){GRN}")));
    let plain: String = HEADER.chars().filter(|c| *c != '(' && *c != ')').collect();
    let stripped = wide
        .replace(&format!("{RED}({GRN}"), "")
        .replace(&format!("{RED}){GRN}"), "");
    assert_eq!(stripped, format!("{GRN}{plain}{RST}"));
    let narrow = header(true);
    assert!(narrow.len() < wide.len());
    assert!(HEADER_COMPACT.lines().count() == 9);
}

#[test]
fn analyze_flags_opaque_executables_and_plain_http() {
    let a = Artifact {
        bytes: vec![0x7f, b'E', b'L', b'F', 0],
        kind: InstallerKind::Executable,
        url: web_url("http://203.0.113.9/tool.bin"),
    };
    let result = analyze(&a);
    let titles: Vec<&str> = result.findings.iter().map(|f| f.title).collect();
    assert_eq!(titles, vec!["Opaque executable", "Insecure download transport"]);
    assert_eq!(result.findings[1].evidence, "http://203.0.113.9/tool.bin");
    assert_eq!(result.score, 66);
    assert_eq!(result.risk, Severity::High);
    assert_eq!(result.host, "203.0.113.9");
    assert_eq!(result.source, "http://203.0.113.9/tool.bin");
    assert_eq!(result.installer_type, InstallerKind::Executable);
    assert_eq!(result.sha256.len(), 64);
    assert!(result.package_summary.is_none());
}

#[test]
fn analyze_trims_evidence() {
    let long = format!("   sudo {}", "x".repeat(200));
    let result = analyze(&Artifact {
        bytes: long.into_bytes(),
        kind: InstallerKind::Bash,
        url: web_url("https://example.com/i.sh"),
    });
    assert_eq!(result.findings.len(), 1);
    assert_eq!(result.findings[0].title, "Requests elevated privileges");
    assert_eq!(result.findings[0].evidence, "sudo");
}

#[test]
fn each_breakdown_line_scores_its_source_alone() {
    let fs = vec![finding("A", 30), finding("B", 5), finding("A", 15)];
    let a_only = vec![finding("A", 30), finding("A", 15)];
    let score = compute_energy_score(&a_only).0;
    assert_eq!(source_breakdown(&fs), format!("A  {score:>3}\n    B    8"));
}
