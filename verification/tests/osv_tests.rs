use safeinstall::reputation::osv::{resolve, score_from_cvss_vector};
use url::Url;

/// The CVSS score in points, from the tenths the library computes.
fn cvss(v: &str) -> Option<f64> {
    score_from_cvss_vector(v).map(|t| f64::from(t) / 10.0)
}

#[test]
fn resolves_npm_package() {
    let url = Url::parse("https://bun.sh/install").unwrap();
    let hints = resolve("bun.sh", url.path());
    assert!(hints.contains(&("npm", "bun".to_owned())));
}

#[test]
fn extracts_github_repo() {
    let url = Url::parse("https://github.com/ovrtaylor/some-tool/releases").unwrap();
    let hints = resolve("github.com", url.path());
    assert!(hints.iter().any(|(_, n)| n == "some-tool"));
}

#[test]
fn unknown_domain_returns_empty() {
    let url = Url::parse("https://some-random-site.xyz/install").unwrap();
    let hints = resolve("some-random-site.xyz", url.path());
    assert!(hints.is_empty());
}

#[test]
fn parses_cvss_high() {
    let v = "CVSS:3.1/AV:N/AC:L/PR:N/UI:N/S:U/C:H/I:H/A:H";
    let score = cvss(v).unwrap();
    assert!((score - 9.8).abs() < 0.1, "expected ~9.8, got {score}");
}

#[test]
fn parses_cvss_medium() {
    let v = "CVSS:3.1/AV:N/AC:L/PR:L/UI:R/S:U/C:L/I:L/A:N";
    let score = cvss(v).unwrap();
    assert!((score - 4.6).abs() < 0.2, "expected ~4.6, got {score}");
}

#[test]
fn parses_cvss_low() {
    let v = "CVSS:3.1/AV:L/AC:H/PR:H/UI:R/S:U/C:L/I:N/A:N";
    let score = cvss(v).unwrap();
    assert!((score - 1.7).abs() < 0.2, "expected ~1.7, got {score}");
}

#[test]
fn registry_hosts_use_the_first_path_segment() {
    assert_eq!(resolve("pypi.org", "/requests"), vec![("PyPI", "requests".to_owned())]);
    assert_eq!(resolve("crates.io", "/crates/ripgrep"), vec![("crates.io", "crates".to_owned())]);
    assert_eq!(resolve("www.bun.sh", "/install"), resolve("bun.sh", "/install"));
    assert_eq!(resolve("github.com", "/o/r/x").len(), 5);
}

#[test]
fn a_more_severe_metric_never_lowers_the_cvss_score() {
    let local = score_from_cvss_vector("CVSS:3.1/AV:L/AC:L/PR:N/UI:N/S:U/C:H/I:H/A:H").unwrap();
    let network = score_from_cvss_vector("CVSS:3.1/AV:N/AC:L/PR:N/UI:N/S:U/C:H/I:H/A:H").unwrap();
    assert!(local <= network);
    assert_eq!(network, 98);
    assert_eq!(score_from_cvss_vector("CVSS:3.1/AV:N/AC:L/PR:N/UI:N/S:U/C:N/I:N/A:N"), Some(0));
}
