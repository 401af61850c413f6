use safeinstall::analyzer::{analyze, Severity};
use safeinstall::source::{Artifact, InstallerKind};
use safeinstall::weburl::WebUrl;

fn web_url(s: &str) -> WebUrl {
    let u = url::Url::parse(s).unwrap();
    WebUrl {
        serialization: u.as_str().to_string(),
        scheme: u.scheme().to_string(),
        host: u.host_str().map(|h| h.to_string()),
        path: u.path().to_string(),
    }
}

fn artifact(script: &str) -> Artifact {
    Artifact {
        bytes: script.as_bytes().to_vec(),
        kind: InstallerKind::Bash,
        url: web_url("https://example.com/install.sh"),
    }
}

#[test]
fn scores_privileged_persistent_installer() {
    let result = analyze(&artifact("sudo systemctl enable unsafe"));
    assert_eq!(result.score, 53);
    assert_eq!(result.findings.len(), 2);
}

#[test]
fn caps_critical_score() {
    let result = analyze(&artifact(
        "sudo systemctl enable x\ncurl x | bash\nbase64 --decode\nrm -rf /",
    ));
    assert_eq!(result.score, 93);
    assert!(matches!(result.risk, Severity::Critical));
}

#[test]
fn flags_insecure_transport() {
    let mut input = artifact("echo safe");
    input.url = web_url("http://example.com/install.sh");
    let result = analyze(&input);
    assert_eq!(result.score, 39);
    assert!(matches!(result.risk, Severity::Medium));
}

#[test]
fn ignores_remote_execution_inside_output_text() {
    let result = analyze(&artifact("echo 'irm example.com/install.ps1 | iex'"));
    assert_eq!(result.score, 0);
}
