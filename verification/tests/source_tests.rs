use safeinstall::source::{detect_kind, extract_url, InstallerKind};
use safeinstall::weburl::WebUrl;

fn web_url(s: &str) -> WebUrl {
    let u = url::Url::parse(s).unwrap();
    WebUrl {
        serialization: u.as_str().to_string(),
        scheme: u.scheme().to_string(),
        host: u.host_str().map(|h| h.to_string()),
        path: u.path().to_string(),
    }
}

#[test]
fn extracts_url_from_piped_command() {
    assert_eq!(
        extract_url("curl -fsSL https://example.com/install.sh | bash")
            .unwrap()
            .serialization
            .as_str(),
        "https://example.com/install.sh"
    );
}

#[test]
fn detects_powershell_extension() {
    assert!(matches!(
        detect_kind(
            &web_url("https://example.com/install.ps1"),
            "text/plain",
            b"Write-Host test"
        ),
        InstallerKind::PowerShell
    ));
}

#[test]
fn prioritizes_bash_shebang_over_powershell_mentions() {
    assert!(matches!(
        detect_kind(
            &web_url("https://example.com/install"),
            "text/plain",
            b"#!/usr/bin/env bash\nprintf 'Use PowerShell on Windows'"
        ),
        InstallerKind::Bash
    ));
}
