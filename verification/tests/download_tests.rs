use safeinstall::command::{parse, InstallCommand};
use safeinstall::source::{
    append_chunk, chunk_fits, declared_size_allowed, detect_kind, extract_url, finish_download, validate_url,
    InstallerKind, SourceError, MAX_INSTALLER_BYTES,
};
use safeinstall::weburl::WebUrl;

fn web_url(s: &str) -> WebUrl {
    let u = url::Url::parse(s).unwrap();
    WebUrl {
        serialization: u.as_str().to_string(),
        scheme: u.scheme().to_string(),
        host: u.host_str().map(|h| h.to_string()),
        path: u.path().to_string(),
    }
}

#[test]
fn direct_urls_are_parsed_and_normalised() {
    let u = extract_url("https://Example.com").unwrap();
    assert_eq!(u.serialization, "https://example.com/");
    assert_eq!(u.scheme, "https");
    assert_eq!(u.host.as_deref(), Some("example.com"));
    assert_eq!(u.path, "/");
}

#[test]
fn non_web_sources_are_refused() {
    assert_eq!(extract_url("ftp://example.com/x.sh").unwrap_err(), SourceError::UnsupportedScheme);
    assert_eq!(extract_url("run the installer").unwrap_err(), SourceError::NoUrlFound);
    assert_eq!(
        SourceError::UnsupportedScheme.message(),
        "only HTTP and HTTPS installer sources are supported"
    );
    assert_eq!(SourceError::NoUrlFound.message(), "no HTTP or HTTPS installer URL found");
    assert!(validate_url(web_url("file:///etc/passwd")).is_err());
    assert!(validate_url(web_url("http://example.com/")).is_ok());
}

#[test]
fn urls_stop_at_quotes_and_pipes() {
    let u = extract_url("iwr 'https://example.com/install.ps1'|iex").unwrap();
    assert_eq!(u.serialization, "https://example.com/install.ps1");
}

#[test]
fn size_limits_follow_the_twenty_megabyte_cap() {
    assert_eq!(MAX_INSTALLER_BYTES, 20_000_000);
    assert!(declared_size_allowed(None));
    assert!(declared_size_allowed(Some(20_000_000)));
    assert!(!declared_size_allowed(Some(20_000_001)));
    assert!(chunk_fits(19_999_999, 1));
    assert!(!chunk_fits(19_999_999, 2));
    assert!(!chunk_fits(usize::MAX, 1));
    assert_eq!(
        SourceError::TooLarge.message(),
        "installer exceeds the 20 MB analysis limit"
    );
}

#[test]
fn finishing_a_download_detects_its_kind() {
    assert_eq!(
        finish_download(web_url("https://e.com/i.sh"), "text/plain", vec![]).unwrap_err(),
        SourceError::Empty
    );
    let a = finish_download(web_url("https://e.com/i"), "text/plain", b"#!/usr/bin/env python3\n".to_vec()).unwrap();
    assert_eq!(a.kind, InstallerKind::Python);
    assert_eq!(a.bytes, b"#!/usr/bin/env python3\n".to_vec());
    assert_eq!(a.url.serialization, "https://e.com/i");
}

#[test]
fn kinds_follow_extension_shebang_and_content() {
    let u = web_url("https://e.com/INSTALL.PY");
    assert_eq!(detect_kind(&u, "", b"echo"), InstallerKind::Python);
    let plain = web_url("https://e.com/get");
    assert_eq!(detect_kind(&plain, "", b"#!/bin/sh\necho hi"), InstallerKind::Bash);
    assert_eq!(detect_kind(&plain, "", b"#!/usr/bin/pwsh\n"), InstallerKind::PowerShell);
    assert_eq!(
        detect_kind(&plain, "application/octet-stream", b"MZ"),
        InstallerKind::Executable
    );
    assert_eq!(detect_kind(&plain, "", b"ab\0cd"), InstallerKind::Executable);
    assert_eq!(detect_kind(&plain, "text/plain", b"hello"), InstallerKind::Text);
}

#[test]
fn package_manager_commands_are_classified() {
    match parse("yarn global add typescript") {
        InstallCommand::PmInstall { registry, package, global, .. } => {
            assert_eq!(registry, "npm");
            assert_eq!(package, "typescript");
            assert!(!global);
        }
        _ => panic!("expected a package install"),
    }
    match parse("pnpm add -g typescript") {
        InstallCommand::PmInstall { package, global, .. } => {
            assert_eq!(package, "typescript");
            assert!(global);
        }
        _ => panic!("expected a package install"),
    }
    match parse("pip3 install --user requests==2.0") {
        InstallCommand::PmInstall { registry, package, .. } => {
            assert_eq!(registry, "PyPI");
            assert_eq!(package, "requests==2.0");
        }
        _ => panic!("expected a package install"),
    }
}

#[test]
fn chunks_are_appended_up_to_the_limit() {
    let mut bytes = vec![1u8, 2];
    assert_eq!(append_chunk(&mut bytes, &[3, 4]), Ok(()));
    assert_eq!(bytes, vec![1, 2, 3, 4]);
    let mut big = vec![0u8; 19_999_999];
    assert_eq!(append_chunk(&mut big, &[7]), Ok(()));
    assert_eq!(big.len(), 20_000_000);
    assert_eq!(append_chunk(&mut big, &[8]), Err(SourceError::TooLarge));
    assert_eq!(big.len(), 20_000_000);
}

#[test]
fn oversized_downloads_are_refused() {
    let r = finish_download(web_url("https://e.com/i.sh"), "", vec![b'a'; 20_000_001]);
    assert_eq!(r.unwrap_err(), SourceError::TooLarge);
}
