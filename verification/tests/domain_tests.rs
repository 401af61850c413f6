use safeinstall::reputation::domain::check;

#[test]
fn trusted_host_is_clean() {
    assert!(check("github.com").is_none());
    assert!(check("bun.sh").is_none());
    assert!(check("raw.githubusercontent.com").is_none());
}

#[test]
fn subdomain_of_trusted_host_is_clean() {
    assert!(check("pages.github.com").is_none());
}

#[test]
fn unknown_host_produces_finding() {
    let result = check("evil-downloads.xyz");
    assert!(result.is_some());
    assert_eq!(result.unwrap().score, 10);
}

#[test]
fn ip_address_source_is_flagged() {
    let result = check("94.23.45.67");
    assert!(result.is_some());
    assert_eq!(result.unwrap().score, 12);
}

#[test]
fn cloudfront_source_is_low_risk() {
    let result = check("d3pcsg2wjq9izr.cloudfront.net");
    assert!(result.is_some());
    assert_eq!(result.unwrap().score, 5);
}
