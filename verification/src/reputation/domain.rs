//! Domain reputation: matches installer hosts against a curated list of
//! trusted publishers.  Unknown or uncategorised hosts produce advisory
//! findings without blocking.

use vstd::prelude::*;

use crate::analyzer::{Finding, FindingView, Severity};
use crate::text::{chars_of, chars_eq, ends_with, ends_with_exec, strip_all_prefix, strip_all_prefix_exec, string_from};

verus! {

/// Hosts of trusted installer publishers.
pub open spec fn trusted_hosts() -> Seq<Seq<char>> {
    seq![
        "github.com"@,
        "raw.githubusercontent.com"@,
        "gist.githubusercontent.com"@,
        "npmjs.org"@,
        "nodejs.org"@,
        "deno.land"@,
        "bun.sh"@,
        "rust-lang.org"@,
        "crates.io"@,
        "python.org"@,
        "pypi.org"@,
        "golang.org"@,
        "go.dev"@,
        "curl.se"@,
        "brew.sh"@,
        "code.visualstudio.com"@,
        "get.docker.com"@,
        "docs.docker.com"@,
        "tailscale.com"@,
        "fly.io"@,
        "netlify.com"@,
        "vercel.com"@,
        "sh.rustup.rs"@,
        "static.rust-lang.org"@,
        "dl.google.com"@,
        "gitlab.com"@,
        "bitbucket.org"@,
        "mirrors.edge.kernel.org"@,
        "deb.debian.org"@,
        "archive.ubuntu.com"@,
        "dl.fedoraproject.org"@,
        "pkgs.alpinelinux.org"@,
    ]
}

/// Hosts of trusted installer publishers.
fn trusted_list() -> (v: Vec<&'static str>)
    ensures
        v@.map_values(|t: &'static str| t@) == trusted_hosts(),
{
    let v = vec![
        "github.com",
        "raw.githubusercontent.com",
        "gist.githubusercontent.com",
        "npmjs.org",
        "nodejs.org",
        "deno.land",
        "bun.sh",
        "rust-lang.org",
        "crates.io",
        "python.org",
        "pypi.org",
        "golang.org",
        "go.dev",
        "curl.se",
        "brew.sh",
        "code.visualstudio.com",
        "get.docker.com",
        "docs.docker.com",
        "tailscale.com",
        "fly.io",
        "netlify.com",
        "vercel.com",
        "sh.rustup.rs",
        "static.rust-lang.org",
        "dl.google.com",
        "gitlab.com",
        "bitbucket.org",
        "mirrors.edge.kernel.org",
        "deb.debian.org",
        "archive.ubuntu.com",
        "dl.fedoraproject.org",
        "pkgs.alpinelinux.org",
    ];
    assert(v@.map_values(|t: &'static str| t@) =~= trusted_hosts());
    v
}

/// `host` is the trusted host `t` or one of its subdomains.
pub open spec fn under_trusted(host: Seq<char>, t: Seq<char>) -> bool {
    host == t || (host.len() > t.len() && ends_with(host, t) && host[host.len() - t.len() - 1]
        == '.')
}

/// `host` is a trusted publisher or a subdomain of one.
pub open spec fn is_trusted(host: Seq<char>) -> bool {
    exists|i: int| 0 <= i < trusted_hosts().len() && under_trusted(host, #[trigger] trusted_hosts()[i])
}

/// Every character is an ASCII digit or a dot.
pub open spec fn looks_like_ip(host: Seq<char>) -> bool {
    forall|i: int| 0 <= i < host.len() ==> ('0' <= #[trigger] host[i] <= '9' || host[i] == '.')
}

/// A host of a public cloud storage service.
pub open spec fn is_cloud_storage(host: Seq<char>) -> bool {
    ends_with(host, ".cloudfront.net"@) || ends_with(host, ".s3.amazonaws.com"@) || ends_with(
        host,
        ".storage.googleapis.com"@,
    )
}

/// The reputation finding for a download host: none for trusted publishers
/// and their subdomains (after dropping leading `www.`), otherwise a raw-IP,
/// cloud-storage or uncommon-host finding whose evidence is the host.
pub open spec fn domain_finding(host: Seq<char>) -> Option<FindingView> {
    let t = strip_all_prefix(host, "www."@);
    if is_trusted(t) {
        None
    } else if looks_like_ip(t) {
        Some(
            FindingView {
                source: "Reputation"@,
                title: "Raw IP installation source"@,
                detail: "Installer originates from an IP address instead of a named domain"@,
                severity: Severity::Medium,
                score: 12,
                evidence: host,
            },
        )
    } else if is_cloud_storage(t) {
        Some(
            FindingView {
                source: "Reputation"@,
                title: "Cloud storage download host"@,
                detail: "Content originates from cloud storage which may have weak publisher verification"@,
                severity: Severity::Low,
                score: 5,
                evidence: host,
            },
        )
    } else {
        Some(
            FindingView {
                source: "Reputation"@,
                title: "Uncommon download host"@,
                detail: "Host is not in the trusted installer publisher database"@,
                severity: Severity::Medium,
                score: 10,
                evidence: host,
            },
        )
    }
}

fn under_trusted_exec(host: &[char], t: &[char]) -> (r: bool)
    ensures
        r == under_trusted(host@, t@),
{
    if chars_eq(host, t) {
        return true;
    }
    host.len() > t.len() && ends_with_exec(host, t) && host[host.len() - t.len() - 1] == '.'
}

fn is_trusted_exec(host: &[char]) -> (r: bool)
    ensures
        r == is_trusted(host@),
{
    let list = trusted_list();
    let mut i: usize = 0;
    while i < list.len()
        invariant
            i <= list.len(),
            list@.map_values(|t: &'static str| t@) == trusted_hosts(),
            forall|k: int| 0 <= k < i ==> !under_trusted(host@, #[trigger] trusted_hosts()[k]),
        decreases list.len() - i,
    {
        let t = chars_of(list[i]);
        assert(trusted_hosts()[i as int] == list@[i as int]@);
        if under_trusted_exec(host, t.as_slice()) {
            return true;
        }
        i = i + 1;
    }
    false
}

fn looks_like_ip_exec(host: &[char]) -> (r: bool)
    ensures
        r == looks_like_ip(host@),
{
    let mut i: usize = 0;
    while i < host.len()
        invariant
            i <= host.len(),
            forall|k: int| 0 <= k < i ==> ('0' <= #[trigger] host@[k] <= '9' || host@[k] == '.'),
        decreases host.len() - i,
    {
        let c = host[i];
        if !(('0' <= c && c <= '9') || c == '.') {
            return false;
        }
        i = i + 1;
    }
    true
}

/// Checks a download host against the trusted publisher list.
pub fn check(host: &str) -> (r: Option<Finding>)
    ensures
        match r {
            Some(f) => domain_finding(host@) == Some(f@),
            None => domain_finding(host@) is None,
        },
{
    let hc = chars_of(host);
    let t = strip_all_prefix_exec(hc.as_slice(), chars_of("www.").as_slice());
    let t = t.as_slice();
    if is_trusted_exec(t) {
        return None;
    }
    if looks_like_ip_exec(t) {
        return Some(
            Finding {
                source: "Reputation",
                title: "Raw IP installation source",
                detail: "Installer originates from an IP address instead of a named domain",
                severity: Severity::Medium,
                score: 12,
                evidence: string_from(hc.as_slice()),
            },
        );
    }
    if ends_with_exec(t, chars_of(".cloudfront.net").as_slice()) || ends_with_exec(
        t,
        chars_of(".s3.amazonaws.com").as_slice(),
    ) || ends_with_exec(t, chars_of(".storage.googleapis.com").as_slice()) {
        return Some(
            Finding {
                source: "Reputation",
                title: "Cloud storage download host",
                detail: "Content originates from cloud storage which may have weak publisher verification",
                severity: Severity::Low,
                score: 5,
                evidence: string_from(hc.as_slice()),
            },
        );
    }
    Some(
        Finding {
            source: "Reputation",
            title: "Uncommon download host",
            detail: "Host is not in the trusted installer publisher database",
            severity: Severity::Medium,
            score: 10,
            evidence: string_from(hc.as_slice()),
        },
    )
}

} // verus!
