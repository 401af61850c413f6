//! Package metadata from registries and linked GitHub repositories, the
//! summary shown for a package, and the findings it gives rise to.
//! Fetching the metadata is left to the caller.

use vstd::prelude::*;
use vstd::string::StringSliceAdditionalSpecFns;
use vstd::utf8::{decode_utf8, encode_utf8, is_char_boundary};

use crate::analyzer::{deduplicate, deduplicated, compute_energy_score, energy_score, risk_band, total_energy, Assessment, Finding, FindingView, Severity, finding_views};
use crate::source::InstallerKind;
use crate::text::{
    after, before, chars_of, decimal, digit, pad_right, push_chars, push_decimal, push_spaces,
    push_str, spaces, str_eq, string_from, strip_all_prefix, strip_all_prefix_exec,
    strip_all_suffix, strip_all_suffix_exec,
};
use crate::weburl::{parse_url, url_parse};

verus! {

/// Registry metadata of a package.
#[derive(Debug)]
pub struct PackageInfo {
    pub registry: String,
    pub package: String,
    pub version: String,
    pub description: String,
    pub maintainers: usize,
    pub downloads: String,
    pub license: String,
    pub repo_owner: Option<String>,
    pub repo_name: Option<String>,
}

/// Metadata of a GitHub repository.
#[derive(Debug)]
pub struct GitHubInfo {
    pub stars: u32,
    pub forks: u32,
    pub language: Option<String>,
    pub archived: bool,
    pub has_security_policy: bool,
    pub updated_at: String,
}

/// An OpenSSF Scorecard result; the overall score is kept in tenths of a
/// point (`68` is 6.8 out of 10).
#[derive(Debug)]
pub struct ScorecardInfo {
    pub overall_tenths: u16,
    pub checks: Vec<ScorecardCheck>,
}

/// One Scorecard check; a negative score means the check does not apply.
#[derive(Debug)]
pub struct ScorecardCheck {
    pub name: String,
    pub score: i8,
}

/// A labelled summary line: two spaces, the label padded to 14 columns, a
/// space, the value.
pub open spec fn label_line(label: Seq<char>, val: Seq<char>) -> Seq<char> {
    "  "@ + pad_right(label, 14) + " "@ + val + "\n"@
}

/// A labelled summary line.
pub fn label_val(label: &str, val: &str) -> (out: String)
    ensures
        out@ == label_line(label@, val@),
{
    let lc = chars_of(label);
    let mut out = String::new();
    push_str(&mut out, "  ");
    push_chars(&mut out, lc.as_slice());
    if lc.len() < 14 {
        push_spaces(&mut out, 14 - lc.len());
    }
    push_str(&mut out, " ");
    push_str(&mut out, val);
    push_str(&mut out, "\n");
    assert(out@ =~= label_line(label@, val@));
    out
}

/// Digits grouped in threes from the right, separated by commas.
pub open spec fn with_commas(d: Seq<char>) -> Seq<char>
    decreases d.len(),
{
    if d.len() <= 3 {
        d
    } else {
        with_commas(d.take(d.len() - 3)) + ","@ + d.skip(d.len() - 3)
    }
}

fn commas_exec(d: &[char]) -> (out: Vec<char>)
    ensures
        out@ == with_commas(d@),
    decreases d.len(),
{
    if d.len() <= 3 {
        crate::text::slice_of(d, 0, d.len())
    } else {
        let head = vstd::slice::slice_subrange(d, 0, d.len() - 3);
        assert(head@ == d@.take(d.len() - 3));
        let mut out = commas_exec(head);
        out.push(',');
        let tail = crate::text::slice_of(d, d.len() - 3, d.len());
        let ghost before_tail = out@;
        let mut k: usize = 0;
        while k < tail.len()
            invariant
                k <= tail.len(),
                out@ == before_tail + tail@.take(k as int),
            decreases tail.len() - k,
        {
            out.push(tail[k]);
            k = k + 1;
            assert(out@ =~= before_tail + tail@.take(k as int));
        }
        assert(tail@.take(tail@.len() as int) == tail@);
        assert(tail@ == d@.skip(d.len() - 3));
        proof {
            reveal_strlit(",");
        }
        assert(out@ =~= with_commas(d@));
        out
    }
}

/// A count with thousands separators (`12,345`).
pub fn num_with_commas(n: u32) -> (out: String)
    ensures
        out@ == with_commas(decimal(n as nat)),
{
    let d = crate::text::decimal_exec(n as u64);
    string_from(commas_exec(d.as_slice()).as_slice())
}

/// A score in tenths shown with one decimal (`6.8`).
pub open spec fn tenths_text(t: nat) -> Seq<char> {
    decimal(t / 10) + "."@ + seq![digit((t % 10) as int)]
}

/// Appends a score in tenths with one decimal.
pub(crate) fn push_tenths(out: &mut String, t: u16)
    ensures
        final(out)@ == old(out)@ + tenths_text(t as nat),
{
    push_decimal(out, (t / 10) as u64);
    push_str(out, ".");
    let d = (48 + (t % 10) as u8) as char;
    push_chars(out, &[d]);
    assert(final(out)@ =~= old(out)@ + tenths_text(t as nat));
}

/// Descriptions longer than 72 bytes are cut to their first 69 bytes and an ellipsis.
pub open spec fn shown_description(d: Seq<char>) -> Seq<char> {
    if encode_utf8(d).len() > 72 {
        decode_utf8(encode_utf8(d).take(69)) + "\u{2026}"@
    } else {
        d
    }
}

/// The description can be cut where it is cut.
pub open spec fn description_cuttable(d: Seq<char>) -> bool {
    encode_utf8(d).len() > 72 ==> is_char_boundary(encode_utf8(d), 69)
}

/// Whether a description can be cut where it is cut, as [`format_summary`]
/// requires.
pub fn description_can_be_cut(d: &str) -> (ok: bool)
    ensures
        ok == description_cuttable(d@),
{
    if d.as_bytes().len() > 72 {
        d.is_char_boundary(69)
    } else {
        true
    }
}

/// The rating of a Scorecard score in tenths.
pub open spec fn scorecard_rating(t: int) -> Seq<char> {
    if t >= 75 {
        "Good"@
    } else if t >= 50 {
        "Moderate"@
    } else {
        "Low"@
    }
}

/// The line shown for one Scorecard check.
pub open spec fn check_line(c: ScorecardCheck) -> Seq<char> {
    let icon = if c.score < 0 {
        "-"@
    } else if c.score >= 7 {
        "v"@
    } else if c.score >= 4 {
        "!"@
    } else {
        "x"@
    };
    let label = if c.score < 0 {
        "N/A"@
    } else {
        decimal(c.score as nat) + "/10"@
    };
    "    "@ + icon + " "@ + c.name@ + " ("@ + label + ")\n"@
}

/// The lines of all checks.
pub open spec fn check_lines(cs: Seq<ScorecardCheck>) -> Seq<char>
    decreases cs.len(),
{
    if cs.len() == 0 {
        Seq::empty()
    } else {
        check_lines(cs.drop_last()) + check_line(cs.last())
    }
}

/// The GitHub part of a summary.
pub open spec fn github_lines(gh: GitHubInfo) -> Seq<char> {
    label_line("Stars:"@, with_commas(decimal(gh.stars as nat))) + (if gh.forks > 0 {
        label_line("Forks:"@, with_commas(decimal(gh.forks as nat)))
    } else {
        Seq::empty()
    }) + (match gh.language {
        Some(l) => label_line("Language:"@, l@),
        None => Seq::empty(),
    }) + label_line("Updated:"@, before(gh.updated_at@, 'T')) + label_line(
        "Security:"@,
        if gh.has_security_policy {
            "present"@
        } else {
            "absent"@
        },
    ) + label_line(
        "Archived:"@,
        if gh.archived {
            "yes"@
        } else {
            "no"@
        },
    )
}

/// The Scorecard part of a summary.
pub open spec fn scorecard_lines(sc: ScorecardInfo) -> Seq<char> {
    "  Scorecard:     "@ + tenths_text(sc.overall_tenths as nat) + "/10 ("@ + scorecard_rating(
        sc.overall_tenths as int,
    ) + ")\n"@ + check_lines(sc.checks@)
}

/// The summary shown for a package.
pub open spec fn summary_text(pkg: PackageInfo, gh: Option<GitHubInfo>, sc: Option<ScorecardInfo>) -> Seq<char> {
    summary_head(pkg) + license_part(pkg) + description_part(pkg) + counts_part(pkg) + repo_part(
        pkg,
        gh,
        sc,
    )
}

/// The registry and package lines of a summary.
pub open spec fn summary_head(pkg: PackageInfo) -> Seq<char> {
    "  Registry:      "@ + pkg.registry@ + "\n  Package:       "@ + pkg.package@ + "  (v"@
        + pkg.version@ + ")\n"@
}

/// The licence line of a summary, shown unless the licence is unknown.
pub open spec fn license_part(pkg: PackageInfo) -> Seq<char> {
    if pkg.license@ != "unknown"@ {
        label_line("License:"@, pkg.license@)
    } else {
        Seq::empty()
    }
}

/// The description line of a summary, shown when there is a description.
pub open spec fn description_part(pkg: PackageInfo) -> Seq<char> {
    if pkg.description@.len() > 0 {
        label_line("Description:"@, shown_description(pkg.description@))
    } else {
        Seq::empty()
    }
}

/// The maintainer and download lines of a summary.
pub open spec fn counts_part(pkg: PackageInfo) -> Seq<char> {
    label_line("Maintainers:"@, decimal(pkg.maintainers as nat)) + label_line(
        "Downloads:"@,
        pkg.downloads@,
    )
}

/// The repository section of a summary, shown when owner and name are known.
pub open spec fn repo_part(pkg: PackageInfo, gh: Option<GitHubInfo>, sc: Option<ScorecardInfo>) -> Seq<char> {
    match (pkg.repo_owner, pkg.repo_name) {
        (Some(o), Some(r)) => "\n  Repository:    github.com/"@ + o@ + "/"@ + r@ + "\n"@ + (match gh {
            Some(g) => github_lines(g),
            None => Seq::empty(),
        }) + (match sc {
            Some(s) => scorecard_lines(s),
            None => Seq::empty(),
        }),
        _ => Seq::empty(),
    }
}

fn check_text(c: &ScorecardCheck) -> (out: String)
    ensures
        out@ == check_line(*c),
{
    let mut out = String::new();
    push_str(&mut out, "    ");
    if c.score < 0 {
        push_str(&mut out, "-");
    } else if c.score >= 7 {
        push_str(&mut out, "v");
    } else if c.score >= 4 {
        push_str(&mut out, "!");
    } else {
        push_str(&mut out, "x");
    }
    push_str(&mut out, " ");
    push_str(&mut out, c.name.as_str());
    push_str(&mut out, " (");
    if c.score < 0 {
        push_str(&mut out, "N/A");
    } else {
        push_decimal(&mut out, c.score as u64);
        push_str(&mut out, "/10");
    }
    push_str(&mut out, ")\n");
    assert(out@ =~= check_line(*c));
    out
}

fn github_text(gh: &GitHubInfo) -> (out: String)
    ensures
        out@ == github_lines(*gh),
{
    let mut out = String::new();
    let stars = num_with_commas(gh.stars);
    push_str(&mut out, label_val("Stars:", stars.as_str()).as_str());
    if gh.forks > 0 {
        let forks = num_with_commas(gh.forks);
        push_str(&mut out, label_val("Forks:", forks.as_str()).as_str());
    }
    match &gh.language {
        Some(l) => push_str(&mut out, label_val("Language:", l.as_str()).as_str()),
        None => {},
    }
    let uc = chars_of(gh.updated_at.as_str());
    let day = string_from(crate::reputation::osv::before_chars(uc.as_slice(), 'T').as_slice());
    push_str(&mut out, label_val("Updated:", day.as_str()).as_str());
    push_str(
        &mut out,
        label_val(
            "Security:",
            if gh.has_security_policy {
                "present"
            } else {
                "absent"
            },
        ).as_str(),
    );
    push_str(
        &mut out,
        label_val(
            "Archived:",
            if gh.archived {
                "yes"
            } else {
                "no"
            },
        ).as_str(),
    );
    assert(out@ =~= github_lines(*gh));
    out
}

fn scorecard_text(sc: &ScorecardInfo) -> (out: String)
    ensures
        out@ == scorecard_lines(*sc),
{
    let mut out = String::new();
    push_str(&mut out, "  Scorecard:     ");
    push_tenths(&mut out, sc.overall_tenths);
    push_str(&mut out, "/10 (");
    if sc.overall_tenths >= 75 {
        push_str(&mut out, "Good");
    } else if sc.overall_tenths >= 50 {
        push_str(&mut out, "Moderate");
    } else {
        push_str(&mut out, "Low");
    }
    push_str(&mut out, ")\n");
    let ghost head = out@;
    let mut i: usize = 0;
    while i < sc.checks.len()
        invariant
            i <= sc.checks.len(),
            out@ == head + check_lines(sc.checks@.take(i as int)),
        decreases sc.checks.len() - i,
    {
        let line = check_text(&sc.checks[i]);
        push_str(&mut out, line.as_str());
        assert(sc.checks@.take(i + 1).drop_last() == sc.checks@.take(i as int));
        i = i + 1;
    }
    assert(sc.checks@.take(sc.checks@.len() as int) == sc.checks@);
    assert(out@ =~= scorecard_lines(*sc));
    out
}

fn license_text(pkg: &PackageInfo) -> (out: String)
    ensures
        out@ == license_part(*pkg),
{
    if !str_eq(pkg.license.as_str(), "unknown") {
        label_val("License:", pkg.license.as_str())
    } else {
        String::new()
    }
}

fn description_text(pkg: &PackageInfo) -> (out: String)
    requires
        description_cuttable(pkg.description@),
    ensures
        out@ == description_part(*pkg),
{
    let d = pkg.description.as_str();
    if d.is_empty() {
        return String::new();
    }
    if d.as_bytes().len() > 72 {
        let (cut, _) = d.split_at(69);
        proof {
            vstd::utf8::encode_utf8_decode_utf8(cut@);
        }
        let mut shown = String::new();
        push_str(&mut shown, cut);
        push_str(&mut shown, "\u{2026}");
        assert(shown@ == shown_description(pkg.description@));
        label_val("Description:", shown.as_str())
    } else {
        label_val("Description:", d)
    }
}

fn repo_text(pkg: &PackageInfo, gh: Option<&GitHubInfo>, sc: Option<&ScorecardInfo>) -> (out: String)
    ensures
        out@ == repo_part(
            *pkg,
            match gh {
                Some(g) => Some(*g),
                None => None,
            },
            match sc {
                Some(s) => Some(*s),
                None => None,
            },
        ),
{
    let mut repo = String::new();
    match (&pkg.repo_owner, &pkg.repo_name) {
        (Some(owner), Some(name)) => {
            push_str(&mut repo, "\n  Repository:    github.com/");
            push_str(&mut repo, owner.as_str());
            push_str(&mut repo, "/");
            push_str(&mut repo, name.as_str());
            push_str(&mut repo, "\n");
            let ghs = match gh {
                Some(x) => github_text(x),
                None => String::new(),
            };
            let scs = match sc {
                Some(x) => scorecard_text(x),
                None => String::new(),
            };
            push_str(&mut repo, ghs.as_str());
            push_str(&mut repo, scs.as_str());
        },
        _ => {},
    }
    repo
}

/// The summary shown for a package, its GitHub repository and its Scorecard.
/// A description longer than 72 bytes must be cut at a character boundary.
pub fn format_summary(pkg: &PackageInfo, gh: Option<&GitHubInfo>, sc: Option<&ScorecardInfo>) -> (out: String)
    requires
        description_cuttable(pkg.description@),
    ensures
        out@ == summary_text(
            *pkg,
            match gh {
                Some(g) => Some(*g),
                None => None,
            },
            match sc {
                Some(s) => Some(*s),
                None => None,
            },
        ),
{
    let mut out = summary_head_text(pkg);
    let license = license_text(pkg);
    let desc = description_text(pkg);
    let counts = counts_text(pkg);
    let repo = repo_text(pkg, gh, sc);
    push_str(&mut out, license.as_str());
    push_str(&mut out, desc.as_str());
    push_str(&mut out, counts.as_str());
    push_str(&mut out, repo.as_str());
    out
}

fn summary_head_text(pkg: &PackageInfo) -> (out: String)
    ensures
        out@ == summary_head(*pkg),
{
    let mut out = String::new();
    push_str(&mut out, "  Registry:      ");
    push_str(&mut out, pkg.registry.as_str());
    push_str(&mut out, "\n  Package:       ");
    push_str(&mut out, pkg.package.as_str());
    push_str(&mut out, "  (v");
    push_str(&mut out, pkg.version.as_str());
    push_str(&mut out, ")\n");
    assert(out@ =~= summary_head(*pkg));
    out
}

fn counts_text(pkg: &PackageInfo) -> (out: String)
    ensures
        out@ == counts_part(*pkg),
{
    let mut maint = String::new();
    push_decimal(&mut maint, pkg.maintainers as u64);
    let mut out = label_val("Maintainers:", maint.as_str());
    let dl = label_val("Downloads:", pkg.downloads.as_str());
    push_str(&mut out, dl.as_str());
    out
}

// ---------------------------------------------------------------------------
// Repository links and package findings
// ---------------------------------------------------------------------------

/// The GitHub owner and repository named by a package's repository URL:
/// `git+` prefixes and `.git` suffixes are dropped, the URL must be on
/// `github.com`, and owner and name are the first two path segments (the
/// name without `.git`).
pub open spec fn github_repo(repo_url: Seq<char>) -> (Option<Seq<char>>, Option<Seq<char>>) {
    let cleaned = strip_all_suffix(strip_all_prefix(repo_url, "git+"@), ".git"@);
    match url_parse(cleaned) {
        Some(u) => if u.2 == Some("github.com"@) {
            let p = strip_all_prefix(u.3, "/"@);
            (
                Some(before(p, '/')),
                match after(p, '/') {
                    Some(rest) => Some(strip_all_suffix(before(rest, '/'), ".git"@)),
                    None => None,
                },
            )
        } else {
            (None, None)
        },
        None => (None, None),
    }
}

/// The view of an optional string.
pub open spec fn opt_view(s: Option<String>) -> Option<Seq<char>> {
    match s {
        Some(x) => Some(x@),
        None => None,
    }
}

/// Finds the GitHub owner and repository a package's repository URL points at.
pub fn github_repo_from_url(repo_url: &str) -> (r: (Option<String>, Option<String>))
    ensures
        (opt_view(r.0), opt_view(r.1)) == github_repo(repo_url@),
{
    let rc = chars_of(repo_url);
    let a = strip_all_prefix_exec(rc.as_slice(), chars_of("git+").as_slice());
    let b = strip_all_suffix_exec(a.as_slice(), chars_of(".git").as_slice());
    let cleaned = string_from(b.as_slice());
    match parse_url(cleaned.as_str()) {
        Some(u) => {
            let on_github = match &u.host {
                Some(h) => str_eq(h.as_str(), "github.com"),
                None => false,
            };
            if !on_github {
                return (None, None);
            }
            let pc = chars_of(u.path.as_str());
            let p = strip_all_prefix_exec(pc.as_slice(), chars_of("/").as_slice());
            let owner = crate::reputation::osv::before_chars(p.as_slice(), '/');
            let name = match crate::reputation::osv::after_chars(p.as_slice(), '/') {
                Some(rest) => {
                    let n = crate::reputation::osv::before_chars(rest.as_slice(), '/');
                    let n = strip_all_suffix_exec(n.as_slice(), chars_of(".git").as_slice());
                    Some(string_from(n.as_slice()))
                },
                None => None,
            };
            (Some(string_from(owner.as_slice())), name)
        },
        None => (None, None),
    }
}

/// The findings about a package's linked GitHub repository: archived, and
/// without a security policy.
pub open spec fn repository_findings(owner: Option<Seq<char>>, name: Option<Seq<char>>, gh: GitHubInfo) -> Seq<FindingView> {
    let show = |x: Option<Seq<char>>| match x {
        Some(v) => v,
        None => "?"@,
    };
    (if gh.archived {
        seq![
            FindingView {
                source: "GitHub"@,
                title: "Archived repository"@,
                detail: "The linked GitHub repository has been archived and is no longer maintained"@,
                severity: Severity::Medium,
                score: 10,
                evidence: "github.com/"@ + show(owner) + "/"@ + show(name),
            },
        ]
    } else {
        Seq::empty()
    }) + (if !gh.has_security_policy {
        seq![
            FindingView {
                source: "GitHub"@,
                title: "No security policy"@,
                detail: "Repository lacks a SECURITY.md for coordinated disclosure and patch timelines"@,
                severity: Severity::Low,
                score: 4,
                evidence: "SECURITY.md not found"@,
            },
        ]
    } else {
        Seq::empty()
    })
}

/// Findings about a package's GitHub repository; `pkg` supplies the owner and name shown.
pub fn github_findings(pkg: Option<&PackageInfo>, gh: &GitHubInfo) -> (r: Vec<Finding>)
    ensures
        finding_views(r@) == repository_findings(
            match pkg {
                Some(p) => opt_view(p.repo_owner),
                None => None,
            },
            match pkg {
                Some(p) => opt_view(p.repo_name),
                None => None,
            },
            *gh,
        ),
{
    let mut r: Vec<Finding> = Vec::new();
    if gh.archived {
        let mut ev = String::new();
        push_str(&mut ev, "github.com/");
        let owner = match pkg {
            Some(p) => &p.repo_owner,
            None => &None,
        };
        match owner {
            Some(o) => push_str(&mut ev, o.as_str()),
            None => push_str(&mut ev, "?"),
        }
        push_str(&mut ev, "/");
        let name = match pkg {
            Some(p) => &p.repo_name,
            None => &None,
        };
        match name {
            Some(n) => push_str(&mut ev, n.as_str()),
            None => push_str(&mut ev, "?"),
        }
        r.push(
            Finding {
                source: "GitHub",
                title: "Archived repository",
                detail: "The linked GitHub repository has been archived and is no longer maintained",
                severity: Severity::Medium,
                score: 10,
                evidence: ev,
            },
        );
    }
    if !gh.has_security_policy {
        r.push(
            Finding {
                source: "GitHub",
                title: "No security policy",
                detail: "Repository lacks a SECURITY.md for coordinated disclosure and patch timelines",
                severity: Severity::Low,
                score: 4,
                evidence: String::from_str("SECURITY.md not found"),
            },
        );
    }
    proof {
        let o = match pkg {
            Some(p) => opt_view(p.repo_owner),
            None => None,
        };
        let n = match pkg {
            Some(p) => opt_view(p.repo_name),
            None => None,
        };
        assert(finding_views(r@) =~= repository_findings(o, n, *gh));
    }
    r
}

/// The finding for a Scorecard below 7.5.
pub open spec fn scorecard_finding_spec(sc: ScorecardInfo) -> Option<FindingView> {
    if sc.overall_tenths < 75 {
        Some(
            FindingView {
                source: "Scorecard"@,
                title: "Moderate OpenSSF Scorecard"@,
                detail: "Security practices score below recommended thresholds for trusted software"@,
                severity: Severity::Low,
                score: 5,
                evidence: tenths_text(sc.overall_tenths as nat) + "/10 from "@ + decimal(
                    sc.checks@.len(),
                ) + " checks"@,
            },
        )
    } else {
        None
    }
}

/// A finding for a Scorecard result below the recommended 7.5.
pub fn scorecard_finding(sc: &ScorecardInfo) -> (r: Option<Finding>)
    ensures
        match r {
            Some(f) => scorecard_finding_spec(*sc) == Some(f@),
            None => scorecard_finding_spec(*sc) is None,
        },
{
    if sc.overall_tenths >= 75 {
        return None;
    }
    let mut ev = String::new();
    push_tenths(&mut ev, sc.overall_tenths);
    push_str(&mut ev, "/10 from ");
    push_decimal(&mut ev, sc.checks.len() as u64);
    push_str(&mut ev, " checks");
    let f = Finding {
        source: "Scorecard",
        title: "Moderate OpenSSF Scorecard",
        detail: "Security practices score below recommended thresholds for trusted software",
        severity: Severity::Low,
        score: 5,
        evidence: ev,
    };
    assert(f@ =~= scorecard_finding_spec(*sc)->0);
    Some(f)
}

/// The owner and name of the repository a package links to, as known.
pub open spec fn linked_owner(pkg: Option<PackageInfo>) -> Option<Seq<char>> {
    match pkg {
        Some(p) => opt_view(p.repo_owner),
        None => None,
    }
}

/// The name of the repository a package links to, as known.
pub open spec fn linked_name(pkg: Option<PackageInfo>) -> Option<Seq<char>> {
    match pkg {
        Some(p) => opt_view(p.repo_name),
        None => None,
    }
}

/// The findings of a package inspection, in the order they are reported:
/// the repository findings (when the repository was looked up), the OSV
/// findings for the package, the GitHub advisory, the OSV findings for the
/// linked repository, and the Scorecard finding (when a Scorecard was found).
pub open spec fn package_findings_spec(
    pkg: Option<PackageInfo>,
    gh: Option<GitHubInfo>,
    osv_package: Seq<FindingView>,
    advisory: Option<FindingView>,
    osv_repository: Seq<FindingView>,
    sc: Option<ScorecardInfo>,
) -> Seq<FindingView> {
    (match gh {
        Some(g) => repository_findings(linked_owner(pkg), linked_name(pkg), g),
        None => Seq::empty(),
    }) + osv_package + (match advisory {
        Some(a) => seq![a],
        None => Seq::empty(),
    }) + osv_repository + (match sc {
        Some(s) => match scorecard_finding_spec(s) {
            Some(f) => seq![f],
            None => Seq::empty(),
        },
        None => Seq::empty(),
    })
}

/// Gathers the findings of a package inspection from the results of its
/// lookups, in the order they are reported.
pub fn package_findings(
    pkg: Option<&PackageInfo>,
    gh: Option<&GitHubInfo>,
    osv_package: Vec<Finding>,
    advisory: Option<Finding>,
    osv_repository: Vec<Finding>,
    sc: Option<&ScorecardInfo>,
) -> (r: Vec<Finding>)
    ensures
        finding_views(r@) == package_findings_spec(
            match pkg {
                Some(p) => Some(*p),
                None => None,
            },
            match gh {
                Some(g) => Some(*g),
                None => None,
            },
            finding_views(osv_package@),
            match advisory {
                Some(a) => Some(a@),
                None => None,
            },
            finding_views(osv_repository@),
            match sc {
                Some(s) => Some(*s),
                None => None,
            },
        ),
{
    let ghost p = match pkg {
        Some(p) => Some(*p),
        None => None,
    };
    let mut r: Vec<Finding> = match gh {
        Some(g) => github_findings(pkg, g),
        None => Vec::new(),
    };
    let ghost part1 = r@;
    let mut osv_package = osv_package;
    let ghost osv1 = osv_package@;
    r.append(&mut osv_package);
    let ghost part2 = r@;
    let ghost adv = advisory;
    if let Some(a) = advisory {
        r.push(a);
    }
    let ghost part3 = r@;
    let mut osv_repository = osv_repository;
    let ghost osv2 = osv_repository@;
    r.append(&mut osv_repository);
    let ghost part4 = r@;
    if let Some(s) = sc {
        if let Some(f) = scorecard_finding(s) {
            r.push(f);
        }
    }
    proof {
        assert(part2 == part1 + osv1);
        assert(part4 == part3 + osv2);
        assert(finding_views(part2) =~= finding_views(part1) + finding_views(osv1));
        assert(finding_views(part4) =~= finding_views(part3) + finding_views(osv2));
        match adv {
            Some(a) => assert(finding_views(part3) =~= finding_views(part2) + seq![a@]),
            None => assert(part3 == part2),
        }
        let tail = match sc {
            Some(s) => match scorecard_finding_spec(*s) {
                Some(f) => seq![f],
                None => Seq::<FindingView>::empty(),
            },
            None => Seq::<FindingView>::empty(),
        };
        assert(finding_views(r@) =~= finding_views(part4) + tail);
        match gh {
            Some(g) => assert(finding_views(part1) == repository_findings(linked_owner(p), linked_name(p), *g)),
            None => assert(finding_views(part1) =~= Seq::<FindingView>::empty()),
        }
    }
    r
}

/// The OSV ecosystem a package of a registry is looked up in: `PyPI` and
/// `crates.io` packages in their own, every other package in `npm`.
pub open spec fn osv_ecosystem_of(registry: Seq<char>) -> Seq<char> {
    if registry == "PyPI"@ {
        "PyPI"@
    } else if registry == "crates.io"@ {
        "crates.io"@
    } else {
        "npm"@
    }
}

/// The OSV ecosystem a package of a registry is looked up in.
pub fn osv_ecosystem(registry: &str) -> (e: &'static str)
    ensures
        e@ == osv_ecosystem_of(registry@),
{
    if str_eq(registry, "PyPI") {
        "PyPI"
    } else if str_eq(registry, "crates.io") {
        "crates.io"
    } else {
        "npm"
    }
}

/// The GitHub Advisory Database ecosystem a package of a registry is looked
/// up in: `pip` for PyPI, `rust` for crates.io, `npm` for every other package.
pub open spec fn advisory_ecosystem_of(registry: Seq<char>) -> Seq<char> {
    if registry == "PyPI"@ {
        "pip"@
    } else if registry == "crates.io"@ {
        "rust"@
    } else {
        "npm"@
    }
}

/// The GitHub Advisory Database ecosystem a package of a registry is looked up in.
pub fn advisory_ecosystem(registry: &str) -> (e: &'static str)
    ensures
        e@ == advisory_ecosystem_of(registry@),
{
    if str_eq(registry, "PyPI") {
        "pip"
    } else if str_eq(registry, "crates.io") {
        "rust"
    } else {
        "npm"
    }
}

/// The assessment of a package-manager install: the findings de-duplicated
/// and scored, with the package summary attached.
pub fn package_assessment(registry: &str, package: &str, findings: Vec<Finding>, summary: Option<String>) -> (a: Assessment)
    ensures
        a.findings@ == deduplicated(findings@),
        a.score == energy_score(total_energy(a.findings@)),
        a.risk == risk_band(a.score as int),
        a.source@ == registry@ + " install "@ + package@,
        a.host@ == "registry."@ + registry@ + "s.org"@,
        a.installer_type == InstallerKind::Text,
        a.sha256@ == "package manager analysis (no download)"@,
        a.package_summary == summary,
{
    let mut findings = findings;
    deduplicate(&mut findings);
    let (score, risk) = compute_energy_score(findings.as_slice());
    let mut source = String::new();
    push_str(&mut source, registry);
    push_str(&mut source, " install ");
    push_str(&mut source, package);
    let mut host = String::new();
    push_str(&mut host, "registry.");
    push_str(&mut host, registry);
    push_str(&mut host, "s.org");
    Assessment {
        source,
        host,
        installer_type: InstallerKind::Text,
        sha256: String::from_str("package manager analysis (no download)"),
        score,
        risk,
        findings,
        package_summary: summary,
    }
}

} // verus!
