//! Classification of user input: a direct URL, a `curl | sh` style pipe, a
//! package-manager install, or a generic command.  Package-manager patterns
//! are tried before falling back to generic execution.

use vstd::prelude::*;

use crate::pattern::{capture_groups, find_first, opt_views, regex_groups, regex_search};
use crate::text::{
    chars_of, contains, contains_exec, first_arg, first_arg_exec, string_from, trim, trim_chars,
};
use crate::weburl::{parse_url, url_parse, UrlView, WebUrl};

verus! {

/// What the user asked to install.
#[derive(Debug)]
pub enum InstallCommand {
    Url { url: WebUrl },
    CurlPipe { url: WebUrl, raw: String },
    PmInstall { registry: &'static str, package: String, global: bool, raw: String },
    Generic { raw: String },
}

/// The abstract content of an [`InstallCommand`].
pub enum CommandView {
    Url { url: UrlView },
    CurlPipe { url: UrlView, raw: Seq<char> },
    PmInstall { registry: Seq<char>, package: Seq<char>, global: bool, raw: Seq<char> },
    Generic { raw: Seq<char> },
}

impl View for InstallCommand {
    type V = CommandView;

    open spec fn view(&self) -> CommandView {
        match self {
            InstallCommand::Url { url } => CommandView::Url { url: url.view() },
            InstallCommand::CurlPipe { url, raw } => CommandView::CurlPipe {
                url: url.view(),
                raw: raw@,
            },
            InstallCommand::PmInstall { registry, package, global, raw } => CommandView::PmInstall {
                registry: registry@,
                package: package@,
                global: *global,
                raw: raw@,
            },
            InstallCommand::Generic { raw } => CommandView::Generic { raw: raw@ },
        }
    }
}

/// A URL somewhere in a command line.
pub const EMBEDDED_URL_PATTERN: &'static str = r"https?://[^\s'|;)]+";

/// `npm`/`pnpm`/`yarn` install commands; group 1 is a global flag, group 2 the arguments.
pub const NPM_PATTERN: &'static str = r"(?i)^(?:npm|pnpm|yarn)\s+(?:global\s+)?(?:add|install|i)\s+(-g\s+|--global\s+)?(.+)$";

/// `pip`/`pip3` install commands; group 2 is the arguments.
pub const PIP_PATTERN: &'static str = r"(?i)^pip3?\s+install\s+(-g\s+|--user\s+)?(.+)$";

/// `cargo install` commands; group 1 is the arguments.
pub const CARGO_PATTERN: &'static str = r"(?i)^cargo\s+install\s+(.+)$";

pub open spec fn is_web_scheme(scheme: Seq<char>) -> bool {
    scheme == "http"@ || scheme == "https"@
}

/// The whole input is an absolute HTTP(S) URL.
pub open spec fn direct_web_url(t: Seq<char>) -> Option<UrlView> {
    match url_parse(t) {
        Some(u) => if is_web_scheme(u.1) {
            Some(u)
        } else {
            None
        },
        None => None,
    }
}

/// The input holds a URL followed by a pipe into a shell.
pub open spec fn piped_url(t: Seq<char>) -> Option<UrlView> {
    match regex_search(EMBEDDED_URL_PATTERN@, t) {
        Some(Some((_, m, after))) => if contains(after, "|"@) && (contains(after, "bash"@)
            || contains(after, "sh"@) || contains(after, "iex"@)) {
            url_parse(m)
        } else {
            None
        },
        _ => None,
    }
}

/// Capture group `i`, if there is one and it took part in the match.
pub open spec fn group(gs: Seq<Option<Seq<char>>>, i: int) -> Option<Seq<char>> {
    if 0 <= i < gs.len() {
        gs[i]
    } else {
        None
    }
}

/// The package argument found in capture group `arg` of `pattern` on `t`.
pub open spec fn package_arg(pattern: Seq<char>, t: Seq<char>, arg: int) -> Option<Seq<char>> {
    match regex_groups(pattern, t) {
        Some(Some(gs)) => match group(gs, arg) {
            Some(rest) => first_arg(rest),
            None => None,
        },
        _ => None,
    }
}

/// An npm install is global when its flag group holds more than whitespace,
/// or when the command contains ` -g `.
pub open spec fn npm_global(t: Seq<char>) -> bool {
    let flag = match regex_groups(NPM_PATTERN@, t) {
        Some(Some(gs)) => match group(gs, 1) {
            Some(g) => trim(g).len() > 0,
            None => false,
        },
        _ => false,
    };
    flag || contains(t, " -g "@)
}

/// How a (raw) input is classified.
pub open spec fn classify(input: Seq<char>) -> CommandView {
    let t = trim(input);
    if direct_web_url(t) is Some {
        CommandView::Url { url: direct_web_url(t)->0 }
    } else if piped_url(t) is Some {
        CommandView::CurlPipe { url: piped_url(t)->0, raw: t }
    } else if package_arg(NPM_PATTERN@, t, 2) is Some {
        CommandView::PmInstall {
            registry: "npm"@,
            package: package_arg(NPM_PATTERN@, t, 2)->0,
            global: npm_global(t),
            raw: t,
        }
    } else if package_arg(PIP_PATTERN@, t, 2) is Some {
        CommandView::PmInstall {
            registry: "PyPI"@,
            package: package_arg(PIP_PATTERN@, t, 2)->0,
            global: false,
            raw: t,
        }
    } else if package_arg(CARGO_PATTERN@, t, 1) is Some {
        CommandView::PmInstall {
            registry: "crates.io"@,
            package: package_arg(CARGO_PATTERN@, t, 1)->0,
            global: true,
            raw: t,
        }
    } else {
        CommandView::Generic { raw: t }
    }
}

/// Every npm, pnpm or yarn install with a non-flag package argument is a
/// package install from the npm registry of that package, global or not,
/// unless the trimmed input is itself a web URL or pipes a URL into a shell.
pub proof fn npm_installs_are_recognised_global_or_not(input: Seq<char>)
    ensures
        ({
            let t = trim(input);
            &&& !(url_parse(t) matches Some(u) && (u.1 == "http"@ || u.1 == "https"@))
            &&& piped_url(t) is None
            &&& package_arg(NPM_PATTERN@, t, 2) is Some
        }) ==> (classify(input) matches CommandView::PmInstall { registry, package, global, raw } && registry
            == "npm"@ && package == package_arg(NPM_PATTERN@, trim(input), 2)->0 && raw == trim(input)),
{
}

/// A whole-input web URL is always a direct URL install; a pip install that
/// is not an npm install is a non-global PyPI install, and a cargo install
/// that is neither is a global crates.io install.
pub proof fn other_installs_are_recognised(input: Seq<char>)
    ensures
        ({
            let t = trim(input);
            url_parse(t) matches Some(u) && (u.1 == "http"@ || u.1 == "https"@)
        }) ==> classify(input) == (CommandView::Url { url: url_parse(trim(input))->0 }),
        ({
            let t = trim(input);
            &&& !(url_parse(t) matches Some(u) && (u.1 == "http"@ || u.1 == "https"@))
            &&& piped_url(t) is None
            &&& package_arg(NPM_PATTERN@, t, 2) is None
            &&& package_arg(PIP_PATTERN@, t, 2) is Some
        }) ==> classify(input) == (CommandView::PmInstall {
            registry: "PyPI"@,
            package: package_arg(PIP_PATTERN@, trim(input), 2)->0,
            global: false,
            raw: trim(input),
        }),
        ({
            let t = trim(input);
            &&& !(url_parse(t) matches Some(u) && (u.1 == "http"@ || u.1 == "https"@))
            &&& piped_url(t) is None
            &&& package_arg(NPM_PATTERN@, t, 2) is None
            &&& package_arg(PIP_PATTERN@, t, 2) is None
            &&& package_arg(CARGO_PATTERN@, t, 1) is Some
        }) ==> classify(input) == (CommandView::PmInstall {
            registry: "crates.io"@,
            package: package_arg(CARGO_PATTERN@, trim(input), 1)->0,
            global: true,
            raw: trim(input),
        }),
{
}

fn group_exec(gs: &Vec<Option<String>>, i: usize) -> (r: Option<Vec<char>>)
    ensures
        match r {
            Some(g) => group(opt_views(gs@), i as int) == Some(g@),
            None => group(opt_views(gs@), i as int) is None,
        },
{
    if i < gs.len() {
        match &gs[i] {
            Some(g) => Some(chars_of(g.as_str())),
            None => None,
        }
    } else {
        None
    }
}

/// The package argument of an install command matched by `pattern`.
fn package_arg_exec(pattern: &str, t: &str, arg: usize) -> (r: Option<Vec<char>>)
    ensures
        match r {
            Some(p) => package_arg(pattern@, t@, arg as int) == Some(p@),
            None => package_arg(pattern@, t@, arg as int) is None,
        },
{
    match capture_groups(pattern, t) {
        Some(Some(gs)) => match group_exec(&gs, arg) {
            Some(rest) => first_arg_exec(rest.as_slice()),
            None => None,
        },
        _ => None,
    }
}

fn npm_global_exec(t: &str, tc: &[char]) -> (g: bool)
    requires
        tc@ == t@,
    ensures
        g == npm_global(t@),
{
    let flag = match capture_groups(NPM_PATTERN, t) {
        Some(Some(gs)) => match group_exec(&gs, 1) {
            Some(g) => trim_chars(g.as_slice()).len() > 0,
            None => false,
        },
        _ => false,
    };
    let dash_g = chars_of(" -g ");
    flag || contains_exec(tc, dash_g.as_slice())
}

fn direct_web_url_exec(t: &str) -> (r: Option<WebUrl>)
    ensures
        match r {
            Some(u) => direct_web_url(t@) == Some(u.view()),
            None => direct_web_url(t@) is None,
        },
{
    match parse_url(t) {
        Some(u) => {
            if crate::text::str_eq(u.scheme.as_str(), "http") || crate::text::str_eq(
                u.scheme.as_str(),
                "https",
            ) {
                Some(u)
            } else {
                None
            }
        },
        None => None,
    }
}

fn piped_url_exec(t: &str) -> (r: Option<WebUrl>)
    ensures
        match r {
            Some(u) => piped_url(t@) == Some(u.view()),
            None => piped_url(t@) is None,
        },
{
    match find_first(EMBEDDED_URL_PATTERN, t) {
        Some(Some((_, m, after))) => {
            let a = chars_of(after.as_str());
            let pipe = chars_of("|");
            let bash = chars_of("bash");
            let sh = chars_of("sh");
            let iex = chars_of("iex");
            if contains_exec(a.as_slice(), pipe.as_slice()) && (contains_exec(
                a.as_slice(),
                bash.as_slice(),
            ) || contains_exec(a.as_slice(), sh.as_slice()) || contains_exec(
                a.as_slice(),
                iex.as_slice(),
            )) {
                parse_url(m.as_str())
            } else {
                None
            }
        },
        _ => None,
    }
}

/// Classifies user input into an installer command.
pub fn parse(input: &str) -> (cmd: InstallCommand)
    ensures
        cmd@ == classify(input@),
{
    let ic = chars_of(input);
    let tc = trim_chars(ic.as_slice());
    let trimmed = string_from(tc.as_slice());
    let t = trimmed.as_str();
    if let Some(url) = direct_web_url_exec(t) {
        return InstallCommand::Url { url };
    }
    if let Some(url) = piped_url_exec(t) {
        return InstallCommand::CurlPipe { url, raw: string_from(tc.as_slice()) };
    }
    if let Some(pkg) = package_arg_exec(NPM_PATTERN, t, 2) {
        let global = npm_global_exec(t, tc.as_slice());
        return InstallCommand::PmInstall {
            registry: "npm",
            package: string_from(pkg.as_slice()),
            global,
            raw: string_from(tc.as_slice()),
        };
    }
    if let Some(pkg) = package_arg_exec(PIP_PATTERN, t, 2) {
        return InstallCommand::PmInstall {
            registry: "PyPI",
            package: string_from(pkg.as_slice()),
            global: false,
            raw: string_from(tc.as_slice()),
        };
    }
    if let Some(pkg) = package_arg_exec(CARGO_PATTERN, t, 1) {
        return InstallCommand::PmInstall {
            registry: "crates.io",
            package: string_from(pkg.as_slice()),
            global: true,
            raw: string_from(tc.as_slice()),
        };
    }
    InstallCommand::Generic { raw: string_from(tc.as_slice()) }
}

} // verus!
