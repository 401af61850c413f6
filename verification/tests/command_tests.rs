use safeinstall::command::{parse, InstallCommand};

#[test]
fn parses_npm_install() {
    let cmd = parse("npm install -g bun");
    assert!(matches!(&cmd, InstallCommand::PmInstall { registry, package, .. }
        if *registry == "npm" && package == "bun"));
}

#[test]
fn parses_npm_i_short() {
    let cmd = parse("npm i -g bun");
    assert!(matches!(&cmd, InstallCommand::PmInstall { package, .. }
        if package == "bun"));
}

#[test]
fn parses_pip_install() {
    let cmd = parse("pip install requests");
    assert!(matches!(&cmd, InstallCommand::PmInstall { registry, package, .. }
        if *registry == "PyPI" && package == "requests"));
}

#[test]
fn parses_cargo_install() {
    let cmd = parse("cargo install ripgrep");
    assert!(matches!(&cmd, InstallCommand::PmInstall { registry, package, .. }
        if *registry == "crates.io" && package == "ripgrep"));
}

#[test]
fn parses_curl_pipe() {
    let cmd = parse("curl -fsSL https://bun.sh/install | bash");
    assert!(matches!(&cmd, InstallCommand::CurlPipe { .. }));
}

#[test]
fn parses_direct_url() {
    let cmd = parse("https://bun.sh/install");
    assert!(matches!(&cmd, InstallCommand::Url { .. }));
}

#[test]
fn generic_fallback() {
    let cmd = parse("some-random-command --flag");
    assert!(matches!(&cmd, InstallCommand::Generic { .. }));
}
