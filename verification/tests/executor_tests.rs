use safeinstall::analyzer::Severity;
use safeinstall::config::AppConfig;
use safeinstall::executor::{
    announce, answer_proceeds, default_yes, installer_suffix, interpreter, prompt,
    shell_invocation, ExecError,
};
use safeinstall::report::{GRN, RED, RST};
use safeinstall::source::InstallerKind;

#[test]
fn prompt_default_follows_the_risk() {
    assert!(default_yes(&Severity::Low));
    assert!(default_yes(&Severity::Medium));
    assert!(!default_yes(&Severity::High));
    assert!(!default_yes(&Severity::Critical));
    assert_eq!(
        prompt("Proceed with this analyzed installer?", true),
        format!("{GRN}Proceed with this analyzed installer? [Y/n] {RST}")
    );
    assert_eq!(
        prompt("Execute this command?", false),
        format!("{GRN}Execute this command? [y/N] {RST}")
    );
}

#[test]
fn pressing_enter_takes_the_default() {
    assert!(answer_proceeds(true, "\n"));
    assert!(answer_proceeds(true, ""));
    assert!(!answer_proceeds(false, "\n"));
    assert!(!answer_proceeds(false, "  "));
}

#[test]
fn answers_are_read_without_case_or_padding() {
    assert!(!answer_proceeds(true, " No\n"));
    assert!(!answer_proceeds(true, "n"));
    assert!(answer_proceeds(true, "maybe"));
    assert!(answer_proceeds(false, "YES\n"));
    assert!(answer_proceeds(false, "y"));
    assert!(!answer_proceeds(false, "yeah"));
}

#[test]
fn announcements_are_red_for_high_risk() {
    assert_eq!(
        announce(&Severity::Critical, "Installing from ", "https://x/i.sh"),
        format!("{RED}Installing from https://x/i.sh{RST}")
    );
    assert_eq!(
        announce(&Severity::Low, "Running ", "npm i x"),
        format!("{GRN}Running npm i x{RST}")
    );
}

#[test]
fn installers_are_saved_with_their_suffix() {
    assert_eq!(installer_suffix(&InstallerKind::Bash, false), Ok(".sh"));
    assert_eq!(installer_suffix(&InstallerKind::PowerShell, false), Ok(".ps1"));
    assert_eq!(installer_suffix(&InstallerKind::Python, true), Ok(".py"));
    assert_eq!(installer_suffix(&InstallerKind::Executable, true), Ok(".exe"));
    assert_eq!(installer_suffix(&InstallerKind::Executable, false), Ok(".bin"));
    assert_eq!(
        installer_suffix(&InstallerKind::Text, false),
        Err(ExecError::UnknownTextInstaller)
    );
    assert_eq!(
        ExecError::UnknownTextInstaller.message(),
        "unknown text installer type cannot be executed safely"
    );
}

#[test]
fn interpreters_match_the_installer_kind() {
    let ps = interpreter(&InstallerKind::PowerShell, false, "/tmp/a.ps1").unwrap();
    assert_eq!(ps.program, "pwsh");
    assert_eq!(ps.args, vec!["-NoProfile", "-ExecutionPolicy", "Bypass", "-File", "/tmp/a.ps1"]);
    let ps_win = interpreter(&InstallerKind::PowerShell, true, "a.ps1").unwrap();
    assert_eq!(ps_win.program, "powershell");
    let py = interpreter(&InstallerKind::Python, false, "/tmp/a.py").unwrap();
    assert_eq!(py.program, "python3");
    assert_eq!(py.args, vec!["/tmp/a.py"]);
    let sh = interpreter(&InstallerKind::Bash, false, "/tmp/a.sh").unwrap();
    assert_eq!(sh.program, "bash");
    let exe = interpreter(&InstallerKind::Executable, false, "/tmp/a.bin").unwrap();
    assert_eq!(exe.program, "/tmp/a.bin");
    assert!(exe.args.is_empty());
    assert!(interpreter(&InstallerKind::Text, false, "/tmp/a").is_err());
}

#[test]
fn commands_run_through_the_platform_shell() {
    let unix = shell_invocation("npm install -g bun", false);
    assert_eq!(unix.program, "sh");
    assert_eq!(unix.args, vec!["-c", "npm install -g bun"]);
    let win = shell_invocation("npm install -g bun", true);
    assert_eq!(win.program, "cmd");
    assert_eq!(win.args, vec!["/C", "npm install -g bun"]);
}

#[test]
fn config_stores_known_keys() {
    let mut cfg = AppConfig::default();
    assert!(cfg.virustotal_api_key.is_none());
    assert_eq!(cfg.set("VIRUSTOTAL_API_KEY", "abc"), Ok(()));
    assert_eq!(cfg.virustotal_api_key.as_deref(), Some("abc"));
    assert!(cfg.cloudflare_api_token.is_none());
    assert_eq!(cfg.set("CLOUDFLARE_API_TOKEN", "tok"), Ok(()));
    assert_eq!(cfg.cloudflare_api_token.as_deref(), Some("tok"));
    assert_eq!(cfg.virustotal_api_key.as_deref(), Some("abc"));
}

#[test]
fn config_rejects_unknown_keys() {
    let mut cfg = AppConfig::default();
    assert_eq!(
        cfg.set("GITHUB_TOKEN", "x"),
        Err("unknown config key: GITHUB_TOKEN".to_string())
    );
    assert!(cfg.virustotal_api_key.is_none());
    assert!(cfg.cloudflare_api_token.is_none());
}
