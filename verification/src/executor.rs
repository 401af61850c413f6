//! Execution policy: how the user is asked, what an answer means, and how an
//! analysed installer or command is launched.  Prompting and launching are
//! left to the caller.

use vstd::prelude::*;

use crate::analyzer::Severity;
use crate::report::{GRN, RED, RST};
use crate::source::InstallerKind;
use crate::text::{chars_eq, chars_of, is_ws, lower, lower_exec, push_str, trim, trim_chars, trim_start};

verus! {

/// High and critical risks call for an explicit confirmation.
pub open spec fn is_cautious(risk: Severity) -> bool {
    risk == Severity::High || risk == Severity::Critical
}

/// Whether pressing Enter at the prompt proceeds: yes unless the risk is high
/// or critical.
pub fn default_yes(risk: &Severity) -> (d: bool)
    ensures
        d == !is_cautious(*risk),
{
    match risk {
        Severity::High | Severity::Critical => false,
        _ => true,
    }
}

/// The confirmation prompt for a question, showing the default choice.
pub open spec fn prompt_spec(question: Seq<char>, default_yes: bool) -> Seq<char> {
    GRN@ + question + " "@ + (if default_yes {
        "[Y/n]"@
    } else {
        "[y/N]"@
    }) + " "@ + RST@
}

/// The confirmation prompt for a question, showing the default choice.
pub fn prompt(question: &str, default_yes: bool) -> (p: String)
    ensures
        p@ == prompt_spec(question@, default_yes),
{
    let mut p = String::new();
    push_str(&mut p, GRN);
    push_str(&mut p, question);
    push_str(&mut p, " ");
    push_str(
        &mut p,
        if default_yes {
            "[Y/n]"
        } else {
            "[y/N]"
        },
    );
    push_str(&mut p, " ");
    push_str(&mut p, RST);
    assert(p@ =~= prompt_spec(question@, default_yes));
    p
}

/// Whether an answer to the prompt means "proceed": with a yes default only
/// `n` or `no` declines; with a no default only `y` or `yes` accepts.
/// Surrounding whitespace and ASCII case are ignored.
pub open spec fn accepts(default_yes: bool, answer: Seq<char>) -> bool {
    let a = lower(trim(answer));
    if default_yes {
        !(a == "n"@ || a == "no"@)
    } else {
        a == "y"@ || a == "yes"@
    }
}

/// Whitespace-only text has nothing left after trimming its start.
proof fn lemma_trim_start_blank(s: Seq<char>)
    requires
        forall|i: int| 0 <= i < s.len() ==> is_ws(#[trigger] s[i]),
    ensures
        trim_start(s) == Seq::<char>::empty(),
    decreases s.len(),
{
    if s.len() > 0 {
        assert(is_ws(s[0]));
        assert forall|i: int| 0 <= i < s.drop_first().len() implies is_ws(#[trigger] s.drop_first()[i]) by {
            assert(s.drop_first()[i] == s[i + 1]);
        }
        lemma_trim_start_blank(s.drop_first());
    }
}

/// An answer of nothing but whitespace, such as pressing Enter, takes the
/// default: it proceeds exactly when the default is yes.
pub proof fn a_blank_answer_takes_the_default(default_yes: bool, answer: Seq<char>)
    requires
        forall|i: int| 0 <= i < answer.len() ==> is_ws(#[trigger] answer[i]),
    ensures
        accepts(default_yes, answer) == default_yes,
{
    lemma_trim_start_blank(answer);
    assert(trim(answer) == Seq::<char>::empty());
    assert(lower(Seq::<char>::empty()) =~= Seq::<char>::empty());
    reveal_strlit("n");
    reveal_strlit("no");
    reveal_strlit("y");
    reveal_strlit("yes");
    assert("n"@.len() == 1);
    assert("no"@.len() == 2);
    assert("y"@.len() == 1);
    assert("yes"@.len() == 3);
}

/// Whether an answer to the prompt means "proceed".
pub fn answer_proceeds(default_yes: bool, answer: &str) -> (ok: bool)
    ensures
        ok == accepts(default_yes, answer@),
{
    let ac = chars_of(answer);
    let t = trim_chars(ac.as_slice());
    let a = lower_exec(t.as_slice());
    let a = a.as_slice();
    if default_yes {
        !(chars_eq(a, chars_of("n").as_slice()) || chars_eq(a, chars_of("no").as_slice()))
    } else {
        chars_eq(a, chars_of("y").as_slice()) || chars_eq(a, chars_of("yes").as_slice())
    }
}

/// Why an installer cannot be launched.
#[derive(Clone, Copy, Debug, PartialEq, Eq, Structural)]
pub enum ExecError {
    /// Plain text has no interpreter to run it.
    UnknownTextInstaller,
}

impl ExecError {
    /// The message shown for this error.
    pub fn message(&self) -> (m: String)
        ensures
            m@ == "unknown text installer type cannot be executed safely"@,
    {
        String::from_str("unknown text installer type cannot be executed safely")
    }
}

/// The line announcing what is about to run, red for a cautious risk.
pub open spec fn announcement(risk: Severity, what: Seq<char>) -> Seq<char> {
    (if is_cautious(risk) {
        RED@
    } else {
        GRN@
    }) + what + RST@
}

/// The line announcing what is about to run: `verb` followed by the target.
pub fn announce(risk: &Severity, verb: &str, target: &str) -> (line: String)
    ensures
        line@ == announcement(*risk, verb@ + target@),
{
    let mut line = String::new();
    push_str(
        &mut line,
        if default_yes(risk) {
            GRN
        } else {
            RED
        },
    );
    push_str(&mut line, verb);
    push_str(&mut line, target);
    push_str(&mut line, RST);
    assert(line@ =~= announcement(*risk, verb@ + target@));
    line
}

/// The file-name suffix under which an installer of a kind is saved.
pub open spec fn suffix_for(kind: InstallerKind, windows: bool) -> Option<Seq<char>> {
    match kind {
        InstallerKind::Bash => Some(".sh"@),
        InstallerKind::PowerShell => Some(".ps1"@),
        InstallerKind::Python => Some(".py"@),
        InstallerKind::Executable => Some(if windows { ".exe"@ } else { ".bin"@ }),
        InstallerKind::Text => None,
    }
}

/// The file-name suffix under which an installer is saved before running it.
pub fn installer_suffix(kind: &InstallerKind, windows: bool) -> (r: Result<&'static str, ExecError>)
    ensures
        match r {
            Ok(s) => suffix_for(*kind, windows) == Some(s@),
            Err(e) => suffix_for(*kind, windows) is None && e == ExecError::UnknownTextInstaller,
        },
{
    match kind {
        InstallerKind::Bash => Ok(".sh"),
        InstallerKind::PowerShell => Ok(".ps1"),
        InstallerKind::Python => Ok(".py"),
        InstallerKind::Executable => Ok(if windows { ".exe" } else { ".bin" }),
        InstallerKind::Text => Err(ExecError::UnknownTextInstaller),
    }
}

/// A program and its arguments.
#[derive(Debug)]
pub struct Invocation {
    pub program: String,
    pub args: Vec<String>,
}

/// The views of a list of strings.
pub open spec fn arg_views(args: Seq<String>) -> Seq<Seq<char>> {
    args.map_values(|a: String| a@)
}

/// The program and arguments that run an installer saved at `path`.
pub open spec fn interpreter_for(kind: InstallerKind, windows: bool, path: Seq<char>) -> Option<(Seq<char>, Seq<Seq<char>>)> {
    match kind {
        InstallerKind::Bash => Some(("bash"@, seq![path])),
        InstallerKind::PowerShell => Some(
            (
                if windows {
                    "powershell"@
                } else {
                    "pwsh"@
                },
                seq!["-NoProfile"@, "-ExecutionPolicy"@, "Bypass"@, "-File"@, path],
            ),
        ),
        InstallerKind::Python => Some(
            (
                if windows {
                    "python"@
                } else {
                    "python3"@
                },
                seq![path],
            ),
        ),
        InstallerKind::Executable => Some((path, Seq::empty())),
        InstallerKind::Text => None,
    }
}

/// How to run an installer of a kind saved at `path`.
pub fn interpreter(kind: &InstallerKind, windows: bool, path: &str) -> (r: Result<Invocation, ExecError>)
    ensures
        match r {
            Ok(inv) => interpreter_for(*kind, windows, path@) == Some((inv.program@, arg_views(inv.args@))),
            Err(e) => interpreter_for(*kind, windows, path@) is None && e == ExecError::UnknownTextInstaller,
        },
{
    let p = String::from_str(path);
    let inv = match kind {
        InstallerKind::Bash => Invocation { program: String::from_str("bash"), args: vec![p] },
        InstallerKind::PowerShell => Invocation {
            program: String::from_str(
                if windows {
                    "powershell"
                } else {
                    "pwsh"
                },
            ),
            args: vec![
                String::from_str("-NoProfile"),
                String::from_str("-ExecutionPolicy"),
                String::from_str("Bypass"),
                String::from_str("-File"),
                p,
            ],
        },
        InstallerKind::Python => Invocation {
            program: String::from_str(
                if windows {
                    "python"
                } else {
                    "python3"
                },
            ),
            args: vec![p],
        },
        InstallerKind::Executable => Invocation { program: p, args: Vec::new() },
        InstallerKind::Text => {
            return Err(ExecError::UnknownTextInstaller);
        },
    };
    assert(arg_views(inv.args@) =~= (interpreter_for(*kind, windows, path@)->0).1);
    Ok(inv)
}

/// How to run a raw command line through the platform shell.
pub open spec fn shell_for(raw: Seq<char>, windows: bool) -> (Seq<char>, Seq<Seq<char>>) {
    if windows {
        ("cmd"@, seq!["/C"@, raw])
    } else {
        ("sh"@, seq!["-c"@, raw])
    }
}

/// How to run a raw command line through the platform shell.
pub fn shell_invocation(raw: &str, windows: bool) -> (inv: Invocation)
    ensures
        shell_for(raw@, windows) == (inv.program@, arg_views(inv.args@)),
{
    let inv = if windows {
        Invocation {
            program: String::from_str("cmd"),
            args: vec![String::from_str("/C"), String::from_str(raw)],
        }
    } else {
        Invocation {
            program: String::from_str("sh"),
            args: vec![String::from_str("-c"), String::from_str(raw)],
        }
    };
    assert(arg_views(inv.args@) =~= shell_for(raw@, windows).1);
    inv
}

} // verus!
