//! `config init`: the decisions of the interactive setup. The prompts are
//! read and written by the program; each answer is interpreted here.
use vstd::prelude::*;
use crate::client::Space;
use crate::commands::CommandOutput;
use crate::error::{AppError, ErrorCode};
use crate::text::{
    concat, decimal, decimal_string, eq_ignore_ascii_case, eq_ignore_case, owned, parse_usize,
    parse_usize_spec, push_str, trim, trim_str, ascii_lower,
};

verus! {

broadcast use vstd::string::group_string_axioms;

/// The stable name of the command.
pub const COMMAND: &'static str = "config.init";

/// The program that installs the companion Agent Skills package.
pub const SKILLS_INSTALL_PROGRAM: &'static str = "npx";

/// `config init` takes no flags.
#[derive(Debug)]
pub struct ConfigInitArgs {}

/// The arguments of the Agent Skills installer.
pub fn skills_install_args() -> (r: Vec<&'static str>)
    ensures
        r@.len() == 5,
        r@[0]@ == "skills"@,
        r@[1]@ == "add"@,
        r@[2]@ == "laipz8200/confluence-cli"@,
        r@[3]@ == "--skill"@,
        r@[4]@ == "confluence-cli"@,
{
    let mut v: Vec<&'static str> = Vec::new();
    v.push("skills");
    v.push("add");
    v.push("laipz8200/confluence-cli");
    v.push("--skill");
    v.push("confluence-cli");
    v
}

pub open spec fn skills_install_command_text() -> Seq<char> {
    "npx skills add laipz8200/confluence-cli --skill confluence-cli"@
}

/// The installer command line, for messages.
pub fn skills_install_command() -> (r: String)
    ensures
        r@ == skills_install_command_text(),
{
    let args = skills_install_args();
    let mut r = owned(SKILLS_INSTALL_PROGRAM);
    let mut i: usize = 0;
    while i < args.len()
        invariant
            i <= 5,
            args@.len() == 5,
            args@[0]@ == "skills"@,
            args@[1]@ == "add"@,
            args@[2]@ == "laipz8200/confluence-cli"@,
            args@[3]@ == "--skill"@,
            args@[4]@ == "confluence-cli"@,
            r@ == "npx"@ + (if i >= 1 { " skills"@ } else { Seq::empty() }) + (if i >= 2 {
                " add"@
            } else {
                Seq::empty()
            }) + (if i >= 3 {
                " laipz8200/confluence-cli"@
            } else {
                Seq::empty()
            }) + (if i >= 4 {
                " --skill"@
            } else {
                Seq::empty()
            }) + (if i >= 5 {
                " confluence-cli"@
            } else {
                Seq::empty()
            }),
        decreases args.len() - i,
    {
        push_str(&mut r, " ");
        push_str(&mut r, args[i]);
        i = i + 1;
        proof {
            reveal_strlit(" ");
            reveal_strlit("skills");
            reveal_strlit(" skills");
            reveal_strlit("add");
            reveal_strlit(" add");
            reveal_strlit("laipz8200/confluence-cli");
            reveal_strlit(" laipz8200/confluence-cli");
            reveal_strlit("--skill");
            reveal_strlit(" --skill");
            reveal_strlit("confluence-cli");
            reveal_strlit(" confluence-cli");
            assert(r@ =~= "npx"@ + (if i >= 1 { " skills"@ } else { Seq::empty() }) + (if i >= 2 {
                " add"@
            } else {
                Seq::empty()
            }) + (if i >= 3 {
                " laipz8200/confluence-cli"@
            } else {
                Seq::empty()
            }) + (if i >= 4 {
                " --skill"@
            } else {
                Seq::empty()
            }) + (if i >= 5 {
                " confluence-cli"@
            } else {
                Seq::empty()
            }));
        }
    }
    proof {
        reveal_strlit("npx");
        reveal_strlit(" skills");
        reveal_strlit(" add");
        reveal_strlit(" laipz8200/confluence-cli");
        reveal_strlit(" --skill");
        reveal_strlit(" confluence-cli");
        reveal_strlit("npx skills add laipz8200/confluence-cli --skill confluence-cli");
        assert(r@ =~= skills_install_command_text());
    }
    r
}


/// The prompt written before an answer is read: the label and `: `.
pub fn prompt_text(label: &str) -> (r: String)
    ensures
        r@ == label@ + ": "@,
{
    concat(label, ": ")
}

/// An answer as the program uses it: the line without surrounding whitespace.
pub fn prompt_answer(line: &str) -> (r: String)
    ensures
        r@ == trim(line@),
{
    trim_str(line)
}

/// The label of the default space prompt.
pub const DEFAULT_SPACE_LABEL: &'static str = "Default space number (press Enter to skip)";

/// What an answer to the default space prompt means.
#[derive(Debug)]
pub enum SpaceChoice {
    /// No default space.
    Skip,
    /// The key of the chosen space.
    Selected(String),
    /// Not a listed number: ask again.
    Retry,
}

/// An answer's meaning: `Some(None)` to skip, `Some(Some(key))` for a
/// chosen space, `None` to ask again. A number `n` picks the `n`th listed
/// space (counting from one; `0` counts as one).
pub open spec fn space_choice(spaces: Seq<Space>, answer: Seq<char>) -> Option<Option<Seq<char>>> {
    if answer.len() == 0 {
        Some(None)
    } else {
        match parse_usize_spec(answer) {
            None => None,
            Some(n) => {
                let index = if n >= 1 {
                    n - 1
                } else {
                    0
                };
                if index < spaces.len() {
                    Some(Some(spaces[index].key@))
                } else {
                    None
                }
            },
        }
    }
}

/// Interprets a (trimmed) answer to the default space prompt.
pub fn interpret_space_choice(spaces: &Vec<Space>, answer: &str) -> (r: SpaceChoice)
    ensures
        match space_choice(spaces@, answer@) {
            Some(None) => r is Skip,
            Some(Some(k)) => r matches SpaceChoice::Selected(key) && key@ == k,
            None => r is Retry,
        },
{
    if answer.is_empty() {
        return SpaceChoice::Skip;
    }
    match parse_usize(answer) {
        None => SpaceChoice::Retry,
        Some(selection) => {
            let index = if selection >= 1 {
                selection - 1
            } else {
                0
            };
            if index < spaces.len() {
                SpaceChoice::Selected(spaces[index].key.clone())
            } else {
                SpaceChoice::Retry
            }
        },
    }
}

/// Entering the number that the menu shows next to a space selects that
/// space.
pub proof fn lemma_menu_number_selects_space(spaces: Seq<Space>, n: nat)
    requires
        1 <= n <= spaces.len(),
        n <= usize::MAX,
    ensures
        space_choice(spaces, decimal(n)) == Some(Some(spaces[n - 1].key@)),
{
    crate::text::lemma_parse_decimal(n);
    crate::text::lemma_decimal_nonempty(n);
}

/// The menu line of the space at `index`: its number, name and key.
pub open spec fn menu_line(index: nat, s: Space) -> Seq<char> {
    decimal(index + 1) + ". "@ + s.name@ + " ("@ + s.key@ + ")"@
}

pub open spec fn no_spaces_text() -> Seq<char> {
    "No accessible spaces found. Saving config without a default_space."@
}

/// The lines listing the accessible spaces, numbered from one.
pub fn space_menu(spaces: &Vec<Space>) -> (r: Vec<String>)
    ensures
        spaces@.len() == 0 ==> r@.len() == 1 && r@[0]@ == no_spaces_text(),
        spaces@.len() > 0 ==> r@.len() == spaces@.len() + 1 && r@[0]@ == "Accessible spaces:"@
            && forall|i: int| 0 <= i < spaces@.len() ==> (#[trigger] r@[i + 1])@ == menu_line(i as nat, spaces@[i]),
{
    let mut lines: Vec<String> = Vec::new();
    if spaces.len() == 0 {
        lines.push(owned("No accessible spaces found. Saving config without a default_space."));
        return lines;
    }
    lines.push(owned("Accessible spaces:"));
    let mut i: usize = 0;
    while i < spaces.len()
        invariant
            i <= spaces@.len(),
            lines@.len() == i + 1,
            lines@[0]@ == "Accessible spaces:"@,
            forall|k: int| 0 <= k < i ==> (#[trigger] lines@[k + 1])@ == menu_line(k as nat, spaces@[k]),
        decreases spaces.len() - i,
    {
        let s = &spaces[i];
        let mut line = decimal_string((i + 1) as u64);
        push_str(&mut line, ". ");
        push_str(&mut line, s.name.as_str());
        push_str(&mut line, " (");
        push_str(&mut line, s.key.as_str());
        push_str(&mut line, ")");
        lines.push(line);
        proof {
            assert(lines@[i + 1]@ =~= menu_line(i as nat, spaces@[i as int]));
        }
        i = i + 1;
    }
    lines
}

/// The message asking for a listed number again.
pub fn space_retry_message(count: usize) -> (r: String)
    ensures
        r@ == "Please enter a number from 1 to "@ + decimal(count as nat) + ", or press Enter to skip."@,
{
    let mut r = concat("Please enter a number from 1 to ", decimal_string(count as u64).as_str());
    push_str(&mut r, ", or press Enter to skip.");
    r
}

/// Whether the companion skills package was installed.
#[derive(Debug, Clone, Copy, PartialEq, Eq, Structural)]
pub enum SkillsInstallOutcome {
    Installed,
    Skipped,
}

/// What an answer to the install prompt means.
#[derive(Debug, Clone, Copy, PartialEq, Eq, Structural)]
pub enum InstallChoice {
    Install,
    Skip,
    Retry,
}

/// The install prompt.
pub const INSTALL_PROMPT: &'static str = "Install the companion Agent Skills package now? [Y/n]: ";

/// Written after an answer that is neither yes nor no.
pub const INSTALL_RETRY: &'static str = "Please answer y or n.";

/// End of input skips; an empty answer, `y` or `yes` installs; `n` or `no`
/// skips (any case, surrounding whitespace ignored); anything else asks again.
pub open spec fn install_choice(line: Option<Seq<char>>) -> InstallChoice {
    match line {
        None => InstallChoice::Skip,
        Some(l) => {
            let v = trim(l);
            if v.len() == 0 || eq_ignore_case(v, "y"@) || eq_ignore_case(v, "yes"@) {
                InstallChoice::Install
            } else if eq_ignore_case(v, "n"@) || eq_ignore_case(v, "no"@) {
                InstallChoice::Skip
            } else {
                InstallChoice::Retry
            }
        },
    }
}

/// Interprets an answer to the install prompt; `None` is end of input.
pub fn interpret_install_answer(line: Option<&str>) -> (r: InstallChoice)
    ensures
        r == install_choice(
            match line {
                Some(l) => Some(l@),
                None => None,
            },
        ),
{
    match line {
        None => InstallChoice::Skip,
        Some(l) => {
            let v = trim_str(l);
            if v.as_str().is_empty() || eq_ignore_ascii_case(v.as_str(), "y") || eq_ignore_ascii_case(
                v.as_str(),
                "yes",
            ) {
                InstallChoice::Install
            } else if eq_ignore_ascii_case(v.as_str(), "n") || eq_ignore_ascii_case(v.as_str(), "no") {
                InstallChoice::Skip
            } else {
                InstallChoice::Retry
            }
        },
    }
}

/// An error after the configuration was saved, saying where it was saved.
pub fn after_config_save_error(error: AppError, path: &str) -> (e: AppError)
    ensures
        e.code == error.code,
        e.message@ == "Config saved to: "@ + path@ + ". "@ + error.message@,
        e.retryable == error.retryable,
        e.details == error.details,
{
    let mut e = error;
    let mut m = concat("Config saved to: ", path);
    push_str(&mut m, ". ");
    push_str(&mut m, e.message.as_str());
    e.message = m;
    e
}

/// An error of the credential check, telling how to retry.
pub fn api_verification_error(error: AppError) -> (e: AppError)
    ensures
        e.code == error.code,
        e.message@ == "Failed to verify Confluence API access. Run `confluence-cli config init` again to retry. "@
            + error.message@,
        e.retryable == error.retryable,
        e.details == error.details,
{
    AppError {
        code: error.code,
        message: concat(
            "Failed to verify Confluence API access. Run `confluence-cli config init` again to retry. ",
            error.message.as_str(),
        ),
        retryable: error.retryable,
        details: error.details,
    }
}

/// The text printed when setup completes.
pub open spec fn completion_text(path: Seq<char>, installed: bool) -> Seq<char> {
    "Congratulations, setup is complete.\nConfig saved to: "@ + path + if installed {
        "\nAgent Skills package installed."@
    } else {
        Seq::empty()
    }
}

/// The output of a completed setup: text, not JSON.
pub fn config_init_output(path: &str, outcome: SkillsInstallOutcome) -> (o: CommandOutput)
    ensures
        o.command@ == "config.init"@,
        o.text matches Some(t) && t@ == completion_text(path@, outcome == SkillsInstallOutcome::Installed),
{
    let mut m = concat("Congratulations, setup is complete.\nConfig saved to: ", path);
    if outcome == SkillsInstallOutcome::Installed {
        push_str(&mut m, "\nAgent Skills package installed.");
    } else {
        assert(m@ + Seq::<char>::empty() == m@);
    }
    CommandOutput::text(COMMAND, m)
}

/// The kinds of I/O error that the token prompt distinguishes.
#[derive(Debug, Clone, Copy, PartialEq, Eq, Structural)]
pub enum IoErrorKind {
    NotFound,
    Unsupported,
    Other,
}

/// The hidden token prompt cannot use a terminal: the error is "not found"
/// or "unsupported", or the OS error 6 (no such device or address).
pub fn is_tty_unavailable(kind: IoErrorKind, raw_os_error: Option<i32>) -> (r: bool)
    ensures
        r == (kind == IoErrorKind::NotFound || kind == IoErrorKind::Unsupported || raw_os_error
            == Some(6i32)),
{
    match kind {
        IoErrorKind::NotFound => true,
        IoErrorKind::Unsupported => true,
        IoErrorKind::Other => match raw_os_error {
            Some(code) => code == 6,
            None => false,
        },
    }
}

/// The `config_invalid` error `prefix` + `detail`.
fn invalid_with(prefix: &str, detail: &str) -> (e: AppError)
    ensures
        e.code == ErrorCode::ConfigInvalid,
        e.message@ == prefix@ + detail@,
        !e.retryable,
{
    AppError::new(ErrorCode::ConfigInvalid, concat(prefix, detail))
}

/// A prompt could not be written.
pub fn prompt_write_error(detail: &str) -> (e: AppError)
    ensures
        e.code == ErrorCode::ConfigInvalid,
        e.message@ == "Failed to write prompt: "@ + detail@,
{
    invalid_with("Failed to write prompt: ", detail)
}

/// A prompt could not be flushed.
pub fn prompt_flush_error(detail: &str) -> (e: AppError)
    ensures
        e.code == ErrorCode::ConfigInvalid,
        e.message@ == "Failed to flush prompt: "@ + detail@,
{
    invalid_with("Failed to flush prompt: ", detail)
}

/// An answer to the prompt `label` could not be read.
pub fn prompt_read_error(label: &str, detail: &str) -> (e: AppError)
    ensures
        e.code == ErrorCode::ConfigInvalid,
        e.message@ == "Failed to read "@ + label@ + ": "@ + detail@,
{
    let mut m = concat("Failed to read ", label);
    push_str(&mut m, ": ");
    push_str(&mut m, detail);
    AppError::new(ErrorCode::ConfigInvalid, m)
}

/// The hidden token prompt failed for another reason than a missing terminal.
pub fn api_token_read_error(detail: &str) -> (e: AppError)
    ensures
        e.code == ErrorCode::ConfigInvalid,
        e.message@ == "Failed to read API token: "@ + detail@,
{
    invalid_with("Failed to read API token: ", detail)
}

/// The answer to the install prompt could not be read.
pub fn install_choice_read_error(detail: &str) -> (e: AppError)
    ensures
        e.code == ErrorCode::ConfigInvalid,
        e.message@ == "Failed to read Agent Skills install choice: "@ + detail@,
{
    invalid_with("Failed to read Agent Skills install choice: ", detail)
}

/// The installer could not be started.
pub fn installer_start_error(detail: &str) -> (e: AppError)
    ensures
        e.code == ErrorCode::InternalError,
        e.message@ == "Failed to start Agent Skills installer `"@ + skills_install_command_text()
            + "`: "@ + detail@,
{
    let mut m = concat("Failed to start Agent Skills installer `", skills_install_command().as_str());
    push_str(&mut m, "`: ");
    push_str(&mut m, detail);
    AppError::new(ErrorCode::InternalError, m)
}

/// The installer ran and failed with `status`.
pub fn installer_exit_error(status: &str) -> (e: AppError)
    ensures
        e.code == ErrorCode::InternalError,
        e.message@ == "Agent Skills installer `"@ + skills_install_command_text() + "` exited with "@
            + status@ + "."@,
{
    let mut m = concat("Agent Skills installer `", skills_install_command().as_str());
    push_str(&mut m, "` exited with ");
    push_str(&mut m, status);
    push_str(&mut m, ".");
    AppError::new(ErrorCode::InternalError, m)
}


/// How install answers are read, whatever their surrounding whitespace and
/// ASCII case: end of input skips; an empty answer, `y` or `yes` installs;
/// `n` or `no` skips; every other answer asks again.
pub proof fn lemma_install_answers(line: Seq<char>)
    ensures
        install_choice(None) == InstallChoice::Skip,
        trim(line).len() == 0 ==> install_choice(Some(line)) == InstallChoice::Install,
        ascii_lower(trim(line)) == "y"@ || ascii_lower(trim(line)) == "yes"@ ==> install_choice(
            Some(line),
        ) == InstallChoice::Install,
        ascii_lower(trim(line)) == "n"@ || ascii_lower(trim(line)) == "no"@ ==> install_choice(
            Some(line),
        ) == InstallChoice::Skip,
        trim(line).len() > 0 && ascii_lower(trim(line)) != "y"@ && ascii_lower(trim(line)) != "yes"@
            && ascii_lower(trim(line)) != "n"@ && ascii_lower(trim(line)) != "no"@ ==> install_choice(
            Some(line),
        ) == InstallChoice::Retry,
{
    reveal_strlit("y");
    reveal_strlit("yes");
    reveal_strlit("n");
    reveal_strlit("no");
    assert(ascii_lower("y"@) =~= "y"@);
    assert(ascii_lower("yes"@) =~= "yes"@);
    assert(ascii_lower("n"@) =~= "n"@);
    assert(ascii_lower("no"@) =~= "no"@);
    assert(ascii_lower(trim(line)).len() == trim(line).len());
    assert("n"@[0] != "y"@[0] && "n"@.len() != "yes"@.len());
    assert("no"@.len() != "y"@.len() && "no"@.len() != "yes"@.len());
}

} // verus!
