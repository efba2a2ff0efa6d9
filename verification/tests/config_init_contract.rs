use confluence_cli::client::Space;
use confluence_cli::commands::config_init::{
    after_config_save_error, api_verification_error, config_init_output,
    interpret_install_answer, interpret_space_choice, is_tty_unavailable, prompt_answer,
    prompt_text, skills_install_args, skills_install_command, space_menu, space_retry_message,
    InstallChoice, IoErrorKind, SkillsInstallOutcome, SpaceChoice, DEFAULT_SPACE_LABEL,
    INSTALL_PROMPT, SKILLS_INSTALL_PROGRAM,
};
use confluence_cli::error::{AppError, ErrorCode};

fn space(id: &str, key: &str, name: &str) -> Space {
    Space {
        id: id.to_string(),
        key: key.to_string(),
        name: name.to_string(),
    }
}

#[test]
fn config_prompt_helper_writes_prompt_to_injected_non_stdout_stream() {
    let value = prompt_answer(" ENG \n");
    assert_eq!(value, "ENG");
    assert_eq!(prompt_text("Default space key"), "Default space key: ");
}

#[test]
fn config_init_prompt_helper_writes_prompt_to_injected_non_stdout_stream() {
    let value = prompt_answer(" ENG \n");
    assert_eq!(value, "ENG");
    assert_eq!(prompt_text("Default space key"), "Default space key: ");
}

#[test]
fn default_space_selection_returns_selected_space_key() {
    let spaces = vec![
        space("space-eng", "ENG", "Engineering"),
        space("space-docs", "DOCS", "Documentation"),
    ];

    let selected = interpret_space_choice(&spaces, &prompt_answer("2\n"));

    assert!(matches!(selected, SpaceChoice::Selected(ref key) if key == "DOCS"));
    let prompt = space_menu(&spaces).join("\n") + &prompt_text(DEFAULT_SPACE_LABEL);
    assert!(prompt.contains("Engineering"));
    assert!(prompt.contains("Documentation"));
    assert!(prompt.contains("Default space number"));
}

#[test]
fn default_space_selection_allows_skipping() {
    let spaces = vec![space("space-eng", "ENG", "Engineering")];

    let selected = interpret_space_choice(&spaces, &prompt_answer("\n"));

    assert!(matches!(selected, SpaceChoice::Skip));
}

#[test]
fn out_of_range_or_non_numeric_answers_ask_again() {
    let spaces = vec![space("space-eng", "ENG", "Engineering")];
    assert!(matches!(interpret_space_choice(&spaces, "2"), SpaceChoice::Retry));
    assert!(matches!(interpret_space_choice(&spaces, "abc"), SpaceChoice::Retry));
    assert!(matches!(interpret_space_choice(&spaces, "-1"), SpaceChoice::Retry));
    assert!(matches!(
        interpret_space_choice(&spaces, "99999999999999999999999"),
        SpaceChoice::Retry
    ));
    assert!(matches!(interpret_space_choice(&spaces, "+1"), SpaceChoice::Selected(ref k) if k == "ENG"));
    assert!(matches!(interpret_space_choice(&spaces, "0"), SpaceChoice::Selected(ref k) if k == "ENG"));
    assert_eq!(
        space_retry_message(1),
        "Please enter a number from 1 to 1, or press Enter to skip."
    );
}

#[test]
fn menu_lists_spaces_by_number() {
    let spaces = vec![
        space("space-eng", "ENG", "Engineering"),
        space("space-docs", "DOCS", "Documentation"),
    ];
    assert_eq!(
        space_menu(&spaces),
        vec![
            "Accessible spaces:",
            "1. Engineering (ENG)",
            "2. Documentation (DOCS)"
        ]
    );
    assert_eq!(
        space_menu(&Vec::new()),
        vec!["No accessible spaces found. Saving config without a default_space."]
    );
}

#[test]
fn skills_install_prompt_defaults_enter_to_install() {
    let outcome = interpret_install_answer(Some("\n"));

    assert_eq!(outcome, InstallChoice::Install);
    assert_eq!(SKILLS_INSTALL_PROGRAM, "npx");
    assert_eq!(
        skills_install_args(),
        vec![
            "skills",
            "add",
            "laipz8200/confluence-cli",
            "--skill",
            "confluence-cli"
        ]
    );
    assert!(INSTALL_PROMPT.contains("Install the companion Agent Skills package now? [Y/n]"));
}

#[test]
fn skills_install_prompt_skips_when_user_says_no() {
    assert_eq!(interpret_install_answer(Some("n\n")), InstallChoice::Skip);
}

#[test]
fn skills_install_prompt_skips_on_eof_without_running_installer() {
    assert_eq!(interpret_install_answer(None), InstallChoice::Skip);
}

#[test]
fn install_answers_ignore_case() {
    assert_eq!(interpret_install_answer(Some(" YES ")), InstallChoice::Install);
    assert_eq!(interpret_install_answer(Some("Y")), InstallChoice::Install);
    assert_eq!(interpret_install_answer(Some("No")), InstallChoice::Skip);
    assert_eq!(interpret_install_answer(Some("maybe")), InstallChoice::Retry);
}

#[test]
fn installer_command_line() {
    assert_eq!(
        skills_install_command(),
        "npx skills add laipz8200/confluence-cli --skill confluence-cli"
    );
}

#[test]
fn completion_message() {
    let output = config_init_output("/tmp/c.toml", SkillsInstallOutcome::Installed);
    assert_eq!(output.command, "config.init");
    assert_eq!(
        output.text.unwrap(),
        "Congratulations, setup is complete.\nConfig saved to: /tmp/c.toml\nAgent Skills package installed."
    );
    let output = config_init_output("/tmp/c.toml", SkillsInstallOutcome::Skipped);
    assert_eq!(
        output.text.unwrap(),
        "Congratulations, setup is complete.\nConfig saved to: /tmp/c.toml"
    );
}

#[test]
fn setup_errors_explain_how_to_continue() {
    let e = api_verification_error(AppError::new(ErrorCode::AuthFailed, "HTTP 401.".to_string()));
    assert_eq!(e.code.as_str(), "auth_failed");
    assert!(e.message.contains("config init"));
    assert!(e.message.ends_with("HTTP 401."));
    let e = after_config_save_error(
        AppError::new(ErrorCode::InternalError, "boom".to_string()),
        "/tmp/c.toml",
    );
    assert_eq!(e.message, "Config saved to: /tmp/c.toml. boom");
}

#[test]
fn tty_unavailability() {
    assert!(is_tty_unavailable(IoErrorKind::NotFound, None));
    assert!(is_tty_unavailable(IoErrorKind::Unsupported, None));
    assert!(is_tty_unavailable(IoErrorKind::Other, Some(6)));
    assert!(!is_tty_unavailable(IoErrorKind::Other, Some(5)));
    assert!(!is_tty_unavailable(IoErrorKind::Other, None));
}
