use prompt_changer::config::{build_config_line, config_line};
use prompt_changer::prompt::{
    assemble_prompt, trimmed, validate_prompt, PromptError, PromptFragment,
};
use prompt_changer::shell::ShellTarget;

fn fragment(color: &str, name: &str) -> PromptFragment {
    PromptFragment {
        color: color.to_string(),
        name: name.to_string(),
    }
}

#[test]
fn assemble_four_fragments() {
    let frags = vec![
        fragment("red", "alpha"),
        fragment("blue", "beta"),
        fragment("green", "gamma"),
        fragment("yellow", "delta"),
    ];
    let prompt = assemble_prompt(&frags);
    assert_eq!(prompt, "redalpha bluebeta greengamma yellowdelta \\$");
}

#[test]
fn assemble_keeps_input_order() {
    let frags = vec![
        fragment("\\[\\e[32m\\]", "\\u"),
        fragment("\\[\\e[34m\\]", "\\h"),
        fragment("\\[\\e[33m\\]", "\\w"),
        fragment("\\[\\e[37m\\]", "\\t"),
    ];
    let prompt = assemble_prompt(&frags);
    assert_eq!(
        prompt,
        "\\[\\e[32m\\]\\u \\[\\e[34m\\]\\h \\[\\e[33m\\]\\w \\[\\e[37m\\]\\t \\$"
    );
}

#[test]
fn assemble_no_fragments_is_just_the_marker() {
    let frags: Vec<PromptFragment> = Vec::new();
    assert_eq!(assemble_prompt(&frags), "\\$");
}

#[test]
fn validate_accepts_plain_text() {
    assert!(validate_prompt("redalpha bluebeta \\$").is_ok());
}

#[test]
fn validate_accepts_empty() {
    assert!(validate_prompt("").is_ok());
}

#[test]
fn validate_accepts_printable_boundaries() {
    // 0x20 (space) and 0x7E (tilde) sit just outside the control ranges.
    assert!(validate_prompt(" ~").is_ok());
}

#[test]
fn validate_rejects_low_control_characters() {
    assert_eq!(
        validate_prompt("abc\u{01}def"),
        Err(PromptError::ControlCharacters)
    );
    assert_eq!(
        validate_prompt("tab\there"),
        Err(PromptError::ControlCharacters)
    );
    assert_eq!(
        validate_prompt("line\nbreak"),
        Err(PromptError::ControlCharacters)
    );
    assert_eq!(
        validate_prompt("\u{1F}"),
        Err(PromptError::ControlCharacters)
    );
}

#[test]
fn validate_rejects_delete_character() {
    assert_eq!(
        validate_prompt("abc\u{7F}"),
        Err(PromptError::ControlCharacters)
    );
}

#[test]
fn error_message_text() {
    let msg = PromptError::ControlCharacters.message();
    assert_eq!(msg, "The prompt contains invalid characters.");
}

#[test]
fn shell_from_name_recognizes_bash_and_fish() {
    assert_eq!(ShellTarget::from_name("bash"), Some(ShellTarget::Bash));
    assert_eq!(ShellTarget::from_name("fish"), Some(ShellTarget::Fish));
}

#[test]
fn shell_from_name_refuses_everything_else() {
    assert_eq!(ShellTarget::from_name("zsh"), None);
    assert_eq!(ShellTarget::from_name(""), None);
    assert_eq!(ShellTarget::from_name("Bash"), None);
    assert_eq!(ShellTarget::from_name("bashh"), None);
    assert_eq!(ShellTarget::from_name("fis"), None);
}

#[test]
fn config_rel_paths() {
    assert_eq!(ShellTarget::Bash.config_rel_path(), ".bashrc");
    assert_eq!(
        ShellTarget::Fish.config_rel_path(),
        ".config/fish/config.fish"
    );
}

#[test]
fn config_line_bash_format() {
    let line = config_line(ShellTarget::Bash, "red\\u \\$");
    assert_eq!(line, "PS1='red\\u \\$'");
}

#[test]
fn config_line_fish_format() {
    let line = config_line(ShellTarget::Fish, "red\\u \\$");
    assert_eq!(line, "set -gx fish_prompt 'red\\u \\$'");
}

#[test]
fn build_config_line_bash_end_to_end() {
    let frags = vec![
        fragment("red", "alpha"),
        fragment("blue", "beta"),
        fragment("green", "gamma"),
        fragment("yellow", "delta"),
    ];
    let line = build_config_line(ShellTarget::Bash, &frags).unwrap();
    assert_eq!(line, "PS1='redalpha bluebeta greengamma yellowdelta \\$'");
}

#[test]
fn build_config_line_fish_end_to_end() {
    let frags = vec![
        fragment("red", "alpha"),
        fragment("blue", "beta"),
        fragment("green", "gamma"),
        fragment("yellow", "delta"),
    ];
    let line = build_config_line(ShellTarget::Fish, &frags).unwrap();
    assert_eq!(
        line,
        "set -gx fish_prompt 'redalpha bluebeta greengamma yellowdelta \\$'"
    );
}

#[test]
fn build_config_line_rejects_control_character_in_any_fragment() {
    let frags = vec![
        fragment("red", "alpha"),
        fragment("blue", "be\u{07}ta"),
        fragment("green", "gamma"),
        fragment("yellow", "delta"),
    ];
    assert_eq!(
        build_config_line(ShellTarget::Bash, &frags),
        Err(PromptError::ControlCharacters)
    );
}

#[test]
fn identical_inputs_give_identical_lines() {
    let first = vec![
        fragment("red", "alpha"),
        fragment("blue", "beta"),
        fragment("green", "gamma"),
        fragment("yellow", "delta"),
    ];
    let second = vec![
        fragment("red", "alpha"),
        fragment("blue", "beta"),
        fragment("green", "gamma"),
        fragment("yellow", "delta"),
    ];
    let line1 = build_config_line(ShellTarget::Bash, &first).unwrap();
    let line2 = build_config_line(ShellTarget::Bash, &second).unwrap();
    assert_eq!(line1, line2);
}

#[test]
fn trimmed_strips_both_ends() {
    assert_eq!(trimmed("  hello  "), "hello");
    assert_eq!(trimmed("\tred\n"), "red");
    assert_eq!(trimmed("no-space"), "no-space");
    assert_eq!(trimmed("inner space kept "), "inner space kept");
}

#[test]
fn trimmed_handles_empty_and_all_whitespace() {
    assert_eq!(trimmed(""), "");
    assert_eq!(trimmed("   \t\r\n"), "");
}

#[test]
fn trimmed_matches_std_trim() {
    for s in [
        " a ", "\u{a0}x\u{a0}", "\u{3000}wide\u{3000}", "mid dle", "\n\nx", "x\t",
    ] {
        assert_eq!(trimmed(s), s.trim());
    }
}

#[test]
fn fragment_from_input_trims_both_lines() {
    let f = PromptFragment::from_input(" alpha \n", "\tred ");
    assert_eq!(f.name, "alpha");
    assert_eq!(f.color, "red");
}

#[test]
fn success_messages() {
    assert_eq!(
        ShellTarget::Bash.success_message(),
        "Bash prompt updated successfully."
    );
    assert_eq!(
        ShellTarget::Fish.success_message(),
        "Fish prompt updated successfully."
    );
}
