//! Rendering the configuration line for the chosen shell.

use vstd::prelude::*;
use crate::prompt::{
    PromptError, PromptFragment, assemble_prompt, assembled_prompt, prompt_ok, validate_prompt,
};
use crate::shell::ShellTarget;

verus! {

/// The single line appended to the shell's startup file: the shell-specific
/// assignment with the prompt between single quotes.
pub open spec fn config_line_view(shell: ShellTarget, prompt: Seq<char>) -> Seq<char> {
    match shell {
        ShellTarget::Bash => "PS1='"@ + prompt + "'"@,
        ShellTarget::Fish => "set -gx fish_prompt '"@ + prompt + "'"@,
    }
}

/// Renders the configuration line for `shell` around `prompt`. Single quotes
/// inside the prompt are not escaped.
pub fn config_line(shell: ShellTarget, prompt: &str) -> (r: String)
    ensures
        r@ == config_line_view(shell, prompt@),
{
    match shell {
        ShellTarget::Bash => {
            let mut line = String::from_str("PS1='");
            line.append(prompt);
            line.append("'");
            line
        },
        ShellTarget::Fish => {
            let mut line = String::from_str("set -gx fish_prompt '");
            line.append(prompt);
            line.append("'");
            line
        },
    }
}

/// Assembles the fragments, validates the result, and renders the
/// configuration line for `shell`. Succeeds exactly when the assembled
/// prompt is free of ASCII control characters; on failure nothing is
/// rendered and the control-character error is reported.
pub fn build_config_line(shell: ShellTarget, frags: &Vec<PromptFragment>) -> (r: Result<
    String,
    PromptError,
>)
    ensures
        prompt_ok(assembled_prompt(frags@)) ==> (r matches Ok(line) && line@ == config_line_view(
            shell,
            assembled_prompt(frags@),
        )),
        !prompt_ok(assembled_prompt(frags@)) ==> r == Result::<String, PromptError>::Err(
            PromptError::ControlCharacters,
        ),
{
    let prompt = assemble_prompt(frags);
    match validate_prompt(prompt.as_str()) {
        Ok(()) => Ok(config_line(shell, prompt.as_str())),
        Err(e) => Err(e),
    }
}

proof fn lemma_literals_ok()
    ensures
        prompt_ok("PS1='"@),
        prompt_ok("set -gx fish_prompt '"@),
        prompt_ok("'"@),
{
    reveal_strlit("PS1='");
    reveal_strlit("set -gx fish_prompt '");
    reveal_strlit("'");
}

/// An accepted prompt yields a configuration line that itself holds no
/// control character — in particular no newline, so a successful run adds
/// exactly one line to the startup file.
pub proof fn lemma_config_line_single_line(shell: ShellTarget, p: Seq<char>)
    requires
        prompt_ok(p),
    ensures
        prompt_ok(config_line_view(shell, p)),
        forall|i: int|
            0 <= i < config_line_view(shell, p).len() ==> (#[trigger] config_line_view(shell, p)[i])
                != '\n',
{
    lemma_literals_ok();
    match shell {
        ShellTarget::Bash => {
            crate::prompt::lemma_prompt_ok_concat("PS1='"@, p);
            crate::prompt::lemma_prompt_ok_concat("PS1='"@ + p, "'"@);
        },
        ShellTarget::Fish => {
            crate::prompt::lemma_prompt_ok_concat("set -gx fish_prompt '"@, p);
            crate::prompt::lemma_prompt_ok_concat("set -gx fish_prompt '"@ + p, "'"@);
        },
    }
}

} // verus!
