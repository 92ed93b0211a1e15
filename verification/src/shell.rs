//! The target shell and its startup-file locations.

use vstd::prelude::*;

verus! {

/// The shell whose startup file receives the generated prompt line.
#[derive(Clone, Copy, PartialEq, Eq, Structural, Debug)]
pub enum ShellTarget {
    Bash,
    Fish,
}

impl ShellTarget {
    /// Path of the shell's startup file, relative to the home directory.
    pub open spec fn rel_path_view(self) -> Seq<char> {
        match self {
            ShellTarget::Bash => ".bashrc"@,
            ShellTarget::Fish => ".config/fish/config.fish"@,
        }
    }

    /// Selects the target that a command-line value names. Exactly the
    /// values `bash` and `fish` are recognized; anything else is refused.
    pub fn from_name(name: &str) -> (r: Option<ShellTarget>)
        ensures
            name@ == "bash"@ ==> r == Some(ShellTarget::Bash),
            name@ == "fish"@ ==> r == Some(ShellTarget::Fish),
            name@ != "bash"@ && name@ != "fish"@ ==> r is None,
    {
        proof {
            reveal_strlit("bash");
            reveal_strlit("fish");
        }
        let n = name.unicode_len();
        if n != 4 {
            return None;
        }
        let c0 = name.get_char(0);
        let c1 = name.get_char(1);
        let c2 = name.get_char(2);
        let c3 = name.get_char(3);
        if c0 == 'b' && c1 == 'a' && c2 == 's' && c3 == 'h' {
            assert(name@ =~= "bash"@);
            Some(ShellTarget::Bash)
        } else if c0 == 'f' && c1 == 'i' && c2 == 's' && c3 == 'h' {
            assert(name@ =~= "fish"@);
            Some(ShellTarget::Fish)
        } else {
            None
        }
    }

    /// Startup file to append to: `.bashrc`, or fish's `config.fish`,
    /// relative to the home directory.
    pub fn config_rel_path(self) -> (r: String)
        ensures
            r@ == self.rel_path_view(),
    {
        match self {
            ShellTarget::Bash => String::from_str(".bashrc"),
            ShellTarget::Fish => String::from_str(".config/fish/config.fish"),
        }
    }

    /// Message reported after a successful update of this shell's prompt.
    pub fn success_message(self) -> (r: String)
        ensures
            self == ShellTarget::Bash ==> r@ == "Bash prompt updated successfully."@,
            self == ShellTarget::Fish ==> r@ == "Fish prompt updated successfully."@,
    {
        match self {
            ShellTarget::Bash => String::from_str("Bash prompt updated successfully."),
            ShellTarget::Fish => String::from_str("Fish prompt updated successfully."),
        }
    }
}

} // verus!
