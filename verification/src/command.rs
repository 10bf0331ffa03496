use crate::errors::Error;
use crate::strutil::str_eq;
use vstd::prelude::*;

verus! {

/// Shells for which activation hooks and environment exports are rendered.
pub enum Shell {
    Bash,
    Zsh,
}

impl Clone for Shell {
    fn clone(&self) -> (r: Self)
        ensures
            r == *self,
    {
        match self {
            Shell::Bash => Shell::Bash,
            Shell::Zsh => Shell::Zsh,
        }
    }
}

impl Shell {
    /// Recognizes exactly the names `bash` and `zsh`.
    pub fn try_from(s: String) -> (r: Result<Shell, Error>)
        ensures
            s@ == "bash"@ ==> (r matches Ok(sh) && sh is Bash),
            s@ == "zsh"@ ==> (r matches Ok(sh) && sh is Zsh),
            s@ != "bash"@ && s@ != "zsh"@ ==> (r matches Err(e) && e is UnsupportedOperation),
    {
        proof {
            reveal_strlit("bash");
            reveal_strlit("zsh");
            assert("bash"@.len() == 4);
            assert("zsh"@.len() == 3);
            assert("bash"@ != "zsh"@);
        }
        if str_eq(s.as_str(), "bash") {
            Ok(Shell::Bash)
        } else if str_eq(s.as_str(), "zsh") {
            Ok(Shell::Zsh)
        } else {
            Err(Error::UnsupportedOperation)
        }
    }

    /// The shell's name, the inverse of [`Shell::try_from`].
    pub fn into_name(self) -> (r: String)
        ensures
            self is Bash ==> r@ == "bash"@,
            self is Zsh ==> r@ == "zsh"@,
    {
        match self {
            Shell::Bash => "bash".to_owned(),
            Shell::Zsh => "zsh".to_owned(),
        }
    }
}

/// Parameters of the command that prints shell hook scripts.
pub struct HookCmd {
    /// The shell to output hook scripts for.
    pub shell: String,
}

/// Parameters of the command that prints environment-variable exports for
/// the active environment.
pub struct EnvCmd {
    /// Which shell's syntax to print.
    pub shell: Shell,
}

/// Parameters of the command that activates an environment.
pub struct UseCmd {
    /// The alias of the environment to be activated.
    pub environment_alias: String,
}

/// Parameters of the command that reports the active environment.
pub struct WhichCmd {
    /// Display detailed information about the configured environment.
    pub detailed: bool,
}

/// Parameters of the command that renames an environment.
pub struct RenameCmd {
    /// The alias of the environment to be renamed.
    pub environment_alias: String,
    /// The new alias for it.
    pub new_alias: String,
}

/// Parameters of the command that re-pins an environment to the newest
/// installed release matching its requirement.
pub struct UpgradeCmd {
    /// The alias of the environment to be upgraded.
    pub environment_alias: String,
    /// The repository to fetch releases from, when installation is needed.
    pub repository_name: String,
}

/// Parameters of the command that prints information about an environment.
pub struct InfoCmd {
    /// The alias of the environment to print info about.
    pub environment_alias: String,
}

/// Parameters of the command that resets an environment's application
/// state.
pub struct ResetCmd {
    /// The alias of the environment to be reset.
    pub environment_alias: String,
    /// Disable resetting client and view-daemon state.
    pub leave_client_state: bool,
    /// Disable resetting full-node state.
    pub leave_node_state: bool,
}

} // verus!
