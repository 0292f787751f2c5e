//! Settings of the application.

use vstd::prelude::*;
use vstd::string::*;

verus! {

/// What to print when the program is left.
#[derive(Debug, Clone, Copy, PartialEq, Eq, Structural)]
pub enum PrintOnExit {
    /// Let the user choose.
    Ask,
    Nothing,
    Pipeline,
    Output,
}

/// The settings that the application depends on. Names of programs are kept as the bytes that the
/// operating system knows them by.
pub struct Options {
    /// The commands to start with.
    pub commands: Vec<String>,
    /// Whether each of the commands is a pipeline that is to be split into its commands.
    pub parse_commands: bool,
    /// Whether the commands are executed right away.
    pub execute_on_start: bool,
    /// Whether commands are shown with syntax highlighting.
    pub syntax_highlight: bool,
    /// What to print when the program is left.
    pub print_on_exit: PrintOnExit,
    /// The shell to use.
    pub shell: Option<Vec<u8>>,
    /// The pager to use.
    pub pager: Option<Vec<u8>>,
    /// The editor to use.
    pub editor: Option<Vec<u8>>,
}

/// The program to use: the given one, or else the one that the environment names, or else the
/// default.
pub open spec fn resolved(
    given: Option<Vec<u8>>,
    environment: Option<Vec<u8>>,
    default: Seq<u8>,
) -> Seq<u8> {
    match (given, environment) {
        (Some(program), _) => program@,
        (None, Some(program)) => program@,
        (None, None) => default,
    }
}

/// Finds the program to use.
fn resolve(given: &Option<Vec<u8>>, environment: Option<Vec<u8>>, default: &str) -> (r: Vec<u8>)
    ensures
        r@ == resolved(*given, environment, default.spec_bytes()),
{
    match given {
        Some(program) => {
            let copy = program.clone();
            assert(copy@ =~= program@);
            copy
        },
        None => match environment {
            Some(program) => program,
            None => default.as_bytes_vec(),
        },
    }
}

impl Options {
    /// The shell to use: the one of the settings, or else the one that the environment names in
    /// `SHELL`, or else `/bin/sh`.
    pub fn resolve_shell(&self, environment: Option<Vec<u8>>) -> (r: Vec<u8>)
        ensures
            r@ == resolved(self.shell, environment, "/bin/sh".spec_bytes()),
    {
        resolve(&self.shell, environment, "/bin/sh")
    }

    /// The pager to use: the one of the settings, or else the one that the environment names in
    /// `PAGER`, or else `less`.
    pub fn resolve_pager(&self, environment: Option<Vec<u8>>) -> (r: Vec<u8>)
        ensures
            r@ == resolved(self.pager, environment, "less".spec_bytes()),
    {
        resolve(&self.pager, environment, "less")
    }

    /// The editor to use: the one of the settings, or else the one that the environment names in
    /// `EDITOR`, or else `vi`.
    pub fn resolve_editor(&self, environment: Option<Vec<u8>>) -> (r: Vec<u8>)
        ensures
            r@ == resolved(self.editor, environment, "vi".spec_bytes()),
    {
        resolve(&self.editor, environment, "vi")
    }
}

/// A program of the settings is used whatever the environment names. Without one the environment
/// decides, and the default is used only where it names none.
pub proof fn law_settings_come_first(
    given: Vec<u8>,
    environment: Option<Vec<u8>>,
    named: Vec<u8>,
    default: Seq<u8>,
)
    ensures
        resolved(Some(given), environment, default) == given@,
        resolved(None, Some(named), default) == named@,
        resolved(None, None, default) == default,
{
}

} // verus!
