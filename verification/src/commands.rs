//! The static command registry: the closed set of user commands, each with
//! its name, its ordered list of typed argument slots, and its priority
//! flag.  The registry is configuration data; nothing here mutates it.

use vstd::prelude::*;

verus! {

/// The kind of one argument slot of a command; it governs how a raw
/// whitespace-delimited token is converted and validated.
#[derive(Debug, Clone, Copy, PartialEq, Eq, Structural)]
pub enum UserArg {
    /// A single character identifying a layout key.
    Key,
    /// A non-negative integer.
    NaturalNum,
    /// An arbitrary token, taken verbatim.
    FreeText,
}

/// The statically enumerated set of user commands.
#[derive(Debug, Clone, Copy, PartialEq, Eq, Structural)]
pub enum UserCommand {
    SetMetricsDirectory,
    Reload,
    ImportCorpus,
    ViewNotification,
    Swap,
    Precision,
    NgramFrequency,
    SaveLayout,
}

impl UserCommand {
    /// The declared argument slots of the command.
    pub open spec fn args_spec(self) -> Seq<UserArg> {
        match self {
            UserCommand::SetMetricsDirectory => seq![],
            UserCommand::Reload => seq![],
            UserCommand::ImportCorpus => seq![],
            UserCommand::ViewNotification => seq![],
            UserCommand::Swap => seq![UserArg::Key, UserArg::Key],
            UserCommand::Precision => seq![UserArg::NaturalNum],
            UserCommand::NgramFrequency => seq![UserArg::FreeText, UserArg::FreeText],
            UserCommand::SaveLayout => seq![UserArg::FreeText],
        }
    }

    /// The ordered argument slots of the command, as executable data.
    pub fn args(self) -> (r: Vec<UserArg>)
        ensures
            r@ == self.args_spec(),
    {
        let r = match self {
            UserCommand::SetMetricsDirectory => vec![],
            UserCommand::Reload => vec![],
            UserCommand::ImportCorpus => vec![],
            UserCommand::ViewNotification => vec![],
            UserCommand::Swap => vec![UserArg::Key, UserArg::Key],
            UserCommand::Precision => vec![UserArg::NaturalNum],
            UserCommand::NgramFrequency => vec![UserArg::FreeText, UserArg::FreeText],
            UserCommand::SaveLayout => vec![UserArg::FreeText],
        };
        proof {
            assert(r@ =~= self.args_spec());
        }
        r
    }

    /// Whether the command's own argument values (rather than command
    /// names) should steer autocompletion.
    pub open spec fn is_priority_spec(self) -> bool {
        self is Swap
    }

    /// Priority commands win autocompletion over the plain common-prefix
    /// rule whenever they are among the matches.
    pub fn is_priority(self) -> (r: bool)
        ensures
            r == self.is_priority_spec(),
    {
        matches!(self, UserCommand::Swap)
    }

    /// The canonical display name of the command.
    pub open spec fn name_spec(self) -> Seq<char> {
        match self {
            UserCommand::SetMetricsDirectory => "set-metrics-directory"@,
            UserCommand::Reload => "reload"@,
            UserCommand::ImportCorpus => "import-corpus"@,
            UserCommand::ViewNotification => "view-notification"@,
            UserCommand::Swap => "swap"@,
            UserCommand::Precision => "precision"@,
            UserCommand::NgramFrequency => "ngram-frequency"@,
            UserCommand::SaveLayout => "save-layout"@,
        }
    }

    /// The stable, lowercase, hyphenated token used for display and
    /// matching.
    pub fn name(self) -> (r: String)
        ensures
            r@ == self.name_spec(),
    {
        let s: &str = match self {
            UserCommand::SetMetricsDirectory => "set-metrics-directory",
            UserCommand::Reload => "reload",
            UserCommand::ImportCorpus => "import-corpus",
            UserCommand::ViewNotification => "view-notification",
            UserCommand::Swap => "swap",
            UserCommand::Precision => "precision",
            UserCommand::NgramFrequency => "ngram-frequency",
            UserCommand::SaveLayout => "save-layout",
        };
        s.to_owned()
    }
}

/// The full registry, in registration order.  Completion ties are broken by
/// this order.
pub open spec fn registry_order() -> Seq<UserCommand> {
    seq![
        UserCommand::SetMetricsDirectory,
        UserCommand::Reload,
        UserCommand::ImportCorpus,
        UserCommand::ViewNotification,
        UserCommand::Swap,
        UserCommand::Precision,
        UserCommand::NgramFrequency,
        UserCommand::SaveLayout,
    ]
}

/// The ordered list of all commands, as executable data.
pub fn all_commands() -> (r: Vec<UserCommand>)
    ensures
        r@ == registry_order(),
{
    let r = vec![
        UserCommand::SetMetricsDirectory,
        UserCommand::Reload,
        UserCommand::ImportCorpus,
        UserCommand::ViewNotification,
        UserCommand::Swap,
        UserCommand::Precision,
        UserCommand::NgramFrequency,
        UserCommand::SaveLayout,
    ];
    proof {
        assert(r@ =~= registry_order());
    }
    r
}

/// The first command in `cmds` whose name is exactly `name`, if any.
pub open spec fn find_command(cmds: Seq<UserCommand>, name: Seq<char>) -> Option<UserCommand>
    decreases cmds.len(),
{
    if cmds.len() == 0 {
        None
    } else if cmds[0].name_spec() == name {
        Some(cmds[0])
    } else {
        find_command(cmds.skip(1), name)
    }
}

} // verus!
