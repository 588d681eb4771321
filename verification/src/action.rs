//! Typed outbound actions and the argument conversion step of the
//! interpreter: a resolved command plus its raw argument tokens either
//! yields exactly one action, or nothing at all when a required argument is
//! missing or malformed.

use crate::commands::UserCommand;
use crate::numbers::digits_val;
use crate::numbers::is_nat_token;
use crate::numbers::nat_digits;
use crate::numbers::parse_natural;
use vstd::prelude::*;

verus! {

/// The single outbound action produced by a submitted command, to be
/// executed by the host application.
#[derive(Debug, Clone, PartialEq, Eq)]
pub enum Action {
    /// Let the user pick the metrics directory.
    SetMetricsDirectory,
    /// Re-import metrics and reload layouts and cached data.
    Reload,
    /// Let the user pick a corpus file to import.
    ImportNewCorpus,
    /// Show the details of the current notification.
    ViewNotification,
    /// Swap the two named keys in the current layout.
    SwapKeys(char, char),
    /// Set the displayed statistic precision.
    SetPrecision(u32),
    /// Report the corpus frequency of the given n-grams.
    NgramFrequency(Vec<String>),
    /// Save the current layout under the given name.
    SaveLayout(String),
}

/// Exactly which action (if any) a resolved command with the given raw
/// argument tokens converts to.  Argument conversion per declared kind: a
/// `Key` argument is the first character of a non-empty token, a
/// `NaturalNum` argument must parse as a non-negative integer, and a
/// `FreeText` argument is the token verbatim.  A command whose required
/// arguments are not all present yields no action.
pub open spec fn command_action_ok(cmd: UserCommand, args: Seq<Seq<char>>, r: Option<
    Action,
>) -> bool {
    match cmd {
        UserCommand::SetMetricsDirectory => r == Some(Action::SetMetricsDirectory),
        UserCommand::Reload => r == Some(Action::Reload),
        UserCommand::ImportCorpus => r == Some(Action::ImportNewCorpus),
        UserCommand::ViewNotification => r == Some(Action::ViewNotification),
        UserCommand::Swap => if args.len() >= 2 && args[0].len() > 0 && args[1].len() > 0 {
            r == Some(Action::SwapKeys(args[0][0], args[1][0]))
        } else {
            r is None
        },
        UserCommand::Precision => if args.len() >= 1 && is_nat_token(args[0]) {
            r == Some(Action::SetPrecision(digits_val(nat_digits(args[0])) as u32))
        } else {
            r is None
        },
        UserCommand::NgramFrequency => match r {
            Some(Action::NgramFrequency(v)) => v.deep_view() == args,
            _ => false,
        },
        UserCommand::SaveLayout => if args.len() >= 1 {
            match r {
                Some(Action::SaveLayout(s)) => s@ == args[0],
                _ => false,
            }
        } else {
            r is None
        },
    }
}

/// Converts and validates the raw argument tokens of a resolved command,
/// producing its outbound action, or nothing when a required argument is
/// missing or does not convert.
pub fn command_action(cmd: &UserCommand, args: &Vec<String>) -> (r: Option<Action>)
    ensures
        command_action_ok(*cmd, args.deep_view(), r),
{
    match *cmd {
        UserCommand::SetMetricsDirectory => Some(Action::SetMetricsDirectory),
        UserCommand::Reload => Some(Action::Reload),
        UserCommand::ImportCorpus => Some(Action::ImportNewCorpus),
        UserCommand::ViewNotification => Some(Action::ViewNotification),
        UserCommand::Swap => {
            if args.len() >= 2 {
                let a: &String = &args[0];
                let b: &String = &args[1];
                if a.as_str().unicode_len() > 0 && b.as_str().unicode_len() > 0 {
                    Some(Action::SwapKeys(a.as_str().get_char(0), b.as_str().get_char(0)))
                } else {
                    None
                }
            } else {
                None
            }
        },
        UserCommand::Precision => {
            if args.len() >= 1 {
                match parse_natural(args[0].as_str()) {
                    Some(n) => Some(Action::SetPrecision(n)),
                    None => None,
                }
            } else {
                None
            }
        },
        UserCommand::NgramFrequency => {
            let mut v: Vec<String> = Vec::new();
            let mut k: usize = 0;
            while k < args.len()
                invariant
                    k <= args.len(),
                    v@.len() == k,
                    forall|m: int| 0 <= m < k ==> v@[m] == args@[m],
                decreases args.len() - k,
            {
                v.push(args[k].clone());
                k += 1;
            }
            proof {
                assert(v.deep_view() =~= args.deep_view());
            }
            Some(Action::NgramFrequency(v))
        },
        UserCommand::SaveLayout => {
            if args.len() >= 1 {
                Some(Action::SaveLayout(args[0].clone()))
            } else {
                None
            }
        },
    }
}

} // verus!
