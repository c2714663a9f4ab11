//! Command action markers and their conversion into domain actions.

use vstd::prelude::*;

use crate::action::{Action, ActionModel};
use crate::commands::parse::ArgsError;

verus! {

/// The callable actions a command tree can mark its `Final` nodes with.
/// Captured arguments fill in the action's free places: `Hello`, `Bye` and
/// `GoodNight` greet the person named by the single captured argument.
#[derive(Debug, PartialEq, Eq)]
pub enum CommandAction {
    /// Reload the configuration file.
    ReloadConfig,
    /// Say the fixed message.
    Say(String),
    /// Greet the named person.
    Hello,
    /// Say goodbye to the named person.
    Bye,
    /// Wish the named person a good night.
    GoodNight,
}

impl Clone for CommandAction {
    /// A clone is equal to the original.
    fn clone(&self) -> (r: Self)
        ensures
            r == *self,
    {
        match self {
            CommandAction::ReloadConfig => CommandAction::ReloadConfig,
            CommandAction::Say(msg) => CommandAction::Say(msg.clone()),
            CommandAction::Hello => CommandAction::Hello,
            CommandAction::Bye => CommandAction::Bye,
            CommandAction::GoodNight => CommandAction::GoodNight,
        }
    }
}

/// The domain action a marker with the given captured arguments converts
/// into, or the arity error when their number does not fit the marker.
pub open spec fn spec_into_action(v: CommandAction, args: Seq<Seq<char>>) -> Result<
    ActionModel,
    ArgsError,
> {
    match v {
        CommandAction::ReloadConfig => Ok(ActionModel::ReloadConfig),
        CommandAction::Say(msg) => Ok(ActionModel::Say(msg@)),
        CommandAction::Hello => if args.len() < 1 {
            Err(ArgsError::NotEnough)
        } else if args.len() > 1 {
            Err(ArgsError::TooMany)
        } else {
            Ok(ActionModel::Say("Hi, "@ + args[0] + " ^^"@))
        },
        CommandAction::Bye => if args.len() < 1 {
            Err(ArgsError::NotEnough)
        } else if args.len() > 1 {
            Err(ArgsError::TooMany)
        } else {
            Ok(ActionModel::Say("cya, "@ + args[0] + "!"@))
        },
        CommandAction::GoodNight => if args.len() < 1 {
            Err(ArgsError::NotEnough)
        } else if args.len() > 1 {
            Err(ArgsError::TooMany)
        } else {
            Ok(ActionModel::Say("Good night, "@ + args[0] + " ^^"@))
        },
    }
}

impl CommandAction {
    /// Converts the marker and the captured arguments into a domain action,
    /// checking that the number of arguments fits the marker exactly.
    pub fn into_action(self, arguments: Vec<String>) -> (r: Result<Action, ArgsError>)
        ensures
            match spec_into_action(self, arguments.deep_view()) {
                Ok(am) => r matches Ok(a) && a@ == am,
                Err(e) => r matches Err(e2) && e2 == e,
            },
    {
        match self {
            CommandAction::ReloadConfig => Ok(Action::ReloadConfig),
            CommandAction::Say(msg) => Ok(Action::Say(msg)),
            CommandAction::Hello => {
                let mut arguments = arguments;
                match verify_args(&arguments, 1, true) {
                    Err(e) => Err(e),
                    Ok(()) => {
                        let name = arguments.pop().unwrap();
                        let mut msg = "Hi, ".to_owned();
                        msg.append(name.as_str());
                        msg.append(" ^^");
                        Ok(Action::Say(msg))
                    },
                }
            },
            CommandAction::Bye => {
                let mut arguments = arguments;
                match verify_args(&arguments, 1, true) {
                    Err(e) => Err(e),
                    Ok(()) => {
                        let name = arguments.pop().unwrap();
                        let mut msg = "cya, ".to_owned();
                        msg.append(name.as_str());
                        msg.append("!");
                        Ok(Action::Say(msg))
                    },
                }
            },
            CommandAction::GoodNight => {
                let mut arguments = arguments;
                match verify_args(&arguments, 1, true) {
                    Err(e) => Err(e),
                    Ok(()) => {
                        let name = arguments.pop().unwrap();
                        let mut msg = "Good night, ".to_owned();
                        msg.append(name.as_str());
                        msg.append(" ^^");
                        Ok(Action::Say(msg))
                    },
                }
            },
        }
    }
}

/// Checks that the argument count is at least `len`, and exactly `len` when
/// `exact` holds.
pub fn verify_args(args: &Vec<String>, len: usize, exact: bool) -> (r: Result<(), ArgsError>)
    ensures
        args@.len() < len ==> r == Err::<(), ArgsError>(ArgsError::NotEnough),
        exact && args@.len() > len ==> r == Err::<(), ArgsError>(ArgsError::TooMany),
        (args@.len() == len || (!exact && args@.len() >= len)) ==> r == Ok::<(), ArgsError>(()),
{
    if args.len() < len {
        Err(ArgsError::NotEnough)
    } else if exact && args.len() > len {
        Err(ArgsError::TooMany)
    } else {
        Ok(())
    }
}

} // verus!
