//! Domain actions: what the model asks of its host, and their mathematical
//! model over character sequences.

use vstd::prelude::*;

use crate::commands::authority::AuthorityLevel;
use crate::commands::{spec_commands_dispatch, CommandCall};
use crate::model::Model;

verus! {

/// An action the model decides on; the host executes it.
#[derive(Debug, Clone, PartialEq, Eq)]
pub enum Action {
    /// Evaluate a message against the command registry.
    HandleCommand { command: String, authority: AuthorityLevel },
    /// Reload the configuration file.
    ReloadConfig,
    /// Say the message in chat.
    Say(String),
}

/// An outward side effect for the host application to perform.
#[derive(Debug, Clone, PartialEq, Eq)]
pub enum AppAction {
    /// Send a message to the chat.
    Say { message: String },
    /// Reload the configuration from disk and hand it back to the model.
    ReloadConfig,
}

/// The model-level value of an [`Action`].
pub enum ActionModel {
    HandleCommand { command: Seq<char>, authority: AuthorityLevel },
    ReloadConfig,
    Say(Seq<char>),
}

/// The model-level value of an [`AppAction`].
pub enum AppActionModel {
    Say(Seq<char>),
    ReloadConfig,
}

impl View for Action {
    type V = ActionModel;

    open spec fn view(&self) -> ActionModel {
        match self {
            Action::HandleCommand { command, authority } => ActionModel::HandleCommand {
                command: command@,
                authority: *authority,
            },
            Action::ReloadConfig => ActionModel::ReloadConfig,
            Action::Say(message) => ActionModel::Say(message@),
        }
    }
}

impl View for AppAction {
    type V = AppActionModel;

    open spec fn view(&self) -> AppActionModel {
        match self {
            AppAction::Say { message } => AppActionModel::Say(message@),
            AppAction::ReloadConfig => AppActionModel::ReloadConfig,
        }
    }
}

/// The models of a list of domain actions.
pub open spec fn action_models(v: Seq<Action>) -> Seq<ActionModel> {
    v.map_values(|a: Action| a@)
}

/// The models of a list of host actions.
pub open spec fn app_models(v: Seq<AppAction>) -> Seq<AppActionModel> {
    v.map_values(|a: AppAction| a@)
}

/// The host actions one domain action asks for. A `HandleCommand` action is
/// not itself a host action: executing it dispatches the command and yields
/// the host actions of whatever matched; the dispatch layer never produces
/// one.
pub open spec fn apps_of_action(a: ActionModel) -> Seq<AppActionModel> {
    match a {
        ActionModel::ReloadConfig => seq![AppActionModel::ReloadConfig],
        ActionModel::Say(m) => seq![AppActionModel::Say(m)],
        ActionModel::HandleCommand { .. } => Seq::empty(),
    }
}

/// The host actions a list of domain actions asks for, in order.
pub open spec fn apps_of_actions(acts: Seq<ActionModel>) -> Seq<AppActionModel>
    decreases acts.len(),
{
    if acts.len() == 0 {
        Seq::empty()
    } else {
        apps_of_action(acts[0]) + apps_of_actions(acts.drop_first())
    }
}

/// Host actions extend one domain action at a time at the back.
pub proof fn lemma_apps_of_push(acts: Seq<ActionModel>, a: ActionModel)
    ensures
        apps_of_actions(acts.push(a)) == apps_of_actions(acts) + apps_of_action(a),
    decreases acts.len(),
{
    if acts.len() == 0 {
        assert(acts.push(a)[0] == a);
        let tail = acts.push(a).drop_first();
        assert(tail =~= Seq::<ActionModel>::empty());
        assert(apps_of_actions(tail) =~= Seq::<AppActionModel>::empty());
        assert(apps_of_actions(acts.push(a)) == apps_of_action(a) + apps_of_actions(tail));
        assert(apps_of_actions(acts.push(a)) =~= apps_of_action(a));
        assert(apps_of_actions(acts) =~= Seq::<AppActionModel>::empty());
        assert(apps_of_actions(acts) + apps_of_action(a) =~= apps_of_action(a));
    } else {
        assert(acts.push(a)[0] == acts[0]);
        assert(acts.push(a).drop_first() =~= acts.drop_first().push(a));
        lemma_apps_of_push(acts.drop_first(), a);
        assert(apps_of_actions(acts.push(a)) =~= apps_of_actions(acts) + apps_of_action(a));
    }
}

impl Model {
    /// Executes one domain action: a command call is dispatched against the
    /// registry, while the other actions are handed to the host unchanged
    /// and leave the model as it is.
    pub fn execute(&mut self, action: Action) -> (r: Vec<AppAction>)
        ensures
            match action@ {
                ActionModel::HandleCommand { command, authority } => {
                    &&& final(self).running == old(self).running
                    &&& final(self).chat == old(self).chat
                    &&& final(self).commands@ == spec_commands_dispatch(
                        old(self).commands@,
                        command,
                        authority,
                    ).0
                    &&& app_models(r@) == apps_of_actions(
                        spec_commands_dispatch(old(self).commands@, command, authority).1,
                    )
                },
                ActionModel::ReloadConfig => *final(self) == *old(self) && app_models(r@)
                    =~= seq![AppActionModel::ReloadConfig],
                ActionModel::Say(m) => *final(self) == *old(self) && app_models(r@)
                    =~= seq![AppActionModel::Say(m)],
            },
        decreases (if action is HandleCommand {
            3int
        } else {
            1int
        }),
    {
        match action {
            Action::HandleCommand { command, authority } => {
                let call = CommandCall { message: command.as_str(), authority };
                self.handle_command_call(call)
            },
            Action::ReloadConfig => {
                let mut v: Vec<AppAction> = Vec::new();
                v.push(AppAction::ReloadConfig);
                proof {
                    assert(app_models(v@) =~= seq![AppActionModel::ReloadConfig]);
                }
                v
            },
            Action::Say(message) => {
                let ghost m = message@;
                let mut v: Vec<AppAction> = Vec::new();
                v.push(AppAction::Say { message });
                proof {
                    assert(app_models(v@) =~= seq![AppActionModel::Say(m)]);
                }
                v
            },
        }
    }
}

} // verus!
