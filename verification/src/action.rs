//! What the library asks its caller to do on the server.

use vstd::prelude::*;

verus! {

/// One step for the caller to carry out. A plan is a vector of these, to be
/// carried out in order; a step that fails is logged and the plan goes on.
#[derive(Clone, Debug, PartialEq, Eq)]
pub enum Action {
    /// Take the triggering reaction off the message again.
    RemoveReaction,
    /// Give the member the role of this name, creating it where it is missing.
    AssignRole { name: String },
    /// Take the role of this name from the member, where they hold it.
    ClearRole { name: String },
    /// Open the private conversation with this prompt.
    Prompt { text: String },
    /// Answer the member's private message with this text.
    Reply { text: String },
}

/// An [`Action`] with its strings as plain text.
pub ghost enum ActionView {
    RemoveReaction,
    AssignRole { name: Seq<char> },
    ClearRole { name: Seq<char> },
    Prompt { text: Seq<char> },
    Reply { text: Seq<char> },
}

impl View for Action {
    type V = ActionView;

    open spec fn view(&self) -> ActionView {
        match self {
            Action::RemoveReaction => ActionView::RemoveReaction,
            Action::AssignRole { name } => ActionView::AssignRole { name: name@ },
            Action::ClearRole { name } => ActionView::ClearRole { name: name@ },
            Action::Prompt { text } => ActionView::Prompt { text: text@ },
            Action::Reply { text } => ActionView::Reply { text: text@ },
        }
    }
}

/// The steps of a plan, strings as plain text.
pub open spec fn action_views(actions: Seq<Action>) -> Seq<ActionView> {
    Seq::new(actions.len(), |i: int| actions[i]@)
}

} // verus!
