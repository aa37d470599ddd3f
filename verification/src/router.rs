//! The classification router: a reaction on the welcome message starts one
//! of three onboarding chains.

use vstd::prelude::*;
use crate::action::{action_views, Action, ActionView};
use crate::roles::{
    classification_of, Classification, ALUMNI_NAME, FACULTY_NAME, NOVICE_ROCKETEER_NAME,
};
use crate::text::chars_of;

verus! {

/// The reaction of current students: the school building.
pub const STUDENT_EMOJI: char = '\u{1F3EB}';

/// The reaction of alumni: the graduation cap.
pub const ALUMNI_EMOJI: char = '\u{1F393}';

/// The reaction of faculty: the office building.
pub const FACULTY_EMOJI: char = '\u{1F3E2}';

/// The prompt that opens the student chain.
pub const STUDENT_PROMPT: &'static str =
    "Welcome again! Please respond with your expected year of graduation, formatted as \"YYYY\".";

/// The prompt that opens the alumni chain.
pub const ALUMNI_PROMPT: &'static str =
    "Welcome again! Please respond with your year of graduation & level of rocketry certification, formatted as \"YYYY L*\". Example: \"2019 L2\". If you do not have a certification, please just respond with your year.";

/// The prompt that opens the faculty chain.
pub const FACULTY_PROMPT: &'static str =
    "Welcome again! Please respond with your level of rocketry certification, which can be: None, L1, L2, or L3";

/// One of the three fixed onboarding scripts.
#[derive(Clone, Copy, Debug, PartialEq, Eq, Structural)]
pub enum Chain {
    Student,
    Alumni,
    Faculty,
}

impl Chain {
    /// The marker role that the chain gives.
    pub open spec fn marker(self) -> Seq<char> {
        match self {
            Chain::Student => NOVICE_ROCKETEER_NAME@,
            Chain::Alumni => ALUMNI_NAME@,
            Chain::Faculty => FACULTY_NAME@,
        }
    }

    /// The first of the two marker roles that the chain takes away.
    pub open spec fn first_cleared(self) -> Seq<char> {
        match self {
            Chain::Student => ALUMNI_NAME@,
            Chain::Alumni => NOVICE_ROCKETEER_NAME@,
            Chain::Faculty => NOVICE_ROCKETEER_NAME@,
        }
    }

    /// The second of the two marker roles that the chain takes away.
    pub open spec fn second_cleared(self) -> Seq<char> {
        match self {
            Chain::Student => FACULTY_NAME@,
            Chain::Alumni => FACULTY_NAME@,
            Chain::Faculty => ALUMNI_NAME@,
        }
    }

    /// The prompt that the chain sends.
    pub open spec fn prompt(self) -> Seq<char> {
        match self {
            Chain::Student => STUDENT_PROMPT@,
            Chain::Alumni => ALUMNI_PROMPT@,
            Chain::Faculty => FACULTY_PROMPT@,
        }
    }

    /// The classification that the chain leaves the member with.
    pub open spec fn target(self) -> Classification {
        match self {
            Chain::Student => Classification::Novice,
            Chain::Alumni => Classification::Alumni,
            Chain::Faculty => Classification::Faculty,
        }
    }

    /// The steps of the chain, in order.
    pub open spec fn steps(self) -> Seq<ActionView> {
        seq![
            ActionView::AssignRole { name: self.marker() },
            ActionView::ClearRole { name: self.first_cleared() },
            ActionView::ClearRole { name: self.second_cleared() },
            ActionView::Prompt { text: self.prompt() },
        ]
    }

    /// The reaction that starts the chain.
    pub fn emoji(&self) -> (e: char)
        ensures
            chain_of(seq![e]) == Some(*self),
    {
        let e: char = match self {
            Chain::Student => STUDENT_EMOJI,
            Chain::Alumni => ALUMNI_EMOJI,
            Chain::Faculty => FACULTY_EMOJI,
        };
        assert(seq![e][0] == e);
        e
    }
}

/// The chain that a reaction stands for, if any: the emoji must be exactly
/// one of the three characters.
pub open spec fn chain_of(emoji: Seq<char>) -> Option<Chain> {
    if emoji == seq![STUDENT_EMOJI] {
        Some(Chain::Student)
    } else if emoji == seq![ALUMNI_EMOJI] {
        Some(Chain::Alumni)
    } else if emoji == seq![FACULTY_EMOJI] {
        Some(Chain::Faculty)
    } else {
        None
    }
}

/// What is due on a reaction. Only a reaction on one of the bot's own
/// messages by somebody else counts: it is taken off again, and where its
/// emoji stands for a chain the chain follows.
pub open spec fn reaction_plan(message_is_own: bool, reactor_is_self: bool, emoji: Seq<char>) -> Seq<
    ActionView,
> {
    if message_is_own && !reactor_is_self {
        match chain_of(emoji) {
            Some(chain) => seq![ActionView::RemoveReaction] + chain.steps(),
            None => seq![ActionView::RemoveReaction],
        }
    } else {
        Seq::empty()
    }
}

/// Maps a reaction emoji to its chain.
pub fn chain_for_emoji(emoji: &str) -> (chain: Option<Chain>)
    ensures
        chain == chain_of(emoji@),
{
    let chars = chars_of(emoji);
    if chars.len() != 1 {
        return None;
    }
    let c: char = chars[0];
    assert(chars@ == seq![c]);
    if c == STUDENT_EMOJI {
        Some(Chain::Student)
    } else if c == ALUMNI_EMOJI {
        Some(Chain::Alumni)
    } else if c == FACULTY_EMOJI {
        Some(Chain::Faculty)
    } else {
        assert(seq![c][0] == c);
        None
    }
}

/// The steps of a chain: give its marker role, take the other two markers
/// away, send its prompt.
pub fn start_chain(chain: Chain) -> (actions: Vec<Action>)
    ensures
        action_views(actions@) == chain.steps(),
{
    let mut actions: Vec<Action> = Vec::new();
    match chain {
        Chain::Student => {
            actions.push(Action::AssignRole { name: NOVICE_ROCKETEER_NAME.to_owned() });
            actions.push(Action::ClearRole { name: ALUMNI_NAME.to_owned() });
            actions.push(Action::ClearRole { name: FACULTY_NAME.to_owned() });
            actions.push(Action::Prompt { text: STUDENT_PROMPT.to_owned() });
        },
        Chain::Alumni => {
            actions.push(Action::AssignRole { name: ALUMNI_NAME.to_owned() });
            actions.push(Action::ClearRole { name: NOVICE_ROCKETEER_NAME.to_owned() });
            actions.push(Action::ClearRole { name: FACULTY_NAME.to_owned() });
            actions.push(Action::Prompt { text: ALUMNI_PROMPT.to_owned() });
        },
        Chain::Faculty => {
            actions.push(Action::AssignRole { name: FACULTY_NAME.to_owned() });
            actions.push(Action::ClearRole { name: NOVICE_ROCKETEER_NAME.to_owned() });
            actions.push(Action::ClearRole { name: ALUMNI_NAME.to_owned() });
            actions.push(Action::Prompt { text: FACULTY_PROMPT.to_owned() });
        },
    }
    assert(action_views(actions@) =~= chain.steps());
    actions
}

/// Decides what is due on a reaction.
///
/// `message_is_own` says whether the message reacted to was written by the
/// bot, `reactor_is_self` whether the bot itself reacted.
pub fn route_reaction(message_is_own: bool, reactor_is_self: bool, emoji: &str) -> (actions: Vec<
    Action,
>)
    ensures
        action_views(actions@) == reaction_plan(message_is_own, reactor_is_self, emoji@),
{
    if !message_is_own || reactor_is_self {
        let none: Vec<Action> = Vec::new();
        assert(action_views(none@) =~= Seq::<ActionView>::empty());
        return none;
    }
    let mut actions: Vec<Action> = Vec::new();
    actions.push(Action::RemoveReaction);
    match chain_for_emoji(emoji) {
        Some(chain) => {
            let mut steps = start_chain(chain);
            let ghost head = actions@;
            let ghost tail = steps@;
            actions.append(&mut steps);
            assert(action_views(actions@) =~= seq![ActionView::RemoveReaction] + chain.steps()) by {
                assert(actions@ == head + tail);
                assert(action_views(tail) == chain.steps());
                assert forall|i: int| 0 <= i < actions@.len() implies action_views(actions@)[i] == (
                seq![ActionView::RemoveReaction] + chain.steps())[i] by {
                    if i >= 1 {
                        assert(actions@[i] == tail[i - 1]);
                        assert(action_views(tail)[i - 1] == tail[i - 1]@);
                    }
                }
            }
        },
        None => {
            assert(action_views(actions@) =~= seq![ActionView::RemoveReaction]);
        },
    }
    actions
}

/// The three marker names differ from one another.
pub proof fn marker_names_differ()
    ensures
        NOVICE_ROCKETEER_NAME@ != ALUMNI_NAME@,
        NOVICE_ROCKETEER_NAME@ != FACULTY_NAME@,
        ALUMNI_NAME@ != FACULTY_NAME@,
{
    reveal_strlit("Novice Rocketeer");
    reveal_strlit("Alumni");
    reveal_strlit("Mudd Admin");
    assert(NOVICE_ROCKETEER_NAME@.len() == 16);
    assert(ALUMNI_NAME@.len() == 6);
    assert(FACULTY_NAME@.len() == 10);
}

/// A chain leaves the member classified as it says: whoever holds the
/// chain's marker and neither of the two that it takes away is classified as
/// the chain's target, whatever else they hold.
pub proof fn chain_reaches_its_target(chain: Chain, names: Seq<Seq<char>>)
    requires
        names.contains(chain.marker()),
        !names.contains(chain.first_cleared()),
        !names.contains(chain.second_cleared()),
    ensures
        classification_of(names) == chain.target(),
{
    marker_names_differ();
}

/// Every chain takes away exactly the two markers that are not its own.
pub proof fn chain_clears_the_other_markers(chain: Chain)
    ensures
        chain.first_cleared() != chain.marker(),
        chain.second_cleared() != chain.marker(),
        chain.first_cleared() != chain.second_cleared(),
{
    marker_names_differ();
}

} // verus!
