//! The onboarding dispatcher: what to do on a private message.
//!
//! The member's classification decides which parsers read which tokens of
//! the message; the intents that come back are turned into role changes and
//! replies.

use vstd::prelude::*;
use crate::action::{action_views, Action, ActionView};
use crate::parser::{
    class_role_name, level_intent, level_role_name, lowercase_of, parse_level, read_year,
    year_intent, Intent, IntentView, Rejection,
};
use crate::roles::{
    classification_of, classify, is_marker, name_views, Classification, ALUMNI_NAME, FACULTY_NAME,
    NOVICE_ROCKETEER_NAME,
};
use crate::text::{
    chars_of, decimal_text, is_blank, piece_views, split_on, split_text, split_text_unbroken,
    string_of, trimmed, trimmed_is_empty_for_blank_text_only,
};

verus! {

/// The confirmation that is sent when every token was accepted.
pub const SUCCESS_TEXT: &'static str = "Roles successfully added! Thank you!";

/// Which parsers read a message.
#[derive(Clone, Copy, Debug, PartialEq, Eq, Structural)]
pub enum Selection {
    /// The one token is a graduation year.
    Year,
    /// The one token is a certification level.
    Level,
    /// The first token is a graduation year, the second a certification level.
    YearThenLevel,
    /// The message has more tokens than the classification takes.
    TooMany,
    /// The message is passed over in silence.
    Inert,
}

/// The parsers for a message of `tokens` tokens from a member classified as
/// `class`. One token is a level for faculty and a year for everybody else,
/// unclassified members included. Two tokens are a year and a level for
/// alumni and too many for everybody else. Any other count is inert.
pub open spec fn selection_of(class: Classification, tokens: nat) -> Selection {
    if tokens == 1 {
        if class == Classification::Faculty {
            Selection::Level
        } else {
            Selection::Year
        }
    } else if tokens == 2 {
        if class == Classification::Alumni {
            Selection::YearThenLevel
        } else {
            Selection::TooMany
        }
    } else {
        Selection::Inert
    }
}

/// The intents of a vector, role names as plain text.
pub open spec fn intent_views(intents: Seq<Intent>) -> Seq<IntentView> {
    Seq::new(intents.len(), |i: int| intents[i]@)
}

/// The step that one intent calls for: an accepted role is assigned, a
/// rejection is answered with its sentence, and an intent that changes
/// nothing calls for no step.
pub open spec fn intent_steps(intent: IntentView) -> Seq<ActionView> {
    match intent {
        IntentView::AssignRole { name } => seq![ActionView::AssignRole { name }],
        IntentView::NoChange => Seq::empty(),
        IntentView::Rejected { reason } => seq![ActionView::Reply { text: reason.text() }],
    }
}

/// The steps that the intents call for one by one, in their order.
pub open spec fn applied(intents: Seq<IntentView>) -> Seq<ActionView>
    decreases intents.len(),
{
    if intents.len() == 0 {
        Seq::empty()
    } else {
        applied(intents.drop_last()) + intent_steps(intents.last())
    }
}

/// Whether none of the intents is a rejection.
pub open spec fn all_accepted(intents: Seq<IntentView>) -> bool {
    forall|i: int| 0 <= i < intents.len() ==> !(#[trigger] intents[i] is Rejected)
}

/// The plan for a sequence of intents: every intent is applied, whether or
/// not another one was rejected, and the confirmation follows at the end
/// where none was.
pub open spec fn outcome(intents: Seq<IntentView>) -> Seq<ActionView> {
    if all_accepted(intents) {
        applied(intents).push(ActionView::Reply { text: SUCCESS_TEXT@ })
    } else {
        applied(intents)
    }
}

/// The plan for the message `content` of a member classified as `class`.
/// The message is cut at every space; the tokens are read as
/// [`selection_of`] says.
pub open spec fn plan_of(class: Classification, content: Seq<char>) -> Seq<ActionView> {
    let tokens = split_text(content, ' ');
    match selection_of(class, tokens.len()) {
        Selection::Year => outcome(seq![year_intent(tokens[0])]),
        Selection::Level => outcome(seq![level_intent(lowercase_of(tokens[0]))]),
        Selection::YearThenLevel => outcome(
            seq![year_intent(tokens[0]), level_intent(lowercase_of(tokens[1]))],
        ),
        Selection::TooMany => outcome(
            seq![IntentView::Rejected { reason: Rejection::TooManyArguments }],
        ),
        Selection::Inert => Seq::empty(),
    }
}

/// Whether a message event is answered at all: only a private message that
/// somebody else wrote and that holds more than white space is.
pub open spec fn message_accepted(
    is_private: bool,
    author_is_self: bool,
    content: Seq<char>,
) -> bool {
    is_private && !author_is_self && !is_blank(content)
}

/// The plan for a message event. Where the message is answered, its author
/// is classified by the names of the roles they hold.
pub open spec fn message_plan(
    is_private: bool,
    author_is_self: bool,
    role_names: Seq<Seq<char>>,
    content: Seq<char>,
) -> Seq<ActionView> {
    if message_accepted(is_private, author_is_self, content) {
        plan_of(classification_of(role_names), content)
    } else {
        Seq::empty()
    }
}

/// `str::trim` of the standard library: the slice without the white space
/// at its start and at its end, where white space is what Unicode gives the
/// property `White_Space`.
#[verifier::external_body]
fn trim(s: &str) -> (t: &str)
    ensures
        t@ == trimmed(s@),
{
    s.trim()
}

/// Picks the parsers for a message.
pub fn select(class: Classification, tokens: usize) -> (selection: Selection)
    ensures
        selection == selection_of(class, tokens as nat),
{
    if tokens == 1 {
        match class {
            Classification::Faculty => Selection::Level,
            _ => Selection::Year,
        }
    } else if tokens == 2 {
        match class {
            Classification::Alumni => Selection::YearThenLevel,
            _ => Selection::TooMany,
        }
    } else {
        Selection::Inert
    }
}

/// Turns parsed intents into a plan: see [`outcome`].
pub fn actions_of(intents: &Vec<Intent>) -> (actions: Vec<Action>)
    ensures
        action_views(actions@) == outcome(intent_views(intents@)),
{
    let ghost all = intent_views(intents@);
    let mut actions: Vec<Action> = Vec::new();
    let mut accepted: bool = true;
    let mut i: usize = 0;
    assert(action_views(actions@) =~= applied(all.take(0)));
    while i < intents.len()
        invariant
            i <= intents.len(),
            all == intent_views(intents@),
            action_views(actions@) == applied(all.take(i as int)),
            accepted == all_accepted(all.take(i as int)),
        decreases intents.len() - i,
    {
        let ghost before = actions@;
        let ghost upto = all.take(i + 1);
        proof {
            assert(upto.drop_last() == all.take(i as int));
            assert(upto.last() == intents[i as int]@);
        }
        match &intents[i] {
            Intent::AssignRole { name } => {
                actions.push(Action::AssignRole { name: name.clone() });
                assert(action_views(actions@) =~= action_views(before) + intent_steps(upto.last()));
            },
            Intent::NoChange => {
                assert(action_views(actions@) =~= action_views(before) + intent_steps(upto.last()));
            },
            Intent::Rejected { reason } => {
                actions.push(Action::Reply { text: reason.message() });
                accepted = false;
                assert(action_views(actions@) =~= action_views(before) + intent_steps(upto.last()));
            },
        }
        proof {
            if all_accepted(all.take(i as int)) && !(upto.last() is Rejected) {
                assert forall|j: int| 0 <= j < upto.len() implies !(#[trigger] upto[j] is Rejected) by {
                    if j < i {
                        assert(upto[j] == all.take(i as int)[j]);
                    }
                }
            } else if upto.last() is Rejected {
                assert(upto[i as int] is Rejected);
            } else {
                let j = choose|j: int| 0 <= j < i && all.take(i as int)[j] is Rejected;
                assert(upto[j] is Rejected);
            }
        }
        i += 1;
    }
    proof {
        assert(all.take(intents.len() as int) == all);
    }
    if accepted {
        let ghost before = actions@;
        actions.push(Action::Reply { text: SUCCESS_TEXT.to_owned() });
        assert(action_views(actions@) =~= action_views(before).push(
            ActionView::Reply { text: SUCCESS_TEXT@ },
        ));
    }
    actions
}

/// Plans the answer to the message `content` of a member classified as
/// `class`.
pub fn reply_plan(class: Classification, content: &str) -> (actions: Vec<Action>)
    ensures
        action_views(actions@) == plan_of(class, content@),
{
    let chars = chars_of(content);
    let tokens = split_on(&chars, ' ');
    let ghost pieces = split_text(content@, ' ');
    assert(pieces == piece_views(tokens@));
    let mut intents: Vec<Intent> = Vec::new();
    match select(class, tokens.len()) {
        Selection::Year => {
            assert(pieces[0] == tokens[0]@);
            intents.push(read_year(&tokens[0]));
            assert(intent_views(intents@) =~= seq![year_intent(pieces[0])]);
        },
        Selection::Level => {
            assert(pieces[0] == tokens[0]@);
            let token = string_of(&tokens[0]);
            intents.push(parse_level(token.as_str()));
            assert(intent_views(intents@) =~= seq![level_intent(lowercase_of(pieces[0]))]);
        },
        Selection::YearThenLevel => {
            assert(pieces[0] == tokens[0]@);
            assert(pieces[1] == tokens[1]@);
            intents.push(read_year(&tokens[0]));
            let token = string_of(&tokens[1]);
            intents.push(parse_level(token.as_str()));
            assert(intent_views(intents@) =~= seq![
                year_intent(pieces[0]),
                level_intent(lowercase_of(pieces[1])),
            ]);
        },
        Selection::TooMany => {
            intents.push(Intent::Rejected { reason: Rejection::TooManyArguments });
            assert(intent_views(intents@) =~= seq![
                IntentView::Rejected { reason: Rejection::TooManyArguments },
            ]);
        },
        Selection::Inert => {
            let none: Vec<Action> = Vec::new();
            assert(action_views(none@) =~= Seq::<ActionView>::empty());
            return none;
        },
    }
    actions_of(&intents)
}

/// Decides whether a message event is answered at all. The author's roles
/// need to be read only where it is.
pub fn accepts_message(is_private: bool, author_is_self: bool, content: &str) -> (accepted:
    bool)
    ensures
        accepted == message_accepted(is_private, author_is_self, content@),
{
    proof {
        trimmed_is_empty_for_blank_text_only(content@);
    }
    is_private && !author_is_self && !trim(content).is_empty()
}

/// Plans the answer to a message event.
///
/// `is_private` says whether the message came in a private conversation,
/// `author_is_self` whether the bot wrote it itself, `role_names` which roles
/// the author holds on the server right now.
pub fn on_direct_message(
    is_private: bool,
    author_is_self: bool,
    role_names: &Vec<String>,
    content: &str,
) -> (actions: Vec<Action>)
    ensures
        action_views(actions@) == message_plan(
            is_private,
            author_is_self,
            name_views(role_names@),
            content@,
        ),
{
    if accepts_message(is_private, author_is_self, content) {
        reply_plan(classify(role_names), content)
    } else {
        let none: Vec<Action> = Vec::new();
        assert(action_views(none@) =~= Seq::<ActionView>::empty());
        none
    }
}

/// The confirmation differs from every rejection's sentence.
pub proof fn success_differs_from_rejections(reason: Rejection)
    ensures
        reason.text() != SUCCESS_TEXT@,
{
    reveal_strlit("Roles successfully added! Thank you!");
    reveal_strlit("Please specify a valid year!");
    reveal_strlit("Please specify a valid level!");
    reveal_strlit("Please provide your level cert");
    reveal_strlit("Too many arguments!");
    assert(SUCCESS_TEXT@.len() == 36);
    assert(Rejection::InvalidYear.text().len() == 28);
    assert(Rejection::InvalidLevel.text().len() == 29);
    assert(Rejection::MissingLevel.text().len() == 30);
    assert(Rejection::TooManyArguments.text().len() == 19);
}

/// Applying intents never sends the confirmation by itself.
pub proof fn applied_holds_no_confirmation(intents: Seq<IntentView>)
    ensures
        !applied(intents).contains(ActionView::Reply { text: SUCCESS_TEXT@ }),
    decreases intents.len(),
{
    let confirmation = ActionView::Reply { text: SUCCESS_TEXT@ };
    if intents.len() > 0 {
        applied_holds_no_confirmation(intents.drop_last());
        let head = applied(intents.drop_last());
        let tail = intent_steps(intents.last());
        if (head + tail).contains(confirmation) {
            let k = choose|k: int| 0 <= k < (head + tail).len() && (head + tail)[k] == confirmation;
            if k < head.len() {
                assert(head[k] == confirmation);
            } else {
                assert(tail[k - head.len()] == confirmation);
                match intents.last() {
                    IntentView::Rejected { reason } => {
                        success_differs_from_rejections(reason);
                    },
                    _ => {},
                }
            }
        }
    }
}

/// The confirmation is sent exactly when every intent was accepted, and then
/// once, as the last step; every intent is applied either way.
pub proof fn confirmation_follows_full_success(intents: Seq<IntentView>)
    ensures
        applied(intents).is_prefix_of(outcome(intents)),
        all_accepted(intents) ==> outcome(intents) == applied(intents).push(
            ActionView::Reply { text: SUCCESS_TEXT@ },
        ),
        !all_accepted(intents) ==> !outcome(intents).contains(
            ActionView::Reply { text: SUCCESS_TEXT@ },
        ),
{
    applied_holds_no_confirmation(intents);
}

/// A message without a space, from a member who is not faculty, is read as
/// a graduation year. Unclassified members are among them.
pub proof fn lone_token_is_read_as_year(class: Classification, content: Seq<char>)
    requires
        class != Classification::Faculty,
        !content.contains(' '),
    ensures
        plan_of(class, content) == outcome(seq![year_intent(content)]),
{
    split_text_unbroken(content, ' ');
}

/// Whether a step is one that answering a message may take: a reply, or the
/// assignment of a role that is no marker.
pub open spec fn fills_in_only(step: ActionView) -> bool {
    match step {
        ActionView::AssignRole { name } => !is_marker(name),
        ActionView::Reply { text } => true,
        _ => false,
    }
}

/// No parser ever asks for a marker role.
pub proof fn parsed_roles_are_no_markers(token: Seq<char>)
    ensures
        year_intent(token) matches IntentView::AssignRole { name } ==> !is_marker(name),
        level_intent(token) matches IntentView::AssignRole { name } ==> !is_marker(name),
{
    reveal_strlit("Novice Rocketeer");
    reveal_strlit("Alumni");
    reveal_strlit("Mudd Admin");
    reveal_strlit("Class of '");
    reveal_strlit("Level ");
    reveal_strlit(" Rocketeer");
    assert(NOVICE_ROCKETEER_NAME@.len() == 16);
    assert(ALUMNI_NAME@.len() == 6);
    assert(FACULTY_NAME@.len() == 10);
    assert forall|y: nat| (#[trigger] class_role_name(y)).len() == 12 by {}
    assert forall|n: nat| 1 <= n <= 3 implies (#[trigger] level_role_name(n)).len() == 17 by {
        assert(decimal_text(n).len() == 1);
    }
}

/// Answering a message never changes the member's classification: every
/// step of the plan is a reply or assigns a role that is no marker, and no
/// role is ever taken away.
pub proof fn replies_leave_markers_alone(class: Classification, content: Seq<char>)
    ensures
        forall|i: int|
            0 <= i < plan_of(class, content).len() ==> fills_in_only(
                #[trigger] plan_of(class, content)[i],
            ),
{
    let tokens = split_text(content, ' ');
    let plan = plan_of(class, content);
    reveal_with_fuel(applied, 3);
    parsed_roles_are_no_markers(tokens[0]);
    parsed_roles_are_no_markers(lowercase_of(tokens[0]));
    parsed_roles_are_no_markers(lowercase_of(tokens[1]));
    match selection_of(class, tokens.len()) {
        Selection::Year => {
            let intents = seq![year_intent(tokens[0])];
            assert(intents.drop_last() =~= Seq::<IntentView>::empty());
            assert(applied(intents) =~= intent_steps(intents[0]));
        },
        Selection::Level => {
            let intents = seq![level_intent(lowercase_of(tokens[0]))];
            assert(intents.drop_last() =~= Seq::<IntentView>::empty());
            assert(applied(intents) =~= intent_steps(intents[0]));
        },
        Selection::YearThenLevel => {
            let intents = seq![year_intent(tokens[0]), level_intent(lowercase_of(tokens[1]))];
            assert(intents.drop_last() =~= seq![year_intent(tokens[0])]);
            assert(intents.drop_last().drop_last() =~= Seq::<IntentView>::empty());
            assert(applied(intents) =~= intent_steps(intents[0]) + intent_steps(intents[1]));
        },
        Selection::TooMany => {
            let intents = seq![IntentView::Rejected { reason: Rejection::TooManyArguments }];
            assert(intents.drop_last() =~= Seq::<IntentView>::empty());
            assert(applied(intents) =~= intent_steps(intents[0]));
        },
        Selection::Inert => {},
    }
}

} // verus!
