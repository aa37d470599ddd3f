use onboarding::action::Action;
use onboarding::dispatch::{
    accepts_message, actions_of, on_direct_message, reply_plan, select, Selection, SUCCESS_TEXT,
};
use onboarding::parser::{Intent, Rejection};
use onboarding::roles::Classification;

fn assign(name: &str) -> Action {
    Action::AssignRole { name: String::from(name) }
}

fn reply(text: &str) -> Action {
    Action::Reply { text: String::from(text) }
}

fn success() -> Action {
    reply("Roles successfully added! Thank you!")
}

fn held(list: &[&str]) -> Vec<String> {
    list.iter().map(|n| String::from(*n)).collect()
}

#[test]
fn success_text_is_verbatim() {
    assert_eq!(SUCCESS_TEXT, "Roles successfully added! Thank you!");
}

#[test]
fn alumni_year_and_level_are_both_added() {
    let plan = reply_plan(Classification::Alumni, "2015 L1");
    assert_eq!(plan, vec![assign("Class of '15"), assign("Level 1 Rocketeer"), success()]);
    assert_eq!(plan.last(), Some(&success()));
}

#[test]
fn alumni_year_is_added_though_level_is_rejected() {
    let plan = reply_plan(Classification::Alumni, "2015 L9");
    assert_eq!(plan, vec![assign("Class of '15"), reply("Please specify a valid level!")]);
    assert!(!plan.contains(&success()));
}

#[test]
fn alumni_level_is_added_though_year_is_rejected() {
    let plan = reply_plan(Classification::Alumni, "abcd L2");
    assert_eq!(plan, vec![reply("Please specify a valid year!"), assign("Level 2 Rocketeer")]);
}

#[test]
fn alumni_both_rejected_sends_both_messages() {
    let plan = reply_plan(Classification::Alumni, "abcd xyz");
    assert_eq!(
        plan,
        vec![reply("Please specify a valid year!"), reply("Please provide your level cert")]
    );
}

#[test]
fn alumni_year_with_none_adds_only_the_year() {
    let plan = reply_plan(Classification::Alumni, "2015 None");
    assert_eq!(plan, vec![assign("Class of '15"), success()]);
}

#[test]
fn alumni_single_token_is_a_year() {
    assert_eq!(reply_plan(Classification::Alumni, "2015"), vec![assign("Class of '15"), success()]);
    assert_eq!(
        reply_plan(Classification::Alumni, "L1"),
        vec![reply("Please specify a valid year!")]
    );
}

#[test]
fn unclassified_single_token_is_a_year() {
    assert_eq!(
        reply_plan(Classification::Unclassified, "2023"),
        vec![assign("Class of '23"), success()]
    );
    assert_eq!(
        reply_plan(Classification::Unclassified, "L2"),
        vec![reply("Please specify a valid year!")]
    );
    assert_eq!(
        reply_plan(Classification::Unclassified, "hello"),
        vec![reply("Please specify a valid year!")]
    );
}

#[test]
fn novice_single_token_is_a_year() {
    assert_eq!(reply_plan(Classification::Novice, "2026"), vec![assign("Class of '26"), success()]);
    assert_eq!(
        reply_plan(Classification::Novice, "none"),
        vec![reply("Please specify a valid year!")]
    );
}

#[test]
fn faculty_single_token_is_a_level() {
    assert_eq!(
        reply_plan(Classification::Faculty, "L3"),
        vec![assign("Level 3 Rocketeer"), success()]
    );
    assert_eq!(reply_plan(Classification::Faculty, "None"), vec![success()]);
    assert_eq!(
        reply_plan(Classification::Faculty, "2015"),
        vec![reply("Please provide your level cert")]
    );
    assert_eq!(
        reply_plan(Classification::Faculty, "L7"),
        vec![reply("Please specify a valid level!")]
    );
}

#[test]
fn two_tokens_are_too_many_unless_alumni() {
    let too_many = vec![reply("Too many arguments!")];
    assert_eq!(reply_plan(Classification::Novice, "2015 L1"), too_many);
    assert_eq!(reply_plan(Classification::Faculty, "2015 L1"), too_many);
    assert_eq!(reply_plan(Classification::Unclassified, "2015 L1"), too_many);
    assert_eq!(reply_plan(Classification::Novice, " 2015"), too_many);
}

#[test]
fn three_or_more_tokens_are_inert() {
    for class in [
        Classification::Unclassified,
        Classification::Novice,
        Classification::Alumni,
        Classification::Faculty,
    ] {
        assert_eq!(reply_plan(class, "2015 L1 please"), Vec::<Action>::new());
        assert_eq!(reply_plan(class, "2015  L1"), Vec::<Action>::new());
        assert_eq!(reply_plan(class, "a b c d"), Vec::<Action>::new());
    }
}

#[test]
fn select_follows_classification_and_count() {
    assert_eq!(select(Classification::Faculty, 1), Selection::Level);
    assert_eq!(select(Classification::Alumni, 1), Selection::Year);
    assert_eq!(select(Classification::Novice, 1), Selection::Year);
    assert_eq!(select(Classification::Unclassified, 1), Selection::Year);
    assert_eq!(select(Classification::Alumni, 2), Selection::YearThenLevel);
    assert_eq!(select(Classification::Faculty, 2), Selection::TooMany);
    assert_eq!(select(Classification::Novice, 2), Selection::TooMany);
    assert_eq!(select(Classification::Unclassified, 2), Selection::TooMany);
    assert_eq!(select(Classification::Alumni, 0), Selection::Inert);
    assert_eq!(select(Classification::Alumni, 3), Selection::Inert);
    assert_eq!(select(Classification::Faculty, usize::MAX), Selection::Inert);
}

#[test]
fn actions_confirm_only_full_success() {
    let year = Intent::AssignRole { name: String::from("Class of '15") };
    let level = Intent::AssignRole { name: String::from("Level 1 Rocketeer") };
    let bad = Intent::Rejected { reason: Rejection::InvalidLevel };
    assert_eq!(
        actions_of(&vec![year.clone(), level.clone()]),
        vec![assign("Class of '15"), assign("Level 1 Rocketeer"), success()]
    );
    assert_eq!(
        actions_of(&vec![year.clone(), bad.clone()]),
        vec![assign("Class of '15"), reply("Please specify a valid level!")]
    );
    assert_eq!(
        actions_of(&vec![bad.clone(), level.clone()]),
        vec![reply("Please specify a valid level!"), assign("Level 1 Rocketeer")]
    );
    assert_eq!(actions_of(&vec![Intent::NoChange]), vec![success()]);
    assert_eq!(actions_of(&vec![]), vec![success()]);
    assert_eq!(
        actions_of(&vec![Intent::Rejected { reason: Rejection::TooManyArguments }]),
        vec![reply("Too many arguments!")]
    );
}

#[test]
fn confirmation_is_sent_at_most_once() {
    let contents = ["2015 L1", "2015 L9", "2015", "L2", "none", "x y", "abcd L2", "2015 none"];
    for class in [
        Classification::Unclassified,
        Classification::Novice,
        Classification::Alumni,
        Classification::Faculty,
    ] {
        for content in contents {
            let plan = reply_plan(class, content);
            let confirmations = plan.iter().filter(|a| **a == success()).count();
            let rejections = plan
                .iter()
                .filter(|a| matches!(a, Action::Reply { .. }) && **a != success())
                .count();
            assert!(confirmations <= 1);
            assert_eq!(confirmations == 1, rejections == 0);
            if confirmations == 1 {
                assert_eq!(plan.last(), Some(&success()));
            }
        }
    }
}

#[test]
fn message_from_alumni_is_dispatched_by_their_roles() {
    let roles = held(&["@everyone", "Alumni"]);
    assert_eq!(
        on_direct_message(true, false, &roles, "2015 L1"),
        vec![assign("Class of '15"), assign("Level 1 Rocketeer"), success()]
    );
    assert_eq!(
        on_direct_message(true, false, &roles, "2015 L9"),
        vec![assign("Class of '15"), reply("Please specify a valid level!")]
    );
}

#[test]
fn message_from_faculty_wins_over_other_markers() {
    let roles = held(&["Alumni", "Mudd Admin"]);
    assert_eq!(
        on_direct_message(true, false, &roles, "L2"),
        vec![assign("Level 2 Rocketeer"), success()]
    );
    assert_eq!(on_direct_message(true, false, &roles, "2015 L2"), vec![reply("Too many arguments!")]);
}

#[test]
fn message_from_unclassified_member_is_a_year() {
    assert_eq!(
        on_direct_message(true, false, &held(&[]), "2031"),
        vec![assign("Class of '31"), success()]
    );
    assert_eq!(
        on_direct_message(true, false, &held(&["Class of '31"]), "whatever"),
        vec![reply("Please specify a valid year!")]
    );
}

#[test]
fn public_and_own_messages_are_ignored() {
    let roles = held(&["Alumni"]);
    assert_eq!(on_direct_message(false, false, &roles, "2015 L1"), Vec::<Action>::new());
    assert_eq!(on_direct_message(true, true, &roles, "2015 L1"), Vec::<Action>::new());
    assert_eq!(on_direct_message(false, true, &roles, "2015 L1"), Vec::<Action>::new());
}

#[test]
fn blank_messages_are_ignored() {
    let roles = held(&["Novice Rocketeer"]);
    assert_eq!(on_direct_message(true, false, &roles, ""), Vec::<Action>::new());
    assert_eq!(on_direct_message(true, false, &roles, " "), Vec::<Action>::new());
    assert_eq!(on_direct_message(true, false, &roles, "\n"), Vec::<Action>::new());
    assert_eq!(on_direct_message(true, false, &roles, "\t\u{3000}"), Vec::<Action>::new());
    assert_eq!(reply_plan(Classification::Novice, " "), vec![reply("Too many arguments!")]);
    assert_eq!(reply_plan(Classification::Novice, "\n"), vec![reply("Please specify a valid year!")]);
}

#[test]
fn surrounding_space_is_not_trimmed_from_tokens() {
    let roles = held(&["Novice Rocketeer"]);
    assert_eq!(on_direct_message(true, false, &roles, "2019 "), vec![reply("Too many arguments!")]);
    assert_eq!(
        on_direct_message(true, false, &roles, "2019\n"),
        vec![reply("Please specify a valid year!")]
    );
}

#[test]
fn replies_never_touch_a_marker_role() {
    let markers = ["Novice Rocketeer", "Alumni", "Mudd Admin"];
    let contents = ["2015 L1", "2015", "L3", "none", "Alumni", "Mudd Admin", "x y", "1 2 3", ""];
    for class in [
        Classification::Unclassified,
        Classification::Novice,
        Classification::Alumni,
        Classification::Faculty,
    ] {
        for content in contents {
            for step in reply_plan(class, content) {
                match step {
                    Action::AssignRole { name } => assert!(!markers.contains(&name.as_str())),
                    Action::Reply { .. } => {}
                    other => panic!("unexpected step {:?}", other),
                }
            }
        }
    }
}

fn is_listed_white_space(c: char) -> bool {
    matches!(
        c as u32,
        0x0009..=0x000D
            | 0x0020
            | 0x0085
            | 0x00A0
            | 0x1680
            | 0x2000..=0x200A
            | 0x2028..=0x2029
            | 0x202F
            | 0x205F
            | 0x3000
    )
}

#[test]
fn blank_is_exactly_white_space_for_every_character() {
    let mut code: u32 = 0;
    while code <= 0x10FFFF {
        if let Some(c) = char::from_u32(code) {
            let mut text = String::new();
            text.push(c);
            assert_eq!(accepts_message(true, false, &text), !is_listed_white_space(c));
            assert_eq!(c.is_whitespace(), is_listed_white_space(c));
        }
        code += 1;
    }
}

#[test]
fn white_space_around_other_text_does_not_make_a_message_blank() {
    assert!(accepts_message(true, false, " 2019 "));
    assert!(accepts_message(true, false, "\u{3000}x"));
    assert!(accepts_message(true, false, "x\u{2028}"));
    assert!(accepts_message(true, false, "\n\t.\r\n"));
    assert!(!accepts_message(true, false, " \t\n\u{0B}\u{0C}\r\u{85}\u{A0}\u{1680}\u{2000}\u{200A}"));
    assert!(!accepts_message(true, false, "\u{2028}\u{2029}\u{202F}\u{205F}\u{3000}"));
    assert!(accepts_message(true, false, "\u{200B}"));
    assert!(accepts_message(true, false, "\u{180E}"));
    assert!(accepts_message(true, false, "\u{FEFF}"));
    assert!(!accepts_message(false, false, "2019"));
    assert!(!accepts_message(true, true, "2019"));
}
