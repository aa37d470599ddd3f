//! Parsers that turn one token of a private reply into a typed intent.
//!
//! Both parsers are pure: the same token always gives the same intent. They
//! see one token at a time; cutting a message into tokens is the
//! dispatcher's business.

use vstd::prelude::*;
use crate::text::{
    chars_of, contains_char, contains_text, decimal_text, decimal_text_reads_back, digit_char,
    has_substring, parse_unsigned, push_decimal, strip_char, unsigned_of, without_char,
};

verus! {

/// Why a reply was turned down. Each reason has a fixed sentence that is
/// shown to the member word for word.
#[derive(Clone, Copy, Debug, PartialEq, Eq, Structural)]
pub enum Rejection {
    /// The token is no year between 1901 and 9998.
    InvalidYear,
    /// The token names a level, but none of 1, 2 and 3.
    InvalidLevel,
    /// The token names no level and does not say "none" either.
    MissingLevel,
    /// The reply holds more tokens than the member's classification takes.
    TooManyArguments,
}

impl Rejection {
    /// The sentence shown to the member.
    pub open spec fn text(self) -> Seq<char> {
        match self {
            Rejection::InvalidYear => "Please specify a valid year!"@,
            Rejection::InvalidLevel => "Please specify a valid level!"@,
            Rejection::MissingLevel => "Please provide your level cert"@,
            Rejection::TooManyArguments => "Too many arguments!"@,
        }
    }

    /// The sentence shown to the member.
    pub fn message(&self) -> (s: String)
        ensures
            s@ == self.text(),
    {
        match self {
            Rejection::InvalidYear => "Please specify a valid year!".to_owned(),
            Rejection::InvalidLevel => "Please specify a valid level!".to_owned(),
            Rejection::MissingLevel => "Please provide your level cert".to_owned(),
            Rejection::TooManyArguments => "Too many arguments!".to_owned(),
        }
    }
}

/// The parsed outcome of one token.
#[derive(Clone, Debug, PartialEq, Eq)]
pub enum Intent {
    /// Give the member the role of this name, creating it where it is missing.
    AssignRole { name: String },
    /// The token is accepted and changes nothing.
    NoChange,
    /// The token is turned down.
    Rejected { reason: Rejection },
}

/// An [`Intent`] with its role name as plain text.
pub ghost enum IntentView {
    AssignRole { name: Seq<char> },
    NoChange,
    Rejected { reason: Rejection },
}

impl View for Intent {
    type V = IntentView;

    open spec fn view(&self) -> IntentView {
        match self {
            Intent::AssignRole { name } => IntentView::AssignRole { name: name@ },
            Intent::NoChange => IntentView::NoChange,
            Intent::Rejected { reason } => IntentView::Rejected { reason: *reason },
        }
    }
}

/// The name of the role for the graduation year `year`: it ends in the
/// last two digits of the year, the tens first.
pub open spec fn class_role_name(year: nat) -> Seq<char> {
    "Class of '"@.push(digit_char((year / 10) % 10)).push(digit_char(year % 10))
}

/// The name of the role for certification level `level`: the level stands
/// in it in plain decimal notation.
pub open spec fn level_role_name(level: nat) -> Seq<char> {
    "Level "@ + decimal_text(level) + " Rocketeer"@
}

/// What [`parse_year`] makes of `token`: the role of the year that the
/// token reads as, however the token writes it.
pub open spec fn year_intent(token: Seq<char>) -> IntentView {
    match unsigned_of(token) {
        Some(y) => if 1900 < y < 9999 {
            IntentView::AssignRole { name: class_role_name(y as nat) }
        } else {
            IntentView::Rejected { reason: Rejection::InvalidYear }
        },
        None => IntentView::Rejected { reason: Rejection::InvalidYear },
    }
}

/// What [`parse_level_lowered`] makes of a token that is already in lower
/// case.
pub open spec fn level_intent(lowered: Seq<char>) -> IntentView {
    if lowered.contains('l') {
        match unsigned_of(without_char(lowered, 'l')) {
            Some(n) => if 1 <= n <= 3 {
                IntentView::AssignRole { name: level_role_name(n as nat) }
            } else {
                IntentView::Rejected { reason: Rejection::InvalidLevel }
            },
            None => IntentView::Rejected { reason: Rejection::InvalidLevel },
        }
    } else if has_substring(lowered, "none"@) {
        IntentView::NoChange
    } else {
        IntentView::Rejected { reason: Rejection::MissingLevel }
    }
}

/// The lower-case form that the standard library gives a text.
pub uninterp spec fn lowercase_of(s: Seq<char>) -> Seq<char>;

/// `str::to_lowercase` of the standard library. The result is taken to
/// depend on the characters of `s` alone; nothing else is claimed of it.
#[verifier::external_body]
fn lowercase(s: &str) -> (lowered: String)
    ensures
        lowered@ == lowercase_of(s@),
{
    s.to_lowercase()
}

/// Builds the role name for a graduation year.
pub fn class_role(year: u64) -> (name: String)
    ensures
        name@ == class_role_name(year as nat),
{
    let tens: u8 = ((year / 10) % 10) as u8;
    let ones: u8 = (year % 10) as u8;
    let tens_code: u8 = tens + 48;
    let ones_code: u8 = ones + 48;
    let mut name: String = "Class of '".to_owned();
    name.push(tens_code as char);
    name.push(ones_code as char);
    name
}

/// Builds the role name for a certification level.
pub fn level_role(level: u64) -> (name: String)
    ensures
        name@ == level_role_name(level as nat),
{
    let mut name: String = "Level ".to_owned();
    push_decimal(&mut name, level);
    name.append(" Rocketeer");
    name
}

/// Reads a graduation year from the characters of a token; see
/// [`parse_year`].
pub fn read_year(chars: &Vec<char>) -> (intent: Intent)
    ensures
        intent@ == year_intent(chars@),
{
    match parse_unsigned(chars) {
        Some(y) => {
            if 1900 < y && y < 9999 {
                Intent::AssignRole { name: class_role(y) }
            } else {
                Intent::Rejected { reason: Rejection::InvalidYear }
            }
        },
        None => Intent::Rejected { reason: Rejection::InvalidYear },
    }
}

/// Parses a graduation year.
///
/// The token is accepted when it reads as an unsigned integer strictly
/// between 1900 and 9999. The role is then named after the last two digits
/// of that year, also where the token writes the year with a plus sign or
/// with leading zeros. Every other token is turned down as an invalid year.
pub fn parse_year(token: &str) -> (intent: Intent)
    ensures
        intent@ == year_intent(token@),
{
    let chars = chars_of(token);
    read_year(&chars)
}

/// Reads a certification level from the characters of a token that is
/// already in lower case; see [`parse_level_lowered`].
pub fn read_level(chars: &Vec<char>) -> (intent: Intent)
    ensures
        intent@ == level_intent(chars@),
{
    if contains_char(chars, 'l') {
        let digits = strip_char(chars, 'l');
        match parse_unsigned(&digits) {
            Some(n) => {
                if 1 <= n && n <= 3 {
                    Intent::AssignRole { name: level_role(n) }
                } else {
                    Intent::Rejected { reason: Rejection::InvalidLevel }
                }
            },
            None => Intent::Rejected { reason: Rejection::InvalidLevel },
        }
    } else {
        let none = chars_of("none");
        if contains_text(chars, &none) {
            Intent::NoChange
        } else {
            Intent::Rejected { reason: Rejection::MissingLevel }
        }
    }
}

/// Parses a certification level from a token that is already in lower case.
///
/// A token with the letter `l` in it names a level: with every `l` taken
/// out it must read as 1, 2 or 3. A token without `l` is accepted, and
/// changes nothing, when it holds the word "none"; otherwise the member is
/// asked for their level.
pub fn parse_level_lowered(lowered: &str) -> (intent: Intent)
    ensures
        intent@ == level_intent(lowered@),
{
    let chars = chars_of(lowered);
    read_level(&chars)
}

/// Parses a certification level: the token is put in lower case and then
/// read by [`parse_level_lowered`].
pub fn parse_level(token: &str) -> (intent: Intent)
    ensures
        intent@ == level_intent(lowercase_of(token@)),
{
    let lowered = lowercase(token);
    parse_level_lowered(lowered.as_str())
}

/// For every year from 1901 to 9998, written in plain decimal notation, the
/// token is accepted and the role's name ends in the token's last two
/// characters, which are the year's last two digits.
pub proof fn year_role_ends_in_last_two_digits(y: nat)
    requires
        1900 < y < 9999,
    ensures
        decimal_text(y).len() == 4,
        year_intent(decimal_text(y)) == (IntentView::AssignRole { name: class_role_name(y) }),
        class_role_name(y).last() == decimal_text(y).last(),
        class_role_name(y).drop_last().last() == decimal_text(y).drop_last().last(),
{
    decimal_text_reads_back(y);
    reveal_with_fuel(decimal_text, 4);
    let token = decimal_text(y);
    assert(token == decimal_text(y / 10).push(digit_char(y % 10)));
    assert(decimal_text(y / 10) == decimal_text(y / 100).push(digit_char((y / 10) % 10)));
    assert(decimal_text(y / 100) == decimal_text(y / 1000).push(digit_char((y / 100) % 10)));
    assert(decimal_text(y / 1000).len() == 1);
}

/// Two tokens that read as the same number are treated alike: the role of a
/// year does not depend on how the token writes the year.
pub proof fn year_role_depends_on_the_number(a: Seq<char>, b: Seq<char>)
    requires
        unsigned_of(a) == unsigned_of(b),
    ensures
        year_intent(a) == year_intent(b),
{
}

} // verus!
