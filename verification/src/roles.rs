//! The role directory: which classification a set of roles stands for, and
//! which change to a member's roles comes next.
//!
//! Nothing is remembered between events. Every function here takes the roles
//! as they were just read from the server and answers with the one command
//! that is due; the caller carries it out, reads the roles again and asks
//! again.

use vstd::prelude::*;
use crate::text::same_text;

verus! {

/// The marker role of current students.
pub const NOVICE_ROCKETEER_NAME: &'static str = "Novice Rocketeer";

/// The marker role of alumni.
pub const ALUMNI_NAME: &'static str = "Alumni";

/// The marker role of faculty.
pub const FACULTY_NAME: &'static str = "Mudd Admin";

/// Where a member stands in onboarding. It is never stored: it is read off
/// the names of the roles that the member holds.
#[derive(Clone, Copy, Debug, PartialEq, Eq, Structural)]
pub enum Classification {
    /// The member holds none of the three marker roles.
    Unclassified,
    /// The member holds the student marker.
    Novice,
    /// The member holds the alumni marker.
    Alumni,
    /// The member holds the faculty marker.
    Faculty,
}

/// A role of the server: its identifier and its name.
#[derive(Clone, Debug, PartialEq, Eq)]
pub struct Role {
    pub id: u64,
    pub name: String,
}

/// A [`Role`] with its name as plain text.
pub ghost struct RoleView {
    pub id: u64,
    pub name: Seq<char>,
}

impl View for Role {
    type V = RoleView;

    open spec fn view(&self) -> RoleView {
        RoleView { id: self.id, name: self.name@ }
    }
}

/// The one change to the server that is due next.
#[derive(Clone, Debug, PartialEq, Eq)]
pub enum RoleCommand {
    /// Everything is as it should be.
    Nothing,
    /// Create a role of this name; `hoist` asks for it to be listed apart.
    CreateRole { name: String, hoist: bool },
    /// Give the member this role.
    AddRole { role: u64 },
    /// Take this role from the member.
    RemoveRole { role: u64 },
}

/// A [`RoleCommand`] with its role name as plain text.
pub ghost enum RoleCommandView {
    Nothing,
    CreateRole { name: Seq<char>, hoist: bool },
    AddRole { role: u64 },
    RemoveRole { role: u64 },
}

impl View for RoleCommand {
    type V = RoleCommandView;

    open spec fn view(&self) -> RoleCommandView {
        match self {
            RoleCommand::Nothing => RoleCommandView::Nothing,
            RoleCommand::CreateRole { name, hoist } => RoleCommandView::CreateRole {
                name: name@,
                hoist: *hoist,
            },
            RoleCommand::AddRole { role } => RoleCommandView::AddRole { role: *role },
            RoleCommand::RemoveRole { role } => RoleCommandView::RemoveRole { role: *role },
        }
    }
}

/// The texts that a vector of names holds.
pub open spec fn name_views(names: Seq<String>) -> Seq<Seq<char>> {
    Seq::new(names.len(), |i: int| names[i]@)
}

/// The roles of a vector, names as plain text.
pub open spec fn role_views(roles: Seq<Role>) -> Seq<RoleView> {
    Seq::new(roles.len(), |i: int| roles[i]@)
}

/// The classification that a collection of role names stands for. A member
/// with several markers counts as faculty before alumni, and as alumni before
/// student.
pub open spec fn classification_of(names: Seq<Seq<char>>) -> Classification {
    if names.contains(FACULTY_NAME@) {
        Classification::Faculty
    } else if names.contains(ALUMNI_NAME@) {
        Classification::Alumni
    } else if names.contains(NOVICE_ROCKETEER_NAME@) {
        Classification::Novice
    } else {
        Classification::Unclassified
    }
}

/// Whether `name` is the name of one of the three marker roles.
pub open spec fn is_marker(name: Seq<char>) -> bool {
    name == NOVICE_ROCKETEER_NAME@ || name == ALUMNI_NAME@ || name == FACULTY_NAME@
}

/// The identifier of the first role in `roles` whose name is exactly `name`.
pub open spec fn role_named(roles: Seq<RoleView>, name: Seq<char>) -> Option<u64>
    decreases roles.len(),
{
    if roles.len() == 0 {
        None
    } else if roles[0].name == name {
        Some(roles[0].id)
    } else {
        role_named(roles.skip(1), name)
    }
}

/// What [`ensure_role`] asks for.
pub open spec fn ensure_step(roles: Seq<RoleView>, name: Seq<char>) -> RoleCommandView {
    match role_named(roles, name) {
        Some(_) => RoleCommandView::Nothing,
        None => RoleCommandView::CreateRole { name, hoist: true },
    }
}

/// What [`add_role`] asks for.
pub open spec fn add_step(held: Set<u64>, role: u64) -> RoleCommandView {
    if held.contains(role) {
        RoleCommandView::Nothing
    } else {
        RoleCommandView::AddRole { role }
    }
}

/// What [`remove_role`] asks for.
pub open spec fn remove_step(held: Set<u64>, role: u64) -> RoleCommandView {
    if held.contains(role) {
        RoleCommandView::RemoveRole { role }
    } else {
        RoleCommandView::Nothing
    }
}

/// What [`set_exclusive_role`] asks for.
pub open spec fn exclusive_step(
    roles: Seq<RoleView>,
    held: Set<u64>,
    name: Seq<char>,
) -> RoleCommandView {
    match role_named(roles, name) {
        Some(role) => add_step(held, role),
        None => RoleCommandView::CreateRole { name, hoist: true },
    }
}

/// What [`remove_role_by_name`] asks for.
pub open spec fn remove_by_name_step(
    roles: Seq<RoleView>,
    held: Set<u64>,
    name: Seq<char>,
) -> RoleCommandView {
    match role_named(roles, name) {
        Some(role) => remove_step(held, role),
        None => RoleCommandView::Nothing,
    }
}

/// The server's roles once `command` has been carried out, where a role that
/// is created gets the identifier `fresh`.
pub open spec fn roles_after(
    roles: Seq<RoleView>,
    command: RoleCommandView,
    fresh: u64,
) -> Seq<RoleView> {
    match command {
        RoleCommandView::CreateRole { name, hoist } => roles.push(RoleView { id: fresh, name }),
        _ => roles,
    }
}

/// The roles that the member holds once `command` has been carried out.
pub open spec fn held_after(held: Set<u64>, command: RoleCommandView) -> Set<u64> {
    match command {
        RoleCommandView::AddRole { role } => held.insert(role),
        RoleCommandView::RemoveRole { role } => held.remove(role),
        _ => held,
    }
}

/// Whether `name` is among `role_names`.
pub fn holds_name(role_names: &Vec<String>, name: &str) -> (held: bool)
    ensures
        held == name_views(role_names@).contains(name@),
{
    let mut i: usize = 0;
    while i < role_names.len()
        invariant
            i <= role_names.len(),
            forall|j: int| 0 <= j < i ==> name_views(role_names@)[j] != name@,
        decreases role_names.len() - i,
    {
        if same_text(role_names[i].as_str(), name) {
            assert(name_views(role_names@)[i as int] == name@);
            return true;
        }
        i += 1;
    }
    false
}

/// Reads a member's classification off the names of the roles they hold.
///
/// Faculty comes before alumni and alumni before student; a member without
/// any marker is unclassified. The order and the repetition of the names do
/// not matter.
pub fn classify(role_names: &Vec<String>) -> (c: Classification)
    ensures
        c == classification_of(name_views(role_names@)),
        name_views(role_names@).contains(FACULTY_NAME@) ==> c == Classification::Faculty,
        c == Classification::Alumni <==> name_views(role_names@).contains(ALUMNI_NAME@)
            && !name_views(role_names@).contains(FACULTY_NAME@),
        c == Classification::Novice <==> name_views(role_names@).contains(
            NOVICE_ROCKETEER_NAME@,
        ) && !name_views(role_names@).contains(ALUMNI_NAME@) && !name_views(
            role_names@,
        ).contains(FACULTY_NAME@),
{
    if holds_name(role_names, FACULTY_NAME) {
        Classification::Faculty
    } else if holds_name(role_names, ALUMNI_NAME) {
        Classification::Alumni
    } else if holds_name(role_names, NOVICE_ROCKETEER_NAME) {
        Classification::Novice
    } else {
        Classification::Unclassified
    }
}

/// Whether `role` is among `member_roles`.
pub fn holds_role(member_roles: &Vec<u64>, role: u64) -> (held: bool)
    ensures
        held == member_roles@.to_set().contains(role),
{
    let mut i: usize = 0;
    while i < member_roles.len()
        invariant
            i <= member_roles.len(),
            forall|j: int| 0 <= j < i ==> member_roles[j] != role,
        decreases member_roles.len() - i,
    {
        if member_roles[i] == role {
            assert(member_roles@.contains(role));
            return true;
        }
        i += 1;
    }
    assert(!member_roles@.contains(role));
    false
}

/// Looks a role up by its exact name; of several with that name the first
/// is taken.
pub fn find_role(roles: &Vec<Role>, name: &str) -> (found: Option<u64>)
    ensures
        found == role_named(role_views(roles@), name@),
{
    let ghost all = role_views(roles@);
    let mut i: usize = 0;
    assert(all.skip(0) == all);
    while i < roles.len()
        invariant
            i <= roles.len(),
            all == role_views(roles@),
            role_named(all, name@) == role_named(all.skip(i as int), name@),
        decreases roles.len() - i,
    {
        proof {
            assert(all.skip(i as int)[0] == roles[i as int]@);
            assert(all.skip(i as int).skip(1) == all.skip(i + 1));
        }
        if same_text(roles[i].name.as_str(), name) {
            return Some(roles[i].id);
        }
        i += 1;
    }
    proof {
        assert(all.skip(i as int).len() == 0);
    }
    None
}

/// Makes sure that a role of the given name exists: nothing is due where
/// one is there already, otherwise a listed role of that name is created.
pub fn ensure_role(roles: &Vec<Role>, name: &str) -> (command: RoleCommand)
    ensures
        command@ == ensure_step(role_views(roles@), name@),
{
    match find_role(roles, name) {
        Some(_) => RoleCommand::Nothing,
        None => RoleCommand::CreateRole { name: name.to_owned(), hoist: true },
    }
}

/// Gives the member a role, unless they hold it already.
pub fn add_role(member_roles: &Vec<u64>, role: u64) -> (command: RoleCommand)
    ensures
        command@ == add_step(member_roles@.to_set(), role),
{
    if holds_role(member_roles, role) {
        RoleCommand::Nothing
    } else {
        RoleCommand::AddRole { role }
    }
}

/// Takes a role from the member, unless they do not hold it.
pub fn remove_role(member_roles: &Vec<u64>, role: u64) -> (command: RoleCommand)
    ensures
        command@ == remove_step(member_roles@.to_set(), role),
{
    if holds_role(member_roles, role) {
        RoleCommand::RemoveRole { role }
    } else {
        RoleCommand::Nothing
    }
}

/// Works towards the member holding the role of the given name: the role is
/// created where the server has none of that name, then given to the member,
/// and nothing is due once the member holds it.
pub fn set_exclusive_role(roles: &Vec<Role>, member_roles: &Vec<u64>, name: &str) -> (command:
    RoleCommand)
    ensures
        command@ == exclusive_step(role_views(roles@), member_roles@.to_set(), name@),
{
    match find_role(roles, name) {
        Some(role) => add_role(member_roles, role),
        None => RoleCommand::CreateRole { name: name.to_owned(), hoist: true },
    }
}

/// One step towards the member holding the role of the given name, for a
/// caller who says whether they have tried to create the role already.
///
/// The step is that of [`set_exclusive_role`]. There is none where the
/// creation was tried and the server still has no role of that name: the
/// role is not created a second time, and the caller gives up.
pub fn assign_step(
    roles: &Vec<Role>,
    member_roles: &Vec<u64>,
    name: &str,
    creation_tried: bool,
) -> (step: Option<RoleCommand>)
    ensures
        step is None <==> creation_tried && role_named(role_views(roles@), name@) is None,
        step matches Some(command) ==> command@ == exclusive_step(
            role_views(roles@),
            member_roles@.to_set(),
            name@,
        ),
        creation_tried ==> !(step matches Some(command) && command@ is CreateRole),
{
    match find_role(roles, name) {
        Some(role) => Some(add_role(member_roles, role)),
        None => {
            if creation_tried {
                None
            } else {
                Some(RoleCommand::CreateRole { name: name.to_owned(), hoist: true })
            }
        },
    }
}

/// Works towards the member not holding the role of the given name. Where
/// the server has no role of that name there is nothing to take away.
pub fn remove_role_by_name(roles: &Vec<Role>, member_roles: &Vec<u64>, name: &str) -> (command:
    RoleCommand)
    ensures
        command@ == remove_by_name_step(role_views(roles@), member_roles@.to_set(), name@),
{
    match find_role(roles, name) {
        Some(role) => remove_role(member_roles, role),
        None => RoleCommand::Nothing,
    }
}

/// A role that is appended does not change what a name is found as, unless
/// the name was not found before and is the new role's own.
pub proof fn role_named_after_push(roles: Seq<RoleView>, added: RoleView, name: Seq<char>)
    ensures
        role_named(roles.push(added), name) == match role_named(roles, name) {
            Some(role) => Some(role),
            None => if added.name == name {
                Some(added.id)
            } else {
                None
            },
        },
    decreases roles.len(),
{
    let grown = roles.push(added);
    if roles.len() == 0 {
        assert(grown[0] == added);
        assert(role_named(grown.skip(1), name) is None);
    } else {
        assert(grown[0] == roles[0]);
        assert(grown.skip(1) == roles.skip(1).push(added));
        role_named_after_push(roles.skip(1), added, name);
    }
}

/// The classification depends on which names are held and on nothing else:
/// two collections with the same names in them, in whatever order and however
/// often, classify alike.
pub proof fn classification_depends_on_names_held(a: Seq<Seq<char>>, b: Seq<Seq<char>>)
    requires
        a.to_set() == b.to_set(),
    ensures
        classification_of(a) == classification_of(b),
{
    assert forall|name: Seq<char>| a.contains(name) == b.contains(name) by {
        assert(a.to_set().contains(name) == a.contains(name));
        assert(b.to_set().contains(name) == b.contains(name));
    }
}

/// Asking for the same role again settles: once the first command has been
/// carried out no second role of that name is created, and once the second
/// has been carried out the member holds the role and nothing more is due,
/// however often the question is asked again.
pub proof fn set_exclusive_role_settles(
    roles: Seq<RoleView>,
    held: Set<u64>,
    name: Seq<char>,
    fresh: u64,
)
    ensures
        ({
            let first = exclusive_step(roles, held, name);
            let roles1 = roles_after(roles, first, fresh);
            let held1 = held_after(held, first);
            let second = exclusive_step(roles1, held1, name);
            let roles2 = roles_after(roles1, second, fresh);
            let held2 = held_after(held1, second);
            let third = exclusive_step(roles2, held2, name);
            &&& !(second is CreateRole)
            &&& roles2 == roles1
            &&& third is Nothing
            &&& roles_after(roles2, third, fresh) == roles2
            &&& held_after(held2, third) == held2
            &&& role_named(roles2, name) matches Some(role) && held2.contains(role)
        }),
{
    let first = exclusive_step(roles, held, name);
    if first is CreateRole {
        role_named_after_push(roles, RoleView { id: fresh, name }, name);
    }
}

/// Taking a role away settles at once: after the command has been carried
/// out the member does not hold the role and nothing more is due.
pub proof fn remove_role_settles(held: Set<u64>, role: u64)
    ensures
        !held_after(held, remove_step(held, role)).contains(role),
        remove_step(held_after(held, remove_step(held, role)), role) is Nothing,
{
}

/// Giving a role settles at once: after the command has been carried out
/// the member holds the role and nothing more is due.
pub proof fn add_role_settles(held: Set<u64>, role: u64)
    ensures
        held_after(held, add_step(held, role)).contains(role),
        add_step(held_after(held, add_step(held, role)), role) is Nothing,
{
}

} // verus!
