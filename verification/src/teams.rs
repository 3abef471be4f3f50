//! Four football teams and their full names.

use vstd::prelude::*;

verus! {

/// A team, by its three-letter code.
#[allow(clippy::upper_case_acronyms)]
#[derive(Clone, Copy, Debug, PartialEq, Eq, Structural)]
pub enum Team {
    NYG,
    DAL,
    PHI,
    WAS,
}

/// The full name of each team, as it is printed.
pub open spec fn name_of(team: Team) -> Seq<char> {
    match team {
        Team::NYG => "New York Football Giants."@,
        Team::DAL => "Dallas Cowboys."@,
        Team::PHI => "Philadelphia Eagles."@,
        Team::WAS => "Washington Football Team."@,
    }
}

/// Returns the full name of a team.
pub fn team_name(team: Team) -> (name: &'static str)
    ensures
        name@ == name_of(team),
{
    match team {
        Team::NYG => "New York Football Giants.",
        Team::DAL => "Dallas Cowboys.",
        Team::PHI => "Philadelphia Eagles.",
        Team::WAS => "Washington Football Team.",
    }
}

} // verus!
