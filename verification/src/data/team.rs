//! Teams and leagues.

use vstd::prelude::*;
use vstd::string::*;
use crate::text::{decimal, format_i64};

verus! {

/// A team.
#[derive(Debug)]
pub struct Team {
    pub id: i64,
    pub name: String,
    pub wealth: i64,
    pub found_year: i64,
    pub location: String,
    pub supporter_count: i64,
    pub stadium_name: String,
    pub nickname: String,
    pub league_id: i64,
}

/// A team as plain values.
pub struct TeamView {
    pub id: int,
    pub name: Seq<char>,
    pub wealth: int,
    pub found_year: int,
    pub location: Seq<char>,
    pub supporter_count: int,
    pub stadium_name: Seq<char>,
    pub nickname: Seq<char>,
    pub league_id: int,
}

impl View for Team {
    type V = TeamView;

    open spec fn view(&self) -> TeamView {
        TeamView {
            id: self.id as int,
            name: self.name@,
            wealth: self.wealth as int,
            found_year: self.found_year as int,
            location: self.location@,
            supporter_count: self.supporter_count as int,
            stadium_name: self.stadium_name@,
            nickname: self.nickname@,
            league_id: self.league_id as int,
        }
    }
}

impl Clone for Team {
    fn clone(&self) -> (r: Self)
        ensures
            r == *self,
    {
        Team {
            id: self.id,
            name: self.name.clone(),
            wealth: self.wealth,
            found_year: self.found_year,
            location: self.location.clone(),
            supporter_count: self.supporter_count,
            stadium_name: self.stadium_name.clone(),
            nickname: self.nickname.clone(),
            league_id: self.league_id,
        }
    }
}

/// The text in which a search over all fields looks: the fields of the
/// team one after the other, numbers in decimal, with nothing between them.
pub open spec fn spec_search_string(team: TeamView) -> Seq<char> {
    decimal(team.id) + team.name + decimal(team.wealth) + decimal(team.found_year) + team.location
        + decimal(team.supporter_count) + team.stadium_name + team.nickname + decimal(
        team.league_id,
    )
}

/// The text that shows a record in a list: its name and its number.
pub open spec fn spec_display_text(name: Seq<char>, id: int) -> Seq<char> {
    name + " (ID: "@ + decimal(id) + ")"@
}

/// Appends the decimal text of `n` to `out`.
pub fn push_i64(out: &mut String, n: i64)
    ensures
        final(out)@ == old(out)@ + decimal(n as int),
{
    let text = format_i64(n);
    out.append(text.as_str());
}

/// Builds the text that shows a record in a list.
pub fn display_text(name: &str, id: i64) -> (text: String)
    ensures
        text@ == spec_display_text(name@, id as int),
{
    let mut text = name.to_owned();
    text.append(" (ID: ");
    push_i64(&mut text, id);
    text.append(")");
    text
}

impl Team {
    /// The text in which a search over all fields looks.
    pub fn search_string(&self) -> (text: String)
        ensures
            text@ == spec_search_string(self@),
    {
        let mut text = format_i64(self.id);
        text.append(self.name.as_str());
        push_i64(&mut text, self.wealth);
        push_i64(&mut text, self.found_year);
        text.append(self.location.as_str());
        push_i64(&mut text, self.supporter_count);
        text.append(self.stadium_name.as_str());
        text.append(self.nickname.as_str());
        push_i64(&mut text, self.league_id);
        text
    }

    /// The text that shows the team in a list.
    pub fn display_text(&self) -> (text: String)
        ensures
            text@ == spec_display_text(self.name@, self.id as int),
    {
        display_text(self.name.as_str(), self.id)
    }
}

/// A league.
#[derive(Debug)]
pub struct League {
    pub id: i64,
    pub name: String,
}

impl Clone for League {
    fn clone(&self) -> (r: Self)
        ensures
            r == *self,
    {
        League { id: self.id, name: self.name.clone() }
    }
}

} // verus!
