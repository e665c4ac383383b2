//! The state of the detail panel of the selected team.

use std::collections::HashMap;
use vstd::prelude::*;
use vstd::string::*;
use vstd::std_specs::hash::*;
use crate::data::team::{Team, push_i64};
use crate::text::{
    decimal, format_i64, lemma_parse_of_decimal, number_or_zero, spec_number_or_zero,
};

verus! {

broadcast use vstd::std_specs::hash::group_hash_axioms;

/// The fields of a team as they stand in the edit boxes.
#[derive(Debug)]
pub struct EditableTeamFields {
    pub name: String,
    pub wealth: String,
    pub found_year: String,
    pub location: String,
    pub supporter_count: String,
    pub stadium_name: String,
    pub nickname: String,
}

impl Clone for EditableTeamFields {
    fn clone(&self) -> (r: Self)
        ensures
            r == *self,
    {
        EditableTeamFields {
            name: self.name.clone(),
            wealth: self.wealth.clone(),
            found_year: self.found_year.clone(),
            location: self.location.clone(),
            supporter_count: self.supporter_count.clone(),
            stadium_name: self.stadium_name.clone(),
            nickname: self.nickname.clone(),
        }
    }
}

impl Default for EditableTeamFields {
    fn default() -> (fields: Self)
        ensures
            fields.is_empty(),
    {
        EditableTeamFields {
            name: String::new(),
            wealth: String::new(),
            found_year: String::new(),
            location: String::new(),
            supporter_count: String::new(),
            stadium_name: String::new(),
            nickname: String::new(),
        }
    }
}

impl EditableTeamFields {
    /// Every field is empty.
    pub open spec fn is_empty(&self) -> bool {
        &&& self.name@.len() == 0
        &&& self.wealth@.len() == 0
        &&& self.found_year@.len() == 0
        &&& self.location@.len() == 0
        &&& self.supporter_count@.len() == 0
        &&& self.stadium_name@.len() == 0
        &&& self.nickname@.len() == 0
    }

    /// The fields show `team`.
    pub open spec fn shows(&self, team: Team) -> bool {
        &&& self.name@ == team.name@
        &&& self.wealth@ == decimal(team.wealth as int)
        &&& self.found_year@ == decimal(team.found_year as int)
        &&& self.location@ == team.location@
        &&& self.supporter_count@ == decimal(team.supporter_count as int)
        &&& self.stadium_name@ == team.stadium_name@
        &&& self.nickname@ == team.nickname@
    }
}

/// The team on show, the names of the leagues, and the edit boxes.
pub struct TeamDetailsView {
    pub team: Option<Team>,
    /// The name of each league by its number.
    pub leagues: HashMap<i64, String>,
    pub edited_fields: EditableTeamFields,
    pub has_changes: bool,
}

/// The text that names a league: its name and its number, or a word for an
/// unknown league and its number.
pub open spec fn spec_league_text(name: Option<Seq<char>>, league_id: int) -> Seq<char> {
    match name {
        Some(name) => name + " (ID: "@ + decimal(league_id) + ")"@,
        None => "未知联赛 (ID: "@ + decimal(league_id) + ")"@,
    }
}

/// Edit boxes that show a team hold its numbers: read back, they give the
/// wealth, the founding year and the number of supporters of the team.
pub proof fn lemma_shown_numbers_read_back(fields: EditableTeamFields, team: Team)
    requires
        fields.shows(team),
    ensures
        spec_number_or_zero(fields.wealth@) == team.wealth,
        spec_number_or_zero(fields.found_year@) == team.found_year,
        spec_number_or_zero(fields.supporter_count@) == team.supporter_count,
{
    lemma_parse_of_decimal(team.wealth);
    lemma_parse_of_decimal(team.found_year);
    lemma_parse_of_decimal(team.supporter_count);
}

impl TeamDetailsView {
    /// A panel without a team, without leagues and without changes.
    pub fn new() -> (view: Self)
        ensures
            view.team is None,
            view.leagues@.len() == 0,
            view.edited_fields.is_empty(),
            !view.has_changes,
    {
        TeamDetailsView {
            team: None,
            leagues: HashMap::new(),
            edited_fields: EditableTeamFields::default(),
            has_changes: false,
        }
    }

    /// Shows `team`: the edit boxes take its fields, and nothing counts as
    /// changed.
    pub fn set_team(&mut self, team: Team)
        ensures
            final(self).team == Some(team),
            final(self).edited_fields.shows(team),
            !final(self).has_changes,
            final(self).leagues == old(self).leagues,
    {
        self.edited_fields = EditableTeamFields {
            name: team.name.clone(),
            wealth: format_i64(team.wealth),
            found_year: format_i64(team.found_year),
            location: team.location.clone(),
            supporter_count: format_i64(team.supporter_count),
            stadium_name: team.stadium_name.clone(),
            nickname: team.nickname.clone(),
        };
        self.team = Some(team);
        self.has_changes = false;
    }

    /// Takes `leagues` as the names of the leagues.
    pub fn set_leagues(&mut self, leagues: HashMap<i64, String>)
        ensures
            final(self).leagues == leagues,
            final(self).team == old(self).team,
            final(self).edited_fields == old(self).edited_fields,
            final(self).has_changes == old(self).has_changes,
    {
        self.leagues = leagues;
    }

    /// Notes whether a field was changed in this frame.
    pub fn note_changes(&mut self, changed: bool)
        ensures
            final(self).has_changes == (old(self).has_changes || changed),
            final(self).team == old(self).team,
            final(self).leagues == old(self).leagues,
            final(self).edited_fields == old(self).edited_fields,
    {
        self.has_changes = self.has_changes || changed;
    }

    /// The team on show with the fields of the edit boxes: texts as they
    /// stand, numbers as far as the boxes hold numbers and zero otherwise.
    /// The number of the team and its league stay.
    pub fn get_edited_team(&self) -> (edited: Option<Team>)
        ensures
            self.team is None <==> edited is None,
            edited matches Some(e) ==> {
                &&& e.id == self.team->0.id
                &&& e.league_id == self.team->0.league_id
                &&& e.name@ == self.edited_fields.name@
                &&& e.wealth == spec_number_or_zero(self.edited_fields.wealth@)
                &&& e.found_year == spec_number_or_zero(self.edited_fields.found_year@)
                &&& e.location@ == self.edited_fields.location@
                &&& e.supporter_count == spec_number_or_zero(self.edited_fields.supporter_count@)
                &&& e.stadium_name@ == self.edited_fields.stadium_name@
                &&& e.nickname@ == self.edited_fields.nickname@
            },
    {
        match &self.team {
            Some(team) => Some(
                Team {
                    id: team.id,
                    name: self.edited_fields.name.clone(),
                    wealth: number_or_zero(self.edited_fields.wealth.as_str()),
                    found_year: number_or_zero(self.edited_fields.found_year.as_str()),
                    location: self.edited_fields.location.clone(),
                    supporter_count: number_or_zero(self.edited_fields.supporter_count.as_str()),
                    stadium_name: self.edited_fields.stadium_name.clone(),
                    nickname: self.edited_fields.nickname.clone(),
                    league_id: team.league_id,
                },
            ),
            None => None,
        }
    }

    /// The text that names the league of the team on show.
    pub fn league_text(&self) -> (text: Option<String>)
        ensures
            self.team is None <==> text is None,
            text matches Some(t) ==> t@ == spec_league_text(
                if self.leagues@.contains_key(self.team->0.league_id) {
                    Some(self.leagues@[self.team->0.league_id]@)
                } else {
                    None
                },
                self.team->0.league_id as int,
            ),
    {
        match &self.team {
            Some(team) => {
                let mut text = match self.leagues.get(&team.league_id) {
                    Some(name) => {
                        let mut text = name.clone();
                        text.append(" (ID: ");
                        text
                    },
                    None => "未知联赛 (ID: ".to_owned(),
                };
                push_i64(&mut text, team.league_id);
                text.append(")");
                Some(text)
            },
            None => None,
        }
    }
}

} // verus!
