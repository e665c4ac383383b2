//! Staff members and their ability, which is kept as a JSON text.

use vstd::prelude::*;
use vstd::string::*;
use crate::data::team::{display_text, push_i64, spec_display_text};
use crate::error::AppError;
use crate::text::decimal;

verus! {

/// A member of a team's staff.
#[derive(Debug)]
pub struct Staff {
    pub id: i64,
    pub name: String,
    /// The ability as a JSON object with the member `rawAbility`.
    pub ability_json: String,
    pub fame: i64,
    pub team_id: i64,
}

impl Clone for Staff {
    fn clone(&self) -> (r: Self)
        ensures
            r == *self,
    {
        Staff {
            id: self.id,
            name: self.name.clone(),
            ability_json: self.ability_json.clone(),
            fame: self.fame,
            team_id: self.team_id,
        }
    }
}

/// What the ability text holds.
#[derive(Debug, Clone, Copy, PartialEq, Eq)]
pub struct AbilityData {
    pub raw_ability: i64,
}

/// The JSON value of `serde_json`, carried through unread.
#[verifier::external_type_specification]
#[verifier::external_body]
pub struct ExJsonValue(serde_json::Value);

/// What a JSON value holds, as far as the library reads it: the members of
/// an object that are integers which an `i64` holds, by their keys. A value
/// that is no object holds none.
pub uninterp spec fn json_members(value: serde_json::Value) -> Map<Seq<char>, i64>;

/// The integer that a JSON value is, if it is an integer that an `i64`
/// holds.
pub uninterp spec fn json_integer(value: serde_json::Value) -> Option<i64>;

/// What the JSON text `text` holds, in the sense of `json_members`, if it
/// is JSON at all.
pub uninterp spec fn json_parse(text: Seq<char>) -> Option<Map<Seq<char>, i64>>;

/// Calls `serde_json::from_str` for a `serde_json::Value`. Whether the text
/// is JSON, and what the value then holds, depends on the text alone and is
/// named, not described; the error is the parser's own.
#[verifier::external_body]
fn parse_json(text: &str) -> (r: Result<serde_json::Value, serde_json::Error>)
    ensures
        r matches Ok(value) ==> json_parse(text@) == Some(json_members(value)),
        r is Err ==> json_parse(text@) is None,
{
    serde_json::from_str::<serde_json::Value>(text)
}

/// Calls `Value::get` with a text key, which finds the member of that key
/// in an object and nothing in any other value. A member that is found is
/// an integer exactly when the value holds that integer under the key.
#[verifier::external_body]
fn json_get<'a>(value: &'a serde_json::Value, key: &str) -> (r: Option<&'a serde_json::Value>)
    ensures
        r matches Some(member) ==> json_integer(*member) == (if json_members(*value).contains_key(
            key@,
        ) {
            Some(json_members(*value)[key@])
        } else {
            None
        }),
        r is None ==> !json_members(*value).contains_key(key@),
{
    value.get(key)
}

/// Calls `Value::as_i64`, which gives the integer that the value is, if it
/// is one that an `i64` holds.
#[verifier::external_body]
fn json_as_i64(value: &serde_json::Value) -> (r: Option<i64>)
    ensures
        r == json_integer(*value),
{
    value.as_i64()
}

/// The ability that the members of an ability object stand for: the
/// integer under `rawAbility`, or zero when there is none.
pub open spec fn spec_ability(members: Map<Seq<char>, i64>) -> i64 {
    if members.contains_key("rawAbility"@) {
        members["rawAbility"@]
    } else {
        0
    }
}

/// The ability that a JSON value stands for: its integer member
/// `rawAbility`, or zero when it has none.
pub fn ability_of(value: &serde_json::Value) -> (ability: i64)
    ensures
        ability == spec_ability(json_members(*value)),
{
    match json_get(value, "rawAbility") {
        Some(member) => match json_as_i64(member) {
            Some(n) => n,
            None => 0,
        },
        None => 0,
    }
}

/// The ability text of `ability`.
pub open spec fn spec_ability_json(ability: int) -> Seq<char> {
    "{\"rawAbility\":"@ + decimal(ability) + "}"@
}

impl Staff {
    /// Reads the ability from the ability text. A text that is not JSON is
    /// an error; a JSON text without an integer `rawAbility` gives zero.
    pub fn get_ability(&self) -> (r: Result<i64, AppError>)
        ensures
            match json_parse(self.ability_json@) {
                Some(members) => r == Ok::<i64, AppError>(spec_ability(members)),
                None => r matches Err(AppError::JsonError(_)),
            },
    {
        match parse_json(self.ability_json.as_str()) {
            Ok(value) => Ok(ability_of(&value)),
            Err(e) => Err(AppError::JsonError(e)),
        }
    }

    /// Replaces the ability text by the text of `new_ability`.
    pub fn update_ability(&mut self, new_ability: i64) -> (r: Result<(), AppError>)
        ensures
            r is Ok,
            final(self).ability_json@ == spec_ability_json(new_ability as int),
            final(self).id == old(self).id,
            final(self).name == old(self).name,
            final(self).fame == old(self).fame,
            final(self).team_id == old(self).team_id,
    {
        let mut json = "{\"rawAbility\":".to_owned();
        push_i64(&mut json, new_ability);
        json.append("}");
        self.ability_json = json;
        Ok(())
    }

    /// The text that shows the staff member in a list.
    pub fn display_text(&self) -> (text: String)
        ensures
            text@ == spec_display_text(self.name@, self.id as int),
    {
        display_text(self.name.as_str(), self.id)
    }
}

} // verus!
