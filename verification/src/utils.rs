//! Input checks and file names.

use vstd::prelude::*;
use vstd::string::*;
use crate::data::team::push_i64;
use crate::error::AppError;
use crate::text::{decimal, parse_i64, spec_parse_i64, trim, trimmed};

verus! {

/// The message for an input that is not a number.
pub open spec fn spec_invalid_number(input: Seq<char>) -> Seq<char> {
    "无效的数字输入: "@ + input
}

/// Reads a number from an input field, white space around it set aside.
/// Anything else is an invalid input, reported with the input as it was
/// given.
pub fn validate_number(input: &str) -> (r: Result<i64, AppError>)
    ensures
        match spec_parse_i64(trimmed(input@)) {
            Some(n) => r == Ok::<i64, AppError>(n),
            None => r matches Err(AppError::InvalidInput(m)) && m@ == spec_invalid_number(input@),
        },
{
    match parse_i64(trim(input)) {
        Some(n) => Ok(n),
        None => {
            let mut message = "无效的数字输入: ".to_owned();
            message.append(input);
            Err(AppError::InvalidInput(message))
        },
    }
}

/// The name of the file that holds a team's logo.
pub open spec fn spec_logo_file_name(team_id: int) -> Seq<char> {
    "L"@ + decimal(team_id) + ".png"@
}

/// Builds the name of the file that holds a team's logo.
pub fn logo_file_name(team_id: i64) -> (name: String)
    ensures
        name@ == spec_logo_file_name(team_id as int),
{
    let mut name = "L".to_owned();
    push_i64(&mut name, team_id);
    name.append(".png");
    name
}

/// The name of the picture file of a record by its number.
pub open spec fn spec_numbered_png(number: int) -> Seq<char> {
    decimal(number) + ".png"@
}

/// Builds the name of the picture file of a record by its number.
pub fn numbered_png(number: i64) -> (name: String)
    ensures
        name@ == spec_numbered_png(number as int),
{
    let mut name = String::new();
    push_i64(&mut name, number);
    name.append(".png");
    assert(name@ =~= spec_numbered_png(number as int));
    name
}

/// Builds the name of the picture file of a record by its name.
pub fn named_png(stem: &str) -> (name: String)
    ensures
        name@ == stem@ + ".png"@,
{
    let mut name = stem.to_owned();
    name.append(".png");
    name
}

} // verus!
