//! The errors that the library reports.

use vstd::prelude::*;
use vstd::string::*;

verus! {

/// The error type of `serde_json`, carried through unread.
#[verifier::external_type_specification]
#[verifier::external_body]
pub struct ExJsonError(serde_json::Error);

/// What went wrong.
#[derive(Debug)]
pub enum AppError {
    /// The database reported a failure.
    DatabaseError(String),
    /// A text that should hold JSON does not.
    JsonError(serde_json::Error),
    /// An input is not what the field takes.
    InvalidInput(String),
    /// A record is not there.
    NotFound(String),
    /// No database is loaded.
    DatabaseNotLoaded,
    /// No team is selected.
    TeamNotSelected,
    /// Anything else.
    Unknown(String),
}

/// Calls `serde_json::Error`'s `to_string`, the error's own account of
/// itself. Nothing is claimed of the text.
#[verifier::external_body]
fn json_error_text(e: &serde_json::Error) -> (text: String) {
    e.to_string()
}

/// The fixed words that start the message of `e`.
pub open spec fn message_prefix(e: AppError) -> Seq<char> {
    match e {
        AppError::DatabaseError(_) => "数据库错误: "@,
        AppError::JsonError(_) => "JSON解析错误: "@,
        AppError::InvalidInput(_) => "无效输入: "@,
        AppError::NotFound(_) => "未找到记录: "@,
        AppError::DatabaseNotLoaded => "未加载数据库"@,
        AppError::TeamNotSelected => "未选择球队"@,
        AppError::Unknown(_) => "未知错误: "@,
    }
}

impl AppError {
    /// The message of the error: fixed words for its kind, followed by the
    /// detail that it carries, if any.
    pub fn message(&self) -> (text: String)
        ensures
            match *self {
                AppError::DatabaseError(detail) => text@ == message_prefix(*self) + detail@,
                AppError::JsonError(_) => text@.len() >= message_prefix(*self).len()
                    && text@.take(message_prefix(*self).len() as int) == message_prefix(*self),
                AppError::InvalidInput(detail) => text@ == message_prefix(*self) + detail@,
                AppError::NotFound(detail) => text@ == message_prefix(*self) + detail@,
                AppError::DatabaseNotLoaded => text@ == message_prefix(*self),
                AppError::TeamNotSelected => text@ == message_prefix(*self),
                AppError::Unknown(detail) => text@ == message_prefix(*self) + detail@,
            },
    {
        match self {
            AppError::DatabaseError(detail) => {
                let mut text = "数据库错误: ".to_owned();
                text.append(detail.as_str());
                text
            },
            AppError::JsonError(e) => {
                let mut text = "JSON解析错误: ".to_owned();
                let detail = json_error_text(e);
                text.append(detail.as_str());
                assert(text@.take("JSON解析错误: "@.len() as int) =~= "JSON解析错误: "@);
                text
            },
            AppError::InvalidInput(detail) => {
                let mut text = "无效输入: ".to_owned();
                text.append(detail.as_str());
                text
            },
            AppError::NotFound(detail) => {
                let mut text = "未找到记录: ".to_owned();
                text.append(detail.as_str());
                text
            },
            AppError::DatabaseNotLoaded => "未加载数据库".to_owned(),
            AppError::TeamNotSelected => "未选择球队".to_owned(),
            AppError::Unknown(detail) => {
                let mut text = "未知错误: ".to_owned();
                text.append(detail.as_str());
                text
            },
        }
    }
}

} // verus!
