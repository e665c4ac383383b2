//! The state behind the editor's panels and dialogs. Drawing them is the
//! host's part.

pub mod dialogs;
pub mod shell;
pub mod sponsor_editor;
pub mod staff_list;
pub mod team_details;
pub mod team_list;
pub mod visualization;
