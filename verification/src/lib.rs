//! Team records, list filtering and chart geometry for a team editor.

pub mod chart;
pub mod data;
pub mod error;
pub mod text;
pub mod ui;
pub mod utils;
