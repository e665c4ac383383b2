//! Statistics aggregation and chart geometry.

pub mod axis;
pub mod bar;
pub mod buckets;
pub mod categories;
pub mod category_laws;
pub mod dataset;
pub mod engine;
pub mod palette;
pub mod pie;
pub mod years;
