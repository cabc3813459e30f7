//! Tabular record pipeline for building course-catalog, user-seeding and
//! user-enrolment import files.

pub mod text;
pub mod record;
pub mod table;
pub mod pipeline;
pub mod constants;
pub mod campus;
pub mod sources;
pub mod fields;
pub mod modes;
pub mod preview;
pub mod cli;
