//! Column resolution and value materialization for records loaded from tabular rows.
//!
//! A record type declares its fields once, with directives on the type and on each
//! field. This library parses those directives, resolves the candidate column names
//! of every field, and plans how each field is filled from a row.

pub mod attributes;
pub mod joined_row;
pub mod row;
pub mod types;
