//! Relatable (rltbl): the verified core of a tool for cleaning and connecting tabular data.
use vstd::prelude::*;

pub mod change;
pub mod cli;
pub mod demo;
pub mod column;
pub mod datatype;
pub mod error;
pub mod git;
pub mod json;
pub mod maps;
pub mod message;
pub mod pattern;
pub mod result_set;
pub mod row;
pub mod schema;
pub mod select;
pub mod site;
pub mod sql;
pub mod structure;
pub mod table;
pub mod tableset;
pub mod test;
pub mod text;
pub mod user;
pub mod web;
pub mod writers;
verus! {
}
