//! Generates, from one description of tables, fields, relations and views, the
//! SQL statements that create the schema and the component markup of an
//! administration interface over it.

pub mod expr;
pub mod generator;
pub mod ordered;
pub mod schema_spec;
pub mod sql_gen;
pub mod text;
pub mod view_gen;
pub mod viewgen;
