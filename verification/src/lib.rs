//! Safety linter for PostgreSQL schema migrations.
pub mod catalog;
pub mod paths;
pub mod pipeline;
pub mod parser;
pub mod rules;
pub mod text;
