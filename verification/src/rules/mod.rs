//! The rule engine: rule identifiers, findings, lint context and the rules.
pub mod cast;
pub mod volatility;
pub mod checks;
pub mod context;
pub mod explain;
pub mod finding;
pub mod ids;
pub mod messages;
pub mod existing_table_check;
pub mod alter_table_check;
pub mod drop_column_check;
pub mod column_type_check;
pub mod rule;
