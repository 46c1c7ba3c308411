//! Reports on the bank's events: exporters and the report kinds.
pub mod exporters;
pub mod aml;
pub mod transactions;
pub mod velocity;
