//! A personal work log: timestamped messages kept in a local table, listed by day,
//! updated and deleted by identifier.
pub mod commands;
pub mod datetime;
pub mod db_manager;
pub mod table_laws;

pub use commands::App;
