//! A tutorial site on SQL window functions: its question catalogue, the
//! navigation between question pages, and the screening and tabulation of the
//! SQL that a visitor runs.

pub mod decimal;
pub mod text;
pub mod sql;
pub mod pattern;
pub mod db;
pub mod page;
pub mod errors;
