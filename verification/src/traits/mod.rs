//! Core types and traits for composable attention mechanisms.

pub mod attention;
pub mod linear;
pub mod schedule;
pub mod sequence;
pub mod types;
pub mod type_laws;
