//! A bidirectional calendar-month generator.
//!
//! From a starting month, [`generator::MonthGenerator`] steps forward or
//! backward through the sequence of calendar months, rolling over year
//! boundaries (December to January and back). Years are held as `i32`;
//! stepping past `i32::MAX` or before `i32::MIN` exhausts the generator,
//! and exhaustion is terminal.

pub mod generator;
pub mod month;
