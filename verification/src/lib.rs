//! Costs of one function, read from a profiler's report and compared with an
//! earlier measurement.
//!
//! `sentinel_parser` reads the costs of a function from the lines of a
//! report; `costs` holds them and derives the cache summary; `print` lays
//! out the comparison of two measurements and the title of a report section.

pub mod callgrind;
pub mod costs;
pub mod delta;
pub mod error;
pub mod event_kind;
pub mod parser;
pub mod print;
pub mod sentinel_parser;
pub mod text;
