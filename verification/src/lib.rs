//! The verified core of a lab attendance logger: students' roll numbers are
//! scanned into per-session tables of a monthly SQLite database, and a small
//! web server shows the records.
//!
//! - `text`: whitespace, splitting, numerals and padding over characters.
//! - `api`: monthly database file names and their labels.
//! - `clock`: stored times, the clock, and the two-minute exit rule.
//! - `config`: the lab configuration and the answers it is made from.
//! - `database`: session records and the SQL run on them.
//! - `console`: the banner, the menu and roll-number input.
//! - `http`: routing report-server requests and framing replies.

pub mod text;
pub mod http;
pub mod api;
pub mod clock;
pub mod config;
pub mod database;
pub mod console;
