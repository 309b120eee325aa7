//! A booking ledger for a small studio: client bookings with attendance
//! outcomes, staff accounts with password credentials, and simple reports.

pub mod text;
pub mod credential;
pub mod model;
pub mod ledger;
pub mod report;
pub mod laws;
