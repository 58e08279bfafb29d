//! Records of a game studio (games, publishers, investors, staff, users,
//! donations, jobs, investments): how they are stored, with money in cents
//! and dates as day numbers; how they are shown; and the operations over
//! them, which keep every foreign key pointing at an existing row.

pub mod calendar;
pub mod controllers;
pub mod dates;
pub mod errors;
pub mod records;
pub mod store;
pub mod table;
