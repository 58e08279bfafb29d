//! One controller per kind of record: how a stored row is shown, and the
//! operations on the rows of that kind.

pub mod donations;
pub mod games;
pub mod investments;
pub mod investors;
pub mod jobs;
pub mod publishers;
pub mod staff;
pub mod users;
