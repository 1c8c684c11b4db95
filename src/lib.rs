//! Dog owners, their dogs and their bookings: validated records, a repository
//! over the three collections, and the upcoming-bookings view that joins a
//! booking with its owner's dogs.

pub mod identity;
pub mod clock;
pub mod models;
pub mod aggregate;
pub mod repository;
