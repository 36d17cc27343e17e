//! Scheduling core for a teacher/course administration backend.
//!
//! The library owns the algorithmic heart of the system: pairwise
//! time-interval conflict detection, a greedy search that proposes
//! non-conflicting weekly time slots for a teacher's courses, and the
//! computation of a facility's free-time ranges from its occupied
//! intervals. Persistence and HTTP transport live outside the library
//! and hand it plain value snapshots.

pub mod availability;
pub mod conflict;
pub mod errors;
pub mod model;
pub mod scheduling;
