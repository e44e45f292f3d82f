//! Atomic publication of terrain and object halves, the camera traversal
//! that schedules them, and the fixtures they are generated from.
pub mod traversal;
pub mod fixture;
pub mod rollover;
pub mod global;
pub mod state;
pub mod contact;
pub mod grounding;
pub mod boundary;
pub mod grounding_check;
