//! Room occupancy for dormitories: residents are assigned to rooms under a
//! hard capacity limit, and each resident occupies at most one room.
//!
//! `rules` defines what assigning and unassigning do to the housing state and
//! what a consistent state is; `laws` proves that the two operations keep a
//! state consistent. `engine` holds the state in memory and performs the
//! operations on it. `protocol` performs them against a document store, one
//! request at a time, and `replay` proves that its steps make the same change.

pub mod engine;
pub mod error;
pub mod ident;
pub mod laws;
pub mod model;
pub mod protocol;
pub mod replay;
pub mod rules;
