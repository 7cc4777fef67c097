//! A recipe book and a roasting schedule.
//!
//! The book keeps recipes in the order in which they were added and derives,
//! for each, an anchor from its name. The schedule holds a finishing time and
//! a list of steps, each a number of minutes away from it, and tells at which
//! time of day each step falls.

pub mod clock;
pub mod home;
pub mod store;
pub mod text;
pub mod timings;
